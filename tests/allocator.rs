use wormhole_core::allocator::{AllocatorMachine, State};
use wormhole_core::event::{AllocatorEvent, Code, CodeEvent, Event, Nameplate, RendezvousEvent};

fn words() -> Vec<String> {
    vec!["purple".to_string(), "sausage".to_string()]
}

#[test]
fn allocator_sender_path() {
    let mut a = AllocatorMachine::new();
    assert_eq!(a.process(AllocatorEvent::Connected), Vec::<Event>::new());
    assert_eq!(
        a.process(AllocatorEvent::Allocate(2)),
        vec![Event::Rendezvous(RendezvousEvent::TxAllocate)]
    );
    assert_eq!(a.state, State::S1BWantingConnected(2));
    let got = a.process(AllocatorEvent::RxAllocated(Nameplate("4".to_string()), words()));
    assert_eq!(got, vec![Event::Code(CodeEvent::Allocated(Code("4-purple-sausage".to_string())))]);
    assert_eq!(a.state, State::S2Done);
    if let Event::Code(CodeEvent::Allocated(code)) = &got[0] {
        assert_eq!(code.0.split('-').count(), 3);
    }
    assert_eq!(a.process(AllocatorEvent::Lost), Vec::<Event>::new());
    assert_eq!(a.state, State::S2Done);
}

#[test]
fn allocator_asks_again_after_reconnect() {
    let mut a = AllocatorMachine::new();
    assert_eq!(a.process(AllocatorEvent::Allocate(3)), Vec::<Event>::new());
    assert_eq!(a.state, State::S1AWantingDisconnected(3));
    assert_eq!(
        a.process(AllocatorEvent::Connected),
        vec![Event::Rendezvous(RendezvousEvent::TxAllocate)]
    );
    assert_eq!(a.process(AllocatorEvent::Lost), Vec::<Event>::new());
    assert_eq!(a.state, State::S1AWantingDisconnected(3));
    assert_eq!(
        a.process(AllocatorEvent::Connected),
        vec![Event::Rendezvous(RendezvousEvent::TxAllocate)]
    );
}

#[test]
fn allocator_ignores_allocation_it_did_not_ask_for() {
    let mut a = AllocatorMachine::new();
    a.process(AllocatorEvent::Connected);
    assert_eq!(
        a.process(AllocatorEvent::RxAllocated(Nameplate("9".to_string()), words())),
        Vec::<Event>::new()
    );
    assert_eq!(a.state, State::S0BIdleConnected);
}
