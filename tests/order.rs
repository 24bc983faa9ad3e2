use wormhole_core::event::{Event, KeyEvent, OrderEvent, Phase, ReceiveEvent, TheirSide};
use wormhole_core::order::{OrderMachine, State};

fn msg(phase: &str, body: &[u8]) -> OrderEvent {
    OrderEvent::GotMessage(TheirSide("side2".to_string()), Phase(phase.to_string()), body.to_vec())
}

fn rx(phase: &str, body: &[u8]) -> Event {
    Event::Receive(ReceiveEvent::GotMessage(
        TheirSide("side2".to_string()),
        Phase(phase.to_string()),
        body.to_vec(),
    ))
}

#[test]
fn order_queues_until_pake_then_flushes_in_arrival_order() {
    let mut order = OrderMachine::new();
    assert_eq!(order.process(msg("version", b"v")), Vec::<Event>::new());
    assert_eq!(order.process(msg("0", b"first")), Vec::<Event>::new());
    assert_eq!(order.process(msg("1", b"second")), Vec::<Event>::new());
    assert_eq!(order.state, State::S0);
    assert_eq!(
        order.process(msg("pake", b"element")),
        vec![
            Event::Key(KeyEvent::GotPake(b"element".to_vec())),
            rx("version", b"v"),
            rx("0", b"first"),
            rx("1", b"second"),
        ]
    );
    assert_eq!(order.state, State::S1);
    assert!(order.queue.is_empty());
}

#[test]
fn order_forwards_everything_after_pake() {
    let mut order = OrderMachine::new();
    assert_eq!(
        order.process(msg("pake", b"p")),
        vec![Event::Key(KeyEvent::GotPake(b"p".to_vec()))]
    );
    assert_eq!(order.process(msg("2", b"x")), vec![rx("2", b"x")]);
    assert_eq!(order.process(msg("pake", b"again")), vec![rx("pake", b"again")]);
}
