use wormhole_core::event::{CryptoEvent, Event, Key, MySide, Phase, SendEvent};
use wormhole_core::send::{SendMachine, State};

fn side() -> MySide {
    MySide("side1".to_string())
}

fn seal(key: &[u8], phase: &str, body: &[u8]) -> Event {
    Event::Crypto(CryptoEvent::SealAndAdd(
        side(),
        Key(key.to_vec()),
        Phase(phase.to_string()),
        body.to_vec(),
    ))
}

fn send(phase: &str, body: &[u8]) -> SendEvent {
    SendEvent::Send(Phase(phase.to_string()), body.to_vec())
}

#[test]
fn send_queues_until_key_then_flushes_in_order() {
    let mut s = SendMachine::new(&side());
    assert_eq!(s.side, side());
    assert_eq!(s.process(send("0", b"hi")), Vec::<Event>::new());
    assert_eq!(s.process(send("1", b"there")), Vec::<Event>::new());
    assert_eq!(s.queue.len(), 2);
    assert_eq!(
        s.process(SendEvent::GotVerifiedKey(Key(b"k".to_vec()))),
        vec![seal(b"k", "0", b"hi"), seal(b"k", "1", b"there")]
    );
    assert!(s.queue.is_empty());
    assert!(matches!(s.state, State::S1HaveVerifiedKey(_)));
    assert_eq!(s.process(send("2", b"later")), vec![seal(b"k", "2", b"later")]);
}

#[test]
fn send_with_empty_queue_emits_nothing_on_key() {
    let mut s = SendMachine::new(&side());
    assert_eq!(s.process(SendEvent::GotVerifiedKey(Key(vec![1, 2, 3]))), Vec::<Event>::new());
    assert_eq!(s.process(send("0", b"")), vec![seal(&[1, 2, 3], "0", b"")]);
}
