use wormhole_core::event::{BossEvent, CryptoEvent, Event, Key, Phase, ReceiveEvent, TheirSide};
use wormhole_core::receive::{ReceiveMachine, State};

fn peer() -> TheirSide {
    TheirSide("bbbbb".to_string())
}

fn sealed(phase: &str, body: &[u8]) -> ReceiveEvent {
    ReceiveEvent::GotMessage(peer(), Phase(phase.to_string()), body.to_vec())
}

fn opened(phase: &str, pt: Option<&[u8]>) -> ReceiveEvent {
    ReceiveEvent::Opened(peer(), Phase(phase.to_string()), pt.map(|b| b.to_vec()))
}

fn open_req(key: &[u8], phase: &str, body: &[u8]) -> Event {
    Event::Crypto(CryptoEvent::Open(peer(), Key(key.to_vec()), Phase(phase.to_string()), body.to_vec()))
}

fn app_msg(phase: &str, pt: &[u8]) -> Event {
    Event::Boss(BossEvent::GotMessage(Phase(phase.to_string()), pt.to_vec()))
}

#[test]
fn receive_waits_for_key_and_version() {
    let mut r = ReceiveMachine::new();
    assert_eq!(r.process(sealed("version", b"cv")), Vec::<Event>::new());
    assert_eq!(r.process(sealed("0", b"c0")), Vec::<Event>::new());
    assert_eq!(
        r.process(ReceiveEvent::GotKey(Key(b"K".to_vec()))),
        vec![open_req(b"K", "version", b"cv"), open_req(b"K", "0", b"c0")]
    );
    assert!(matches!(r.state, State::S1Unverified(_)));
    // the application message opened first: it waits for the version
    assert_eq!(r.process(opened("0", Some(b"hi"))), Vec::<Event>::new());
    assert_eq!(
        r.process(opened("version", Some(b"{}"))),
        vec![Event::Boss(BossEvent::GotVersions(b"{}".to_vec())), app_msg("0", b"hi")]
    );
    assert!(matches!(r.state, State::S2Verified(_)));
    assert_eq!(r.process(sealed("1", b"c1")), vec![open_req(b"K", "1", b"c1")]);
    assert_eq!(r.process(opened("1", Some(b"more"))), vec![app_msg("1", b"more")]);
}

#[test]
fn receive_wrong_code_is_scary() {
    let mut r = ReceiveMachine::new();
    r.process(ReceiveEvent::GotKey(Key(b"K".to_vec())));
    assert_eq!(r.process(sealed("version", b"cv")), vec![open_req(b"K", "version", b"cv")]);
    assert_eq!(r.process(opened("version", None)), vec![Event::Boss(BossEvent::Scared)]);
    assert!(matches!(r.state, State::S3Scared));
    assert_eq!(r.process(sealed("0", b"c0")), Vec::<Event>::new());
    assert_eq!(r.process(opened("0", Some(b"x"))), Vec::<Event>::new());
    assert!(r.queue.is_empty());
}
