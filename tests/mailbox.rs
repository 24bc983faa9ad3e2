use wormhole_core::event::{Event, MySide, OrderEvent, Phase, TheirSide};
use wormhole_core::mailbox::Inbound;

fn me() -> MySide {
    MySide("aaaaa".to_string())
}

fn delivered(side: &str, phase: &str, body: &[u8]) -> Option<Event> {
    Some(Event::Order(OrderEvent::GotMessage(
        TheirSide(side.to_string()),
        Phase(phase.to_string()),
        body.to_vec(),
    )))
}

#[test]
fn inbound_drops_redelivered_pairs() {
    let mut inbound = Inbound::new();
    let peer = || TheirSide("bbbbb".to_string());
    assert_eq!(
        inbound.receive(&me(), peer(), Phase("pake".to_string()), b"p".to_vec()),
        delivered("bbbbb", "pake", b"p")
    );
    assert_eq!(inbound.receive(&me(), peer(), Phase("pake".to_string()), b"p".to_vec()), None);
    assert_eq!(
        inbound.receive(&me(), peer(), Phase("version".to_string()), b"v".to_vec()),
        delivered("bbbbb", "version", b"v")
    );
    assert_eq!(inbound.receive(&me(), peer(), Phase("version".to_string()), b"other".to_vec()), None);
    assert_eq!(inbound.delivered.len(), 2);
}

#[test]
fn inbound_ignores_our_own_echoes() {
    let mut inbound = Inbound::new();
    assert_eq!(
        inbound.receive(&me(), TheirSide("aaaaa".to_string()), Phase("0".to_string()), b"x".to_vec()),
        None
    );
    assert!(inbound.delivered.is_empty());
    assert_eq!(
        inbound.receive(&me(), TheirSide("ccccc".to_string()), Phase("0".to_string()), b"x".to_vec()),
        delivered("ccccc", "0", b"x")
    );
}

use wormhole_core::api::Mood;
use wormhole_core::event::{Mailbox, MailboxEvent, RendezvousEvent, TerminatorEvent};
use wormhole_core::mailbox::{OutState, Outbound};

fn mb() -> Mailbox {
    Mailbox("mb-xyz".to_string())
}

fn tx_open() -> Event {
    Event::Rendezvous(RendezvousEvent::TxOpen(mb()))
}

fn tx_add(phase: &str, body: &[u8]) -> Event {
    Event::Rendezvous(RendezvousEvent::TxAdd(Phase(phase.to_string()), body.to_vec()))
}

fn add(phase: &str, body: &[u8]) -> MailboxEvent {
    MailboxEvent::AddMessage(Phase(phase.to_string()), body.to_vec())
}

#[test]
fn outbound_buffers_until_open_and_replays_on_reconnect() {
    let mut out = Outbound::new();
    assert_eq!(out.process(add("pake", b"p")), Vec::<Event>::new());
    assert_eq!(out.process(MailboxEvent::Connected), Vec::<Event>::new());
    assert_eq!(
        out.process(MailboxEvent::GotMailbox(mb())),
        vec![tx_open(), tx_add("pake", b"p")]
    );
    assert_eq!(out.process(add("version", b"v")), vec![tx_add("version", b"v")]);
    // the server echoes the pake: it is no longer re-sent
    assert_eq!(out.process(MailboxEvent::RxOwnMessage(Phase("pake".to_string()))), Vec::<Event>::new());
    assert_eq!(out.process(MailboxEvent::Lost), Vec::<Event>::new());
    assert_eq!(out.process(add("0", b"hi")), Vec::<Event>::new());
    assert_eq!(
        out.process(MailboxEvent::Connected),
        vec![tx_open(), tx_add("version", b"v"), tx_add("0", b"hi")]
    );
    assert_eq!(out.pending.len(), 2);
}

#[test]
fn outbound_close_until_confirmed() {
    let mut out = Outbound::new();
    out.process(MailboxEvent::GotMailbox(mb()));
    assert_eq!(out.process(MailboxEvent::Close(Mood::Happy)), Vec::<Event>::new());
    assert_eq!(
        out.process(MailboxEvent::Connected),
        vec![Event::Rendezvous(RendezvousEvent::TxClose(mb(), Mood::Happy))]
    );
    assert_eq!(out.process(add("0", b"late")), Vec::<Event>::new());
    assert_eq!(
        out.process(MailboxEvent::RxClosed),
        vec![Event::Terminator(TerminatorEvent::MailboxDone)]
    );
    assert!(matches!(out.state, OutState::S3Closed));
    assert_eq!(out.process(MailboxEvent::Connected), Vec::<Event>::new());
}

#[test]
fn outbound_close_without_mailbox_is_done_at_once() {
    let mut out = Outbound::new();
    out.process(add("pake", b"p"));
    assert_eq!(
        out.process(MailboxEvent::Close(Mood::Lonely)),
        vec![Event::Terminator(TerminatorEvent::MailboxDone)]
    );
    assert!(out.pending.is_empty());
}
