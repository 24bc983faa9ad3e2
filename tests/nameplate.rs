use wormhole_core::event::{
    Event, Mailbox, MailboxEvent, Nameplate, NameplateEvent, RendezvousEvent, TerminatorEvent,
};
use wormhole_core::nameplate::{NameplateMachine, State};

fn np() -> Nameplate {
    Nameplate("4".to_string())
}

fn none() -> Vec<Event> {
    Vec::new()
}

#[test]
fn nameplate_claims_hands_mailbox_on_and_releases() {
    let mut n = NameplateMachine::new();
    assert_eq!(n.process(NameplateEvent::SetNameplate(np())), none());
    assert_eq!(
        n.process(NameplateEvent::Connected),
        vec![Event::Rendezvous(RendezvousEvent::TxClaim(np()))]
    );
    assert_eq!(
        n.process(NameplateEvent::RxClaimed(Mailbox("mb-xyz".to_string()))),
        vec![Event::Mailbox(MailboxEvent::GotMailbox(Mailbox("mb-xyz".to_string())))]
    );
    // a reconnect replays the claim
    assert_eq!(n.process(NameplateEvent::Lost), none());
    assert_eq!(
        n.process(NameplateEvent::Connected),
        vec![Event::Rendezvous(RendezvousEvent::TxClaim(np()))]
    );
    assert_eq!(
        n.process(NameplateEvent::Release),
        vec![Event::Rendezvous(RendezvousEvent::TxRelease(np()))]
    );
    assert_eq!(n.process(NameplateEvent::SetNameplate(Nameplate("5".to_string()))), none());
    assert_eq!(
        n.process(NameplateEvent::RxReleased),
        vec![Event::Terminator(TerminatorEvent::NameplateDone)]
    );
    assert!(matches!(n.state, State::Done));
    assert_eq!(n.process(NameplateEvent::RxReleased), none());
}

#[test]
fn nameplate_release_while_disconnected_waits_for_connection() {
    let mut n = NameplateMachine::new();
    n.process(NameplateEvent::Connected);
    assert_eq!(
        n.process(NameplateEvent::SetNameplate(np())),
        vec![Event::Rendezvous(RendezvousEvent::TxClaim(np()))]
    );
    n.process(NameplateEvent::Lost);
    assert_eq!(n.process(NameplateEvent::Release), none());
    assert_eq!(
        n.process(NameplateEvent::Connected),
        vec![Event::Rendezvous(RendezvousEvent::TxRelease(np()))]
    );
}

#[test]
fn nameplate_release_without_nameplate_is_done_at_once() {
    let mut n = NameplateMachine::new();
    assert_eq!(
        n.process(NameplateEvent::Release),
        vec![Event::Terminator(TerminatorEvent::NameplateDone)]
    );
}
