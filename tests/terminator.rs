use wormhole_core::api::{Mood, WormholeError};
use wormhole_core::event::{
    BossEvent, Event, MailboxEvent, NameplateEvent, RendezvousEvent, TerminatorEvent,
};
use wormhole_core::terminator::{State, TerminatorMachine};

fn none() -> Vec<Event> {
    Vec::new()
}

#[test]
fn terminator_lonely_close_waits_for_everything() {
    let mut t = TerminatorMachine::new();
    assert_eq!(
        t.process(TerminatorEvent::Close(Mood::Lonely)),
        vec![
            Event::Nameplate(NameplateEvent::Release),
            Event::Mailbox(MailboxEvent::Close(Mood::Lonely)),
        ]
    );
    assert_eq!(t.process(TerminatorEvent::Close(Mood::Happy)), none());
    assert_eq!(t.process(TerminatorEvent::NameplateDone), none());
    assert_eq!(
        t.process(TerminatorEvent::MailboxDone),
        vec![Event::Rendezvous(RendezvousEvent::Stop)]
    );
    assert_eq!(
        t.process(TerminatorEvent::Stopped),
        vec![Event::Boss(BossEvent::Closed(Mood::Lonely))]
    );
    assert!(matches!(t.state, State::S3Stopped));
    assert_eq!(t.process(TerminatorEvent::Close(Mood::Scared)), none());
    assert_eq!(t.process(TerminatorEvent::Stopped), none());
}

#[test]
fn terminator_stops_at_once_when_parts_are_done() {
    let mut t = TerminatorMachine::new();
    assert_eq!(t.process(TerminatorEvent::MailboxDone), none());
    assert_eq!(t.process(TerminatorEvent::NameplateDone), none());
    let mood = Mood::Errory(WormholeError::ServerError("refused".to_string()));
    assert_eq!(
        t.process(TerminatorEvent::Close(mood.clone())),
        vec![
            Event::Nameplate(NameplateEvent::Release),
            Event::Mailbox(MailboxEvent::Close(mood.clone())),
            Event::Rendezvous(RendezvousEvent::Stop),
        ]
    );
    assert_eq!(
        t.process(TerminatorEvent::Stopped),
        vec![Event::Boss(BossEvent::Closed(mood))]
    );
}
