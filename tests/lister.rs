use wormhole_core::event::{Event, InputEvent, ListerEvent, Nameplate, RendezvousEvent};
use wormhole_core::lister::{ListerMachine, State};

fn none() -> Vec<Event> {
    Vec::new()
}

fn tx_list() -> Vec<Event> {
    vec![Event::Rendezvous(RendezvousEvent::TxList)]
}

#[test]
fn test_lister() {
    let mut lister = ListerMachine::new();

    assert_eq!(lister.state, State::S0A);

    assert_eq!(lister.process(ListerEvent::Connected), none());
    assert_eq!(lister.state, State::S0B);

    assert_eq!(lister.process(ListerEvent::Lost), none());
    assert_eq!(lister.state, State::S0A);

    lister.state = State::S0B;
    let nameplates: Vec<Nameplate> = vec!["3"]
        .into_iter()
        .map(|s| Nameplate(s.to_string()))
        .collect();
    let expected_nameplates: Vec<Nameplate> = vec![Nameplate("3".to_string())];
    assert_eq!(
        lister.process(ListerEvent::RxNameplates(nameplates)),
        vec![Event::Input(InputEvent::GotNameplates(expected_nameplates))]
    );
    assert_eq!(lister.state, State::S0B);

    assert_eq!(lister.process(ListerEvent::Refresh), tx_list());
    assert_eq!(lister.state, State::S1B);

    assert_eq!(lister.process(ListerEvent::Refresh), tx_list());
    assert_eq!(lister.state, State::S1B);
}

#[test]
fn lister_refresh_while_unconnected_waits_for_connection() {
    let mut lister = ListerMachine::new();
    assert_eq!(lister.process(ListerEvent::Refresh), none());
    assert_eq!(lister.state, State::S1A);
    assert_eq!(lister.process(ListerEvent::Refresh), none());
    assert_eq!(lister.state, State::S1A);
    assert_eq!(lister.process(ListerEvent::Connected), tx_list());
    assert_eq!(lister.state, State::S1B);
}

#[test]
fn lister_lost_keeps_the_wish() {
    let mut lister = ListerMachine::new();
    lister.process(ListerEvent::Connected);
    assert_eq!(lister.process(ListerEvent::Refresh), tx_list());
    assert_eq!(lister.process(ListerEvent::Lost), none());
    assert_eq!(lister.state, State::S1A);
    assert_eq!(lister.process(ListerEvent::Connected), tx_list());
    assert_eq!(lister.state, State::S1B);
}

#[test]
fn lister_one_response_satisfies_one_refresh() {
    let mut lister = ListerMachine::new();
    lister.process(ListerEvent::Connected);
    lister.process(ListerEvent::Refresh);
    let got = lister.process(ListerEvent::RxNameplates(vec![Nameplate("4".to_string())]));
    assert_eq!(got, vec![Event::Input(InputEvent::GotNameplates(vec![Nameplate("4".to_string())]))]);
    assert_eq!(lister.state, State::S0B);
    assert_eq!(lister.process(ListerEvent::Connected), none());
    assert_eq!(lister.state, State::S0B);
}
