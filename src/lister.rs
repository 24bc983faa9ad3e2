//! The Lister: fetches the list of nameplates when the Input helper wants it.
use vstd::prelude::*;
use crate::event::{Event, Events, InputEvent, ListerEvent, RendezvousEvent};

verus! {

/// Whether a list is wanted (`S1*`) and whether the connection is up (`*B`).
#[derive(Debug, PartialEq, Eq, Clone, Copy)]
pub enum State {
    /// Not wanting a list, unconnected.
    S0A,
    /// Wanting a list, unconnected.
    S1A,
    /// Not wanting a list, connected.
    S0B,
    /// Wanting a list, connected.
    S1B,
}

pub open spec fn wants(s: State) -> bool {
    s is S1A || s is S1B
}

pub open spec fn connected(s: State) -> bool {
    s is S0B || s is S1B
}

pub open spec fn state_of(want: bool, conn: bool) -> State {
    if want {
        if conn { State::S1B } else { State::S1A }
    } else {
        if conn { State::S0B } else { State::S0A }
    }
}

/// The state after `e` in state `s`.
pub open spec fn next_state(s: State, e: ListerEvent) -> State {
    match e {
        ListerEvent::Connected => state_of(wants(s), true),
        ListerEvent::Lost => state_of(wants(s), false),
        ListerEvent::Refresh => state_of(true, connected(s)),
        ListerEvent::RxNameplates(_) => state_of(false, connected(s)),
    }
}

/// What the step from `s` on `e` emits: a list request whenever a wanted list
/// can be asked for, and every received list to the Input helper.
pub open spec fn outputs(s: State, e: ListerEvent) -> Seq<Event> {
    match e {
        ListerEvent::Connected => if wants(s) && !connected(s) {
            seq![Event::Rendezvous(RendezvousEvent::TxList)]
        } else {
            seq![]
        },
        ListerEvent::Refresh => if connected(s) {
            seq![Event::Rendezvous(RendezvousEvent::TxList)]
        } else {
            seq![]
        },
        ListerEvent::RxNameplates(nids) => seq![Event::Input(InputEvent::GotNameplates(nids))],
        ListerEvent::Lost => seq![],
    }
}

pub struct ListerMachine {
    pub state: State,
}

impl ListerMachine {
    pub fn new() -> (r: ListerMachine)
        ensures
            r.state == State::S0A,
    {
        ListerMachine { state: State::S0A }
    }

    /// Takes one event; the new state and the emitted events are those of the
    /// transition table.
    pub fn process(&mut self, event: ListerEvent) -> (r: Events)
        ensures
            final(self).state == next_state(old(self).state, event),
            r@ == outputs(old(self).state, event),
    {
        let (newstate, actions) = match self.state {
            State::S0A => self.do_s0a(event),
            State::S0B => self.do_s0b(event),
            State::S1A => self.do_s1a(event),
            State::S1B => self.do_s1b(event),
        };
        self.state = newstate;
        actions
    }

    fn do_s0a(&self, event: ListerEvent) -> (r: (State, Events))
        requires
            self.state == State::S0A,
        ensures
            r.0 == next_state(self.state, event),
            r.1@ == outputs(self.state, event),
    {
        match event {
            ListerEvent::Connected => (State::S0B, vec![]),
            ListerEvent::Refresh => (State::S1A, vec![]),
            ListerEvent::Lost => (State::S0A, vec![]),
            ListerEvent::RxNameplates(nids) => {
                (State::S0A, vec![Event::Input(InputEvent::GotNameplates(nids))])
            },
        }
    }

    fn do_s0b(&self, event: ListerEvent) -> (r: (State, Events))
        requires
            self.state == State::S0B,
        ensures
            r.0 == next_state(self.state, event),
            r.1@ == outputs(self.state, event),
    {
        match event {
            ListerEvent::Refresh => (State::S1B, vec![Event::Rendezvous(RendezvousEvent::TxList)]),
            ListerEvent::Lost => (State::S0A, vec![]),
            ListerEvent::RxNameplates(nids) => {
                (State::S0B, vec![Event::Input(InputEvent::GotNameplates(nids))])
            },
            ListerEvent::Connected => (State::S0B, vec![]),
        }
    }

    fn do_s1a(&self, event: ListerEvent) -> (r: (State, Events))
        requires
            self.state == State::S1A,
        ensures
            r.0 == next_state(self.state, event),
            r.1@ == outputs(self.state, event),
    {
        match event {
            ListerEvent::Connected => (State::S1B, vec![Event::Rendezvous(RendezvousEvent::TxList)]),
            ListerEvent::Refresh => (State::S1A, vec![]),
            ListerEvent::Lost => (State::S1A, vec![]),
            ListerEvent::RxNameplates(nids) => {
                (State::S0A, vec![Event::Input(InputEvent::GotNameplates(nids))])
            },
        }
    }

    fn do_s1b(&self, event: ListerEvent) -> (r: (State, Events))
        requires
            self.state == State::S1B,
        ensures
            r.0 == next_state(self.state, event),
            r.1@ == outputs(self.state, event),
    {
        match event {
            ListerEvent::Lost => (State::S1A, vec![]),
            ListerEvent::Refresh => (State::S1B, vec![Event::Rendezvous(RendezvousEvent::TxList)]),
            ListerEvent::RxNameplates(nids) => {
                (State::S0B, vec![Event::Input(InputEvent::GotNameplates(nids))])
            },
            ListerEvent::Connected => (State::S1B, vec![]),
        }
    }
}

} // verus!
