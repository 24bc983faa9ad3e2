//! The Allocator: asks the server for a nameplate once connected, and forms
//! the code from it and the drawn words.
use vstd::prelude::*;
use crate::code::{dashes, joined, make_code, views};
use crate::event::{AllocatorEvent, CodeEvent, Event, Events, RendezvousEvent};

verus! {

#[derive(Debug, PartialEq, Eq, Clone, Copy)]
pub enum State {
    S0AIdleDisconnected,
    S0BIdleConnected,
    /// Wanting a code of this many words, disconnected.
    S1AWantingDisconnected(usize),
    /// Wanting a code of this many words, connected.
    S1BWantingConnected(usize),
    S2Done,
}

/// The state after `e` in state `s`.
pub open spec fn next_state(s: State, e: AllocatorEvent) -> State {
    match (s, e) {
        (State::S0AIdleDisconnected, AllocatorEvent::Connected) => State::S0BIdleConnected,
        (State::S0AIdleDisconnected, AllocatorEvent::Allocate(n)) => State::S1AWantingDisconnected(n),
        (State::S0BIdleConnected, AllocatorEvent::Lost) => State::S0AIdleDisconnected,
        (State::S0BIdleConnected, AllocatorEvent::Allocate(n)) => State::S1BWantingConnected(n),
        (State::S1AWantingDisconnected(n), AllocatorEvent::Connected) => State::S1BWantingConnected(n),
        (State::S1BWantingConnected(n), AllocatorEvent::Lost) => State::S1AWantingDisconnected(n),
        (State::S1BWantingConnected(_), AllocatorEvent::RxAllocated(_, _)) => State::S2Done,
        _ => s,
    }
}

/// Whether the step from `s` on `e` asks the server for a nameplate.
pub open spec fn asks(s: State, e: AllocatorEvent) -> bool {
    ||| (s is S0BIdleConnected && e is Allocate)
    ||| (s is S1AWantingDisconnected && e is Connected)
}

pub struct AllocatorMachine {
    pub state: State,
}

impl AllocatorMachine {
    pub fn new() -> (r: AllocatorMachine)
        ensures
            r.state is S0AIdleDisconnected,
    {
        AllocatorMachine { state: State::S0AIdleDisconnected }
    }

    /// Takes one event. A wanted nameplate is asked for once connected (again
    /// after a reconnect), and the allocated one, joined with the drawn words,
    /// becomes the code; where neither nameplate nor words hold a `-`, a code
    /// of `n` words has `n + 1` parts.
    pub fn process(&mut self, event: AllocatorEvent) -> (r: Events)
        ensures
            final(self).state == next_state(old(self).state, event),
            asks(old(self).state, event) ==> r@ == seq![Event::Rendezvous(RendezvousEvent::TxAllocate)],
            match (old(self).state, event) {
                (State::S1BWantingConnected(n), AllocatorEvent::RxAllocated(np, ws)) => {
                    &&& r@.len() == 1
                    &&& r@[0] is Code
                    &&& r@[0]->Code_0->Allocated_0.0@ == joined(np.0@, views(ws@))
                    &&& (ws@.len() == n && dashes(np.0@) == 0 && forall|i: int|
                        0 <= i < ws@.len() ==> dashes(#[trigger] ws@[i]@) == 0) ==> dashes(
                        r@[0]->Code_0->Allocated_0.0@,
                    ) + 1 == n + 1
                },
                _ => !asks(old(self).state, event) ==> r@ == Seq::<Event>::empty(),
            },
    {
        match (self.state, event) {
            (State::S0AIdleDisconnected, AllocatorEvent::Connected) => {
                self.state = State::S0BIdleConnected;
                vec![]
            },
            (State::S0AIdleDisconnected, AllocatorEvent::Allocate(n)) => {
                self.state = State::S1AWantingDisconnected(n);
                vec![]
            },
            (State::S0BIdleConnected, AllocatorEvent::Lost) => {
                self.state = State::S0AIdleDisconnected;
                vec![]
            },
            (State::S0BIdleConnected, AllocatorEvent::Allocate(n)) => {
                self.state = State::S1BWantingConnected(n);
                vec![Event::Rendezvous(RendezvousEvent::TxAllocate)]
            },
            (State::S1AWantingDisconnected(n), AllocatorEvent::Connected) => {
                self.state = State::S1BWantingConnected(n);
                vec![Event::Rendezvous(RendezvousEvent::TxAllocate)]
            },
            (State::S1BWantingConnected(n), AllocatorEvent::Lost) => {
                self.state = State::S1AWantingDisconnected(n);
                vec![]
            },
            (State::S1BWantingConnected(_), AllocatorEvent::RxAllocated(np, ws)) => {
                let code = make_code(&np, &ws);
                proof {
                    if dashes(np.0@) == 0 && forall|i: int| 0 <= i < ws@.len() ==> dashes(#[trigger] ws@[i]@) == 0 {
                        assert forall|i: int| 0 <= i < views(ws@).len() implies dashes(#[trigger] views(ws@)[i]) == 0 by {
                            assert(views(ws@)[i] == ws@[i]@);
                        }
                        crate::code::code_has_one_part_per_word_and_the_nameplate(np.0@, views(ws@));
                    }
                }
                self.state = State::S2Done;
                vec![Event::Code(CodeEvent::Allocated(code))]
            },
            _ => vec![],
        }
    }
}

} // verus!
