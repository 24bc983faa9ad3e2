//! The Terminator: on close, has the nameplate released and the mailbox
//! closed, then stops the connection, and only then reports the session
//! closed, once.
use vstd::prelude::*;
use crate::api::Mood;
use crate::event::{BossEvent, Event, Events, MailboxEvent, NameplateEvent, RendezvousEvent, TerminatorEvent};

verus! {

pub enum State {
    /// Open; whether the nameplate and the mailbox are already done.
    S0Open(bool, bool),
    /// Closing with a mood, waiting for the nameplate and the mailbox.
    S1Closing(Mood, bool, bool),
    /// Waiting for the connection to stop.
    S2Stopping(Mood),
    S3Stopped,
}

/// The state after `e` in state `s`.
pub open spec fn next_state(s: State, e: TerminatorEvent) -> State {
    match s {
        State::S0Open(np, mb) => match e {
            TerminatorEvent::Close(m) => if np && mb {
                State::S2Stopping(m)
            } else {
                State::S1Closing(m, np, mb)
            },
            TerminatorEvent::NameplateDone => State::S0Open(true, mb),
            TerminatorEvent::MailboxDone => State::S0Open(np, true),
            TerminatorEvent::Stopped => s,
        },
        State::S1Closing(m, np, mb) => match e {
            TerminatorEvent::NameplateDone => if mb {
                State::S2Stopping(m)
            } else {
                State::S1Closing(m, true, mb)
            },
            TerminatorEvent::MailboxDone => if np {
                State::S2Stopping(m)
            } else {
                State::S1Closing(m, np, true)
            },
            _ => s,
        },
        State::S2Stopping(m) => match e {
            TerminatorEvent::Stopped => State::S3Stopped,
            _ => s,
        },
        State::S3Stopped => s,
    }
}

/// What the step from `s` on `e` emits.
pub open spec fn outputs(s: State, e: TerminatorEvent) -> Seq<Event> {
    match s {
        State::S0Open(np, mb) => match e {
            TerminatorEvent::Close(m) => seq![
                Event::Nameplate(NameplateEvent::Release),
                Event::Mailbox(MailboxEvent::Close(m)),
            ].add(if np && mb { seq![Event::Rendezvous(RendezvousEvent::Stop)] } else { seq![] }),
            _ => seq![],
        },
        State::S1Closing(m, np, mb) => match e {
            TerminatorEvent::NameplateDone => if mb { seq![Event::Rendezvous(RendezvousEvent::Stop)] } else { seq![] },
            TerminatorEvent::MailboxDone => if np { seq![Event::Rendezvous(RendezvousEvent::Stop)] } else { seq![] },
            _ => seq![],
        },
        State::S2Stopping(m) => match e {
            TerminatorEvent::Stopped => seq![Event::Boss(BossEvent::Closed(m))],
            _ => seq![],
        },
        State::S3Stopped => seq![],
    }
}

/// Whether `e` reports the session closed.
pub open spec fn is_closed_notice(e: Event) -> bool {
    e is Boss && e->Boss_0 is Closed
}

/// Everything emitted while the events `es` arrive one by one.
pub open spec fn run(s: State, es: Seq<TerminatorEvent>) -> Seq<Event>
    decreases es.len(),
{
    if es.len() == 0 {
        Seq::empty()
    } else {
        outputs(s, es[0]).add(run(next_state(s, es[0]), es.drop_first()))
    }
}

/// The state after the events `es`.
pub open spec fn last_state(s: State, es: Seq<TerminatorEvent>) -> State
    decreases es.len(),
{
    if es.len() == 0 {
        s
    } else {
        last_state(next_state(s, es[0]), es.drop_first())
    }
}

proof fn lemma_stopped_is_silent(es: Seq<TerminatorEvent>)
    ensures
        run(State::S3Stopped, es) == Seq::<Event>::empty(),
        last_state(State::S3Stopped, es) is S3Stopped,
    decreases es.len(),
{
    if es.len() > 0 {
        lemma_stopped_is_silent(es.drop_first());
    }
}

proof fn lemma_closed_once_last(s: State, es: Seq<TerminatorEvent>)
    ensures
        forall|i: int| 0 <= i < run(s, es).len() && is_closed_notice(#[trigger] run(s, es)[i]) ==> i == run(s, es).len() - 1,
        !(s is S3Stopped) && last_state(s, es) is S3Stopped ==> run(s, es).len() > 0 && is_closed_notice(run(s, es).last()),
    decreases es.len(),
{
    if es.len() > 0 {
        let t = next_state(s, es[0]);
        let rest = es.drop_first();
        lemma_closed_once_last(t, rest);
        let o = outputs(s, es[0]);
        let r = run(s, es);
        assert(r == o.add(run(t, rest)));
        if t is S3Stopped && !(s is S3Stopped) {
            lemma_stopped_is_silent(rest);
            assert(r =~= o);
        } else {
            assert forall|i: int| 0 <= i < o.len() implies !is_closed_notice(#[trigger] o[i]) by {}
            assert forall|i: int| 0 <= i < r.len() && is_closed_notice(#[trigger] r[i]) implies i == r.len() - 1 by {
                if i >= o.len() {
                    assert(r[i] == run(t, rest)[i - o.len()]);
                } else {
                    assert(r[i] == o[i]);
                }
            }
            if !(s is S3Stopped) && last_state(s, es) is S3Stopped {
                if s is S3Stopped {
                } else {
                    assert(!(t is S3Stopped));
                    assert(r.last() == run(t, rest).last());
                }
            }
        }
    }
}

/// Closed once, and last: in any run, a closed notice is the final output;
/// and a run that ends stopped, from a state not yet stopped, ends with one.
pub proof fn terminator_reports_closed_once_and_last(s: State, es: Seq<TerminatorEvent>)
    ensures
        forall|i: int| 0 <= i < run(s, es).len() && is_closed_notice(#[trigger] run(s, es)[i]) ==> i == run(s, es).len() - 1,
        !(s is S3Stopped) && last_state(s, es) is S3Stopped ==> run(s, es).len() > 0 && is_closed_notice(run(s, es).last()),
{
    lemma_closed_once_last(s, es);
}

pub struct TerminatorMachine {
    pub state: State,
}

impl TerminatorMachine {
    pub fn new() -> (r: TerminatorMachine)
        ensures
            r.state == State::S0Open(false, false),
    {
        TerminatorMachine { state: State::S0Open(false, false) }
    }

    /// Takes one event; the new state and the emitted events are those of the
    /// transition table. A repeated close changes nothing.
    pub fn process(&mut self, event: TerminatorEvent) -> (r: Events)
        ensures
            final(self).state == next_state(old(self).state, event),
            r@ == outputs(old(self).state, event),
    {
        let (next, out): (State, Events) = match &self.state {
            State::S0Open(np, mb) => {
                let (np, mb) = (*np, *mb);
                match event {
                    TerminatorEvent::Close(m) => {
                        let m2 = m.copy();
                        let mut out: Events = vec![
                            Event::Nameplate(NameplateEvent::Release),
                            Event::Mailbox(MailboxEvent::Close(m2)),
                        ];
                        if np && mb {
                            out.push(Event::Rendezvous(RendezvousEvent::Stop));
                            (State::S2Stopping(m), out)
                        } else {
                            (State::S1Closing(m, np, mb), out)
                        }
                    },
                    TerminatorEvent::NameplateDone => (State::S0Open(true, mb), vec![]),
                    TerminatorEvent::MailboxDone => (State::S0Open(np, true), vec![]),
                    TerminatorEvent::Stopped => (State::S0Open(np, mb), vec![]),
                }
            },
            State::S1Closing(m, np, mb) => {
                let (np, mb) = (*np, *mb);
                let m = m.copy();
                match event {
                    TerminatorEvent::NameplateDone => if mb {
                        (State::S2Stopping(m), vec![Event::Rendezvous(RendezvousEvent::Stop)])
                    } else {
                        (State::S1Closing(m, true, mb), vec![])
                    },
                    TerminatorEvent::MailboxDone => if np {
                        (State::S2Stopping(m), vec![Event::Rendezvous(RendezvousEvent::Stop)])
                    } else {
                        (State::S1Closing(m, np, true), vec![])
                    },
                    _ => (State::S1Closing(m, np, mb), vec![]),
                }
            },
            State::S2Stopping(m) => {
                let m = m.copy();
                match event {
                    TerminatorEvent::Stopped => (State::S3Stopped, vec![Event::Boss(BossEvent::Closed(m))]),
                    _ => (State::S2Stopping(m), vec![]),
                }
            },
            State::S3Stopped => (State::S3Stopped, vec![]),
        };
        self.state = next;
        out
    }
}

} // verus!
