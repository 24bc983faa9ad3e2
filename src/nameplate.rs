//! The Nameplate machine: claims the nameplate while connected, hands the
//! mailbox on, and on release sends the release until the server confirms.
use vstd::prelude::*;
use crate::event::{Event, Events, MailboxEvent, Nameplate, NameplateEvent, RendezvousEvent, TerminatorEvent};

verus! {

/// Each state but the last records whether the connection is up.
pub enum State {
    Idle(bool),
    Claiming(Nameplate, bool),
    Claimed(Nameplate, bool),
    Releasing(Nameplate, bool),
    Done,
}

pub open spec fn claim(np: Nameplate) -> Event {
    Event::Rendezvous(RendezvousEvent::TxClaim(np))
}

pub open spec fn release(np: Nameplate) -> Event {
    Event::Rendezvous(RendezvousEvent::TxRelease(np))
}

pub open spec fn done() -> Event {
    Event::Terminator(TerminatorEvent::NameplateDone)
}

/// One step: the next state and what is emitted.
pub open spec fn step(s: State, e: NameplateEvent) -> (State, Seq<Event>) {
    match s {
        State::Idle(c) => match e {
            NameplateEvent::Connected => (State::Idle(true), seq![]),
            NameplateEvent::Lost => (State::Idle(false), seq![]),
            NameplateEvent::SetNameplate(np) => (State::Claiming(np, c), if c { seq![claim(np)] } else { seq![] }),
            NameplateEvent::Release => (State::Done, seq![done()]),
            _ => (s, seq![]),
        },
        State::Claiming(np, c) => match e {
            NameplateEvent::Connected => (State::Claiming(np, true), seq![claim(np)]),
            NameplateEvent::Lost => (State::Claiming(np, false), seq![]),
            NameplateEvent::RxClaimed(mb) => (State::Claimed(np, c), seq![Event::Mailbox(MailboxEvent::GotMailbox(mb))]),
            NameplateEvent::Release => (State::Releasing(np, c), if c { seq![release(np)] } else { seq![] }),
            _ => (s, seq![]),
        },
        State::Claimed(np, c) => match e {
            NameplateEvent::Connected => (State::Claimed(np, true), seq![claim(np)]),
            NameplateEvent::Lost => (State::Claimed(np, false), seq![]),
            NameplateEvent::Release => (State::Releasing(np, c), if c { seq![release(np)] } else { seq![] }),
            _ => (s, seq![]),
        },
        State::Releasing(np, c) => match e {
            NameplateEvent::Connected => (State::Releasing(np, true), seq![release(np)]),
            NameplateEvent::Lost => (State::Releasing(np, false), seq![]),
            NameplateEvent::RxReleased => (State::Done, seq![done()]),
            _ => (s, seq![]),
        },
        State::Done => (s, seq![]),
    }
}

pub open spec fn is_claim(e: Event) -> bool {
    e is Rendezvous && e->Rendezvous_0 is TxClaim
}

/// Whether the release was requested: from here on nothing is claimed.
pub open spec fn closing(s: State) -> bool {
    s is Releasing || s is Done
}

/// Everything emitted while the events `es` arrive one by one.
pub open spec fn run(s: State, es: Seq<NameplateEvent>) -> Seq<Event>
    decreases es.len(),
{
    if es.len() == 0 {
        Seq::empty()
    } else {
        let t = step(s, es[0]);
        t.1.add(run(t.0, es.drop_first()))
    }
}

proof fn lemma_no_claim_when_closing(s: State, es: Seq<NameplateEvent>)
    requires
        closing(s),
    ensures
        forall|i: int| 0 <= i < run(s, es).len() ==> !is_claim(#[trigger] run(s, es)[i]),
    decreases es.len(),
{
    if es.len() > 0 {
        let t = step(s, es[0]);
        lemma_no_claim_when_closing(t.0, es.drop_first());
        let r = run(s, es);
        assert forall|i: int| 0 <= i < r.len() implies !is_claim(#[trigger] r[i]) by {
            if i < t.1.len() {
                assert(r[i] == t.1[i]);
            } else {
                assert(r[i] == run(t.0, es.drop_first())[i - t.1.len()]);
            }
        }
    }
}

/// No claim after the release: once the release is requested, whatever
/// follows, the machine never claims the nameplate again.
pub proof fn nameplate_never_claims_after_release(s: State, es: Seq<NameplateEvent>)
    requires
        !(s is Done),
    ensures
        closing(step(s, NameplateEvent::Release).0),
        forall|i: int| 0 <= i < run(step(s, NameplateEvent::Release).0, es).len() ==> !is_claim(
            #[trigger] run(step(s, NameplateEvent::Release).0, es)[i],
        ),
{
    lemma_no_claim_when_closing(step(s, NameplateEvent::Release).0, es);
}

fn copy_nameplate(np: &Nameplate) -> (r: Nameplate)
    ensures
        r == *np,
{
    Nameplate(np.0.clone())
}

pub struct NameplateMachine {
    pub state: State,
}

impl NameplateMachine {
    pub fn new() -> (r: NameplateMachine)
        ensures
            r.state == State::Idle(false),
    {
        NameplateMachine { state: State::Idle(false) }
    }

    /// Takes one event. The claim goes out whenever the nameplate is known and
    /// the connection comes up, until the release is requested; the release
    /// goes out then, and again on each reconnect, until the server confirms.
    pub fn process(&mut self, event: NameplateEvent) -> (r: Events)
        ensures
            final(self).state == step(old(self).state, event).0,
            r@ == step(old(self).state, event).1,
    {
        let (next, out): (State, Events) = match &self.state {
            State::Idle(c) => {
                let c = *c;
                match event {
                    NameplateEvent::Connected => (State::Idle(true), vec![]),
                    NameplateEvent::Lost => (State::Idle(false), vec![]),
                    NameplateEvent::SetNameplate(np) => if c {
                        let tx = copy_nameplate(&np);
                        (State::Claiming(np, c), vec![Event::Rendezvous(RendezvousEvent::TxClaim(tx))])
                    } else {
                        (State::Claiming(np, c), vec![])
                    },
                    NameplateEvent::Release => (State::Done, vec![Event::Terminator(TerminatorEvent::NameplateDone)]),
                    _ => (State::Idle(c), vec![]),
                }
            },
            State::Claiming(np, c) => {
                let c = *c;
                let np = copy_nameplate(np);
                match event {
                    NameplateEvent::Connected => {
                        let tx = copy_nameplate(&np);
                        (State::Claiming(np, true), vec![Event::Rendezvous(RendezvousEvent::TxClaim(tx))])
                    },
                    NameplateEvent::Lost => (State::Claiming(np, false), vec![]),
                    NameplateEvent::RxClaimed(mb) => (State::Claimed(np, c), vec![Event::Mailbox(MailboxEvent::GotMailbox(mb))]),
                    NameplateEvent::Release => if c {
                        let tx = copy_nameplate(&np);
                        (State::Releasing(np, c), vec![Event::Rendezvous(RendezvousEvent::TxRelease(tx))])
                    } else {
                        (State::Releasing(np, c), vec![])
                    },
                    _ => (State::Claiming(np, c), vec![]),
                }
            },
            State::Claimed(np, c) => {
                let c = *c;
                let np = copy_nameplate(np);
                match event {
                    NameplateEvent::Connected => {
                        let tx = copy_nameplate(&np);
                        (State::Claimed(np, true), vec![Event::Rendezvous(RendezvousEvent::TxClaim(tx))])
                    },
                    NameplateEvent::Lost => (State::Claimed(np, false), vec![]),
                    NameplateEvent::Release => if c {
                        let tx = copy_nameplate(&np);
                        (State::Releasing(np, c), vec![Event::Rendezvous(RendezvousEvent::TxRelease(tx))])
                    } else {
                        (State::Releasing(np, c), vec![])
                    },
                    _ => (State::Claimed(np, c), vec![]),
                }
            },
            State::Releasing(np, c) => {
                let c = *c;
                let np = copy_nameplate(np);
                match event {
                    NameplateEvent::Connected => {
                        let tx = copy_nameplate(&np);
                        (State::Releasing(np, true), vec![Event::Rendezvous(RendezvousEvent::TxRelease(tx))])
                    },
                    NameplateEvent::Lost => (State::Releasing(np, false), vec![]),
                    NameplateEvent::RxReleased => (State::Done, vec![Event::Terminator(TerminatorEvent::NameplateDone)]),
                    _ => (State::Releasing(np, c), vec![]),
                }
            },
            State::Done => (State::Done, vec![]),
        };
        self.state = next;
        out
    }
}

} // verus!
