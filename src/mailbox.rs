//! The Mailbox's inbound side: the server may deliver a message again, so
//! each peer message goes on to Order once, and our own echoes not at all.
//! Its outbound side: messages wait for the mailbox, go out in order, and are
//! sent again on each reconnect until the server echoes them.
use vstd::prelude::*;
use crate::api::Mood;
use crate::event::{
    Event, Events, Mailbox, MailboxEvent, MySide, OrderEvent, Phase, RendezvousEvent, TerminatorEvent, TheirSide,
};

verus! {

/// A message's sender and phase.
pub type Pair = (Seq<char>, Seq<char>);

/// One step on a message from `side` with `phase`, given the pairs already
/// delivered: the pair is delivered when it comes from the peer and is new.
pub open spec fn delivers(me: Seq<char>, seen: Seq<Pair>, side: Seq<char>, phase: Seq<char>) -> bool {
    side != me && !seen.contains((side, phase))
}

/// The pairs delivered while the messages `ms` arrive one by one.
pub open spec fn run(me: Seq<char>, seen: Seq<Pair>, ms: Seq<Pair>) -> Seq<Pair>
    decreases ms.len(),
{
    if ms.len() == 0 {
        Seq::empty()
    } else if delivers(me, seen, ms[0].0, ms[0].1) {
        seq![ms[0]].add(run(me, seen.push(ms[0]), ms.drop_first()))
    } else {
        run(me, seen, ms.drop_first())
    }
}

proof fn lemma_run_fresh(me: Seq<char>, seen: Seq<Pair>, ms: Seq<Pair>)
    ensures
        forall|i: int| 0 <= i < run(me, seen, ms).len() ==> !seen.contains(#[trigger] run(me, seen, ms)[i]),
        forall|i: int, j: int|
            0 <= i < j < run(me, seen, ms).len() ==> run(me, seen, ms)[i] != run(me, seen, ms)[j],
    decreases ms.len(),
{
    if ms.len() > 0 {
        let rest = ms.drop_first();
        if delivers(me, seen, ms[0].0, ms[0].1) {
            let s2 = seen.push(ms[0]);
            lemma_run_fresh(me, s2, rest);
            let r = run(me, seen, ms);
            let tail = run(me, s2, rest);
            assert(r == seq![ms[0]].add(tail));
            assert forall|i: int| 0 <= i < r.len() implies !seen.contains(#[trigger] r[i]) by {
                if i > 0 {
                    assert(r[i] == tail[i - 1]);
                    if seen.contains(r[i]) {
                        let k = choose|k: int| 0 <= k < seen.len() && seen[k] == r[i];
                        assert(s2[k] == r[i]);
                    }
                }
            }
            assert forall|i: int, j: int| 0 <= i < j < r.len() implies r[i] != r[j] by {
                assert(r[j] == tail[j - 1]);
                assert(!s2.contains(tail[j - 1]));
                if i == 0 {
                    assert(s2[seen.len() as int] == ms[0]);
                } else {
                    assert(r[i] == tail[i - 1]);
                    assert(tail[i - 1] != tail[j - 1]);
                }
            }
        } else {
            lemma_run_fresh(me, seen, rest);
            assert(run(me, seen, ms) == run(me, seen, rest));
        }
    } else {
        assert(run(me, seen, ms).len() == 0);
    }
}

/// No pair twice: whatever arrives, and however often, the pairs a fresh
/// filter delivers are pairwise distinct.
pub proof fn inbound_delivers_each_pair_once(me: Seq<char>, ms: Seq<Pair>)
    ensures
        forall|i: int, j: int|
            0 <= i < j < run(me, Seq::empty(), ms).len() ==> run(me, Seq::empty(), ms)[i] != run(
                me,
                Seq::empty(),
                ms,
            )[j],
{
    lemma_run_fresh(me, Seq::empty(), ms);
}

pub struct Inbound {
    pub delivered: Vec<(String, String)>,
}

impl Inbound {
    /// The pairs delivered so far, in order.
    pub open spec fn seen(&self) -> Seq<Pair> {
        self.delivered@.map_values(|x: (String, String)| (x.0@, x.1@))
    }

    pub fn new() -> (r: Inbound)
        ensures
            r.seen() == Seq::<Pair>::empty(),
    {
        let r = Inbound { delivered: Vec::new() };
        assert(r.seen() =~= Seq::<Pair>::empty());
        r
    }

    /// Whether `side` and `phase` were delivered before.
    fn has_seen(&self, side: &String, phase: &String) -> (r: bool)
        ensures
            r == self.seen().contains((side@, phase@)),
    {
        let mut i: usize = 0;
        while i < self.delivered.len()
            invariant
                i <= self.delivered@.len(),
                forall|k: int| 0 <= k < i ==> self.seen()[k] != (side@, phase@),
            decreases self.delivered@.len() - i,
        {
            let (s, p) = &self.delivered[i];
            if *s == *side && *p == *phase {
                assert(self.seen()[i as int] == (side@, phase@));
                return true;
            }
            i = i + 1;
        }
        false
    }

    /// Takes a message that the server delivered: it goes on to Order when
    /// it comes from the peer and its side and phase are new, and is
    /// dropped otherwise.
    pub fn receive(&mut self, me: &MySide, side: TheirSide, phase: Phase, body: Vec<u8>) -> (r: Option<Event>)
        ensures
            delivers(me.0@, old(self).seen(), side.0@, phase.0@) ==> {
                &&& r == Some(Event::Order(OrderEvent::GotMessage(side, phase, body)))
                &&& final(self).seen() == old(self).seen().push((side.0@, phase.0@))
            },
            !delivers(me.0@, old(self).seen(), side.0@, phase.0@) ==> {
                &&& r is None
                &&& final(self).seen() == old(self).seen()
            },
    {
        if side.0 == me.0 || self.has_seen(&side.0, &phase.0) {
            return None;
        }
        self.delivered.push((side.0.clone(), phase.0.clone()));
        assert(self.seen() =~= old(self).seen().push((side.0@, phase.0@)));
        Some(Event::Order(OrderEvent::GotMessage(side, phase, body)))
    }
}

/// Each state but the last records whether the connection is up.
pub enum OutState {
    S0NoMailbox(bool),
    S1Open(Mailbox, bool),
    S2Closing(Mailbox, Mood, bool),
    S3Closed,
}

/// An outgoing message: phase and body.
pub type Outgoing = (Seq<char>, Seq<u8>);

/// What an emitted event is, as plain values.
pub enum Out {
    Open(Seq<char>),
    Add(Seq<char>, Seq<u8>),
    Close(Seq<char>, Mood),
    Done,
    Other,
}

pub open spec fn out_view(e: Event) -> Out {
    match e {
        Event::Rendezvous(RendezvousEvent::TxOpen(mb)) => Out::Open(mb.0@),
        Event::Rendezvous(RendezvousEvent::TxAdd(p, b)) => Out::Add(p.0@, b@),
        Event::Rendezvous(RendezvousEvent::TxClose(mb, m)) => Out::Close(mb.0@, m),
        Event::Terminator(TerminatorEvent::MailboxDone) => Out::Done,
        _ => Out::Other,
    }
}

pub open spec fn out_views(es: Seq<Event>) -> Seq<Out> {
    es.map_values(|e: Event| out_view(e))
}

pub open spec fn add_all(q: Seq<Outgoing>) -> Seq<Out> {
    q.map_values(|m: Outgoing| Out::Add(m.0, m.1))
}

/// `q` without the messages of phase `p`.
pub open spec fn without(q: Seq<Outgoing>, p: Seq<char>) -> Seq<Outgoing>
    decreases q.len(),
{
    if q.len() == 0 {
        q
    } else if q[0].0 == p {
        without(q.drop_first(), p)
    } else {
        seq![q[0]].add(without(q.drop_first(), p))
    }
}

/// One step on `e`, from the state and the unacknowledged messages: the
/// next two and what is emitted.
pub open spec fn out_step(s: OutState, q: Seq<Outgoing>, e: MailboxEvent) -> (OutState, Seq<Outgoing>, Seq<Out>) {
    match s {
        OutState::S0NoMailbox(c) => match e {
            MailboxEvent::Connected => (OutState::S0NoMailbox(true), q, seq![]),
            MailboxEvent::Lost => (OutState::S0NoMailbox(false), q, seq![]),
            MailboxEvent::GotMailbox(mb) => (
                OutState::S1Open(mb, c),
                q,
                if c { seq![Out::Open(mb.0@)].add(add_all(q)) } else { seq![] },
            ),
            MailboxEvent::AddMessage(p, b) => (s, q.push((p.0@, b@)), seq![]),
            MailboxEvent::Close(_) => (OutState::S3Closed, Seq::empty(), seq![Out::Done]),
            _ => (s, q, seq![]),
        },
        OutState::S1Open(mb, c) => match e {
            MailboxEvent::Connected => (OutState::S1Open(mb, true), q, seq![Out::Open(mb.0@)].add(add_all(q))),
            MailboxEvent::Lost => (OutState::S1Open(mb, false), q, seq![]),
            MailboxEvent::AddMessage(p, b) => (s, q.push((p.0@, b@)), if c { seq![Out::Add(p.0@, b@)] } else { seq![] }),
            MailboxEvent::RxOwnMessage(p) => (s, without(q, p.0@), seq![]),
            MailboxEvent::Close(m) => (
                OutState::S2Closing(mb, m, c),
                Seq::empty(),
                if c { seq![Out::Close(mb.0@, m)] } else { seq![] },
            ),
            _ => (s, q, seq![]),
        },
        OutState::S2Closing(mb, m, c) => match e {
            MailboxEvent::Connected => (OutState::S2Closing(mb, m, true), q, seq![Out::Close(mb.0@, m)]),
            MailboxEvent::Lost => (OutState::S2Closing(mb, m, false), q, seq![]),
            MailboxEvent::RxClosed => (OutState::S3Closed, q, seq![Out::Done]),
            _ => (s, q, seq![]),
        },
        OutState::S3Closed => (s, q, seq![]),
    }
}

/// Everything emitted while the events `es` arrive one by one.
pub open spec fn out_run(s: OutState, q: Seq<Outgoing>, es: Seq<MailboxEvent>) -> Seq<Out>
    decreases es.len(),
{
    if es.len() == 0 {
        Seq::empty()
    } else {
        let t = out_step(s, q, es[0]);
        t.2.add(out_run(t.0, t.1, es.drop_first()))
    }
}

pub open spec fn closing(s: OutState) -> bool {
    s is S2Closing || s is S3Closed
}

proof fn lemma_quiet_after_close(s: OutState, q: Seq<Outgoing>, es: Seq<MailboxEvent>)
    requires
        closing(s),
    ensures
        forall|i: int| 0 <= i < out_run(s, q, es).len() ==> !((#[trigger] out_run(s, q, es)[i]) is Open || out_run(s, q, es)[i] is Add),
    decreases es.len(),
{
    if es.len() > 0 {
        let t = out_step(s, q, es[0]);
        lemma_quiet_after_close(t.0, t.1, es.drop_first());
        let r = out_run(s, q, es);
        assert forall|i: int| 0 <= i < r.len() implies !((#[trigger] r[i]) is Open || r[i] is Add) by {
            if i < t.2.len() {
                assert(r[i] == t.2[i]);
            } else {
                assert(r[i] == out_run(t.0, t.1, es.drop_first())[i - t.2.len()]);
            }
        }
    }
}

/// Nothing is opened or added after close: once the close is requested,
/// whatever follows, the mailbox is neither opened nor added to again.
pub proof fn outbound_quiet_after_close(s: OutState, q: Seq<Outgoing>, m: Mood, es: Seq<MailboxEvent>)
    requires
        s is S1Open || s is S2Closing,
    ensures
        ({
            let t = out_step(s, q, MailboxEvent::Close(m));
            forall|i: int| 0 <= i < out_run(t.0, t.1, es).len() ==> !((#[trigger] out_run(t.0, t.1, es)[i]) is Open
                || out_run(t.0, t.1, es)[i] is Add)
        }),
{
    let t = out_step(s, q, MailboxEvent::Close(m));
    lemma_quiet_after_close(t.0, t.1, es);
}

fn copy_mailbox(mb: &Mailbox) -> (r: Mailbox)
    ensures
        r == *mb,
{
    Mailbox(mb.0.clone())
}

fn copy_bytes(b: &Vec<u8>) -> (r: Vec<u8>)
    ensures
        r@ == b@,
{
    let r = b.clone();
    assert(r@ =~= b@);
    r
}

pub struct Outbound {
    pub state: OutState,
    /// Messages not yet echoed by the server, in order of submission.
    pub pending: Vec<(Phase, Vec<u8>)>,
}

impl Outbound {
    pub open spec fn queued(&self) -> Seq<Outgoing> {
        self.pending@.map_values(|m: (Phase, Vec<u8>)| (m.0.0@, m.1@))
    }

    pub fn new() -> (r: Outbound)
        ensures
            r.state == OutState::S0NoMailbox(false),
            r.queued() == Seq::<Outgoing>::empty(),
    {
        let r = Outbound { state: OutState::S0NoMailbox(false), pending: Vec::new() };
        assert(r.queued() =~= Seq::<Outgoing>::empty());
        r
    }

    /// The open request followed by every unacknowledged message, in order.
    fn open_and_replay(&self, mb: &Mailbox) -> (r: Events)
        ensures
            out_views(r@) == seq![Out::Open(mb.0@)].add(add_all(self.queued())),
    {
        let mut es: Events = vec![Event::Rendezvous(RendezvousEvent::TxOpen(copy_mailbox(mb)))];
        let mut i: usize = 0;
        while i < self.pending.len()
            invariant
                i <= self.pending@.len(),
                out_views(es@) == seq![Out::Open(mb.0@)].add(add_all(self.queued().take(i as int))),
            decreases self.pending@.len() - i,
        {
            let (p, b) = &self.pending[i];
            let ghost before = es@;
            es.push(Event::Rendezvous(RendezvousEvent::TxAdd(Phase(p.0.clone()), copy_bytes(b))));
            proof {
                assert(self.queued().take(i + 1) =~= self.queued().take(i as int).push(self.queued()[i as int]));
                assert(out_views(es@) =~= out_views(before).push(Out::Add(p.0@, b@)));
                assert(out_views(es@) =~= seq![Out::Open(mb.0@)].add(add_all(self.queued().take(i + 1))));
            }
            i = i + 1;
        }
        assert(self.queued().take(i as int) =~= self.queued());
        es
    }

    /// Drops the messages of phase `p`.
    fn acknowledge(&mut self, p: &Phase)
        ensures
            final(self).queued() == without(old(self).queued(), p.0@),
            final(self).state == old(self).state,
    {
        let mut q: Vec<(Phase, Vec<u8>)> = Vec::new();
        std::mem::swap(&mut q, &mut self.pending);
        let ghost all = q@.map_values(|m: (Phase, Vec<u8>)| (m.0.0@, m.1@));
        while q.len() > 0
            invariant
                self.state == old(self).state,
                self.queued().add(without(q@.map_values(|m: (Phase, Vec<u8>)| (m.0.0@, m.1@)), p.0@)) == without(all, p.0@),
            decreases q.len(),
        {
            let ghost before = q@;
            let ghost kept = self.queued();
            let m = q.remove(0);
            proof {
                let f = |m: (Phase, Vec<u8>)| (m.0.0@, m.1@);
                assert(before.map_values(f).drop_first() =~= q@.map_values(f));
                assert(before.map_values(f)[0] == (m.0.0@, m.1@));
            }
            if m.0.0 != p.0 {
                self.pending.push(m);
                proof {
                    assert(self.queued() =~= kept.push((m.0.0@, m.1@)));
                    let f = |m: (Phase, Vec<u8>)| (m.0.0@, m.1@);
                    assert(self.queued().add(without(q@.map_values(f), p.0@)) =~= kept.add(without(before.map_values(f), p.0@)));
                }
            }
        }
        assert(self.queued().add(without(Seq::<Outgoing>::empty(), p.0@)) =~= self.queued());
    }

    /// Takes one event. Messages are sent at once while the mailbox is open
    /// and connected, else kept; each reconnect opens the mailbox again and
    /// re-sends what the server has not echoed. Close sends the close (again
    /// on reconnect) until the server confirms.
    pub fn process(&mut self, event: MailboxEvent) -> (r: Events)
        ensures
            ({
                let t = out_step(old(self).state, old(self).queued(), event);
                &&& final(self).state == t.0
                &&& final(self).queued() == t.1
                &&& out_views(r@) == t.2
            }),
    {
        let r: Events = match &self.state {
            OutState::S0NoMailbox(c) => {
                let c = *c;
                match event {
                    MailboxEvent::Connected => { self.state = OutState::S0NoMailbox(true); vec![] },
                    MailboxEvent::Lost => { self.state = OutState::S0NoMailbox(false); vec![] },
                    MailboxEvent::GotMailbox(mb) => {
                        let es = if c { self.open_and_replay(&mb) } else { vec![] };
                        self.state = OutState::S1Open(mb, c);
                        es
                    },
                    MailboxEvent::AddMessage(p, b) => {
                        self.pending.push((p, b));
                        vec![]
                    },
                    MailboxEvent::Close(_) => {
                        self.state = OutState::S3Closed;
                        self.pending = Vec::new();
                        vec![Event::Terminator(TerminatorEvent::MailboxDone)]
                    },
                    _ => vec![],
                }
            },
            OutState::S1Open(mb, c) => {
                let c = *c;
                let mb = copy_mailbox(mb);
                match event {
                    MailboxEvent::Connected => {
                        let es = self.open_and_replay(&mb);
                        self.state = OutState::S1Open(mb, true);
                        es
                    },
                    MailboxEvent::Lost => { self.state = OutState::S1Open(mb, false); vec![] },
                    MailboxEvent::AddMessage(p, b) => {
                        let es = if c {
                            vec![Event::Rendezvous(RendezvousEvent::TxAdd(Phase(p.0.clone()), copy_bytes(&b)))]
                        } else {
                            vec![]
                        };
                        self.pending.push((p, b));
                        es
                    },
                    MailboxEvent::RxOwnMessage(p) => { self.acknowledge(&p); vec![] },
                    MailboxEvent::Close(m) => {
                        let es = if c {
                            vec![Event::Rendezvous(RendezvousEvent::TxClose(copy_mailbox(&mb), m.copy()))]
                        } else {
                            vec![]
                        };
                        self.state = OutState::S2Closing(mb, m, c);
                        self.pending = Vec::new();
                        es
                    },
                    _ => vec![],
                }
            },
            OutState::S2Closing(mb, m, c) => {
                let c = *c;
                let mb = copy_mailbox(mb);
                let m = m.copy();
                match event {
                    MailboxEvent::Connected => {
                        let es = vec![Event::Rendezvous(RendezvousEvent::TxClose(copy_mailbox(&mb), m.copy()))];
                        self.state = OutState::S2Closing(mb, m, true);
                        es
                    },
                    MailboxEvent::Lost => { self.state = OutState::S2Closing(mb, m, false); vec![] },
                    MailboxEvent::RxClosed => {
                        self.state = OutState::S3Closed;
                        vec![Event::Terminator(TerminatorEvent::MailboxDone)]
                    },
                    _ => vec![],
                }
            },
            OutState::S3Closed => vec![],
        };
        proof {
            assert(self.queued() =~= out_step(old(self).state, old(self).queued(), event).1);
            assert(out_views(r@) =~= out_step(old(self).state, old(self).queued(), event).2);
        }
        r
    }
}

} // verus!
