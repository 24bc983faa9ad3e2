//! The Receive machine: peer messages wait for the key, are opened under the
//! key of their phase, and go up only once the peer's version has opened.
use vstd::prelude::*;
use crate::event::{BossEvent, CryptoEvent, Event, Events, Key, Phase, ReceiveEvent, TheirSide};

verus! {

pub enum State {
    S0NoKey,
    S1Unverified(Key),
    S2Verified(Key),
    S3Scared,
}

/// What an emitted event is, as plain values.
pub enum Out {
    /// Open a body: side, key, phase, body.
    Open(Seq<char>, Seq<u8>, Seq<char>, Seq<u8>),
    Versions(Seq<u8>),
    Message(Seq<char>, Seq<u8>),
    Scared,
    Other,
}

pub open spec fn out_view(e: Event) -> Out {
    match e {
        Event::Crypto(CryptoEvent::Open(s, k, p, b)) => Out::Open(s.0@, k.0@, p.0@, b@),
        Event::Boss(BossEvent::GotVersions(v)) => Out::Versions(v@),
        Event::Boss(BossEvent::GotMessage(p, b)) => Out::Message(p.0@, b@),
        Event::Boss(BossEvent::Scared) => Out::Scared,
        _ => Out::Other,
    }
}

pub open spec fn out_views(es: Seq<Event>) -> Seq<Out> {
    es.map_values(|e: Event| out_view(e))
}

/// A sealed message waiting for the key: side, phase, body.
pub type Sealed = (Seq<char>, Seq<char>, Seq<u8>);

/// An opened message waiting for verification: phase, plaintext.
pub type Opened = (Seq<char>, Seq<u8>);

pub open spec fn is_version(p: Seq<char>) -> bool {
    p == seq!['v', 'e', 'r', 's', 'i', 'o', 'n']
}

pub open spec fn open_all(k: Seq<u8>, q: Seq<Sealed>) -> Seq<Out> {
    q.map_values(|m: Sealed| Out::Open(m.0, k, m.1, m.2))
}

pub open spec fn deliver_all(p: Seq<Opened>) -> Seq<Out> {
    p.map_values(|m: Opened| Out::Message(m.0, m.1))
}

/// The stage of a state: no key, unverified, verified, scared.
pub open spec fn stage(s: State) -> int {
    match s {
        State::S0NoKey => 0,
        State::S1Unverified(_) => 1,
        State::S2Verified(_) => 2,
        State::S3Scared => 3,
    }
}

pub open spec fn key_of(s: State) -> Seq<u8> {
    match s {
        State::S1Unverified(k) => k.0@,
        State::S2Verified(k) => k.0@,
        _ => Seq::empty(),
    }
}

/// One step on `e` from a stage, the key, the sealed queue and the opened
/// queue: the next four and what is emitted. A second key is ignored.
pub open spec fn step(st: int, k: Seq<u8>, q: Seq<Sealed>, p: Seq<Opened>, e: ReceiveEvent) -> (
    int,
    Seq<u8>,
    Seq<Sealed>,
    Seq<Opened>,
    Seq<Out>,
) {
    match e {
        ReceiveEvent::GotKey(key) => if st == 0 {
            (1, key.0@, Seq::empty(), p, open_all(key.0@, q))
        } else {
            (st, k, q, p, Seq::empty())
        },
        ReceiveEvent::GotMessage(side, phase, body) => if st == 0 {
            (st, k, q.push((side.0@, phase.0@, body@)), p, Seq::empty())
        } else if st == 1 || st == 2 {
            (st, k, q, p, seq![Out::Open(side.0@, k, phase.0@, body@)])
        } else {
            (st, k, q, p, Seq::empty())
        },
        ReceiveEvent::Opened(_, phase, None) => if st == 1 || st == 2 {
            (3, Seq::empty(), q, Seq::empty(), seq![Out::Scared])
        } else {
            (st, k, q, p, Seq::empty())
        },
        ReceiveEvent::Opened(_, phase, Some(pt)) => if st == 1 && is_version(phase.0@) {
            (2, k, q, Seq::empty(), seq![Out::Versions(pt@)].add(deliver_all(p)))
        } else if st == 1 {
            (st, k, q, p.push((phase.0@, pt@)), Seq::empty())
        } else if st == 2 {
            (st, k, q, p, seq![Out::Message(phase.0@, pt@)])
        } else {
            (st, k, q, p, Seq::empty())
        },
    }
}

/// Everything emitted while the events `es` arrive one by one.
pub open spec fn run(st: int, k: Seq<u8>, q: Seq<Sealed>, p: Seq<Opened>, es: Seq<ReceiveEvent>) -> Seq<Out>
    decreases es.len(),
{
    if es.len() == 0 {
        Seq::empty()
    } else {
        let s = step(st, k, q, p, es[0]);
        s.4.add(run(s.0, s.1, s.2, s.3, es.drop_first()))
    }
}

proof fn lemma_verified_first(st: int, k: Seq<u8>, q: Seq<Sealed>, p: Seq<Opened>, es: Seq<ReceiveEvent>)
    ensures
        forall|i: int| 0 <= i < run(st, k, q, p, es).len() && (#[trigger] run(st, k, q, p, es)[i]) is Message ==> st == 2
            || exists|j: int| 0 <= j < i && run(st, k, q, p, es)[j] is Versions,
    decreases es.len(),
{
    if es.len() > 0 {
        let s = step(st, k, q, p, es[0]);
        let o = s.4;
        let rest = run(s.0, s.1, s.2, s.3, es.drop_first());
        let r = run(st, k, q, p, es);
        lemma_verified_first(s.0, s.1, s.2, s.3, es.drop_first());
        assert(r == o.add(rest));
        assert(s.0 == 2 ==> st == 2 || (o.len() > 0 && o[0] is Versions));
        assert forall|i: int| 0 <= i < o.len() && (#[trigger] o[i]) is Message implies st == 2 || (i > 0 && o[0] is Versions) by {
            if i == 0 && st != 2 {
                assert(!(o[0] is Message));
            }
        }
        assert forall|i: int| 0 <= i < r.len() && (#[trigger] r[i]) is Message implies st == 2 || exists|j: int|
            0 <= j < i && r[j] is Versions by {
            if st != 2 {
                if i < o.len() {
                    assert(r[i] == o[i]);
                    assert(r[0] == o[0]);
                } else {
                    assert(r[i] == rest[i - o.len()]);
                    if s.0 == 2 {
                        assert(r[0] == o[0]);
                    } else {
                        let j = choose|j: int| 0 <= j < i - o.len() && rest[j] is Versions;
                        assert(r[j + o.len()] == rest[j]);
                    }
                }
            }
        }
    }
}

/// Nothing goes up before verification: from a fresh machine, every message
/// emitted for the application comes after the peer's version has opened.
pub proof fn receive_delivers_only_after_verified(es: Seq<ReceiveEvent>)
    ensures
        forall|i: int| 0 <= i < run(0, Seq::empty(), Seq::empty(), Seq::empty(), es).len()
            && (#[trigger] run(0, Seq::empty(), Seq::empty(), Seq::empty(), es)[i]) is Message ==> exists|j: int|
            0 <= j < i && run(0, Seq::empty(), Seq::empty(), Seq::empty(), es)[j] is Versions,
{
    lemma_verified_first(0, Seq::empty(), Seq::empty(), Seq::empty(), es);
}

pub struct ReceiveMachine {
    pub state: State,
    /// Sealed messages that came before the key, in arrival order.
    pub queue: Vec<(TheirSide, Phase, Vec<u8>)>,
    /// Opened messages that came before the version, in arrival order.
    pub pending: Vec<(Phase, Vec<u8>)>,
}

impl ReceiveMachine {
    pub open spec fn sealed(&self) -> Seq<Sealed> {
        self.queue@.map_values(|m: (TheirSide, Phase, Vec<u8>)| (m.0.0@, m.1.0@, m.2@))
    }

    pub open spec fn opened(&self) -> Seq<Opened> {
        self.pending@.map_values(|m: (Phase, Vec<u8>)| (m.0.0@, m.1@))
    }

    /// Sealed messages wait only without a key; opened ones only while
    /// unverified.
    pub open spec fn wf(&self) -> bool {
        &&& !(self.state is S0NoKey) ==> self.queue@.len() == 0
        &&& !(self.state is S1Unverified) ==> self.pending@.len() == 0
    }

    pub fn new() -> (r: ReceiveMachine)
        ensures
            r.state is S0NoKey,
            r.sealed() == Seq::<Sealed>::empty(),
            r.opened() == Seq::<Opened>::empty(),
            r.wf(),
    {
        let r = ReceiveMachine { state: State::S0NoKey, queue: Vec::new(), pending: Vec::new() };
        assert(r.sealed() =~= Seq::<Sealed>::empty());
        assert(r.opened() =~= Seq::<Opened>::empty());
        r
    }

    /// Takes one event. Without a key, sealed messages wait; with it, each is
    /// sent to be opened under the key of its phase. An opened version
    /// verifies the key and releases the opened messages that waited for it;
    /// after that each opened message goes up at once. A message that does
    /// not open makes the machine scared, and it then stays silent. The key
    /// may be given once.
    pub fn process(&mut self, event: ReceiveEvent) -> (r: Events)
        requires
            old(self).wf(),
            !(event is GotKey && !(old(self).state is S0NoKey)),
        ensures
            final(self).wf(),
            ({
                let s = step(stage(old(self).state), key_of(old(self).state), old(self).sealed(), old(self).opened(), event);
                &&& stage(final(self).state) == s.0
                &&& key_of(final(self).state) == s.1
                &&& final(self).sealed() == s.2
                &&& final(self).opened() == s.3
                &&& out_views(r@) == s.4
            }),
    {
        let key: Option<Key> = match &self.state {
            State::S1Unverified(k) => Some(k.copy()),
            State::S2Verified(k) => Some(k.copy()),
            _ => None,
        };
        let verified = matches!(self.state, State::S2Verified(_));
        let scared = matches!(self.state, State::S3Scared);
        match event {
            ReceiveEvent::GotKey(k) => {
                let es = self.open_queued(&k);
                self.state = State::S1Unverified(k);
                es
            },
            ReceiveEvent::GotMessage(side, phase, body) => match key {
                None => {
                    if !scared {
                        self.queue.push((side, phase, body));
                        assert(self.sealed() =~= old(self).sealed().push((side.0@, phase.0@, body@)));
                    }
                    let r: Events = Vec::new();
                    assert(out_views(r@) =~= Seq::<Out>::empty());
                    r
                },
                Some(k) => {
                    let r: Events = vec![Event::Crypto(CryptoEvent::Open(side, k, phase, body))];
                    assert(out_views(r@) =~= seq![Out::Open(side.0@, key_of(old(self).state), phase.0@, body@)]);
                    r
                },
            },
            ReceiveEvent::Opened(_, phase, None) => {
                let r: Events = if key.is_some() {
                    self.state = State::S3Scared;
                    self.pending = Vec::new();
                    assert(self.opened() =~= Seq::<Opened>::empty());
                    vec![Event::Boss(BossEvent::Scared)]
                } else {
                    Vec::new()
                };
                assert(key.is_some() ==> out_views(r@) =~= seq![Out::Scared]);
                assert(key.is_none() ==> out_views(r@) =~= Seq::<Out>::empty());
                r
            },
            ReceiveEvent::Opened(_, phase, Some(pt)) => match key {
                None => {
                    let r: Events = Vec::new();
                    assert(out_views(r@) =~= Seq::<Out>::empty());
                    r
                },
                Some(k) => {
                    if verified {
                        let r: Events = vec![Event::Boss(BossEvent::GotMessage(phase, pt))];
                        assert(out_views(r@) =~= seq![Out::Message(phase.0@, pt@)]);
                        r
                    } else {
                        let version = "version".to_owned();
                        proof {
                            reveal_strlit("version");
                            assert(version@ =~= seq!['v', 'e', 'r', 's', 'i', 'o', 'n']);
                        }
                        if phase.0 == version {
                            let mut out: Events = vec![Event::Boss(BossEvent::GotVersions(pt))];
                            let ghost first = out@;
                            let mut rest = self.deliver_pending();
                            let ghost rest_v = rest@;
                            out.append(&mut rest);
                            self.state = State::S2Verified(k);
                            assert(out@ == first.add(rest_v));
                            assert(out_views(out@) =~= seq![Out::Versions(pt@)].add(deliver_all(old(self).opened())));
                            out
                        } else {
                            self.pending.push((phase, pt));
                            assert(self.opened() =~= old(self).opened().push((phase.0@, pt@)));
                            let r: Events = Vec::new();
                            assert(out_views(r@) =~= Seq::<Out>::empty());
                            r
                        }
                    }
                },
            },
        }
    }

    /// Moves the sealed messages out, in order, as requests to open them
    /// under `k`.
    fn open_queued(&mut self, k: &Key) -> (r: Events)
        ensures
            out_views(r@) == open_all(k.0@, old(self).sealed()),
            final(self).queue@.len() == 0,
            final(self).sealed() == Seq::<Sealed>::empty(),
            final(self).pending == old(self).pending,
            final(self).state == old(self).state,
    {
        let mut q: Vec<(TheirSide, Phase, Vec<u8>)> = Vec::new();
        std::mem::swap(&mut q, &mut self.queue);
        let ghost all = q@.map_values(|m: (TheirSide, Phase, Vec<u8>)| (m.0.0@, m.1.0@, m.2@));
        let mut es: Events = Vec::new();
        while q.len() > 0
            invariant
                out_views(es@).add(open_all(k.0@, q@.map_values(|m: (TheirSide, Phase, Vec<u8>)| (m.0.0@, m.1.0@, m.2@))))
                    == open_all(k.0@, all),
            decreases q.len(),
        {
            let ghost before = q@;
            let (side, phase, body) = q.remove(0);
            let kc = k.copy();
            let ghost es_before = es@;
            es.push(Event::Crypto(CryptoEvent::Open(side, kc, phase, body)));
            proof {
                let f = |m: (TheirSide, Phase, Vec<u8>)| (m.0.0@, m.1.0@, m.2@);
                assert(before.map_values(f) =~= seq![before[0]].add(q@).map_values(f));
                assert(out_views(es@) =~= out_views(es_before).push(Out::Open(side.0@, k.0@, phase.0@, body@)));
                assert(out_views(es@).add(open_all(k.0@, q@.map_values(f))) =~= open_all(k.0@, all));
            }
        }
        assert(out_views(es@) =~= open_all(k.0@, all));
        assert(self.sealed() =~= Seq::<Sealed>::empty());
        es
    }

    /// Moves the opened messages out, in order, as messages for the
    /// application.
    fn deliver_pending(&mut self) -> (r: Events)
        ensures
            out_views(r@) == deliver_all(old(self).opened()),
            final(self).pending@.len() == 0,
            final(self).opened() == Seq::<Opened>::empty(),
            final(self).queue == old(self).queue,
            final(self).state == old(self).state,
    {
        let mut p: Vec<(Phase, Vec<u8>)> = Vec::new();
        std::mem::swap(&mut p, &mut self.pending);
        let ghost all = p@.map_values(|m: (Phase, Vec<u8>)| (m.0.0@, m.1@));
        let mut es: Events = Vec::new();
        while p.len() > 0
            invariant
                out_views(es@).add(deliver_all(p@.map_values(|m: (Phase, Vec<u8>)| (m.0.0@, m.1@)))) == deliver_all(all),
            decreases p.len(),
        {
            let ghost before = p@;
            let (phase, pt) = p.remove(0);
            let ghost es_before = es@;
            es.push(Event::Boss(BossEvent::GotMessage(phase, pt)));
            proof {
                let f = |m: (Phase, Vec<u8>)| (m.0.0@, m.1@);
                assert(before.map_values(f) =~= seq![before[0]].add(p@).map_values(f));
                assert(out_views(es@) =~= out_views(es_before).push(Out::Message(phase.0@, pt@)));
                assert(out_views(es@).add(deliver_all(p@.map_values(f))) =~= deliver_all(all));
            }
        }
        assert(out_views(es@) =~= deliver_all(all));
        assert(self.opened() =~= Seq::<Opened>::empty());
        es
    }
}

} // verus!
