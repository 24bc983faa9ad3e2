//! The Send machine: application payloads wait for the verified key, then
//! each is handed on for sealing under the key of its phase, in order.
use vstd::prelude::*;
use crate::event::{CryptoEvent, Event, Events, Key, MySide, Phase, SendEvent};

verus! {

pub enum State {
    S0NoKey,
    S1HaveVerifiedKey(Key),
}

/// A payload as its phase and plaintext.
pub type Payload = (Seq<char>, Seq<u8>);

/// A request to seal: side, key, phase and plaintext.
pub type Sealing = (Seq<char>, Seq<u8>, Seq<char>, Seq<u8>);

pub open spec fn payload(p: Phase, pt: Vec<u8>) -> Payload {
    (p.0@, pt@)
}

pub open spec fn sealed(side: Seq<char>, key: Seq<u8>, x: Payload) -> Option<Sealing> {
    Some((side, key, x.0, x.1))
}

pub open spec fn seal_all(side: Seq<char>, key: Seq<u8>, q: Seq<Payload>) -> Seq<Option<Sealing>> {
    q.map_values(|x: Payload| sealed(side, key, x))
}

/// The seal request that an event is, if it is one.
pub open spec fn seal_view(e: Event) -> Option<Sealing> {
    match e {
        Event::Crypto(CryptoEvent::SealAndAdd(s, k, p, b)) => Some((s.0@, k.0@, p.0@, b@)),
        _ => None,
    }
}

pub open spec fn seal_views(es: Seq<Event>) -> Seq<Option<Sealing>> {
    es.map_values(|e: Event| seal_view(e))
}

/// One step on `e`, from the verified key (if any) and the queue: the next
/// key, the next queue and the seal requests emitted.
pub open spec fn step(side: Seq<char>, key: Option<Seq<u8>>, q: Seq<Payload>, e: SendEvent) -> (
    Option<Seq<u8>>,
    Seq<Payload>,
    Seq<Option<Sealing>>,
) {
    match e {
        SendEvent::Send(p, pt) => match key {
            None => (None, q.push(payload(p, pt)), Seq::empty()),
            Some(k) => (key, q, seq![sealed(side, k, payload(p, pt))]),
        },
        SendEvent::GotVerifiedKey(k) => (Some(k.0@), Seq::empty(), seal_all(side, k.0@, q)),
    }
}

/// Everything emitted while the events `es` arrive one by one.
pub open spec fn run(side: Seq<char>, key: Option<Seq<u8>>, q: Seq<Payload>, es: Seq<SendEvent>) -> Seq<Option<Sealing>>
    decreases es.len(),
{
    if es.len() == 0 {
        Seq::empty()
    } else {
        let s = step(side, key, q, es[0]);
        s.2.add(run(side, s.0, s.1, es.drop_first()))
    }
}

/// The payloads of the `Send` events of `es`, in submission order.
pub open spec fn payloads(es: Seq<SendEvent>) -> Seq<Payload>
    decreases es.len(),
{
    if es.len() == 0 {
        Seq::empty()
    } else {
        let rest = payloads(es.drop_first());
        match es[0] {
            SendEvent::Send(p, pt) => seq![payload(p, pt)].add(rest),
            SendEvent::GotVerifiedKey(_) => rest,
        }
    }
}

pub open spec fn has_no_key(es: Seq<SendEvent>) -> bool {
    forall|i: int| 0 <= i < es.len() ==> (#[trigger] es[i]) is Send
}

proof fn lemma_run_with_key(side: Seq<char>, k: Seq<u8>, es: Seq<SendEvent>)
    requires
        has_no_key(es),
    ensures
        run(side, Some(k), Seq::empty(), es) == seal_all(side, k, payloads(es)),
    decreases es.len(),
{
    if es.len() > 0 {
        assert(has_no_key(es.drop_first())) by {
            assert forall|i: int| 0 <= i < es.drop_first().len() implies (#[trigger] es.drop_first()[i]) is Send by {
                assert(es[i + 1] is Send);
            }
        }
        lemma_run_with_key(side, k, es.drop_first());
        assert(es[0] is Send);
        assert(seal_all(side, k, payloads(es)) =~= seal_all(side, k, seq![payloads(es).first()]).add(
            seal_all(side, k, payloads(es.drop_first())),
        ));
    }
}

proof fn lemma_run_before_key(side: Seq<char>, q: Seq<Payload>, es: Seq<SendEvent>, n: int)
    requires
        0 <= n < es.len(),
        es[n] is GotVerifiedKey,
        forall|i: int| 0 <= i < es.len() && i != n ==> (#[trigger] es[i]) is Send,
    ensures
        run(side, None, q, es) == seal_all(
            side,
            es[n]->GotVerifiedKey_0.0@,
            q.add(payloads(es.take(n))).add(payloads(es.skip(n + 1))),
        ),
    decreases es.len(),
{
    let k = es[n]->GotVerifiedKey_0.0@;
    if n == 0 {
        assert(has_no_key(es.drop_first())) by {
            assert forall|i: int| 0 <= i < es.drop_first().len() implies (#[trigger] es.drop_first()[i]) is Send by {
                assert(es[i + 1] is Send);
            }
        }
        lemma_run_with_key(side, k, es.drop_first());
        assert(payloads(es.take(0)) =~= Seq::<Payload>::empty());
        assert(es.skip(1) =~= es.drop_first());
        assert(seal_all(side, k, q.add(payloads(es.take(0))).add(payloads(es.skip(1)))) =~= seal_all(side, k, q).add(
            seal_all(side, k, payloads(es.drop_first())),
        ));
    } else {
        assert(es[0] is Send);
        let p0 = payloads(seq![es[0]]);
        assert(payloads(seq![es[0]].drop_first()) == Seq::<Payload>::empty()) by {
            assert(seq![es[0]].drop_first() =~= Seq::<SendEvent>::empty());
        }
        lemma_run_before_key(side, q.add(p0), es.drop_first(), n - 1);
        assert(es.drop_first().skip(n) =~= es.skip(n + 1));
        lemma_payloads_front(es.take(n));
        assert(es.take(n).drop_first() =~= es.drop_first().take(n - 1));
        assert(q.push(payloads(es).first()) =~= q.add(p0));
        assert(q.add(p0).add(payloads(es.drop_first().take(n - 1))) =~= q.add(payloads(es.take(n))));
    }
}

proof fn lemma_payloads_front(es: Seq<SendEvent>)
    requires
        es.len() > 0,
        es[0] is Send,
    ensures
        payloads(es) == payloads(seq![es[0]]).add(payloads(es.drop_first())),
{
    let one = seq![es[0]];
    assert(one.drop_first() =~= Seq::<SendEvent>::empty());
    assert(payloads(one.drop_first()) == Seq::<Payload>::empty());
    if let SendEvent::Send(p, pt) = es[0] {
        assert(payloads(one) =~= seq![payload(p, pt)]);
        assert(payloads(es) == seq![payload(p, pt)].add(payloads(es.drop_first())));
    }
}

/// Submission order is kept: from a fresh machine, when the verified key
/// arrives once, at position `n`, the run emits exactly one seal request
/// under that key for each submitted payload, in the order of submission.
pub proof fn send_keeps_submission_order(side: Seq<char>, es: Seq<SendEvent>, n: int)
    requires
        0 <= n < es.len(),
        es[n] is GotVerifiedKey,
        forall|i: int| 0 <= i < es.len() && i != n ==> (#[trigger] es[i]) is Send,
    ensures
        run(side, None, Seq::empty(), es) == seal_all(side, es[n]->GotVerifiedKey_0.0@, payloads(es)),
        run(side, None, Seq::empty(), es).len() == payloads(es).len(),
{
    lemma_run_before_key(side, Seq::empty(), es, n);
    lemma_payloads_split(es, n);
    assert(Seq::<Payload>::empty().add(payloads(es.take(n))).add(payloads(es.skip(n + 1)))
        =~= payloads(es.take(n)).add(payloads(es.skip(n + 1))));
}

proof fn lemma_payloads_split(es: Seq<SendEvent>, n: int)
    requires
        0 <= n < es.len(),
        es[n] is GotVerifiedKey,
    ensures
        payloads(es) == payloads(es.take(n)).add(payloads(es.skip(n + 1))),
    decreases es.len(),
{
    if n == 0 {
        assert(payloads(es.take(0)) =~= Seq::<Payload>::empty());
        assert(es.skip(1) =~= es.drop_first());
        assert(payloads(es) =~= payloads(es.drop_first()));
    } else {
        lemma_payloads_split(es.drop_first(), n - 1);
        assert(es.drop_first().skip(n) =~= es.skip(n + 1));
        assert(es.take(n).drop_first() =~= es.drop_first().take(n - 1));
        assert(es.take(n)[0] == es[0]);
        match es[0] {
            SendEvent::Send(p, pt) => {
                assert(payloads(es.take(n)) == seq![payload(p, pt)].add(payloads(es.drop_first().take(n - 1))));
                assert(payloads(es) =~= payloads(es.take(n)).add(payloads(es.skip(n + 1))));
            },
            SendEvent::GotVerifiedKey(_) => {
                assert(payloads(es.take(n)) == payloads(es.drop_first().take(n - 1)));
            },
        }
    }
}

/// Before the key arrives nothing is sealed: a fresh machine that sees only
/// `Send` events emits nothing.
pub proof fn send_holds_back_without_key(side: Seq<char>, es: Seq<SendEvent>)
    requires
        has_no_key(es),
    ensures
        run(side, None, Seq::empty(), es) == Seq::<Option<Sealing>>::empty(),
{
    lemma_run_without_key(side, Seq::empty(), es);
}

proof fn lemma_run_without_key(side: Seq<char>, q: Seq<Payload>, es: Seq<SendEvent>)
    requires
        has_no_key(es),
    ensures
        run(side, None, q, es) == Seq::<Option<Sealing>>::empty(),
    decreases es.len(),
{
    if es.len() > 0 {
        assert(has_no_key(es.drop_first())) by {
            assert forall|i: int| 0 <= i < es.drop_first().len() implies (#[trigger] es.drop_first()[i]) is Send by {
                assert(es[i + 1] is Send);
            }
        }
        assert(es[0] is Send);
        lemma_run_without_key(side, step(side, None, q, es[0]).1, es.drop_first());
    }
}

pub struct SendMachine {
    pub state: State,
    pub side: MySide,
    pub queue: Vec<(Phase, Vec<u8>)>,
}

impl SendMachine {
    /// The verified key, once it is known.
    pub open spec fn key_view(&self) -> Option<Seq<u8>> {
        match self.state {
            State::S0NoKey => None,
            State::S1HaveVerifiedKey(k) => Some(k.0@),
        }
    }

    /// The payloads waiting for the key, in submission order.
    pub open spec fn queued(&self) -> Seq<Payload> {
        self.queue@.map_values(|x: (Phase, Vec<u8>)| payload(x.0, x.1))
    }

    /// Once the key is known nothing stays queued.
    pub open spec fn wf(&self) -> bool {
        self.state is S1HaveVerifiedKey ==> self.queue@.len() == 0
    }

    pub fn new(side: &MySide) -> (r: SendMachine)
        ensures
            r.side == *side,
            r.key_view() is None,
            r.queued() == Seq::<Payload>::empty(),
            r.wf(),
    {
        let r = SendMachine { state: State::S0NoKey, side: MySide(side.0.clone()), queue: Vec::new() };
        assert(r.queued() =~= Seq::<Payload>::empty());
        r
    }

    /// Takes one event. Before the verified key, payloads are queued; the key
    /// releases the queue in order, and afterwards each payload is handed on
    /// at once. Each hand-off asks for a seal under this side, the key and
    /// the payload's phase. The key may be given once.
    pub fn process(&mut self, event: SendEvent) -> (r: Events)
        requires
            old(self).wf(),
            !(old(self).state is S1HaveVerifiedKey && event is GotVerifiedKey),
        ensures
            final(self).wf(),
            final(self).side == old(self).side,
            ({
                let s = step(old(self).side.0@, old(self).key_view(), old(self).queued(), event);
                &&& final(self).key_view() == s.0
                &&& final(self).queued() == s.1
                &&& seal_views(r@) == s.2
            }),
    {
        match self.state {
            State::S0NoKey => self.do_s0(event),
            State::S1HaveVerifiedKey(_) => self.do_s1(event),
        }
    }

    /// Moves the queued payloads out, in order, as seal requests under `key`.
    fn drain(&mut self, key: &Key) -> (r: Events)
        ensures
            seal_views(r@) == seal_all(old(self).side.0@, key.0@, old(self).queued()),
            final(self).queue@.len() == 0,
            final(self).side == old(self).side,
            final(self).state == old(self).state,
    {
        let mut q: Vec<(Phase, Vec<u8>)> = Vec::new();
        std::mem::swap(&mut q, &mut self.queue);
        let ghost side = self.side.0@;
        let ghost all = q@.map_values(|x: (Phase, Vec<u8>)| payload(x.0, x.1));
        let mut es: Events = Vec::new();
        while q.len() > 0
            invariant
                self.side.0@ == side,
                seal_views(es@).add(seal_all(side, key.0@, q@.map_values(|x: (Phase, Vec<u8>)| payload(x.0, x.1))))
                    == seal_all(side, key.0@, all),
            decreases q.len(),
        {
            let ghost before = q@;
            let (phase, plaintext) = q.remove(0);
            let mut one = self.deliver(key, phase, plaintext);
            proof {
                assert(before.map_values(|x: (Phase, Vec<u8>)| payload(x.0, x.1)) =~= seq![
                    before[0],
                ].add(q@).map_values(|x: (Phase, Vec<u8>)| payload(x.0, x.1)));
            }
            let ghost es_before = es@;
            let ghost one_v = one@;
            es.append(&mut one);
            proof {
                assert(es@ == es_before.add(one_v));
                assert(seal_views(es@) =~= seal_views(es_before).add(seal_views(one_v)));
                assert(seal_views(es@).add(seal_all(side, key.0@, q@.map_values(|x: (Phase, Vec<u8>)| payload(x.0, x.1))))
                    =~= seal_all(side, key.0@, all));
            }
        }
        proof {
            assert(seal_views(es@) =~= seal_all(side, key.0@, all));
        }
        es
    }

    /// A seal request for one payload under `key`.
    fn deliver(&self, key: &Key, phase: Phase, plaintext: Vec<u8>) -> (r: Events)
        ensures
            seal_views(r@) == seq![sealed(self.side.0@, key.0@, payload(phase, plaintext))],
    {
        let side = MySide(self.side.0.clone());
        let k = key.copy();
        let r: Events = vec![Event::Crypto(CryptoEvent::SealAndAdd(side, k, phase, plaintext))];
        assert(seal_views(r@) =~= seq![sealed(self.side.0@, key.0@, payload(phase, plaintext))]);
        r
    }

    fn do_s0(&mut self, event: SendEvent) -> (r: Events)
        requires
            old(self).wf(),
            old(self).state is S0NoKey,
        ensures
            final(self).wf(),
            final(self).side == old(self).side,
            ({
                let s = step(old(self).side.0@, old(self).key_view(), old(self).queued(), event);
                &&& final(self).key_view() == s.0
                &&& final(self).queued() == s.1
                &&& seal_views(r@) == s.2
            }),
    {
        match event {
            SendEvent::GotVerifiedKey(key) => {
                let es = self.drain(&key);
                self.state = State::S1HaveVerifiedKey(key);
                assert(self.queued() =~= Seq::<Payload>::empty());
                es
            },
            SendEvent::Send(phase, plaintext) => {
                self.queue.push((phase, plaintext));
                assert(self.queued() =~= old(self).queued().push(payload(phase, plaintext)));
                let r: Events = Vec::new();
                assert(seal_views(r@) =~= Seq::<Option<Sealing>>::empty());
                r
            },
        }
    }

    fn do_s1(&self, event: SendEvent) -> (r: Events)
        requires
            self.wf(),
            self.state is S1HaveVerifiedKey,
            event is Send,
        ensures
            ({
                let s = step(self.side.0@, self.key_view(), self.queued(), event);
                &&& self.key_view() == s.0
                &&& self.queued() == s.1
                &&& seal_views(r@) == s.2
            }),
    {
        match event {
            SendEvent::Send(phase, plaintext) => match &self.state {
                State::S1HaveVerifiedKey(key) => self.deliver(key, phase, plaintext),
                State::S0NoKey => Vec::new(),
            },
            SendEvent::GotVerifiedKey(_) => Vec::new(),
        }
    }
}

} // verus!
