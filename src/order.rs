//! The Order machine: the peer's PAKE reaches the Key machine before any
//! other peer message reaches the Receive machine.
use vstd::prelude::*;
use crate::event::{Event, Events, KeyEvent, OrderEvent, Phase, ReceiveEvent, TheirSide};

verus! {

#[derive(Debug, PartialEq, Eq)]
pub enum State {
    /// No PAKE seen yet.
    S0,
    /// PAKE delivered.
    S1,
}

/// A peer message: its sender, its phase and its body.
pub type Message = (TheirSide, Phase, Vec<u8>);

pub open spec fn is_pake(p: Phase) -> bool {
    p.0@ == seq!['p', 'a', 'k', 'e']
}

/// The event that hands a queued message on to the Receive machine.
pub open spec fn to_receive(m: Message) -> Event {
    Event::Receive(ReceiveEvent::GotMessage(m.0, m.1, m.2))
}

pub open spec fn receive_all(q: Seq<Message>) -> Seq<Event> {
    q.map_values(|m: Message| to_receive(m))
}

/// One step on message `m`, from whether the PAKE was seen and the queue:
/// the next flag, the next queue and the emitted events.
pub open spec fn step(pake_seen: bool, q: Seq<Message>, m: Message) -> (bool, Seq<Message>, Seq<Event>) {
    if pake_seen {
        (true, q, seq![to_receive(m)])
    } else if is_pake(m.1) {
        (true, Seq::empty(), seq![Event::Key(KeyEvent::GotPake(m.2))].add(receive_all(q)))
    } else {
        (false, q.push(m), Seq::empty())
    }
}

/// Everything emitted while the messages `ms` arrive one by one.
pub open spec fn run(pake_seen: bool, q: Seq<Message>, ms: Seq<Message>) -> Seq<Event>
    decreases ms.len(),
{
    if ms.len() == 0 {
        Seq::empty()
    } else {
        let s = step(pake_seen, q, ms[0]);
        s.2.add(run(s.0, s.1, ms.drop_first()))
    }
}

proof fn lemma_run_after_pake(q: Seq<Message>, ms: Seq<Message>)
    ensures
        run(true, q, ms) == receive_all(ms),
    decreases ms.len(),
{
    if ms.len() > 0 {
        lemma_run_after_pake(q, ms.drop_first());
        assert(receive_all(ms) =~= seq![to_receive(ms[0])].add(receive_all(ms.drop_first())));
    }
}

proof fn lemma_run_no_pake(q: Seq<Message>, ms: Seq<Message>)
    requires
        forall|i: int| 0 <= i < ms.len() ==> !is_pake(#[trigger] ms[i].1),
    ensures
        run(false, q, ms) == Seq::<Event>::empty(),
    decreases ms.len(),
{
    if ms.len() > 0 {
        lemma_run_no_pake(q.push(ms[0]), ms.drop_first());
    }
}

proof fn lemma_run_first_pake(q: Seq<Message>, ms: Seq<Message>, k: int)
    requires
        0 <= k < ms.len(),
        is_pake(ms[k].1),
        forall|i: int| 0 <= i < k ==> !is_pake(#[trigger] ms[i].1),
    ensures
        run(false, q, ms) == seq![Event::Key(KeyEvent::GotPake(ms[k].2))].add(
            receive_all(q.add(ms.take(k)).add(ms.skip(k + 1))),
        ),
    decreases ms.len(),
{
    if k == 0 {
        lemma_run_after_pake(Seq::empty(), ms.drop_first());
        assert(q.add(ms.take(0)).add(ms.skip(1)) =~= q.add(ms.drop_first()));
        assert(receive_all(q.add(ms.drop_first())) =~= receive_all(q).add(receive_all(ms.drop_first())));
    } else {
        lemma_run_first_pake(q.push(ms[0]), ms.drop_first(), k - 1);
        assert(q.push(ms[0]).add(ms.drop_first().take(k - 1)).add(ms.drop_first().skip(k))
            =~= q.add(ms.take(k)).add(ms.skip(k + 1)));
    }
}

/// Arrival order is kept: from a fresh machine, if the `k`-th message is the
/// first PAKE, the run emits that PAKE for Key and then every other message,
/// in the order in which it arrived, for Receive.
pub proof fn order_keeps_arrival_order(ms: Seq<Message>, k: int)
    requires
        0 <= k < ms.len(),
        is_pake(ms[k].1),
        forall|i: int| 0 <= i < k ==> !is_pake(#[trigger] ms[i].1),
    ensures
        run(false, Seq::empty(), ms) == seq![Event::Key(KeyEvent::GotPake(ms[k].2))].add(
            receive_all(ms.take(k).add(ms.skip(k + 1))),
        ),
{
    lemma_run_first_pake(Seq::empty(), ms, k);
    assert(Seq::<Message>::empty().add(ms.take(k)).add(ms.skip(k + 1)) =~= ms.take(k).add(ms.skip(k + 1)));
}

proof fn lemma_run_len(pake_seen: bool, q: Seq<Message>, ms: Seq<Message>)
    ensures
        run(pake_seen, q, ms).len() <= (if pake_seen { 0 } else { q.len() }) + ms.len(),
    decreases ms.len(),
{
    if ms.len() > 0 {
        let s = step(pake_seen, q, ms[0]);
        lemma_run_len(s.0, s.1, ms.drop_first());
    }
}

/// No re-delivery: a fresh machine emits at most one event per message that
/// arrives, whatever arrives.
pub proof fn order_emits_each_message_at_most_once(ms: Seq<Message>)
    ensures
        run(false, Seq::empty(), ms).len() <= ms.len(),
{
    lemma_run_len(false, Seq::empty(), ms);
}

/// Nothing reaches Receive before the PAKE: a fresh machine that sees no PAKE
/// emits nothing.
pub proof fn order_holds_back_without_pake(ms: Seq<Message>)
    requires
        forall|i: int| 0 <= i < ms.len() ==> !is_pake(#[trigger] ms[i].1),
    ensures
        run(false, Seq::empty(), ms) == Seq::<Event>::empty(),
{
    lemma_run_no_pake(Seq::empty(), ms);
}

pub struct OrderMachine {
    pub state: State,
    pub queue: Vec<Message>,
}

impl OrderMachine {
    /// The messages held back until the PAKE arrives, in arrival order.
    pub open spec fn queued(&self) -> Seq<Message> {
        self.queue@
    }

    /// Once the PAKE is delivered nothing stays queued.
    pub open spec fn wf(&self) -> bool {
        self.state is S1 ==> self.queued().len() == 0
    }

    pub fn new() -> (r: OrderMachine)
        ensures
            r.state is S0,
            r.queued() == Seq::<Message>::empty(),
            r.wf(),
    {
        OrderMachine { state: State::S0, queue: Vec::new() }
    }

    /// Takes one peer message. Before the PAKE, a non-PAKE message is queued
    /// and the PAKE is handed to Key followed by the queue in arrival order;
    /// after it, every message goes straight to Receive.
    pub fn process(&mut self, event: OrderEvent) -> (r: Events)
        requires
            old(self).wf(),
        ensures
            final(self).wf(),
            match event {
                OrderEvent::GotMessage(side, phase, body) => {
                    let s = step(old(self).state is S1, old(self).queued(), (side, phase, body));
                    &&& (final(self).state is S1) == s.0
                    &&& final(self).queued() == s.1
                    &&& r@ == s.2
                },
            },
    {
        match self.state {
            State::S0 => self.do_s0(event),
            State::S1 => self.do_s1(event),
        }
    }

    /// Moves the queued messages out, in order, as events for Receive.
    fn drain(&mut self) -> (r: Events)
        ensures
            r@ == receive_all(old(self).queued()),
            final(self).queued() == Seq::<Message>::empty(),
            final(self).state == old(self).state,
    {
        let mut q: Vec<Message> = Vec::new();
        std::mem::swap(&mut q, &mut self.queue);
        let ghost all = q@;
        let mut es: Events = Vec::new();
        while q.len() > 0
            invariant
                es@.add(receive_all(q@)) == receive_all(all),
            decreases q.len(),
        {
            let ghost before = q@;
            let m = q.remove(0);
            proof {
                assert(receive_all(before) == seq![to_receive(m)].add(receive_all(q@))) by {
                    assert(before == seq![m].add(q@));
                    assert(receive_all(before) =~= seq![to_receive(m)].add(receive_all(q@)));
                }
            }
            let (side, phase, body) = m;
            es.push(Event::Receive(ReceiveEvent::GotMessage(side, phase, body)));
            proof {
                assert(es@.add(receive_all(q@)) =~= receive_all(all));
            }
        }
        assert(es@ =~= receive_all(all));
        assert(self.queue@ =~= Seq::<Message>::empty());
        es
    }

    fn do_s0(&mut self, event: OrderEvent) -> (r: Events)
        requires
            old(self).wf(),
            old(self).state is S0,
        ensures
            final(self).wf(),
            match event {
                OrderEvent::GotMessage(side, phase, body) => {
                    if is_pake(phase) {
                        &&& final(self).state is S1
                        &&& final(self).queued() == Seq::<Message>::empty()
                        &&& r@ == seq![Event::Key(KeyEvent::GotPake(body))].add(
                            receive_all(old(self).queued()),
                        )
                    } else {
                        &&& final(self).state is S0
                        &&& final(self).queued() == old(self).queued().push((side, phase, body))
                        &&& r@ == Seq::<Event>::empty()
                    }
                },
            },
    {
        match event {
            OrderEvent::GotMessage(side, phase, body) => {
                let pake = "pake".to_owned();
                proof {
                    reveal_strlit("pake");
                    assert(pake@ =~= seq!['p', 'a', 'k', 'e']);
                }
                if phase.0 == pake {
                    let mut es = self.drain();
                    let mut key_events: Events = vec![Event::Key(KeyEvent::GotPake(body))];
                    key_events.append(&mut es);
                    self.state = State::S1;
                    key_events
                } else {
                    self.queue.push((side, phase, body));
                    vec![]
                }
            },
        }
    }

    fn do_s1(&mut self, event: OrderEvent) -> (r: Events)
        requires
            old(self).wf(),
            old(self).state is S1,
        ensures
            *final(self) == *old(self),
            match event {
                OrderEvent::GotMessage(side, phase, body) => r@ == seq![
                    to_receive((side, phase, body)),
                ],
            },
    {
        match event {
            OrderEvent::GotMessage(side, phase, body) => {
                vec![Event::Receive(ReceiveEvent::GotMessage(side, phase, body))]
            },
        }
    }
}

} // verus!
