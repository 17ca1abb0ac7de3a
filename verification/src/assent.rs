//! The authoritative runner: applies network-confirmed input to canonical
//! state, never guessing. Each update call drains the confirmed-tick buffer
//! in order, up to a configurable per-call cap that bounds worst-case
//! catch-up work after a stall.

use vstd::prelude::*;
use crate::steps::{Deserialize, ParticipantStep, ParticipantSteps, Steps};

verus! {

broadcast use vstd::seq_lib::group_seq_properties;

/// One host-visible event of an authoritative drain, in the order the runner
/// produces them.
pub enum AssentEvent<T> {
    /// The hook that runs once before the first tick of a drain batch.
    PreTicks,
    /// One confirmed tick applied to canonical state, with its input batch.
    Tick(Seq<ParticipantStep<T>>),
}

/// The host's view of the canonical simulation. The runner reports every call
/// it makes through the abstract event log, so a caller knows exactly which
/// ticks reached the host and in what order.
pub trait AssentCallback<StepT> {
    /// The events this callback has observed so far, oldest first. An
    /// implementation that wants to reason about the runner overrides this
    /// with its own event log; one that does not may leave the default.
    open spec fn log(&self) -> Seq<AssentEvent<StepT>> {
        Seq::empty()
    }

    /// Runs once before the first tick of each non-empty drain batch.
    fn on_pre_ticks(&mut self)
        ensures
            final(self).log() == old(self).log().push(AssentEvent::PreTicks),
    ;

    /// Applies one confirmed tick to canonical state.
    fn on_tick(&mut self, steps: &ParticipantSteps<StepT>)
        ensures
            final(self).log() == old(self).log().push(AssentEvent::Tick(steps@)),
    ;
}

/// Whether an update call left its buffer empty.
#[derive(Debug, PartialEq, Eq, Structural)]
pub enum UpdateState {
    ConsumedAllKnowledge,
    DidNotConsumeAllKnowledge,
}

/// How many ticks one update call drains from a buffer of the given content:
/// the whole buffer, unless the per-call cap is smaller.
pub open spec fn drained_count<T>(buffer: Seq<Seq<ParticipantStep<T>>>, cap: nat) -> nat {
    if buffer.len() <= cap {
        buffer.len()
    } else {
        cap
    }
}

/// One tick event per batch entry, in buffer order.
pub open spec fn tick_events<T>(ticks: Seq<Seq<ParticipantStep<T>>>) -> Seq<AssentEvent<T>>
    decreases ticks.len(),
{
    if ticks.len() == 0 {
        Seq::empty()
    } else {
        tick_events(ticks.drop_last()).push(AssentEvent::Tick(ticks.last()))
    }
}

/// The callback events produced by draining the given ticks: nothing for an
/// empty batch, else the pre-ticks hook once and then one tick event per
/// batch entry, in buffer order.
pub open spec fn drain_events<T>(ticks: Seq<Seq<ParticipantStep<T>>>) -> Seq<AssentEvent<T>> {
    if ticks.len() == 0 {
        Seq::empty()
    } else {
        seq![AssentEvent::PreTicks] + tick_events(ticks)
    }
}

/// One call a host can make on an authoritative runner.
pub enum AssentCall<T> {
    /// Enqueue one confirmed tick.
    Push(Seq<ParticipantStep<T>>),
    /// Drain buffered ticks up to the per-call cap.
    Update,
}

/// The buffer left and the events produced by one call on an authoritative
/// runner. The Push case states exactly what push's contract ensures, the
/// Update case exactly what update's contract ensures.
pub open spec fn run_call<T>(
    buffer: Seq<Seq<ParticipantStep<T>>>,
    cap: nat,
    call: AssentCall<T>,
) -> (Seq<Seq<ParticipantStep<T>>>, Seq<AssentEvent<T>>) {
    match call {
        AssentCall::Push(steps) => (buffer.push(steps), Seq::empty()),
        AssentCall::Update => (
            buffer.skip(drained_count(buffer, cap) as int),
            drain_events(buffer.take(drained_count(buffer, cap) as int)),
        ),
    }
}

/// The buffer left and the whole event history produced by a sequence of
/// calls on an authoritative runner, applied oldest first.
pub open spec fn run_calls<T>(
    buffer: Seq<Seq<ParticipantStep<T>>>,
    cap: nat,
    calls: Seq<AssentCall<T>>,
) -> (Seq<Seq<ParticipantStep<T>>>, Seq<AssentEvent<T>>)
    decreases calls.len(),
{
    if calls.len() == 0 {
        (buffer, Seq::empty())
    } else {
        let head = run_call(buffer, cap, calls[0]);
        let rest = run_calls(head.0, cap, calls.skip(1));
        (rest.0, head.1 + rest.1)
    }
}

/// Determinism: two independent authoritative runners that start with equal
/// buffers and equal caps and are fed the identical sequence of push and
/// update calls end with equal buffers and produce identical sequences of
/// callback events, and so identical sequences of tick arguments.
pub proof fn lemma_authoritative_determinism<T>(
    buffer1: Seq<Seq<ParticipantStep<T>>>,
    cap1: nat,
    calls1: Seq<AssentCall<T>>,
    buffer2: Seq<Seq<ParticipantStep<T>>>,
    cap2: nat,
    calls2: Seq<AssentCall<T>>,
)
    requires
        buffer1 == buffer2,
        cap1 == cap2,
        calls1 == calls2,
    ensures
        run_calls(buffer1, cap1, calls1).0 == run_calls(buffer2, cap2, calls2).0,
        run_calls(buffer1, cap1, calls1).1 == run_calls(buffer2, cap2, calls2).1,
{
}

/// The tick batches delivered by the given events, in delivery order, with
/// the hook events left out.
pub open spec fn ticks_of<T>(events: Seq<AssentEvent<T>>) -> Seq<Seq<ParticipantStep<T>>>
    decreases events.len(),
{
    if events.len() == 0 {
        Seq::empty()
    } else {
        match events.last() {
            AssentEvent::Tick(t) => ticks_of(events.drop_last()).push(t),
            AssentEvent::PreTicks => ticks_of(events.drop_last()),
        }
    }
}

/// The tick batches pushed by the given calls, in call order.
pub open spec fn pushed_of<T>(calls: Seq<AssentCall<T>>) -> Seq<Seq<ParticipantStep<T>>>
    decreases calls.len(),
{
    if calls.len() == 0 {
        Seq::empty()
    } else {
        match calls[0] {
            AssentCall::Push(t) => seq![t] + pushed_of(calls.skip(1)),
            AssentCall::Update => pushed_of(calls.skip(1)),
        }
    }
}

proof fn lemma_ticks_of_add<T>(x: Seq<AssentEvent<T>>, y: Seq<AssentEvent<T>>)
    ensures
        ticks_of(x + y) == ticks_of(x) + ticks_of(y),
    decreases y.len(),
{
    if y.len() == 0 {
        assert(x + y =~= x);
        assert(ticks_of(x) + ticks_of(y) =~= ticks_of(x));
    } else {
        lemma_ticks_of_add(x, y.drop_last());
        assert((x + y).drop_last() =~= x + y.drop_last());
        assert((x + y).last() == y.last());
        match y.last() {
            AssentEvent::Tick(t) => {
                assert(ticks_of(x) + ticks_of(y.drop_last()).push(t)
                    =~= (ticks_of(x) + ticks_of(y.drop_last())).push(t));
            },
            AssentEvent::PreTicks => {},
        }
    }
}

proof fn lemma_ticks_of_tick_events<T>(ticks: Seq<Seq<ParticipantStep<T>>>)
    ensures
        ticks_of(tick_events(ticks)) == ticks,
    decreases ticks.len(),
{
    if ticks.len() == 0 {
        assert(ticks_of(tick_events(ticks)) =~= ticks);
    } else {
        lemma_ticks_of_tick_events(ticks.drop_last());
        let x = tick_events(ticks.drop_last());
        let e = AssentEvent::Tick(ticks.last());
        assert(x.push(e).drop_last() =~= x);
        assert(x.push(e).last() == e);
        assert(ticks_of(tick_events(ticks)) == ticks.drop_last().push(ticks.last()));
        assert(ticks.drop_last().push(ticks.last()) =~= ticks);
    }
}

proof fn lemma_ticks_of_drain_events<T>(ticks: Seq<Seq<ParticipantStep<T>>>)
    ensures
        ticks_of(drain_events(ticks)) == ticks,
{
    lemma_ticks_of_tick_events(ticks);
    if ticks.len() == 0 {
        assert(ticks_of(drain_events(ticks)) =~= ticks);
    } else {
        lemma_ticks_of_add(seq![AssentEvent::<T>::PreTicks], tick_events(ticks));
        assert(seq![AssentEvent::<T>::PreTicks].drop_last() =~= Seq::<AssentEvent<T>>::empty());
        assert(seq![AssentEvent::<T>::PreTicks].last() == AssentEvent::<T>::PreTicks);
        assert(ticks_of(Seq::<AssentEvent<T>>::empty())
            =~= Seq::<Seq<ParticipantStep<T>>>::empty());
        assert(ticks_of(seq![AssentEvent::<T>::PreTicks])
            =~= Seq::<Seq<ParticipantStep<T>>>::empty());
        assert(ticks_of(drain_events(ticks)) =~= ticks);
    }
}

/// Tick conservation: over any sequence of push and update calls, the tick
/// batches delivered to the callback followed by the batches still buffered
/// are exactly the batches buffered at the start followed by the batches
/// pushed, in order. No confirmed tick is lost, duplicated, reordered, or
/// synthesized.
pub proof fn lemma_ticks_conserved<T>(
    buffer: Seq<Seq<ParticipantStep<T>>>,
    cap: nat,
    calls: Seq<AssentCall<T>>,
)
    ensures
        ticks_of(run_calls(buffer, cap, calls).1) + run_calls(buffer, cap, calls).0 == buffer
            + pushed_of(calls),
    decreases calls.len(),
{
    if calls.len() == 0 {
        assert(ticks_of(run_calls(buffer, cap, calls).1) + run_calls(buffer, cap, calls).0
            =~= buffer + pushed_of(calls));
    } else {
        let head = run_call(buffer, cap, calls[0]);
        let rest = run_calls(head.0, cap, calls.skip(1));
        lemma_ticks_conserved(head.0, cap, calls.skip(1));
        lemma_ticks_of_add(head.1, rest.1);
        match calls[0] {
            AssentCall::Push(t) => {
                assert(ticks_of(head.1) =~= Seq::<Seq<ParticipantStep<T>>>::empty());
                assert(ticks_of(run_calls(buffer, cap, calls).1) + run_calls(buffer, cap, calls).0
                    =~= ticks_of(rest.1) + rest.0);
                assert(buffer.push(t) + pushed_of(calls.skip(1)) =~= buffer + pushed_of(calls));
            },
            AssentCall::Update => {
                let n = drained_count(buffer, cap) as int;
                lemma_ticks_of_drain_events(buffer.take(n));
                assert(buffer.take(n) + (ticks_of(rest.1) + rest.0)
                    =~= (buffer.take(n) + ticks_of(rest.1)) + rest.0);
                assert(buffer.take(n) + (buffer.skip(n) + pushed_of(calls.skip(1)))
                    =~= buffer + pushed_of(calls));
                assert(ticks_of(run_calls(buffer, cap, calls).1) + run_calls(buffer, cap, calls).0
                    =~= buffer + pushed_of(calls));
            },
        }
    }
}

/// The default per-call drain cap: bounds how many confirmed ticks a single
/// update call applies, so a long backlog is spread over several frames.
pub const DEFAULT_MAX_TICKS_PER_UPDATE: usize = 30;

/// The authoritative step runner. It owns the buffer of confirmed,
/// not-yet-applied ticks and drains it in strict tick order.
pub struct Assent<StepT: Deserialize> {
    steps: Steps<StepT>,
    max_ticks_per_update: usize,
}

impl<StepT: Deserialize> Default for Assent<StepT> {
    fn default() -> (r: Self)
        ensures
            r.buffer() == Seq::<Seq<ParticipantStep<StepT>>>::empty(),
            r.cap() == DEFAULT_MAX_TICKS_PER_UPDATE as nat,
    {
        Assent::new()
    }
}

impl<StepT: Deserialize> Assent<StepT> {
    /// The queue of confirmed, not yet applied ticks, oldest first.
    pub closed spec fn buffer(&self) -> Seq<Seq<ParticipantStep<StepT>>> {
        self.steps@
    }

    /// The most ticks a single update call will drain.
    pub closed spec fn cap(&self) -> nat {
        self.max_ticks_per_update as nat
    }

    pub fn new() -> (r: Self)
        ensures
            r.buffer() == Seq::<Seq<ParticipantStep<StepT>>>::empty(),
            r.cap() == DEFAULT_MAX_TICKS_PER_UPDATE as nat,
    {
        Assent { steps: Steps::new(), max_ticks_per_update: DEFAULT_MAX_TICKS_PER_UPDATE }
    }

    /// Configures how many confirmed ticks one update call may drain.
    pub fn set_max_ticks_per_update(&mut self, max_ticks: usize)
        ensures
            final(self).buffer() == old(self).buffer(),
            final(self).cap() == max_ticks as nat,
    {
        self.max_ticks_per_update = max_ticks;
    }

    /// Enqueues one confirmed tick behind all earlier ones.
    pub fn push(&mut self, steps: ParticipantSteps<StepT>)
        ensures
            final(self).buffer() == old(self).buffer().push(steps@),
            final(self).cap() == old(self).cap(),
    {
        self.steps.push(steps);
    }

    /// Drains buffered confirmed ticks in order, up to the per-call cap,
    /// handing each to the callback, and reports whether the buffer is empty
    /// afterwards.
    pub fn update<C: AssentCallback<StepT>>(&mut self, callback: &mut C) -> (r: UpdateState)
        ensures
            final(self).cap() == old(self).cap(),
            final(self).buffer() == old(self).buffer().skip(
                drained_count(old(self).buffer(), old(self).cap()) as int,
            ),
            final(callback).log() == old(callback).log() + drain_events(
                old(self).buffer().take(drained_count(old(self).buffer(), old(self).cap()) as int),
            ),
            r == UpdateState::ConsumedAllKnowledge <==> final(self).buffer().len() == 0,
    {
        let ghost n = drained_count(old(self).buffer(), old(self).cap()) as int;
        let total = self.steps.len();
        let target: usize = if total <= self.max_ticks_per_update {
            total
        } else {
            self.max_ticks_per_update
        };
        proof {
            assert(target as int == n);
        }
        if target > 0 {
            callback.on_pre_ticks();
            proof {
                assert(callback.log() =~= old(callback).log().push(AssentEvent::PreTicks)
                    + tick_events(old(self).buffer().take(0)));
            }
            let mut drained: usize = 0;
            while drained < target
                invariant
                    self.cap() == old(self).cap(),
                    0 < target as int == n <= old(self).buffer().len(),
                    drained <= target,
                    self.buffer() == old(self).buffer().skip(drained as int),
                    callback.log() == old(callback).log().push(AssentEvent::PreTicks)
                        + tick_events(old(self).buffer().take(drained as int)),
                decreases target as int - drained as int,
            {
                let tick = self.steps.pop();
                match tick {
                    Some(batch) => {
                        callback.on_tick(&batch);
                        proof {
                            assert(batch@ == old(self).buffer().skip(drained as int)[0]);
                            assert(batch@ == old(self).buffer()[drained as int]);
                            assert(old(self).buffer().skip(drained as int).skip(1)
                                =~= old(self).buffer().skip(drained as int + 1));
                            assert(old(self).buffer().take(drained as int + 1).drop_last()
                                =~= old(self).buffer().take(drained as int));
                            assert(old(self).buffer().take(drained as int + 1).last()
                                == old(self).buffer()[drained as int]);
                            assert(tick_events(old(self).buffer().take(drained as int + 1))
                                == tick_events(old(self).buffer().take(drained as int)).push(
                                    AssentEvent::Tick(batch@),
                                ));
                            assert(callback.log() =~= old(callback).log().push(
                                AssentEvent::PreTicks,
                            ) + tick_events(old(self).buffer().take(drained as int + 1)));
                        }
                        drained = drained + 1;
                    },
                    None => {
                        proof {
                            assert(false);
                        }
                    },
                }
            }
            proof {
                assert(old(self).buffer().take(n).len() == n);
                assert(drain_events(old(self).buffer().take(n)) == seq![
                    AssentEvent::<StepT>::PreTicks,
                ] + tick_events(old(self).buffer().take(n)));
                assert(callback.log() =~= old(callback).log() + drain_events(
                    old(self).buffer().take(n),
                ));
            }
        } else {
            proof {
                assert(n == 0);
                assert(self.buffer() =~= old(self).buffer().skip(0));
                assert(old(self).buffer().take(0).len() == 0);
                assert(callback.log() =~= old(callback).log() + drain_events(
                    old(self).buffer().take(0),
                ));
            }
        }
        if self.steps.is_empty() {
            UpdateState::ConsumedAllKnowledge
        } else {
            UpdateState::DidNotConsumeAllKnowledge
        }
    }
}

} // verus!
