//! The reconciler: owns one authoritative runner and one predictive runner
//! and sequences them each frame. It first drains confirmed ticks into the
//! authoritative track; only when that drain consumed all confirmed knowledge
//! does it instruct the host to rebase (copy canonical state onto predicted
//! state), and only then does it advance the predicted track.

use vstd::prelude::*;
use crate::assent::{
    drain_events, drained_count, Assent, AssentCallback, AssentEvent, UpdateState,
};
use crate::seer::{predicted_count, predicted_events, DrainPolicy, Seer, SeerCallback, SeerEvent};
use crate::steps::{Deserialize, ParticipantStep, ParticipantSteps};

verus! {

/// The host-level rebase hook: snapshots authoritative entity state onto the
/// predicted entity state, resolving any accumulated misprediction.
pub trait RectifyCallback {
    /// How many times this callback has performed the rebase snapshot. An
    /// implementation that wants to reason about the reconciler overrides
    /// this with its own count; one that does not may leave the default.
    open spec fn copies(&self) -> nat {
        0
    }

    /// Copies canonical state onto predicted state.
    fn on_copy_from_authoritative(&mut self)
        ensures
            final(self).copies() == old(self).copies() + 1,
    ;
}

/// One host-visible event of a whole reconciler frame, in the order the
/// frame produces them.
pub enum FrameEvent<T> {
    /// An event of the authoritative drain.
    Authoritative(AssentEvent<T>),
    /// The rebase: canonical state copied onto predicted state.
    CopyFromAuthoritative,
    /// An event of the predictive advance.
    Predictive(SeerEvent<T>),
}

/// Whether an authoritative drain over the given buffer consumes all
/// confirmed knowledge, that is, leaves the buffer empty.
pub open spec fn consumes_all<T>(buffer: Seq<Seq<ParticipantStep<T>>>, cap: nat) -> bool {
    buffer.len() <= cap
}

/// The authoritative drain events of a frame, as frame events.
pub open spec fn authoritative_part<T>(events: Seq<AssentEvent<T>>) -> Seq<FrameEvent<T>>
    decreases events.len(),
{
    if events.len() == 0 {
        Seq::empty()
    } else {
        authoritative_part(events.drop_last()).push(FrameEvent::Authoritative(events.last()))
    }
}

/// The predictive advance events of a frame, as frame events.
pub open spec fn predictive_part<T>(events: Seq<SeerEvent<T>>) -> Seq<FrameEvent<T>>
    decreases events.len(),
{
    if events.len() == 0 {
        Seq::empty()
    } else {
        predictive_part(events.drop_last()).push(FrameEvent::Predictive(events.last()))
    }
}

/// The full, ordered trace of host-visible events of one reconciler frame
/// run over the given runner states: the authoritative drain's events, then
/// the rebase exactly when the drain consumes all confirmed knowledge, then
/// the predictive advance's events. This is the order in which update makes
/// its calls, and each callback's contract hands that callback exactly its
/// part of this trace.
pub open spec fn frame_events<T>(
    auth_buffer: Seq<Seq<ParticipantStep<T>>>,
    cap: nat,
    pred_buffer: Seq<Seq<ParticipantStep<T>>>,
    policy: DrainPolicy,
) -> Seq<FrameEvent<T>> {
    authoritative_part(drain_events(auth_buffer.take(drained_count(auth_buffer, cap) as int)))
        + (if consumes_all(auth_buffer, cap) {
            seq![FrameEvent::CopyFromAuthoritative]
        } else {
            Seq::empty()
        }) + predictive_part(
        predicted_events(pred_buffer.take(predicted_count(pred_buffer, policy) as int)),
    )
}

proof fn lemma_authoritative_part_shape<T>(events: Seq<AssentEvent<T>>)
    ensures
        authoritative_part(events).len() == events.len(),
        forall|i: int|
            0 <= i < events.len() ==> authoritative_part(events)[i] == FrameEvent::Authoritative(
                events[i],
            ),
    decreases events.len(),
{
    if events.len() > 0 {
        lemma_authoritative_part_shape(events.drop_last());
        assert(forall|i: int|
            0 <= i < events.len() - 1 ==> events.drop_last()[i] == events[i]);
    }
}

proof fn lemma_predictive_part_shape<T>(events: Seq<SeerEvent<T>>)
    ensures
        predictive_part(events).len() == events.len(),
        forall|i: int|
            0 <= i < events.len() ==> predictive_part(events)[i] == FrameEvent::Predictive(
                events[i],
            ),
    decreases events.len(),
{
    if events.len() > 0 {
        lemma_predictive_part_shape(events.drop_last());
        assert(forall|i: int|
            0 <= i < events.len() - 1 ==> events.drop_last()[i] == events[i]);
    }
}

/// Rebase sequencing: in the trace of one reconciler frame, the rebase event
/// appears exactly once when the authoritative drain consumes all confirmed
/// knowledge and never otherwise, and it comes strictly before every
/// predictive event of that frame.
pub proof fn lemma_rebase_sequencing<T>(
    auth_buffer: Seq<Seq<ParticipantStep<T>>>,
    cap: nat,
    pred_buffer: Seq<Seq<ParticipantStep<T>>>,
    policy: DrainPolicy,
)
    ensures
        ({
            let trace = frame_events(auth_buffer, cap, pred_buffer, policy);
            let drained = drain_events(
                auth_buffer.take(drained_count(auth_buffer, cap) as int),
            ).len() as int;
            &&& (consumes_all(auth_buffer, cap) ==> 0 <= drained < trace.len() && trace[drained]
                == FrameEvent::<T>::CopyFromAuthoritative)
            &&& forall|i: int|
                0 <= i < trace.len() && trace[i] == FrameEvent::<T>::CopyFromAuthoritative ==> (
                consumes_all(auth_buffer, cap) && i == drained)
            &&& forall|i: int, j: int|
                0 <= i < trace.len() && 0 <= j < trace.len() && trace[i]
                    == FrameEvent::<T>::CopyFromAuthoritative && trace[j] is Predictive ==> i < j
        }),
{
    let aevs = drain_events(auth_buffer.take(drained_count(auth_buffer, cap) as int));
    let pevs = predicted_events(pred_buffer.take(predicted_count(pred_buffer, policy) as int));
    lemma_authoritative_part_shape(aevs);
    lemma_predictive_part_shape(pevs);
}

/// The reconciler. It owns the authoritative runner and the predictive
/// runner, so that the rebase always lands between the authoritative drain
/// and the predictive advance of the same frame.
pub struct Rectify<StepT: Deserialize> {
    assent: Assent<StepT>,
    seer: Seer<StepT>,
}

impl<StepT: Deserialize> Default for Rectify<StepT> {
    fn default() -> (r: Self)
        ensures
            r.authoritative_buffer() == Seq::<Seq<ParticipantStep<StepT>>>::empty(),
            r.predictive_buffer() == Seq::<Seq<ParticipantStep<StepT>>>::empty(),
            r.cap() == crate::assent::DEFAULT_MAX_TICKS_PER_UPDATE as nat,
            r.policy() == DrainPolicy::OnePerUpdate,
    {
        Rectify::new()
    }
}

impl<StepT: Deserialize> Rectify<StepT> {
    /// The authoritative runner's queue of confirmed, not yet applied ticks.
    pub closed spec fn authoritative_buffer(&self) -> Seq<Seq<ParticipantStep<StepT>>> {
        self.assent.buffer()
    }

    /// The most confirmed ticks one frame will drain.
    pub closed spec fn cap(&self) -> nat {
        self.assent.cap()
    }

    /// The predictive runner's queue of speculative, not yet applied ticks.
    pub closed spec fn predictive_buffer(&self) -> Seq<Seq<ParticipantStep<StepT>>> {
        self.seer.buffer()
    }

    /// How many buffered speculative ticks one frame advances.
    pub closed spec fn policy(&self) -> DrainPolicy {
        self.seer.policy()
    }

    pub fn new() -> (r: Self)
        ensures
            r.authoritative_buffer() == Seq::<Seq<ParticipantStep<StepT>>>::empty(),
            r.predictive_buffer() == Seq::<Seq<ParticipantStep<StepT>>>::empty(),
            r.cap() == crate::assent::DEFAULT_MAX_TICKS_PER_UPDATE as nat,
            r.policy() == DrainPolicy::OnePerUpdate,
    {
        let assent = Assent::new();
        let seer = Seer::new();
        Rectify { assent, seer }
    }

    /// Enqueues one network-confirmed tick for the authoritative track.
    pub fn push_authoritative(&mut self, steps: ParticipantSteps<StepT>)
        ensures
            final(self).authoritative_buffer() == old(self).authoritative_buffer().push(steps@),
            final(self).predictive_buffer() == old(self).predictive_buffer(),
            final(self).cap() == old(self).cap(),
            final(self).policy() == old(self).policy(),
    {
        self.assent.push(steps);
    }

    /// Enqueues one locally generated speculative tick for the predicted
    /// track.
    pub fn push_predictive(&mut self, steps: ParticipantSteps<StepT>)
        ensures
            final(self).predictive_buffer() == old(self).predictive_buffer().push(steps@),
            final(self).authoritative_buffer() == old(self).authoritative_buffer(),
            final(self).cap() == old(self).cap(),
            final(self).policy() == old(self).policy(),
    {
        self.seer.push(steps);
    }

    /// Configures how many confirmed ticks one frame may drain.
    pub fn set_max_ticks_per_update(&mut self, max_ticks: usize)
        ensures
            final(self).cap() == max_ticks as nat,
            final(self).authoritative_buffer() == old(self).authoritative_buffer(),
            final(self).predictive_buffer() == old(self).predictive_buffer(),
            final(self).policy() == old(self).policy(),
    {
        self.assent.set_max_ticks_per_update(max_ticks);
    }

    /// Configures how many buffered speculative ticks one frame advances.
    pub fn set_drain_policy(&mut self, policy: DrainPolicy)
        ensures
            final(self).policy() == policy,
            final(self).authoritative_buffer() == old(self).authoritative_buffer(),
            final(self).predictive_buffer() == old(self).predictive_buffer(),
            final(self).cap() == old(self).cap(),
    {
        self.seer.set_drain_policy(policy);
    }

    /// Runs one frame: drains the authoritative track, performs the rebase
    /// exactly when that drain consumed all confirmed knowledge, then
    /// advances the predicted track. Each callback receives exactly its part
    /// of the frame trace over the old runner states.
    pub fn update<RC: RectifyCallback, AC: AssentCallback<StepT>, SC: SeerCallback<StepT>>(
        &mut self,
        callback: &mut RC,
        ac_callback: &mut AC,
        sc_callback: &mut SC,
    )
        ensures
            final(self).cap() == old(self).cap(),
            final(self).policy() == old(self).policy(),
            final(self).authoritative_buffer() == old(self).authoritative_buffer().skip(
                drained_count(old(self).authoritative_buffer(), old(self).cap()) as int,
            ),
            final(self).predictive_buffer() == old(self).predictive_buffer().skip(
                predicted_count(old(self).predictive_buffer(), old(self).policy()) as int,
            ),
            final(ac_callback).log() == old(ac_callback).log() + drain_events(
                old(self).authoritative_buffer().take(
                    drained_count(old(self).authoritative_buffer(), old(self).cap()) as int,
                ),
            ),
            final(callback).copies() == old(callback).copies() + (
            if consumes_all(old(self).authoritative_buffer(), old(self).cap()) {
                1int
            } else {
                0int
            }),
            final(sc_callback).log() == old(sc_callback).log() + predicted_events(
                old(self).predictive_buffer().take(
                    predicted_count(old(self).predictive_buffer(), old(self).policy()) as int,
                ),
            ),
    {
        let consumed_all_knowledge = self.assent.update(ac_callback);
        if consumed_all_knowledge == UpdateState::ConsumedAllKnowledge {
            callback.on_copy_from_authoritative();
        }
        self.seer.update(sc_callback);
    }
}

} // verus!
