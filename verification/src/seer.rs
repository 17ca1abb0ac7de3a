//! The predictive runner: keeps the visible simulation advancing ahead of
//! confirmation by applying best-guess input. Speculative ticks may always be
//! discarded or corrected later, since the reconciler's rebase overwrites
//! predicted state with canonical state.

use vstd::prelude::*;
use crate::steps::{Deserialize, ParticipantStep, ParticipantSteps, Steps};

verus! {

broadcast use vstd::seq_lib::group_seq_properties;

/// One host-visible event of a predictive update, in the order the runner
/// produces them.
pub enum SeerEvent<T> {
    /// Predicted state was resynchronized from canonical state.
    CopyFromAuthoritative,
    /// One speculative tick applied to predicted state, with its input batch.
    Tick(Seq<ParticipantStep<T>>),
    /// The hook that runs once after the ticks of a non-empty update.
    PostTicks,
}

/// The host's view of the predicted simulation. The runner reports every call
/// it makes through the abstract event log, so a caller knows exactly which
/// speculative ticks reached the host and in what order.
pub trait SeerCallback<StepT> {
    /// The events this callback has observed so far, oldest first. An
    /// implementation that wants to reason about the runner overrides this
    /// with its own event log; one that does not may leave the default.
    open spec fn log(&self) -> Seq<SeerEvent<StepT>> {
        Seq::empty()
    }

    /// Resynchronizes predicted state from canonical state.
    fn on_copy_from_authoritative(&mut self)
        ensures
            final(self).log() == old(self).log().push(SeerEvent::CopyFromAuthoritative),
    ;

    /// Applies one speculative tick to predicted state.
    fn on_tick(&mut self, steps: &ParticipantSteps<StepT>)
        ensures
            final(self).log() == old(self).log().push(SeerEvent::Tick(steps@)),
    ;

    /// Runs once after the ticks of each non-empty update.
    fn on_post_ticks(&mut self)
        ensures
            final(self).log() == old(self).log().push(SeerEvent::PostTicks),
    ;
}

/// How many buffered speculative ticks one predictive update advances.
#[derive(Clone, Copy, Debug, PartialEq, Eq, Structural)]
pub enum DrainPolicy {
    /// Advance at most one tick per update, locking prediction to the frame
    /// rate. The safer default.
    OnePerUpdate,
    /// Advance every currently buffered tick in one update.
    AllBuffered,
}

/// How many ticks one predictive update drains from a buffer of the given
/// content under the given policy.
pub open spec fn predicted_count<T>(buffer: Seq<Seq<ParticipantStep<T>>>, policy: DrainPolicy) -> nat {
    match policy {
        DrainPolicy::OnePerUpdate => if buffer.len() == 0 {
            0
        } else {
            1
        },
        DrainPolicy::AllBuffered => buffer.len(),
    }
}

/// One tick event per batch entry, in buffer order.
pub open spec fn predicted_tick_events<T>(ticks: Seq<Seq<ParticipantStep<T>>>) -> Seq<SeerEvent<T>>
    decreases ticks.len(),
{
    if ticks.len() == 0 {
        Seq::empty()
    } else {
        predicted_tick_events(ticks.drop_last()).push(SeerEvent::Tick(ticks.last()))
    }
}

/// The callback events produced by advancing the given speculative ticks:
/// nothing for an empty batch, else one tick event per entry, in buffer
/// order, and then the post-ticks hook once.
pub open spec fn predicted_events<T>(ticks: Seq<Seq<ParticipantStep<T>>>) -> Seq<SeerEvent<T>> {
    if ticks.len() == 0 {
        Seq::empty()
    } else {
        predicted_tick_events(ticks).push(SeerEvent::PostTicks)
    }
}

/// The predictive step runner. It owns the buffer of speculative,
/// not-yet-applied ticks and a flag that records a pending rebase.
pub struct Seer<StepT: Deserialize> {
    steps: Steps<StepT>,
    authoritative_has_changed: bool,
    drain_policy: DrainPolicy,
}

impl<StepT: Deserialize> Default for Seer<StepT> {
    fn default() -> (r: Self)
        ensures
            r.buffer() == Seq::<Seq<ParticipantStep<StepT>>>::empty(),
            !r.authoritative_changed(),
            r.policy() == DrainPolicy::OnePerUpdate,
    {
        Seer::new()
    }
}

impl<StepT: Deserialize> Seer<StepT> {
    /// The queue of speculative, not yet applied ticks, oldest first.
    pub closed spec fn buffer(&self) -> Seq<Seq<ParticipantStep<StepT>>> {
        self.steps@
    }

    /// Whether the authoritative track has advanced since the last predictive
    /// update, so a rebase is pending.
    pub closed spec fn authoritative_changed(&self) -> bool {
        self.authoritative_has_changed
    }

    /// How many buffered ticks one update call advances.
    pub closed spec fn policy(&self) -> DrainPolicy {
        self.drain_policy
    }

    pub fn new() -> (r: Self)
        ensures
            r.buffer() == Seq::<Seq<ParticipantStep<StepT>>>::empty(),
            !r.authoritative_changed(),
            r.policy() == DrainPolicy::OnePerUpdate,
    {
        Seer {
            steps: Steps::new(),
            authoritative_has_changed: false,
            drain_policy: DrainPolicy::OnePerUpdate,
        }
    }

    /// Configures how many buffered speculative ticks one update advances.
    pub fn set_drain_policy(&mut self, policy: DrainPolicy)
        ensures
            final(self).buffer() == old(self).buffer(),
            final(self).authoritative_changed() == old(self).authoritative_changed(),
            final(self).policy() == policy,
    {
        self.drain_policy = policy;
    }

    /// Whether a rebase is pending: true from the explicit signal until the
    /// next update call clears it.
    pub fn has_authoritative_changed(&self) -> (r: bool)
        ensures
            r == self.authoritative_changed(),
    {
        self.authoritative_has_changed
    }

    /// Signals that the authoritative track has advanced, so the next
    /// predictive update follows a rebase. This is the only way the flag
    /// becomes true.
    pub fn authoritative_has_changed(&mut self)
        ensures
            final(self).buffer() == old(self).buffer(),
            final(self).authoritative_changed(),
            final(self).policy() == old(self).policy(),
    {
        self.authoritative_has_changed = true;
    }

    /// Enqueues one locally generated speculative tick behind all earlier
    /// ones.
    pub fn push(&mut self, steps: ParticipantSteps<StepT>)
        ensures
            final(self).buffer() == old(self).buffer().push(steps@),
            final(self).authoritative_changed() == old(self).authoritative_changed(),
            final(self).policy() == old(self).policy(),
    {
        self.steps.push(steps);
    }

    /// Advances pending speculative ticks under the configured policy,
    /// handing each to the callback and running the post-ticks hook once
    /// after a non-empty batch, then clears the pending-rebase flag. With
    /// nothing pending this is a no-op, not an error; the flag is cleared all
    /// the same.
    pub fn update<C: SeerCallback<StepT>>(&mut self, callback: &mut C)
        ensures
            final(self).policy() == old(self).policy(),
            !final(self).authoritative_changed(),
            final(self).buffer() == old(self).buffer().skip(
                predicted_count(old(self).buffer(), old(self).policy()) as int,
            ),
            final(callback).log() == old(callback).log() + predicted_events(
                old(self).buffer().take(predicted_count(old(self).buffer(), old(self).policy()) as int),
            ),
    {
        let ghost n = predicted_count(old(self).buffer(), old(self).policy()) as int;
        let total = self.steps.len();
        let target: usize = match self.drain_policy {
            DrainPolicy::OnePerUpdate => if total == 0 {
                0
            } else {
                1
            },
            DrainPolicy::AllBuffered => total,
        };
        proof {
            assert(target as int == n);
        }
        if target > 0 {
            let mut advanced: usize = 0;
            proof {
                assert(callback.log() =~= old(callback).log()
                    + predicted_tick_events(old(self).buffer().take(0)));
            }
            while advanced < target
                invariant
                    self.policy() == old(self).policy(),
                    self.authoritative_changed() == old(self).authoritative_changed(),
                    0 < target as int == n <= old(self).buffer().len(),
                    advanced <= target,
                    self.buffer() == old(self).buffer().skip(advanced as int),
                    callback.log() == old(callback).log()
                        + predicted_tick_events(old(self).buffer().take(advanced as int)),
                decreases target as int - advanced as int,
            {
                let tick = self.steps.pop();
                match tick {
                    Some(batch) => {
                        callback.on_tick(&batch);
                        proof {
                            assert(batch@ == old(self).buffer().skip(advanced as int)[0]);
                            assert(batch@ == old(self).buffer()[advanced as int]);
                            assert(old(self).buffer().skip(advanced as int).skip(1)
                                =~= old(self).buffer().skip(advanced as int + 1));
                            assert(old(self).buffer().take(advanced as int + 1).drop_last()
                                =~= old(self).buffer().take(advanced as int));
                            assert(old(self).buffer().take(advanced as int + 1).last()
                                == old(self).buffer()[advanced as int]);
                            assert(callback.log() =~= old(callback).log()
                                + predicted_tick_events(old(self).buffer().take(advanced as int + 1)));
                        }
                        advanced = advanced + 1;
                    },
                    None => {
                        proof {
                            assert(false);
                        }
                    },
                }
            }
            callback.on_post_ticks();
            proof {
                assert(old(self).buffer().take(n).len() == n);
                assert(callback.log() =~= old(callback).log() + predicted_events(
                    old(self).buffer().take(n),
                ));
            }
        } else {
            proof {
                assert(n == 0);
                assert(self.buffer() =~= old(self).buffer().skip(0));
                assert(old(self).buffer().take(0).len() == 0);
                assert(callback.log() =~= old(callback).log() + predicted_events(
                    old(self).buffer().take(0),
                ));
            }
        }
        self.authoritative_has_changed = false;
    }
}

} // verus!
