//! The per-tick input data model: what one participant does in one tick, one
//! tick's worth of input across all participants, and the FIFO buffer of
//! not-yet-applied ticks that each runner owns.

use vstd::prelude::*;

verus! {

/// One participant's action for a single tick.
pub enum Step<T> {
    /// A decoded domain action supplied by the participant.
    Custom(T),
    /// A server-injected default action, used when the participant's real
    /// input did not arrive in time, so the lockstep cadence does not stall.
    Forced,
    /// The participant is temporarily absent; the step is treated as a no-op.
    WaitingForReconnect,
}

/// The decode hook supplied by the host: a total function from one
/// participant's raw step payload to a domain step value.
pub trait Deserialize: Sized {
    fn deserialize(bytes: &[u8]) -> Self;
}

/// One participant's identifier paired with that participant's step.
pub struct ParticipantStep<T> {
    pub participant_id: u64,
    pub step: Step<T>,
}

impl<T> ParticipantStep<T> {
    pub fn new(participant_id: u64, step: Step<T>) -> (r: Self)
        ensures
            r.participant_id == participant_id,
            r.step == step,
    {
        ParticipantStep { participant_id, step }
    }
}

/// Exactly one tick's worth of input across all participants.
///
/// Entries are kept and applied in insertion order; every peer must build the
/// collection for a given tick in the same order (typically participant-id
/// order), which is the determinism anchor of the whole design.
pub struct ParticipantSteps<T> {
    pub steps: Vec<ParticipantStep<T>>,
}

impl<T> View for ParticipantSteps<T> {
    type V = Seq<ParticipantStep<T>>;

    open spec fn view(&self) -> Seq<ParticipantStep<T>> {
        self.steps@
    }
}

impl<T> ParticipantSteps<T> {
    pub fn new() -> (r: Self)
        ensures
            r@ == Seq::<ParticipantStep<T>>::empty(),
    {
        ParticipantSteps { steps: Vec::new() }
    }

    /// Appends one participant's step for this tick.
    pub fn push(&mut self, participant_id: u64, step: Step<T>)
        ensures
            final(self)@ == old(self)@.push((ParticipantStep { participant_id, step })),
    {
        self.steps.push(ParticipantStep::new(participant_id, step));
    }

    pub fn len(&self) -> (n: usize)
        ensures
            n == self@.len(),
    {
        self.steps.len()
    }

    pub fn is_empty(&self) -> (r: bool)
        ensures
            r <==> self@.len() == 0,
    {
        self.steps.len() == 0
    }

    pub fn get(&self, index: usize) -> (r: &ParticipantStep<T>)
        requires
            index < self@.len(),
        ensures
            *r == self@[index as int],
    {
        &self.steps[index]
    }

    pub fn first(&self) -> (r: Option<&ParticipantStep<T>>)
        ensures
            match r {
                Some(p) => self@.len() > 0 && *p == self@[0],
                None => self@.len() == 0,
            },
    {
        if self.steps.len() > 0 {
            Some(&self.steps[0])
        } else {
            None
        }
    }
}

/// A FIFO queue of per-tick input batches, one element per not-yet-applied
/// tick, owned exclusively by one runner. Batches are pushed at the back and
/// popped strictly in tick order from the front; the queue never reorders or
/// deduplicates.
pub struct Steps<T> {
    entries: Vec<ParticipantSteps<T>>,
}

impl<T> View for Steps<T> {
    type V = Seq<Seq<ParticipantStep<T>>>;

    closed spec fn view(&self) -> Seq<Seq<ParticipantStep<T>>> {
        self.entries@.map_values(|e: ParticipantSteps<T>| e@)
    }
}

impl<T> Steps<T> {
    pub fn new() -> (r: Self)
        ensures
            r@ == Seq::<Seq<ParticipantStep<T>>>::empty(),
    {
        let r = Steps { entries: Vec::new() };
        proof {
            assert(r@ =~= Seq::<Seq<ParticipantStep<T>>>::empty());
        }
        r
    }

    /// Enqueues one tick's input batch at the back.
    pub fn push(&mut self, steps: ParticipantSteps<T>)
        ensures
            final(self)@ == old(self)@.push(steps@),
    {
        let ghost pushed = steps@;
        self.entries.push(steps);
        proof {
            assert(self@ =~= old(self)@.push(pushed));
        }
    }

    /// Dequeues the oldest pending tick, if any.
    pub fn pop(&mut self) -> (r: Option<ParticipantSteps<T>>)
        ensures
            old(self)@.len() == 0 ==> r is None && final(self)@ == old(self)@,
            old(self)@.len() > 0 ==> match r {
                Some(s) => s@ == old(self)@[0] && final(self)@ == old(self)@.skip(1),
                None => false,
            },
    {
        if self.entries.len() == 0 {
            None
        } else {
            let front = self.entries.remove(0);
            proof {
                assert(self@ =~= old(self)@.skip(1));
            }
            Some(front)
        }
    }

    pub fn len(&self) -> (n: usize)
        ensures
            n == self@.len(),
    {
        self.entries.len()
    }

    pub fn is_empty(&self) -> (r: bool)
        ensures
            r <==> self@.len() == 0,
    {
        self.entries.len() == 0
    }
}

} // verus!
