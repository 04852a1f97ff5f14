//! How a reader of the shared event file, which a writer in another
//! process may be changing, gets a consistent view of it: each attempt
//! reads the header, then the slots it names, then the sequence word again,
//! and the slots count only if no write began or ended in between.

use vstd::prelude::*;
use crate::event_ring::{drain_plan, drain_slots, ExtendedEventHeader};
use crate::seqlock::{begin_seq, is_writing, writing};

verus! {

/// How many times a reader of the shared file tries before it gives up on
/// a drain.
pub const MAX_READ_ATTEMPTS: u32 = 100;

/// What a reader of the shared file does after reading the header at the
/// start of an attempt.
pub enum ReadStep {
    /// A write is in progress: try again.
    Wait,
    /// No event was written since the last drain: the drain hands back
    /// nothing.
    NothingNew,
    /// Read these slots, oldest event first, then read the header again.
    ReadSlots(Vec<usize>),
    /// Every attempt met a writer: the drain hands back nothing.
    GiveUp,
}

/// A reader's position in the shared file, and how many attempts the
/// current drain has made.
pub struct FileCursor {
    /// The event counter of the last drain that went through.
    pub last_count: u32,
    /// Attempts made by the current drain.
    pub attempts: u32,
}

impl FileCursor {
    /// A reader that has seen nothing.
    pub fn new() -> (r: Self)
        ensures
            r.last_count == 0,
            r.attempts == 0,
    {
        FileCursor { last_count: 0, attempts: 0 }
    }

    /// Starts a drain.
    pub fn begin_drain(&mut self)
        ensures
            final(self).attempts == 0,
            final(self).last_count == old(self).last_count,
    {
        self.attempts = 0;
    }

    /// Decides an attempt from the header read at its start: wait while a
    /// write is in progress, stop when nothing is new, else read the slots
    /// of the events written since the last drain. Each attempt counts; once
    /// `MAX_READ_ATTEMPTS` have been made, give up.
    pub fn look(&mut self, first: ExtendedEventHeader) -> (r: ReadStep)
        ensures
            final(self).last_count == old(self).last_count,
            old(self).attempts >= MAX_READ_ATTEMPTS ==> r is GiveUp && final(self).attempts == old(self).attempts,
            old(self).attempts < MAX_READ_ATTEMPTS ==> {
                &&& final(self).attempts == old(self).attempts + 1
                &&& writing(first.seq) ==> r is Wait
                &&& !writing(first.seq) && drain_slots(first.event_count, old(self).last_count).len() == 0
                    ==> r is NothingNew
                &&& !writing(first.seq) && drain_slots(first.event_count, old(self).last_count).len() > 0
                    ==> (r matches ReadStep::ReadSlots(p) && p@ == drain_slots(first.event_count, old(self).last_count))
            },
    {
        if self.attempts >= MAX_READ_ATTEMPTS {
            return ReadStep::GiveUp;
        }
        self.attempts = self.attempts + 1;
        if is_writing(first.seq) {
            return ReadStep::Wait;
        }
        let plan = drain_plan(first.event_count, self.last_count);
        if plan.len() == 0 {
            ReadStep::NothingNew
        } else {
            ReadStep::ReadSlots(plan)
        }
    }

    /// Checks the sequence word read again after the slots: the events read
    /// stand when it is the word read first and no write was in progress;
    /// then the reader moves past them. Otherwise the attempt is retried.
    pub fn confirm(&mut self, first: ExtendedEventHeader, second_seq: u64) -> (r: bool)
        ensures
            r == (first.seq == second_seq && !writing(first.seq)),
            final(self).last_count == if r { first.event_count } else { old(self).last_count },
            final(self).attempts == old(self).attempts,
    {
        let r = first.seq == second_seq && !is_writing(first.seq);
        if r {
            self.last_count = first.event_count;
        }
        r
    }
}

/// A write that begins between a reader's two looks at the sequence word,
/// and also one that begins and ends there, changes the word the reader
/// saw first, so the reader does not take the slots it read.
pub proof fn lemma_write_between_reads_is_seen(seq: u64)
    requires
        !writing(seq),
    ensures
        begin_seq(seq) != seq,
        begin_seq(seq) - 1 != seq,
{
}

} // verus!
