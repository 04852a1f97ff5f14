//! Sequence-lock arithmetic shared by the double-buffered context window and
//! the event ring.
//!
//! A sequence word is even while no write is in progress and odd while a
//! writer is filling a buffer. Every write moves the sequence to the next
//! generation (`seq / 2` grows by one, modulo 2^63). For the double-buffered
//! context window, the generation's low bit names the buffer being written,
//! and readers read the buffer named by the last completed generation.

use vstd::prelude::*;

verus! {

/// The generation that a sequence word stands for.
pub open spec fn generation(seq: u64) -> int {
    seq as int / 2
}

/// Whether the sequence word marks a write in progress.
pub open spec fn writing(seq: u64) -> bool {
    seq % 2 == 1
}

/// The sequence word a writer publishes when it starts the next write:
/// the next generation (modulo 2^63) with the writing bit set.
pub open spec fn begin_seq(seq: u64) -> int {
    ((seq as int / 2 + 1) % 0x8000_0000_0000_0000) * 2 + 1
}

/// Starts a write: moves to the next generation and sets the writing bit.
pub fn begin_write(seq: u64) -> (r: u64)
    ensures
        r == begin_seq(seq),
        writing(r),
{
    assert(seq >> 1 == seq / 2) by (bit_vector);
    let half: u64 = (seq >> 1) + 1;
    let r = half << 1 | 1;
    assert(half == seq / 2 + 1 ==> half << 1 | 1u64 == ((seq / 2 + 1) % 0x8000_0000_0000_0000) * 2 + 1)
        by (bit_vector);
    r
}

/// Ends a write: clears the writing bit and keeps the generation.
pub fn end_write(seq: u64) -> (r: u64)
    ensures
        r == seq - seq % 2,
        !writing(r),
        generation(r) == generation(seq),
{
    assert(seq & !1u64 == seq - seq % 2) by (bit_vector);
    seq & !1u64
}

/// Whether a write is in progress.
pub fn is_writing(seq: u64) -> (r: bool)
    ensures
        r == writing(seq),
{
    assert((seq & 1u64 != 0) == (seq % 2 == 1)) by (bit_vector);
    seq & 1 != 0
}

/// Which of the two buffers the generation of `seq` names (0 or 1).
pub open spec fn buffer_of(seq: u64) -> int {
    generation(seq) % 2
}

/// The buffer a writer fills after publishing `next` from `begin_write`.
pub fn write_target(next: u64) -> (r: usize)
    ensures
        r == buffer_of(next),
        r < 2,
{
    assert((next >> 1) & 1u64 == (next / 2) % 2) by (bit_vector);
    ((next >> 1) & 1) as usize
}

/// The buffer a reader reads when it observes the stable word `seq`.
pub fn active_buffer(seq: u64) -> (r: usize)
    ensures
        r == buffer_of(seq),
        r < 2,
{
    assert((seq >> 1) & 1u64 == (seq / 2) % 2) by (bit_vector);
    ((seq >> 1) & 1) as usize
}

/// A complete write (begin, fill, end) started from a stable word makes the
/// buffer it filled the one readers see, never fills the buffer that readers
/// saw before it started, and advances the generation by one (modulo 2^63).
pub proof fn lemma_write_cycle(seq: u64)
    requires
        !writing(seq),
    ensures
        ({
            let next = begin_seq(seq) as u64;
            let done = (next - next % 2) as u64;
            &&& buffer_of(done) == buffer_of(next)
            &&& buffer_of(next) != buffer_of(seq)
            &&& !writing(done)
            &&& generation(done) == (generation(seq) + 1) % 0x8000_0000_0000_0000
            &&& seq < u64::MAX - 1 ==> done == seq + 2
        }),
{
    let next = begin_seq(seq) as u64;
    assert(seq % 2 == 0 ==> (((seq / 2 + 1) % 0x8000_0000_0000_0000) * 2 + 1) / 2 % 2 != (seq / 2) % 2)
        by (bit_vector);
}

} // verus!
