//! The extended event ring: a fixed array of byte slots behind a
//! sequence-locked header, shared between one writer and many readers.
//!
//! Layout of the shared file:
//! - bytes 0..8:   `seq` (sequence word, see `seqlock`)
//! - bytes 8..12:  `write_index` (next slot to write)
//! - bytes 12..16: `event_count` (events written so far, wrapping at 2^32)
//! - bytes 16..:   `EVENT_BUFFER_SIZE` slots of `MAX_EVENT_BYTES` bytes each.
//!
//! Each event is a serialized payload, zero-padded to the slot size; a reader
//! takes the bytes of a slot up to the first zero byte.

use vstd::prelude::*;
use vstd::arithmetic::div_mod::{
    lemma_add_mod_noop, lemma_fundamental_div_mod, lemma_mod_bound, lemma_mod_mod, lemma_small_mod,
};
use crate::seqlock::{begin_seq, begin_write, end_write, is_writing, writing};

verus! {

/// Number of slots in the ring.
pub const EVENT_BUFFER_SIZE: usize = 256;

/// Size of one slot in bytes.
pub const MAX_EVENT_BYTES: usize = 512;

/// Size of the header in bytes.
pub const HEADER_SIZE: usize = 16;

/// Size of the whole shared file in bytes.
pub const TOTAL_FILE_SIZE: usize = HEADER_SIZE + EVENT_BUFFER_SIZE * MAX_EVENT_BYTES;

/// Ring buffer header, as laid out at the start of the shared file.
#[derive(Clone, Copy, Debug, PartialEq, Eq, Structural)]
pub struct ExtendedEventHeader {
    pub seq: u64,
    pub write_index: u32,
    pub event_count: u32,
}

impl ExtendedEventHeader {
    /// The slot the next event is written to.
    pub fn slot_index(&self) -> (r: usize)
        ensures
            r == self.write_index % 256,
            r < EVENT_BUFFER_SIZE,
    {
        self.write_index as usize % EVENT_BUFFER_SIZE
    }

    /// The header once one more event has been written into the current slot.
    pub fn advanced(&self) -> (r: Self)
        requires
            self.write_index < u32::MAX,
        ensures
            r.seq == self.seq,
            r.write_index == (self.write_index + 1) % 256,
            r.event_count == (self.event_count + 1) % 0x1_0000_0000,
    {
        ExtendedEventHeader {
            seq: self.seq,
            write_index: (self.write_index + 1) % (EVENT_BUFFER_SIZE as u32),
            event_count: self.event_count.wrapping_add(1),
        }
    }
}

/// Byte offset of slot `index` in the shared file.
pub fn slot_offset(index: usize) -> (r: usize)
    requires
        index < EVENT_BUFFER_SIZE,
    ensures
        r == HEADER_SIZE + index * MAX_EVENT_BYTES,
        r + MAX_EVENT_BYTES <= TOTAL_FILE_SIZE,
{
    HEADER_SIZE + index * MAX_EVENT_BYTES
}

/// Events written since a reader last saw the counter at `last`
/// (counters wrap at 2^32).
pub open spec fn pending_events(count: u32, last: u32) -> int {
    if count >= last {
        count - last
    } else {
        count - last + 0x1_0000_0000
    }
}

/// How many of the pending events can still be read: the ring keeps only
/// the most recent `EVENT_BUFFER_SIZE` of them.
pub open spec fn readable_events(count: u32, last: u32) -> int {
    if pending_events(count, last) < 256 {
        pending_events(count, last)
    } else {
        256
    }
}

/// The slot holding the oldest readable event.
pub open spec fn first_readable_slot(count: u32, last: u32) -> int {
    let n = readable_events(count, last);
    (if count >= n {
        count - n
    } else {
        count - n + 0x1_0000_0000
    }) % 256
}

/// The slots a reader visits, oldest event first.
pub open spec fn drain_slots(count: u32, last: u32) -> Seq<usize> {
    Seq::new(
        readable_events(count, last) as nat,
        |i: int| ((first_readable_slot(count, last) + i) % 256) as usize,
    )
}

/// The slots to read, oldest first, when the header's counter is `count` and
/// the reader last saw `last_count`.
pub fn drain_plan(count: u32, last_count: u32) -> (r: Vec<usize>)
    ensures
        r@ == drain_slots(count, last_count),
{
    let new_events = count.wrapping_sub(last_count) as usize;
    let to_read = if new_events < EVENT_BUFFER_SIZE {
        new_events
    } else {
        EVENT_BUFFER_SIZE
    };
    let start_idx = count.wrapping_sub(to_read as u32) as usize % EVENT_BUFFER_SIZE;
    let mut slots: Vec<usize> = Vec::new();
    let mut i: usize = 0;
    while i < to_read
        invariant
            to_read == readable_events(count, last_count),
            start_idx == first_readable_slot(count, last_count),
            i <= to_read,
            slots@ =~= drain_slots(count, last_count).take(i as int),
        decreases to_read - i,
    {
        slots.push((start_idx + i) % EVENT_BUFFER_SIZE);
        i = i + 1;
    }
    slots
}

/// Length of the payload held in a slot: the bytes before the first zero.
pub open spec fn payload_end(p: Seq<u8>) -> int
    decreases p.len(),
{
    if p.len() == 0 {
        0
    } else if p[0] == 0 {
        0
    } else {
        1 + payload_end(p.drop_first())
    }
}

/// The payload a reader takes from slot bytes `p`.
pub open spec fn payload_of(p: Seq<u8>) -> Seq<u8> {
    p.take(payload_end(p))
}

/// A payload zero-padded to the slot size.
pub open spec fn padded(p: Seq<u8>) -> Seq<u8> {
    p + Seq::new((512 - p.len()) as nat, |i: int| 0u8)
}

proof fn lemma_payload_end_bounds(p: Seq<u8>)
    ensures
        0 <= payload_end(p) <= p.len(),
        forall|k: int| 0 <= k < payload_end(p) ==> p[k] != 0,
        payload_end(p) < p.len() ==> p[payload_end(p)] == 0,
    decreases p.len(),
{
    if p.len() > 0 && p[0] != 0 {
        lemma_payload_end_bounds(p.drop_first());
        assert forall|k: int| 0 <= k < payload_end(p) implies p[k] != 0 by {
            if k > 0 {
                assert(p[k] == p.drop_first()[k - 1]);
            }
        }
    }
}

proof fn lemma_payload_end_at(p: Seq<u8>, i: int)
    requires
        0 <= i <= p.len(),
        forall|k: int| 0 <= k < i ==> p[k] != 0,
        i == p.len() || p[i] == 0,
    ensures
        payload_end(p) == i,
    decreases i,
{
    if i > 0 {
        lemma_payload_end_at(p.drop_first(), i - 1);
    }
}

proof fn lemma_payload_end_zeros(p: Seq<u8>, z: Seq<u8>)
    requires
        forall|k: int| 0 <= k < z.len() ==> z[k] == 0,
    ensures
        payload_end(p + z) == payload_end(p),
    decreases p.len(),
{
    if p.len() == 0 {
        assert(p + z =~= z);
    } else if p[0] != 0 {
        assert((p + z).drop_first() =~= p.drop_first() + z);
        lemma_payload_end_zeros(p.drop_first(), z);
    }
}

/// A payload survives padding: a reader gets back what was written, cut at
/// its first zero byte.
proof fn lemma_padded_payload(p: Seq<u8>)
    requires
        p.len() <= 512,
    ensures
        payload_of(padded(p)) == payload_of(p),
        padded(p).len() == 512,
{
    let z = Seq::new((512 - p.len()) as nat, |i: int| 0u8);
    lemma_payload_end_zeros(p, z);
    lemma_payload_end_bounds(p);
    assert(payload_of(padded(p)) =~= payload_of(p));
}

/// Number of payload bytes in `slot`: the bytes before the first zero.
pub fn payload_len(slot: &[u8]) -> (r: usize)
    ensures
        r == payload_end(slot@),
        r <= slot@.len(),
{
    let mut i: usize = 0;
    while i < slot.len() && slot[i] != 0
        invariant
            i <= slot@.len(),
            forall|k: int| 0 <= k < i ==> slot@[k] != 0,
        decreases slot@.len() - i,
    {
        i = i + 1;
    }
    proof {
        lemma_payload_end_at(slot@, i as int);
    }
    i
}


/// Index in the event log of the event held by slot `j` once `len` events
/// have been written, or -1 if the slot was never written.
pub open spec fn latest_entry(len: int, j: int) -> int {
    if len <= j {
        -1
    } else {
        len - 1 - ((len - 1 - j) % 256)
    }
}

/// Bytes of slot `j` after the events of `log` have been written in order.
pub open spec fn slot_content(log: Seq<Seq<u8>>, j: int) -> Seq<u8> {
    let k = latest_entry(log.len() as int, j);
    if k < 0 {
        padded(Seq::<u8>::empty())
    } else {
        padded(log[k])
    }
}

/// The payloads a reader gets from the events of `log`, in order; events
/// whose payload is empty are skipped.
pub open spec fn delivered(log: Seq<Seq<u8>>) -> Seq<Seq<u8>>
    decreases log.len(),
{
    if log.len() == 0 {
        Seq::empty()
    } else {
        let rest = delivered(log.drop_last());
        let p = payload_of(log.last());
        if p.len() > 0 {
            rest.push(p)
        } else {
            rest
        }
    }
}

proof fn lemma_latest_step(len: int, j: int)
    requires
        0 <= len,
        0 <= j < 256,
    ensures
        j == len % 256 ==> latest_entry(len + 1, j) == len,
        j != len % 256 ==> latest_entry(len + 1, j) == latest_entry(len, j),
{
}

proof fn lemma_latest_of(len: int, k: int)
    requires
        0 <= k < len,
        len - k <= 256,
    ensures
        latest_entry(len, k % 256) == k,
{
}

proof fn lemma_wrap_mod(x: int)
    requires
        0 <= x,
    ensures
        (x % 0x1_0000_0000) % 256 == x % 256,
{
    lemma_mod_mod(x, 256, 0x1_000000);
}

/// A slot image holding `payload`, zero-padded to the slot size.
fn padded_slot(payload: &[u8]) -> (r: Vec<u8>)
    requires
        payload@.len() <= MAX_EVENT_BYTES,
    ensures
        r@ == padded(payload@),
{
    let mut slot: Vec<u8> = Vec::new();
    let mut b: usize = 0;
    while b < payload.len()
        invariant
            b <= payload@.len(),
            slot@ =~= payload@.take(b as int),
        decreases payload@.len() - b,
    {
        slot.push(payload[b]);
        b = b + 1;
    }
    while b < MAX_EVENT_BYTES
        invariant
            payload@.len() <= b <= MAX_EVENT_BYTES,
            slot@ =~= padded(payload@).take(b as int),
        decreases MAX_EVENT_BYTES - b,
    {
        slot.push(0u8);
        b = b + 1;
    }
    assert(slot@ =~= padded(payload@));
    slot
}

/// Writing event `p` into slot `len % 256` turns the slot contents for
/// `log` into those for `log.push(p)`.
proof fn lemma_push_contents(log: Seq<Seq<u8>>, p: Seq<u8>, j: int)
    requires
        0 <= j < 256,
    ensures
        j == log.len() % 256 ==> slot_content(log.push(p), j) == padded(p),
        j != log.len() % 256 ==> slot_content(log.push(p), j) == slot_content(log, j),
{
    let n = log.len() as int;
    lemma_latest_step(n, j);
    if j != n % 256 {
        let k = latest_entry(n, j);
        if k >= 0 {
            assert(log.push(p)[k] == log[k]);
        }
    }
}

/// The counters of the header follow the length of the log.
proof fn lemma_counters_step(len: int, write_index: u32, event_count: u32)
    requires
        0 <= len,
        write_index == len % 256,
        event_count == len % 0x1_0000_0000,
    ensures
        (write_index + 1) % 256 == (len + 1) % 256,
        (event_count + 1) % 0x1_0000_0000 == (len + 1) % 0x1_0000_0000,
{
}

/// Subtracting counters that wrap at 2^32 recovers the true distance when it
/// is below 2^32.
proof fn lemma_wrapped_distance(a: int, b: int)
    requires
        0 <= b <= a,
        a - b < 0x1_0000_0000,
    ensures
        (if a % 0x1_0000_0000 >= b % 0x1_0000_0000 {
            a % 0x1_0000_0000 - b % 0x1_0000_0000
        } else {
            a % 0x1_0000_0000 - b % 0x1_0000_0000 + 0x1_0000_0000
        }) == a - b,
{
    lemma_fundamental_div_mod(a, 0x1_0000_0000);
    lemma_fundamental_div_mod(b, 0x1_0000_0000);
    lemma_mod_bound(a, 0x1_0000_0000);
    lemma_mod_bound(b, 0x1_0000_0000);
    let qa = a / 0x1_0000_0000;
    let qb = b / 0x1_0000_0000;
    assert(qa - qb == 0 || qa - qb == 1) by (nonlinear_arith)
        requires
            a == 0x1_0000_0000 * qa + a % 0x1_0000_0000,
            b == 0x1_0000_0000 * qb + b % 0x1_0000_0000,
            0 <= a % 0x1_0000_0000 < 0x1_0000_0000,
            0 <= b % 0x1_0000_0000 < 0x1_0000_0000,
            0 <= a - b < 0x1_0000_0000,
    ;
}

/// The slots visited by a drain are those of the last `n` events, in order.
proof fn lemma_plan_slots(count: u32, last: u32, len: int, seen: int)
    requires
        0 <= seen <= len,
        len - seen < 0x1_0000_0000,
        count == len % 0x1_0000_0000,
        last == seen % 0x1_0000_0000,
    ensures
        readable_events(count, last) == if len - seen < 256 { len - seen } else { 256 },
        forall|i: int| 0 <= i < readable_events(count, last) ==>
            #[trigger] drain_slots(count, last)[i] == (len - readable_events(count, last) + i) % 256,
{
    lemma_wrapped_distance(len, seen);
    assert(pending_events(count, last) == len - seen);
    let n = readable_events(count, last);
    lemma_small_mod(n as nat, 0x1_0000_0000);
    lemma_wrapped_distance(len, len - n);
    assert((if count >= n { count - n } else { count - n + 0x1_0000_0000 }) == (len - n) % 0x1_0000_0000);
    lemma_wrap_mod(len - n);
    assert(first_readable_slot(count, last) == (len - n) % 256);
    assert forall|i: int| 0 <= i < n implies #[trigger] drain_slots(count, last)[i] == (len - n + i) % 256 by {
        lemma_add_mod_noop(len - n, i, 256);
        lemma_small_mod(i as nat, 256);
    }
}

/// Copies the payload held in a slot.
fn read_payload(slot: &Vec<u8>) -> (r: Vec<u8>)
    ensures
        r@ == payload_of(slot@),
{
    let end = payload_len(slot.as_slice());
    let mut payload: Vec<u8> = Vec::new();
    let mut b: usize = 0;
    while b < end
        invariant
            end == payload_end(slot@),
            end <= slot@.len(),
            b <= end,
            payload@ =~= slot@.take(b as int),
        decreases end - b,
    {
        payload.push(slot[b]);
        b = b + 1;
    }
    payload
}

/// One step of a drain: the slot visited at step `i` holds event
/// `len - n + i`, whose payload extends what was delivered before.
proof fn lemma_drain_step(log: Seq<Seq<u8>>, len: int, n: int, i: int)
    requires
        len == log.len(),
        0 <= i < n,
        n <= 256,
        n <= len,
        forall|k: int| 0 <= k < log.len() ==> #[trigger] log[k].len() <= 512,
    ensures
        latest_entry(len, (len - n + i) % 256) == len - n + i,
        payload_of(slot_content(log, (len - n + i) % 256)) == payload_of(log[len - n + i]),
        delivered(log.subrange(len - n, len - n + i + 1)) == {
            let p = payload_of(log[len - n + i]);
            let d = delivered(log.subrange(len - n, len - n + i));
            if p.len() > 0 { d.push(p) } else { d }
        },
{
    let k = len - n + i;
    lemma_latest_of(len, k);
    lemma_padded_payload(log[k]);
    let sub_next = log.subrange(len - n, k + 1);
    assert(sub_next.drop_last() =~= log.subrange(len - n, k));
    assert(sub_next.last() == log[k]);
}

/// An in-memory image of the shared event file, together with the log of
/// events written into it.
pub struct EventRing {
    header: ExtendedEventHeader,
    slots: Vec<Vec<u8>>,
    log: Ghost<Seq<Seq<u8>>>,
}

/// A reader's position: the event counter it last saw.
pub struct RingCursor {
    last_count: u32,
    seen: Ghost<int>,
}

impl RingCursor {
    /// A reader that has seen nothing yet.
    pub fn new() -> (r: Self)
        ensures
            r.last_count() == 0,
            r.seen() == 0,
    {
        RingCursor { last_count: 0, seen: Ghost(0) }
    }

    /// The event counter this reader last saw.
    pub closed spec fn last_count(&self) -> u32 {
        self.last_count
    }

    /// How many events of the log this reader has been handed so far.
    pub closed spec fn seen(&self) -> int {
        self.seen@
    }

    /// The counter value the reader last saw.
    pub fn last_seen_count(&self) -> (r: u32)
        ensures
            r == self.last_count(),
    {
        self.last_count
    }

    /// Whether this reader's counter describes its position in `ring`'s log:
    /// it is behind by fewer than 2^32 events.
    pub open spec fn follows(&self, ring: &EventRing) -> bool {
        &&& 0 <= self.seen() <= ring.log().len()
        &&& ring.log().len() - self.seen() < 0x1_0000_0000
        &&& self.last_count() == self.seen() % 0x1_0000_0000
    }
}

impl EventRing {
    /// The events written so far, in order.
    pub closed spec fn log(&self) -> Seq<Seq<u8>> {
        self.log@
    }

    /// The current header.
    pub closed spec fn spec_header(&self) -> ExtendedEventHeader {
        self.header
    }

    /// The image and its header agree with the log of events written.
    pub closed spec fn wf(&self) -> bool {
        &&& self.slots@.len() == EVENT_BUFFER_SIZE
        &&& self.header.write_index == self.log@.len() % 256
        &&& self.header.event_count == self.log@.len() % 0x1_0000_0000
        &&& !writing(self.header.seq)
        &&& forall|j: int|
            0 <= j < 256 ==> #[trigger] self.slots@[j]@ == slot_content(self.log@, j)
        &&& forall|k: int| 0 <= k < self.log@.len() ==> #[trigger] self.log@[k].len() <= 512
    }

    /// A freshly created, zero-filled event file.
    pub fn new() -> (r: Self)
        ensures
            r.wf(),
            r.log() == Seq::<Seq<u8>>::empty(),
            r.spec_header() == (ExtendedEventHeader { seq: 0, write_index: 0, event_count: 0 }),
    {
        let mut slots: Vec<Vec<u8>> = Vec::new();
        let mut j: usize = 0;
        while j < EVENT_BUFFER_SIZE
            invariant
                j <= EVENT_BUFFER_SIZE,
                slots@.len() == j,
                forall|i: int| 0 <= i < j ==> #[trigger] slots@[i]@ == padded(Seq::<u8>::empty()),
            decreases EVENT_BUFFER_SIZE - j,
        {
            let mut slot: Vec<u8> = Vec::new();
            let mut b: usize = 0;
            while b < MAX_EVENT_BYTES
                invariant
                    b <= MAX_EVENT_BYTES,
                    slot@ =~= Seq::new(b as nat, |i: int| 0u8),
                decreases MAX_EVENT_BYTES - b,
            {
                slot.push(0u8);
                b = b + 1;
            }
            assert(slot@ =~= padded(Seq::<u8>::empty()));
            slots.push(slot);
            j = j + 1;
        }
        let r = EventRing {
            header: ExtendedEventHeader { seq: 0, write_index: 0, event_count: 0 },
            slots,
            log: Ghost(Seq::empty()),
        };
        assert forall|j: int| 0 <= j < 256 implies #[trigger] r.slots@[j]@ == slot_content(r.log@, j) by {
        }
        r
    }

    /// The current header.
    pub fn header(&self) -> (r: ExtendedEventHeader)
        ensures
            r == self.spec_header(),
    {
        self.header
    }

    /// The bytes of slot `index`.
    pub fn slot(&self, index: usize) -> (r: &Vec<u8>)
        requires
            self.wf(),
            index < EVENT_BUFFER_SIZE,
        ensures
            r@ == slot_content(self.log(), index as int),
    {
        &self.slots[index]
    }

    /// Writes one serialized event. A payload longer than a slot is refused
    /// and leaves the ring unchanged.
    pub fn push(&mut self, payload: &[u8]) -> (r: bool)
        requires
            old(self).wf(),
        ensures
            final(self).wf(),
            r == (payload@.len() <= MAX_EVENT_BYTES),
            r ==> final(self).log() == old(self).log().push(payload@),
            r ==> final(self).spec_header().seq == begin_seq(old(self).spec_header().seq) - 1,
            !r ==> *final(self) == *old(self),
    {
        if payload.len() > MAX_EVENT_BYTES {
            return false;
        }
        let ghost old_log = self.log@;
        let writing_seq = begin_write(self.header.seq);
        let idx = self.header.slot_index();
        let slot = padded_slot(payload);
        self.slots.set(idx, slot);
        proof {
            lemma_counters_step(old_log.len() as int, self.header.write_index, self.header.event_count);
        }
        let advanced = self.header.advanced();
        self.header = ExtendedEventHeader {
            seq: end_write(writing_seq),
            write_index: advanced.write_index,
            event_count: advanced.event_count,
        };
        self.log = Ghost(old_log.push(payload@));
        proof {
            assert forall|j: int| 0 <= j < 256 implies #[trigger] self.slots@[j]@ == slot_content(self.log@, j) by {
                lemma_push_contents(old_log, payload@, j);
            }
            assert forall|k: int| 0 <= k < self.log@.len() implies #[trigger] self.log@[k].len() <= 512 by {
                if k < old_log.len() {
                    assert(self.log@[k] == old_log[k]);
                }
            }
        }
        true
    }

    /// Reads every event written since the reader's last call, oldest first.
    /// Only the most recent `EVENT_BUFFER_SIZE` of them are still held; a slot
    /// whose payload is empty yields nothing.
    pub fn drain_new(&self, cursor: &mut RingCursor) -> (r: Vec<Vec<u8>>)
        requires
            self.wf(),
            old(cursor).follows(self),
        ensures
            final(cursor).follows(self),
            final(cursor).seen() == self.log().len(),
            ({
                let len = self.log().len() as int;
                let n = if len - old(cursor).seen() < 256 { len - old(cursor).seen() } else { 256 };
                r@.map_values(|v: Vec<u8>| v@) == delivered(self.log().subrange(len - n, len))
            }),
    {
        let ghost len = self.log@.len() as int;
        let ghost seen = cursor.seen@;
        proof {
            lemma_wrap_mod(len);
        }
        let count = self.header.event_count;
        let plan = drain_plan(count, cursor.last_count);
        proof {
            lemma_plan_slots(count, cursor.last_count, len, seen);
        }
        let ghost n = plan@.len() as int;
        let mut out: Vec<Vec<u8>> = Vec::new();
        let mut i: usize = 0;
        while i < plan.len()
            invariant
                self.wf(),
                len == self.log@.len(),
                n == plan@.len(),
                0 <= n <= 256,
                n <= len,
                forall|j: int| 0 <= j < n ==> #[trigger] plan@[j] == (len - n + j) % 256,
                i <= n,
                out@.map_values(|v: Vec<u8>| v@) == delivered(self.log@.subrange(len - n, len - n + i)),
            decreases n - i,
        {
            let idx = plan[i];
            proof {
                lemma_drain_step(self.log@, len, n, i as int);
            }
            let payload = read_payload(&self.slots[idx]);
            if payload.len() > 0 {
                let ghost before = out@;
                out.push(payload);
                assert(out@.map_values(|v: Vec<u8>| v@) =~= before.map_values(|v: Vec<u8>| v@).push(
                    payload@,
                ));
            }
            i = i + 1;
        }
        cursor.last_count = count;
        cursor.seen = Ghost(len);
        out
    }
}

/// Read-back of writes: when every event is a non-empty payload of at most
/// one slot without zero bytes, a reader is handed exactly the events that
/// were written, in order.
pub proof fn lemma_read_back_exact(log: Seq<Seq<u8>>)
    requires
        forall|k: int| 0 <= k < log.len() ==> 0 < #[trigger] log[k].len() <= 512,
        forall|k: int, b: int| 0 <= k < log.len() && 0 <= b < log[k].len() ==> #[trigger] log[k][b] != 0,
    ensures
        delivered(log) == log,
    decreases log.len(),
{
    if log.len() > 0 {
        let p = log.last();
        assert forall|b: int| 0 <= b < p.len() implies p[b] != 0 by {
            assert(log[log.len() - 1][b] != 0);
        }
        lemma_payload_end_at(p, p.len() as int);
        assert(payload_of(p) =~= p);
        lemma_read_back_exact(log.drop_last());
        assert(log.drop_last().push(p) =~= log);
    }
}

/// What a reader is handed: after `n` events (in push order) were written
/// and a reader last saw `seen` of them, `drain_new` hands it the latest
/// `min(n - seen, EVENT_BUFFER_SIZE)` events themselves, oldest first, when
/// every event is a non-empty payload of at most one slot without zero bytes
/// (as a JSON encoding of at most 512 bytes is); a second call right after
/// hands it nothing (`lemma_caught_up_reads_nothing`).
pub proof fn lemma_drain_hands_latest_events(log: Seq<Seq<u8>>, seen: int)
    requires
        0 <= seen <= log.len(),
        forall|k: int| 0 <= k < log.len() ==> 0 < #[trigger] log[k].len() <= 512,
        forall|k: int, b: int| 0 <= k < log.len() && 0 <= b < log[k].len() ==> #[trigger] log[k][b] != 0,
    ensures
        ({
            let len = log.len() as int;
            let m = if len - seen < 256 { len - seen } else { 256 };
            delivered(log.subrange(len - m, len)) == log.subrange(len - m, len)
        }),
{
    let len = log.len() as int;
    let m = if len - seen < 256 { len - seen } else { 256 };
    let sub = log.subrange(len - m, len);
    assert forall|k: int| 0 <= k < sub.len() implies 0 < #[trigger] sub[k].len() <= 512 by {
        assert(sub[k] == log[len - m + k]);
    }
    assert forall|k: int, b: int| 0 <= k < sub.len() && 0 <= b < sub[k].len() implies #[trigger] sub[k][b] != 0 by {
        assert(sub[k] == log[len - m + k]);
        assert(log[len - m + k][b] != 0);
    }
    lemma_read_back_exact(sub);
}

/// A reader that has caught up is handed nothing until the next write.
pub proof fn lemma_caught_up_reads_nothing(log: Seq<Seq<u8>>)
    ensures
        delivered(log.subrange(log.len() as int, log.len() as int)) == Seq::<Seq<u8>>::empty(),
{
    assert(log.subrange(log.len() as int, log.len() as int).len() == 0);
}

} // verus!
