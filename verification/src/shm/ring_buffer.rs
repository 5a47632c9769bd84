//! Single-producer single-consumer ring buffer laid out in a shared-memory
//! region.
//!
//! Layout: bytes 0..8 hold the write position (head), 8..16 the read
//! position (tail), 16..24 the capacity of the data area, all little-endian;
//! the data area follows. Positions only grow; a position `x` lives at data
//! offset `x % capacity`. Each entry is an 8-byte header (payload length and
//! CRC32 of the payload, little-endian `u32`s) followed by the payload, the
//! whole rounded up to a multiple of 8 bytes.

use vstd::prelude::*;
use vstd::arithmetic::div_mod::{
    lemma_fundamental_div_mod, lemma_mod_mod, lemma_add_mod_noop, lemma_fundamental_div_mod_converse_mod, lemma_mod_bound,
};

use vstd::string::StringExecFns;

use crate::error::SharedMemoryError;
use crate::text::{decimal, decimal_string};
use crate::shm::codec::{
    byte_of_u32, crc32, crc32_hash, le_u32, le_u64_at, lemma_u32_roundtrip, read_u64_le, u32_byte,
    u32_from_le,
};
use crate::shm::region::SharedMemoryRegion;

verus! {

/// Bytes of the ring header: head, tail and capacity as `u64`.
pub const HEADER_SIZE: usize = 24;

/// Bytes of an entry header: payload length and checksum as `u32`.
pub const ENTRY_HEADER_SIZE: usize = 8;

/// Entries start on multiples of this.
pub const ENTRY_ALIGNMENT: usize = 8;

/// Smallest region a ring buffer accepts: the header and 64 bytes of data.
pub const MIN_RING_REGION_SIZE: usize = 88;

/// `v` rounded up to a multiple of 8.
pub open spec fn round_up8(v: nat) -> nat {
    v + ((8 - v % 8) % 8) as nat
}

/// Space an entry with a payload of `len` bytes takes in the data area.
pub open spec fn entry_size(len: nat) -> nat {
    round_up8((ENTRY_HEADER_SIZE + len) as nat)
}

/// Byte of the data area at position `x`.
pub open spec fn data_byte(b: Seq<u8>, cap: nat, x: nat) -> u8 {
    b[HEADER_SIZE + (x % cap)]
}

/// The little-endian `u32` at positions `x..x+4` of the data area.
pub open spec fn data_u32(b: Seq<u8>, cap: nat, x: nat) -> u32 {
    le_u32(data_byte(b, cap, x), data_byte(b, cap, x + 1), data_byte(b, cap, x + 2), data_byte(b, cap, x + 3))
}

/// An entry holding payload `p` starts at position `pos`: its header fits
/// before the end of the data area, and it records the payload's length and
/// checksum.
pub open spec fn entry_at(b: Seq<u8>, cap: nat, pos: nat, p: Seq<u8>) -> bool {
    &&& (pos % cap) + ENTRY_HEADER_SIZE <= cap
    &&& data_u32(b, cap, pos) as nat == p.len()
    &&& data_u32(b, cap, pos + 4) == crc32(p)
    &&& forall|k: int| 0 <= k < p.len() ==> #[trigger] data_byte(b, cap, (pos + 8 + k) as nat) == p[k]
}

/// Total space taken by the entries of `msgs`.
pub open spec fn total_size(msgs: Seq<Seq<u8>>) -> nat
    decreases msgs.len(),
{
    if msgs.len() == 0 {
        0
    } else {
        entry_size(msgs[0].len()) + total_size(msgs.drop_first())
    }
}

/// The entries of `msgs` lie one after another from position `pos`.
pub open spec fn encodes(b: Seq<u8>, cap: nat, pos: nat, msgs: Seq<Seq<u8>>) -> bool
    decreases msgs.len(),
{
    if msgs.len() == 0 {
        true
    } else {
        entry_at(b, cap, pos, msgs[0]) && encodes(
            b,
            cap,
            pos + entry_size(msgs[0].len()),
            msgs.drop_first(),
        )
    }
}

/// What a ring buffer holds: its region's bytes, the header fields and the
/// payloads written and not yet read, oldest first.
pub struct RingBufferView {
    pub bytes: Seq<u8>,
    pub head: u64,
    pub tail: u64,
    pub capacity: u64,
    pub msgs: Seq<Seq<u8>>,
}

/// Ring buffer over a shared-memory region.
pub struct RingBuffer {
    region: SharedMemoryRegion,
    msgs: Ghost<Seq<Seq<u8>>>,
}

impl View for RingBuffer {
    type V = RingBufferView;

    closed spec fn view(&self) -> RingBufferView {
        RingBufferView {
            bytes: self.region@.bytes,
            head: le_u64_at(self.region@.bytes, 0),
            tail: le_u64_at(self.region@.bytes, 8),
            capacity: le_u64_at(self.region@.bytes, 16),
            msgs: self.msgs@,
        }
    }
}

/// The header holds positions that can be subtracted: the tail is not past
/// the head, and the head is at most one capacity ahead.
pub open spec fn header_sane(v: RingBufferView) -> bool {
    &&& v.bytes.len() >= MIN_RING_REGION_SIZE
    &&& v.tail <= v.head
    &&& v.head - v.tail <= v.capacity
}

/// Well-formed ring: the capacity is the data area, the pending payloads lie
/// encoded between tail and head, entries start on multiples of 8, and every
/// length fits the `u32` field.
pub open spec fn ring_wf(v: RingBufferView) -> bool {
    &&& header_sane(v)
    &&& v.capacity == v.bytes.len() - HEADER_SIZE
    &&& v.capacity <= u32::MAX
    &&& v.tail % 8 == 0
    &&& v.head == v.tail + total_size(v.msgs)
    &&& encodes(v.bytes, v.capacity as nat, v.tail as nat, v.msgs)
}

/// Byte `j` of an entry header that records `len` and `checksum`.
pub open spec fn header_byte(len: u32, checksum: u32, j: int) -> u8 {
    if j < 4 {
        byte_of_u32(len, j as u32)
    } else {
        byte_of_u32(checksum, (j - 4) as u32)
    }
}

/// Bytes written and not yet read.
pub open spec fn pending(v: RingBufferView) -> int {
    v.head - v.tail
}

/// The payload length recorded in the entry header at the tail.
pub open spec fn tail_entry_len(v: RingBufferView) -> u32 {
    data_u32(v.bytes, v.capacity as nat, v.tail as nat)
}

/// The checksum recorded in the entry header at the tail.
pub open spec fn tail_entry_checksum(v: RingBufferView) -> u32 {
    data_u32(v.bytes, v.capacity as nat, (v.tail + 4) as nat)
}

/// The bytes that follow the entry header at the tail, as many as it
/// records, wrapping around the end of the data area.
pub open spec fn tail_payload(v: RingBufferView) -> Seq<u8> {
    Seq::new(
        tail_entry_len(v) as nat,
        |k: int| data_byte(v.bytes, v.capacity as nat, (v.tail + 8 + k) as nat),
    )
}

/// Free space of a ring, in bytes.
pub open spec fn spec_available(v: RingBufferView) -> int {
    v.capacity - (v.head - v.tail)
}

/// `after` is the well-formed ring `before` with `p` appended as its newest
/// entry.
pub open spec fn wrote(before: RingBufferView, after: RingBufferView, p: Seq<u8>) -> bool {
    &&& ring_wf(after)
    &&& after.msgs == before.msgs.push(p)
    &&& after.head == before.head + entry_size(p.len())
    &&& after.tail == before.tail
    &&& after.capacity == before.capacity
}

/// What a write of a `len`-byte payload leaves alone: the region's size,
/// the tail and capacity words, the pending entries between tail and head,
/// and the free data area beyond the new entry; only the head word and the
/// new entry's bytes change.
pub open spec fn write_frame(before: RingBufferView, after: RingBufferView, len: nat) -> bool {
    &&& after.bytes.len() == before.bytes.len()
    &&& forall|i: int| 8 <= i < HEADER_SIZE ==> #[trigger] after.bytes[i] == before.bytes[i]
    &&& forall|x: nat|
        (before.tail <= x < before.head || before.head + entry_size(len) <= x < before.tail + before.capacity)
            ==> #[trigger] data_byte(after.bytes, before.capacity as nat, x) == data_byte(
            before.bytes,
            before.capacity as nat,
            x,
        )
}

/// `after` is the well-formed ring `before` with its oldest entry, `p`,
/// taken out.
pub open spec fn took(before: RingBufferView, after: RingBufferView, p: Seq<u8>) -> bool {
    &&& ring_wf(after)
    &&& before.msgs.len() > 0
    &&& p == before.msgs[0]
    &&& after.msgs == before.msgs.drop_first()
    &&& after.tail == before.tail + entry_size(p.len())
    &&& after.head == before.head
    &&& after.capacity == before.capacity
}

// ---------------------------------------------------------------------------
// Arithmetic on positions.

/// Position `x + j` is `j` past `x` in the data area while it does not wrap.
proof fn lemma_mod_step(x: nat, j: nat, cap: nat)
    requires
        cap > 0,
        (x % cap) + j < cap,
    ensures
        (x + j) % cap == (x % cap) + j,
{
    lemma_fundamental_div_mod(x as int, cap as int);
    lemma_mod_bound(x as int, cap as int);
    let q = x / cap;
    let r = x % cap;
    assert((x + j) as int == q * cap + (r + j)) by (nonlinear_arith)
        requires
            x == cap * q + r,
    ;
    lemma_fundamental_div_mod_converse_mod(
        (x + j) as int,
        cap as int,
        (x / cap) as int,
        ((x % cap) + j) as int,
    );
}

/// Positions less than one capacity apart fall on different bytes.
proof fn lemma_distinct_residues(x: nat, y: nat, cap: nat)
    requires
        cap > 0,
        x < y,
        y < x + cap,
    ensures
        x % cap != y % cap,
{
    lemma_fundamental_div_mod(x as int, cap as int);
    lemma_fundamental_div_mod(y as int, cap as int);
    lemma_mod_bound(x as int, cap as int);
    lemma_mod_bound(y as int, cap as int);
    if x % cap == y % cap {
        let qx = x / cap;
        let qy = y / cap;
        assert(y - x == cap * (qy - qx)) by (nonlinear_arith)
            requires
                x == cap * qx + (x % cap),
                y == cap * qy + (y % cap),
                x % cap == y % cap,
        ;
        assert(false) by (nonlinear_arith)
            requires
                y - x == cap * (qy - qx),
                0 < y - x < cap,
                cap > 0,
        ;
    }
}

/// Position `x + j` wraps to the start of the data area when it reaches the
/// end.
proof fn lemma_mod_wrap(x: nat, j: nat, cap: nat)
    requires
        cap > 0,
        (x % cap) + j == cap,
    ensures
        (x + j) % cap == 0,
{
    lemma_fundamental_div_mod(x as int, cap as int);
    lemma_mod_bound(x as int, cap as int);
    let q = x / cap;
    let r = x % cap;
    assert((x + j) as int == (q + 1) * cap + 0) by (nonlinear_arith)
        requires
            x == cap * q + r,
            r + j == cap,
    ;
    lemma_fundamental_div_mod_converse_mod((x + j) as int, cap as int, (q + 1) as int, 0);
}

/// The position after `y` in the data area.
proof fn lemma_next_pos(y: nat, cap: nat)
    requires
        cap > 0,
    ensures
        (y % cap) + 1 < cap ==> (y + 1) % cap == (y % cap) + 1,
        (y % cap) + 1 == cap ==> (y + 1) % cap == 0,
{
    lemma_mod_bound(y as int, cap as int);
    if (y % cap) + 1 < cap {
        lemma_mod_step(y, 1, cap);
    } else if (y % cap) + 1 == cap {
        lemma_mod_wrap(y, 1, cap);
    }
}

/// Two little-endian `u64` fields read the same when their bytes agree.
proof fn lemma_le_u64_same(b1: Seq<u8>, b2: Seq<u8>, off: int)
    requires
        0 <= off,
        off + 8 <= b1.len(),
        off + 8 <= b2.len(),
        forall|i: int| off <= i < off + 8 ==> b1[i] == b2[i],
    ensures
        le_u64_at(b1, off) == le_u64_at(b2, off),
{
    assert(b1[off] == b2[off]);
    assert(b1[off + 1] == b2[off + 1]);
    assert(b1[off + 2] == b2[off + 2]);
    assert(b1[off + 3] == b2[off + 3]);
    assert(b1[off + 4] == b2[off + 4]);
    assert(b1[off + 5] == b2[off + 5]);
    assert(b1[off + 6] == b2[off + 6]);
    assert(b1[off + 7] == b2[off + 7]);
}

/// The entries' sizes are multiples of 8, so their total is one too.
proof fn lemma_total_mod8(msgs: Seq<Seq<u8>>)
    ensures
        total_size(msgs) % 8 == 0,
    decreases msgs.len(),
{
    if msgs.len() > 0 {
        lemma_total_mod8(msgs.drop_first());
    }
}

/// Every entry takes at least its header and its payload.
proof fn lemma_entry_size_bounds(len: nat)
    ensures
        entry_size(len) >= ENTRY_HEADER_SIZE + len,
        entry_size(len) < ENTRY_HEADER_SIZE + len + 8,
        entry_size(len) % 8 == 0,
{
}

/// Appending a payload adds its entry's size to the total.
proof fn lemma_total_push(msgs: Seq<Seq<u8>>, p: Seq<u8>)
    ensures
        total_size(msgs.push(p)) == total_size(msgs) + entry_size(p.len()),
    decreases msgs.len(),
{
    if msgs.len() == 0 {
        assert(msgs.push(p).drop_first() =~= Seq::<Seq<u8>>::empty());
        assert(msgs.push(p)[0] == p);
        assert(total_size(Seq::<Seq<u8>>::empty()) == 0);
    } else {
        assert(msgs.push(p).drop_first() =~= msgs.drop_first().push(p));
        assert(msgs.push(p)[0] == msgs[0]);
        lemma_total_push(msgs.drop_first(), p);
    }
}

/// Encodings only look at the data bytes of their own positions.
proof fn lemma_encodes_frame(b1: Seq<u8>, b2: Seq<u8>, cap: nat, pos: nat, msgs: Seq<Seq<u8>>)
    requires
        cap > 0,
        b1.len() == b2.len(),
        b1.len() == HEADER_SIZE + cap,
        encodes(b1, cap, pos, msgs),
        forall|x: nat| pos <= x < pos + total_size(msgs) ==> #[trigger] data_byte(b1, cap, x) == data_byte(b2, cap, x),
    ensures
        encodes(b2, cap, pos, msgs),
    decreases msgs.len(),
{
    if msgs.len() > 0 {
        let p = msgs[0];
        let es = entry_size(p.len());
        lemma_entry_size_bounds(p.len());
        assert(data_byte(b1, cap, pos) == data_byte(b2, cap, pos));
        assert(data_byte(b1, cap, pos + 1) == data_byte(b2, cap, pos + 1));
        assert(data_byte(b1, cap, pos + 2) == data_byte(b2, cap, pos + 2));
        assert(data_byte(b1, cap, pos + 3) == data_byte(b2, cap, pos + 3));
        assert(data_byte(b1, cap, pos + 4) == data_byte(b2, cap, pos + 4));
        assert(data_byte(b1, cap, pos + 5) == data_byte(b2, cap, pos + 5));
        assert(data_byte(b1, cap, pos + 6) == data_byte(b2, cap, pos + 6));
        assert(data_byte(b1, cap, pos + 7) == data_byte(b2, cap, pos + 7));
        assert forall|k: int| 0 <= k < p.len() implies #[trigger] data_byte(b2, cap, (pos + 8 + k) as nat)
            == p[k] by {
            assert(data_byte(b1, cap, (pos + 8 + k) as nat) == p[k]);
        }
        lemma_encodes_frame(b1, b2, cap, pos + es, msgs.drop_first());
    }
}

/// An entry placed right after the encoded payloads extends them.
proof fn lemma_encodes_push(b: Seq<u8>, cap: nat, pos: nat, msgs: Seq<Seq<u8>>, p: Seq<u8>)
    requires
        encodes(b, cap, pos, msgs),
        entry_at(b, cap, pos + total_size(msgs), p),
    ensures
        encodes(b, cap, pos, msgs.push(p)),
    decreases msgs.len(),
{
    if msgs.len() == 0 {
        assert(msgs.push(p).drop_first() =~= Seq::<Seq<u8>>::empty());
        assert(msgs.push(p)[0] == p);
        assert(encodes(b, cap, pos + entry_size(p.len()), Seq::<Seq<u8>>::empty()));
    } else {
        assert(msgs.push(p).drop_first() =~= msgs.drop_first().push(p));
        assert(msgs.push(p)[0] == msgs[0]);
        lemma_encodes_push(b, cap, pos + entry_size(msgs[0].len()), msgs.drop_first(), p);
    }
}

/// A ring with no space used holds no payloads, and one with some used
/// holds at least one.
proof fn lemma_total_zero(msgs: Seq<Seq<u8>>)
    ensures
        (total_size(msgs) == 0) <==> (msgs.len() == 0),
        msgs.len() > 0 ==> total_size(msgs) >= entry_size(msgs[0].len()),
{
    if msgs.len() > 0 {
        lemma_entry_size_bounds(msgs[0].len());
    }
}

/// The space an entry with a payload of `len` bytes takes, computed in
/// 64 bits.
fn entry_size_u64(len: u32) -> (r: u64)
    ensures
        r == entry_size(len as nat),
{
    let v: u64 = 8 + len as u64;
    v + (8 - v % 8) % 8
}

/// The reason given for a region too small for a ring.
pub open spec fn region_too_small(size: nat) -> Seq<char> {
    "Region too small: "@ + decimal(size) + " bytes"@
}

fn region_too_small_message(size: usize) -> (r: String)
    ensures
        r@ == region_too_small(size as nat),
{
    let mut m = "Region too small: ".to_string();
    m.append(decimal_string(size as u64).as_str());
    m.append(" bytes");
    m
}

impl RingBuffer {
    /// Lay out an empty ring in `region`: head and tail 0, capacity the
    /// region's size less the header. The region must hold at least 88 bytes.
    pub fn new(region: SharedMemoryRegion) -> (res: Result<RingBuffer, SharedMemoryError>)
        ensures
            res is Ok <==> region@.bytes.len() >= MIN_RING_REGION_SIZE,
            match res {
                Ok(rb) => {
                    &&& rb@.head == 0
                    &&& rb@.tail == 0
                    &&& rb@.capacity == region@.bytes.len() - HEADER_SIZE
                    &&& rb@.msgs == Seq::<Seq<u8>>::empty()
                    &&& rb.region_name() == region@.name
                    &&& rb@.bytes.len() == region@.bytes.len()
                    &&& rb@.capacity <= u32::MAX ==> ring_wf(rb@)
                },
                Err(e) => e matches SharedMemoryError::InvalidBufferState { reason } && reason@ == region_too_small(
                    region@.bytes.len(),
                ),
            },
    {
        let size = region.size();
        if size < MIN_RING_REGION_SIZE {
            return Err(SharedMemoryError::InvalidBufferState { reason: region_too_small_message(size) });
        }
        let mut region = region;
        region.write_u64_le(0, 0);
        let ghost b1 = region@.bytes;
        region.write_u64_le(8, 0);
        let ghost b2 = region@.bytes;
        region.write_u64_le(16, (size - HEADER_SIZE) as u64);
        proof {
            let b3 = region@.bytes;
            lemma_le_u64_same(b1, b2, 0);
            lemma_le_u64_same(b2, b3, 0);
            lemma_le_u64_same(b2, b3, 8);
        }
        let rb = RingBuffer { region, msgs: Ghost(Seq::empty()) };
        proof {
            reveal_with_fuel(encodes, 1);
        }
        Ok(rb)
    }

    /// Use a ring already laid out in `region` by another party. The region
    /// must hold at least 88 bytes; its header is taken as it is.
    pub fn open(region: SharedMemoryRegion) -> (res: Result<RingBuffer, SharedMemoryError>)
        ensures
            res is Ok <==> region@.bytes.len() >= MIN_RING_REGION_SIZE,
            match res {
                Ok(rb) => {
                    &&& rb@.bytes == region@.bytes
                    &&& rb@.head == le_u64_at(region@.bytes, 0)
                    &&& rb@.tail == le_u64_at(region@.bytes, 8)
                    &&& rb@.capacity == le_u64_at(region@.bytes, 16)
                    &&& rb@.msgs == Seq::<Seq<u8>>::empty()
                    &&& rb.region_name() == region@.name
                },
                Err(e) => e matches SharedMemoryError::InvalidBufferState { reason } && reason@ == region_too_small(
                    region@.bytes.len(),
                ),
            },
    {
        let size = region.size();
        if size < MIN_RING_REGION_SIZE {
            return Err(SharedMemoryError::InvalidBufferState { reason: region_too_small_message(size) });
        }
        Ok(RingBuffer { region, msgs: Ghost(Seq::empty()) })
    }

    /// Name of the underlying region.
    pub closed spec fn region_name(&self) -> Seq<char> {
        self.region@.name
    }

    /// The underlying region.
    pub fn region(&self) -> (r: &SharedMemoryRegion)
        ensures
            r@.bytes == self@.bytes,
            r@.name == self.region_name(),
    {
        &self.region
    }

    /// The write position.
    fn head(&self) -> (r: u64)
        requires
            self@.bytes.len() >= MIN_RING_REGION_SIZE,
        ensures
            r == self@.head,
    {
        read_u64_le(self.region.bytes(), 0)
    }

    /// The read position.
    fn tail(&self) -> (r: u64)
        requires
            self@.bytes.len() >= MIN_RING_REGION_SIZE,
        ensures
            r == self@.tail,
    {
        read_u64_le(self.region.bytes(), 8)
    }

    /// Capacity of the data area, as recorded in the header.
    pub fn capacity(&self) -> (r: usize)
        requires
            self@.bytes.len() >= MIN_RING_REGION_SIZE,
        ensures
            r == self@.capacity as usize,
    {
        read_u64_le(self.region.bytes(), 16) as usize
    }

    /// Free space: capacity less the bytes written and not yet read.
    pub fn available_space(&self) -> (r: usize)
        requires
            header_sane(self@),
        ensures
            r == spec_available(self@) as usize,
    {
        let head = self.head();
        let tail = self.tail();
        let capacity = read_u64_le(self.region.bytes(), 16);
        (capacity - (head - tail)) as usize
    }

    /// Bytes written and not yet read.
    pub fn readable_bytes(&self) -> (r: usize)
        requires
            header_sane(self@),
        ensures
            r == (self@.head - self@.tail) as usize,
    {
        let head = self.head();
        let tail = self.tail();
        (head - tail) as usize
    }

    /// Whether nothing is waiting to be read; in a well-formed ring, exactly
    /// when no payload is pending.
    pub fn is_empty(&self) -> (r: bool)
        requires
            header_sane(self@),
        ensures
            r == ((self@.head - self@.tail) as usize == 0),
            ring_wf(self@) ==> (r <==> self@.msgs.len() == 0),
    {
        proof {
            if ring_wf(self@) {
                lemma_total_zero(self@.msgs);
            }
        }
        self.readable_bytes() == 0
    }

    /// Append `payload` as one entry: header (length and CRC32) then the
    /// payload, wrapping around the end of the data area. The write is
    /// refused, and nothing changes, when the entry does not fit in the free
    /// space.
    pub fn write(&mut self, payload: &[u8]) -> (res: Result<(), SharedMemoryError>)
        requires
            ring_wf(old(self)@),
            payload@.len() + 15 <= usize::MAX,
            entry_size(payload@.len()) <= spec_available(old(self)@) ==> {
                &&& old(self)@.head + entry_size(payload@.len()) <= u64::MAX
                &&& (old(self)@.head % old(self)@.capacity) + ENTRY_HEADER_SIZE
                    <= old(self)@.capacity
            },
        ensures
            res is Ok <==> entry_size(payload@.len()) <= spec_available(old(self)@),
            ring_wf(final(self)@),
            final(self).region_name() == old(self).region_name(),
            match res {
                Ok(_) => wrote(old(self)@, final(self)@, payload@) && write_frame(old(self)@, final(self)@, payload@.len()),
                Err(e) => final(self)@ == old(self)@ && e == (SharedMemoryError::RingBufferFull {
                    size: payload@.len() as usize,
                }),
            },
    {
        let payload_len = payload.len();
        let region_len = self.region.size();
        assert(8usize & 7usize == 0) by (bit_vector);
        let es = Self::align_up(ENTRY_HEADER_SIZE + payload_len, ENTRY_ALIGNMENT);
        if es > self.available_space() {
            return Err(SharedMemoryError::RingBufferFull { size: payload_len });
        }
        let checksum = crc32_hash(payload);
        let len32 = payload_len as u32;
        let capacity = self.capacity();
        let head = self.head();
        let offset = (head % (capacity as u64)) as usize;
        let ghost old_b = self.region@.bytes;
        let ghost name = self.region@.name;
        let ghost cap = capacity as nat;
        let ghost tail = self@.tail as nat;
        let ghost h = head as nat;
        let ghost msgs = self.msgs@;
        proof {
            lemma_entry_size_bounds(payload_len as nat);
            lemma_mod_bound(h as int, cap as int);
        }
        let mut k: usize = 0;
        while k < ENTRY_HEADER_SIZE
            invariant
                k <= ENTRY_HEADER_SIZE,
                offset == h % cap,
                offset + ENTRY_HEADER_SIZE <= capacity,
                capacity == cap,
                HEADER_SIZE + cap == old_b.len(),
                region_len == old_b.len(),
                self.region@.bytes.len() == old_b.len(),
                self.region@.name == name,
                self.msgs@ == msgs,
                forall|j: int| 0 <= j < k ==> #[trigger] self.region@.bytes[HEADER_SIZE + offset + j] == header_byte(len32, checksum, j),
                forall|i: int|
                    0 <= i < old_b.len() && !(HEADER_SIZE + offset <= i < HEADER_SIZE + offset + 8)
                        ==> #[trigger] self.region@.bytes[i] == old_b[i],
            decreases ENTRY_HEADER_SIZE - k,
        {
            let b = if k < 4 {
                u32_byte(len32, k as u32)
            } else {
                u32_byte(checksum, (k - 4) as u32)
            };
            self.region.set_byte(HEADER_SIZE + offset + k, b);
            k = k + 1;
        }
        proof {
            let nb = self.region@.bytes;
            assert forall|x: nat| tail <= x < h implies #[trigger] data_byte(nb, cap, x) == data_byte(old_b, cap, x) by {
                lemma_mod_bound(x as int, cap as int);
                if offset <= x % cap && x % cap < offset + 8 {
                    let j = (x % cap - offset) as nat;
                    lemma_mod_step(h, j, cap);
                    lemma_distinct_residues(x, h + j, cap);
                }
            }
            assert forall|j: int| 0 <= j < 8 implies #[trigger] data_byte(nb, cap, (h + j) as nat) == header_byte(len32, checksum, j) by {
                lemma_mod_step(h, j as nat, cap);
                assert(nb[HEADER_SIZE + offset + j] == header_byte(len32, checksum, j));
            }
            assert forall|i: int| 0 <= i < HEADER_SIZE implies #[trigger] nb[i] == old_b[i] by {}
            assert forall|x: nat| h + 8 <= x < tail + cap implies #[trigger] data_byte(nb, cap, x) == data_byte(old_b, cap, x) by {
                lemma_mod_bound(x as int, cap as int);
                if offset <= x % cap && x % cap < offset + 8 {
                    let j = (x % cap - offset) as nat;
                    lemma_mod_step(h, j, cap);
                    lemma_distinct_residues(h + j, x, cap);
                }
            }
        }
        let mut pos: usize = if offset + ENTRY_HEADER_SIZE == capacity {
            0
        } else {
            offset + ENTRY_HEADER_SIZE
        };
        proof {
            if offset + 8 == cap {
                lemma_mod_wrap(h, 8, cap);
            } else {
                lemma_mod_step(h, 8, cap);
            }
        }
        let mut k: usize = 0;
        while k < payload_len
            invariant
                k <= payload_len,
                payload_len == payload@.len(),
                capacity == cap,
                cap > 0,
                pos == ((h + 8 + k) as nat) % cap,
                HEADER_SIZE + cap == old_b.len(),
                region_len == old_b.len(),
                self.region@.bytes.len() == old_b.len(),
                self.region@.name == name,
                self.msgs@ == msgs,
                h + es <= tail + cap,
                tail <= h,
                ENTRY_HEADER_SIZE + payload_len <= es,
                forall|x: nat| tail <= x < h ==> #[trigger] data_byte(self.region@.bytes, cap, x) == data_byte(old_b, cap, x),
                forall|j: int| 0 <= j < 8 ==> #[trigger] data_byte(self.region@.bytes, cap, (h + j) as nat) == header_byte(len32, checksum, j),
                forall|j: int| 0 <= j < k ==> #[trigger] data_byte(self.region@.bytes, cap, (h + 8 + j) as nat) == payload@[j],
                forall|i: int| 0 <= i < HEADER_SIZE ==> #[trigger] self.region@.bytes[i] == old_b[i],
                forall|x: nat| h + 8 + k <= x < tail + cap ==> #[trigger] data_byte(self.region@.bytes, cap, x) == data_byte(old_b, cap, x),
            decreases payload_len - k,
        {
            let ghost pre = self.region@.bytes;
            proof {
                lemma_mod_bound((h + 8 + k) as int, cap as int);
            }
            self.region.set_byte(HEADER_SIZE + pos, payload[k]);
            proof {
                let nb = self.region@.bytes;
                let y = (h + 8 + k) as nat;
                assert forall|x: nat| tail <= x < h implies #[trigger] data_byte(nb, cap, x) == data_byte(old_b, cap, x) by {
                    assert(data_byte(pre, cap, x) == data_byte(old_b, cap, x));
                    lemma_distinct_residues(x, y, cap);
                }
                assert forall|j: int| 0 <= j < 8 implies #[trigger] data_byte(nb, cap, (h + j) as nat) == header_byte(len32, checksum, j) by {
                    assert(data_byte(pre, cap, (h + j) as nat) == header_byte(len32, checksum, j));
                    lemma_distinct_residues((h + j) as nat, y, cap);
                }
                assert forall|j: int| 0 <= j < k + 1 implies #[trigger] data_byte(nb, cap, (h + 8 + j) as nat) == payload@[j] by {
                    if j < k {
                        assert(data_byte(pre, cap, (h + 8 + j) as nat) == payload@[j]);
                        lemma_distinct_residues((h + 8 + j) as nat, y, cap);
                    }
                }
                assert forall|i: int| 0 <= i < HEADER_SIZE implies #[trigger] nb[i] == old_b[i] by {
                    assert(pre[i] == old_b[i]);
                }
                assert forall|x: nat| h + 8 + k + 1 <= x < tail + cap implies #[trigger] data_byte(nb, cap, x) == data_byte(old_b, cap, x) by {
                    assert(data_byte(pre, cap, x) == data_byte(old_b, cap, x));
                    lemma_distinct_residues(y, x, cap);
                }
                lemma_next_pos(y, cap);
            }
            pos = if pos + 1 == capacity {
                0
            } else {
                pos + 1
            };
            k = k + 1;
        }
        proof {
            let nb = self.region@.bytes;
            lemma_u32_roundtrip(len32);
            lemma_u32_roundtrip(checksum);
            assert(data_byte(nb, cap, (h + 0) as nat) == header_byte(len32, checksum, 0));
            assert(data_byte(nb, cap, (h + 1) as nat) == header_byte(len32, checksum, 1));
            assert(data_byte(nb, cap, (h + 2) as nat) == header_byte(len32, checksum, 2));
            assert(data_byte(nb, cap, (h + 3) as nat) == header_byte(len32, checksum, 3));
            assert(data_byte(nb, cap, (h + 4) as nat) == header_byte(len32, checksum, 4));
            assert(data_byte(nb, cap, (h + 5) as nat) == header_byte(len32, checksum, 5));
            assert(data_byte(nb, cap, (h + 6) as nat) == header_byte(len32, checksum, 6));
            assert(data_byte(nb, cap, (h + 7) as nat) == header_byte(len32, checksum, 7));
            assert(data_u32(nb, cap, h) == len32);
            assert(data_u32(nb, cap, h + 4) == checksum);
            assert forall|j: int| 0 <= j < payload@.len() implies #[trigger] data_byte(nb, cap, (h + 8 + j) as nat) == payload@[j] by {}
            assert(entry_at(nb, cap, h, payload@));
            lemma_encodes_frame(old_b, nb, cap, tail, msgs);
            lemma_encodes_push(nb, cap, tail, msgs, payload@);
            lemma_total_push(msgs, payload@);
        }
        let ghost nb = self.region@.bytes;
        self.region.write_u64_le(0, head + es as u64);
        proof {
            let fb = self.region@.bytes;
            assert forall|x: nat| tail <= x < tail + total_size(msgs.push(payload@)) implies #[trigger] data_byte(nb, cap, x) == data_byte(fb, cap, x) by {
                lemma_mod_bound(x as int, cap as int);
            }
            lemma_encodes_frame(nb, fb, cap, tail, msgs.push(payload@));
            lemma_le_u64_same(old_b, fb, 8);
            lemma_le_u64_same(old_b, fb, 16);
            assert forall|x: nat|
                (tail <= x < h || h + es <= x < tail + cap) implies #[trigger] data_byte(fb, cap, x) == data_byte(old_b, cap, x) by {
                lemma_mod_bound(x as int, cap as int);
                assert(data_byte(fb, cap, x) == data_byte(nb, cap, x));
            }
            assert forall|i: int| 8 <= i < HEADER_SIZE implies #[trigger] fb[i] == old_b[i] by {
                assert(nb[i] == old_b[i]);
            }
        }
        self.msgs = Ghost(self.msgs@.push(payload@));
        Ok(())
    }

    /// Take the oldest entry: read its header, copy its payload out
    /// (wrapping around the end of the data area), check its CRC32 and advance
    /// the tail past it. Fewer pending bytes than an entry header is an empty
    /// ring; fewer than the header announces is an incomplete entry; a payload
    /// whose checksum differs from the recorded one is refused; in each of
    /// these cases nothing changes. In a well-formed ring the entry read is
    /// the oldest payload written.
    pub fn read(&mut self) -> (res: Result<Vec<u8>, SharedMemoryError>)
        requires
            header_sane(old(self)@),
            old(self)@.capacity == old(self)@.bytes.len() - HEADER_SIZE,
            pending(old(self)@) >= ENTRY_HEADER_SIZE ==> (old(self)@.tail % old(self)@.capacity)
                + ENTRY_HEADER_SIZE <= old(self)@.capacity,
        ensures
            final(self).region_name() == old(self).region_name(),
            pending(old(self)@) < ENTRY_HEADER_SIZE ==> res == Err::<Vec<u8>, SharedMemoryError>(
                SharedMemoryError::RingBufferEmpty,
            ) && final(self)@ == old(self)@,
            pending(old(self)@) >= ENTRY_HEADER_SIZE && pending(old(self)@) < entry_size(
                tail_entry_len(old(self)@) as nat,
            ) ==> (res matches Err(SharedMemoryError::InvalidBufferState { reason }) && reason@
                == "Incomplete entry in buffer"@ && final(self)@ == old(self)@),
            pending(old(self)@) >= ENTRY_HEADER_SIZE && pending(old(self)@) >= entry_size(
                tail_entry_len(old(self)@) as nat,
            ) ==> match res {
                Ok(p) => {
                    &&& p@ == tail_payload(old(self)@)
                    &&& crc32(p@) == tail_entry_checksum(old(self)@)
                    &&& final(self)@.tail == old(self)@.tail + entry_size(p@.len())
                    &&& final(self)@.head == old(self)@.head
                    &&& final(self)@.capacity == old(self)@.capacity
                    &&& final(self)@.bytes.len() == old(self)@.bytes.len()
                    &&& forall|i: int|
                        0 <= i < old(self)@.bytes.len() && !(8 <= i < 16) ==> #[trigger] final(self)@.bytes[i]
                            == old(self)@.bytes[i]
                },
                Err(e) => {
                    &&& crc32(tail_payload(old(self)@)) != tail_entry_checksum(old(self)@)
                    &&& e == SharedMemoryError::ChecksumMismatch {
                        expected: tail_entry_checksum(old(self)@),
                        actual: crc32(tail_payload(old(self)@)),
                    }
                    &&& final(self)@ == old(self)@
                },
            },
            ring_wf(old(self)@) ==> {
                &&& res is Ok <==> old(self)@.msgs.len() > 0
                &&& ring_wf(final(self)@)
                &&& match res {
                    Ok(p) => took(old(self)@, final(self)@, p@),
                    Err(e) => final(self)@ == old(self)@ && e == SharedMemoryError::RingBufferEmpty,
                }
            },
    {
        let ghost msgs = self.msgs@;
        let ghost v0 = self@;
        proof {
            lemma_total_zero(msgs);
        }
        let tail = self.tail();
        let head = self.head();
        if head - tail < ENTRY_HEADER_SIZE as u64 {
            return Err(SharedMemoryError::RingBufferEmpty);
        }
        let region_len = self.region.size();
        let capacity = self.capacity();
        let offset = (tail % (capacity as u64)) as usize;
        let ghost cap = capacity as nat;
        let ghost t = tail as nat;
        let ghost b = self.region@.bytes;
        proof {
            lemma_mod_step(t, 0, cap);
            lemma_mod_step(t, 1, cap);
            lemma_mod_step(t, 2, cap);
            lemma_mod_step(t, 3, cap);
            lemma_mod_step(t, 4, cap);
            lemma_mod_step(t, 5, cap);
            lemma_mod_step(t, 6, cap);
            lemma_mod_step(t, 7, cap);
            if ring_wf(v0) {
                assert(entry_at(b, cap, t, msgs[0]));
            }
        }
        let bytes = self.region.bytes();
        let length = u32_from_le(
            bytes[HEADER_SIZE + offset],
            bytes[HEADER_SIZE + offset + 1],
            bytes[HEADER_SIZE + offset + 2],
            bytes[HEADER_SIZE + offset + 3],
        );
        let expected = u32_from_le(
            bytes[HEADER_SIZE + offset + 4],
            bytes[HEADER_SIZE + offset + 5],
            bytes[HEADER_SIZE + offset + 6],
            bytes[HEADER_SIZE + offset + 7],
        );
        assert(length == tail_entry_len(v0));
        assert(expected == tail_entry_checksum(v0));
        let es = entry_size_u64(length);
        if head - tail < es {
            return Err(
                SharedMemoryError::InvalidBufferState {
                    reason: "Incomplete entry in buffer".to_string(),
                },
            );
        }
        let payload_len = length as usize;
        let ghost q = tail_payload(v0);
        proof {
            lemma_entry_size_bounds(length as nat);
            if ring_wf(v0) {
                let p = msgs[0];
                assert(q.len() == p.len());
                assert forall|k: int| 0 <= k < q.len() implies q[k] == p[k] by {
                    assert(data_byte(b, cap, (t + 8 + k) as nat) == p[k]);
                }
                assert(q =~= p);
            }
        }
        let mut payload: Vec<u8> = Vec::new();
        let mut pos: usize = if offset + ENTRY_HEADER_SIZE == capacity {
            0
        } else {
            offset + ENTRY_HEADER_SIZE
        };
        proof {
            lemma_mod_bound(t as int, cap as int);
            if offset + 8 == cap {
                lemma_mod_wrap(t, 8, cap);
            } else {
                lemma_mod_step(t, 8, cap);
            }
        }
        let mut k: usize = 0;
        while k < payload_len
            invariant
                k <= payload_len,
                payload_len == q.len(),
                capacity == cap,
                cap > 0,
                HEADER_SIZE + cap == b.len(),
                region_len == b.len(),
                bytes@ == b,
                pos == ((t + 8 + k) as nat) % cap,
                payload@.len() == k,
                forall|j: int| 0 <= j < k ==> #[trigger] payload@[j] == q[j],
                forall|j: int| 0 <= j < q.len() ==> #[trigger] q[j] == data_byte(b, cap, (t + 8 + j) as nat),
            decreases payload_len - k,
        {
            proof {
                lemma_mod_bound((t + 8 + k) as int, cap as int);
                assert(q[k as int] == data_byte(b, cap, (t + 8 + k) as nat));
                lemma_next_pos((t + 8 + k) as nat, cap);
            }
            payload.push(bytes[HEADER_SIZE + pos]);
            pos = if pos + 1 == capacity {
                0
            } else {
                pos + 1
            };
            k = k + 1;
        }
        assert(payload@ =~= q);
        let actual = crc32_hash(payload.as_slice());
        if actual != expected {
            return Err(SharedMemoryError::ChecksumMismatch { expected, actual });
        }
        self.region.write_u64_le(8, tail + es);
        proof {
            let fb = self.region@.bytes;
            lemma_le_u64_same(b, fb, 0);
            lemma_le_u64_same(b, fb, 16);
            if ring_wf(v0) {
                let rest = msgs.drop_first();
                assert forall|x: nat| t + es <= x < t + es + total_size(rest) implies #[trigger] data_byte(b, cap, x) == data_byte(fb, cap, x) by {
                    lemma_mod_bound(x as int, cap as int);
                }
                lemma_encodes_frame(b, fb, cap, (t + es) as nat, rest);
                lemma_total_mod8(msgs);
            }
        }
        self.msgs = Ghost(self.msgs@.drop_first());
        Ok(payload)
    }

    /// Round `value` up to a multiple of `alignment`, a power of two.
    #[verifier::spinoff_prover]
    pub fn align_up(value: usize, alignment: usize) -> (r: usize)
        requires
            alignment > 0,
            alignment & (alignment - 1) as usize == 0,
            value + alignment - 1 <= usize::MAX,
        ensures
            r & (alignment - 1) as usize == 0,
            value <= r,
            r < value + alignment,
            alignment == 8 ==> r == round_up8(value as nat),
    {
        let m: usize = alignment - 1;
        let x: usize = value + m;
        let r = x & !m;
        assert(r & m == 0 && r <= x && x - r <= m) by (bit_vector)
            requires
                r == x & !m,
        ;
        if alignment == 8 {
            assert(r % 8 == 0) by (bit_vector)
                requires
                    r & 7 == 0,
            ;
        }
        r
    }
}

/// A ring whose capacity is a multiple of 8 always has room for an entry
/// header, contiguous, at its head and at its tail: the alignment conditions
/// of `write` hold on every well-formed ring of such a capacity.
pub proof fn law_aligned_capacity_fits_headers(v: RingBufferView)
    requires
        ring_wf(v),
        v.capacity % 8 == 0,
    ensures
        (v.head % v.capacity) + ENTRY_HEADER_SIZE <= v.capacity,
        (v.tail % v.capacity) + ENTRY_HEADER_SIZE <= v.capacity,
{
    let cap = v.capacity as int;
    let k = cap / 8;
    lemma_total_mod8(v.msgs);
    lemma_fundamental_div_mod(cap, 8);
    assert(cap == 8 * k);
    lemma_add_mod_noop(v.tail as int, total_size(v.msgs) as int, 8);
    assert(v.head % 8 == 0);
    lemma_mod_mod(v.head as int, 8, k);
    lemma_mod_mod(v.tail as int, 8, k);
    lemma_mod_bound(v.head as int, cap);
    lemma_mod_bound(v.tail as int, cap);
    let rh = v.head as int % cap;
    let rt = v.tail as int % cap;
    assert(rh % 8 == 0);
    assert(rt % 8 == 0);
    assert(rh + 8 <= cap) by (nonlinear_arith)
        requires
            0 <= rh < cap,
            rh % 8 == 0,
            cap % 8 == 0,
    ;
    assert(rt + 8 <= cap) by (nonlinear_arith)
        requires
            0 <= rt < cap,
            rt % 8 == 0,
            cap % 8 == 0,
    ;
}

/// Free and readable space add up to the capacity.
pub proof fn law_space_accounting(v: RingBufferView)
    requires
        header_sane(v),
    ensures
        spec_available(v) + (v.head - v.tail) == v.capacity,
        0 <= spec_available(v) <= v.capacity,
{
}

/// The header fields of a ring are the little-endian words at offsets 0
/// (head), 8 (tail) and 16 (capacity) of its region's bytes, so two handles
/// on the same bytes see the same header.
pub proof fn law_header_in_bytes(rb: RingBuffer)
    ensures
        rb@.head == le_u64_at(rb@.bytes, 0),
        rb@.tail == le_u64_at(rb@.bytes, 8),
        rb@.capacity == le_u64_at(rb@.bytes, 16),
{
}

/// A payload written to a ring with nothing pending is the next one read,
/// and the ring is then empty again.
pub proof fn law_write_then_read(
    v0: RingBufferView,
    v1: RingBufferView,
    v2: RingBufferView,
    p: Seq<u8>,
    q: Seq<u8>,
)
    requires
        v0.msgs.len() == 0,
        wrote(v0, v1, p),
        took(v1, v2, q),
    ensures
        q == p,
        v2.msgs.len() == 0,
{
    assert(v1.msgs[0] == p);
}

/// First in, first out: a read after a write returns the oldest payload that
/// was pending before the write, or the written one when none was; the
/// written payload stays queued behind the others.
pub proof fn law_fifo_order(
    v0: RingBufferView,
    v1: RingBufferView,
    v2: RingBufferView,
    p: Seq<u8>,
    q: Seq<u8>,
)
    requires
        wrote(v0, v1, p),
        took(v1, v2, q),
    ensures
        v0.msgs.len() > 0 ==> q == v0.msgs[0] && v2.msgs == v0.msgs.drop_first().push(p),
        v0.msgs.len() == 0 ==> q == p && v2.msgs.len() == 0,
{
    if v0.msgs.len() > 0 {
        assert(v2.msgs =~= v0.msgs.drop_first().push(p));
    }
}

/// A second handle on a ring's bytes, such as one made by `open` in another
/// process, reads what the writer's handle holds: when the writer's ring is
/// well-formed with payloads pending, the second handle's header is sane, the
/// entry at its tail is complete, its checksum holds, and its payload is the
/// oldest pending one. So `read` on the second handle returns that payload.
pub proof fn law_shared_ring_reads_oldest(writer: RingBufferView, reader: RingBufferView)
    requires
        ring_wf(writer),
        writer.msgs.len() > 0,
        reader.bytes == writer.bytes,
        reader.head == writer.head,
        reader.tail == writer.tail,
        reader.capacity == writer.capacity,
    ensures
        header_sane(reader),
        reader.capacity == reader.bytes.len() - HEADER_SIZE,
        (reader.tail % reader.capacity) + ENTRY_HEADER_SIZE <= reader.capacity,
        pending(reader) >= ENTRY_HEADER_SIZE,
        pending(reader) >= entry_size(tail_entry_len(reader) as nat),
        tail_payload(reader) == writer.msgs[0],
        crc32(tail_payload(reader)) == tail_entry_checksum(reader),
{
    let m = writer.msgs;
    let cap = writer.capacity as nat;
    assert(encodes(writer.bytes, cap, writer.tail as nat, m));
    assert(entry_at(writer.bytes, cap, writer.tail as nat, m[0]));
    assert(total_size(m) == entry_size(m[0].len()) + total_size(m.drop_first()));
    lemma_entry_size_bounds(m[0].len());
    assert(tail_entry_len(reader) as nat == m[0].len());
    assert forall|k: int| 0 <= k < m[0].len() implies #[trigger] tail_payload(reader)[k] == m[0][k] by {
        assert(data_byte(writer.bytes, cap, (writer.tail as nat + 8 + k) as nat) == m[0][k]);
    }
    assert(tail_payload(reader) =~= m[0]);
}

/// One call on a ring as `write` and `read` leave it: a payload written, the
/// oldest payload taken, or (a refused call) nothing changed.
pub open spec fn ring_step(before: RingBufferView, after: RingBufferView, p: Seq<u8>) -> bool {
    wrote(before, after, p) || took(before, after, p) || after == before
}

/// Along a run of `ring_step`s from a well-formed ring, every ring stays
/// well-formed with the same capacity.
proof fn lemma_run_stays_wf(views: Seq<RingBufferView>, ps: Seq<Seq<u8>>, i: int)
    requires
        views.len() == ps.len() + 1,
        ring_wf(views[0]),
        forall|j: int| 0 <= j < ps.len() ==> #[trigger] ring_step(views[j], views[j + 1], ps[j]),
        0 <= i < views.len(),
    ensures
        ring_wf(views[i]),
        views[i].capacity == views[0].capacity,
    decreases i,
{
    if i > 0 {
        lemma_run_stays_wf(views, ps, i - 1);
        let j = i - 1;
        assert(ring_step(views[j], views[j + 1], ps[j]));
    }
}

/// Over any run of writes and reads from a well-formed ring (such as one
/// `new` lays out), refused calls included, the ring stays well-formed, its
/// capacity never changes, and free plus readable space is the capacity
/// after every call, with readable space between 0 and the capacity.
pub proof fn law_space_over_run(views: Seq<RingBufferView>, ps: Seq<Seq<u8>>)
    requires
        views.len() == ps.len() + 1,
        ring_wf(views[0]),
        forall|j: int| 0 <= j < ps.len() ==> #[trigger] ring_step(views[j], views[j + 1], ps[j]),
    ensures
        forall|i: int|
            0 <= i < views.len() ==> {
                &&& ring_wf(#[trigger] views[i])
                &&& views[i].capacity == views[0].capacity
                &&& spec_available(views[i]) + pending(views[i]) == views[i].capacity
                &&& 0 <= pending(views[i]) <= views[i].capacity
            },
{
    assert forall|i: int| 0 <= i < views.len() implies {
        &&& ring_wf(#[trigger] views[i])
        &&& views[i].capacity == views[0].capacity
        &&& spec_available(views[i]) + pending(views[i]) == views[i].capacity
        &&& 0 <= pending(views[i]) <= views[i].capacity
    } by {
        lemma_run_stays_wf(views, ps, i);
    }
}

/// After `i` of a run of writes from a ring with nothing pending, the
/// pending payloads are the first `i` written.
proof fn lemma_writes_queue(views: Seq<RingBufferView>, ps: Seq<Seq<u8>>, i: int)
    requires
        views.len() >= ps.len() + 1,
        views[0].msgs.len() == 0,
        forall|j: int| 0 <= j < ps.len() ==> #[trigger] wrote(views[j], views[j + 1], ps[j]),
        0 <= i <= ps.len(),
    ensures
        views[i].msgs == ps.take(i),
    decreases i,
{
    if i == 0 {
        assert(views[0].msgs =~= ps.take(0));
    } else {
        lemma_writes_queue(views, ps, i - 1);
        let j = i - 1;
        assert(wrote(views[j], views[j + 1], ps[j]));
        assert(views[i].msgs =~= ps.take(i));
    }
}

/// After `i` of a run of reads from a ring whose pending payloads are
/// `ps`, the reads returned the first `i` of them and the rest are pending.
proof fn lemma_reads_dequeue(
    views: Seq<RingBufferView>,
    ps: Seq<Seq<u8>>,
    qs: Seq<Seq<u8>>,
    k: int,
    i: int,
)
    requires
        k == ps.len(),
        k == qs.len(),
        views.len() == 2 * k + 1,
        views[k].msgs == ps,
        forall|j: int| 0 <= j < k ==> #[trigger] took(views[k + j], views[k + j + 1], qs[j]),
        0 <= i <= k,
    ensures
        views[k + i].msgs == ps.skip(i),
        forall|j: int| 0 <= j < i ==> #[trigger] qs[j] == ps[j],
    decreases i,
{
    if i == 0 {
        assert(ps.skip(0) =~= ps);
    } else {
        lemma_reads_dequeue(views, ps, qs, k, i - 1);
        assert(took(views[k + (i - 1)], views[k + (i - 1) + 1], qs[i - 1]));
        assert(views[k + i].msgs =~= ps.skip(i));
    }
}

/// First in, first out over a whole run: `k` payloads written to a ring with
/// nothing pending, then `k` reads, return the payloads in the order they
/// were written (each read taking one entry's space), and leave nothing
/// pending, so the next `read` reports the ring empty.
pub proof fn law_fifo_run(views: Seq<RingBufferView>, ps: Seq<Seq<u8>>, qs: Seq<Seq<u8>>)
    requires
        ps.len() == qs.len(),
        views.len() == 2 * ps.len() + 1,
        views[0].msgs.len() == 0,
        forall|j: int| 0 <= j < ps.len() ==> #[trigger] wrote(views[j], views[j + 1], ps[j]),
        forall|j: int| 0 <= j < ps.len() ==> #[trigger] took(views[ps.len() + j], views[ps.len() + j + 1], qs[j]),
    ensures
        qs == ps,
        views.last().msgs.len() == 0,
        forall|j: int|
            0 <= j < ps.len() ==> views[ps.len() + j + 1].tail == views[ps.len() + j].tail + entry_size(
                (#[trigger] qs[j]).len(),
            ),
{
    let k = ps.len() as int;
    lemma_writes_queue(views, ps, k);
    assert(ps.take(k) =~= ps);
    lemma_reads_dequeue(views, ps, qs, k, k);
    assert(qs =~= ps);
    assert forall|j: int| 0 <= j < k implies views[k + j + 1].tail == views[k + j].tail + entry_size(
        (#[trigger] qs[j]).len(),
    ) by {
        assert(took(views[k + j], views[k + j + 1], qs[j]));
    }
}

} // verus!
