use vstd::prelude::*;

use ethereum_types::U256;

verus! {

/// `U256` from `ethereum-types` (built by `uint::construct_uint!`): a tuple struct whose one public
/// field holds the four little-endian 64-bit limbs.
#[verifier::external_type_specification]
pub struct ExU256(U256);

/// The number of general-purpose memory channels.
pub const NUM_GP_CHANNELS: usize = 5;

/// The number of memory channels: the code channel and the general-purpose ones.
pub const NUM_CHANNELS: usize = NUM_GP_CHANNELS + 1;

/// The number of segments in one memory context.
pub const NUM_SEGMENTS: usize = 13;

/// The 256-bit word zero.
pub open spec fn zero_word() -> U256 {
    U256([0u64, 0u64, 0u64, 0u64])
}

/// `U256::zero` builds the word whose four limbs are zero.
pub assume_specification[ U256::zero ]() -> (r: U256)
    ensures
        r == U256([0u64, 0u64, 0u64, 0u64]),
;

/// `From<u8>` for `U256` widens the byte to a `u64` and puts it in the lowest limb.
pub assume_specification[ <U256 as core::convert::From<u8>>::from ](value: u8) -> (r: U256)
    ensures
        r == U256([value as u64, 0u64, 0u64, 0u64]),
;

/// The word holding a byte, as `U256::from(u8)` builds it: the byte in the lowest limb.
pub open spec fn byte_word(b: u8) -> U256 {
    U256([b as u64, 0u64, 0u64, 0u64])
}

/// Saturating conversion of a word to `usize`: its value when it fits, `usize::MAX` otherwise.
pub open spec fn saturating_usize(w: U256) -> usize {
    if w.0[1] == 0 && w.0[2] == 0 && w.0[3] == 0 && w.0[0] <= usize::MAX as u64 {
        w.0[0] as usize
    } else {
        usize::MAX
    }
}

fn u256_saturating_cast_usize(w: U256) -> (r: usize)
    ensures
        r == saturating_usize(w),
{
    if w.0[1] == 0 && w.0[2] == 0 && w.0[3] == 0 && w.0[0] <= usize::MAX as u64 {
        w.0[0] as usize
    } else {
        usize::MAX
    }
}

/// A memory channel: the code channel or one of the general-purpose channels.
#[derive(Clone, Copy, Debug, PartialEq, Eq, Structural)]
pub enum MemoryChannel {
    Code,
    GeneralPurpose(usize),
}

impl MemoryChannel {
    /// A channel is valid when a general-purpose index is below `NUM_GP_CHANNELS`.
    pub open spec fn valid(&self) -> bool {
        match *self {
            MemoryChannel::Code => true,
            MemoryChannel::GeneralPurpose(n) => n < NUM_GP_CHANNELS,
        }
    }

    pub open spec fn index_spec(&self) -> nat {
        match *self {
            MemoryChannel::Code => 0,
            MemoryChannel::GeneralPurpose(n) => n as nat + 1,
        }
    }

    /// The channel's index: `0` for code, `k + 1` for general-purpose channel `k`.
    pub fn index(&self) -> (r: usize)
        requires
            self.valid(),
        ensures
            r == self.index_spec(),
            r < NUM_CHANNELS,
    {
        match *self {
            MemoryChannel::Code => 0,
            MemoryChannel::GeneralPurpose(n) => n + 1,
        }
    }
}

/// The segments of a memory context.
#[derive(Clone, Copy, Debug, PartialEq, Eq, Structural)]
pub enum Segment {
    Code,
    Stack,
    MainMemory,
    Calldata,
    Returndata,
    Metadata,
    KernelGeneral,
    KernelGeneral2,
    KernelAccountCode,
    TxnFields,
    TxnData,
    RlpRaw,
    TrieData,
}

impl Segment {
    pub open spec fn index_spec(&self) -> nat {
        match *self {
            Segment::Code => 0,
            Segment::Stack => 1,
            Segment::MainMemory => 2,
            Segment::Calldata => 3,
            Segment::Returndata => 4,
            Segment::Metadata => 5,
            Segment::KernelGeneral => 6,
            Segment::KernelGeneral2 => 7,
            Segment::KernelAccountCode => 8,
            Segment::TxnFields => 9,
            Segment::TxnData => 10,
            Segment::RlpRaw => 11,
            Segment::TrieData => 12,
        }
    }

    /// The segment's position within a context.
    pub fn index(&self) -> (r: usize)
        ensures
            r == self.index_spec(),
            r < NUM_SEGMENTS,
    {
        match *self {
            Segment::Code => 0,
            Segment::Stack => 1,
            Segment::MainMemory => 2,
            Segment::Calldata => 3,
            Segment::Returndata => 4,
            Segment::Metadata => 5,
            Segment::KernelGeneral => 6,
            Segment::KernelGeneral2 => 7,
            Segment::KernelAccountCode => 8,
            Segment::TxnFields => 9,
            Segment::TxnData => 10,
            Segment::RlpRaw => 11,
            Segment::TrieData => 12,
        }
    }
}

/// An address in the simulated memory: context, segment and virtual address.
#[derive(Clone, Copy, Debug, PartialEq, Eq, Hash, Structural)]
pub struct MemoryAddress {
    pub context: usize,
    pub segment: usize,
    pub virt: usize,
}

impl MemoryAddress {
    pub fn new(context: usize, segment: Segment, virt: usize) -> (r: Self)
        ensures
            r.context == context,
            r.segment == segment.index_spec(),
            r.virt == virt,
    {
        MemoryAddress { context, segment: segment.index(), virt }
    }

    /// Builds an address from three words, each cast to `usize` with saturation.
    pub fn new_u256s(context: U256, segment: U256, virt: U256) -> (r: Self)
        ensures
            r.context == saturating_usize(context),
            r.segment == saturating_usize(segment),
            r.virt == saturating_usize(virt),
    {
        MemoryAddress {
            context: u256_saturating_cast_usize(context),
            segment: u256_saturating_cast_usize(segment),
            virt: u256_saturating_cast_usize(virt),
        }
    }
}

#[derive(Clone, Copy, Debug, PartialEq, Eq, Structural)]
pub enum MemoryOpKind {
    Read,
    Write,
}

/// The timestamp of an operation: `clock * NUM_CHANNELS + channel index`.
pub open spec fn timestamp_spec(clock: nat, channel: MemoryChannel) -> nat {
    clock * NUM_CHANNELS as nat + channel.index_spec()
}

/// One operation on the memory bus.
#[derive(Clone, Copy, Debug)]
pub struct MemoryOp {
    /// true if this is an actual memory operation, false if it is a padding row.
    pub filter: bool,
    pub timestamp: usize,
    pub address: MemoryAddress,
    pub kind: MemoryOpKind,
    pub value: U256,
}

impl MemoryOp {
    pub fn new(
        channel: MemoryChannel,
        clock: usize,
        address: MemoryAddress,
        kind: MemoryOpKind,
        value: U256,
    ) -> (r: Self)
        requires
            channel.valid(),
            timestamp_spec(clock as nat, channel) <= usize::MAX,
        ensures
            r.filter,
            r.timestamp == timestamp_spec(clock as nat, channel),
            r.address == address,
            r.kind == kind,
            r.value == value,
    {
        let idx = channel.index();
        proof {
            assert(clock as nat * NUM_CHANNELS as nat + idx <= usize::MAX);
        }
        let timestamp = clock * NUM_CHANNELS + idx;
        MemoryOp { filter: true, timestamp, address, kind, value }
    }
}

/// Distinct (clock, channel) pairs taken in order give strictly increasing timestamps: a later
/// clock, or the same clock on a channel of higher index, always gives a larger timestamp.
pub proof fn lemma_timestamps_increase(
    clock1: nat,
    channel1: MemoryChannel,
    clock2: nat,
    channel2: MemoryChannel,
)
    requires
        channel1.valid(),
        channel2.valid(),
        clock1 < clock2 || (clock1 == clock2 && channel1.index_spec() < channel2.index_spec()),
    ensures
        timestamp_spec(clock1, channel1) < timestamp_spec(clock2, channel2),
{
    let n = NUM_CHANNELS as nat;
    let i1 = channel1.index_spec();
    let i2 = channel2.index_spec();
    assert(i1 < n && i2 < n);
    if clock1 < clock2 {
        assert(clock1 * n + n <= clock2 * n) by (nonlinear_arith)
            requires
                clock1 < clock2,
        ;
    }
}

/// The contents of one memory segment.
#[derive(Clone, Debug)]
pub struct MemorySegmentState {
    pub content: Vec<U256>,
}

/// The value a segment holds at a virtual address: zero past its end.
pub open spec fn segment_read(content: Seq<U256>, virt: nat) -> U256 {
    if virt < content.len() {
        content[virt as int]
    } else {
        zero_word()
    }
}

/// The contents of a segment after writing `v` at `virt`: the word replaced in place, or the
/// segment padded with zeros up to `virt` and `v` appended.
pub open spec fn segment_write(content: Seq<U256>, virt: nat, v: U256) -> Seq<U256> {
    if virt < content.len() {
        content.update(virt as int, v)
    } else {
        (content + Seq::new((virt - content.len()) as nat, |i: int| zero_word())).push(v)
    }
}

impl MemorySegmentState {
    pub fn new() -> (r: Self)
        ensures
            r.content@ == Seq::<U256>::empty(),
    {
        MemorySegmentState { content: Vec::new() }
    }

    pub fn get(&self, virtual_addr: usize) -> (r: U256)
        ensures
            r == segment_read(self.content@, virtual_addr as nat),
    {
        if virtual_addr < self.content.len() {
            self.content[virtual_addr]
        } else {
            U256::zero()
        }
    }

    /// Writes `value` at `virtual_addr`, extending the segment with zeros first where needed.
    pub fn set(&mut self, virtual_addr: usize, value: U256)
        requires
            virtual_addr < usize::MAX,
        ensures
            final(self).content@ == segment_write(old(self).content@, virtual_addr as nat, value),
            forall|v: nat|
                #[trigger] segment_read(final(self).content@, v) == if v == virtual_addr {
                    value
                } else {
                    segment_read(old(self).content@, v)
                },
    {
        let ghost old_content = self.content@;
        let zero = U256::zero();
        while self.content.len() <= virtual_addr
            invariant
                virtual_addr < usize::MAX,
                zero == zero_word(),
                self.content@ == old_content + Seq::new(
                    (self.content@.len() - old_content.len()) as nat,
                    |i: int| zero_word(),
                ),
                old_content.len() <= self.content@.len(),
                self.content@.len() <= old_content.len() || self.content@.len() <= virtual_addr + 1,
                forall|v: nat| #[trigger]
                    segment_read(self.content@, v) == segment_read(old_content, v),
            decreases virtual_addr + 1 - self.content.len(),
        {
            let ghost before = self.content@;
            self.content.push(zero);
            assert(self.content@ =~= old_content + Seq::new(
                (self.content@.len() - old_content.len()) as nat,
                |i: int| zero_word(),
            ));
            assert forall|v: nat| #[trigger]
                segment_read(self.content@, v) == segment_read(old_content, v) by {
                assert(self.content@ == before.push(zero));
                if v < before.len() {
                    assert(self.content@[v as int] == before[v as int]);
                }
                assert(segment_read(self.content@, v) == segment_read(before, v));
            }
        }
        let ghost padded = self.content@;
        self.content.set(virtual_addr, value);
        assert(self.content@ =~= segment_write(old_content, virtual_addr as nat, value));
        assert forall|v: nat| #[trigger]
            segment_read(self.content@, v) == if v == virtual_addr {
                value
            } else {
                segment_read(old_content, v)
            } by {
            assert(segment_read(padded, v) == segment_read(old_content, v));
        }
    }
}

/// The segments of one memory context.
#[derive(Clone, Debug)]
pub struct MemoryContextState {
    pub segments: Vec<MemorySegmentState>,
}

impl MemoryContextState {
    pub fn new() -> (r: Self)
        ensures
            r.segments@.len() == NUM_SEGMENTS,
            forall|s: int| 0 <= s < NUM_SEGMENTS ==> #[trigger] r.segments@[s].content@.len() == 0,
    {
        let mut segments: Vec<MemorySegmentState> = Vec::new();
        while segments.len() < NUM_SEGMENTS
            invariant
                segments@.len() <= NUM_SEGMENTS,
                forall|s: int| 0 <= s < segments@.len() ==> #[trigger] segments@[s].content@.len() == 0,
            decreases NUM_SEGMENTS - segments.len(),
        {
            let ghost before = segments@;
            let seg = MemorySegmentState::new();
            segments.push(seg);
            assert forall|s: int| 0 <= s < segments@.len() implies #[trigger] segments@[s].content@.len() == 0 by {
                if s < before.len() {
                    assert(segments@[s] == before[s]);
                }
            }
        }
        MemoryContextState { segments }
    }
}

/// The value at `a` after the writes among `ops`, in order, over a memory that held `init` there:
/// the value of the last write to `a`, or `init` where none writes it.
pub open spec fn last_write(ops: Seq<MemoryOp>, a: MemoryAddress, init: U256) -> U256
    decreases ops.len(),
{
    if ops.len() == 0 {
        init
    } else {
        let op = ops.last();
        if op.kind == MemoryOpKind::Write && op.address == a {
            op.value
        } else {
            last_write(ops.drop_last(), a, init)
        }
    }
}

/// Memory contents after writing `v` at `a`: only the addressed segment changes.
pub open spec fn memory_write(m: Seq<Seq<Seq<U256>>>, a: MemoryAddress, v: U256) -> Seq<Seq<Seq<U256>>> {
    m.update(
        a.context as int,
        m[a.context as int].update(
            a.segment as int,
            segment_write(m[a.context as int][a.segment as int], a.virt as nat, v),
        ),
    )
}

/// Memory contents after replaying `ops` in order: writes store their value, reads do nothing.
pub open spec fn replay(m: Seq<Seq<Seq<U256>>>, ops: Seq<MemoryOp>) -> Seq<Seq<Seq<U256>>>
    decreases ops.len(),
{
    if ops.len() == 0 {
        m
    } else {
        let before = replay(m, ops.drop_last());
        if ops.last().kind == MemoryOpKind::Write {
            memory_write(before, ops.last().address, ops.last().value)
        } else {
            before
        }
    }
}

/// The length of segment `(c, s)` after the writes among `ops`, from length `len`.
pub open spec fn replayed_len(len: nat, ops: Seq<MemoryOp>, c: int, s: int) -> nat
    decreases ops.len(),
{
    if ops.len() == 0 {
        len
    } else {
        let l = replayed_len(len, ops.drop_last(), c, s);
        let op = ops.last();
        if op.kind == MemoryOpKind::Write && op.address.context == c && op.address.segment == s {
            if op.address.virt + 1 > l {
                (op.address.virt + 1) as nat
            } else {
                l
            }
        } else {
            l
        }
    }
}

/// Contents with the shape of a memory: every context holds `NUM_SEGMENTS` segments.
pub open spec fn memory_shaped(m: Seq<Seq<Seq<U256>>>) -> bool {
    forall|c: int| 0 <= c < m.len() ==> (#[trigger] m[c]).len() == NUM_SEGMENTS
}

/// Every write among `ops` names a context and segment of `m`.
pub open spec fn writes_in(m: Seq<Seq<Seq<U256>>>, ops: Seq<MemoryOp>) -> bool {
    forall|k: int|
        0 <= k < ops.len() && (#[trigger] ops[k]).kind == MemoryOpKind::Write ==> ops[k].address.context
            < m.len() && ops[k].address.segment < NUM_SEGMENTS
}

proof fn lemma_segment_write(content: Seq<U256>, virt: nat, v: U256)
    ensures
        segment_write(content, virt, v).len() == if virt + 1 > content.len() {
            (virt + 1) as nat
        } else {
            content.len()
        },
        forall|x: nat|
            #[trigger] segment_read(segment_write(content, virt, v), x) == if x == virt {
                v
            } else {
                segment_read(content, x)
            },
{
    let w = segment_write(content, virt, v);
    assert forall|x: nat| #[trigger] segment_read(w, x) == if x == virt {
        v
    } else {
        segment_read(content, x)
    } by {
        if virt >= content.len() && x < w.len() && x != virt && x >= content.len() {
            assert(w[x as int] == zero_word());
        }
    }
}

/// Replaying keeps the shape, fixes each segment's length, and each word is the last write
/// to it or what was there before.
proof fn lemma_replay_segments(m: Seq<Seq<Seq<U256>>>, ops: Seq<MemoryOp>)
    requires
        memory_shaped(m),
        writes_in(m, ops),
    ensures
        replay(m, ops).len() == m.len(),
        memory_shaped(replay(m, ops)),
        forall|c: int, s: int|
            0 <= c < m.len() && 0 <= s < NUM_SEGMENTS ==> (#[trigger] replay(m, ops)[c][s]).len()
                == replayed_len(m[c][s].len(), ops, c, s),
        forall|c: usize, s: usize, x: usize|
            c < m.len() && s < NUM_SEGMENTS ==> #[trigger] segment_read(replay(m, ops)[c as int][s as int], x as nat)
                == last_write(
                ops,
                MemoryAddress { context: c, segment: s, virt: x },
                segment_read(m[c as int][s as int], x as nat),
            ),
    decreases ops.len(),
{
    if ops.len() > 0 {
        let prev = ops.drop_last();
        assert forall|k: int|
            0 <= k < prev.len() && (#[trigger] prev[k]).kind == MemoryOpKind::Write implies prev[k].address.context
                < m.len() && prev[k].address.segment < NUM_SEGMENTS by {
            assert(prev[k] == ops[k]);
        }
        lemma_replay_segments(m, prev);
        let p = replay(m, prev);
        let op = ops.last();
        assert(ops[ops.len() - 1] == op);
        if op.kind == MemoryOpKind::Write {
            let a = op.address;
            lemma_segment_write(p[a.context as int][a.segment as int], a.virt as nat, op.value);
            let r = replay(m, ops);
            assert(r == memory_write(p, a, op.value));
            assert forall|c: int| 0 <= c < r.len() implies (#[trigger] r[c]).len() == NUM_SEGMENTS by {
                assert(p[c].len() == NUM_SEGMENTS);
            }
            assert forall|c: int, s: int|
                0 <= c < m.len() && 0 <= s < NUM_SEGMENTS implies (#[trigger] r[c][s]).len()
                    == replayed_len(m[c][s].len(), ops, c, s) by {
                assert(p[c].len() == NUM_SEGMENTS);
            }
            assert forall|c: usize, s: usize, x: usize|
                c < m.len() && s < NUM_SEGMENTS implies #[trigger] segment_read(r[c as int][s as int], x as nat)
                    == last_write(
                    ops,
                    MemoryAddress { context: c, segment: s, virt: x },
                    segment_read(m[c as int][s as int], x as nat),
                ) by {
                assert(p[c as int].len() == NUM_SEGMENTS);
                let b = MemoryAddress { context: c, segment: s, virt: x };
                assert(segment_read(p[c as int][s as int], x as nat) == last_write(prev, b, segment_read(m[c as int][s as int], x as nat)));
            }
        }
    }
}

proof fn lemma_replayed_len_bound(len: nat, ops: Seq<MemoryOp>, c: int, s: int)
    ensures
        replayed_len(len, ops, c, s) >= len,
        forall|k: int|
            0 <= k < ops.len() && (#[trigger] ops[k]).kind == MemoryOpKind::Write && ops[k].address.context
                == c && ops[k].address.segment == s ==> replayed_len(len, ops, c, s) >= ops[k].address.virt + 1,
    decreases ops.len(),
{
    if ops.len() > 0 {
        lemma_replayed_len_bound(len, ops.drop_last(), c, s);
        assert forall|k: int|
            0 <= k < ops.len() - 1 implies #[trigger] ops[k] == ops.drop_last()[k] by {}
    }
}

proof fn lemma_replayed_len_fixed(len: nat, ops: Seq<MemoryOp>, c: int, s: int)
    requires
        forall|k: int|
            0 <= k < ops.len() && (#[trigger] ops[k]).kind == MemoryOpKind::Write && ops[k].address.context
                == c && ops[k].address.segment == s ==> len >= ops[k].address.virt + 1,
    ensures
        replayed_len(len, ops, c, s) == len,
    decreases ops.len(),
{
    if ops.len() > 0 {
        assert forall|k: int|
            0 <= k < ops.len() - 1 && (#[trigger] ops.drop_last()[k]).kind == MemoryOpKind::Write
                && ops.drop_last()[k].address.context == c && ops.drop_last()[k].address.segment == s implies len
                >= ops.drop_last()[k].address.virt + 1 by {
            assert(ops.drop_last()[k] == ops[k]);
        }
        lemma_replayed_len_fixed(len, ops.drop_last(), c, s);
        assert(ops[ops.len() - 1] == ops.last());
    }
}

proof fn lemma_last_write_absorbs(ops: Seq<MemoryOp>, a: MemoryAddress, x: U256)
    ensures
        last_write(ops, a, last_write(ops, a, x)) == last_write(ops, a, x),
    decreases ops.len(),
{
    if ops.len() > 0 {
        lemma_last_write_absorbs(ops.drop_last(), a, x);
        lemma_last_write_init(ops.drop_last(), a, x, last_write(ops, a, x));
    }
}

/// Without a write to `a` the result is the initial value; with one, it does not depend on it.
proof fn lemma_last_write_init(ops: Seq<MemoryOp>, a: MemoryAddress, x: U256, y: U256)
    ensures
        last_write(ops, a, x) == x && last_write(ops, a, y) == y || last_write(ops, a, x) == last_write(
            ops,
            a,
            y,
        ),
    decreases ops.len(),
{
    if ops.len() > 0 {
        lemma_last_write_init(ops.drop_last(), a, x, y);
    }
}

/// Replaying the same operations a second time leaves the memory contents as they are.
pub proof fn lemma_replay_twice(m: Seq<Seq<Seq<U256>>>, ops: Seq<MemoryOp>)
    requires
        memory_shaped(m),
        writes_in(m, ops),
        m.len() <= usize::MAX,
        forall|c: int, s: int|
            0 <= c < m.len() && 0 <= s < NUM_SEGMENTS ==> (#[trigger] m[c][s]).len() <= usize::MAX,
        forall|k: int|
            0 <= k < ops.len() && (#[trigger] ops[k]).kind == MemoryOpKind::Write ==> ops[k].address.virt
                < usize::MAX,
    ensures
        replay(replay(m, ops), ops) == replay(m, ops),
{
    let r1 = replay(m, ops);
    lemma_replay_segments(m, ops);
    lemma_replay_segments(r1, ops);
    let r2 = replay(r1, ops);
    assert forall|c: int| 0 <= c < r1.len() implies #[trigger] r2[c] == r1[c] by {
        assert forall|s: int| 0 <= s < NUM_SEGMENTS implies #[trigger] r2[c][s] == r1[c][s] by {
            lemma_replayed_len_bound(m[c][s].len(), ops, c, s);
            lemma_replayed_len_fixed(r1[c][s].len(), ops, c, s);
            assert(r1[c][s].len() <= usize::MAX) by {
                lemma_replayed_len_le(m[c][s].len(), ops, c, s);
            }
            assert forall|x: int| 0 <= x < r1[c][s].len() implies r2[c][s][x] == r1[c][s][x] by {
                let cu = c as usize;
                let su = s as usize;
                let xu = x as usize;
                assert(cu as int == c && su as int == s && xu as int == x);
                let b = MemoryAddress { context: cu, segment: su, virt: xu };
                let x0 = segment_read(m[c][s], xu as nat);
                assert(segment_read(r1[cu as int][su as int], xu as nat) == last_write(ops, b, x0));
                assert(segment_read(r2[cu as int][su as int], xu as nat) == last_write(
                    ops,
                    b,
                    segment_read(r1[cu as int][su as int], xu as nat),
                ));
                lemma_last_write_absorbs(ops, b, x0);
                assert(segment_read(r2[c][s], x as nat) == r2[c][s][x]);
            }
            assert(r2[c][s] =~= r1[c][s]);
        }
        assert(r2[c] =~= r1[c]);
    }
    assert(r2 =~= r1);
}

proof fn lemma_replayed_len_le(len: nat, ops: Seq<MemoryOp>, c: int, s: int)
    requires
        len <= usize::MAX,
        forall|k: int|
            0 <= k < ops.len() && (#[trigger] ops[k]).kind == MemoryOpKind::Write ==> ops[k].address.virt
                < usize::MAX,
    ensures
        replayed_len(len, ops, c, s) <= usize::MAX,
    decreases ops.len(),
{
    if ops.len() > 0 {
        assert forall|k: int|
            0 <= k < ops.len() - 1 && (#[trigger] ops.drop_last()[k]).kind == MemoryOpKind::Write implies ops.drop_last()[k].address.virt
                < usize::MAX by {
            assert(ops.drop_last()[k] == ops[k]);
        }
        lemma_replayed_len_le(len, ops.drop_last(), c, s);
        assert(ops[ops.len() - 1] == ops.last());
    }
}

/// The simulated memory: a growable sequence of contexts.
#[derive(Clone, Debug)]
pub struct MemoryState {
    pub contexts: Vec<MemoryContextState>,
}

impl MemoryState {
    /// Every context has one slot per segment kind.
    pub open spec fn wf(&self) -> bool {
        forall|c: int|
            0 <= c < self.contexts@.len() ==> #[trigger] self.contexts@[c].segments@.len()
                == NUM_SEGMENTS
    }

    /// The contents of every segment of every context.
    pub open spec fn contents(&self) -> Seq<Seq<Seq<U256>>> {
        Seq::new(
            self.contexts@.len(),
            |c: int|
                Seq::new(
                    self.contexts@[c].segments@.len(),
                    |s: int| self.contexts@[c].segments@[s].content@,
                ),
        )
    }

    /// An address that names an existing context and segment.
    pub open spec fn valid_address(&self, a: MemoryAddress) -> bool {
        a.context < self.contexts@.len() && a.segment < NUM_SEGMENTS
    }

    /// What the memory holds at a valid address.
    pub open spec fn read(&self, a: MemoryAddress) -> U256 {
        segment_read(self.contexts@[a.context as int].segments@[a.segment as int].content@, a.virt as nat)
    }

    /// A memory of one context, context 0, whose code segment holds `kernel_code`, one byte per
    /// word.
    pub fn new(kernel_code: &[u8]) -> (r: Self)
        ensures
            r.wf(),
            r.contexts@.len() == 1,
            forall|a: MemoryAddress|
                r.valid_address(a) ==> #[trigger] r.read(a) == if a.segment == 0 && a.virt
                    < kernel_code@.len() {
                    byte_word(kernel_code@[a.virt as int])
                } else {
                    zero_word()
                },
            r.contexts@[0].segments@[0].content@ == kernel_code@.map_values(|b: u8| byte_word(b)),
            forall|s: int|
                1 <= s < NUM_SEGMENTS ==> (#[trigger] r.contexts@[0].segments@[s]).content@.len() == 0,
    {
        let mut code_u256s: Vec<U256> = Vec::new();
        let mut i: usize = 0;
        while i < kernel_code.len()
            invariant
                i <= kernel_code@.len(),
                code_u256s@.len() == i,
                forall|j: int| 0 <= j < i ==> #[trigger] code_u256s@[j] == byte_word(kernel_code@[j]),
            decreases kernel_code@.len() - i,
        {
            code_u256s.push(U256::from(kernel_code[i]));
            i = i + 1;
        }
        assert(code_u256s@ =~= kernel_code@.map_values(|b: u8| byte_word(b)));
        let ghost code = code_u256s@;
        let mut context = MemoryContextState::new();
        let ghost fresh = context;
        context.segments.set(0, MemorySegmentState { content: code_u256s });
        let mut contexts: Vec<MemoryContextState> = Vec::new();
        contexts.push(context);
        let r = MemoryState { contexts };
        assert forall|a: MemoryAddress| r.valid_address(a) implies #[trigger] r.read(a) == if a.segment
            == 0 && a.virt < kernel_code@.len() {
            byte_word(kernel_code@[a.virt as int])
        } else {
            zero_word()
        } by {
            assert(r.contexts@[a.context as int] == context);
            assert(code.len() == kernel_code@.len());
            assert(context.segments@[0].content@ == code);
            if a.segment != 0 {
                assert(context.segments@[a.segment as int] == fresh.segments@[a.segment as int]);
                assert(fresh.segments@[a.segment as int].content@.len() == 0);
            } else if a.virt < kernel_code@.len() {
                assert(context.segments@[0].content@ == code);
                assert(code[a.virt as int] == byte_word(kernel_code@[a.virt as int]));
            }
        }
        assert forall|s: int| 1 <= s < NUM_SEGMENTS implies (#[trigger] r.contexts@[0].segments@[s]).content@.len() == 0 by {
            assert(r.contexts@[0] == context);
            assert(context.segments@[s] == fresh.segments@[s]);
        }
        assert(r.contexts@[0] == context);
        r
    }

    /// Replays `ops` in order: each write stores its value, reads leave the memory as it is.
    pub fn apply_ops(&mut self, ops: &[MemoryOp])
        requires
            old(self).wf(),
            forall|k: int|
                0 <= k < ops@.len() && (#[trigger] ops@[k]).kind == MemoryOpKind::Write
                    ==> old(self).valid_address(ops@[k].address) && ops@[k].address.virt
                    < usize::MAX,
        ensures
            final(self).wf(),
            final(self).contexts@.len() == old(self).contexts@.len(),
            (forall|k: int| 0 <= k < ops@.len() ==> (#[trigger] ops@[k]).kind != MemoryOpKind::Write)
                ==> *final(self) == *old(self),
            final(self).contents() == replay(old(self).contents(), ops@),
            forall|a: MemoryAddress|
                old(self).valid_address(a) ==> #[trigger] final(self).read(a) == last_write(
                    ops@,
                    a,
                    old(self).read(a),
                ),
    {
        let ghost init = *self;
        let mut i: usize = 0;
        while i < ops.len()
            invariant
                i <= ops@.len(),
                self.wf(),
                self.contexts@.len() == init.contexts@.len(),
                (forall|k: int| 0 <= k < ops@.len() ==> (#[trigger] ops@[k]).kind != MemoryOpKind::Write)
                    ==> *self == init,
                self.contents() == replay(init.contents(), ops@.subrange(0, i as int)),
                forall|k: int|
                    0 <= k < ops@.len() && (#[trigger] ops@[k]).kind == MemoryOpKind::Write
                        ==> init.valid_address(ops@[k].address) && ops@[k].address.virt
                        < usize::MAX,
                forall|a: MemoryAddress|
                    init.valid_address(a) ==> #[trigger] self.read(a) == last_write(
                        ops@.subrange(0, i as int),
                        a,
                        init.read(a),
                    ),
            decreases ops@.len() - i,
        {
            let op = ops[i];
            let ghost before = *self;
            if op.kind == MemoryOpKind::Write {
                self.set(op.address, op.value);
            }
            assert(ops@.subrange(0, i + 1).drop_last() == ops@.subrange(0, i as int));
            assert(ops@.subrange(0, i + 1).last() == op);
            assert forall|a: MemoryAddress| init.valid_address(a) implies #[trigger] self.read(a)
                == last_write(ops@.subrange(0, i + 1), a, init.read(a)) by {
                assert(ops@.subrange(0, i + 1).drop_last() == ops@.subrange(0, i as int));
                assert(before.read(a) == last_write(ops@.subrange(0, i as int), a, init.read(a)));
            }
            i = i + 1;
        }
        assert(ops@.subrange(0, ops@.len() as int) == ops@);
    }

    pub fn get(&self, address: MemoryAddress) -> (r: U256)
        requires
            self.wf(),
            self.valid_address(address),
        ensures
            r == self.read(address),
    {
        self.contexts[address.context].segments[address.segment].get(address.virt)
    }

    /// Stores `val` at `address`; every other address keeps its value.
    pub fn set(&mut self, address: MemoryAddress, val: U256)
        requires
            old(self).wf(),
            old(self).valid_address(address),
            address.virt < usize::MAX,
        ensures
            final(self).wf(),
            final(self).contexts@.len() == old(self).contexts@.len(),
            final(self).contents() == memory_write(old(self).contents(), address, val),
            forall|a: MemoryAddress|
                old(self).valid_address(a) ==> #[trigger] final(self).read(a) == if a == address {
                    val
                } else {
                    old(self).read(a)
                },
    {
        let ghost before = *self;
        self.contexts[address.context].segments[address.segment].set(address.virt, val);
        assert(self.contents() =~~= memory_write(before.contents(), address, val));
        assert forall|a: MemoryAddress| before.valid_address(a) implies #[trigger] self.read(a)
            == if a == address {
            val
        } else {
            before.read(a)
        } by {
            if a.context == address.context && a.segment == address.segment {
                let seg = self.contexts@[a.context as int].segments@[a.segment as int];
                assert(segment_read(seg.content@, a.virt as nat) == if a.virt == address.virt {
                    val
                } else {
                    before.read(a)
                });
            }
        }
    }
}

impl Default for MemoryState {
    /// A memory with one empty context.
    fn default() -> (r: Self)
        ensures
            r.wf(),
            r.contexts@.len() == 1,
            forall|a: MemoryAddress| r.valid_address(a) ==> #[trigger] r.read(a) == zero_word(),
            forall|s: int|
                0 <= s < NUM_SEGMENTS ==> (#[trigger] r.contexts@[0].segments@[s]).content@.len() == 0,
    {
        let mut contexts: Vec<MemoryContextState> = Vec::new();
        let context = MemoryContextState::new();
        contexts.push(context);
        let r = MemoryState { contexts };
        assert(r.contexts@[0] == context);
        assert forall|a: MemoryAddress| r.valid_address(a) implies #[trigger] r.read(a) == zero_word() by {
            assert(r.contexts@[a.context as int] == context);
            assert(context.segments@[a.segment as int].content@.len() == 0);
        }
        r
    }
}

} // verus!
