use vstd::prelude::*;

use crate::field::{is_field, FIELD_ORDER};
use crate::generator::{
    ConstantGenerator,
    CopyGenerator,
    GeneratorKind,
    NonzeroTestGenerator,
    RandomValueGenerator,
    WitnessGeneratorRef,
};
use crate::target::{Target, Wire};
use crate::witness::WitnessError;

verus! {

/// The eight little-endian bytes of a `u64`.
pub open spec fn u64_le(x: u64) -> Seq<u8> {
    seq![
        (x & 0xff) as u8,
        ((x >> 8u64) & 0xff) as u8,
        ((x >> 16u64) & 0xff) as u8,
        ((x >> 24u64) & 0xff) as u8,
        ((x >> 32u64) & 0xff) as u8,
        ((x >> 40u64) & 0xff) as u8,
        ((x >> 48u64) & 0xff) as u8,
        ((x >> 56u64) & 0xff) as u8,
    ]
}

/// The `u64` whose little-endian bytes are `b0` to `b7`.
pub open spec fn u64_of_bytes(b0: u8, b1: u8, b2: u8, b3: u8, b4: u8, b5: u8, b6: u8, b7: u8) -> u64 {
    (b0 as u64) | ((b1 as u64) << 8u64) | ((b2 as u64) << 16u64) | ((b3 as u64) << 24u64) | ((b4 as u64)
        << 32u64) | ((b5 as u64) << 40u64) | ((b6 as u64) << 48u64) | ((b7 as u64) << 56u64)
}

/// The `u64` stored little-endian at position `i` of `s`.
pub open spec fn le_u64(s: Seq<u8>, i: int) -> u64 {
    u64_of_bytes(s[i], s[i + 1], s[i + 2], s[i + 3], s[i + 4], s[i + 5], s[i + 6], s[i + 7])
}

/// The bytes of a target: a flag that is 1 for a wire, then its row and column, or 0 for a
/// virtual target, then its index; each number as a little-endian `u64`.
pub open spec fn target_bytes(t: Target) -> Seq<u8> {
    match t {
        Target::Wire(w) => seq![1u8] + u64_le(w.row as u64) + u64_le(w.column as u64),
        Target::VirtualTarget { index } => seq![0u8] + u64_le(index as u64),
    }
}

/// Reads a `usize` stored as a `u64` at `i`: `None` when the bytes run out or the value does not
/// fit.
pub open spec fn decode_usize(s: Seq<u8>, i: int) -> Option<usize> {
    if 0 <= i && i + 8 <= s.len() && le_u64(s, i) <= usize::MAX {
        Some(le_u64(s, i) as usize)
    } else {
        None
    }
}

/// Reads a target at `i`, with the position just past it.
pub open spec fn decode_target(s: Seq<u8>, i: int) -> Option<(Target, int)> {
    if 0 <= i < s.len() && s[i] == 1 {
        match (decode_usize(s, i + 1), decode_usize(s, i + 9)) {
            (Some(row), Some(column)) => Some((Target::Wire(Wire { row, column }), i + 17)),
            _ => None,
        }
    } else if 0 <= i < s.len() && s[i] == 0 {
        match decode_usize(s, i + 1) {
            Some(index) => Some((Target::VirtualTarget { index }, i + 9)),
            None => None,
        }
    } else {
        None
    }
}

/// The bytes of a generator: a tag naming its kind, then its fields in declaration order.
pub open spec fn generator_bytes(g: GeneratorKind) -> Seq<u8> {
    match g {
        GeneratorKind::Copy(c) => seq![0u8] + target_bytes(c.src) + target_bytes(c.dst),
        GeneratorKind::RandomValue(r) => seq![1u8] + target_bytes(r.target),
        GeneratorKind::NonzeroTest(z) => seq![2u8] + target_bytes(z.to_test) + target_bytes(z.dummy),
        GeneratorKind::Constant(k) => seq![3u8] + u64_le(k.row as u64) + u64_le(
            k.constant_index as u64,
        ) + u64_le(k.wire_index as u64) + u64_le(k.constant),
    }
}

/// Reads a generator from the start of `s`, with the position just past it.
pub open spec fn decode_generator(s: Seq<u8>) -> Result<(WitnessGeneratorRef, int), WitnessError> {
    if s.len() == 0 {
        Err(WitnessError::MalformedPayload)
    } else if s[0] == 0 {
        match decode_target(s, 1) {
            Some((src, i)) => match decode_target(s, i) {
                Some((dst, j)) => Ok((WitnessGeneratorRef(GeneratorKind::Copy(CopyGenerator { src, dst })), j)),
                None => Err(WitnessError::MalformedPayload),
            },
            None => Err(WitnessError::MalformedPayload),
        }
    } else if s[0] == 1 {
        match decode_target(s, 1) {
            Some((target, i)) => Ok(
                (WitnessGeneratorRef(GeneratorKind::RandomValue(RandomValueGenerator { target })), i),
            ),
            None => Err(WitnessError::MalformedPayload),
        }
    } else if s[0] == 2 {
        match decode_target(s, 1) {
            Some((to_test, i)) => match decode_target(s, i) {
                Some((dummy, j)) => Ok(
                    (
                        WitnessGeneratorRef(
                            GeneratorKind::NonzeroTest(NonzeroTestGenerator { to_test, dummy }),
                        ),
                        j,
                    ),
                ),
                None => Err(WitnessError::MalformedPayload),
            },
            None => Err(WitnessError::MalformedPayload),
        }
    } else if s[0] == 3 {
        match (decode_usize(s, 1), decode_usize(s, 9), decode_usize(s, 17)) {
            (Some(row), Some(constant_index), Some(wire_index)) => if s.len() >= 33 && is_field(
                le_u64(s, 25),
            ) {
                Ok(
                    (
                        WitnessGeneratorRef(
                            GeneratorKind::Constant(
                                ConstantGenerator { row, constant_index, wire_index, constant: le_u64(s, 25) },
                            ),
                        ),
                        33,
                    ),
                )
            } else {
                Err(WitnessError::MalformedPayload)
            },
            _ => Err(WitnessError::MalformedPayload),
        }
    } else {
        Err(WitnessError::UnknownGeneratorId { id: s[0] })
    }
}

/// Decoding the bytes of a `u64` gives the `u64` back.
pub proof fn lemma_u64_round_trip(x: u64)
    ensures
        u64_of_bytes(
            (x & 0xff) as u8,
            ((x >> 8u64) & 0xff) as u8,
            ((x >> 16u64) & 0xff) as u8,
            ((x >> 24u64) & 0xff) as u8,
            ((x >> 32u64) & 0xff) as u8,
            ((x >> 40u64) & 0xff) as u8,
            ((x >> 48u64) & 0xff) as u8,
            ((x >> 56u64) & 0xff) as u8,
        ) == x,
{
    assert(((x & 0xff) as u8 as u64) | ((((x >> 8u64) & 0xff) as u8 as u64) << 8u64) | ((((x
        >> 16u64) & 0xff) as u8 as u64) << 16u64) | ((((x >> 24u64) & 0xff) as u8 as u64) << 24u64)
        | ((((x >> 32u64) & 0xff) as u8 as u64) << 32u64) | ((((x >> 40u64) & 0xff) as u8 as u64)
        << 40u64) | ((((x >> 48u64) & 0xff) as u8 as u64) << 48u64) | ((((x >> 56u64) & 0xff) as u8
        as u64) << 56u64) == x) by (bit_vector);
}

/// A `u64` written at position `i` of `s` reads back.
pub proof fn lemma_le_u64_at(s: Seq<u8>, i: int, x: u64)
    requires
        0 <= i,
        i + 8 <= s.len(),
        s.subrange(i, i + 8) == u64_le(x),
    ensures
        le_u64(s, i) == x,
{
    let b = u64_le(x);
    assert(s[i] == s.subrange(i, i + 8)[0]);
    assert(s[i + 1] == s.subrange(i, i + 8)[1]);
    assert(s[i + 2] == s.subrange(i, i + 8)[2]);
    assert(s[i + 3] == s.subrange(i, i + 8)[3]);
    assert(s[i + 4] == s.subrange(i, i + 8)[4]);
    assert(s[i + 5] == s.subrange(i, i + 8)[5]);
    assert(s[i + 6] == s.subrange(i, i + 8)[6]);
    assert(s[i + 7] == s.subrange(i, i + 8)[7]);
    lemma_u64_round_trip(x);
}

/// A target written at position `i` of `s` reads back, with the position just past it.
pub proof fn lemma_target_round_trip(s: Seq<u8>, i: int, t: Target)
    requires
        0 <= i,
        i + target_bytes(t).len() <= s.len(),
        s.subrange(i, i + target_bytes(t).len()) == target_bytes(t),
    ensures
        decode_target(s, i) == Some((t, i + target_bytes(t).len())),
{
    let b = target_bytes(t);
    assert(s[i] == b[0]);
    match t {
        Target::Wire(w) => {
            assert(s.subrange(i + 1, i + 9) == b.subrange(1, 9));
            assert(b.subrange(1, 9) == u64_le(w.row as u64));
            lemma_le_u64_at(s, i + 1, w.row as u64);
            assert(s.subrange(i + 9, i + 17) == b.subrange(9, 17));
            assert(b.subrange(9, 17) == u64_le(w.column as u64));
            lemma_le_u64_at(s, i + 9, w.column as u64);
        },
        Target::VirtualTarget { index } => {
            assert(s.subrange(i + 1, i + 9) == b.subrange(1, 9));
            assert(b.subrange(1, 9) == u64_le(index as u64));
            lemma_le_u64_at(s, i + 1, index as u64);
        },
    }
}

#[verifier::rlimit(50)]
/// Reading back the bytes of a generator gives the same generator; for a constant generator,
/// one whose constant is a field element.
pub proof fn lemma_generator_round_trip(g: WitnessGeneratorRef)
    requires
        g.0 is Constant ==> is_field(g.0->Constant_0.constant),
    ensures
        decode_generator(generator_bytes(g.0)) == Ok::<(WitnessGeneratorRef, int), WitnessError>(
            (g, generator_bytes(g.0).len() as int),
        ),
{
    let s = generator_bytes(g.0);
    match g.0 {
        GeneratorKind::Copy(c) => {
            let a = target_bytes(c.src);
            let la: int = a.len() as int;
            assert(s.subrange(1, 1 + la) == a);
            lemma_target_round_trip(s, 1, c.src);
            let b = target_bytes(c.dst);
            let lb: int = b.len() as int;
            assert(s.subrange(1 + la, 1 + la + lb) == b);
            lemma_target_round_trip(s, 1 + la, c.dst);
        },
        GeneratorKind::RandomValue(r) => {
            let a = target_bytes(r.target);
            let la: int = a.len() as int;
            assert(s.subrange(1, 1 + la) == a);
            lemma_target_round_trip(s, 1, r.target);
        },
        GeneratorKind::NonzeroTest(z) => {
            let a = target_bytes(z.to_test);
            let la: int = a.len() as int;
            assert(s.subrange(1, 1 + la) == a);
            lemma_target_round_trip(s, 1, z.to_test);
            let b = target_bytes(z.dummy);
            let lb: int = b.len() as int;
            assert(s.subrange(1 + la, 1 + la + lb) == b);
            lemma_target_round_trip(s, 1 + la, z.dummy);
        },
        GeneratorKind::Constant(k) => {
            assert(s.subrange(1, 9) == u64_le(k.row as u64));
            lemma_le_u64_at(s, 1, k.row as u64);
            assert(s.subrange(9, 17) == u64_le(k.constant_index as u64));
            lemma_le_u64_at(s, 9, k.constant_index as u64);
            assert(s.subrange(17, 25) == u64_le(k.wire_index as u64));
            lemma_le_u64_at(s, 17, k.wire_index as u64);
            assert(s.subrange(25, 33) == u64_le(k.constant));
            lemma_le_u64_at(s, 25, k.constant);
        },
    }
}

/// Generators compare by their bytes: two well-formed generators have the same bytes exactly when
/// they are equal.
pub proof fn lemma_bytes_determine_generator(a: WitnessGeneratorRef, b: WitnessGeneratorRef)
    requires
        a.0 is Constant ==> is_field(a.0->Constant_0.constant),
        b.0 is Constant ==> is_field(b.0->Constant_0.constant),
    ensures
        (generator_bytes(a.0) == generator_bytes(b.0)) <==> a == b,
{
    lemma_generator_round_trip(a);
    lemma_generator_round_trip(b);
}

/// Appends the little-endian bytes of `x`.
pub fn write_u64(dst: &mut Vec<u8>, x: u64)
    ensures
        final(dst)@ == old(dst)@ + u64_le(x),
{
    dst.push((x & 0xff) as u8);
    dst.push(((x >> 8u64) & 0xff) as u8);
    dst.push(((x >> 16u64) & 0xff) as u8);
    dst.push(((x >> 24u64) & 0xff) as u8);
    dst.push(((x >> 32u64) & 0xff) as u8);
    dst.push(((x >> 40u64) & 0xff) as u8);
    dst.push(((x >> 48u64) & 0xff) as u8);
    dst.push(((x >> 56u64) & 0xff) as u8);
    assert(final(dst)@ =~= old(dst)@ + u64_le(x));
}

pub fn write_target(dst: &mut Vec<u8>, t: Target)
    ensures
        final(dst)@ == old(dst)@ + target_bytes(t),
{
    let ghost start = dst@;
    match t {
        Target::Wire(w) => {
            dst.push(1u8);
            write_u64(dst, w.row as u64);
            write_u64(dst, w.column as u64);
            assert(dst@ =~= start + target_bytes(t));
        },
        Target::VirtualTarget { index } => {
            dst.push(0u8);
            write_u64(dst, index as u64);
            assert(dst@ =~= start + target_bytes(t));
        },
    }
}

/// Reads the `u64` at position `i`, if eight bytes remain there.
pub fn read_u64(src: &[u8], i: usize) -> (r: Option<u64>)
    ensures
        r == if i + 8 <= src@.len() {
            Some(le_u64(src@, i as int))
        } else {
            None::<u64>
        },
{
    if i > src.len() || src.len() - i < 8 {
        return None;
    }
    Some(
        (src[i] as u64) | ((src[i + 1] as u64) << 8u64) | ((src[i + 2] as u64) << 16u64) | ((src[i
            + 3] as u64) << 24u64) | ((src[i + 4] as u64) << 32u64) | ((src[i + 5] as u64) << 40u64)
            | ((src[i + 6] as u64) << 48u64) | ((src[i + 7] as u64) << 56u64),
    )
}

pub fn read_usize(src: &[u8], i: usize) -> (r: Option<usize>)
    ensures
        r == decode_usize(src@, i as int),
{
    match read_u64(src, i) {
        Some(x) => if x <= usize::MAX as u64 {
            Some(x as usize)
        } else {
            None
        },
        None => None,
    }
}

/// Reads the target at position `i`, with the position just past it.
pub fn read_target(src: &[u8], i: usize) -> (r: Option<(Target, usize)>)
    ensures
        match r {
            Some((t, j)) => decode_target(src@, i as int) == Some((t, j as int)),
            None => decode_target(src@, i as int) is None,
        },
{
    if i >= src.len() {
        return None;
    }
    if src[i] == 1 {
        if src.len() - i < 17 {
            return None;
        }
        match (read_usize(src, i + 1), read_usize(src, i + 9)) {
            (Some(row), Some(column)) => Some((Target::Wire(Wire { row, column }), i + 17)),
            _ => None,
        }
    } else if src[i] == 0 {
        if src.len() - i < 9 {
            return None;
        }
        match read_usize(src, i + 1) {
            Some(index) => Some((Target::VirtualTarget { index }, i + 9)),
            None => None,
        }
    } else {
        None
    }
}

impl WitnessGeneratorRef {
    /// Appends the generator's bytes: its kind's tag, then its fields.
    pub fn serialize(&self, dst: &mut Vec<u8>)
        ensures
            final(dst)@ == old(dst)@ + generator_bytes(self.0),
    {
        let ghost start = dst@;
        match self.0 {
            GeneratorKind::Copy(c) => {
                dst.push(0u8);
                write_target(dst, c.src);
                write_target(dst, c.dst);
            },
            GeneratorKind::RandomValue(r) => {
                dst.push(1u8);
                write_target(dst, r.target);
            },
            GeneratorKind::NonzeroTest(z) => {
                dst.push(2u8);
                write_target(dst, z.to_test);
                write_target(dst, z.dummy);
            },
            GeneratorKind::Constant(k) => {
                dst.push(3u8);
                write_u64(dst, k.row as u64);
                write_u64(dst, k.constant_index as u64);
                write_u64(dst, k.wire_index as u64);
                write_u64(dst, k.constant);
            },
        }
        assert(dst@ =~= start + generator_bytes(self.0));
    }

    /// The generator's bytes in a new vector.
    pub fn to_bytes(&self) -> (r: Vec<u8>)
        ensures
            r@ == generator_bytes(self.0),
    {
        let mut r: Vec<u8> = Vec::new();
        self.serialize(&mut r);
        assert(r@ =~= generator_bytes(self.0));
        r
    }

    /// Reads a generator from the start of `src`, with the position just past it.
    pub fn deserialize(src: &[u8]) -> (r: Result<(WitnessGeneratorRef, usize), WitnessError>)
        ensures
            match r {
                Ok((g, j)) => decode_generator(src@) == Ok::<(WitnessGeneratorRef, int), WitnessError>(
                    (g, j as int),
                ),
                Err(e) => decode_generator(src@) == Err::<(WitnessGeneratorRef, int), WitnessError>(e),
            },
    {
        if src.len() == 0 {
            return Err(WitnessError::MalformedPayload);
        }
        let tag = src[0];
        if tag == 0 {
            match read_target(src, 1) {
                Some((src_target, i)) => match read_target(src, i) {
                    Some((dst, j)) => Ok(
                        (WitnessGeneratorRef(GeneratorKind::Copy(CopyGenerator { src: src_target, dst })), j),
                    ),
                    None => Err(WitnessError::MalformedPayload),
                },
                None => Err(WitnessError::MalformedPayload),
            }
        } else if tag == 1 {
            match read_target(src, 1) {
                Some((target, i)) => Ok(
                    (WitnessGeneratorRef(GeneratorKind::RandomValue(RandomValueGenerator { target })), i),
                ),
                None => Err(WitnessError::MalformedPayload),
            }
        } else if tag == 2 {
            match read_target(src, 1) {
                Some((to_test, i)) => match read_target(src, i) {
                    Some((dummy, j)) => Ok(
                        (
                            WitnessGeneratorRef(
                                GeneratorKind::NonzeroTest(NonzeroTestGenerator { to_test, dummy }),
                            ),
                            j,
                        ),
                    ),
                    None => Err(WitnessError::MalformedPayload),
                },
                None => Err(WitnessError::MalformedPayload),
            }
        } else if tag == 3 {
            match (read_usize(src, 1), read_usize(src, 9), read_usize(src, 17), read_u64(src, 25)) {
                (Some(row), Some(constant_index), Some(wire_index), Some(constant)) => {
                    if constant < FIELD_ORDER {
                        Ok(
                            (
                                WitnessGeneratorRef(
                                    GeneratorKind::Constant(
                                        ConstantGenerator { row, constant_index, wire_index, constant },
                                    ),
                                ),
                                33,
                            ),
                        )
                    } else {
                        Err(WitnessError::MalformedPayload)
                    }
                },
                _ => Err(WitnessError::MalformedPayload),
            }
        } else {
            Err(WitnessError::UnknownGeneratorId { id: tag })
        }
    }

    /// Two generators are equal exactly when their bytes are.
    pub fn same_bytes(&self, other: &WitnessGeneratorRef) -> (r: bool)
        ensures
            r == (generator_bytes(self.0) == generator_bytes(other.0)),
    {
        let a = self.to_bytes();
        let b = other.to_bytes();
        if a.len() != b.len() {
            assert(a@.len() != b@.len());
            return false;
        }
        let mut i: usize = 0;
        while i < a.len()
            invariant
                a@ == generator_bytes(self.0),
                b@ == generator_bytes(other.0),
                a@.len() == b@.len(),
                i <= a@.len(),
                forall|k: int| 0 <= k < i ==> a@[k] == b@[k],
            decreases a@.len() - i,
        {
            if a[i] != b[i] {
                assert(a@[i as int] != b@[i as int]);
                return false;
            }
            i = i + 1;
        }
        assert(a@ =~= b@);
        true
    }
}

} // verus!
