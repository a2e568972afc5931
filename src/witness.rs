use vstd::prelude::*;

use crate::field::is_field;
use crate::target::{ExtensionTarget, Target, Wire};

verus! {

/// What can go wrong while generating a witness or reading a generator back.
#[derive(Clone, Debug, PartialEq, Eq)]
pub enum WitnessError {
    /// A target's representative already held `existing` when `attempted` was written to it.
    Inconsistent { target: Target, existing: u64, attempted: u64 },
    /// The fixed point was reached with these generators still unfinished.
    GeneratorsStalled { unfinished_ids: Vec<String> },
    /// A serialized generator's tag named no known generator.
    UnknownGeneratorId { id: u8 },
    /// A serialized generator ended before all of its fields were read.
    MalformedPayload,
}

/// A representative map: every entry is in range and maps to a fixed point of the map.
pub open spec fn valid_rep_map(rep: Seq<usize>) -> bool {
    forall|i: int|
        0 <= i < rep.len() ==> (#[trigger] rep[i]) < rep.len() && rep[rep[i] as int] == rep[i]
}

/// `after` keeps every value that `before` held.
pub open spec fn extends(before: Seq<Option<u64>>, after: Seq<Option<u64>>) -> bool {
    &&& after.len() == before.len()
    &&& forall|i: int| 0 <= i < before.len() && (#[trigger] before[i]) is Some ==> after[i] == before[i]
}

/// The witness under the copy-constraint partition: one optional value per representative.
#[derive(Debug)]
pub struct PartitionWitness {
    pub values: Vec<Option<u64>>,
    pub representative_map: Vec<usize>,
    pub num_wires: usize,
    pub degree: usize,
}

impl PartitionWitness {
    pub open spec fn wf(&self) -> bool {
        &&& self.values@.len() == self.representative_map@.len()
        &&& valid_rep_map(self.representative_map@)
        &&& (self.degree as nat) * (self.num_wires as nat) <= usize::MAX
        &&& forall|i: int|
            0 <= i < self.values@.len() && (#[trigger] self.values@[i]) is Some ==> is_field(
                self.values@[i]->0,
            )
    }

    pub open spec fn idx(&self, t: Target) -> nat {
        t.index_spec(self.num_wires as nat, self.degree as nat)
    }

    /// A target that has a cell in this witness.
    pub open spec fn valid_target(&self, t: Target) -> bool {
        self.idx(t) < self.values@.len()
    }

    /// The representative of a valid target.
    pub open spec fn rep(&self, t: Target) -> int {
        self.representative_map@[self.idx(t) as int] as int
    }

    /// What the witness holds for a target: the value stored at its representative.
    pub open spec fn read(&self, t: Target) -> Option<u64> {
        self.values@[self.rep(t)]
    }

    pub open spec fn populated(&self, t: Target) -> bool {
        self.read(t) is Some
    }

    /// The value of a populated target.
    pub open spec fn value(&self, t: Target) -> u64 {
        self.read(t)->0
    }

    /// A witness with every cell absent.
    pub fn new(num_wires: usize, degree: usize, representative_map: Vec<usize>) -> (r: Self)
        requires
            valid_rep_map(representative_map@),
            (degree as nat) * (num_wires as nat) <= usize::MAX,
        ensures
            r.wf(),
            r.num_wires == num_wires,
            r.degree == degree,
            r.representative_map@ == representative_map@,
            r.values@ == Seq::new(representative_map@.len(), |i: int| None::<u64>),
    {
        let n = representative_map.len();
        let mut values: Vec<Option<u64>> = Vec::with_capacity(n);
        while values.len() < n
            invariant
                n == representative_map@.len(),
                values@.len() <= n,
                forall|i: int| 0 <= i < values@.len() ==> (#[trigger] values@[i]) is None,
            decreases n - values.len(),
        {
            values.push(None);
        }
        let r = PartitionWitness { values, representative_map, num_wires, degree };
        assert(r.values@ == Seq::new(n as nat, |i: int| None::<u64>));
        r
    }

    /// The position of the representative of a target.
    pub fn rep_index(&self, target: Target) -> (r: usize)
        requires
            self.wf(),
            self.valid_target(target),
        ensures
            r == self.rep(target),
            r < self.values@.len(),
    {
        let n = self.values.len();
        assert(self.idx(target) < n);
        let i = target.index(self.num_wires, self.degree);
        self.representative_map[i]
    }

    /// The value of a target, or `None` while its representative is absent.
    pub fn try_get(&self, target: Target) -> (r: Option<u64>)
        requires
            self.wf(),
            self.valid_target(target),
        ensures
            r == self.read(target),
    {
        self.values[self.rep_index(target)]
    }

    /// The value of a populated target.
    pub fn get(&self, target: Target) -> (r: u64)
        requires
            self.wf(),
            self.valid_target(target),
            self.populated(target),
        ensures
            r == self.value(target),
            is_field(r),
    {
        match self.try_get(target) {
            Some(v) => v,
            None => 0,
        }
    }

    pub fn contains(&self, target: Target) -> (r: bool)
        requires
            self.wf(),
            self.valid_target(target),
        ensures
            r == self.populated(target),
    {
        self.try_get(target).is_some()
    }

    pub fn contains_all(&self, targets: &[Target]) -> (r: bool)
        requires
            self.wf(),
            forall|k: int| 0 <= k < targets@.len() ==> self.valid_target(#[trigger] targets@[k]),
        ensures
            r == forall|k: int| 0 <= k < targets@.len() ==> self.populated(#[trigger] targets@[k]),
    {
        let mut i: usize = 0;
        while i < targets.len()
            invariant
                i <= targets@.len(),
                self.wf(),
                forall|k: int| 0 <= k < targets@.len() ==> self.valid_target(#[trigger] targets@[k]),
                forall|k: int| 0 <= k < i ==> self.populated(#[trigger] targets@[k]),
            decreases targets@.len() - i,
        {
            if !self.contains(targets[i]) {
                return false;
            }
            i = i + 1;
        }
        true
    }

    /// Writes `value` to the representative of `target`. Returns `Some(rep)` when the
    /// representative was absent, `None` when it already held `value`, and an `Inconsistent`
    /// error, leaving the witness as it was, when it held another value.
    pub fn set_target_returning_rep(&mut self, target: Target, value: u64) -> (r: Result<
        Option<usize>,
        WitnessError,
    >)
        requires
            old(self).wf(),
            old(self).valid_target(target),
            is_field(value),
        ensures
            final(self).wf(),
            final(self).representative_map@ == old(self).representative_map@,
            final(self).num_wires == old(self).num_wires,
            final(self).degree == old(self).degree,
            extends(old(self).values@, final(self).values@),
            match old(self).read(target) {
                None => r == Ok::<Option<usize>, WitnessError>(Some(old(self).rep(target) as usize))
                    && final(self).values@ == old(self).values@.update(
                    old(self).rep(target),
                    Some(value),
                ),
                Some(existing) => final(self).values@ == old(self).values@ && if existing == value {
                    r == Ok::<Option<usize>, WitnessError>(None)
                } else {
                    r == Err::<Option<usize>, WitnessError>(
                        WitnessError::Inconsistent { target, existing, attempted: value },
                    )
                },
            },
    {
        let rep = self.rep_index(target);
        match self.values[rep] {
            None => {
                self.values.set(rep, Some(value));
                Ok(Some(rep))
            },
            Some(existing) => {
                if existing == value {
                    Ok(None)
                } else {
                    Err(WitnessError::Inconsistent { target, existing, attempted: value })
                }
            },
        }
    }

    /// Writes `value` to the representative of `target`, as `set_target_returning_rep` does.
    pub fn set_target(&mut self, target: Target, value: u64) -> (r: Result<(), WitnessError>)
        requires
            old(self).wf(),
            old(self).valid_target(target),
            is_field(value),
        ensures
            final(self).wf(),
            final(self).representative_map@ == old(self).representative_map@,
            final(self).num_wires == old(self).num_wires,
            final(self).degree == old(self).degree,
            extends(old(self).values@, final(self).values@),
            match old(self).read(target) {
                None => r is Ok && final(self).values@ == old(self).values@.update(
                    old(self).rep(target),
                    Some(value),
                ),
                Some(existing) => final(self).values@ == old(self).values@ && if existing == value {
                    r is Ok
                } else {
                    r == Err::<(), WitnessError>(
                        WitnessError::Inconsistent { target, existing, attempted: value },
                    )
                },
            },
    {
        match self.set_target_returning_rep(target, value) {
            Ok(_) => Ok(()),
            Err(e) => Err(e),
        }
    }
}

/// Every target reads the value of its representative: in the witness, a target and the target
/// at its representative's position hold the same thing.
pub proof fn lemma_representative_closure(w: PartitionWitness, t: Target, u: Target)
    requires
        w.wf(),
        w.valid_target(t),
        w.valid_target(u),
        w.idx(u) == w.rep(t),
    ensures
        w.read(t) == w.read(u),
{
    let i = w.idx(t) as int;
    assert(w.representative_map@[i] < w.representative_map@.len());
}

/// A write keeps every value the witness held: the populated cells never shrink.
pub proof fn lemma_writes_extend(before: PartitionWitness, after: PartitionWitness, t: Target, v: u64)
    requires
        before.wf(),
        before.valid_target(t),
        before.read(t) is None ==> after.values@ == before.values@.update(before.rep(t), Some(v)),
        before.read(t) is Some ==> after.values@ == before.values@,
    ensures
        extends(before.values@, after.values@),
{
}

/// The values emitted by one generator invocation.
#[derive(Debug)]
pub struct GeneratedValues {
    pub target_values: Vec<(Target, u64)>,
}

impl GeneratedValues {
    pub fn with_capacity(capacity: usize) -> (r: Self)
        ensures
            r.target_values@ == Seq::<(Target, u64)>::empty(),
    {
        GeneratedValues { target_values: Vec::with_capacity(capacity) }
    }

    pub fn empty() -> (r: Self)
        ensures
            r.target_values@ == Seq::<(Target, u64)>::empty(),
    {
        GeneratedValues { target_values: Vec::new() }
    }

    pub fn singleton_wire(wire: Wire, value: u64) -> (r: Self)
        ensures
            r.target_values@ == seq![(Target::Wire(wire), value)],
    {
        Self::singleton_target(Target::Wire(wire), value)
    }

    pub fn singleton_target(target: Target, value: u64) -> (r: Self)
        ensures
            r.target_values@ == seq![(target, value)],
    {
        let mut target_values: Vec<(Target, u64)> = Vec::new();
        target_values.push((target, value));
        GeneratedValues { target_values }
    }

    /// The components of an extension-field element, written to the targets of `et`.
    pub fn singleton_extension_target<const D: usize>(et: ExtensionTarget<D>, value: [u64; D]) -> (r:
        Self)
        ensures
            r.target_values@ == Seq::new(D as nat, |i: int| (et.0@[i], value@[i])),
    {
        let mut witness = Self::with_capacity(D);
        witness.set_extension_target(et, value);
        witness
    }

    pub fn set_target(&mut self, target: Target, value: u64)
        ensures
            final(self).target_values@ == old(self).target_values@.push((target, value)),
    {
        self.target_values.push((target, value));
    }

    /// Appends one entry per component of an extension-field element.
    pub fn set_extension_target<const D: usize>(&mut self, et: ExtensionTarget<D>, value: [u64; D])
        ensures
            final(self).target_values@ == old(self).target_values@ + Seq::new(
                D as nat,
                |i: int| (et.0@[i], value@[i]),
            ),
    {
        let ghost start = self.target_values@;
        let mut i: usize = 0;
        while i < D
            invariant
                i <= D,
                et.0@.len() == D,
                value@.len() == D,
                self.target_values@ == start + Seq::new(i as nat, |k: int| (et.0@[k], value@[k])),
            decreases D - i,
        {
            self.target_values.push((et.0[i], value[i]));
            i = i + 1;
            assert(self.target_values@ == start + Seq::new(i as nat, |k: int| (et.0@[k], value@[k])));
        }
    }
}

} // verus!
