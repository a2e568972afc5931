use vstd::prelude::*;

use crate::field::is_field;
use crate::generator::{xorshift, FieldRng, WitnessGeneratorRef};
use crate::target::Target;
use crate::witness::{extends, lemma_writes_extend, valid_rep_map, GeneratedValues, PartitionWitness, WitnessError};

verus! {

/// The number of generators not yet expired.
pub open spec fn count_live(expired: Seq<bool>) -> nat
    decreases expired.len(),
{
    if expired.len() == 0 {
        0
    } else {
        count_live(expired.drop_last()) + if expired.last() {
            0nat
        } else {
            1nat
        }
    }
}

proof fn lemma_expire_one(s: Seq<bool>, i: int)
    requires
        0 <= i < s.len(),
        !s[i],
    ensures
        count_live(s.update(i, true)) + 1 == count_live(s),
    decreases s.len(),
{
    let t = s.update(i, true);
    if i == s.len() - 1 {
        assert(t.drop_last() == s.drop_last());
    } else {
        assert(t.drop_last() == s.drop_last().update(i, true));
        lemma_expire_one(s.drop_last(), i);
    }
}

/// A generator whose targets all have cells in any witness of this layout.
pub open spec fn fits(g: WitnessGeneratorRef, num_wires: usize, degree: usize, num_cells: nat) -> bool {
    forall|w: PartitionWitness|
        w.num_wires == num_wires && w.degree == degree && w.values@.len() == num_cells
            ==> #[trigger] g.spec_wf(w)
}

/// One list of watching generators per witness cell, each entry a generator index.
pub open spec fn valid_watch_index(watches: Seq<Vec<usize>>, num_cells: nat, num_generators: nat) -> bool {
    &&& watches.len() == num_cells
    &&& forall|r: int, k: int|
        0 <= r < watches.len() && 0 <= k < watches[r]@.len() ==> #[trigger] watches[r]@[k]
            < num_generators
}

/// Generator `g` watches a target whose representative is `r`.
pub open spec fn watches_rep(g: WitnessGeneratorRef, w: PartitionWitness, r: int) -> bool {
    exists|k: int| 0 <= k < g.spec_watch_list().len() && w.rep(#[trigger] g.spec_watch_list()[k]) == r
}

/// Each list holds only generators watching its representative, in ascending order.
pub open spec fn watch_lists_exact(
    watches: Seq<Vec<usize>>,
    generators: Seq<WitnessGeneratorRef>,
    w: PartitionWitness,
) -> bool {
    &&& forall|r: int, k: int|
        0 <= r < watches.len() && 0 <= k < watches[r]@.len() ==> watches_rep(
            generators[#[trigger] watches[r]@[k] as int],
            w,
            r,
        )
    &&& forall|r: int, k1: int, k2: int|
        0 <= r < watches.len() && 0 <= k1 < k2 < watches[r]@.len() ==> #[trigger] watches[r]@[k1]
            <= #[trigger] watches[r]@[k2]
}

/// Builds the watch index: each generator is listed under the representative of every target it
/// watches.
pub fn build_watch_index(generators: &Vec<WitnessGeneratorRef>, witness: &PartitionWitness) -> (r: Vec<
    Vec<usize>,
>)
    requires
        witness.wf(),
        forall|i: int| 0 <= i < generators@.len() ==> (#[trigger] generators@[i]).spec_wf(*witness),
    ensures
        valid_watch_index(r@, witness.values@.len(), generators@.len()),
        watch_index_complete(
            r@,
            generators@,
            witness.representative_map@,
            witness.num_wires,
            witness.degree,
        ),
        forall|i: int, k: int|
            0 <= i < generators@.len() && 0 <= k < generators@[i].spec_watch_list().len()
                ==> r@[witness.rep(#[trigger] generators@[i].spec_watch_list()[k])]@.contains(i as usize),
        watch_lists_exact(r@, generators@, *witness),
{
    let n = witness.values.len();
    let mut watches: Vec<Vec<usize>> = Vec::new();
    while watches.len() < n
        invariant
            n == witness.values@.len(),
            watches@.len() <= n,
            forall|r: int| 0 <= r < watches@.len() ==> (#[trigger] watches@[r])@.len() == 0,
        decreases n - watches.len(),
    {
        watches.push(Vec::new());
    }
    let mut i: usize = 0;
    while i < generators.len()
        invariant
            witness.wf(),
            forall|i: int| 0 <= i < generators@.len() ==> (#[trigger] generators@[i]).spec_wf(*witness),
            i <= generators@.len(),
            valid_watch_index(watches@, witness.values@.len(), i as nat),
            watch_lists_exact(watches@, generators@, *witness),
            forall|i2: int, k: int|
                0 <= i2 < i && 0 <= k < generators@[i2].spec_watch_list().len()
                    ==> watches@[witness.rep(#[trigger] generators@[i2].spec_watch_list()[k])]@.contains(i2 as usize),
        decreases generators@.len() - i,
    {
        let watch_list = generators[i].watch_list();
        let mut j: usize = 0;
        while j < watch_list.len()
            invariant
                witness.wf(),
                forall|i: int| 0 <= i < generators@.len() ==> (#[trigger] generators@[i]).spec_wf(*witness),
                i < generators@.len(),
                j <= watch_list@.len(),
                watch_list@ == generators@[i as int].spec_watch_list(),
                valid_watch_index(watches@, witness.values@.len(), i as nat + 1),
                watch_lists_exact(watches@, generators@, *witness),
                forall|i2: int, k: int|
                    0 <= i2 < i && 0 <= k < generators@[i2].spec_watch_list().len()
                        ==> watches@[witness.rep(#[trigger] generators@[i2].spec_watch_list()[k])]@.contains(i2 as usize),
                forall|k: int|
                    0 <= k < j ==> watches@[witness.rep(#[trigger] watch_list@[k])]@.contains(i),
            decreases watch_list@.len() - j,
        {
            let ghost before = watches@;
            assert(generators@[i as int].spec_wf(*witness));
            proof { crate::generator::lemma_watch_list_valid(generators@[i as int], *witness, j as int); }
            let r = witness.rep_index(watch_list[j]);
            watches[r].push(i);
            assert forall|r2: int, x: usize| 0 <= r2 < before.len() && before[r2]@.contains(x) implies
                #[trigger] watches@[r2]@.contains(x) by {
                let k2 = choose|k2: int| 0 <= k2 < before[r2]@.len() && before[r2]@[k2] == x;
                assert(watches@[r2]@[k2] == x);
            }
            assert(watches@[r as int]@[watches@[r as int]@.len() - 1] == i);
            assert(watches_rep(generators@[i as int], *witness, r as int));
            assert forall|r2: int, k: int|
                0 <= r2 < watches@.len() && 0 <= k < watches@[r2]@.len() implies watches_rep(
                    generators@[#[trigger] watches@[r2]@[k] as int],
                    *witness,
                    r2,
                ) by {
                if r2 != r || k < before[r2]@.len() {
                    assert(watches@[r2]@[k] == before[r2]@[k]);
                }
            }
            assert forall|r2: int, k1: int, k2: int|
                0 <= r2 < watches@.len() && 0 <= k1 < k2 < watches@[r2]@.len() implies #[trigger] watches@[r2]@[k1]
                    <= #[trigger] watches@[r2]@[k2] by {
                assert(watches@[r2]@[k1] == before[r2]@[k1]);
                if r2 != r || k2 < before[r2]@.len() {
                    assert(watches@[r2]@[k2] == before[r2]@[k2]);
                } else {
                    assert(before[r2]@[k1] < i + 1);
                }
            }
            j = j + 1;
        }
        i = i + 1;
    }
    watches
}

/// Every generator is listed under the representative of each target it watches.
pub open spec fn watch_index_complete(
    watches: Seq<Vec<usize>>,
    generators: Seq<WitnessGeneratorRef>,
    representative_map: Seq<usize>,
    num_wires: usize,
    degree: usize,
) -> bool {
    forall|i: int, k: int|
        0 <= i < generators.len() && 0 <= k < generators[i].spec_watch_list().len()
            ==> watches[representative_map[(#[trigger] generators[i].spec_watch_list()[k]).index_spec(
            num_wires as nat,
            degree as nat,
        ) as int] as int]@.contains(i as usize)
}

/// Generator `i` is still to run: at position `q` or later of `pending`, or in `next`.
pub open spec fn queued(pending: Seq<usize>, q: int, next: Seq<usize>, i: int) -> bool {
    (exists|q2: int| q <= q2 < pending.len() && pending[q2] == i) || next.contains(i as usize)
}

/// Every live generator that could finish on `w` is still to run.
pub open spec fn all_queued(
    generators: Seq<WitnessGeneratorRef>,
    expired: Seq<bool>,
    w: PartitionWitness,
    pending: Seq<usize>,
    q: int,
    next: Seq<usize>,
) -> bool {
    forall|i: int|
        0 <= i < generators.len() && !expired[i] && #[trigger] generators[i].spec_finishes(w)
            ==> queued(pending, q, next, i)
}

/// The ids of the generators that cannot finish on `w`, in the order of the generators.
pub open spec fn waiting_ids(generators: Seq<WitnessGeneratorRef>, w: PartitionWitness) -> Seq<
    Seq<char>,
>
    decreases generators.len(),
{
    if generators.len() == 0 {
        Seq::empty()
    } else {
        let rest = waiting_ids(generators.drop_last(), w);
        if generators.last().spec_finishes(w) {
            rest
        } else {
            rest.push(generators.last().spec_id())
        }
    }
}

/// The text of each id.
pub open spec fn id_texts(ids: Seq<String>) -> Seq<Seq<char>> {
    ids.map_values(|s: String| s@)
}

/// Where generation stalls: a witness holding the inputs in which every generator is either
/// done or still waiting for a watched target, and `ids` lists, in order, every waiting one.
pub open spec fn stalled_at(
    inputs: Seq<(Target, u64)>,
    generators: Seq<WitnessGeneratorRef>,
    representative_map: Seq<usize>,
    num_wires: usize,
    degree: usize,
    w: PartitionWitness,
    ids: Seq<String>,
) -> bool {
    &&& w.wf()
    &&& w.representative_map@ == representative_map
    &&& w.num_wires == num_wires
    &&& w.degree == degree
    &&& forall|k: int| 0 <= k < inputs.len() ==> w.read((#[trigger] inputs[k]).0) == Some(inputs[k].1)
    &&& forall|i: int|
        0 <= i < generators.len() ==> (#[trigger] generators[i]).spec_done(w)
            || !generators[i].spec_finishes(w)
    &&& ids.len() > 0
    &&& id_texts(ids) == waiting_ids(generators, w)
}

/// `value` is written to `target` by one of the inputs.
pub open spec fn input_write(inputs: Seq<(Target, u64)>, target: Target, value: u64) -> bool {
    exists|k: int| 0 <= k < inputs.len() && #[trigger] inputs[k] == (target, value)
}

/// `value` is written to `target` by a run of one of the generators that finishes.
pub open spec fn generator_write(generators: Seq<WitnessGeneratorRef>, target: Target, value: u64) -> bool {
    exists|i: int, w: PartitionWitness, seed: u64, k: int|
        0 <= i < generators.len() && generators[i].spec_finishes(w) && 0 <= k
            < generators[i].spec_outputs(w, seed).len() && #[trigger] generators[i].spec_outputs(
            w,
            seed,
        )[k] == (target, value)
}

/// Every value the witness holds was written to its representative by an input or by a
/// finishing generator.
pub open spec fn sourced(
    inputs: Seq<(Target, u64)>,
    generators: Seq<WitnessGeneratorRef>,
    w: PartitionWitness,
) -> bool {
    forall|r: int|
        0 <= r < w.values@.len() && (#[trigger] w.values@[r]) is Some ==> exists|t: Target|
            #![trigger w.rep(t)]
            w.valid_target(t) && w.rep(t) == r && (input_write(inputs, t, w.values@[r]->0)
                || generator_write(generators, t, w.values@[r]->0))
}

/// A write of a sourced value keeps the witness sourced.
proof fn lemma_sourced_write(
    inputs: Seq<(Target, u64)>,
    generators: Seq<WitnessGeneratorRef>,
    before: PartitionWitness,
    after: PartitionWitness,
    t: Target,
    v: u64,
)
    requires
        before.wf(),
        before.valid_target(t),
        sourced(inputs, generators, before),
        input_write(inputs, t, v) || generator_write(generators, t, v),
        after.representative_map@ == before.representative_map@,
        after.num_wires == before.num_wires,
        after.degree == before.degree,
        before.read(t) is None ==> after.values@ == before.values@.update(before.rep(t), Some(v)),
        before.read(t) is Some ==> after.values@ == before.values@,
    ensures
        sourced(inputs, generators, after),
{
    assert(before.representative_map@[before.idx(t) as int] < before.representative_map@.len());
    assert forall|r: int|
        0 <= r < after.values@.len() && (#[trigger] after.values@[r]) is Some implies exists|t2: Target|
            #![trigger after.rep(t2)]
            after.valid_target(t2) && after.rep(t2) == r && (input_write(inputs, t2, after.values@[r]->0)
                || generator_write(generators, t2, after.values@[r]->0)) by {
        if before.read(t) is None && r == before.rep(t) {
            assert(after.rep(t) == r);
        } else {
            assert(after.values@[r] == before.values@[r]);
            let t0 = choose|t0: Target|
                #![trigger before.rep(t0)]
                before.valid_target(t0) && before.rep(t0) == r && (input_write(
                    inputs,
                    t0,
                    before.values@[r]->0,
                ) || generator_write(generators, t0, before.values@[r]->0));
            assert(after.rep(t0) == r);
        }
    }
}

/// The representative position of a target under a layout.
pub open spec fn rep_of(representative_map: Seq<usize>, num_wires: usize, degree: usize, t: Target) -> int {
    representative_map[t.index_spec(num_wires as nat, degree as nat) as int] as int
}

/// The inputs and the generators' outputs all have pairwise distinct representatives.
pub open spec fn single_writer(
    inputs: Seq<(Target, u64)>,
    generators: Seq<WitnessGeneratorRef>,
    representative_map: Seq<usize>,
    num_wires: usize,
    degree: usize,
) -> bool {
    &&& forall|k1: int, k2: int|
        0 <= k1 < inputs.len() && 0 <= k2 < inputs.len() && k1 != k2 ==> rep_of(
            representative_map,
            num_wires,
            degree,
            (#[trigger] inputs[k1]).0,
        ) != rep_of(representative_map, num_wires, degree, (#[trigger] inputs[k2]).0)
    &&& forall|i1: int, i2: int|
        0 <= i1 < generators.len() && 0 <= i2 < generators.len() && i1 != i2 ==> rep_of(
            representative_map,
            num_wires,
            degree,
            (#[trigger] generators[i1]).output_target(),
        ) != rep_of(representative_map, num_wires, degree, (#[trigger] generators[i2]).output_target())
    &&& forall|k: int, i: int|
        0 <= k < inputs.len() && 0 <= i < generators.len() ==> rep_of(
            representative_map,
            num_wires,
            degree,
            (#[trigger] inputs[k]).0,
        ) != rep_of(representative_map, num_wires, degree, (#[trigger] generators[i]).output_target())
}

/// Every populated representative is that of one of the first `k` inputs, of the output of an
/// expired generator other than `skip`, or, when `skip_written`, of the output of `skip`.
pub open spec fn owned(
    inputs: Seq<(Target, u64)>,
    generators: Seq<WitnessGeneratorRef>,
    representative_map: Seq<usize>,
    num_wires: usize,
    degree: usize,
    expired: Seq<bool>,
    values: Seq<Option<u64>>,
    k: int,
    skip: int,
    skip_written: bool,
) -> bool {
    forall|r: int|
        0 <= r < values.len() && (#[trigger] values[r]) is Some ==> (exists|m: int|
            0 <= m < k && rep_of(representative_map, num_wires, degree, (#[trigger] inputs[m]).0) == r)
            || (exists|j: int|
            0 <= j < generators.len() && expired[j] && j != skip && rep_of(
                representative_map,
                num_wires,
                degree,
                (#[trigger] generators[j]).output_target(),
            ) == r) || (skip_written && rep_of(
            representative_map,
            num_wires,
            degree,
            generators[skip].output_target(),
        ) == r)
}

/// Each target a generator watches shares its representative with an input or with the output
/// of an earlier generator.
pub open spec fn fed_in_order(
    inputs: Seq<(Target, u64)>,
    generators: Seq<WitnessGeneratorRef>,
    representative_map: Seq<usize>,
    num_wires: usize,
    degree: usize,
) -> bool {
    forall|i: int, k: int|
        0 <= i < generators.len() && 0 <= k < generators[i].spec_watch_list().len() ==> (exists|m: int|
            0 <= m < inputs.len() && rep_of(representative_map, num_wires, degree, (#[trigger] inputs[m]).0)
                == rep_of(
                representative_map,
                num_wires,
                degree,
                #[trigger] generators[i].spec_watch_list()[k],
            )) || (exists|j: int|
            0 <= j < i && rep_of(representative_map, num_wires, degree, (#[trigger] generators[j]).output_target())
                == rep_of(representative_map, num_wires, degree, generators[i].spec_watch_list()[k]))
}

/// No generator waits when every one can finish.
proof fn lemma_none_waiting(generators: Seq<WitnessGeneratorRef>, w: PartitionWitness)
    requires
        forall|i: int| 0 <= i < generators.len() ==> (#[trigger] generators[i]).spec_finishes(w),
    ensures
        waiting_ids(generators, w).len() == 0,
    decreases generators.len(),
{
    if generators.len() > 0 {
        assert(generators.last() == generators[generators.len() - 1]);
        lemma_none_waiting(generators.drop_last(), w);
    }
}

/// In a witness that holds the inputs and where every generator is done or cannot finish, the
/// first `i` generators are done when each is fed by inputs or earlier outputs.
proof fn lemma_fed_generators_done(
    inputs: Seq<(Target, u64)>,
    generators: Seq<WitnessGeneratorRef>,
    w: PartitionWitness,
    i: int,
)
    requires
        w.wf(),
        0 <= i <= generators.len(),
        fed_in_order(inputs, generators, w.representative_map@, w.num_wires, w.degree),
        forall|k: int| 0 <= k < inputs.len() ==> w.read((#[trigger] inputs[k]).0) == Some(inputs[k].1),
        forall|j: int|
            0 <= j < generators.len() ==> (#[trigger] generators[j]).spec_done(w)
                || !generators[j].spec_finishes(w),
    ensures
        forall|j: int| 0 <= j < i ==> (#[trigger] generators[j]).spec_done(w),
    decreases i,
{
    if i > 0 {
        lemma_fed_generators_done(inputs, generators, w, i - 1);
        let g = generators[i - 1];
        let wl = g.spec_watch_list();
        let rm = w.representative_map@;
        assert forall|k: int| 0 <= k < wl.len() implies w.populated(#[trigger] wl[k]) by {
            assert(wl[k] == generators[i - 1].spec_watch_list()[k]);
            if exists|m: int|
                0 <= m < inputs.len() && rep_of(rm, w.num_wires, w.degree, (#[trigger] inputs[m]).0) == rep_of(
                    rm,
                    w.num_wires,
                    w.degree,
                    wl[k],
                ) {
                let m = choose|m: int|
                    0 <= m < inputs.len() && rep_of(rm, w.num_wires, w.degree, (#[trigger] inputs[m]).0)
                        == rep_of(rm, w.num_wires, w.degree, wl[k]);
                assert(w.read(inputs[m].0) == Some(inputs[m].1));
            } else {
                let j = choose|j: int|
                    0 <= j < i - 1 && rep_of(rm, w.num_wires, w.degree, (#[trigger] generators[j]).output_target())
                        == rep_of(rm, w.num_wires, w.degree, wl[k]);
                assert(generators[j].spec_done(w));
                assert(w.populated(generators[j].output_target()));
            }
        }
        g.lemma_finishes_iff_watched(w);
    }
}

/// `existing` was written, by an input or a finishing generator, to a target sharing the
/// representative of `target`: it is a value the witness held there.
pub open spec fn held_value(
    inputs: Seq<(Target, u64)>,
    generators: Seq<WitnessGeneratorRef>,
    representative_map: Seq<usize>,
    num_wires: usize,
    degree: usize,
    target: Target,
    existing: u64,
) -> bool {
    exists|t: Target|
        #![trigger rep_of(representative_map, num_wires, degree, t)]
        rep_of(representative_map, num_wires, degree, t) == rep_of(
            representative_map,
            num_wires,
            degree,
            target,
        ) && (input_write(inputs, t, existing) || generator_write(generators, t, existing))
}

/// `n` xorshift steps from `s`.
pub open spec fn xorshift_iter(s: u64, n: nat) -> u64
    decreases n,
{
    if n == 0 {
        s
    } else {
        xorshift(xorshift_iter(s, (n - 1) as nat))
    }
}

/// The number of random-value generators marked in `expired`.
pub open spec fn random_expired(generators: Seq<WitnessGeneratorRef>, expired: Seq<bool>) -> nat
    decreases expired.len(),
{
    if expired.len() == 0 {
        0
    } else {
        random_expired(generators, expired.drop_last()) + if expired.last()
            && generators[expired.len() - 1].0 is RandomValue {
            1nat
        } else {
            0nat
        }
    }
}

/// The number of random-value generators.
pub open spec fn count_random(generators: Seq<WitnessGeneratorRef>) -> nat {
    random_expired(generators, Seq::new(generators.len(), |i: int| true))
}

proof fn lemma_random_none(generators: Seq<WitnessGeneratorRef>, s: Seq<bool>)
    requires
        forall|i: int| 0 <= i < s.len() ==> !#[trigger] s[i],
    ensures
        random_expired(generators, s) == 0,
    decreases s.len(),
{
    if s.len() > 0 {
        lemma_random_none(generators, s.drop_last());
    }
}

proof fn lemma_expire_random(generators: Seq<WitnessGeneratorRef>, s: Seq<bool>, i: int)
    requires
        0 <= i < s.len(),
        !s[i],
    ensures
        random_expired(generators, s.update(i, true)) == random_expired(generators, s) + if generators[i].0 is RandomValue {
            1nat
        } else {
            0nat
        },
    decreases s.len(),
{
    let t = s.update(i, true);
    if i == s.len() - 1 {
        assert(t.drop_last() == s.drop_last());
    } else {
        assert(t.drop_last() == s.drop_last().update(i, true));
        lemma_expire_random(generators, s.drop_last(), i);
    }
}

/// What generation ends in: the completed witness, holding the inputs, in which every generator
/// is done; or a stall; or a write, by an input or a finishing generator, of a value unequal to
/// the one already held.
pub open spec fn generation_outcome(
    inputs: Seq<(Target, u64)>,
    generators: Seq<WitnessGeneratorRef>,
    representative_map: Seq<usize>,
    num_wires: usize,
    degree: usize,
    r: Result<PartitionWitness, WitnessError>,
) -> bool {
    &&& match r {
        Ok(w) => {
            &&& w.wf()
            &&& w.representative_map@ == representative_map
            &&& w.num_wires == num_wires
            &&& w.degree == degree
            &&& forall|k: int|
                0 <= k < inputs.len() ==> w.read((#[trigger] inputs[k]).0) == Some(
                    inputs[k].1,
                )
            &&& forall|i: int|
                0 <= i < generators.len() ==> (#[trigger] generators[i]).spec_done(w)
            &&& sourced(inputs, generators, w)
        },
        Err(WitnessError::GeneratorsStalled { unfinished_ids }) => exists|w: PartitionWitness|
            #[trigger] stalled_at(
                inputs,
                generators,
                representative_map,
                num_wires,
                degree,
                w,
                unfinished_ids@,
            ),
        Err(WitnessError::Inconsistent { target, existing, attempted }) => existing != attempted && (
        input_write(inputs, target, attempted) || generator_write(generators, target, attempted))
            && held_value(inputs, generators, representative_map, num_wires, degree, target, existing),
        Err(_) => false,
    }
    &&& single_writer(inputs, generators, representative_map, num_wires, degree) ==> !(r matches Err(
        WitnessError::Inconsistent { .. },
    ))
    &&& single_writer(inputs, generators, representative_map, num_wires, degree) && fed_in_order(
        inputs,
        generators,
        representative_map,
        num_wires,
        degree,
    ) ==> r is Ok
}

/// Populates the witness from `inputs` by running `generators` to a fixed point.
///
/// The inputs are written first. Then rounds run the pending generators in order, each run's
/// values drained into the witness at once; a generator watching a newly populated
/// representative is queued for the next round. The result is the witness once every generator
/// has finished, `GeneratorsStalled` with the ids of those that never did, or the first
/// `Inconsistent` write.
pub fn generate_partial_witness(
    inputs: &Vec<(Target, u64)>,
    generators: &Vec<WitnessGeneratorRef>,
    generator_indices_by_watches: &Vec<Vec<usize>>,
    num_wires: usize,
    degree: usize,
    representative_map: Vec<usize>,
    rng: &mut FieldRng,
) -> (r: Result<PartitionWitness, WitnessError>)
    requires
        valid_rep_map(representative_map@),
        (degree as nat) * (num_wires as nat) <= usize::MAX,
        forall|k: int|
            0 <= k < inputs@.len() ==> (#[trigger] inputs@[k]).0.index_spec(
                num_wires as nat,
                degree as nat,
            ) < representative_map@.len() && is_field(inputs@[k].1),
        forall|i: int|
            0 <= i < generators@.len() ==> fits(
                #[trigger] generators@[i],
                num_wires,
                degree,
                representative_map@.len(),
            ),
        valid_watch_index(
            generator_indices_by_watches@,
            representative_map@.len(),
            generators@.len(),
        ),
        watch_index_complete(
            generator_indices_by_watches@,
            generators@,
            representative_map@,
            num_wires,
            degree,
        ),
    ensures
        generation_outcome(inputs@, generators@, representative_map@, num_wires, degree, r),
        r is Ok ==> final(rng).state == xorshift_iter(old(rng).state, count_random(generators@)),
{
    let mut witness = PartitionWitness::new(num_wires, degree, representative_map);
    let mut k: usize = 0;
    while k < inputs.len()
        invariant
            witness.wf(),
            witness.representative_map@ == representative_map@,
            witness.num_wires == num_wires,
            witness.degree == degree,
            witness.values@.len() == representative_map@.len(),
            k <= inputs@.len(),
            forall|k: int|
                0 <= k < inputs@.len() ==> (#[trigger] inputs@[k]).0.index_spec(
                    num_wires as nat,
                    degree as nat,
                ) < representative_map@.len() && is_field(inputs@[k].1),
            forall|m: int| 0 <= m < k ==> witness.read((#[trigger] inputs@[m]).0) == Some(inputs@[m].1),
            sourced(inputs@, generators@, witness),
            owned(inputs@, generators@, representative_map@, num_wires, degree, Seq::new(generators@.len(), |j: int| false), witness.values@, k as int, -1, false),
        decreases inputs@.len() - k,
    {
        let (t, v) = inputs[k];
        let ghost before = witness;
        match witness.set_target(t, v) {
            Err(e) => {
                assert(inputs@[k as int] == (t, v));
                assert(input_write(inputs@, t, v));
                proof {
                    let r0 = before.rep(t);
                    assert(before.representative_map@[before.idx(t) as int] < before.representative_map@.len());
                    let t0 = choose|t0: Target|
                        #![trigger before.rep(t0)]
                        before.valid_target(t0) && before.rep(t0) == r0 && (input_write(
                            inputs@,
                            t0,
                            before.values@[r0]->0,
                        ) || generator_write(generators@, t0, before.values@[r0]->0));
                    assert(rep_of(representative_map@, num_wires, degree, t0) == rep_of(representative_map@, num_wires, degree, t));
                    assert(e matches WitnessError::Inconsistent { target, existing, .. } && held_value(inputs@, generators@, representative_map@, num_wires, degree, target, existing));

                    if single_writer(inputs@, generators@, representative_map@, num_wires, degree) {
                        let r0 = before.rep(t);
                        assert(before.values@[r0] is Some);
                        let m = choose|m: int| 0 <= m < k && rep_of(representative_map@, num_wires, degree, (#[trigger] inputs@[m]).0) == r0;
                        assert(rep_of(representative_map@, num_wires, degree, inputs@[k as int].0) == r0);
                    }
                }
                return Err(e);
            },
            Ok(_) => {},
        }
        proof {
            assert(inputs@[k as int] == (t, v));
            lemma_sourced_write(inputs@, generators@, before, witness, t, v);
            lemma_writes_extend(before, witness, t, v);
            assert(rep_of(representative_map@, num_wires, degree, inputs@[k as int].0) == before.rep(t));
            assert forall|m: int| 0 <= m < k + 1 implies witness.read((#[trigger] inputs@[m]).0)
                == Some(inputs@[m].1) by {
                if m < k {
                    crate::generator::lemma_read_stable(before, witness, inputs@[m].0);
                }
            }
        }
        k = k + 1;
    }
    let ghost w0 = witness;
    let n = generators.len();
    let mut pending: Vec<usize> = Vec::new();
    let mut generator_is_expired: Vec<bool> = Vec::new();
    while pending.len() < n
        invariant
            n == generators@.len(),
            pending@.len() <= n,
            generator_is_expired@.len() == pending@.len(),
            forall|q: int| 0 <= q < pending@.len() ==> (#[trigger] pending@[q]) == q,
            forall|i: int| 0 <= i < generator_is_expired@.len() ==> !(#[trigger] generator_is_expired@[i]),
        decreases n - pending.len(),
    {
        pending.push(pending.len());
        generator_is_expired.push(false);
    }
    let mut buffer = GeneratedValues::empty();
    assert(generator_is_expired@ =~= Seq::new(generators@.len(), |j: int| false));
    let ghost seed0 = rng.state;
    proof {
        lemma_random_none(generators@, generator_is_expired@);
    }
    assert forall|i: int|
        0 <= i < generators@.len() && !generator_is_expired@[i] && #[trigger] generators@[i].spec_finishes(witness)
            implies queued(pending@, 0, Seq::empty(), i) by {
        assert(pending@[i] == i);
    }
    while pending.len() > 0
        invariant
            witness.wf(),
            witness.representative_map@ == representative_map@,
            witness.num_wires == num_wires,
            witness.degree == degree,
            witness.values@.len() == representative_map@.len(),
            extends(w0.values@, witness.values@),
            forall|m: int| 0 <= m < inputs@.len() ==> w0.read((#[trigger] inputs@[m]).0) == Some(inputs@[m].1),
            n == generators@.len(),
            forall|i: int|
                0 <= i < generators@.len() ==> fits(
                    #[trigger] generators@[i],
                    num_wires,
                    degree,
                    representative_map@.len(),
                ),
            valid_watch_index(
                generator_indices_by_watches@,
                representative_map@.len(),
                generators@.len(),
            ),
            generator_is_expired@.len() == n,
            forall|i: int|
                0 <= i < n && #[trigger] generator_is_expired@[i] ==> generators@[i].spec_done(witness),
            forall|q: int| 0 <= q < pending@.len() ==> (#[trigger] pending@[q]) < n,
            buffer.target_values@.len() == 0,
            rng.state == xorshift_iter(seed0, random_expired(generators@, generator_is_expired@)),
            sourced(inputs@, generators@, witness),
            owned(inputs@, generators@, representative_map@, num_wires, degree, generator_is_expired@, witness.values@, inputs@.len() as int, -1, false),
            watch_index_complete(
                generator_indices_by_watches@,
                generators@,
                representative_map@,
                num_wires,
                degree,
            ),
            all_queued(generators@, generator_is_expired@, witness, pending@, 0, Seq::empty()),
        decreases count_live(generator_is_expired@) + if pending@.len() > 0 {
            1nat
        } else {
            0nat
        },
    {
        let ghost start_live = count_live(generator_is_expired@);
        let ghost mut progressed = false;
        let mut next_pending: Vec<usize> = Vec::new();
        let mut q: usize = 0;
        while q < pending.len()
            invariant
                witness.wf(),
                witness.representative_map@ == representative_map@,
                witness.num_wires == num_wires,
                witness.degree == degree,
                witness.values@.len() == representative_map@.len(),
                extends(w0.values@, witness.values@),
                n == generators@.len(),
                forall|i: int|
                    0 <= i < generators@.len() ==> fits(
                        #[trigger] generators@[i],
                        num_wires,
                        degree,
                        representative_map@.len(),
                    ),
                valid_watch_index(
                    generator_indices_by_watches@,
                    representative_map@.len(),
                    generators@.len(),
                ),
                generator_is_expired@.len() == n,
                forall|i: int|
                    0 <= i < n && #[trigger] generator_is_expired@[i] ==> generators@[i].spec_done(witness),
                forall|q: int| 0 <= q < pending@.len() ==> (#[trigger] pending@[q]) < n,
                forall|q: int| 0 <= q < next_pending@.len() ==> (#[trigger] next_pending@[q]) < n,
                buffer.target_values@.len() == 0,
                rng.state == xorshift_iter(seed0, random_expired(generators@, generator_is_expired@)),
                sourced(inputs@, generators@, witness),
                owned(inputs@, generators@, representative_map@, num_wires, degree, generator_is_expired@, witness.values@, inputs@.len() as int, -1, false),
                q <= pending@.len(),
                count_live(generator_is_expired@) <= start_live,
                progressed ==> count_live(generator_is_expired@) < start_live,
                next_pending@.len() > 0 ==> progressed,
                watch_index_complete(
                    generator_indices_by_watches@,
                    generators@,
                    representative_map@,
                    num_wires,
                    degree,
                ),
                all_queued(generators@, generator_is_expired@, witness, pending@, q as int, next_pending@),
            decreases pending@.len() - q,
        {
            let generator_idx = pending[q];
            if !generator_is_expired[generator_idx] {
                let g = &generators[generator_idx];
                let ghost wb = witness;
                let ghost seed = rng.state;
                let ghost exp0 = generator_is_expired@;
                let ghost expired_before = generator_is_expired@;
                assert(fits(generators@[generator_idx as int], num_wires, degree, representative_map@.len()));
                assert(g.spec_wf(wb));
                let finished = g.run(&witness, &mut buffer, rng);
                if finished {
                    proof {
                        lemma_expire_one(generator_is_expired@, generator_idx as int);
                        lemma_expire_random(generators@, generator_is_expired@, generator_idx as int);
                        g.lemma_outputs_valid(wb, seed);
                        progressed = true;
                    }
                    generator_is_expired.set(generator_idx, true);
                }
                proof {
                    if finished {
                        assert(exp0.update(generator_idx as int, true) == generator_is_expired@);
                    }
                }
                proof {
                    g.lemma_single_output(wb, seed);
                    assert forall|r: int|
                        0 <= r < witness.values@.len() && (#[trigger] witness.values@[r]) is Some implies (exists|m: int|
                            0 <= m < inputs@.len() && rep_of(representative_map@, num_wires, degree, (#[trigger] inputs@[m]).0) == r)
                            || (exists|j: int|
                            0 <= j < generators@.len() && generator_is_expired@[j] && j != generator_idx as int && rep_of(
                                representative_map@,
                                num_wires,
                                degree,
                                (#[trigger] generators@[j]).output_target(),
                            ) == r) by {
                        if !(exists|m: int|
                            0 <= m < inputs@.len() && rep_of(representative_map@, num_wires, degree, (#[trigger] inputs@[m]).0) == r) {
                            let j = choose|j: int|
                                0 <= j < generators@.len() && expired_before[j] && j != -1 && rep_of(
                                    representative_map@,
                                    num_wires,
                                    degree,
                                    (#[trigger] generators@[j]).output_target(),
                                ) == r;
                            assert(j != generator_idx as int);
                            assert(generator_is_expired@[j]);
                        }
                    }
                    assert forall|i: int| 0 <= i < generators@.len() && !generator_is_expired@[i] && #[trigger] generators@[i].spec_finishes(witness) implies queued(pending@, q + 1, next_pending@, i) by {
                        if i != generator_idx as int {
                            assert(expired_before[i] == generator_is_expired@[i]);
                            assert(queued(pending@, q as int, next_pending@, i));
                        }
                    }
                }
                let mut b: usize = 0;
                while b < buffer.target_values.len()
                    invariant
                        witness.wf(),
                        witness.representative_map@ == representative_map@,
                        witness.num_wires == num_wires,
                        witness.degree == degree,
                        witness.values@.len() == representative_map@.len(),
                        extends(w0.values@, witness.values@),
                        extends(wb.values@, witness.values@),
                        wb.wf(),
                        wb.representative_map@ == representative_map@,
                        wb.num_wires == num_wires,
                        wb.degree == degree,
                        g == &generators@[generator_idx as int],
                        g.spec_wf(wb),
                        n == generators@.len(),
                        generator_idx < n,
                        forall|i: int|
                            0 <= i < generators@.len() ==> fits(
                                #[trigger] generators@[i],
                                num_wires,
                                degree,
                                representative_map@.len(),
                            ),
                        valid_watch_index(
                            generator_indices_by_watches@,
                            representative_map@.len(),
                            generators@.len(),
                        ),
                        generator_is_expired@.len() == n,
                        forall|i: int|
                            0 <= i < n && i != generator_idx && #[trigger] generator_is_expired@[i]
                                ==> generators@[i].spec_done(witness),
                        finished ==> g.spec_finishes(wb) && buffer.target_values@ == g.spec_outputs(wb, seed),
                        finished ==> forall|k: int| 0 <= k < buffer.target_values@.len() ==> wb.valid_target(
                            (#[trigger] buffer.target_values@[k]).0) && is_field(buffer.target_values@[k].1),
                        !finished ==> buffer.target_values@.len() == 0,
                        !finished ==> generator_is_expired@[generator_idx as int] == false,
                        b <= buffer.target_values@.len(),
                        forall|m: int| 0 <= m < b ==> witness.read((#[trigger] buffer.target_values@[m]).0)
                            == Some(buffer.target_values@[m].1),
                        forall|q: int| 0 <= q < next_pending@.len() ==> (#[trigger] next_pending@[q]) < n,
                        count_live(generator_is_expired@) <= start_live,
                        progressed ==> count_live(generator_is_expired@) < start_live,
                        next_pending@.len() > 0 ==> progressed,
                        finished ==> progressed,
                        rng.state == xorshift_iter(seed0, random_expired(generators@, generator_is_expired@)),
                        watch_index_complete(
                            generator_indices_by_watches@,
                            generators@,
                            representative_map@,
                            num_wires,
                            degree,
                        ),
                        q < pending@.len(),
                        sourced(inputs@, generators@, witness),
                        owned(inputs@, generators@, representative_map@, num_wires, degree, generator_is_expired@, witness.values@, inputs@.len() as int, generator_idx as int, b > 0),
                        finished ==> generator_is_expired@[generator_idx as int],
                        all_queued(generators@, generator_is_expired@, witness, pending@, q + 1, next_pending@),
                    decreases buffer.target_values@.len() - b,
                {
                    let (t, v) = buffer.target_values[b];
                    let ghost before = witness;
                    let set = witness.set_target_returning_rep(t, v);
                    match set {
                        Err(e) => {
                            proof {
                                let gs = generators@;
                                let gi = generator_idx as int;
                                assert(buffer.target_values@[b as int] == (t, v));
                                assert(gs[gi].spec_outputs(wb, seed)[b as int] == (t, v));
                                assert(generator_write(generators@, t, v));
                                g.lemma_single_output(wb, seed);
                                let r0 = before.rep(t);
                                assert(before.representative_map@[before.idx(t) as int] < before.representative_map@.len());
                                let t0 = choose|t0: Target|
                                    #![trigger before.rep(t0)]
                                    before.valid_target(t0) && before.rep(t0) == r0 && (input_write(
                                        inputs@,
                                        t0,
                                        before.values@[r0]->0,
                                    ) || generator_write(generators@, t0, before.values@[r0]->0));
                                assert(rep_of(representative_map@, num_wires, degree, t0) == rep_of(representative_map@, num_wires, degree, t));
                                assert(e matches WitnessError::Inconsistent { target, existing, .. } && held_value(inputs@, generators@, representative_map@, num_wires, degree, target, existing));

                                if single_writer(inputs@, generators@, representative_map@, num_wires, degree) {
                                    let r0 = before.rep(t);
                                    assert(t == gs[gi].output_target());
                                    assert(rep_of(representative_map@, num_wires, degree, t) == r0);
                                    assert(before.values@[r0] is Some);
                                    if exists|m: int|
                                        0 <= m < inputs@.len() && rep_of(representative_map@, num_wires, degree, (#[trigger] inputs@[m]).0) == r0 {
                                        let m = choose|m: int|
                                            0 <= m < inputs@.len() && rep_of(representative_map@, num_wires, degree, (#[trigger] inputs@[m]).0) == r0;
                                        assert(rep_of(representative_map@, num_wires, degree, inputs@[m].0) != rep_of(representative_map@, num_wires, degree, gs[gi].output_target()));
                                    } else {
                                        let j = choose|j: int|
                                            0 <= j < generators@.len() && generator_is_expired@[j] && j != gi && rep_of(
                                                representative_map@,
                                                num_wires,
                                                degree,
                                                (#[trigger] generators@[j]).output_target(),
                                            ) == r0;
                                        assert(rep_of(representative_map@, num_wires, degree, gs[j].output_target()) != rep_of(representative_map@, num_wires, degree, gs[gi].output_target()));
                                    }
                                }
                            }
                            return Err(e);
                        },
                        Ok(new_rep) => {
                            proof {
                                let gs = generators@;
                                let gi = generator_idx as int;
                                assert(buffer.target_values@[b as int] == (t, v));
                                assert(gs[gi].spec_outputs(wb, seed)[b as int] == (t, v));
                                assert(generator_write(generators@, t, v));
                                lemma_sourced_write(inputs@, generators@, before, witness, t, v);
                                lemma_writes_extend(before, witness, t, v);
                                g.lemma_single_output(wb, seed);
                                assert(t == gs[gi].output_target());
                                assert(rep_of(representative_map@, num_wires, degree, t) == before.rep(t));
                                assert(owned(inputs@, generators@, representative_map@, num_wires, degree, generator_is_expired@, witness.values@, inputs@.len() as int, generator_idx as int, b + 1 > 0));
                                assert forall|m: int| 0 <= m < b + 1 implies witness.read(
                                    (#[trigger] buffer.target_values@[m]).0) == Some(buffer.target_values@[m].1) by {
                                    if m < b {
                                        crate::generator::lemma_read_stable(before, witness, buffer.target_values@[m].0);
                                    }
                                }
                                assert forall|i: int|
                                    0 <= i < n && i != generator_idx && #[trigger] generator_is_expired@[i]
                                        implies generators@[i].spec_done(witness) by {
                                    assert(fits(generators@[i], num_wires, degree, representative_map@.len()));
                                    assert(generators@[i].spec_wf(before));
                                    generators@[i].lemma_done_stable(before, witness);
                                }
                            }
                            match new_rep {
                                None => {
                                    proof {
                                        assert forall|i: int| 0 <= i < generators@.len() && !generator_is_expired@[i] && #[trigger] generators@[i].spec_finishes(witness) implies queued(pending@, q + 1, next_pending@, i) by {
                                            generators@[i].lemma_finishes_iff_watched(witness);
                                            generators@[i].lemma_finishes_iff_watched(before);
                                            assert(generators@[i].spec_finishes(before));
                                        }
                                    }
                                },
                                Some(rep) => {
                                    let ghost next_before = next_pending@;
                                    let watchers = &generator_indices_by_watches[rep];
                                    let mut x: usize = 0;
                                    while x < watchers.len()
                                        invariant
                                            n == generators@.len(),
                                            generator_is_expired@.len() == n,
                                            rep < generator_indices_by_watches@.len(),
                                            watchers == &generator_indices_by_watches@[rep as int],
                                            valid_watch_index(
                                                generator_indices_by_watches@,
                                                representative_map@.len(),
                                                generators@.len(),
                                            ),
                                            x <= watchers@.len(),
                                            forall|q: int| 0 <= q < next_pending@.len() ==> (#[trigger] next_pending@[q]) < n,
                                            progressed,
                                            forall|j: usize| next_before.contains(j) ==> #[trigger] next_pending@.contains(j),
                                            forall|x2: int|
                                                0 <= x2 < x && !generator_is_expired@[watchers@[x2] as int]
                                                    ==> next_pending@.contains(#[trigger] watchers@[x2]),
                                        decreases watchers@.len() - x,
                                    {
                                        let watching_generator_idx = watchers[x];
                                        assert(generator_indices_by_watches@[rep as int]@[x as int] < n);
                                        let ghost next_old = next_pending@;
                                        if !generator_is_expired[watching_generator_idx] {
                                            next_pending.push(watching_generator_idx);
                                            assert(next_pending@[next_old.len() as int] == watching_generator_idx);
                                        }
                                        assert forall|j: usize| next_old.contains(j) implies #[trigger] next_pending@.contains(j) by {
                                            let k = choose|k: int| 0 <= k < next_old.len() && next_old[k] == j;
                                            assert(next_pending@[k] == j);
                                        }
                                        x = x + 1;
                                    }
                                    proof {
                                        assert forall|i: int| 0 <= i < generators@.len() && !generator_is_expired@[i] && #[trigger] generators@[i].spec_finishes(witness) implies queued(pending@, q + 1, next_pending@, i) by {
                                            assert(fits(generators@[i], num_wires, degree, representative_map@.len()));
                                            assert(generators@[i].spec_wf(before));
                                            if generators@[i].spec_finishes(before) {
                                                assert(queued(pending@, q + 1, next_before, i));
                                                if next_before.contains(i as usize) {
                                                    assert(next_pending@.contains(i as usize));
                                                }
                                            } else {
                                                generators@[i].lemma_newly_finishing(before, witness, rep as int);
                                                let wl = generators@[i].spec_watch_list();
                                                let k = choose|k: int| 0 <= k < wl.len() && before.rep(#[trigger] wl[k]) == rep as int;
                                                assert(generator_indices_by_watches@[representative_map@[wl[k].index_spec(
                                                    num_wires as nat,
                                                    degree as nat,
                                                ) as int] as int]@.contains(i as usize));
                                                let x2 = choose|x2: int| 0 <= x2 < watchers@.len() && watchers@[x2] == i as usize;
                                                assert(next_pending@.contains(watchers@[x2]));
                                            }
                                        }
                                    }
                                },
                            }
                        },
                    }
                    b = b + 1;
                }
                proof {
                    if finished {
                        g.lemma_done_after_run(wb, witness, seed);
                    }
                    assert forall|r: int|
                        0 <= r < witness.values@.len() && (#[trigger] witness.values@[r]) is Some implies (exists|m: int|
                            0 <= m < inputs@.len() && rep_of(representative_map@, num_wires, degree, (#[trigger] inputs@[m]).0) == r)
                            || (exists|j: int|
                            0 <= j < generators@.len() && generator_is_expired@[j] && j != -1 && rep_of(
                                representative_map@,
                                num_wires,
                                degree,
                                (#[trigger] generators@[j]).output_target(),
                            ) == r) by {
                        if b > 0 && rep_of(representative_map@, num_wires, degree, generators@[generator_idx as int].output_target()) == r {
                            assert(generator_is_expired@[generator_idx as int]);
                        }
                    }
                }
                buffer.target_values.clear();
            } else {
                proof {
                    assert forall|i: int| 0 <= i < generators@.len() && !generator_is_expired@[i] && #[trigger] generators@[i].spec_finishes(witness) implies queued(pending@, q + 1, next_pending@, i) by {
                        assert(queued(pending@, q as int, next_pending@, i));
                    }
                }
            }
            q = q + 1;
        }
        proof {
            assert forall|i: int| 0 <= i < generators@.len() && !generator_is_expired@[i] && #[trigger] generators@[i].spec_finishes(witness) implies queued(next_pending@, 0, Seq::empty(), i) by {
                assert(queued(pending@, pending@.len() as int, next_pending@, i));
                let j = choose|j: int| 0 <= j < next_pending@.len() && next_pending@[j] == i as usize;
                assert(next_pending@[j] == i);
            }
        }
        pending = next_pending;
    }
    proof {
        assert forall|i: int| 0 <= i < generators@.len() implies (#[trigger] generator_is_expired@[i]
            ==> generators@[i].spec_done(witness)) && (!generator_is_expired@[i]
            ==> !generators@[i].spec_finishes(witness)) by {
            if !generator_is_expired@[i] && generators@[i].spec_finishes(witness) {
                assert(queued(pending@, 0, Seq::empty(), i));
            }
        }
        assert forall|m: int| 0 <= m < inputs@.len() implies witness.read((#[trigger] inputs@[m]).0)
            == Some(inputs@[m].1) by {
            crate::generator::lemma_read_stable(w0, witness, inputs@[m].0);
        }
    }
    let mut unfinished_ids: Vec<String> = Vec::new();
    let mut i: usize = 0;
    while i < n
        invariant
            n == generators@.len(),
            generator_is_expired@.len() == n,
            i <= n,
            unfinished_ids@.len() == 0 ==> forall|j: int| 0 <= j < i ==> #[trigger] generator_is_expired@[j],
            id_texts(unfinished_ids@) == waiting_ids(generators@.take(i as int), witness),
            sourced(inputs@, generators@, witness),
            witness.wf(),
            witness.representative_map@ == representative_map@,
            witness.num_wires == num_wires,
            witness.degree == degree,
            forall|m: int| 0 <= m < inputs@.len() ==> witness.read((#[trigger] inputs@[m]).0) == Some(inputs@[m].1),
            forall|j: int| 0 <= j < n ==> (#[trigger] generator_is_expired@[j] ==> generators@[j].spec_done(witness))
                && (!generator_is_expired@[j] ==> !generators@[j].spec_finishes(witness)),
        decreases n - i,
    {
        let ghost before = unfinished_ids@;
        proof {
            assert(generators@.take(i + 1).drop_last() =~= generators@.take(i as int));
            assert(generators@.take(i + 1).last() == generators@[i as int]);
            if generator_is_expired@[i as int] {
                generators@[i as int].lemma_done_finishes(witness);
            }
        }
        if !generator_is_expired[i] {
            let id = generators[i].id();
            unfinished_ids.push(id);
            assert(id_texts(unfinished_ids@) =~= id_texts(before).push(id@));
        }
        i = i + 1;
    }
    if unfinished_ids.len() > 0 {
        proof {
            assert forall|i: int| 0 <= i < generators@.len() implies (#[trigger] generators@[i]).spec_done(
                witness,
            ) || !generators@[i].spec_finishes(witness) by {
                assert(generator_is_expired@[i] ==> generators@[i].spec_done(witness));
            }
            assert(generators@.take(n as int) =~= generators@);
            if fed_in_order(inputs@, generators@, representative_map@, num_wires, degree) {
                lemma_fed_generators_done(inputs@, generators@, witness, n as int);
                assert forall|i: int| 0 <= i < generators@.len() implies (#[trigger] generators@[i]).spec_finishes(witness) by {
                    generators@[i].lemma_done_finishes(witness);
                }
                lemma_none_waiting(generators@, witness);
                assert(id_texts(unfinished_ids@).len() == unfinished_ids@.len());
            }
            assert(stalled_at(
                inputs@,
                generators@,
                representative_map@,
                num_wires,
                degree,
                witness,
                unfinished_ids@,
            ));
        }
        let ghost ids = unfinished_ids@;
        let r = Err(WitnessError::GeneratorsStalled { unfinished_ids });
        assert(r matches Err(WitnessError::GeneratorsStalled { unfinished_ids: listed }) && listed@ == ids);
        return r;
    }
    proof {
        assert forall|i: int| 0 <= i < generators@.len() implies (#[trigger] generators@[i]).spec_done(
            witness,
        ) by {
            assert(generator_is_expired@[i]);
        }
        assert(generator_is_expired@ =~= Seq::new(generators@.len(), |i: int| true));
    }
    Ok(witness)
}

/// Generates the witness: builds the watch index from the generators' watch lists, reduced to
/// representatives, then runs `generate_partial_witness`.
pub fn generate(
    inputs: &Vec<(Target, u64)>,
    generators: &Vec<WitnessGeneratorRef>,
    num_wires: usize,
    degree: usize,
    representative_map: Vec<usize>,
    rng: &mut FieldRng,
) -> (r: Result<PartitionWitness, WitnessError>)
    requires
        valid_rep_map(representative_map@),
        (degree as nat) * (num_wires as nat) <= usize::MAX,
        forall|k: int|
            0 <= k < inputs@.len() ==> (#[trigger] inputs@[k]).0.index_spec(
                num_wires as nat,
                degree as nat,
            ) < representative_map@.len() && is_field(inputs@[k].1),
        forall|i: int|
            0 <= i < generators@.len() ==> fits(
                #[trigger] generators@[i],
                num_wires,
                degree,
                representative_map@.len(),
            ),
    ensures
        generation_outcome(inputs@, generators@, representative_map@, num_wires, degree, r),
        r is Ok ==> final(rng).state == xorshift_iter(old(rng).state, count_random(generators@)),
{
    let layout = PartitionWitness::new(num_wires, degree, representative_map);
    assert forall|i: int| 0 <= i < generators@.len() implies (#[trigger] generators@[i]).spec_wf(layout) by {
        assert(fits(generators@[i], num_wires, degree, representative_map@.len()));
    }
    let watches = build_watch_index(generators, &layout);
    let PartitionWitness { representative_map: rep, .. } = layout;
    generate_partial_witness(inputs, generators, &watches, num_wires, degree, rep, rng)
}

} // verus!
