use plonky2_witness::field::FIELD_ORDER;
use plonky2_witness::generation::{build_watch_index, generate, generate_partial_witness};
use plonky2_witness::generator::{
    ConstantGenerator, CopyGenerator, FieldRng, NonzeroTestGenerator, RandomValueGenerator,
    SimpleGenerator, WitnessGenerator, WitnessGeneratorRef,
};
use plonky2_witness::target::Target;
use plonky2_witness::witness::{PartitionWitness, WitnessError};

const NUM_WIRES: usize = 2;
const DEGREE: usize = 2;
const NUM_VIRTUAL: usize = 6;

fn vt(i: usize) -> Target {
    Target::virtual_target(i)
}

fn identity_map() -> Vec<usize> {
    (0..NUM_WIRES * DEGREE + NUM_VIRTUAL).collect()
}

fn copy(src: Target, dst: Target) -> WitnessGeneratorRef {
    WitnessGeneratorRef::new(CopyGenerator { src, dst }.adapter())
}

fn nonzero(to_test: Target, dummy: Target) -> WitnessGeneratorRef {
    WitnessGeneratorRef::new(NonzeroTestGenerator { to_test, dummy }.adapter())
}

fn run(
    inputs: Vec<(Target, u64)>,
    generators: Vec<WitnessGeneratorRef>,
    rep: Vec<usize>,
    seed: u64,
) -> Result<PartitionWitness, WitnessError> {
    let mut rng = FieldRng::new(seed);
    generate(&inputs, &generators, NUM_WIRES, DEGREE, rep, &mut rng)
}

#[test]
fn single_copy_generator() {
    let w = run(vec![(vt(0), 7)], vec![copy(vt(0), vt(1))], identity_map(), 1).unwrap();
    assert_eq!(w.try_get(vt(1)), Some(7));
    assert_eq!(w.get(vt(0)), 7);
}

#[test]
fn transitive_chain() {
    let gens = vec![copy(vt(0), vt(1)), copy(vt(1), vt(2)), copy(vt(2), vt(3))];
    let w = run(vec![(vt(0), 3)], gens, identity_map(), 1).unwrap();
    for i in 0..4 {
        assert_eq!(w.get(vt(i)), 3);
    }
}

#[test]
fn transitive_chain_out_of_order() {
    let gens = vec![copy(vt(2), vt(3)), copy(vt(1), vt(2)), copy(vt(0), vt(1))];
    let w = run(vec![(vt(0), 3)], gens, identity_map(), 1).unwrap();
    assert_eq!(w.get(vt(3)), 3);
}

#[test]
fn nonzero_test_zero_branch() {
    let w = run(vec![(vt(0), 0)], vec![nonzero(vt(0), vt(1))], identity_map(), 1).unwrap();
    assert_eq!(w.get(vt(1)), 1);
}

#[test]
fn nonzero_test_nonzero_branch() {
    let w = run(vec![(vt(0), 5)], vec![nonzero(vt(0), vt(1))], identity_map(), 1).unwrap();
    let x = w.get(vt(1));
    assert_eq!((5u128 * x as u128) % FIELD_ORDER as u128, 1);
    assert_eq!(x, 14757395255531667457);
}

#[test]
fn stall_reports_unfinished_ids() {
    let r = run(vec![], vec![copy(vt(0), vt(1))], identity_map(), 1);
    match r {
        Err(WitnessError::GeneratorsStalled { unfinished_ids }) => {
            assert_eq!(unfinished_ids, vec!["CopyGenerator".to_string()]);
        }
        _ => panic!("expected a stall"),
    }
}

#[test]
fn copy_constraint_merging() {
    let mut rep = identity_map();
    let i0 = DEGREE * NUM_WIRES;
    rep[i0 + 1] = i0;
    let w = run(vec![(vt(0), 9)], vec![copy(vt(1), vt(2))], rep, 1).unwrap();
    assert_eq!(w.get(vt(1)), 9);
    assert_eq!(w.get(vt(2)), 9);
}

#[test]
fn write_through_merged_target_wakes_watchers() {
    let mut rep = identity_map();
    let i0 = DEGREE * NUM_WIRES;
    rep[i0 + 1] = i0;
    // vt(1) is written by a generator; the watcher of vt(0) must wake.
    let gens = vec![copy(vt(0), vt(2)), copy(vt(3), vt(1))];
    let w = run(vec![(vt(3), 4)], gens, rep, 1).unwrap();
    assert_eq!(w.get(vt(2)), 4);
}

#[test]
fn inconsistent_writes_are_rejected() {
    let c1 = ConstantGenerator { row: 0, constant_index: 0, wire_index: 1, constant: 5 };
    let c2 = ConstantGenerator { row: 0, constant_index: 1, wire_index: 1, constant: 6 };
    let gens = vec![WitnessGeneratorRef::new(c1.adapter()), WitnessGeneratorRef::new(c2.adapter())];
    let r = run(vec![], gens, identity_map(), 1);
    match r {
        Err(WitnessError::Inconsistent { target, existing, attempted }) => {
            assert_eq!(target, Target::wire(0, 1));
            assert_eq!(existing, 5);
            assert_eq!(attempted, 6);
        }
        _ => panic!("expected an inconsistency"),
    }
}

#[test]
fn inconsistent_inputs_are_rejected() {
    let r = run(vec![(vt(0), 1), (vt(0), 2)], vec![], identity_map(), 1);
    assert!(matches!(r, Err(WitnessError::Inconsistent { existing: 1, attempted: 2, .. })));
}

#[test]
fn constant_generator_fills_its_wire() {
    let c = ConstantGenerator { row: 1, constant_index: 0, wire_index: 0, constant: 11 };
    let w = run(vec![], vec![WitnessGeneratorRef::new(c.adapter())], identity_map(), 1).unwrap();
    assert_eq!(w.get(Target::wire(1, 0)), 11);
}

#[test]
fn random_values_follow_the_seed() {
    let gen = || vec![WitnessGeneratorRef::new(RandomValueGenerator { target: vt(4) }.adapter())];
    let a = run(vec![], gen(), identity_map(), 42).unwrap();
    let b = run(vec![], gen(), identity_map(), 42).unwrap();
    assert_eq!(a.values, b.values);
    let v = a.get(vt(4));
    assert!(v < FIELD_ORDER);
    let mut rng = FieldRng::new(42);
    assert_eq!(v, rng.next_field());
}

#[test]
fn runs_are_deterministic() {
    let gens = || {
        vec![
            copy(vt(0), vt(1)),
            nonzero(vt(1), vt(2)),
            WitnessGeneratorRef::new(RandomValueGenerator { target: vt(3) }.adapter()),
        ]
    };
    let a = run(vec![(vt(0), 8)], gens(), identity_map(), 7).unwrap();
    let b = run(vec![(vt(0), 8)], gens(), identity_map(), 7).unwrap();
    assert_eq!(a.values, b.values);
}

#[test]
fn empty_run_keeps_inputs() {
    let w = run(vec![(vt(5), 2)], vec![], identity_map(), 1).unwrap();
    assert_eq!(w.try_get(vt(5)), Some(2));
    assert_eq!(w.try_get(vt(4)), None);
}

#[test]
fn watch_index_uses_representatives() {
    let mut rep = identity_map();
    let i0 = DEGREE * NUM_WIRES;
    rep[i0 + 1] = i0;
    let gens = vec![copy(vt(1), vt(2))];
    let layout = PartitionWitness::new(NUM_WIRES, DEGREE, rep);
    let watches = build_watch_index(&gens, &layout);
    assert_eq!(watches[i0], vec![0]);
    assert!(watches[i0 + 1].is_empty());
}

#[test]
fn partial_generation_with_prebuilt_index() {
    let gens = vec![copy(vt(1), vt(2)), copy(vt(0), vt(1))];
    let layout = PartitionWitness::new(NUM_WIRES, DEGREE, identity_map());
    let watches = build_watch_index(&gens, &layout);
    let mut rng = FieldRng::new(3);
    let w = generate_partial_witness(
        &vec![(vt(0), 6)],
        &gens,
        &watches,
        NUM_WIRES,
        DEGREE,
        identity_map(),
        &mut rng,
    )
    .unwrap();
    assert_eq!(w.get(vt(2)), 6);
}

#[test]
fn zero_seed_still_samples() {
    let mut rng = FieldRng::new(0);
    assert_ne!(rng.state, 0);
    let a = rng.next_field();
    let b = rng.next_field();
    assert_ne!(a, b);
}

#[test]
fn stall_lists_every_waiting_generator() {
    let gens = vec![copy(vt(0), vt(1)), nonzero(vt(1), vt(2)), copy(vt(4), vt(5))];
    let r = run(vec![(vt(4), 1)], gens, identity_map(), 1);
    match r {
        Err(WitnessError::GeneratorsStalled { unfinished_ids }) => {
            assert_eq!(
                unfinished_ids,
                vec!["CopyGenerator".to_string(), "NonzeroTestGenerator".to_string()]
            );
        }
        _ => panic!("expected a stall"),
    }
}

#[test]
fn generator_ref_keeps_the_generator() {
    let adapter = CopyGenerator { src: vt(0), dst: vt(1) }.adapter();
    let r = WitnessGeneratorRef::new(adapter);
    assert_eq!(r.id(), adapter.id());
    assert_eq!(r.watch_list(), adapter.watch_list());
}

#[test]
fn rng_advances_once_per_random_generator() {
    let gens = vec![
        WitnessGeneratorRef::new(RandomValueGenerator { target: vt(0) }.adapter()),
        copy(vt(0), vt(1)),
        WitnessGeneratorRef::new(RandomValueGenerator { target: vt(2) }.adapter()),
    ];
    let mut rng = FieldRng::new(5);
    let w = generate(&vec![], &gens, NUM_WIRES, DEGREE, identity_map(), &mut rng).unwrap();
    let mut expected = FieldRng::new(5);
    let first = expected.next_field();
    let second = expected.next_field();
    assert_eq!(rng, expected);
    assert_eq!(w.get(vt(0)), first);
    assert_eq!(w.get(vt(1)), first);
    assert_eq!(w.get(vt(2)), second);
}
