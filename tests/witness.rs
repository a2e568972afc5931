use plonky2_witness::field::{field_mul, inverse, pow, FIELD_ORDER};
use plonky2_witness::generator::ConstantGenerator;
use plonky2_witness::target::{ExtensionTarget, Target, Wire};
use plonky2_witness::witness::{GeneratedValues, PartitionWitness, WitnessError};

// One wire and one row: the wire sits at position 0, virtual target i at 1 + i.
fn small_witness() -> PartitionWitness {
    PartitionWitness::new(1, 1, vec![0, 0, 2])
}

#[test]
fn set_returns_representative_once() {
    let mut w = small_witness();
    let t = Target::virtual_target(0);
    assert_eq!(w.set_target_returning_rep(t, 4), Ok(Some(0)));
    assert_eq!(w.set_target_returning_rep(Target::wire(0, 0), 4), Ok(None));
    assert_eq!(w.get(Target::wire(0, 0)), 4);
    assert!(w.contains(t));
    assert!(!w.contains(Target::virtual_target(1)));
    assert!(w.contains_all(&[t, Target::wire(0, 0)]));
    assert!(!w.contains_all(&[t, Target::virtual_target(1)]));
    assert!(w.contains_all(&[]));
}

#[test]
fn unequal_rewrite_is_inconsistent() {
    let mut w = small_witness();
    assert_eq!(w.set_target(Target::wire(0, 0), 3), Ok(()));
    let r = w.set_target_returning_rep(Target::virtual_target(0), 5);
    assert_eq!(
        r,
        Err(WitnessError::Inconsistent {
            target: Target::virtual_target(0),
            existing: 3,
            attempted: 5
        })
    );
    assert_eq!(w.get(Target::virtual_target(0)), 3);
}

#[test]
fn read_goes_through_representative() {
    let mut w = small_witness();
    assert_eq!(w.try_get(Target::virtual_target(0)), None);
    w.set_target(Target::wire(0, 0), 8).unwrap();
    assert_eq!(w.try_get(Target::virtual_target(0)), Some(8));
    assert_eq!(w.try_get(Target::virtual_target(1)), None);
}

#[test]
fn target_index_layout() {
    assert_eq!(Target::wire(2, 1).index(3, 4), 7);
    assert_eq!(Target::virtual_target(5).index(3, 4), 17);
}

#[test]
fn generated_values_constructors() {
    assert!(GeneratedValues::empty().target_values.is_empty());
    assert!(GeneratedValues::with_capacity(4).target_values.is_empty());
    let w = Wire { row: 1, column: 2 };
    assert_eq!(GeneratedValues::singleton_wire(w, 9).target_values, vec![(Target::Wire(w), 9)]);
    let t = Target::virtual_target(3);
    assert_eq!(GeneratedValues::singleton_target(t, 2).target_values, vec![(t, 2)]);
    let et = ExtensionTarget([Target::virtual_target(0), Target::virtual_target(1)]);
    let g = GeneratedValues::singleton_extension_target(et, [5, 6]);
    assert_eq!(
        g.target_values,
        vec![(Target::virtual_target(0), 5), (Target::virtual_target(1), 6)]
    );
    let mut g = GeneratedValues::empty();
    g.set_target(t, 1);
    g.set_extension_target(et, [7, 8]);
    assert_eq!(g.target_values.len(), 3);
    assert_eq!(g.target_values[2], (Target::virtual_target(1), 8));
}

#[test]
fn field_arithmetic() {
    assert_eq!(field_mul(FIELD_ORDER - 1, FIELD_ORDER - 1), 1);
    assert_eq!(field_mul(1 << 32, 1 << 32), (1u64 << 32) - 1);
    assert_eq!(pow(3, 4), 81);
    assert_eq!(pow(7, 0), 1);
    let x = inverse(2);
    assert_eq!(field_mul(2, x), 1);
    assert_eq!(x, (FIELD_ORDER + 1) / 2);
}

#[test]
fn set_constant_changes_only_the_constant() {
    let mut c = ConstantGenerator { row: 1, constant_index: 2, wire_index: 3, constant: 4 };
    c.set_constant(10);
    assert_eq!(c, ConstantGenerator { row: 1, constant_index: 2, wire_index: 3, constant: 10 });
}
