use plonky2_witness::generator::{
    ConstantGenerator, CopyGenerator, GeneratorKind, NonzeroTestGenerator, RandomValueGenerator,
    WitnessGeneratorRef,
};
use plonky2_witness::serialization::{read_target, write_target};
use plonky2_witness::target::Target;
use plonky2_witness::witness::WitnessError;

fn samples() -> Vec<WitnessGeneratorRef> {
    vec![
        WitnessGeneratorRef(GeneratorKind::Copy(CopyGenerator {
            src: Target::wire(3, 4),
            dst: Target::virtual_target(9),
        })),
        WitnessGeneratorRef(GeneratorKind::RandomValue(RandomValueGenerator {
            target: Target::virtual_target(usize::MAX),
        })),
        WitnessGeneratorRef(GeneratorKind::NonzeroTest(NonzeroTestGenerator {
            to_test: Target::virtual_target(0),
            dummy: Target::wire(0, 1),
        })),
        WitnessGeneratorRef(GeneratorKind::Constant(ConstantGenerator {
            row: 5,
            constant_index: 6,
            wire_index: 7,
            constant: 123456789,
        })),
    ]
}

#[test]
fn generators_round_trip() {
    for g in samples() {
        let bytes = g.to_bytes();
        assert_eq!(WitnessGeneratorRef::deserialize(&bytes), Ok((g, bytes.len())));
    }
}

#[test]
fn generators_read_back_one_after_another() {
    let s = samples();
    let mut buf = Vec::new();
    for g in &s {
        g.serialize(&mut buf);
    }
    let mut pos = 0;
    for g in &s {
        let (read, next) = WitnessGeneratorRef::deserialize(&buf[pos..]).unwrap();
        assert_eq!(&read, g);
        pos += next;
    }
    assert_eq!(pos, buf.len());
}

#[test]
fn serialized_forms_are_distinct() {
    let s = samples();
    for a in &s {
        for b in &s {
            assert_eq!(a.same_bytes(b), a == b);
        }
    }
}

#[test]
fn copy_generator_bytes() {
    let g = WitnessGeneratorRef(GeneratorKind::Copy(CopyGenerator {
        src: Target::virtual_target(1),
        dst: Target::wire(2, 3),
    }));
    let mut expected = vec![0u8, 0, 1, 0, 0, 0, 0, 0, 0, 0, 1];
    expected.extend_from_slice(&[2, 0, 0, 0, 0, 0, 0, 0, 3, 0, 0, 0, 0, 0, 0, 0]);
    assert_eq!(g.to_bytes(), expected);
}

#[test]
fn target_round_trip_at_offset() {
    let mut buf = vec![9u8, 9];
    write_target(&mut buf, Target::wire(258, 1));
    assert_eq!(buf.len(), 2 + 17);
    assert_eq!(read_target(&buf, 2), Some((Target::wire(258, 1), 19)));
    assert_eq!(read_target(&buf, 0), None);
}

#[test]
fn empty_input_is_malformed() {
    assert_eq!(WitnessGeneratorRef::deserialize(&[]), Err(WitnessError::MalformedPayload));
}

#[test]
fn unknown_tag_is_reported() {
    assert_eq!(
        WitnessGeneratorRef::deserialize(&[7, 0, 0]),
        Err(WitnessError::UnknownGeneratorId { id: 7 })
    );
}

#[test]
fn truncated_payload_is_malformed() {
    let bytes = samples()[0].to_bytes();
    assert_eq!(
        WitnessGeneratorRef::deserialize(&bytes[..bytes.len() - 1]),
        Err(WitnessError::MalformedPayload)
    );
}

#[test]
fn constant_outside_field_is_malformed() {
    let mut bytes = vec![3u8];
    bytes.extend_from_slice(&[0u8; 24]);
    bytes.extend_from_slice(&u64::MAX.to_le_bytes());
    assert_eq!(WitnessGeneratorRef::deserialize(&bytes), Err(WitnessError::MalformedPayload));
}
