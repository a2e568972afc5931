use ethereum_types::U256;
use plonky2_witness::memory::{
    MemoryAddress, MemoryChannel, MemoryOp, MemoryOpKind, MemoryState, Segment, NUM_CHANNELS,
    NUM_SEGMENTS,
};

#[test]
fn memory_trace_write_then_read() {
    let mut state = MemoryState::default();
    let addr = MemoryAddress::new(0, Segment::Code, 5);
    let write = MemoryOp::new(MemoryChannel::Code, 0, addr, MemoryOpKind::Write, U256::from(42u64));
    state.apply_ops(&[write]);
    let value = state.get(addr);
    let read = MemoryOp::new(
        MemoryChannel::GeneralPurpose(0),
        1,
        addr,
        MemoryOpKind::Read,
        value,
    );
    state.apply_ops(&[read]);
    assert_eq!(read.value, U256::from(42u64));
    assert_eq!(write.timestamp, 0);
    assert_eq!(read.timestamp, NUM_CHANNELS + 1);
    assert!(write.filter && read.filter);
}

#[test]
fn channel_indices() {
    assert_eq!(MemoryChannel::Code.index(), 0);
    assert_eq!(MemoryChannel::GeneralPurpose(0).index(), 1);
    assert_eq!(MemoryChannel::GeneralPurpose(NUM_CHANNELS - 2).index(), NUM_CHANNELS - 1);
}

#[test]
fn timestamps_increase_across_channels_and_clocks() {
    let addr = MemoryAddress::new(0, Segment::Stack, 0);
    let mut last = None;
    for clock in 0..3 {
        for ch in 0..NUM_CHANNELS {
            let channel =
                if ch == 0 { MemoryChannel::Code } else { MemoryChannel::GeneralPurpose(ch - 1) };
            let op = MemoryOp::new(channel, clock, addr, MemoryOpKind::Read, U256::zero());
            if let Some(t) = last {
                assert!(op.timestamp > t);
            }
            last = Some(op.timestamp);
        }
    }
}

#[test]
fn unset_addresses_read_zero() {
    let state = MemoryState::default();
    assert_eq!(state.get(MemoryAddress::new(0, Segment::MainMemory, 1000)), U256::zero());
}

#[test]
fn last_write_wins_and_reads_change_nothing() {
    let mut state = MemoryState::default();
    let a = MemoryAddress::new(0, Segment::MainMemory, 3);
    let b = MemoryAddress::new(0, Segment::MainMemory, 1);
    let ops = [
        MemoryOp::new(MemoryChannel::Code, 0, a, MemoryOpKind::Write, U256::from(1u64)),
        MemoryOp::new(MemoryChannel::Code, 1, a, MemoryOpKind::Write, U256::from(2u64)),
        MemoryOp::new(MemoryChannel::Code, 2, a, MemoryOpKind::Read, U256::from(77u64)),
    ];
    state.apply_ops(&ops);
    assert_eq!(state.get(a), U256::from(2u64));
    assert_eq!(state.get(b), U256::zero());
    assert_eq!(state.contexts[0].segments[Segment::MainMemory.index()].content.len(), 4);
}

#[test]
fn kernel_code_is_loaded() {
    let state = MemoryState::new(&[0x60, 0x01]);
    assert_eq!(state.get(MemoryAddress::new(0, Segment::Code, 0)), U256::from(0x60u64));
    assert_eq!(state.get(MemoryAddress::new(0, Segment::Code, 1)), U256::from(1u64));
    assert_eq!(state.get(MemoryAddress::new(0, Segment::Code, 2)), U256::zero());
    assert_eq!(state.contexts[0].segments.len(), NUM_SEGMENTS);
}

#[test]
fn set_and_get_in_other_segments() {
    let mut state = MemoryState::default();
    let a = MemoryAddress::new(0, Segment::Calldata, 2);
    state.set(a, U256::from(5u64));
    assert_eq!(state.get(a), U256::from(5u64));
    assert_eq!(state.get(MemoryAddress::new(0, Segment::Returndata, 2)), U256::zero());
}

#[test]
fn addresses_from_words_saturate() {
    let big = U256([0, 1, 0, 0]);
    let a = MemoryAddress::new_u256s(U256::from(3u64), U256::from(4u64), big);
    assert_eq!(a, MemoryAddress::new(3, Segment::Returndata, usize::MAX));
    let b = MemoryAddress::new_u256s(U256::from(u64::MAX), U256::zero(), U256::from(9u64));
    assert_eq!(b.context, u64::MAX as usize);
    assert_eq!(b.segment, 0);
    assert_eq!(b.virt, 9);
}

#[test]
fn second_replay_changes_nothing() {
    let a = MemoryAddress::new(0, Segment::MainMemory, 4);
    let b = MemoryAddress::new(0, Segment::Stack, 0);
    let ops = [
        MemoryOp::new(MemoryChannel::Code, 0, a, MemoryOpKind::Write, U256::from(1u64)),
        MemoryOp::new(MemoryChannel::Code, 1, b, MemoryOpKind::Write, U256::from(2u64)),
        MemoryOp::new(MemoryChannel::Code, 2, a, MemoryOpKind::Write, U256::from(3u64)),
    ];
    let mut state = MemoryState::default();
    state.apply_ops(&ops);
    let once: Vec<Vec<Vec<U256>>> = state
        .contexts
        .iter()
        .map(|c| c.segments.iter().map(|s| s.content.clone()).collect())
        .collect();
    state.apply_ops(&ops);
    let twice: Vec<Vec<Vec<U256>>> = state
        .contexts
        .iter()
        .map(|c| c.segments.iter().map(|s| s.content.clone()).collect())
        .collect();
    assert_eq!(once, twice);
    assert_eq!(state.get(a), U256::from(3u64));
}
