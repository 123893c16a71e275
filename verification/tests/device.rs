use deskkin::device::{
    WIDTH,
    digest, dirty_measurement, dirty_runs, elapsed_us, encode_pet_benchmark, load_context,
    load_generation, pet_benchmark_record, stage_run, store_context, store_generation, DirtyRange, DirtyRun,
    PetBenchmarkCounters,
};

fn counters() -> PetBenchmarkCounters {
    PetBenchmarkCounters {
        state: 2,
        allocation_failures: 3,
        transfer_failures: 70_000,
        duration_ms: 0x0102_0304,
        update_requests: 5,
        completed_frames: 6,
        render_total_us: 7,
        transfer_total_us: 8,
        render_max_us: 9,
        transfer_max_us: 10,
        frames_within_budget: 11,
        stalls: 12,
        deadline_misses: 0x1_0000,
        max_consecutive_misses: 0x0203,
        dirty_lines: 14,
        transferred_bytes: 15,
        digest_updates: 0xffff_ffff,
    }
}

#[test]
fn pet_benchmark_fields_are_big_endian_and_saturated() {
    let mut frame = [0xaau8; 96];
    encode_pet_benchmark(&counters(), &mut frame);
    assert!(frame[..26].iter().all(|b| *b == 0xaa));
    assert!(frame[80..].iter().all(|b| *b == 0xaa));
    assert_eq!(frame[26], 2);
    assert_eq!(frame[27], 3);
    assert_eq!(&frame[28..30], &[0xff, 0xff]);
    assert_eq!(&frame[30..34], &[1, 2, 3, 4]);
    assert_eq!(&frame[34..38], &[0, 0, 0, 5]);
    assert_eq!(&frame[58..62], &[0, 0, 0, 11]);
    assert_eq!(&frame[62..64], &[0, 12]);
    assert_eq!(&frame[64..66], &[0xff, 0xff]);
    assert_eq!(&frame[66..68], &[2, 3]);
    assert_eq!(&frame[68..72], &[0, 0, 0, 14]);
    assert_eq!(&frame[76..80], &[0xff, 0xff, 0xff, 0xff]);
    assert_eq!(pet_benchmark_record(&counters()).len(), 54);
}

#[test]
fn digest_is_fnv_over_pixels() {
    assert_eq!(digest(&[]), 2_166_136_261);
    let expected = (2_166_136_261u32 ^ 0x1234).wrapping_mul(16_777_619);
    assert_eq!(digest(&[0x1234]), expected);
    let two = (expected ^ 0xffff).wrapping_mul(16_777_619);
    assert_eq!(digest(&[0x1234, 0xffff]), two);
    assert_ne!(digest(&[1, 2]), digest(&[2, 1]));
}

#[test]
fn dirty_measurement_counts_lines_and_bytes() {
    let ranges = [
        DirtyRange { start: 0, end: 0 },
        DirtyRange { start: 10, end: 20 },
        DirtyRange { start: 0, end: 320 },
        DirtyRange { start: 5, end: 5 },
    ];
    assert_eq!(dirty_measurement(&ranges), (2, 20 + 640));
    assert_eq!(dirty_measurement(&[]), (0, 0));
}

#[test]
fn dirty_lines_group_into_maximal_equal_runs() {
    let a = DirtyRange { start: 4, end: 9 };
    let b = DirtyRange { start: 0, end: 320 };
    let empty = DirtyRange { start: 7, end: 7 };
    let ranges = [empty, a, a, a, b, empty, b, b, a];
    assert_eq!(
        dirty_runs(&ranges),
        vec![
            DirtyRun { first_line: 1, lines: 3, start: 4, end: 9 },
            DirtyRun { first_line: 4, lines: 1, start: 0, end: 320 },
            DirtyRun { first_line: 6, lines: 2, start: 0, end: 320 },
            DirtyRun { first_line: 8, lines: 1, start: 4, end: 9 },
        ]
    );
    assert!(dirty_runs(&[empty, empty]).is_empty());
}

#[test]
fn elapsed_time_saturates_both_ways() {
    assert_eq!(elapsed_us(10, 25), 15);
    assert_eq!(elapsed_us(25, 10), 0);
    assert_eq!(elapsed_us(0, u64::from(u32::MAX) + 7), u32::MAX);
}

#[test]
fn context_and_generation_round_trip() {
    let value: [u8; 16] = core::array::from_fn(|i| (i * 17) as u8);
    let words = store_context(value);
    assert_eq!(words[0], 0x0011_2233);
    let mut output = [0u8; 20];
    load_context(&words, &mut output);
    assert_eq!(&output[..16], &value);
    assert_eq!(&output[16..], &[0, 0, 0, 0]);
    let generation = 0x0123_4567_89ab_cdef_u64;
    let (high, low) = store_generation(generation);
    assert_eq!((high, low), (0x0123_4567, 0x89ab_cdef));
    assert_eq!(load_generation(high, low, high), Some(generation));
    assert_eq!(load_generation(high, low, high + 1), None);
}

use deskkin::device::{
    next_publication, plan_device_unpair, read_slot_length, recover_intent, DevicePeerState,
    DeviceRevocation, RecordState, ServiceStatus, StoredRecord,
};

fn identity(state: DevicePeerState, generation: u64, sequence: u64, peer: u8) -> StoredRecord {
    let mut payload = vec![1u8; 64];
    if state != DevicePeerState::Unpaired {
        payload.extend_from_slice(&[peer; 32]);
    }
    StoredRecord {
        state: RecordState::Identity(state),
        generation,
        publication_sequence: sequence,
        payload,
    }
}

#[test]
fn store_reads_and_publications_follow_the_slot_protocol() {
    assert_eq!(read_slot_length(0, 8), Ok(None));
    assert_eq!(read_slot_length(-3, 8), Err(ServiceStatus::StoreFailed));
    assert_eq!(read_slot_length(9, 8), Ok(Some(8)));
    assert_eq!(read_slot_length(10, 8), Err(ServiceStatus::StoreFailed));
    assert_eq!(next_publication(0), Ok((1, true)));
    assert_eq!(next_publication(1), Ok((2, false)));
    assert_eq!(next_publication(u64::MAX), Err(ServiceStatus::StoreFailed));
}

#[test]
fn device_unpair_revokes_the_exact_peer_once() {
    let peer = [7u8; 32];
    assert_eq!(
        plan_device_unpair(&peer, &identity(DevicePeerState::Paired, 4, 10, 7)),
        Ok(DeviceRevocation { sequence: 11, generation: 5, recovering: false })
    );
    assert_eq!(
        plan_device_unpair(&peer, &identity(DevicePeerState::Revoking, 5, 11, 7)),
        Ok(DeviceRevocation { sequence: 11, generation: 5, recovering: true })
    );
    assert_eq!(
        plan_device_unpair(&peer, &identity(DevicePeerState::Paired, 4, 10, 8)),
        Err(ServiceStatus::PeerMismatch)
    );
    assert_eq!(
        plan_device_unpair(&peer, &identity(DevicePeerState::Unpaired, 4, 10, 7)),
        Err(ServiceStatus::PeerMismatch)
    );
    assert_eq!(
        plan_device_unpair(&peer[..31], &identity(DevicePeerState::Paired, 4, 10, 7)),
        Err(ServiceStatus::Invalid)
    );
    assert_eq!(
        plan_device_unpair(&peer, &identity(DevicePeerState::Paired, u64::MAX, 10, 7)),
        Err(ServiceStatus::StoreFailed)
    );
}

#[test]
fn interrupted_unpairings_are_recognised() {
    let peer = [7u8; 32];
    let finished = identity(DevicePeerState::Unpaired, 5, 12, 0);
    let revoking = identity(DevicePeerState::Revoking, 5, 11, 7);
    assert_eq!(recover_intent(&peer, 12, Some(&finished), Some(&revoking)), Ok(true));
    assert_eq!(recover_intent(&peer, 11, Some(&revoking), None), Ok(false));
    assert_eq!(recover_intent(&peer, 13, Some(&finished), Some(&revoking)), Err(ServiceStatus::StoreFailed));
    assert_eq!(recover_intent(&peer, 12, None, Some(&revoking)), Err(ServiceStatus::StoreFailed));
    let other = identity(DevicePeerState::Revoking, 5, 11, 9);
    assert_eq!(recover_intent(&peer, 12, Some(&finished), Some(&other)), Err(ServiceStatus::PeerMismatch));
    let older = identity(DevicePeerState::Revoking, 4, 11, 7);
    assert_eq!(recover_intent(&peer, 12, Some(&finished), Some(&older)), Err(ServiceStatus::PeerMismatch));
}

#[test]
fn staged_runs_are_packed_rows_of_byte_swapped_pixels() {
    let pixels: Vec<u16> = (0..(WIDTH * 3) as u32).map(|i| i as u16).collect();
    let run = DirtyRun { first_line: 1, lines: 2, start: 2, end: 5 };
    let mut staging = vec![0xeeeeu16; 8];
    stage_run(&pixels, &run, &mut staging);
    let expected: Vec<u16> = [
        WIDTH + 2,
        WIDTH + 3,
        WIDTH + 4,
        2 * WIDTH + 2,
        2 * WIDTH + 3,
        2 * WIDTH + 4,
    ]
    .iter()
    .map(|&i| (i as u16).swap_bytes())
    .chain([0xeeee, 0xeeee])
    .collect();
    assert_eq!(staging, expected);
}
