use deskkin::identity::{
    accept_request_id, constant_time_eq, context_id_from_key, decode_hex, hex, new_context_id,
    new_control_id, reserve_pairing_window, valid_peer_transition, validate_hex, validate_peer,
    PeerState, SessionError, StoreError,
};
use deskkin::identity::{check_identity_shape, IdentityShape, PeerShape};
use deskkin::identity::new_identity_record;
use std::sync::Mutex;

const KEY: &str = "00112233445566778899aabbccddeeff00112233445566778899aabbccddeeff";
const TX: &str = "0123456789abcdef0123456789abcdef";

#[test]
fn request_ids_start_at_one_and_are_strictly_monotonic() {
    let mut last = 0;
    assert!(!accept_request_id(&mut last, 0));
    assert!(accept_request_id(&mut last, 1));
    assert!(!accept_request_id(&mut last, 1));
    assert!(!accept_request_id(&mut last, 0));
    assert!(!accept_request_id(&mut last, 3));
    assert!(accept_request_id(&mut last, 2));
    assert!(!accept_request_id(&mut last, 1));
}

#[test]
fn pairing_window_reservation_is_single_use_until_explicit_reset() {
    let state = Mutex::new((false, false, false));
    assert!(reserve_pairing_window(&mut state.lock().unwrap()));
    assert!(!reserve_pairing_window(&mut state.lock().unwrap()));
    state.lock().unwrap().2 = true;
    assert!(!reserve_pairing_window(&mut state.lock().unwrap()));
    *state.lock().unwrap() = (false, false, false);
    assert!(reserve_pairing_window(&mut state.lock().unwrap()));
}

#[test]
fn request_id_at_the_top_of_the_range_is_never_followed() {
    let mut last = u32::MAX;
    assert!(!accept_request_id(&mut last, 0));
    assert_eq!(last, u32::MAX);
}

#[test]
fn reservation_sets_the_transfer_flag_and_keeps_the_finished_flag() {
    let mut state = (false, false, true);
    assert!(reserve_pairing_window(&mut state));
    assert_eq!(state, (true, true, true));
}

#[test]
fn hex_round_trips_and_is_lowercase() {
    assert_eq!(hex(&[0x00, 0x7f, 0xab, 0xff]), "007fabff");
    assert_eq!(decode_hex("007fabff"), Ok(vec![0x00, 0x7f, 0xab, 0xff]));
    assert_eq!(decode_hex(""), Ok(vec![]));
    assert_eq!(decode_hex("0"), Err(StoreError::Invalid));
    assert_eq!(decode_hex("AB"), Err(StoreError::Invalid));
    assert_eq!(decode_hex("zz"), Err(StoreError::Invalid));
    assert_eq!(decode_hex("é1"), Err(StoreError::Invalid));
    let bytes: Vec<u8> = (0..=255).collect();
    assert_eq!(decode_hex(&hex(&bytes)), Ok(bytes));
}

#[test]
fn hex_validation_counts_bytes_exactly() {
    assert_eq!(validate_hex(TX, 16), Ok(()));
    assert_eq!(validate_hex(TX, 15), Err(StoreError::Invalid));
    assert_eq!(validate_hex(&TX.to_uppercase(), 16), Err(StoreError::Invalid));
    assert_eq!(validate_hex("", 0), Ok(()));
}

#[test]
fn peers_need_full_length_lowercase_fields() {
    assert_eq!(validate_peer(&PeerState::Unpaired), Ok(()));
    let pending = PeerState::Pending {
        remote_public_key: KEY.into(),
        pairing_transaction_id: TX.into(),
    };
    assert_eq!(validate_peer(&pending), Ok(()));
    let short = PeerState::Revoking {
        remote_public_key: KEY.into(),
        previous_pairing_transaction_id: TX[..30].into(),
    };
    assert_eq!(validate_peer(&short), Err(StoreError::Invalid));
    let swapped = PeerState::Paired {
        remote_public_key: TX.into(),
        pairing_transaction_id: KEY.into(),
    };
    assert_eq!(validate_peer(&swapped), Err(StoreError::Invalid));
}

#[test]
fn peer_transitions_follow_the_pairing_order() {
    let pending = PeerState::Pending {
        remote_public_key: KEY.into(),
        pairing_transaction_id: TX.into(),
    };
    let committing = PeerState::Committing {
        remote_public_key: KEY.into(),
        pairing_transaction_id: TX.into(),
    };
    let paired = PeerState::Paired {
        remote_public_key: KEY.into(),
        pairing_transaction_id: TX.into(),
    };
    let other = PeerState::Committing {
        remote_public_key: KEY.into(),
        pairing_transaction_id: KEY[..32].into(),
    };
    assert!(valid_peer_transition(&PeerState::Unpaired, &pending));
    assert!(valid_peer_transition(&pending, &committing));
    assert!(valid_peer_transition(&committing, &paired));
    assert!(!valid_peer_transition(&pending, &other));
    assert!(!valid_peer_transition(&PeerState::Unpaired, &paired));
    assert!(!valid_peer_transition(&paired, &PeerState::Unpaired));
    assert!(!valid_peer_transition(&pending, &paired));
}

#[test]
fn constant_time_comparison_is_exact() {
    assert!(constant_time_eq(b"abc", b"abc"));
    assert!(!constant_time_eq(b"abc", b"abd"));
    assert!(!constant_time_eq(b"abc", b"ab"));
    assert!(constant_time_eq(b"", b""));
}

#[test]
fn context_ids_come_from_the_key_prefix() {
    let key: Vec<u8> = (1..=32).collect();
    let id = context_id_from_key(&key).unwrap();
    assert_eq!(id.to_vec(), (1..=16).collect::<Vec<u8>>());
    assert!(matches!(context_id_from_key(&key[..15]), Err(SessionError::Noise)));
}

#[test]
fn control_ids_are_fresh_lowercase_hex() {
    let first = new_control_id().unwrap();
    let second = new_control_id().unwrap();
    assert_eq!(first.len(), 32);
    assert!(validate_hex(&first, 16).is_ok());
    assert_ne!(first, second);
    assert!(new_context_id().is_ok());
}

use deskkin::identity::{check_peer_update, paired_generation, plan_unpair, UnpairPlan};

#[test]
fn unpairing_bumps_the_generation_once_and_recovers_revocations() {
    let paired = PeerState::Paired {
        remote_public_key: KEY.into(),
        pairing_transaction_id: TX.into(),
    };
    match plan_unpair(7, &paired, &KEY.to_string()) {
        Ok(UnpairPlan::Revoke { generation, revoking }) => {
            assert_eq!(generation, 8);
            assert_eq!(
                revoking,
                PeerState::Revoking {
                    remote_public_key: KEY.into(),
                    previous_pairing_transaction_id: TX.into(),
                }
            );
        }
        _ => panic!("paired peer not revoked"),
    }
    let revoking = PeerState::Revoking {
        remote_public_key: KEY.into(),
        previous_pairing_transaction_id: TX.into(),
    };
    assert!(matches!(plan_unpair(7, &revoking, &KEY.to_string()), Ok(UnpairPlan::Recover)));
    assert!(matches!(
        plan_unpair(7, &paired, &TX.to_string()),
        Err(StoreError::PeerMismatch)
    ));
    assert!(matches!(
        plan_unpair(7, &PeerState::Unpaired, &KEY.to_string()),
        Err(StoreError::PeerMismatch)
    ));
    assert!(matches!(
        plan_unpair(u64::MAX, &paired, &KEY.to_string()),
        Err(StoreError::GenerationExhausted)
    ));
    assert_eq!(paired_generation(5, &paired), Ok(5));
    assert_eq!(paired_generation(5, &revoking), Err(StoreError::PeerMismatch));
}

#[test]
fn peer_updates_need_valid_fields_and_an_allowed_step() {
    let pending = PeerState::Pending {
        remote_public_key: KEY.into(),
        pairing_transaction_id: TX.into(),
    };
    assert_eq!(check_peer_update(&PeerState::Unpaired, &pending), Ok(()));
    assert_eq!(check_peer_update(&pending, &pending), Err(StoreError::Invalid));
    let bad = PeerState::Pending {
        remote_public_key: "x".into(),
        pairing_transaction_id: TX.into(),
    };
    assert_eq!(check_peer_update(&PeerState::Unpaired, &bad), Err(StoreError::Invalid));
}

use deskkin::identity::{check_identity_record, IdentityRecord, NOISE_PATTERN};

fn record() -> IdentityRecord {
    let keypair = snow::Builder::new(NOISE_PATTERN.parse().unwrap())
        .generate_keypair()
        .unwrap();
    IdentityRecord {
        schema_major: 1,
        local_private_key: hex(&keypair.private),
        local_public_key: hex(&keypair.public),
        generation: 0,
        peer: PeerState::Unpaired,
    }
}

#[test]
fn stored_identities_need_a_matching_key_pair() {
    assert_eq!(check_identity_record(&record()), Ok(()));
    let mut other = record();
    other.local_public_key = record().local_public_key;
    assert_eq!(check_identity_record(&other), Err(StoreError::Invalid));
    let mut old_schema = record();
    old_schema.schema_major = 2;
    assert_eq!(check_identity_record(&old_schema), Err(StoreError::Invalid));
    let mut bad_peer = record();
    bad_peer.peer = PeerState::Paired {
        remote_public_key: "00".into(),
        pairing_transaction_id: TX.into(),
    };
    assert_eq!(check_identity_record(&bad_peer), Err(StoreError::Invalid));
}

fn keys(names: &[&str]) -> Vec<String> {
    names.iter().map(|name| name.to_string()).collect()
}

fn shape(top: &[&str], peer: Option<(&[&str], Option<&str>)>) -> IdentityShape {
    IdentityShape {
        keys: keys(top),
        peer: peer.map(|(names, state)| PeerShape { keys: keys(names), state: state.map(str::to_string) }),
    }
}

const TOP: [&str; 5] = ["peer", "generation", "local_public_key", "local_private_key", "schema_major"];

#[test]
fn identity_json_shape_is_closed_per_peer_state() {
    assert_eq!(check_identity_shape(&shape(&TOP, Some((&["state"], Some("unpaired"))))), Ok(()));
    for state in ["pending", "committing", "paired"] {
        assert_eq!(
            check_identity_shape(&shape(
                &TOP,
                Some((&["pairing_transaction_id", "state", "remote_public_key"], Some(state)))
            )),
            Ok(())
        );
    }
    assert_eq!(
        check_identity_shape(&shape(
            &TOP,
            Some((&["state", "remote_public_key", "previous_pairing_transaction_id"], Some("revoking")))
        )),
        Ok(())
    );
}

#[test]
fn identity_json_shape_rejects_missing_extra_and_mistyped_members() {
    let invalid = Err(StoreError::Invalid);
    let mut extra = TOP.to_vec();
    extra.push("unexpected");
    assert_eq!(check_identity_shape(&shape(&extra, Some((&["state"], Some("unpaired"))))), invalid);
    assert_eq!(check_identity_shape(&shape(&TOP[..4], Some((&["state"], Some("unpaired"))))), invalid);
    let renamed = ["peer", "generation", "local_public_key", "local_private_key", "schema"];
    assert_eq!(check_identity_shape(&shape(&renamed, Some((&["state"], Some("unpaired"))))), invalid);
    assert_eq!(check_identity_shape(&shape(&TOP, None)), invalid);
    assert_eq!(check_identity_shape(&shape(&TOP, Some((&["state"], None)))), invalid);
    assert_eq!(check_identity_shape(&shape(&TOP, Some((&["state"], Some("lost"))))), invalid);
    assert_eq!(
        check_identity_shape(&shape(&TOP, Some((&["state", "remote_public_key"], Some("unpaired"))))),
        invalid
    );
    assert_eq!(
        check_identity_shape(&shape(
            &TOP,
            Some((&["state", "remote_public_key", "pairing_transaction_id"], Some("revoking")))
        )),
        invalid
    );
}

#[test]
fn new_identities_are_valid_unpaired_and_fresh() {
    let first = new_identity_record().unwrap();
    assert_eq!(check_identity_record(&first), Ok(()));
    assert_eq!(first.schema_major, 1);
    assert_eq!(first.generation, 0);
    assert_eq!(first.peer, PeerState::Unpaired);
    assert_eq!(first.local_private_key.len(), 64);
    let second = new_identity_record().unwrap();
    assert_ne!(first.local_private_key, second.local_private_key);
}
