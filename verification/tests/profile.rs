use deskkin::owner_control::OwnerResponse;
use deskkin::profile::{
    classify_shutdown_response, is_exact_private_lan_address, validate_profile_name,
    validate_role_root, BindMode, IpAddress, PhysicalProfile, ProfileAvailability, ProfileError,
    ProfileRecording, ProfileState, SocketAddress, PRIVATE_LAN_PORT,
};
use deskkin::profile::{
    check_private_directory, check_profile_file, PathFacts, PROFILE_BYTES_MAX,
};

fn v4(octets: [u8; 4], port: u16) -> SocketAddress {
    SocketAddress { ip: IpAddress::V4(octets), port }
}

#[test]
fn schema_is_closed_and_paths_are_reserved() {
    assert!(classify_shutdown_response(&OwnerResponse::ShutdownAccepted).is_ok());
    assert!(matches!(
        classify_shutdown_response(&OwnerResponse::StaleOwner),
        Err(ProfileError::StaleGeneration)
    ));
    assert!(matches!(
        classify_shutdown_response(&OwnerResponse::OperationFailed),
        Err(ProfileError::ShutdownRejected)
    ));
    for name in ["", "Upper", "-leading", "trailing-", "two--hyphens"] {
        assert!(validate_profile_name(name).is_err());
    }
    assert!(validate_profile_name("a2345678901234567890123456789012").is_ok());
    assert!(validate_profile_name("a23456789012345678901234567890123").is_err());
    for role in ["", "/absolute", "a/../b", "a//b", "profile-control/host"] {
        assert!(validate_role_root(role).is_err());
    }
    assert!(PhysicalProfile::new(
        "profiles/host".into(),
        BindMode::Loopback,
        v4([127, 0, 0, 1], 39032),
        ProfileAvailability::Available,
        ProfileRecording::On,
    )
    .is_err());
    assert!(PhysicalProfile::new(
        "host".into(),
        BindMode::PrivateLan,
        v4([10, 0, 0, 2], PRIVATE_LAN_PORT + 1),
        ProfileAvailability::Available,
        ProfileRecording::On,
    )
    .is_err());
    assert!(PhysicalProfile::new(
        "host".into(),
        BindMode::PrivateLan,
        v4([192, 168, 1, 2], 39042),
        ProfileAvailability::Unavailable,
        ProfileRecording::Off,
    )
    .is_ok());
}

#[test]
fn role_roots_accept_plain_relative_paths() {
    for role in ["host", "roles/host", "a/.b/c", "a/..b", "profiles2/x", "x/profiles"] {
        assert_eq!(validate_role_root(role), Ok(()), "{role}");
    }
    for role in [".", "..", "a/.", "./a", "a/", "profiles", "profiles/x", "a/../b"] {
        assert_eq!(validate_role_root(role), Err(ProfileError::SchemaInvalid), "{role}");
    }
}

#[test]
fn profile_names_reject_other_characters() {
    assert_eq!(validate_profile_name("ok-name-2"), Ok(()));
    assert_eq!(validate_profile_name("a"), Ok(()));
    assert_eq!(validate_profile_name("a_b"), Err(ProfileError::NameInvalid));
    assert_eq!(validate_profile_name("é"), Err(ProfileError::NameInvalid));
    assert_eq!(validate_profile_name("-"), Err(ProfileError::NameInvalid));
}

#[test]
fn bind_addresses_must_fit_the_mode() {
    let loopback6 = SocketAddress { ip: IpAddress::V6([0, 0, 0, 0, 0, 0, 0, 1]), port: 39032 };
    let any6 = SocketAddress { ip: IpAddress::V6([0; 8]), port: 39032 };
    let ok = |mode, address| {
        PhysicalProfile::new(
            "host".into(),
            mode,
            address,
            ProfileAvailability::Available,
            ProfileRecording::On,
        )
    };
    assert!(ok(BindMode::Loopback, loopback6).is_ok());
    assert_eq!(ok(BindMode::Loopback, any6).err(), Some(ProfileError::AddressInvalid));
    assert_eq!(ok(BindMode::Loopback, v4([127, 0, 0, 1], 0)).err(), Some(ProfileError::AddressInvalid));
    assert_eq!(ok(BindMode::PrivateLan, v4([127, 0, 0, 1], 39042)).err(), Some(ProfileError::AddressInvalid));
    assert!(is_exact_private_lan_address(&v4([172, 16, 0, 1], 39042)));
    assert!(is_exact_private_lan_address(&v4([172, 31, 9, 1], 39042)));
    assert!(!is_exact_private_lan_address(&v4([172, 32, 0, 1], 39042)));
    assert!(!is_exact_private_lan_address(&v4([192, 169, 0, 1], 39042)));
    assert!(!is_exact_private_lan_address(&loopback6));
}

#[test]
fn states_and_errors_have_fixed_texts() {
    assert_eq!(ProfileState::Stopped.as_str(), "stopped");
    assert_eq!(ProfileState::Running.as_str(), "running");
    assert_eq!(ProfileState::ProfileMismatch.as_str(), "profile_mismatch");
    assert_eq!(ProfileState::OwnerUnknown.as_str(), "owner_unknown");
    assert_eq!(ProfileError::NotFound.message(), "profile not found");
    assert_eq!(ProfileError::ShutdownTimeout.message(), "owner shutdown timed out");
}

use deskkin::profile::{ProfileEntry, ProfileStore, PROFILE_LIMIT};

fn entry(name: &str) -> ProfileEntry {
    ProfileEntry { file_name: Some(name.into()), loaded: Ok(()) }
}

#[test]
fn listing_sorts_names_and_stops_at_the_first_bad_entry() {
    let store = ProfileStore::local();
    assert_eq!(store.state_root(), ".deskkin");
    assert_eq!(ProfileStore::at("/tmp/x".into()).state_root(), "/tmp/x");
    let names = store
        .list(&vec![entry("lab.json"), entry("desk-2.json"), entry("attic.json")])
        .unwrap();
    assert_eq!(names, vec!["attic", "desk-2", "lab"]);
    assert_eq!(store.list(&vec![]), Ok(vec![]));
    assert_eq!(
        store.list(&vec![entry("lab.json"), entry("notes.txt"), entry("Bad.json")]),
        Err(ProfileError::StoreUnsafe)
    );
    assert_eq!(
        store.list(&vec![entry("Bad.json"), entry("notes.txt")]),
        Err(ProfileError::NameInvalid)
    );
    assert_eq!(
        store.list(&vec![ProfileEntry { file_name: None, loaded: Ok(()) }]),
        Err(ProfileError::StoreUnsafe)
    );
    assert_eq!(
        store.list(&vec![
            entry("a.json"),
            ProfileEntry { file_name: Some("b.json".into()), loaded: Err(ProfileError::SchemaInvalid) },
        ]),
        Err(ProfileError::SchemaInvalid)
    );
    assert_eq!(store.list(&vec![entry("é.json")]), Err(ProfileError::NameInvalid));
}

#[test]
fn listing_refuses_more_profiles_than_the_limit() {
    let store = ProfileStore::local();
    let full: Vec<ProfileEntry> = (0..PROFILE_LIMIT).map(|n| entry(&format!("p{n}.json"))).collect();
    assert_eq!(store.list(&full).unwrap().len(), PROFILE_LIMIT);
    let over: Vec<ProfileEntry> =
        (0..=PROFILE_LIMIT).map(|n| entry(&format!("p{n}.json"))).collect();
    assert_eq!(store.list(&over), Err(ProfileError::LimitExceeded));
}

use deskkin::profile::profile_path;

#[test]
fn profile_paths_join_like_relative_paths() {
    assert_eq!(profile_path(&"profiles".into(), "lab"), Ok("profiles/lab.json".to_string()));
    assert_eq!(profile_path(&"profiles/".into(), "lab"), Ok("profiles/lab.json".to_string()));
    assert_eq!(profile_path(&"".into(), "lab"), Ok("lab.json".to_string()));
    assert_eq!(profile_path(&"profiles".into(), "../x"), Err(ProfileError::NameInvalid));
}

#[test]
fn private_lan_scope_is_exact_rfc1918_ipv4_on_fixed_port() {
    for address in [
        v4([10, 0, 0, 1], PRIVATE_LAN_PORT),
        v4([172, 16, 0, 1], PRIVATE_LAN_PORT),
        v4([172, 31, 255, 254], PRIVATE_LAN_PORT),
        v4([192, 168, 1, 1], PRIVATE_LAN_PORT),
    ] {
        assert!(is_exact_private_lan_address(&address));
    }
    for address in [
        v4([0, 0, 0, 0], PRIVATE_LAN_PORT),
        v4([127, 0, 0, 1], PRIVATE_LAN_PORT),
        v4([169, 254, 1, 1], PRIVATE_LAN_PORT),
        v4([172, 32, 0, 1], PRIVATE_LAN_PORT),
        v4([192, 168, 1, 1], 0),
        SocketAddress { ip: IpAddress::V6([0, 0, 0, 0, 0, 0, 0, 1]), port: 39042 },
    ] {
        assert!(!is_exact_private_lan_address(&address));
    }
}

fn file(mode: u32, len: u64) -> PathFacts {
    PathFacts { symlink: false, file: true, directory: false, mode, len }
}

#[test]
fn profile_files_must_be_private_regular_and_bounded() {
    assert_eq!(check_profile_file(&file(0o100600, 10)), Ok(()));
    assert_eq!(check_profile_file(&file(0o600, PROFILE_BYTES_MAX)), Ok(()));
    assert_eq!(
        check_profile_file(&file(0o600, PROFILE_BYTES_MAX + 1)),
        Err(ProfileError::StoreUnsafe)
    );
    assert_eq!(check_profile_file(&file(0o640, 10)), Err(ProfileError::StoreUnsafe));
    assert_eq!(check_profile_file(&file(0o400, 10)), Err(ProfileError::StoreUnsafe));
    let link = PathFacts { symlink: true, ..file(0o600, 10) };
    assert_eq!(check_profile_file(&link), Err(ProfileError::StoreUnsafe));
    let directory = PathFacts { file: false, directory: true, ..file(0o600, 10) };
    assert_eq!(check_profile_file(&directory), Err(ProfileError::StoreUnsafe));
}

#[test]
fn store_directories_must_be_private_directories() {
    let directory = PathFacts { symlink: false, file: false, directory: true, mode: 0o40700, len: 4096 };
    assert_eq!(check_private_directory(&directory), Ok(()));
    assert_eq!(
        check_private_directory(&PathFacts { mode: 0o755, ..directory }),
        Err(ProfileError::StoreUnsafe)
    );
    assert_eq!(
        check_private_directory(&PathFacts { symlink: true, ..directory }),
        Err(ProfileError::StoreUnsafe)
    );
    assert_eq!(
        check_private_directory(&PathFacts { directory: false, file: true, ..directory }),
        Err(ProfileError::StoreUnsafe)
    );
}

#[test]
fn publication_respects_the_profile_count_and_size_limits() {
    let store = ProfileStore::at(".deskkin".to_string());
    assert_eq!(store.check_publication(false, PROFILE_LIMIT - 1, 100), Ok(()));
    assert_eq!(
        store.check_publication(false, PROFILE_LIMIT, 100),
        Err(ProfileError::LimitExceeded)
    );
    assert_eq!(store.check_publication(true, PROFILE_LIMIT, 100), Ok(()));
    assert_eq!(store.check_publication(true, 0, 4096), Ok(()));
    assert_eq!(store.check_publication(true, 0, 4097), Err(ProfileError::SchemaInvalid));
    assert_eq!(
        store.check_publication(false, PROFILE_LIMIT, 4097),
        Err(ProfileError::LimitExceeded)
    );
}
