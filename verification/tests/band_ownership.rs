use deskkin::band_ownership::{BandOwnership, OwnershipError};

#[test]
fn transfer_must_complete_before_the_same_buffer_is_rendered_again() {
    let mut ownership = BandOwnership::<2>::new();
    ownership.begin_render(0).unwrap();
    ownership.submit(0).unwrap();
    assert_eq!(
        ownership.begin_render(0),
        Err(OwnershipError::TransferInFlight)
    );

    ownership.begin_render(1).unwrap();
    ownership.submit(1).unwrap();
    ownership.complete(0).unwrap();
    ownership.begin_render(0).unwrap();
}

#[test]
fn render_and_transfer_ownership_cannot_overlap() {
    let mut ownership = BandOwnership::<2>::new();
    ownership.begin_render(0).unwrap();
    assert_eq!(
        ownership.begin_render(1),
        Err(OwnershipError::AlreadyRendering)
    );
    assert_eq!(ownership.complete(0), Err(OwnershipError::NotInFlight));
    ownership.submit(0).unwrap();
    assert_eq!(ownership.submit(0), Err(OwnershipError::NotRendering));
}

#[test]
fn out_of_range_buffers_are_invalid_and_ignored_by_failure() {
    let mut ownership = BandOwnership::<2>::new();
    assert_eq!(ownership.begin_render(2), Err(OwnershipError::InvalidBuffer));
    assert_eq!(ownership.submit(5), Err(OwnershipError::InvalidBuffer));
    assert_eq!(ownership.complete(2), Err(OwnershipError::InvalidBuffer));
    ownership.submission_failed(7);
    assert!(!ownership.is_inflight(7));
    assert!(!ownership.is_inflight(0));
}

#[test]
fn failed_submission_releases_the_buffer() {
    let mut ownership = BandOwnership::<2>::new();
    ownership.begin_render(1).unwrap();
    ownership.submit(1).unwrap();
    assert!(ownership.is_inflight(1));
    ownership.submission_failed(1);
    assert!(!ownership.is_inflight(1));
    assert_eq!(ownership.complete(1), Err(OwnershipError::NotInFlight));
    ownership.begin_render(1).unwrap();
}
