use deskkin::identity::SessionError;
use deskkin::session::{
    check_hello_reply, negotiate_hello, rejection_error, HelloOffer, HelloRejectReason, HelloReply, Outgoing, SessionWriteQueue,
    APPLICATION_QUEUE_MAX,
};

fn drain(queue: &mut SessionWriteQueue<u32>) -> Vec<String> {
    let mut out = Vec::new();
    while let Some(next) = queue.pop() {
        out.push(match next {
            Outgoing::Close(m) => format!("close{m}"),
            Outgoing::Pong => "pong".into(),
            Outgoing::Ping => "ping".into(),
            Outgoing::Application(m) => format!("app{m}"),
        });
    }
    out
}

/// An application message: an availability result for a request id.
#[derive(Debug, PartialEq)]
enum Message {
    AvailabilityResult { request_id: u32 },
    Close { reason: &'static str },
}

#[test]
fn session_writer_bounds_application_and_prioritizes_reserved_control() {
    let mut writer = SessionWriteQueue::new();
    writer.enqueue_ping_if_idle();
    for request_id in 0..8 {
        writer
            .enqueue_application(Message::AvailabilityResult { request_id })
            .unwrap();
    }
    assert!(matches!(
        writer.enqueue_application(Message::AvailabilityResult { request_id: 9 }),
        Err(SessionError::QueueFull)
    ));
    writer.enqueue_pong();
    writer.enqueue_close(Message::Close { reason: "timeout" });
    assert!(matches!(
        writer.pop(),
        Some(Outgoing::Close(Message::Close { reason: "timeout" }))
    ));
    assert!(matches!(writer.pop(), Some(Outgoing::Pong)));
    assert!(matches!(writer.pop(), Some(Outgoing::Ping)));
    assert!(matches!(
        writer.pop(),
        Some(Outgoing::Application(Message::AvailabilityResult { .. }))
    ));
}

#[test]
fn every_queued_message_is_written_once_in_priority_order() {
    let mut writer: SessionWriteQueue<u32> = SessionWriteQueue::new();
    writer.enqueue_ping_if_idle();
    for request_id in 0..APPLICATION_QUEUE_MAX as u32 {
        writer.enqueue_application(request_id).unwrap();
    }
    assert!(matches!(writer.enqueue_application(9), Err(SessionError::QueueFull)));
    writer.enqueue_pong();
    writer.enqueue_close(99);
    let order = drain(&mut writer);
    assert_eq!(&order[..3], &["close99", "pong", "ping"]);
    assert_eq!(order[3..], (0..8).map(|n| format!("app{n}")).collect::<Vec<_>>()[..]);
}

#[test]
fn pings_are_only_queued_when_idle() {
    let mut writer: SessionWriteQueue<u32> = SessionWriteQueue::new();
    writer.enqueue_application(1).unwrap();
    writer.enqueue_ping_if_idle();
    assert_eq!(drain(&mut writer), vec!["app1"]);
    writer.enqueue_pong();
    writer.enqueue_ping_if_idle();
    assert_eq!(drain(&mut writer), vec!["pong"]);
    writer.enqueue_ping_if_idle();
    assert_eq!(drain(&mut writer), vec!["ping"]);
    assert!(writer.pop().is_none());
}

const SUPPORTED: [u8; 8] = [1, 0, 0, 0, 0, 0, 0, 0];
const READ: [u8; 8] = [1, 0, 0, 0, 0, 0, 0, 0];

fn offer() -> HelloOffer {
    HelloOffer {
        session: [7; 16],
        protocol_majors: [2, 0, 0, 0, 0, 0, 0, 0],
        required_features: SUPPORTED,
        optional_features: [0; 8],
        requested_permissions: READ,
    }
}

#[test]
fn hello_with_common_version_features_and_permission_is_accepted() {
    assert_eq!(negotiate_hello(Some(offer()), &SUPPORTED, &READ), Ok([7; 16]));
}

#[test]
fn hello_without_protocol_major_one_has_no_common_version() {
    let mut hello = offer();
    hello.protocol_majors = [4, 0, 0, 0, 0, 0, 0, 0];
    assert_eq!(
        negotiate_hello(Some(hello), &SUPPORTED, &READ),
        Err(([7; 16], HelloRejectReason::NoCommonVersion))
    );
}

#[test]
fn hello_requiring_an_unknown_feature_is_refused() {
    let mut hello = offer();
    hello.required_features = [1, 0, 0, 0, 0, 0, 0, 0x80];
    assert_eq!(
        negotiate_hello(Some(hello), &SUPPORTED, &READ),
        Err(([7; 16], HelloRejectReason::RequiredFeatureUnsupported))
    );
    let mut none_shared = offer();
    none_shared.required_features = [0; 8];
    none_shared.optional_features = [2, 0, 0, 0, 0, 0, 0, 0];
    assert_eq!(
        negotiate_hello(Some(none_shared), &SUPPORTED, &READ),
        Err(([7; 16], HelloRejectReason::RequiredFeatureUnsupported))
    );
    let mut optional_only = offer();
    optional_only.required_features = [0; 8];
    optional_only.optional_features = [1, 0, 0, 0, 0, 0, 0, 0];
    assert_eq!(negotiate_hello(Some(optional_only), &SUPPORTED, &READ), Ok([7; 16]));
}

#[test]
fn hello_without_read_permission_is_denied() {
    let mut hello = offer();
    hello.requested_permissions = [2, 0, 0, 0, 0, 0, 0, 0];
    assert_eq!(
        negotiate_hello(Some(hello), &SUPPORTED, &READ),
        Err(([7; 16], HelloRejectReason::PermissionDenied))
    );
}

#[test]
fn a_message_that_is_no_hello_is_refused_under_a_zero_session() {
    assert_eq!(
        negotiate_hello(None, &SUPPORTED, &READ),
        Err(([0; 16], HelloRejectReason::RequiredFeatureUnsupported))
    );
}

#[test]
fn hello_rejections_map_to_session_errors() {
    assert_eq!(rejection_error(HelloRejectReason::NoCommonVersion), SessionError::Incompatible);
    assert_eq!(
        rejection_error(HelloRejectReason::RequiredFeatureUnsupported),
        SessionError::Incompatible
    );
    assert_eq!(
        rejection_error(HelloRejectReason::PermissionDenied),
        SessionError::AuthorizationDenied
    );
    assert_eq!(rejection_error(HelloRejectReason::SessionBusy), SessionError::SessionBusy);
}

#[test]
fn hello_reply_must_acknowledge_the_exact_session_features_and_permission() {
    let ack = HelloReply::Ack {
        session: [7; 16],
        selected_major: 1,
        selected_features: SUPPORTED,
        granted_permissions: READ,
    };
    assert_eq!(check_hello_reply(&[7; 16], &ack, &SUPPORTED, &READ), Ok(()));
    assert_eq!(
        check_hello_reply(&[8; 16], &ack, &SUPPORTED, &READ),
        Err(SessionError::Protocol)
    );
    let wrong_major = HelloReply::Ack {
        session: [7; 16],
        selected_major: 2,
        selected_features: SUPPORTED,
        granted_permissions: READ,
    };
    assert_eq!(
        check_hello_reply(&[7; 16], &wrong_major, &SUPPORTED, &READ),
        Err(SessionError::Protocol)
    );
    let extra_permission = HelloReply::Ack {
        session: [7; 16],
        selected_major: 1,
        selected_features: SUPPORTED,
        granted_permissions: [3, 0, 0, 0, 0, 0, 0, 0],
    };
    assert_eq!(
        check_hello_reply(&[7; 16], &extra_permission, &SUPPORTED, &READ),
        Err(SessionError::Protocol)
    );
    let busy = HelloReply::Reject { session: [0; 16], reason: HelloRejectReason::SessionBusy };
    assert_eq!(
        check_hello_reply(&[7; 16], &busy, &SUPPORTED, &READ),
        Err(SessionError::SessionBusy)
    );
    assert_eq!(
        check_hello_reply(&[7; 16], &HelloReply::Other, &SUPPORTED, &READ),
        Err(SessionError::Protocol)
    );
}

#[test]
fn negotiation_keeps_features_and_permissions_independent() {
    const MAJOR_1: [u8; 8] = [2, 0, 0, 0, 0, 0, 0, 0];
    let hello = |protocol_majors, required_features, optional_features, requested_permissions| {
        Some(HelloOffer {
            session: [7; 16],
            protocol_majors,
            required_features,
            optional_features,
            requested_permissions,
        })
    };
    assert_eq!(
        negotiate_hello(hello([0; 8], SUPPORTED, [0; 8], READ), &SUPPORTED, &READ),
        Err(([7; 16], HelloRejectReason::NoCommonVersion))
    );
    assert_eq!(
        negotiate_hello(hello(MAJOR_1, [3, 0, 0, 0, 0, 0, 0, 0], [0; 8], READ), &SUPPORTED, &READ),
        Err(([7; 16], HelloRejectReason::RequiredFeatureUnsupported))
    );
    assert_eq!(
        negotiate_hello(hello(MAJOR_1, SUPPORTED, [0; 8], [0; 8]), &SUPPORTED, &READ),
        Err(([7; 16], HelloRejectReason::PermissionDenied))
    );
    assert_eq!(negotiate_hello(hello(MAJOR_1, [0; 8], SUPPORTED, READ), &SUPPORTED, &READ), Ok([7; 16]));
    assert_eq!(
        negotiate_hello(
            hello(MAJOR_1, SUPPORTED, [0; 8], [0b1000_0001, 0, 0, 0, 0, 0, 0, 0]),
            &SUPPORTED,
            &READ
        ),
        Ok([7; 16])
    );
}
