//! The order in which a host session writes its messages.
use vstd::prelude::*;
use crate::identity::{constant_time_eq, SessionError};

verus! {

/// The most application messages a session queues.
pub const APPLICATION_QUEUE_MAX: usize = 8;

/// The next message a session writes.
pub enum Outgoing<M> {
    /// The close message; it ends the session.
    Close(M),
    /// An answer to the peer's ping.
    Pong,
    /// A keep-alive ping.
    Ping,
    /// The oldest queued application message.
    Application(M),
}

/// What taking the next message does: the message taken, then the close
/// message, pong, ping and application messages left.
pub open spec fn pop_spec<M>(close: Option<M>, pong: bool, ping: bool, pending: Seq<M>) -> (
    Option<Outgoing<M>>,
    Option<M>,
    bool,
    bool,
    Seq<M>,
) {
    match close {
        Some(m) => (Some(Outgoing::Close(m)), None, pong, ping, pending),
        None => if pong {
            (Some(Outgoing::Pong), None, false, ping, pending)
        } else if ping {
            (Some(Outgoing::Ping), None, false, false, pending)
        } else if pending.len() > 0 {
            (Some(Outgoing::Application(pending[0])), None, false, false, pending.drop_first())
        } else {
            (None, None, false, false, pending)
        },
    }
}

/// The messages a session still has to write: a close message, a pong, a
/// ping, and queued application messages, oldest first.
pub struct SessionWriteQueue<M> {
    close: Option<M>,
    pong: bool,
    ping: bool,
    application: Vec<M>,
}

impl<M> SessionWriteQueue<M> {
    /// The close message to write, if any.
    pub closed spec fn close_message(&self) -> Option<M> {
        self.close
    }

    /// Whether a pong is due.
    pub closed spec fn pong_due(&self) -> bool {
        self.pong
    }

    /// Whether a ping is due.
    pub closed spec fn ping_due(&self) -> bool {
        self.ping
    }

    /// The queued application messages, oldest first.
    pub closed spec fn pending(&self) -> Seq<M> {
        self.application@
    }

    /// Nothing to write.
    pub fn new() -> (queue: Self)
        ensures
            queue.close_message() is None,
            !queue.pong_due(),
            !queue.ping_due(),
            queue.pending() == Seq::<M>::empty(),
    {
        SessionWriteQueue { close: None, pong: false, ping: false, application: Vec::new() }
    }

    /// Queues an application message; a queue already holding
    /// `APPLICATION_QUEUE_MAX` of them is `QueueFull` and stays as it is.
    pub fn enqueue_application(&mut self, message: M) -> (result: Result<(), SessionError>)
        ensures
            old(self).pending().len() >= APPLICATION_QUEUE_MAX ==> result == Err::<(), SessionError>(
                SessionError::QueueFull,
            ) && final(self).pending() == old(self).pending(),
            old(self).pending().len() < APPLICATION_QUEUE_MAX ==> result is Ok && final(self).pending()
                == old(self).pending().push(message),
            final(self).close_message() == old(self).close_message(),
            final(self).pong_due() == old(self).pong_due(),
            final(self).ping_due() == old(self).ping_due(),
    {
        if self.application.len() >= APPLICATION_QUEUE_MAX {
            return Err(SessionError::QueueFull);
        }
        self.application.push(message);
        Ok(())
    }

    /// Sets the close message, replacing any earlier one.
    pub fn enqueue_close(&mut self, message: M)
        ensures
            final(self).close_message() == Some(message),
            final(self).pong_due() == old(self).pong_due(),
            final(self).ping_due() == old(self).ping_due(),
            final(self).pending() == old(self).pending(),
    {
        self.close = Some(message);
    }

    /// Makes a pong due.
    pub fn enqueue_pong(&mut self)
        ensures
            final(self).pong_due(),
            final(self).close_message() == old(self).close_message(),
            final(self).ping_due() == old(self).ping_due(),
            final(self).pending() == old(self).pending(),
    {
        self.pong = true;
    }

    /// Makes a ping due when nothing else is to be written.
    pub fn enqueue_ping_if_idle(&mut self)
        ensures
            final(self).ping_due() == (old(self).ping_due() || (old(self).close_message() is None
                && !old(self).pong_due() && old(self).pending().len() == 0)),
            final(self).close_message() == old(self).close_message(),
            final(self).pong_due() == old(self).pong_due(),
            final(self).pending() == old(self).pending(),
    {
        if self.close.is_none() && !self.pong && self.application.len() == 0 {
            self.ping = true;
        }
    }

    /// Takes the next message to write: the close message first, then a
    /// due pong, then a due ping, then the oldest application message.
    pub fn pop(&mut self) -> (next: Option<Outgoing<M>>)
        ensures
            (
                next,
                final(self).close_message(),
                final(self).pong_due(),
                final(self).ping_due(),
                final(self).pending(),
            ) == pop_spec(
                old(self).close_message(),
                old(self).pong_due(),
                old(self).ping_due(),
                old(self).pending(),
            ),
    {
        if let Some(message) = self.close.take() {
            return Some(Outgoing::Close(message));
        }
        if self.pong {
            self.pong = false;
            return Some(Outgoing::Pong);
        }
        if self.ping {
            self.ping = false;
            return Some(Outgoing::Ping);
        }
        if self.application.len() > 0 {
            let message = self.application.remove(0);
            assert(self.application@ =~= old(self).application@.drop_first());
            return Some(Outgoing::Application(message));
        }
        None
    }
}

/// Why a host refuses a device's hello.
#[derive(Clone, Copy, Debug, PartialEq, Eq, Structural)]
pub enum HelloRejectReason {
    NoCommonVersion,
    RequiredFeatureUnsupported,
    PermissionDenied,
    SessionBusy,
}

/// What a device's hello asks for: its session id, the protocol major
/// versions it speaks, the features it requires and would use, and the
/// permissions it requests, each a 64-bit set.
#[derive(Clone, Copy, Debug, PartialEq, Eq)]
pub struct HelloOffer {
    pub session: [u8; 16],
    pub protocol_majors: [u8; 8],
    pub required_features: [u8; 8],
    pub optional_features: [u8; 8],
    pub requested_permissions: [u8; 8],
}

/// Whether the device requires a feature the host does not support.
pub open spec fn requires_unsupported(required: Seq<u8>, supported: Seq<u8>) -> bool {
    exists|i: int| 0 <= i < 8 && #[trigger] required[i] & !supported[i] != 0
}

/// The host's answer to a hello, given the features it supports and the
/// permission that reading availability takes: a message that is no hello
/// is refused for features under an all-zero session; without protocol
/// major 1 there is no common version; a required feature the host lacks,
/// or no feature of the host's in the first byte at all, is unsupported;
/// without the read permission the permission is denied; otherwise the
/// session is accepted.
pub open spec fn hello_answer(
    hello: Option<HelloOffer>,
    supported: Seq<u8>,
    read_permission: Seq<u8>,
) -> Result<Seq<u8>, (Seq<u8>, HelloRejectReason)> {
    match hello {
        None => Err((Seq::new(16, |_i: int| 0u8), HelloRejectReason::RequiredFeatureUnsupported)),
        Some(h) => if h.protocol_majors@[0] & 2 == 0 {
            Err((h.session@, HelloRejectReason::NoCommonVersion))
        } else if requires_unsupported(h.required_features@, supported) || (h.required_features@[0]
            | h.optional_features@[0]) & supported[0] == 0 {
            Err((h.session@, HelloRejectReason::RequiredFeatureUnsupported))
        } else if h.requested_permissions@[0] & read_permission[0] == 0 {
            Err((h.session@, HelloRejectReason::PermissionDenied))
        } else {
            Ok(h.session@)
        },
    }
}

/// An answer with each session id taken by its bytes.
pub open spec fn answer_view(answer: Result<[u8; 16], ([u8; 16], HelloRejectReason)>) -> Result<
    Seq<u8>,
    (Seq<u8>, HelloRejectReason),
> {
    match answer {
        Ok(s) => Ok(s@),
        Err((s, r)) => Err((s@, r)),
    }
}

/// Answers a hello; see `hello_answer`.
pub fn negotiate_hello(hello: Option<HelloOffer>, supported: &[u8; 8], read_permission: &[u8; 8]) -> (answer:
    Result<[u8; 16], ([u8; 16], HelloRejectReason)>)
    ensures
        answer_view(answer) == hello_answer(hello, supported@, read_permission@),
{
    let h = match hello {
        None => {
            let none: [u8; 16] = [0u8; 16];
            assert(none@ =~= Seq::new(16, |_i: int| 0u8));
            return Err((none, HelloRejectReason::RequiredFeatureUnsupported));
        },
        Some(h) => h,
    };
    if h.protocol_majors[0] & 2 == 0 {
        return Err((h.session, HelloRejectReason::NoCommonVersion));
    }
    let mut unsupported = false;
    let mut i: usize = 0;
    while i < 8
        invariant
            i <= 8,
            unsupported == exists|k: int| 0 <= k < i && #[trigger] h.required_features@[k] & !supported@[k] != 0,
        decreases 8 - i,
    {
        if h.required_features[i] & !supported[i] != 0 {
            unsupported = true;
        }
        i += 1;
    }
    if unsupported || (h.required_features[0] | h.optional_features[0]) & supported[0] == 0 {
        return Err((h.session, HelloRejectReason::RequiredFeatureUnsupported));
    }
    if h.requested_permissions[0] & read_permission[0] == 0 {
        return Err((h.session, HelloRejectReason::PermissionDenied));
    }
    Ok(h.session)
}

/// The session error a refused hello becomes on the device's side: a
/// version or feature mismatch is an incompatibility, a denied permission an
/// authorization failure, and a busy host stays busy.
pub fn rejection_error(reason: HelloRejectReason) -> (error: SessionError)
    ensures
        error == (match reason {
            HelloRejectReason::NoCommonVersion => SessionError::Incompatible,
            HelloRejectReason::RequiredFeatureUnsupported => SessionError::Incompatible,
            HelloRejectReason::PermissionDenied => SessionError::AuthorizationDenied,
            HelloRejectReason::SessionBusy => SessionError::SessionBusy,
        }),
{
    match reason {
        HelloRejectReason::NoCommonVersion | HelloRejectReason::RequiredFeatureUnsupported => {
            SessionError::Incompatible
        },
        HelloRejectReason::PermissionDenied => SessionError::AuthorizationDenied,
        HelloRejectReason::SessionBusy => SessionError::SessionBusy,
    }
}

/// What a host's answer to a device's hello was: an acknowledgement with
/// the session id, protocol major, features and permissions it settled on, a
/// refusal with its reason, or a message of another kind.
#[derive(Clone, Copy, Debug, PartialEq, Eq)]
pub enum HelloReply {
    Ack { session: [u8; 16], selected_major: u8, selected_features: [u8; 8], granted_permissions: [u8; 8] },
    Reject { session: [u8; 16], reason: HelloRejectReason },
    Other,
}

/// The outcome the device side gives an answer to its hello under session id
/// `session`: an acknowledgement of that session on major 1 with exactly the
/// requested features and permission succeeds; a refusal becomes its
/// `rejection_error`; anything else is a protocol error.
pub open spec fn hello_reply_outcome(
    session: Seq<u8>,
    reply: HelloReply,
    features: Seq<u8>,
    permission: Seq<u8>,
) -> Result<(), SessionError> {
    match reply {
        HelloReply::Ack { session: s, selected_major, selected_features, granted_permissions } =>
            if s@ == session && selected_major == 1 && selected_features@ == features
                && granted_permissions@ == permission {
            Ok(())
        } else {
            Err(SessionError::Protocol)
        },
        HelloReply::Reject { reason, .. } => Err(match reason {
            HelloRejectReason::NoCommonVersion => SessionError::Incompatible,
            HelloRejectReason::RequiredFeatureUnsupported => SessionError::Incompatible,
            HelloRejectReason::PermissionDenied => SessionError::AuthorizationDenied,
            HelloRejectReason::SessionBusy => SessionError::SessionBusy,
        }),
        HelloReply::Other => Err(SessionError::Protocol),
    }
}

/// Judges the answer to a hello sent under `session` that requested
/// `features` and `permission`; see `hello_reply_outcome`.
pub fn check_hello_reply(session: &[u8; 16], reply: &HelloReply, features: &[u8; 8], permission: &[u8; 8]) -> (outcome:
    Result<(), SessionError>)
    ensures
        outcome == hello_reply_outcome(session@, *reply, features@, permission@),
{
    match reply {
        HelloReply::Ack { session: s, selected_major, selected_features, granted_permissions } => {
            if constant_time_eq(s, session) && *selected_major == 1 && constant_time_eq(
                selected_features,
                features,
            ) && constant_time_eq(granted_permissions, permission) {
                Ok(())
            } else {
                Err(SessionError::Protocol)
            }
        },
        HelloReply::Reject { reason, .. } => Err(rejection_error(*reason)),
        HelloReply::Other => Err(SessionError::Protocol),
    }
}

} // verus!
