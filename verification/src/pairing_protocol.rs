//! The pairing exchange that follows the Noise handshake, as step functions
//! from a state and what just happened to the next state and what to do:
//! the host as responder to a device, the host as initiator towards another
//! host, and the device as initiator. Both sides state their decision on the
//! transaction; only when both confirmed it do they publish the peer as
//! `Pending`, then `Committing`, then `Paired`, each step acknowledged by the
//! other side. A runner reads and writes the messages, asks the owner, stores
//! the peer and hands each outcome back as the next event.
use vstd::prelude::*;
use crate::identity::{constant_time_eq, SessionError};

verus! {

/// Why a pairing was closed.
#[derive(Clone, Copy, Debug, PartialEq, Eq, Structural)]
pub enum CloseReason {
    PairingBusy,
    Expired,
    Rejected,
    StoreFailed,
    Incomplete,
}

/// A message of the pairing exchange, each naming its transaction; `Hello`
/// opens the first session after pairing, `Other` is any other message.
#[derive(Clone, Copy, Debug, PartialEq, Eq)]
pub enum PairingMessage {
    Begin { transaction: [u8; 16] },
    Decision { transaction: [u8; 16], confirmed: bool },
    Prepared { transaction: [u8; 16] },
    Commit { transaction: [u8; 16] },
    Committed { transaction: [u8; 16] },
    Complete { transaction: [u8; 16] },
    Close { transaction: [u8; 16], reason: CloseReason },
    Hello,
    Other,
}

/// A peer state that pairing publishes.
#[derive(Clone, Copy, Debug, PartialEq, Eq, Structural)]
pub enum PeerStep {
    Pending,
    Committing,
    Paired,
}

/// What the runner reports: a message read (and whether the pairing
/// deadline had passed when it arrived), a message written (likewise),
/// whether the host's one pairing window could be reserved, the local
/// decision on the transaction, and whether storing the peer succeeded.
#[derive(Clone, Copy, Debug, PartialEq, Eq)]
pub enum PairingEvent {
    Received { message: PairingMessage, expired: bool },
    Sent { expired: bool },
    Reserved(bool),
    OwnerDecided(bool),
    Stored(bool),
}

/// What the runner does next: read a message; reserve the pairing window;
/// ask the local side to confirm the transaction; write a message; store the
/// peer in a state; write `Close` with the reason on the transaction and then
/// fail with the error; fail with the error; or finish, paired.
#[derive(Clone, Copy, Debug, PartialEq, Eq)]
pub enum PairingAction {
    Await,
    Reserve,
    AskOwner,
    Send(PairingMessage),
    Publish(PeerStep),
    CloseAndFail { transaction: [u8; 16], reason: CloseReason, error: SessionError },
    Fail(SessionError),
    Done,
}

/// Where a pairing exchange stands.
#[derive(Clone, Copy, Debug, PartialEq, Eq)]
pub enum PairingState {
    /// The responder waits for the initiator's `Begin`.
    AwaitBegin,
    /// The initiator wrote `Begin`.
    BeginSent { transaction: [u8; 16] },
    /// The responder asked for the pairing window.
    Reserving { transaction: [u8; 16] },
    /// The local side is asked to confirm.
    Confirming { transaction: [u8; 16] },
    /// A decision was written, knowing the local and the remote decision so
    /// far.
    DecisionSent { transaction: [u8; 16], local: bool, remote: bool },
    /// The other side's decision is awaited, the local one known.
    AwaitDecision { transaction: [u8; 16], local: bool },
    /// The responder, both sides confirmed, waits for `Prepared`.
    AwaitPrepared { transaction: [u8; 16] },
    /// `Pending` is being stored.
    PublishingPending { transaction: [u8; 16] },
    /// `Prepared` was written.
    PreparedSent { transaction: [u8; 16] },
    /// The responder waits for `Commit`.
    AwaitCommit { transaction: [u8; 16] },
    /// The initiator waits for the answering `Prepared`.
    AwaitPreparedAck { transaction: [u8; 16] },
    /// The initiator wrote `Commit`.
    CommitSent { transaction: [u8; 16] },
    /// The initiator waits for `Committed`.
    AwaitCommitAck { transaction: [u8; 16] },
    /// `Committing` is being stored.
    PublishingCommitting { transaction: [u8; 16] },
    /// `Committed` was written.
    CommittedSent { transaction: [u8; 16] },
    /// The responder waits for the answering `Committed`.
    AwaitCommitted { transaction: [u8; 16] },
    /// The responder wrote `Complete`.
    CompleteSent { transaction: [u8; 16] },
    /// The responder waits for the first `Hello`.
    AwaitHello { transaction: [u8; 16] },
    /// The initiator waits for `Complete`.
    AwaitComplete { transaction: [u8; 16] },
    /// `Paired` is being stored.
    PublishingPaired { transaction: [u8; 16] },
    /// Paired.
    Paired { transaction: [u8; 16] },
    /// The exchange failed.
    Failed,
}

/// The session error an initiator reports for the responder's `Close`.
pub open spec fn close_error(reason: CloseReason) -> SessionError {
    match reason {
        CloseReason::PairingBusy => SessionError::SessionBusy,
        CloseReason::Expired => SessionError::PairingTimeout,
        CloseReason::Rejected => SessionError::PairingRejected,
        CloseReason::StoreFailed => SessionError::StoreFailed,
        CloseReason::Incomplete => SessionError::PairingIncomplete,
    }
}

/// Closing the transaction as expired.
pub open spec fn expire(t: [u8; 16]) -> (PairingState, PairingAction) {
    (PairingState::Failed, PairingAction::CloseAndFail {
        transaction: t,
        reason: CloseReason::Expired,
        error: SessionError::PairingTimeout,
    })
}

/// Closing the transaction because the peer could not be stored.
pub open spec fn store_failed(t: [u8; 16]) -> (PairingState, PairingAction) {
    (PairingState::Failed, PairingAction::CloseAndFail {
        transaction: t,
        reason: CloseReason::StoreFailed,
        error: SessionError::StoreFailed,
    })
}

/// Failing with the error.
pub open spec fn fail(error: SessionError) -> (PairingState, PairingAction) {
    (PairingState::Failed, PairingAction::Fail(error))
}

/// The host answering a device's pairing: it reads `Begin`, closes an
/// expired transaction, reserves the window (closing as busy when it is
/// taken), asks the owner and writes the owner's decision, failing as
/// rejected on a refusal; it then needs the device's confirmation of the
/// same transaction, stores `Pending` on the device's `Prepared` and answers
/// `Prepared`, stores `Committing` on `Commit` and answers `Committed`,
/// answers the device's `Committed` with `Complete`, and stores `Paired` on
/// the device's first `Hello`. Messages out of order fail as a protocol
/// error; the deadline is checked where each step begins.
pub open spec fn responder_step_spec(state: PairingState, event: PairingEvent) -> (PairingState, PairingAction) {
    match (state, event) {
        (PairingState::AwaitBegin, PairingEvent::Received { message, expired }) => match message {
            PairingMessage::Begin { transaction } => if expired {
                expire(transaction)
            } else {
                (PairingState::Reserving { transaction }, PairingAction::Reserve)
            },
            _ => fail(SessionError::Protocol),
        },
        (PairingState::Reserving { transaction }, PairingEvent::Reserved(reserved)) => if reserved {
            (PairingState::Confirming { transaction }, PairingAction::AskOwner)
        } else {
            (PairingState::Failed, PairingAction::CloseAndFail {
                transaction,
                reason: CloseReason::PairingBusy,
                error: SessionError::SessionBusy,
            })
        },
        (PairingState::Confirming { transaction }, PairingEvent::OwnerDecided(confirmed)) => (
            PairingState::DecisionSent { transaction, local: confirmed, remote: false },
            PairingAction::Send(PairingMessage::Decision { transaction, confirmed }),
        ),
        (PairingState::DecisionSent { transaction, local, .. }, PairingEvent::Sent { expired }) => if !local {
            fail(SessionError::PairingRejected)
        } else if expired {
            expire(transaction)
        } else {
            (PairingState::AwaitDecision { transaction, local: true }, PairingAction::Await)
        },
        (PairingState::AwaitDecision { transaction, .. }, PairingEvent::Received { message, .. }) => match message {
            PairingMessage::Decision { transaction: t, confirmed } => if t == transaction && confirmed {
                (PairingState::AwaitPrepared { transaction }, PairingAction::Await)
            } else if t == transaction {
                fail(SessionError::PairingRejected)
            } else {
                fail(SessionError::PairingIncomplete)
            },
            _ => fail(SessionError::PairingIncomplete),
        },
        (PairingState::AwaitPrepared { transaction }, PairingEvent::Received { message, expired }) => match message {
            PairingMessage::Prepared { transaction: t } => if t != transaction {
                fail(SessionError::Protocol)
            } else if expired {
                expire(transaction)
            } else {
                (PairingState::PublishingPending { transaction }, PairingAction::Publish(PeerStep::Pending))
            },
            _ => fail(SessionError::Protocol),
        },
        (PairingState::PublishingPending { transaction }, PairingEvent::Stored(stored)) => if stored {
            (PairingState::PreparedSent { transaction }, PairingAction::Send(PairingMessage::Prepared { transaction }))
        } else {
            store_failed(transaction)
        },
        (PairingState::PreparedSent { transaction }, PairingEvent::Sent { .. }) => (
            PairingState::AwaitCommit { transaction },
            PairingAction::Await,
        ),
        (PairingState::AwaitCommit { transaction }, PairingEvent::Received { message, expired }) => match message {
            PairingMessage::Commit { transaction: t } => if t != transaction {
                fail(SessionError::Protocol)
            } else if expired {
                expire(transaction)
            } else {
                (
                    PairingState::PublishingCommitting { transaction },
                    PairingAction::Publish(PeerStep::Committing),
                )
            },
            _ => fail(SessionError::Protocol),
        },
        (PairingState::PublishingCommitting { transaction }, PairingEvent::Stored(stored)) => if stored {
            (
                PairingState::CommittedSent { transaction },
                PairingAction::Send(PairingMessage::Committed { transaction }),
            )
        } else {
            store_failed(transaction)
        },
        (PairingState::CommittedSent { transaction }, PairingEvent::Sent { .. }) => (
            PairingState::AwaitCommitted { transaction },
            PairingAction::Await,
        ),
        (PairingState::AwaitCommitted { transaction }, PairingEvent::Received { message, expired }) => match message {
            PairingMessage::Committed { transaction: t } => if t != transaction {
                fail(SessionError::Protocol)
            } else if expired {
                expire(transaction)
            } else {
                (PairingState::CompleteSent { transaction }, PairingAction::Send(PairingMessage::Complete { transaction }))
            },
            _ => fail(SessionError::Protocol),
        },
        (PairingState::CompleteSent { transaction }, PairingEvent::Sent { .. }) => (
            PairingState::AwaitHello { transaction },
            PairingAction::Await,
        ),
        (PairingState::AwaitHello { transaction }, PairingEvent::Received { message, .. }) => match message {
            PairingMessage::Hello => (
                PairingState::PublishingPaired { transaction },
                PairingAction::Publish(PeerStep::Paired),
            ),
            _ => fail(SessionError::Protocol),
        },
        (PairingState::PublishingPaired { transaction }, PairingEvent::Stored(stored)) => if stored {
            (PairingState::Paired { transaction }, PairingAction::Done)
        } else {
            store_failed(transaction)
        },
        _ => fail(SessionError::Protocol),
    }
}

/// The host starting a pairing towards another host, after writing `Begin`:
/// it asks the owner, reads the responder's decision on the same
/// transaction (a `Close` of it fails with `close_error`), writes its own
/// decision, and fails as rejected unless both confirmed; it closes an
/// expired transaction, then stores `Pending` and writes `Prepared`, writes
/// `Commit` on the answering `Prepared`, stores `Committing` on `Committed`
/// and writes `Committed`, and stores `Paired` on `Complete`.
pub open spec fn initiator_step_spec(state: PairingState, event: PairingEvent) -> (PairingState, PairingAction) {
    match (state, event) {
        (PairingState::BeginSent { transaction }, PairingEvent::Sent { .. }) => (
            PairingState::Confirming { transaction },
            PairingAction::AskOwner,
        ),
        (PairingState::Confirming { transaction }, PairingEvent::OwnerDecided(confirmed)) => (
            PairingState::AwaitDecision { transaction, local: confirmed },
            PairingAction::Await,
        ),
        (PairingState::AwaitDecision { transaction, local }, PairingEvent::Received { message, .. }) => match message {
            PairingMessage::Decision { transaction: t, confirmed } => if t == transaction {
                (
                    PairingState::DecisionSent { transaction, local, remote: confirmed },
                    PairingAction::Send(PairingMessage::Decision { transaction, confirmed: local }),
                )
            } else {
                fail(SessionError::Protocol)
            },
            PairingMessage::Close { transaction: t, reason } => if t == transaction {
                fail(close_error(reason))
            } else {
                fail(SessionError::Protocol)
            },
            _ => fail(SessionError::Protocol),
        },
        (PairingState::DecisionSent { transaction, local, remote }, PairingEvent::Sent { expired }) => if !local
            || !remote {
            fail(SessionError::PairingRejected)
        } else if expired {
            expire(transaction)
        } else {
            (PairingState::PublishingPending { transaction }, PairingAction::Publish(PeerStep::Pending))
        },
        (PairingState::PublishingPending { transaction }, PairingEvent::Stored(stored)) => if stored {
            (PairingState::PreparedSent { transaction }, PairingAction::Send(PairingMessage::Prepared { transaction }))
        } else {
            store_failed(transaction)
        },
        (PairingState::PreparedSent { transaction }, PairingEvent::Sent { .. }) => (
            PairingState::AwaitPreparedAck { transaction },
            PairingAction::Await,
        ),
        (PairingState::AwaitPreparedAck { transaction }, PairingEvent::Received { message, expired }) => match message {
            PairingMessage::Prepared { transaction: t } => if t != transaction {
                fail(SessionError::Protocol)
            } else if expired {
                expire(transaction)
            } else {
                (PairingState::CommitSent { transaction }, PairingAction::Send(PairingMessage::Commit { transaction }))
            },
            _ => fail(SessionError::Protocol),
        },
        (PairingState::CommitSent { transaction }, PairingEvent::Sent { .. }) => (
            PairingState::AwaitCommitAck { transaction },
            PairingAction::Await,
        ),
        (PairingState::AwaitCommitAck { transaction }, PairingEvent::Received { message, .. }) => match message {
            PairingMessage::Committed { transaction: t } => if t != transaction {
                fail(SessionError::Protocol)
            } else {
                (
                    PairingState::PublishingCommitting { transaction },
                    PairingAction::Publish(PeerStep::Committing),
                )
            },
            _ => fail(SessionError::Protocol),
        },
        (PairingState::PublishingCommitting { transaction }, PairingEvent::Stored(stored)) => if stored {
            (
                PairingState::CommittedSent { transaction },
                PairingAction::Send(PairingMessage::Committed { transaction }),
            )
        } else {
            store_failed(transaction)
        },
        (PairingState::CommittedSent { transaction }, PairingEvent::Sent { .. }) => (
            PairingState::AwaitComplete { transaction },
            PairingAction::Await,
        ),
        (PairingState::AwaitComplete { transaction }, PairingEvent::Received { message, expired }) => match message {
            PairingMessage::Complete { transaction: t } => if t != transaction {
                fail(SessionError::Protocol)
            } else if expired {
                expire(transaction)
            } else {
                (PairingState::PublishingPaired { transaction }, PairingAction::Publish(PeerStep::Paired))
            },
            _ => fail(SessionError::Protocol),
        },
        (PairingState::PublishingPaired { transaction }, PairingEvent::Stored(stored)) => if stored {
            (PairingState::Paired { transaction }, PairingAction::Done)
        } else {
            store_failed(transaction)
        },
        _ => fail(SessionError::Protocol),
    }
}

/// The device pairing with a host, after writing `Begin`: it asks its user,
/// reads the host's decision (anything but a confirmation of the same
/// transaction counts as a refusal), writes its own decision, and fails as
/// rejected unless both confirmed; then it stores `Pending` and writes
/// `Prepared`, writes `Commit` on the answering `Prepared`, stores
/// `Committing` on `Committed` and writes `Committed`, and stores `Paired`
/// on `Complete`. A peer it cannot store fails the exchange; its deadlines
/// bound each read and write, so they reach it as failed reads and writes.
pub open spec fn device_pairing_step_spec(state: PairingState, event: PairingEvent) -> (PairingState, PairingAction) {
    match (state, event) {
        (PairingState::BeginSent { transaction }, PairingEvent::Sent { .. }) => (
            PairingState::Confirming { transaction },
            PairingAction::AskOwner,
        ),
        (PairingState::Confirming { transaction }, PairingEvent::OwnerDecided(confirmed)) => (
            PairingState::AwaitDecision { transaction, local: confirmed },
            PairingAction::Await,
        ),
        (PairingState::AwaitDecision { transaction, local }, PairingEvent::Received { message, .. }) => {
            let remote = message == PairingMessage::Decision { transaction, confirmed: true };
            (
                PairingState::DecisionSent { transaction, local, remote },
                PairingAction::Send(PairingMessage::Decision { transaction, confirmed: local }),
            )
        },
        (PairingState::DecisionSent { transaction, local, remote }, PairingEvent::Sent { .. }) => if !local
            || !remote {
            fail(SessionError::PairingRejected)
        } else {
            (PairingState::PublishingPending { transaction }, PairingAction::Publish(PeerStep::Pending))
        },
        (PairingState::PublishingPending { transaction }, PairingEvent::Stored(stored)) => if stored {
            (PairingState::PreparedSent { transaction }, PairingAction::Send(PairingMessage::Prepared { transaction }))
        } else {
            fail(SessionError::StoreFailed)
        },
        (PairingState::PreparedSent { transaction }, PairingEvent::Sent { .. }) => (
            PairingState::AwaitPreparedAck { transaction },
            PairingAction::Await,
        ),
        (PairingState::AwaitPreparedAck { transaction }, PairingEvent::Received { message, .. }) => if message
            == (PairingMessage::Prepared { transaction }) {
            (PairingState::CommitSent { transaction }, PairingAction::Send(PairingMessage::Commit { transaction }))
        } else {
            fail(SessionError::Protocol)
        },
        (PairingState::CommitSent { transaction }, PairingEvent::Sent { .. }) => (
            PairingState::AwaitCommitAck { transaction },
            PairingAction::Await,
        ),
        (PairingState::AwaitCommitAck { transaction }, PairingEvent::Received { message, .. }) => if message
            == (PairingMessage::Committed { transaction }) {
            (PairingState::PublishingCommitting { transaction }, PairingAction::Publish(PeerStep::Committing))
        } else {
            fail(SessionError::Protocol)
        },
        (PairingState::PublishingCommitting { transaction }, PairingEvent::Stored(stored)) => if stored {
            (
                PairingState::CommittedSent { transaction },
                PairingAction::Send(PairingMessage::Committed { transaction }),
            )
        } else {
            fail(SessionError::StoreFailed)
        },
        (PairingState::CommittedSent { transaction }, PairingEvent::Sent { .. }) => (
            PairingState::AwaitComplete { transaction },
            PairingAction::Await,
        ),
        (PairingState::AwaitComplete { transaction }, PairingEvent::Received { message, .. }) => if message
            == (PairingMessage::Complete { transaction }) {
            (PairingState::PublishingPaired { transaction }, PairingAction::Publish(PeerStep::Paired))
        } else {
            fail(SessionError::Protocol)
        },
        (PairingState::PublishingPaired { transaction }, PairingEvent::Stored(stored)) => if stored {
            (PairingState::Paired { transaction }, PairingAction::Done)
        } else {
            fail(SessionError::StoreFailed)
        },
        _ => fail(SessionError::Protocol),
    }
}

fn same(a: &[u8; 16], b: &[u8; 16]) -> (equal: bool)
    ensures
        equal == (*a == *b),
{
    let equal = constant_time_eq(a, b);
    proof {
        if equal {
            assert(*a =~= *b);
        }
    }
    equal
}

fn expire_exec(t: [u8; 16]) -> (next: (PairingState, PairingAction))
    ensures
        next == expire(t),
{
    (PairingState::Failed, PairingAction::CloseAndFail {
        transaction: t,
        reason: CloseReason::Expired,
        error: SessionError::PairingTimeout,
    })
}

fn store_failed_exec(t: [u8; 16]) -> (next: (PairingState, PairingAction))
    ensures
        next == store_failed(t),
{
    (PairingState::Failed, PairingAction::CloseAndFail {
        transaction: t,
        reason: CloseReason::StoreFailed,
        error: SessionError::StoreFailed,
    })
}

fn fail_exec(error: SessionError) -> (next: (PairingState, PairingAction))
    ensures
        next == fail(error),
{
    (PairingState::Failed, PairingAction::Fail(error))
}

fn close_error_exec(reason: CloseReason) -> (error: SessionError)
    ensures
        error == close_error(reason),
{
    match reason {
        CloseReason::PairingBusy => SessionError::SessionBusy,
        CloseReason::Expired => SessionError::PairingTimeout,
        CloseReason::Rejected => SessionError::PairingRejected,
        CloseReason::StoreFailed => SessionError::StoreFailed,
        CloseReason::Incomplete => SessionError::PairingIncomplete,
    }
}

/// One step of the host answering a device's pairing; see
/// `responder_step_spec`.
pub fn responder_step(state: PairingState, event: PairingEvent) -> (next: (PairingState, PairingAction))
    ensures
        next == responder_step_spec(state, event),
        next.1 matches PairingAction::Send(PairingMessage::Decision { transaction, confirmed }) ==> transaction_of(state)
            == Some(transaction) && (confirmed ==> local_confirmed(state) || event == PairingEvent::OwnerDecided(true)),
{
    match (state, event) {
        (PairingState::AwaitBegin, PairingEvent::Received { message, expired }) => match message {
            PairingMessage::Begin { transaction } => if expired {
                expire_exec(transaction)
            } else {
                (PairingState::Reserving { transaction }, PairingAction::Reserve)
            },
            _ => fail_exec(SessionError::Protocol),
        },
        (PairingState::Reserving { transaction }, PairingEvent::Reserved(reserved)) => if reserved {
            (PairingState::Confirming { transaction }, PairingAction::AskOwner)
        } else {
            (PairingState::Failed, PairingAction::CloseAndFail {
                transaction,
                reason: CloseReason::PairingBusy,
                error: SessionError::SessionBusy,
            })
        },
        (PairingState::Confirming { transaction }, PairingEvent::OwnerDecided(confirmed)) => (
            PairingState::DecisionSent { transaction, local: confirmed, remote: false },
            PairingAction::Send(PairingMessage::Decision { transaction, confirmed }),
        ),
        (PairingState::DecisionSent { transaction, local, .. }, PairingEvent::Sent { expired }) => if !local {
            fail_exec(SessionError::PairingRejected)
        } else if expired {
            expire_exec(transaction)
        } else {
            (PairingState::AwaitDecision { transaction, local: true }, PairingAction::Await)
        },
        (PairingState::AwaitDecision { transaction, .. }, PairingEvent::Received { message, .. }) => match message {
            PairingMessage::Decision { transaction: t, confirmed } => if same(&t, &transaction) && confirmed {
                (PairingState::AwaitPrepared { transaction }, PairingAction::Await)
            } else if same(&t, &transaction) {
                fail_exec(SessionError::PairingRejected)
            } else {
                fail_exec(SessionError::PairingIncomplete)
            },
            _ => fail_exec(SessionError::PairingIncomplete),
        },
        (PairingState::AwaitPrepared { transaction }, PairingEvent::Received { message, expired }) => match message {
            PairingMessage::Prepared { transaction: t } => if !same(&t, &transaction) {
                fail_exec(SessionError::Protocol)
            } else if expired {
                expire_exec(transaction)
            } else {
                (PairingState::PublishingPending { transaction }, PairingAction::Publish(PeerStep::Pending))
            },
            _ => fail_exec(SessionError::Protocol),
        },
        (PairingState::PublishingPending { transaction }, PairingEvent::Stored(stored)) => if stored {
            (PairingState::PreparedSent { transaction }, PairingAction::Send(PairingMessage::Prepared { transaction }))
        } else {
            store_failed_exec(transaction)
        },
        (PairingState::PreparedSent { transaction }, PairingEvent::Sent { .. }) => (
            PairingState::AwaitCommit { transaction },
            PairingAction::Await,
        ),
        (PairingState::AwaitCommit { transaction }, PairingEvent::Received { message, expired }) => match message {
            PairingMessage::Commit { transaction: t } => if !same(&t, &transaction) {
                fail_exec(SessionError::Protocol)
            } else if expired {
                expire_exec(transaction)
            } else {
                (
                    PairingState::PublishingCommitting { transaction },
                    PairingAction::Publish(PeerStep::Committing),
                )
            },
            _ => fail_exec(SessionError::Protocol),
        },
        (PairingState::PublishingCommitting { transaction }, PairingEvent::Stored(stored)) => if stored {
            (
                PairingState::CommittedSent { transaction },
                PairingAction::Send(PairingMessage::Committed { transaction }),
            )
        } else {
            store_failed_exec(transaction)
        },
        (PairingState::CommittedSent { transaction }, PairingEvent::Sent { .. }) => (
            PairingState::AwaitCommitted { transaction },
            PairingAction::Await,
        ),
        (PairingState::AwaitCommitted { transaction }, PairingEvent::Received { message, expired }) => match message {
            PairingMessage::Committed { transaction: t } => if !same(&t, &transaction) {
                fail_exec(SessionError::Protocol)
            } else if expired {
                expire_exec(transaction)
            } else {
                (PairingState::CompleteSent { transaction }, PairingAction::Send(PairingMessage::Complete { transaction }))
            },
            _ => fail_exec(SessionError::Protocol),
        },
        (PairingState::CompleteSent { transaction }, PairingEvent::Sent { .. }) => (
            PairingState::AwaitHello { transaction },
            PairingAction::Await,
        ),
        (PairingState::AwaitHello { transaction }, PairingEvent::Received { message, .. }) => match message {
            PairingMessage::Hello => (
                PairingState::PublishingPaired { transaction },
                PairingAction::Publish(PeerStep::Paired),
            ),
            _ => fail_exec(SessionError::Protocol),
        },
        (PairingState::PublishingPaired { transaction }, PairingEvent::Stored(stored)) => if stored {
            (PairingState::Paired { transaction }, PairingAction::Done)
        } else {
            store_failed_exec(transaction)
        },
        _ => fail_exec(SessionError::Protocol),
    }
}

/// One step of the host starting a pairing towards another host; see
/// `initiator_step_spec`.
pub fn initiator_step(state: PairingState, event: PairingEvent) -> (next: (PairingState, PairingAction))
    ensures
        next == initiator_step_spec(state, event),
        next.1 matches PairingAction::Send(PairingMessage::Decision { transaction, confirmed }) ==> transaction_of(state)
            == Some(transaction) && (confirmed ==> local_confirmed(state) || event == PairingEvent::OwnerDecided(true)),
        state is AwaitDecision && next.1 is Send ==> next.1 == PairingAction::Send(
            PairingMessage::Decision {
                transaction: state->AwaitDecision_transaction,
                confirmed: state->AwaitDecision_local,
            },
        ),
{
    match (state, event) {
        (PairingState::BeginSent { transaction }, PairingEvent::Sent { .. }) => (
            PairingState::Confirming { transaction },
            PairingAction::AskOwner,
        ),
        (PairingState::Confirming { transaction }, PairingEvent::OwnerDecided(confirmed)) => (
            PairingState::AwaitDecision { transaction, local: confirmed },
            PairingAction::Await,
        ),
        (PairingState::AwaitDecision { transaction, local }, PairingEvent::Received { message, .. }) => match message {
            PairingMessage::Decision { transaction: t, confirmed } => if same(&t, &transaction) {
                (
                    PairingState::DecisionSent { transaction, local, remote: confirmed },
                    PairingAction::Send(PairingMessage::Decision { transaction, confirmed: local }),
                )
            } else {
                fail_exec(SessionError::Protocol)
            },
            PairingMessage::Close { transaction: t, reason } => if same(&t, &transaction) {
                fail_exec(close_error_exec(reason))
            } else {
                fail_exec(SessionError::Protocol)
            },
            _ => fail_exec(SessionError::Protocol),
        },
        (PairingState::DecisionSent { transaction, local, remote }, PairingEvent::Sent { expired }) => if !local
            || !remote {
            fail_exec(SessionError::PairingRejected)
        } else if expired {
            expire_exec(transaction)
        } else {
            (PairingState::PublishingPending { transaction }, PairingAction::Publish(PeerStep::Pending))
        },
        (PairingState::PublishingPending { transaction }, PairingEvent::Stored(stored)) => if stored {
            (PairingState::PreparedSent { transaction }, PairingAction::Send(PairingMessage::Prepared { transaction }))
        } else {
            store_failed_exec(transaction)
        },
        (PairingState::PreparedSent { transaction }, PairingEvent::Sent { .. }) => (
            PairingState::AwaitPreparedAck { transaction },
            PairingAction::Await,
        ),
        (PairingState::AwaitPreparedAck { transaction }, PairingEvent::Received { message, expired }) => match message {
            PairingMessage::Prepared { transaction: t } => if !same(&t, &transaction) {
                fail_exec(SessionError::Protocol)
            } else if expired {
                expire_exec(transaction)
            } else {
                (PairingState::CommitSent { transaction }, PairingAction::Send(PairingMessage::Commit { transaction }))
            },
            _ => fail_exec(SessionError::Protocol),
        },
        (PairingState::CommitSent { transaction }, PairingEvent::Sent { .. }) => (
            PairingState::AwaitCommitAck { transaction },
            PairingAction::Await,
        ),
        (PairingState::AwaitCommitAck { transaction }, PairingEvent::Received { message, .. }) => match message {
            PairingMessage::Committed { transaction: t } => if !same(&t, &transaction) {
                fail_exec(SessionError::Protocol)
            } else {
                (
                    PairingState::PublishingCommitting { transaction },
                    PairingAction::Publish(PeerStep::Committing),
                )
            },
            _ => fail_exec(SessionError::Protocol),
        },
        (PairingState::PublishingCommitting { transaction }, PairingEvent::Stored(stored)) => if stored {
            (
                PairingState::CommittedSent { transaction },
                PairingAction::Send(PairingMessage::Committed { transaction }),
            )
        } else {
            store_failed_exec(transaction)
        },
        (PairingState::CommittedSent { transaction }, PairingEvent::Sent { .. }) => (
            PairingState::AwaitComplete { transaction },
            PairingAction::Await,
        ),
        (PairingState::AwaitComplete { transaction }, PairingEvent::Received { message, expired }) => match message {
            PairingMessage::Complete { transaction: t } => if !same(&t, &transaction) {
                fail_exec(SessionError::Protocol)
            } else if expired {
                expire_exec(transaction)
            } else {
                (PairingState::PublishingPaired { transaction }, PairingAction::Publish(PeerStep::Paired))
            },
            _ => fail_exec(SessionError::Protocol),
        },
        (PairingState::PublishingPaired { transaction }, PairingEvent::Stored(stored)) => if stored {
            (PairingState::Paired { transaction }, PairingAction::Done)
        } else {
            store_failed_exec(transaction)
        },
        _ => fail_exec(SessionError::Protocol),
    }
}

/// Whether the message is exactly the given transaction's message of the
/// kind that `expected` names.
fn is_message(message: PairingMessage, expected: PairingMessage) -> (matches: bool)
    ensures
        matches == (message == expected),
{
    match (message, expected) {
        (PairingMessage::Begin { transaction: a }, PairingMessage::Begin { transaction: b }) => same(&a, &b),
        (
            PairingMessage::Decision { transaction: a, confirmed: x },
            PairingMessage::Decision { transaction: b, confirmed: y },
        ) => x == y && same(&a, &b),
        (PairingMessage::Prepared { transaction: a }, PairingMessage::Prepared { transaction: b }) => same(&a, &b),
        (PairingMessage::Commit { transaction: a }, PairingMessage::Commit { transaction: b }) => same(&a, &b),
        (PairingMessage::Committed { transaction: a }, PairingMessage::Committed { transaction: b }) => same(
            &a,
            &b,
        ),
        (PairingMessage::Complete { transaction: a }, PairingMessage::Complete { transaction: b }) => same(
            &a,
            &b,
        ),
        (
            PairingMessage::Close { transaction: a, reason: x },
            PairingMessage::Close { transaction: b, reason: y },
        ) => x == y && same(&a, &b),
        (PairingMessage::Hello, PairingMessage::Hello) => true,
        (PairingMessage::Other, PairingMessage::Other) => true,
        _ => false,
    }
}

/// One step of the device pairing with a host; see
/// `device_pairing_step_spec`.
pub fn device_pairing_step(state: PairingState, event: PairingEvent) -> (next: (PairingState, PairingAction))
    ensures
        next == device_pairing_step_spec(state, event),
        next.1 matches PairingAction::Send(PairingMessage::Decision { transaction, confirmed }) ==> transaction_of(state)
            == Some(transaction) && (confirmed ==> local_confirmed(state) || event == PairingEvent::OwnerDecided(true)),
        state is AwaitDecision && next.1 is Send ==> next.1 == PairingAction::Send(
            PairingMessage::Decision {
                transaction: state->AwaitDecision_transaction,
                confirmed: state->AwaitDecision_local,
            },
        ),
{
    match (state, event) {
        (PairingState::BeginSent { transaction }, PairingEvent::Sent { .. }) => (
            PairingState::Confirming { transaction },
            PairingAction::AskOwner,
        ),
        (PairingState::Confirming { transaction }, PairingEvent::OwnerDecided(confirmed)) => (
            PairingState::AwaitDecision { transaction, local: confirmed },
            PairingAction::Await,
        ),
        (PairingState::AwaitDecision { transaction, local }, PairingEvent::Received { message, .. }) => {
            let remote = is_message(message, PairingMessage::Decision { transaction, confirmed: true });
            (
                PairingState::DecisionSent { transaction, local, remote },
                PairingAction::Send(PairingMessage::Decision { transaction, confirmed: local }),
            )
        },
        (PairingState::DecisionSent { transaction, local, remote }, PairingEvent::Sent { .. }) => if !local
            || !remote {
            fail_exec(SessionError::PairingRejected)
        } else {
            (PairingState::PublishingPending { transaction }, PairingAction::Publish(PeerStep::Pending))
        },
        (PairingState::PublishingPending { transaction }, PairingEvent::Stored(stored)) => if stored {
            (PairingState::PreparedSent { transaction }, PairingAction::Send(PairingMessage::Prepared { transaction }))
        } else {
            fail_exec(SessionError::StoreFailed)
        },
        (PairingState::PreparedSent { transaction }, PairingEvent::Sent { .. }) => (
            PairingState::AwaitPreparedAck { transaction },
            PairingAction::Await,
        ),
        (PairingState::AwaitPreparedAck { transaction }, PairingEvent::Received { message, .. }) => if is_message(
            message,
            PairingMessage::Prepared { transaction },
        ) {
            (PairingState::CommitSent { transaction }, PairingAction::Send(PairingMessage::Commit { transaction }))
        } else {
            fail_exec(SessionError::Protocol)
        },
        (PairingState::CommitSent { transaction }, PairingEvent::Sent { .. }) => (
            PairingState::AwaitCommitAck { transaction },
            PairingAction::Await,
        ),
        (PairingState::AwaitCommitAck { transaction }, PairingEvent::Received { message, .. }) => if is_message(
            message,
            PairingMessage::Committed { transaction },
        ) {
            (PairingState::PublishingCommitting { transaction }, PairingAction::Publish(PeerStep::Committing))
        } else {
            fail_exec(SessionError::Protocol)
        },
        (PairingState::PublishingCommitting { transaction }, PairingEvent::Stored(stored)) => if stored {
            (
                PairingState::CommittedSent { transaction },
                PairingAction::Send(PairingMessage::Committed { transaction }),
            )
        } else {
            fail_exec(SessionError::StoreFailed)
        },
        (PairingState::CommittedSent { transaction }, PairingEvent::Sent { .. }) => (
            PairingState::AwaitComplete { transaction },
            PairingAction::Await,
        ),
        (PairingState::AwaitComplete { transaction }, PairingEvent::Received { message, .. }) => if is_message(
            message,
            PairingMessage::Complete { transaction },
        ) {
            (PairingState::PublishingPaired { transaction }, PairingAction::Publish(PeerStep::Paired))
        } else {
            fail_exec(SessionError::Protocol)
        },
        (PairingState::PublishingPaired { transaction }, PairingEvent::Stored(stored)) => if stored {
            (PairingState::Paired { transaction }, PairingAction::Done)
        } else {
            fail_exec(SessionError::StoreFailed)
        },
        _ => fail_exec(SessionError::Protocol),
    }
}

/// Which side of a pairing a step function plays.
#[derive(Clone, Copy, Debug, PartialEq, Eq, Structural)]
pub enum PairingRole {
    Responder,
    Initiator,
    Device,
}

/// The step function of a role.
pub open spec fn pairing_step_spec(role: PairingRole, state: PairingState, event: PairingEvent) -> (
    PairingState,
    PairingAction,
) {
    match role {
        PairingRole::Responder => responder_step_spec(state, event),
        PairingRole::Initiator => initiator_step_spec(state, event),
        PairingRole::Device => device_pairing_step_spec(state, event),
    }
}

/// The order in which pairing publishes peer states.
pub open spec fn publication_order() -> Seq<PeerStep> {
    seq![PeerStep::Pending, PeerStep::Committing, PeerStep::Paired]
}

/// How many peer states were published on the way to a state; a failed
/// exchange publishes nothing more.
pub open spec fn published(state: PairingState) -> nat {
    match state {
        PairingState::PublishingPending { .. } => 1,
        PairingState::PreparedSent { .. } => 1,
        PairingState::AwaitCommit { .. } => 1,
        PairingState::AwaitPreparedAck { .. } => 1,
        PairingState::CommitSent { .. } => 1,
        PairingState::AwaitCommitAck { .. } => 1,
        PairingState::PublishingCommitting { .. } => 2,
        PairingState::CommittedSent { .. } => 2,
        PairingState::AwaitCommitted { .. } => 2,
        PairingState::CompleteSent { .. } => 2,
        PairingState::AwaitHello { .. } => 2,
        PairingState::AwaitComplete { .. } => 2,
        PairingState::PublishingPaired { .. } => 3,
        PairingState::Paired { .. } => 3,
        PairingState::Failed => 3,
        _ => 0,
    }
}

/// Whether the local side confirmed the transaction on the way to a state.
pub open spec fn local_confirmed(state: PairingState) -> bool {
    match state {
        PairingState::DecisionSent { local, .. } => local,
        PairingState::AwaitDecision { local, .. } => local,
        PairingState::AwaitBegin => false,
        PairingState::BeginSent { .. } => false,
        PairingState::Reserving { .. } => false,
        PairingState::Confirming { .. } => false,
        PairingState::Failed => false,
        _ => true,
    }
}

/// Whether the other side confirmed the transaction on the way to a state.
pub open spec fn remote_confirmed(state: PairingState) -> bool {
    match state {
        PairingState::DecisionSent { remote, .. } => remote,
        PairingState::AwaitBegin => false,
        PairingState::BeginSent { .. } => false,
        PairingState::Reserving { .. } => false,
        PairingState::Confirming { .. } => false,
        PairingState::AwaitDecision { .. } => false,
        PairingState::Failed => false,
        _ => true,
    }
}

/// The transaction a state is about.
pub open spec fn transaction_of(state: PairingState) -> Option<[u8; 16]> {
    match state {
        PairingState::AwaitBegin => None,
        PairingState::Failed => None,
        PairingState::BeginSent { transaction } => Some(transaction),
        PairingState::Reserving { transaction } => Some(transaction),
        PairingState::Confirming { transaction } => Some(transaction),
        PairingState::DecisionSent { transaction, .. } => Some(transaction),
        PairingState::AwaitDecision { transaction, .. } => Some(transaction),
        PairingState::AwaitPrepared { transaction } => Some(transaction),
        PairingState::PublishingPending { transaction } => Some(transaction),
        PairingState::PreparedSent { transaction } => Some(transaction),
        PairingState::AwaitCommit { transaction } => Some(transaction),
        PairingState::AwaitPreparedAck { transaction } => Some(transaction),
        PairingState::CommitSent { transaction } => Some(transaction),
        PairingState::AwaitCommitAck { transaction } => Some(transaction),
        PairingState::PublishingCommitting { transaction } => Some(transaction),
        PairingState::CommittedSent { transaction } => Some(transaction),
        PairingState::AwaitCommitted { transaction } => Some(transaction),
        PairingState::CompleteSent { transaction } => Some(transaction),
        PairingState::AwaitHello { transaction } => Some(transaction),
        PairingState::AwaitComplete { transaction } => Some(transaction),
        PairingState::PublishingPaired { transaction } => Some(transaction),
        PairingState::Paired { transaction } => Some(transaction),
    }
}

/// Whether the event is the other side's confirmation of the transaction.
pub open spec fn confirms(event: PairingEvent, transaction: [u8; 16]) -> bool {
    event == PairingEvent::Received {
        message: PairingMessage::Decision { transaction, confirmed: true },
        expired: false,
    } || event == PairingEvent::Received {
        message: PairingMessage::Decision { transaction, confirmed: true },
        expired: true,
    }
}

/// The states a role can be in: the responder waits for the other side's
/// decision only after confirming its own.
pub open spec fn role_state(role: PairingRole, state: PairingState) -> bool {
    role == PairingRole::Responder && state is AwaitDecision ==> state->AwaitDecision_local
}

/// What every step of every role keeps: a peer state is published only
/// from a state where both sides confirmed, and it is the next one in
/// `publication_order`; other steps publish nothing, so the count stays or
/// the exchange has failed; a side's confirmation appears only with the
/// local decision or with the other side's confirmation of the state's own
/// transaction; and the transaction never changes.
pub proof fn lemma_pairing_step(role: PairingRole, state: PairingState, event: PairingEvent)
    requires
        role_state(role, state),
    ensures
        ({
            let (next, action) = pairing_step_spec(role, state, event);
            &&& role_state(role, next)
            &&& action matches PairingAction::Publish(step) ==> {
                &&& local_confirmed(state)
                &&& remote_confirmed(state)
                &&& published(state) < 3
                &&& step == publication_order()[published(state) as int]
                &&& published(next) == published(state) + 1
                &&& transaction_of(next) == transaction_of(state)
            }
            &&& !(action is Publish) ==> published(next) == published(state) || next is Failed
            &&& local_confirmed(next) ==> local_confirmed(state) || event == PairingEvent::OwnerDecided(true)
            &&& remote_confirmed(next) ==> remote_confirmed(state) || (transaction_of(state) matches Some(t)
                && confirms(event, t))
            &&& !(next is Failed) && transaction_of(state) is Some ==> transaction_of(next) == transaction_of(state)
            &&& state is Failed ==> next is Failed && !(action is Publish)
        }),
{
}

/// The actions of a role over a sequence of events, from a state.
pub open spec fn pairing_run(role: PairingRole, state: PairingState, events: Seq<PairingEvent>) -> Seq<
    PairingAction,
>
    decreases events.len(),
{
    if events.len() == 0 {
        Seq::empty()
    } else {
        let (next, action) = pairing_step_spec(role, state, events[0]);
        seq![action] + pairing_run(role, next, events.drop_first())
    }
}

/// The peer states that actions publish, in order.
pub open spec fn publications(actions: Seq<PairingAction>) -> Seq<PeerStep>
    decreases actions.len(),
{
    if actions.len() == 0 {
        Seq::empty()
    } else {
        let rest = publications(actions.drop_first());
        match actions[0] {
            PairingAction::Publish(step) => seq![step] + rest,
            _ => rest,
        }
    }
}

proof fn lemma_run_first(role: PairingRole, state: PairingState, events: Seq<PairingEvent>)
    requires
        events.len() > 0,
    ensures
        ({
            let (next, action) = pairing_step_spec(role, state, events[0]);
            &&& pairing_run(role, state, events) == seq![action] + pairing_run(role, next, events.drop_first())
            &&& publications(pairing_run(role, state, events)) == match action {
                PairingAction::Publish(step) => seq![step] + publications(pairing_run(role, next, events.drop_first())),
                _ => publications(pairing_run(role, next, events.drop_first())),
            }
        }),
{
    let (next, action) = pairing_step_spec(role, state, events[0]);
    let actions = pairing_run(role, state, events);
    assert(actions[0] == action);
    assert(actions.drop_first() =~= pairing_run(role, next, events.drop_first()));
}

proof fn lemma_failed_publishes_nothing(role: PairingRole, events: Seq<PairingEvent>)
    ensures
        publications(pairing_run(role, PairingState::Failed, events)) == Seq::<PeerStep>::empty(),
    decreases events.len(),
{
    if events.len() > 0 {
        lemma_run_first(role, PairingState::Failed, events);
        lemma_pairing_step(role, PairingState::Failed, events[0]);
        lemma_failed_publishes_nothing(role, events.drop_first());
    }
}

/// Pairing publishes peer states only in the order `Pending`, `Committing`,
/// `Paired`, never skipping or repeating one: whatever events a role sees,
/// the states it publishes from a state continue `publication_order` from
/// where that state stands.
pub proof fn lemma_publications_in_order(role: PairingRole, state: PairingState, events: Seq<PairingEvent>)
    requires
        role_state(role, state),
    ensures
        publications(pairing_run(role, state, events)).is_prefix_of(
            publication_order().skip(published(state) as int),
        ),
    decreases events.len(),
{
    if events.len() > 0 {
        let (next, action) = pairing_step_spec(role, state, events[0]);
        lemma_run_first(role, state, events);
        lemma_pairing_step(role, state, events[0]);
        if next is Failed {
            lemma_failed_publishes_nothing(role, events.drop_first());
            if let PairingAction::Publish(step) = action {
                assert(false);
            }
        } else {
            lemma_publications_in_order(role, next, events.drop_first());
            let rest = publications(pairing_run(role, next, events.drop_first()));
            if let PairingAction::Publish(step) = action {
                let k = published(state) as int;
                let order = publication_order();
                assert(order.skip(k)[0] == step);
                assert(order.skip(k + 1) =~= order.skip(k).drop_first());
                assert((seq![step] + rest) =~= order.skip(k).subrange(0, rest.len() as int + 1));
            }
        }
    } else {
        assert(publications(pairing_run(role, state, events)) =~= Seq::<PeerStep>::empty());
    }
}

/// A peer state is published only after both sides confirmed the same
/// transaction: if a role publishes anything over a sequence of events, then
/// the local side confirmed before or among them, and the other side's
/// confirmation of the state's own transaction came before or among them.
pub proof fn lemma_publication_needs_both_confirmations(
    role: PairingRole,
    state: PairingState,
    events: Seq<PairingEvent>,
)
    requires
        role_state(role, state),
        publications(pairing_run(role, state, events)).len() > 0,
    ensures
        local_confirmed(state) || exists|j: int| 0 <= j < events.len() && events[j] == PairingEvent::OwnerDecided(true),
        remote_confirmed(state) || exists|k: int, t: [u8; 16]|
            0 <= k < events.len() && #[trigger] confirms(events[k], t) && (transaction_of(state) is Some
                ==> transaction_of(state) == Some(t)),
    decreases events.len(),
{
    if events.len() == 0 {
        assert(publications(pairing_run(role, state, events)) =~= Seq::<PeerStep>::empty());
    } else {
        let (next, action) = pairing_step_spec(role, state, events[0]);
        let rest = events.drop_first();
        lemma_run_first(role, state, events);
        lemma_pairing_step(role, state, events[0]);
        if !(action is Publish) {
            if next is Failed {
                lemma_failed_publishes_nothing(role, rest);
            } else {
                lemma_publication_needs_both_confirmations(role, next, rest);
                if !local_confirmed(state) {
                    if local_confirmed(next) {
                        assert(events[0] == PairingEvent::OwnerDecided(true));
                    } else {
                        let j = choose|j: int| 0 <= j < rest.len() && rest[j] == PairingEvent::OwnerDecided(true);
                        assert(events[j + 1] == rest[j]);
                    }
                }
                if !remote_confirmed(state) {
                    if remote_confirmed(next) {
                        let t = transaction_of(state)->0;
                        assert(confirms(events[0], t));
                    } else {
                        let (k, t) = choose|k: int, t: [u8; 16]|
                            0 <= k < rest.len() && #[trigger] confirms(rest[k], t) && (transaction_of(next) is Some
                                ==> transaction_of(next) == Some(t));
                        assert(events[k + 1] == rest[k]);
                        assert(confirms(events[k + 1], t));
                    }
                }
            }
        }
    }
}

/// For the host answering a device: whatever it publishes comes after the
/// device's `Begin` of a transaction, the owner's confirmation, and the
/// device's confirmation of that very transaction.
pub proof fn lemma_responder_publishes_only_the_confirmed_transaction(events: Seq<PairingEvent>)
    requires
        publications(pairing_run(PairingRole::Responder, PairingState::AwaitBegin, events)).len() > 0,
    ensures
        exists|t: [u8; 16]| {
            &&& events[0] == PairingEvent::Received { message: PairingMessage::Begin { transaction: t }, expired: false }
            &&& exists|k: int| 0 < k < events.len() && #[trigger] confirms(events[k], t)
        },
        exists|j: int| 0 < j < events.len() && events[j] == PairingEvent::OwnerDecided(true),
{
    let role = PairingRole::Responder;
    if events.len() == 0 {
        assert(publications(pairing_run(role, PairingState::AwaitBegin, events)) =~= Seq::<PeerStep>::empty());
    }
    let rest = events.drop_first();
    let (next, action) = pairing_step_spec(role, PairingState::AwaitBegin, events[0]);
    lemma_run_first(role, PairingState::AwaitBegin, events);
    if next is Failed {
        lemma_failed_publishes_nothing(role, rest);
    }
    let t = next->Reserving_transaction;
    assert(events[0] == PairingEvent::Received { message: PairingMessage::Begin { transaction: t }, expired: false });
    lemma_publication_needs_both_confirmations(role, next, rest);
    let j = choose|j: int| 0 <= j < rest.len() && rest[j] == PairingEvent::OwnerDecided(true);
    assert(events[j + 1] == rest[j]);
    let (k, u) = choose|k: int, u: [u8; 16]|
        0 <= k < rest.len() && #[trigger] confirms(rest[k], u) && (transaction_of(next) is Some
            ==> transaction_of(next) == Some(u));
    assert(events[k + 1] == rest[k]);
    assert(confirms(events[k + 1], t));
}

/// The decision a side writes is its own. Waiting for the other side's
/// decision on transaction `t` with the local decision `local`, the host
/// as initiator answers the other side's decision on `t`, whatever it is,
/// by writing `local` on `t`; the device answers whatever it receives by
/// writing `local` on `t`.
pub proof fn lemma_written_decision_is_local(t: [u8; 16], local: bool, message: PairingMessage, expired: bool)
    ensures
        ({
            let state = PairingState::AwaitDecision { transaction: t, local };
            let event = PairingEvent::Received { message, expired };
            &&& (message matches PairingMessage::Decision { transaction: u, confirmed } && u == t) ==> (
                initiator_step_spec(state, event).1 == PairingAction::Send(
                    PairingMessage::Decision { transaction: t, confirmed: local },
                ) && initiator_step_spec(state, event).0 == PairingState::DecisionSent {
                    transaction: t,
                    local,
                    remote: message->Decision_confirmed,
                })
            &&& device_pairing_step_spec(state, event).1 == PairingAction::Send(
                PairingMessage::Decision { transaction: t, confirmed: local },
            )
        }),
{
}

/// No side ever tells the other that it confirmed a pairing its own side
/// did not confirm: whenever a step writes a confirming decision, either
/// the local side confirmed on the way to the state, or the event is the
/// local confirmation itself; and the decision is on the state's own
/// transaction.
pub proof fn lemma_confirmation_written_only_when_confirmed(
    role: PairingRole,
    state: PairingState,
    event: PairingEvent,
)
    requires
        role_state(role, state),
    ensures
        ({
            let action = pairing_step_spec(role, state, event).1;
            &&& action matches PairingAction::Send(PairingMessage::Decision { transaction, confirmed })
                ==> transaction_of(state) == Some(transaction) && (confirmed ==> local_confirmed(state) || event
                == PairingEvent::OwnerDecided(true))
        }),
{
}

} // verus!
