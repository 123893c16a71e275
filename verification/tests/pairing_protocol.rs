use deskkin::identity::SessionError;
use deskkin::pairing_protocol::{
    device_pairing_step, initiator_step, responder_step, CloseReason, PairingAction, PairingEvent,
    PairingMessage, PairingState, PeerStep,
};

const T: [u8; 16] = [5; 16];
const OTHER: [u8; 16] = [6; 16];

fn received(message: PairingMessage) -> PairingEvent {
    PairingEvent::Received { message, expired: false }
}

fn sent() -> PairingEvent {
    PairingEvent::Sent { expired: false }
}

fn run(
    step: fn(PairingState, PairingEvent) -> (PairingState, PairingAction),
    start: PairingState,
    events: &[PairingEvent],
) -> (PairingState, Vec<PairingAction>) {
    let mut state = start;
    let mut actions = Vec::new();
    for &event in events {
        let (next, action) = step(state, event);
        state = next;
        actions.push(action);
    }
    (state, actions)
}

fn publications(actions: &[PairingAction]) -> Vec<PeerStep> {
    actions
        .iter()
        .filter_map(|action| match action {
            PairingAction::Publish(step) => Some(*step),
            _ => None,
        })
        .collect()
}

#[test]
fn responder_pairs_in_order_after_both_confirm() {
    let events = [
        received(PairingMessage::Begin { transaction: T }),
        PairingEvent::Reserved(true),
        PairingEvent::OwnerDecided(true),
        sent(),
        received(PairingMessage::Decision { transaction: T, confirmed: true }),
        received(PairingMessage::Prepared { transaction: T }),
        PairingEvent::Stored(true),
        sent(),
        received(PairingMessage::Commit { transaction: T }),
        PairingEvent::Stored(true),
        sent(),
        received(PairingMessage::Committed { transaction: T }),
        sent(),
        received(PairingMessage::Hello),
        PairingEvent::Stored(true),
    ];
    let (state, actions) = run(responder_step, PairingState::AwaitBegin, &events);
    assert_eq!(state, PairingState::Paired { transaction: T });
    assert_eq!(actions[0], PairingAction::Reserve);
    assert_eq!(actions[1], PairingAction::AskOwner);
    assert_eq!(actions[2], PairingAction::Send(PairingMessage::Decision { transaction: T, confirmed: true }));
    assert_eq!(actions[12], PairingAction::Await);
    assert_eq!(actions[11], PairingAction::Send(PairingMessage::Complete { transaction: T }));
    assert_eq!(actions[14], PairingAction::Done);
    assert_eq!(publications(&actions), [PeerStep::Pending, PeerStep::Committing, PeerStep::Paired]);
}

#[test]
fn responder_refuses_busy_expired_rejected_and_foreign_decisions() {
    let begin = received(PairingMessage::Begin { transaction: T });
    let (_, busy) = run(responder_step, PairingState::AwaitBegin, &[begin, PairingEvent::Reserved(false)]);
    assert_eq!(
        busy[1],
        PairingAction::CloseAndFail { transaction: T, reason: CloseReason::PairingBusy, error: SessionError::SessionBusy }
    );
    let expired = PairingEvent::Received { message: PairingMessage::Begin { transaction: T }, expired: true };
    assert_eq!(
        responder_step(PairingState::AwaitBegin, expired).1,
        PairingAction::CloseAndFail { transaction: T, reason: CloseReason::Expired, error: SessionError::PairingTimeout }
    );
    let (state, refused) =
        run(responder_step, PairingState::AwaitBegin, &[begin, PairingEvent::Reserved(true), PairingEvent::OwnerDecided(false), sent()]);
    assert_eq!(state, PairingState::Failed);
    assert_eq!(refused[2], PairingAction::Send(PairingMessage::Decision { transaction: T, confirmed: false }));
    assert_eq!(refused[3], PairingAction::Fail(SessionError::PairingRejected));
    let waiting = PairingState::AwaitDecision { transaction: T, local: true };
    assert_eq!(
        responder_step(waiting, received(PairingMessage::Decision { transaction: OTHER, confirmed: true })).1,
        PairingAction::Fail(SessionError::PairingIncomplete)
    );
    assert_eq!(
        responder_step(waiting, received(PairingMessage::Decision { transaction: T, confirmed: false })).1,
        PairingAction::Fail(SessionError::PairingRejected)
    );
    assert_eq!(
        responder_step(PairingState::PublishingPending { transaction: T }, PairingEvent::Stored(false)).1,
        PairingAction::CloseAndFail { transaction: T, reason: CloseReason::StoreFailed, error: SessionError::StoreFailed }
    );
}

#[test]
fn initiator_pairs_in_order_and_maps_closes() {
    let events = [
        sent(),
        PairingEvent::OwnerDecided(true),
        received(PairingMessage::Decision { transaction: T, confirmed: true }),
        sent(),
        PairingEvent::Stored(true),
        sent(),
        received(PairingMessage::Prepared { transaction: T }),
        sent(),
        received(PairingMessage::Committed { transaction: T }),
        PairingEvent::Stored(true),
        sent(),
        received(PairingMessage::Complete { transaction: T }),
        PairingEvent::Stored(true),
    ];
    let (state, actions) = run(initiator_step, PairingState::BeginSent { transaction: T }, &events);
    assert_eq!(state, PairingState::Paired { transaction: T });
    assert_eq!(actions[6], PairingAction::Send(PairingMessage::Commit { transaction: T }));
    assert_eq!(publications(&actions), [PeerStep::Pending, PeerStep::Committing, PeerStep::Paired]);

    let waiting = PairingState::AwaitDecision { transaction: T, local: true };
    for (reason, error) in [
        (CloseReason::PairingBusy, SessionError::SessionBusy),
        (CloseReason::Expired, SessionError::PairingTimeout),
        (CloseReason::Rejected, SessionError::PairingRejected),
        (CloseReason::StoreFailed, SessionError::StoreFailed),
        (CloseReason::Incomplete, SessionError::PairingIncomplete),
    ] {
        assert_eq!(
            initiator_step(waiting, received(PairingMessage::Close { transaction: T, reason })).1,
            PairingAction::Fail(error)
        );
    }
    let (_, refused) = run(
        initiator_step,
        waiting,
        &[received(PairingMessage::Decision { transaction: T, confirmed: false }), sent()],
    );
    assert_eq!(refused[0], PairingAction::Send(PairingMessage::Decision { transaction: T, confirmed: true }));
    assert_eq!(refused[1], PairingAction::Fail(SessionError::PairingRejected));
    let decided = PairingState::DecisionSent { transaction: T, local: true, remote: true };
    assert_eq!(
        initiator_step(decided, PairingEvent::Sent { expired: true }).1,
        PairingAction::CloseAndFail { transaction: T, reason: CloseReason::Expired, error: SessionError::PairingTimeout }
    );
}

#[test]
fn device_counts_anything_but_a_matching_confirmation_as_refusal() {
    let waiting = PairingState::AwaitDecision { transaction: T, local: true };
    let (next, action) = device_pairing_step(waiting, received(PairingMessage::Other));
    assert_eq!(next, PairingState::DecisionSent { transaction: T, local: true, remote: false });
    assert_eq!(action, PairingAction::Send(PairingMessage::Decision { transaction: T, confirmed: true }));
    assert_eq!(device_pairing_step(next, sent()).1, PairingAction::Fail(SessionError::PairingRejected));
    let (next, _) =
        device_pairing_step(waiting, received(PairingMessage::Decision { transaction: T, confirmed: true }));
    assert_eq!(device_pairing_step(next, sent()).1, PairingAction::Publish(PeerStep::Pending));
    assert_eq!(
        device_pairing_step(PairingState::PublishingPaired { transaction: T }, PairingEvent::Stored(false)).1,
        PairingAction::Fail(SessionError::StoreFailed)
    );
    assert_eq!(
        device_pairing_step(PairingState::AwaitComplete { transaction: T }, received(PairingMessage::Complete { transaction: OTHER })).1,
        PairingAction::Fail(SessionError::Protocol)
    );
}
