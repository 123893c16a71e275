use deskkin::profile::{IpAddress, SocketAddress};
use std::sync::mpsc;

use deskkin::owner_control::{
    hex_bytes, valid_id, CommandTable, DecisionTarget, OwnerPairingTask, OwnerResponse,
    PAIRING_WINDOW_MS, RESULT_RETENTION_MS, TABLE_MAX,
};
use deskkin::owner_control::{poll_step, route_command, CommandRoute, OwnerCommand, PollStep};
use deskkin::owner_control::{route_response, ConfirmStep, DecisionPoll};
use deskkin::owner_control::{decision_step, encode_frame, encode_request, frame_length, PAYLOAD_MAX};

fn id(n: u32) -> String {
    format!("{n:032x}")
}

#[test]
fn closed_command_ids_are_exact() {
    assert!(valid_id("00112233445566778899aabbccddeeff"));
    assert!(!valid_id("../00112233445566778899aabbccddeeff"));
}

#[test]
fn command_ids_reject_uppercase_and_wrong_lengths() {
    assert!(!valid_id("00112233445566778899AABBCCDDEEFF"));
    assert!(!valid_id("00112233445566778899aabbccddeef"));
    assert!(!valid_id(""));
    assert_eq!(hex_bytes(&[0xde, 0xad]), "dead");
}

/// The decision step of the control plane: where the decision goes, then
/// its delivery on the pairing task's channel, then its record.
fn accept_pairing_decision(
    table: &mut CommandTable<mpsc::SyncSender<(String, bool)>>,
    command_id: String,
    parent_command_id: &String,
    transaction: String,
    confirmed: bool,
) -> OwnerResponse {
    match table.decision_target(&command_id, parent_command_id, &transaction) {
        DecisionTarget::Answered(response) => response,
        DecisionTarget::Refused => OwnerResponse::InvalidRequest,
        DecisionTarget::Deliver(parent) => {
            let sent = table
                .decision_channel(parent)
                .is_some_and(|channel| channel.try_send((transaction, confirmed)).is_ok());
            table.record_decision(parent, command_id, sent)
        }
    }
}

#[test]
fn full_command_table_never_evicts_pending_and_shutdown_stays_reserved() {
    let mut table: CommandTable<()> = CommandTable::new();
    for index in 0..TABLE_MAX {
        let id = format!("{index:032x}");
        assert_eq!(table.accept(id), OwnerResponse::CommandAccepted);
    }
    assert_eq!(table.len(), TABLE_MAX);
    assert_eq!(
        table.accept("ffffffffffffffffffffffffffffffff".into()),
        OwnerResponse::OwnerBusy
    );
    assert!((0..table.len()).all(|index| table.record_response(index).is_none()));
    // Expiry never removes an unfinished command.
    table.expire_terminal(u64::MAX);
    assert_eq!(table.len(), TABLE_MAX);
    // Shutdown needs no place in the table.
    assert!(matches!(
        route_command(
            OwnerCommand::Shutdown { owner_generation: "generation".to_string() },
            &"generation".to_string()
        ),
        CommandRoute::Shutdown
    ));
    // A repeated command answers with its state and takes no new place.
    assert_eq!(table.accept(id(3)), OwnerResponse::CommandPending);
    assert_eq!(table.accept("not-an-id".into()), OwnerResponse::InvalidRequest);
    assert_eq!(table.command_result(&id(99)), OwnerResponse::CommandUnknown);
}

#[test]
fn terminal_results_expire_without_affecting_pending_records() {
    let now = 100 * 60_000;
    let mut table: CommandTable<()> = CommandTable::new();
    table.accept("0".repeat(32));
    table.accept("1".repeat(32));
    table.apply_completion(&"0".repeat(32), OwnerResponse::Unpaired, now - 11 * 60_000);
    table.expire_terminal(now);
    assert_eq!(table.len(), 1);
    assert_eq!(table.record_id(0), &"1".repeat(32));
}

#[test]
fn results_stay_until_their_retention_ends() {
    let mut table: CommandTable<()> = CommandTable::new();
    table.accept(id(1));
    table.accept(id(2));
    table.apply_completion(&id(1), OwnerResponse::Unpaired, 1_000);
    assert_eq!(table.command_result(&id(1)), OwnerResponse::Unpaired);
    assert_eq!(table.accept(id(1)), OwnerResponse::Unpaired);
    table.expire_terminal(1_000 + RESULT_RETENTION_MS - 1);
    assert_eq!(table.command_result(&id(1)), OwnerResponse::Unpaired);
    table.expire_terminal(1_000 + RESULT_RETENTION_MS);
    assert_eq!(table.command_result(&id(1)), OwnerResponse::CommandUnknown);
    assert_eq!(table.command_result(&id(2)), OwnerResponse::CommandPending);
}

fn prompt(transaction: &str) -> OwnerResponse {
    OwnerResponse::PairingConfirmationRequired {
        pairing_transaction_id: transaction.into(),
        authentication_string: "123456".into(),
    }
}

#[test]
fn pairing_decision_remains_reserved_when_command_table_is_full() {
    let (decision, decisions) = mpsc::sync_channel(1);
    let parent_id = "a".repeat(32);
    let mut table = CommandTable::new();
    assert_eq!(table.open_pairing(parent_id.clone(), Some(decision)), OwnerResponse::CommandAccepted);
    table.apply_completion(&parent_id, prompt(&"b".repeat(32)), 0);
    for index in 1..TABLE_MAX {
        table.accept(format!("{index:032x}"));
    }
    assert_eq!(table.len(), TABLE_MAX);
    let command_id = "c".repeat(32);
    assert_eq!(
        accept_pairing_decision(&mut table, command_id.clone(), &parent_id, "b".repeat(32), true),
        OwnerResponse::PairingDecisionAccepted
    );
    assert_eq!(decisions.recv().unwrap(), ("b".repeat(32), true));
    assert_eq!(table.len(), TABLE_MAX);
    assert_eq!(table.decision_id(0, 0), &command_id);
}

#[test]
fn pairing_decision_requires_the_published_prompt_and_exact_transaction() {
    let (decision, decisions) = mpsc::sync_channel(1);
    let parent_id = "a".repeat(32);
    let transaction = "b".repeat(32);
    let mut table = CommandTable::new();
    table.open_pairing(parent_id.clone(), Some(decision));

    assert_eq!(
        accept_pairing_decision(&mut table, "c".repeat(32), &parent_id, transaction.clone(), true),
        OwnerResponse::InvalidRequest
    );
    assert!(decisions.try_recv().is_err());

    table.apply_completion(&parent_id, prompt(&transaction), 0);
    assert_eq!(
        accept_pairing_decision(&mut table, "d".repeat(32), &parent_id, "e".repeat(32), true),
        OwnerResponse::InvalidRequest
    );
    assert!(decisions.try_recv().is_err());

    assert_eq!(
        accept_pairing_decision(&mut table, "f".repeat(32), &parent_id, transaction.clone(), false),
        OwnerResponse::PairingDecisionAccepted
    );
    assert_eq!(decisions.recv().unwrap(), (transaction, false));
}

#[test]
fn decisions_replay_and_refuse_a_second_answer() {
    let mut table: CommandTable<u8> = CommandTable::new();
    assert_eq!(table.open_pairing(id(1), Some(7)), OwnerResponse::CommandAccepted);
    assert!(matches!(
        table.decision_target(&id(10), &id(1), &id(50)),
        DecisionTarget::Refused
    ));
    table.apply_completion(&id(1), OwnerResponse::PairingWaiting, 5);
    table.apply_completion(&id(1), prompt(&id(50)), 6);
    assert_eq!(table.command_result(&id(1)), prompt(&id(50)));
    assert!(matches!(
        table.decision_target(&id(10), &id(2), &id(50)),
        DecisionTarget::Refused
    ));
    let parent = match table.decision_target(&id(10), &id(1), &id(50)) {
        DecisionTarget::Deliver(parent) => parent,
        _ => panic!("decision not delivered"),
    };
    assert_eq!(table.decision_channel(parent), Some(&7));
    assert_eq!(
        table.record_decision(parent, id(10), true),
        OwnerResponse::PairingDecisionAccepted
    );
    assert!(matches!(
        table.decision_target(&id(10), &id(1), &id(50)),
        DecisionTarget::Answered(OwnerResponse::PairingDecisionAccepted)
    ));
    assert!(matches!(
        table.decision_target(&id(11), &id(1), &id(50)),
        DecisionTarget::Refused
    ));
    assert_eq!(table.command_result(&id(10)), OwnerResponse::PairingDecisionAccepted);
}

#[test]
fn undeliverable_decisions_and_pairing_events_fail() {
    let mut table: CommandTable<u8> = CommandTable::new();
    assert_eq!(table.open_pairing(id(1), None), OwnerResponse::OperationFailed);
    assert_eq!(table.len(), 0);
    table.open_pairing(id(2), Some(1));
    assert_eq!(table.pairing_event_failed(40), OwnerResponse::OperationFailed);
    assert_eq!(table.command_result(&id(2)), OwnerResponse::OperationFailed);
    table.expire_terminal(40 + RESULT_RETENTION_MS);
    assert_eq!(table.len(), 0);
    table.open_pairing(id(3), Some(1));
    table.apply_completion(&id(3), prompt(&id(60)), 1);
    let parent = match table.decision_target(&id(12), &id(3), &id(60)) {
        DecisionTarget::Deliver(parent) => parent,
        _ => panic!("decision not delivered"),
    };
    assert_eq!(table.record_decision(parent, id(12), false), OwnerResponse::InvalidRequest);
    assert_eq!(table.command_result(&id(12)), OwnerResponse::InvalidRequest);
}

#[test]
fn pairing_task_prompts_until_its_deadline() {
    let mut task = OwnerPairingTask::new(id(4), 1_000);
    assert_eq!(task.deadline(), 1_000 + PAIRING_WINDOW_MS);
    assert_eq!(task.waiting(), (id(4), OwnerResponse::PairingWaiting));
    assert!(!task.expired(1_000 + PAIRING_WINDOW_MS - 1));
    assert!(task.expired(1_000 + PAIRING_WINDOW_MS));
    let (command, response) = task.confirm([0xab; 16], *b"042917", 2_000).unwrap();
    assert_eq!(command, id(4));
    assert_eq!(
        response,
        OwnerResponse::PairingConfirmationRequired {
            pairing_transaction_id: "ab".repeat(16),
            authentication_string: "042917".into(),
        }
    );
    assert!(task.confirm([0; 16], *b"000000", 1_000 + PAIRING_WINDOW_MS).is_none());
    assert_eq!(task.decision_wait(1_000), Some(50));
    assert_eq!(task.decision_wait(1_000 + PAIRING_WINDOW_MS - 20), Some(20));
    assert_eq!(task.decision_wait(1_000 + PAIRING_WINDOW_MS + 1), None);
    assert!(OwnerPairingTask::decision_confirms(&"ab".into(), &"ab".into(), true));
    assert!(!OwnerPairingTask::decision_confirms(&"ab".into(), &"ac".into(), true));
    assert!(!OwnerPairingTask::decision_confirms(&"ab".into(), &"ab".into(), false));
    task.cancel();
    assert_eq!(task.decision_wait(1_000), None);
}

#[test]
fn pairing_task_finishes_with_its_outcome() {
    let task = OwnerPairingTask::new(id(5), 0);
    assert_eq!(task.finish(true), (id(5), OwnerResponse::Paired));
    let task = OwnerPairingTask::new(id(6), 0);
    assert_eq!(task.finish(false), (id(6), OwnerResponse::OperationFailed));
}


#[test]
fn requests_of_another_generation_are_stale_shutdown_included() {
    let generation = "gen-1".to_string();
    assert!(matches!(
        route_command(OwnerCommand::Shutdown { owner_generation: generation.clone() }, &generation),
        CommandRoute::Shutdown
    ));
    assert!(matches!(
        route_command(OwnerCommand::Shutdown { owner_generation: "gen-0".to_string() }, &generation),
        CommandRoute::Stale
    ));
    assert!(matches!(route_command(OwnerCommand::OwnerInfo, &generation), CommandRoute::Info));
    assert!(matches!(
        route_command(
            OwnerCommand::Unpair {
                command_id: id(1),
                owner_generation: "gen-0".into(),
                peer_id: "p".into(),
            },
            &generation
        ),
        CommandRoute::Stale
    ));
    match route_command(
        OwnerCommand::PairingDecide {
            command_id: id(1),
            owner_generation: generation.clone(),
            parent_command_id: id(2),
            pairing_transaction_id: id(3),
            confirmed: true,
        },
        &generation,
    ) {
        CommandRoute::Decide { command_id, parent_command_id, pairing_transaction_id, confirmed } => {
            assert_eq!((command_id, parent_command_id, pairing_transaction_id, confirmed), (id(1), id(2), id(3), true));
        }
        _ => panic!("decision not routed"),
    }
}

#[test]
fn clients_poll_until_a_terminal_answer() {
    assert!(matches!(poll_step(OwnerResponse::CommandPending, false, true, false), PollStep::Wait));
    assert!(matches!(poll_step(OwnerResponse::CommandUnknown, true, false, false), PollStep::Wait));
    assert!(matches!(poll_step(OwnerResponse::CommandUnknown, true, true, false), PollStep::Lost));
    assert!(matches!(
        poll_step(OwnerResponse::CommandUnknown, false, false, false),
        PollStep::Done(OwnerResponse::CommandUnknown)
    ));
    assert!(matches!(poll_step(OwnerResponse::StaleOwner, false, false, false), PollStep::Lost));
    let prompt = OwnerResponse::PairingConfirmationRequired {
        pairing_transaction_id: id(9),
        authentication_string: "123456".into(),
    };
    match poll_step(prompt.clone(), false, false, false) {
        PollStep::Confirm { pairing_transaction_id, authentication_string } => {
            assert_eq!(pairing_transaction_id, id(9));
            assert_eq!(authentication_string, "123456");
        }
        _ => panic!("prompt not confirmed"),
    }
    assert!(matches!(poll_step(prompt, false, false, true), PollStep::Wait));
    assert!(matches!(
        poll_step(OwnerResponse::Paired, false, false, true),
        PollStep::Done(OwnerResponse::Paired)
    ));
}

#[test]
fn control_frames_carry_a_big_endian_length_and_read_back() {
    let payload = br#"{"command":"owner_info"}"#;
    let frame = encode_frame(payload).unwrap();
    assert_eq!(&frame[..4], &[0, 0, 0, payload.len() as u8]);
    assert_eq!(&frame[4..], payload);
    assert_eq!(frame_length([frame[0], frame[1], frame[2], frame[3]]), Some(payload.len()));

    let large = vec![7u8; 0x1234];
    let framed = encode_frame(&large).unwrap();
    assert_eq!(&framed[..4], &[0, 0, 0x12, 0x34]);
    assert_eq!(framed.len(), 4 + 0x1234);
}

#[test]
fn control_frames_refuse_payloads_over_the_limit() {
    assert_eq!(frame_length([0, 0, 0x10, 0x00]), Some(PAYLOAD_MAX));
    assert_eq!(frame_length([0, 0, 0x10, 0x01]), None);
    assert_eq!(frame_length([1, 0, 0, 0]), None);
    assert!(encode_request(&vec![0u8; PAYLOAD_MAX]).is_some());
    assert!(encode_request(&vec![0u8; PAYLOAD_MAX + 1]).is_none());
    assert_eq!(encode_frame(&[]).unwrap(), vec![0, 0, 0, 0]);
}

#[test]
fn submitted_decisions_wait_while_unsettled_and_are_lost_past_the_deadline() {
    assert!(matches!(decision_step(OwnerResponse::CommandAccepted, false), PollStep::Wait));
    assert!(matches!(decision_step(OwnerResponse::CommandPending, false), PollStep::Wait));
    assert!(matches!(decision_step(OwnerResponse::CommandUnknown, false), PollStep::Wait));
    assert!(matches!(decision_step(OwnerResponse::CommandUnknown, true), PollStep::Lost));
    assert!(matches!(decision_step(OwnerResponse::StaleOwner, false), PollStep::Lost));
    assert!(matches!(
        decision_step(OwnerResponse::PairingDecisionAccepted, true),
        PollStep::Done(OwnerResponse::PairingDecisionAccepted)
    ));
    assert!(matches!(
        decision_step(OwnerResponse::PairingWaiting, false),
        PollStep::Done(OwnerResponse::PairingWaiting)
    ));
}

#[test]
fn confirmation_is_decided_by_the_first_decision_before_the_deadline() {
    let tx = "00112233445566778899aabbccddeeff".to_string();
    let mut task = OwnerPairingTask::new(id(7), 1_000);
    let due = 1_000 + PAIRING_WINDOW_MS;
    assert_eq!(task.confirmation_step(&tx, 1_000, DecisionPoll::Nothing), ConfirmStep::Wait(50));
    assert_eq!(task.confirmation_step(&tx, due - 20, DecisionPoll::Nothing), ConfirmStep::Wait(20));
    assert_eq!(task.confirmation_step(&tx, due, DecisionPoll::Nothing), ConfirmStep::Wait(0));
    assert_eq!(task.confirmation_step(&tx, due + 1, DecisionPoll::Nothing), ConfirmStep::Decided(false));
    let yes = DecisionPoll::Received { transaction: tx.clone(), confirmed: true };
    assert_eq!(task.confirmation_step(&tx, 1_000, yes), ConfirmStep::Decided(true));
    let no = DecisionPoll::Received { transaction: tx.clone(), confirmed: false };
    assert_eq!(task.confirmation_step(&tx, 1_000, no), ConfirmStep::Decided(false));
    let other = DecisionPoll::Received { transaction: id(8), confirmed: true };
    assert_eq!(task.confirmation_step(&tx, 1_000, other), ConfirmStep::Decided(false));
    assert_eq!(task.confirmation_step(&tx, 1_000, DecisionPoll::Disconnected), ConfirmStep::Decided(false));
    task.cancel();
    assert_eq!(task.confirmation_step(&tx, 1_000, DecisionPoll::Nothing), ConfirmStep::Decided(false));
}

#[test]
fn pair_start_needs_a_loopback_address() {
    let mut table: CommandTable<mpsc::SyncSender<(String, bool)>> = CommandTable::new();
    let (sender, _receiver) = mpsc::sync_channel(1);
    let lan = SocketAddress { ip: IpAddress::V4([192, 168, 1, 2]), port: 39_042 };
    assert_eq!(table.start_pairing(id(1), Some(lan), Some(sender.clone())), OwnerResponse::InvalidRequest);
    assert_eq!(table.start_pairing(id(1), None, Some(sender.clone())), OwnerResponse::InvalidRequest);
    assert_eq!(table.len(), 0);
    let loopback = SocketAddress { ip: IpAddress::V4([127, 0, 0, 1]), port: 39_032 };
    assert_eq!(table.start_pairing(id(1), Some(loopback), None), OwnerResponse::OperationFailed);
    assert_eq!(table.start_pairing(id(1), Some(loopback), Some(sender)), OwnerResponse::CommandAccepted);
    assert_eq!(table.len(), 1);
}

#[test]
fn routes_answered_without_the_table_name_the_generation() {
    let generation = "gen-1".to_string();
    assert!(matches!(
        route_response(&CommandRoute::Info, &generation),
        Some(OwnerResponse::OwnerInfo { owner_generation }) if owner_generation == generation
    ));
    assert!(matches!(route_response(&CommandRoute::Shutdown, &generation), Some(OwnerResponse::ShutdownAccepted)));
    assert!(matches!(route_response(&CommandRoute::Stale, &generation), Some(OwnerResponse::StaleOwner)));
    assert!(route_response(&CommandRoute::ListIdentity, &generation).is_none());
    assert!(route_response(&CommandRoute::Init { command_id: id(1) }, &generation).is_none());
}
