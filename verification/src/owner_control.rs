//! The owner control plane of a desktop host: the commands an owner sends,
//! the responses it gets, the table of accepted commands, and the pairing
//! task that asks the owner to confirm a pairing.
use vstd::prelude::*;
use std::collections::VecDeque;
use crate::identity::{hex, hex_text, is_lower_hex, PeerState};
use crate::profile::{is_loopback_spec, SocketAddress};

verus! {

/// The most bytes a control request or response carries.
pub const PAYLOAD_MAX: usize = 4096;
/// The most commands the table holds at once.
pub const TABLE_MAX: usize = 16;
/// How long a finished command's result stays queryable.
pub const RESULT_RETENTION_MS: u64 = 600_000;
/// How long a pairing task waits for the owner's decision.
pub const PAIRING_WINDOW_MS: u64 = 60_000;

/// A request from the owner.
#[derive(Clone, Debug)]
pub enum OwnerCommand {
    OwnerInfo,
    IdentityInit { command_id: String, owner_generation: String },
    IdentityList,
    Unpair { command_id: String, owner_generation: String, peer_id: String },
    PairingWindowOpen { command_id: String, owner_generation: String },
    PairStart { command_id: String, owner_generation: String, loopback_address: String },
    PairingDecide {
        command_id: String,
        owner_generation: String,
        parent_command_id: String,
        pairing_transaction_id: String,
        confirmed: bool,
    },
    CommandResult { command_id: String, owner_generation: String },
    Shutdown { owner_generation: String },
}

/// The answer to an owner request, or the state of an accepted command.
#[derive(Clone, Debug, PartialEq, Eq)]
pub enum OwnerResponse {
    OwnerInfo { owner_generation: String },
    IdentityInitialized,
    IdentityState { peer: PeerState },
    Unpaired,
    PairingConfirmationRequired { pairing_transaction_id: String, authentication_string: String },
    PairingDecisionAccepted,
    PairingWaiting,
    Paired,
    CommandUnknown,
    CommandAccepted,
    CommandPending,
    StaleOwner,
    InvalidRequest,
    OwnerBusy,
    OperationFailed,
    ShutdownAccepted,
}

/// A command id: 32 lowercase hexadecimal digits.
pub open spec fn is_command_id(text: Seq<char>) -> bool {
    &&& text.len() == 32
    &&& forall|i: int| 0 <= i < text.len() ==> #[trigger] is_lower_hex(text[i])
}

/// Whether a response ends its command; a confirmation prompt and a waiting
/// notice are progress of a pairing that is still running.
pub open spec fn is_terminal(response: OwnerResponse) -> bool {
    !(response is PairingConfirmationRequired || response is PairingWaiting)
}

/// Accepts exactly the command ids: 32 lowercase hexadecimal digits.
pub fn valid_id(value: &str) -> (valid: bool)
    ensures
        valid == is_command_id(value@),
{
    let lower_hex = crate::identity::validate_hex(value, 16);
    lower_hex.is_ok()
}

/// The bytes as lowercase hexadecimal text, two digits per byte.
pub fn hex_bytes(bytes: &[u8]) -> (text: String)
    ensures
        text@ == hex_text(bytes@),
{
    hex(bytes)
}

fn copy_peer(peer: &PeerState) -> (copy: PeerState)
    ensures
        copy == *peer,
{
    match peer {
        PeerState::Unpaired => PeerState::Unpaired,
        PeerState::Pending { remote_public_key, pairing_transaction_id } => PeerState::Pending {
            remote_public_key: remote_public_key.clone(),
            pairing_transaction_id: pairing_transaction_id.clone(),
        },
        PeerState::Committing { remote_public_key, pairing_transaction_id } => PeerState::Committing {
            remote_public_key: remote_public_key.clone(),
            pairing_transaction_id: pairing_transaction_id.clone(),
        },
        PeerState::Paired { remote_public_key, pairing_transaction_id } => PeerState::Paired {
            remote_public_key: remote_public_key.clone(),
            pairing_transaction_id: pairing_transaction_id.clone(),
        },
        PeerState::Revoking { remote_public_key, previous_pairing_transaction_id } => PeerState::Revoking {
            remote_public_key: remote_public_key.clone(),
            previous_pairing_transaction_id: previous_pairing_transaction_id.clone(),
        },
    }
}

impl OwnerResponse {
    /// An equal response.
    pub fn duplicate(&self) -> (copy: Self)
        ensures
            copy == *self,
    {
        match self {
            OwnerResponse::OwnerInfo { owner_generation } => OwnerResponse::OwnerInfo {
                owner_generation: owner_generation.clone(),
            },
            OwnerResponse::IdentityInitialized => OwnerResponse::IdentityInitialized,
            OwnerResponse::IdentityState { peer } => OwnerResponse::IdentityState {
                peer: copy_peer(peer),
            },
            OwnerResponse::Unpaired => OwnerResponse::Unpaired,
            OwnerResponse::PairingConfirmationRequired {
                pairing_transaction_id,
                authentication_string,
            } => OwnerResponse::PairingConfirmationRequired {
                pairing_transaction_id: pairing_transaction_id.clone(),
                authentication_string: authentication_string.clone(),
            },
            OwnerResponse::PairingDecisionAccepted => OwnerResponse::PairingDecisionAccepted,
            OwnerResponse::PairingWaiting => OwnerResponse::PairingWaiting,
            OwnerResponse::Paired => OwnerResponse::Paired,
            OwnerResponse::CommandUnknown => OwnerResponse::CommandUnknown,
            OwnerResponse::CommandAccepted => OwnerResponse::CommandAccepted,
            OwnerResponse::CommandPending => OwnerResponse::CommandPending,
            OwnerResponse::StaleOwner => OwnerResponse::StaleOwner,
            OwnerResponse::InvalidRequest => OwnerResponse::InvalidRequest,
            OwnerResponse::OwnerBusy => OwnerResponse::OwnerBusy,
            OwnerResponse::OperationFailed => OwnerResponse::OperationFailed,
            OwnerResponse::ShutdownAccepted => OwnerResponse::ShutdownAccepted,
        }
    }

    /// Whether this response ends its command.
    pub fn terminal(&self) -> (terminal: bool)
        ensures
            terminal == is_terminal(*self),
    {
        match self {
            OwnerResponse::PairingConfirmationRequired { .. } => false,
            OwnerResponse::PairingWaiting => false,
            _ => true,
        }
    }
}

/// What the table knows of one accepted command.
pub struct CommandRecord<D> {
    id: String,
    response: Option<OwnerResponse>,
    completed_at_ms: Option<u64>,
    decision: Option<D>,
    decision_results: Vec<(String, OwnerResponse)>,
}

/// The table's knowledge of one command, as plain values: its id, its
/// latest response, when it finished, the channel of its pairing task that
/// a decision can still be handed to, and the decisions made on it with
/// their responses.
pub struct RecordView<D> {
    pub id: Seq<char>,
    pub response: Option<OwnerResponse>,
    pub completed_at_ms: Option<u64>,
    pub decision: Option<D>,
    pub decision_results: Seq<(Seq<char>, OwnerResponse)>,
}

/// Decisions and their responses, ids as text.
pub open spec fn results_view(results: Seq<(String, OwnerResponse)>) -> Seq<(Seq<char>, OwnerResponse)> {
    Seq::new(results.len(), |i: int| (results[i].0@, results[i].1))
}

impl<D> CommandRecord<D> {
    pub closed spec fn view(&self) -> RecordView<D> {
        RecordView {
            id: self.id@,
            response: self.response,
            completed_at_ms: self.completed_at_ms,
            decision: self.decision,
            decision_results: results_view(self.decision_results@),
        }
    }
}

/// The response that a record answers with: its latest response, or
/// `CommandPending` while it has none.
pub open spec fn answer<D>(record: RecordView<D>) -> OwnerResponse {
    match record.response {
        Some(response) => response,
        None => OwnerResponse::CommandPending,
    }
}

/// A freshly accepted command.
pub open spec fn fresh_record<D>(id: Seq<char>, decision: Option<D>) -> RecordView<D> {
    RecordView {
        id,
        response: None,
        completed_at_ms: None,
        decision,
        decision_results: Seq::empty(),
    }
}

/// Whether some record has the id.
pub open spec fn holds_id<D>(records: Seq<RecordView<D>>, id: Seq<char>) -> bool {
    exists|i: int| 0 <= i < records.len() && (#[trigger] records[i]).id == id
}

/// The position of the record with the id.
pub open spec fn index_of<D>(records: Seq<RecordView<D>>, id: Seq<char>) -> int {
    choose|i: int| 0 <= i < records.len() && (#[trigger] records[i]).id == id
}

/// No two records share an id.
pub open spec fn distinct_ids<D>(records: Seq<RecordView<D>>) -> bool {
    forall|i: int, j: int|
        0 <= i < records.len() && 0 <= j < records.len() && i != j ==> (#[trigger] records[i]).id
            != (#[trigger] records[j]).id
}

/// The response recorded for the decision with the id, first match first.
pub open spec fn decision_lookup(results: Seq<(Seq<char>, OwnerResponse)>, id: Seq<char>) -> Option<
    OwnerResponse,
>
    decreases results.len(),
{
    if results.len() == 0 {
        None
    } else if results[0].0 == id {
        Some(results[0].1)
    } else {
        decision_lookup(results.drop_first(), id)
    }
}

/// The response recorded for the decision with the id in any record, first
/// record first.
pub open spec fn decision_replay<D>(records: Seq<RecordView<D>>, id: Seq<char>) -> Option<OwnerResponse>
    decreases records.len(),
{
    if records.len() == 0 {
        None
    } else {
        match decision_lookup(records[0].decision_results, id) {
            Some(response) => Some(response),
            None => decision_replay(records.drop_first(), id),
        }
    }
}

/// What the table knows of the command or decision with the id, records in
/// order, each checked by its own id before its decisions.
pub open spec fn lookup_from<D>(records: Seq<RecordView<D>>, id: Seq<char>) -> Option<OwnerResponse>
    decreases records.len(),
{
    if records.len() == 0 {
        None
    } else if records[0].id == id {
        Some(answer(records[0]))
    } else {
        match decision_lookup(records[0].decision_results, id) {
            Some(response) => Some(response),
            None => lookup_from(records.drop_first(), id),
        }
    }
}

/// The answer to a result query: what the table knows, or `CommandUnknown`.
pub open spec fn command_result_spec<D>(records: Seq<RecordView<D>>, id: Seq<char>) -> OwnerResponse {
    match lookup_from(records, id) {
        Some(response) => response,
        None => OwnerResponse::CommandUnknown,
    }
}

/// Whether a record stays in the table at `now_ms`: it is unfinished, or
/// it finished less than `RESULT_RETENTION_MS` ago.
pub open spec fn retained<D>(record: RecordView<D>, now_ms: u64) -> bool {
    match record.completed_at_ms {
        None => true,
        Some(at) => (if now_ms >= at { now_ms - at } else { 0 }) < RESULT_RETENTION_MS,
    }
}

/// The records that stay at `now_ms`, in order.
pub open spec fn retained_records<D>(records: Seq<RecordView<D>>, now_ms: u64) -> Seq<RecordView<D>>
    decreases records.len(),
{
    if records.len() == 0 {
        Seq::empty()
    } else {
        let rest = retained_records(records.drop_last(), now_ms);
        if retained(records.last(), now_ms) {
            rest.push(records.last())
        } else {
            rest
        }
    }
}

/// The table after a completion report for the command with the id.
pub open spec fn completed_records<D>(
    records: Seq<RecordView<D>>,
    id: Seq<char>,
    response: OwnerResponse,
    completed_at_ms: u64,
) -> Seq<RecordView<D>> {
    if holds_id(records, id) {
        let i = index_of(records, id);
        records.update(
            i,
            RecordView {
                response: Some(response),
                completed_at_ms: if is_terminal(response) {
                    Some(completed_at_ms)
                } else {
                    None
                },
                ..records[i]
            },
        )
    } else {
        records
    }
}

/// Where a pairing decision goes.
pub enum DecisionTarget {
    /// The decision was made before; this is its recorded response.
    Answered(OwnerResponse),
    /// The decision is refused with `InvalidRequest`.
    Refused,
    /// The decision goes to the pairing of the record at this position.
    Deliver(usize),
}

/// Where a pairing decision with id `id`, on the pairing started by command
/// `parent`, for transaction `transaction`, goes. Every id must be a
/// command id; a decision made before is answered again; otherwise the
/// parent must exist, have no decision yet, and be showing the owner the
/// confirmation prompt of exactly that transaction.
pub open spec fn decision_target_spec<D>(
    records: Seq<RecordView<D>>,
    id: Seq<char>,
    parent: Seq<char>,
    transaction: Seq<char>,
) -> DecisionTarget {
    if !(is_command_id(id) && is_command_id(parent) && is_command_id(transaction)) {
        DecisionTarget::Refused
    } else if decision_replay(records, id) is Some {
        DecisionTarget::Answered(decision_replay(records, id)->0)
    } else if !holds_id(records, parent) {
        DecisionTarget::Refused
    } else {
        let p = index_of(records, parent);
        if records[p].decision_results.len() != 0 {
            DecisionTarget::Refused
        } else {
            match records[p].response {
                Some(
                    OwnerResponse::PairingConfirmationRequired { pairing_transaction_id, .. },
                ) => if pairing_transaction_id@ == transaction {
                    DecisionTarget::Deliver(p as usize)
                } else {
                    DecisionTarget::Refused
                },
                _ => DecisionTarget::Refused,
            }
        }
    }
}

/// The commands the owner control plane has accepted, oldest first. `D` is
/// the channel to a running pairing task; the table only holds it.
pub struct CommandTable<D> {
    records: VecDeque<CommandRecord<D>>,
}

impl<D> View for CommandTable<D> {
    type V = Seq<RecordView<D>>;

    closed spec fn view(&self) -> Seq<RecordView<D>> {
        Seq::new(self.records@.len(), |i: int| self.records@[i].view())
    }
}

impl<D> CommandTable<D> {
    /// At most `TABLE_MAX` records, no two with one id.
    pub open spec fn wf(&self) -> bool {
        &&& self@.len() <= TABLE_MAX
        &&& distinct_ids(self@)
    }

    /// An empty table.
    pub fn new() -> (table: Self)
        ensures
            table.wf(),
            table@ == Seq::<RecordView<D>>::empty(),
    {
        let table = CommandTable { records: VecDeque::new() };
        assert(table@ =~= Seq::<RecordView<D>>::empty());
        table
    }

    /// How many commands the table holds.
    pub fn len(&self) -> (n: usize)
        ensures
            n == self@.len(),
    {
        self.records.len()
    }

    /// The position of the record with the id.
    fn position(&self, id: &String) -> (index: Option<usize>)
        requires
            distinct_ids(self@),
        ensures
            match index {
                Some(i) => i < self@.len() && self@[i as int].id == id@ && holds_id(self@, id@)
                    && index_of(self@, id@) == i,
                None => !holds_id(self@, id@),
            },
    {
        let mut i: usize = 0;
        while i < self.records.len()
            invariant
                i <= self@.len(),
                self@.len() == self.records@.len(),
                distinct_ids(self@),
                forall|k: int| 0 <= k < i ==> (#[trigger] self@[k]).id != id@,
            decreases self.records@.len() - i,
        {
            assert(self@[i as int] == self.records@[i as int].view());
            if self.records[i].id == *id {
                proof {
                    assert(self@[i as int].id == id@);
                    let j = index_of(self@, id@);
                    assert(0 <= j < self@.len() && self@[j].id == id@);
                    if j != i {
                        assert(self@[j].id != self@[i as int].id);
                    }
                }
                return Some(i);
            }
            i += 1;
        }
        None
    }
}

fn answer_of(response: &Option<OwnerResponse>) -> (answer: OwnerResponse)
    ensures
        answer == match *response {
            Some(r) => r,
            None => OwnerResponse::CommandPending,
        },
{
    match response {
        Some(r) => r.duplicate(),
        None => OwnerResponse::CommandPending,
    }
}

fn decision_of(results: &Vec<(String, OwnerResponse)>, id: &String) -> (found: Option<OwnerResponse>)
    ensures
        found == decision_lookup(results_view(results@), id@),
{
    let ghost all = results_view(results@);
    assert(all.subrange(0, all.len() as int) =~= all);
    let mut i: usize = 0;
    while i < results.len()
        invariant
            i <= results@.len(),
            all == results_view(results@),
            decision_lookup(all, id@) == decision_lookup(all.subrange(i as int, all.len() as int), id@),
        decreases results@.len() - i,
    {
        let ghost rest = all.subrange(i as int, all.len() as int);
        assert(rest[0] == all[i as int]);
        assert(rest.drop_first() =~= all.subrange(i + 1, all.len() as int));
        if results[i].0 == *id {
            return Some(results[i].1.duplicate());
        }
        i += 1;
    }
    assert(all.subrange(all.len() as int, all.len() as int).len() == 0);
    None
}

impl<D> CommandTable<D> {
    /// Accepts a command whose work runs elsewhere. A malformed id is
    /// `InvalidRequest`; a command accepted before answers with its latest
    /// response, `CommandPending` while it has none; a full table is
    /// `OwnerBusy` and evicts nothing; otherwise the command is recorded and
    /// `CommandAccepted`.
    pub fn accept(&mut self, command_id: String) -> (response: OwnerResponse)
        requires
            old(self).wf(),
        ensures
            final(self).wf(),
            !is_command_id(command_id@) ==> response == OwnerResponse::InvalidRequest
                && final(self)@ == old(self)@,
            is_command_id(command_id@) && holds_id(old(self)@, command_id@) ==> response == answer(
                old(self)@[index_of(old(self)@, command_id@)],
            ) && final(self)@ == old(self)@,
            is_command_id(command_id@) && !holds_id(old(self)@, command_id@) && old(self)@.len()
                >= TABLE_MAX ==> response == OwnerResponse::OwnerBusy && final(self)@ == old(self)@,
            is_command_id(command_id@) && !holds_id(old(self)@, command_id@) && old(self)@.len()
                < TABLE_MAX ==> response == OwnerResponse::CommandAccepted && final(self)@ == old(
                self,
            )@.push(fresh_record(command_id@, None::<D>)),
    {
        if !valid_id(command_id.as_str()) {
            return OwnerResponse::InvalidRequest;
        }
        if let Some(i) = self.position(&command_id) {
            assert(self@[i as int] == self.records@[i as int].view());
            return answer_of(&self.records[i].response);
        }
        if self.records.len() >= TABLE_MAX {
            return OwnerResponse::OwnerBusy;
        }
        self.record_new(command_id, None);
        OwnerResponse::CommandAccepted
    }

    fn record_new(&mut self, command_id: String, decision: Option<D>)
        requires
            old(self).wf(),
            old(self)@.len() < TABLE_MAX,
            !holds_id(old(self)@, command_id@),
        ensures
            final(self).wf(),
            final(self)@ == old(self)@.push(fresh_record(command_id@, decision)),
    {
        let ghost before = self@;
        let record = CommandRecord {
            id: command_id,
            response: None,
            completed_at_ms: None,
            decision,
            decision_results: Vec::new(),
        };
        assert(record.view().decision_results =~= Seq::<(Seq<char>, OwnerResponse)>::empty());
        self.records.push_back(record);
        assert(self@ =~= before.push(fresh_record(record.view().id, record.view().decision)));
        assert forall|i: int, j: int|
            0 <= i < self@.len() && 0 <= j < self@.len() && i != j implies (#[trigger] self@[i]).id
            != (#[trigger] self@[j]).id by {
            if i < before.len() && j < before.len() {
                assert(self@[i] == before[i]);
                assert(self@[j] == before[j]);
            } else if i < before.len() {
                assert(self@[i] == before[i]);
            } else {
                assert(self@[j] == before[j]);
            }
        }
    }

    /// Accepts a request to pair with the host at `address`, as parsed from
    /// the request: an address that did not parse, or that is not a
    /// loopback address, is `InvalidRequest` with nothing recorded; any
    /// other request is `open_pairing`.
    pub fn start_pairing(&mut self, command_id: String, address: Option<SocketAddress>, decision: Option<D>) -> (response:
        OwnerResponse)
        requires
            old(self).wf(),
        ensures
            final(self).wf(),
            !(address matches Some(a) && is_loopback_spec(a.ip)) ==> response == OwnerResponse::InvalidRequest
                && final(self)@ == old(self)@,
            address matches Some(a) && is_loopback_spec(a.ip) ==> {
                &&& !is_command_id(command_id@) ==> response == OwnerResponse::InvalidRequest
                    && final(self)@ == old(self)@
                &&& is_command_id(command_id@) && holds_id(old(self)@, command_id@) ==> response == answer(
                    old(self)@[index_of(old(self)@, command_id@)],
                ) && final(self)@ == old(self)@
                &&& is_command_id(command_id@) && !holds_id(old(self)@, command_id@) && old(self)@.len()
                    >= TABLE_MAX ==> response == OwnerResponse::OwnerBusy && final(self)@ == old(self)@
                &&& is_command_id(command_id@) && !holds_id(old(self)@, command_id@) && old(self)@.len()
                    < TABLE_MAX && decision is None ==> response == OwnerResponse::OperationFailed
                    && final(self)@ == old(self)@
                &&& is_command_id(command_id@) && !holds_id(old(self)@, command_id@) && old(self)@.len()
                    < TABLE_MAX && decision is Some ==> response == OwnerResponse::CommandAccepted
                    && final(self)@ == old(self)@.push(fresh_record(command_id@, decision))
            },
    {
        match address {
            Some(a) => {
                if !a.ip.is_loopback() {
                    return OwnerResponse::InvalidRequest;
                }
                self.open_pairing(command_id, decision)
            },
            None => OwnerResponse::InvalidRequest,
        }
    }

    /// Accepts a pairing command whose task reports through `decision`. It is
    /// checked as `accept` checks, and when no pairing task can be started,
    /// `decision` being `None`, the answer is `OperationFailed` with nothing
    /// recorded.
    pub fn open_pairing(&mut self, command_id: String, decision: Option<D>) -> (response:
        OwnerResponse)
        requires
            old(self).wf(),
        ensures
            final(self).wf(),
            !is_command_id(command_id@) ==> response == OwnerResponse::InvalidRequest
                && final(self)@ == old(self)@,
            is_command_id(command_id@) && holds_id(old(self)@, command_id@) ==> response == answer(
                old(self)@[index_of(old(self)@, command_id@)],
            ) && final(self)@ == old(self)@,
            is_command_id(command_id@) && !holds_id(old(self)@, command_id@) && old(self)@.len()
                >= TABLE_MAX ==> response == OwnerResponse::OwnerBusy && final(self)@ == old(self)@,
            is_command_id(command_id@) && !holds_id(old(self)@, command_id@) && old(self)@.len()
                < TABLE_MAX && decision is None ==> response == OwnerResponse::OperationFailed
                && final(self)@ == old(self)@,
            is_command_id(command_id@) && !holds_id(old(self)@, command_id@) && old(self)@.len()
                < TABLE_MAX && decision is Some ==> response == OwnerResponse::CommandAccepted
                && final(self)@ == old(self)@.push(fresh_record(command_id@, decision)),
    {
        if !valid_id(command_id.as_str()) {
            return OwnerResponse::InvalidRequest;
        }
        if let Some(i) = self.position(&command_id) {
            assert(self@[i as int] == self.records@[i as int].view());
            return answer_of(&self.records[i].response);
        }
        if self.records.len() >= TABLE_MAX {
            return OwnerResponse::OwnerBusy;
        }
        if decision.is_none() {
            return OwnerResponse::OperationFailed;
        }
        self.record_new(command_id, decision);
        OwnerResponse::CommandAccepted
    }

    /// Marks the newest record failed at `now_ms` when the event that starts
    /// its pairing task could not be delivered; the task's channel is
    /// dropped. The answer is `OperationFailed`.
    pub fn pairing_event_failed(&mut self, now_ms: u64) -> (response: OwnerResponse)
        requires
            old(self).wf(),
        ensures
            final(self).wf(),
            response == OwnerResponse::OperationFailed,
            old(self)@.len() == 0 ==> final(self)@ == old(self)@,
            old(self)@.len() > 0 ==> final(self)@ == old(self)@.update(
                old(self)@.len() - 1,
                RecordView {
                    response: Some(OwnerResponse::OperationFailed),
                    completed_at_ms: Some(now_ms),
                    decision: None,
                    ..old(self)@.last()
                },
            ),
    {
        let ghost before = self@;
        if let Some(mut record) = self.records.pop_back() {
            record.response = Some(OwnerResponse::OperationFailed);
            record.completed_at_ms = Some(now_ms);
            record.decision = None;
            self.records.push_back(record);
            proof {
                let expected = before.update(
                    before.len() - 1,
                    RecordView {
                        response: Some(OwnerResponse::OperationFailed),
                        completed_at_ms: Some(now_ms),
                        decision: None,
                        ..before.last()
                    },
                );
                assert(self@ =~= expected);
                assert forall|i: int, j: int|
                    0 <= i < self@.len() && 0 <= j < self@.len() && i != j implies (#[trigger] self@[i]).id
                    != (#[trigger] self@[j]).id by {
                    assert(self@[i].id == before[i].id);
                    assert(self@[j].id == before[j].id);
                }
            }
        }
        OwnerResponse::OperationFailed
    }

    /// Records a report that the command with the id responded `response` at
    /// `completed_at_ms`. A terminal response finishes the command at that
    /// time; a pairing's progress leaves it unfinished. A report for an
    /// unknown command is dropped.
    pub fn apply_completion(&mut self, id: &String, response: OwnerResponse, completed_at_ms: u64)
        requires
            old(self).wf(),
        ensures
            final(self).wf(),
            final(self)@ == completed_records(old(self)@, id@, response, completed_at_ms),
    {
        let ghost before = self@;
        if let Some(i) = self.position(id) {
            let terminal = response.terminal();
            let mut record = self.records.remove(i).unwrap();
            record.response = Some(response);
            record.completed_at_ms = if terminal { Some(completed_at_ms) } else { None };
            self.records.insert(i, record);
            proof {
                let expected = completed_records(before, id@, response, completed_at_ms);
                assert(self@ =~= expected);
                assert forall|a: int, b: int|
                    0 <= a < self@.len() && 0 <= b < self@.len() && a != b implies (#[trigger] self@[a]).id
                    != (#[trigger] self@[b]).id by {
                    assert(self@[a].id == before[a].id);
                    assert(self@[b].id == before[b].id);
                }
            }
        }
    }

    /// Drops the records of commands that finished `RESULT_RETENTION_MS` or
    /// more before `now_ms`; unfinished commands always stay.
    pub fn expire_terminal(&mut self, now_ms: u64)
        requires
            old(self).wf(),
        ensures
            final(self).wf(),
            final(self)@ == retained_records(old(self)@, now_ms),
    {
        let ghost original = self@;
        let mut old_records: VecDeque<CommandRecord<D>> = VecDeque::new();
        std::mem::swap(&mut old_records, &mut self.records);
        let ghost old_views = Seq::new(old_records@.len(), |i: int| old_records@[i].view());
        assert(old_views =~= original);
        let n = old_records.len();
        let mut i: usize = 0;
        while i < n
            invariant
                i <= n,
                n == original.len(),
                old_records@.len() == n - i,
                forall|k: int| 0 <= k < n - i ==> (#[trigger] old_records@[k]).view() == original[i + k],
                self@ == retained_records(original.subrange(0, i as int), now_ms),
            decreases n - i,
        {
            let ghost pending = old_records@;
            let record = old_records.pop_front().unwrap();
            assert(record.view() == original[i as int]);
            let keep = match record.completed_at_ms {
                None => true,
                Some(at) => now_ms.saturating_sub(at) < RESULT_RETENTION_MS,
            };
            let ghost before = self@;
            if keep {
                self.records.push_back(record);
                assert(self@ =~= before.push(original[i as int]));
            }
            proof {
                let done = original.subrange(0, i + 1);
                assert(done.drop_last() =~= original.subrange(0, i as int));
                assert(done.last() == original[i as int]);
                assert forall|k: int| 0 <= k < n - (i + 1) implies (#[trigger] old_records@[k]).view()
                    == original[i + 1 + k] by {
                    assert(old_records@[k] == pending[k + 1]);
                }
            }
            i += 1;
        }
        assert(original.subrange(0, n as int) =~= original);
        proof {
            lemma_retained_subsequence(original, now_ms);
        }
    }
}

impl<D> CommandTable<D> {
    /// The first recorded response of the decision with the id.
    fn replay_of(&self, id: &String) -> (found: Option<OwnerResponse>)
        ensures
            found == decision_replay(self@, id@),
    {
        let ghost all = self@;
        assert(all.subrange(0, all.len() as int) =~= all);
        let mut i: usize = 0;
        while i < self.records.len()
            invariant
                i <= all.len(),
                all == self@,
                all.len() == self.records@.len(),
                decision_replay(all, id@) == decision_replay(all.subrange(i as int, all.len() as int), id@),
            decreases all.len() - i,
        {
            let ghost rest = all.subrange(i as int, all.len() as int);
            assert(rest[0] == all[i as int]);
            assert(all[i as int] == self.records@[i as int].view());
            assert(rest.drop_first() =~= all.subrange(i + 1, all.len() as int));
            let found = decision_of(&self.records[i].decision_results, id);
            if found.is_some() {
                return found;
            }
            i += 1;
        }
        assert(all.subrange(all.len() as int, all.len() as int).len() == 0);
        None
    }

    /// What the table knows of the command or decision with the id: a
    /// command's latest response, `CommandPending` while it has none, a
    /// decision's response, or `CommandUnknown`.
    pub fn command_result(&self, command_id: &String) -> (response: OwnerResponse)
        ensures
            response == command_result_spec(self@, command_id@),
    {
        let ghost all = self@;
        assert(all.subrange(0, all.len() as int) =~= all);
        let mut i: usize = 0;
        while i < self.records.len()
            invariant
                i <= all.len(),
                all == self@,
                all.len() == self.records@.len(),
                lookup_from(all, command_id@) == lookup_from(
                    all.subrange(i as int, all.len() as int),
                    command_id@,
                ),
            decreases all.len() - i,
        {
            let ghost rest = all.subrange(i as int, all.len() as int);
            assert(rest[0] == all[i as int]);
            assert(all[i as int] == self.records@[i as int].view());
            assert(rest.drop_first() =~= all.subrange(i + 1, all.len() as int));
            if self.records[i].id == *command_id {
                return answer_of(&self.records[i].response);
            }
            let found = decision_of(&self.records[i].decision_results, command_id);
            if let Some(response) = found {
                return response;
            }
            i += 1;
        }
        assert(all.subrange(all.len() as int, all.len() as int).len() == 0);
        OwnerResponse::CommandUnknown
    }

    /// Where the pairing decision `command_id` on the pairing started by
    /// `parent_command_id` for `transaction` goes; see
    /// `decision_target_spec`.
    pub fn decision_target(
        &self,
        command_id: &String,
        parent_command_id: &String,
        transaction: &String,
    ) -> (target: DecisionTarget)
        requires
            self.wf(),
        ensures
            target == decision_target_spec(self@, command_id@, parent_command_id@, transaction@),
    {
        if !valid_id(command_id.as_str()) || !valid_id(parent_command_id.as_str()) || !valid_id(
            transaction.as_str(),
        ) {
            return DecisionTarget::Refused;
        }
        if let Some(response) = self.replay_of(command_id) {
            return DecisionTarget::Answered(response);
        }
        let p = match self.position(parent_command_id) {
            None => {
                return DecisionTarget::Refused;
            },
            Some(p) => p,
        };
        assert(self@[p as int] == self.records@[p as int].view());
        if self.records[p].decision_results.len() != 0 {
            return DecisionTarget::Refused;
        }
        match &self.records[p].response {
            Some(OwnerResponse::PairingConfirmationRequired { pairing_transaction_id, .. }) => {
                if *pairing_transaction_id == *transaction {
                    DecisionTarget::Deliver(p)
                } else {
                    DecisionTarget::Refused
                }
            },
            _ => DecisionTarget::Refused,
        }
    }

    /// The channel to the pairing task of the record at `parent`: the very
    /// one `open_pairing` stored in that record, while it is still open.
    pub fn decision_channel(&self, parent: usize) -> (channel: Option<&D>)
        requires
            parent < self@.len(),
        ensures
            channel is Some <==> self@[parent as int].decision is Some,
            channel matches Some(c) ==> self@[parent as int].decision == Some(*c),
    {
        assert(self@[parent as int] == self.records@[parent as int].view());
        self.records[parent].decision.as_ref()
    }

    /// Records the pairing decision `command_id` on the record at `parent`:
    /// `PairingDecisionAccepted` when the record's task channel is open and
    /// the decision was `sent` on it, else `InvalidRequest`. The decision
    /// lives inside its pairing's record and takes no place of its own.
    pub fn record_decision(&mut self, parent: usize, command_id: String, sent: bool) -> (response:
        OwnerResponse)
        requires
            old(self).wf(),
            parent < old(self)@.len(),
        ensures
            final(self).wf(),
            response == if old(self)@[parent as int].decision is Some && sent {
                OwnerResponse::PairingDecisionAccepted
            } else {
                OwnerResponse::InvalidRequest
            },
            final(self)@ == old(self)@.update(
                parent as int,
                RecordView {
                    decision_results: old(self)@[parent as int].decision_results.push(
                        (command_id@, response),
                    ),
                    ..old(self)@[parent as int]
                },
            ),
    {
        let ghost before = self@;
        let mut record = self.records.remove(parent).unwrap();
        assert(record.view() == before[parent as int]);
        let response = if record.decision.is_some() && sent {
            OwnerResponse::PairingDecisionAccepted
        } else {
            OwnerResponse::InvalidRequest
        };
        let ghost old_results = record.decision_results@;
        let ghost id_text = command_id@;
        record.decision_results.push((command_id, response.duplicate()));
        assert(results_view(record.decision_results@) =~= results_view(old_results).push(
            (id_text, response),
        ));
        self.records.insert(parent, record);
        proof {
            let expected = before.update(
                parent as int,
                RecordView {
                    decision_results: before[parent as int].decision_results.push((id_text, response)),
                    ..before[parent as int]
                },
            );
            assert(self@ =~= expected);
            assert forall|a: int, b: int|
                0 <= a < self@.len() && 0 <= b < self@.len() && a != b implies (#[trigger] self@[a]).id
                != (#[trigger] self@[b]).id by {
                assert(self@[a].id == before[a].id);
                assert(self@[b].id == before[b].id);
            }
        }
        response
    }
}

impl<D> CommandTable<D> {
    /// The id of the record at position `i`, oldest first.
    pub fn record_id(&self, i: usize) -> (id: &String)
        requires
            i < self@.len(),
        ensures
            id@ == self@[i as int].id,
    {
        assert(self@[i as int] == self.records@[i as int].view());
        &self.records[i].id
    }

    /// The latest response of the record at position `i`.
    pub fn record_response(&self, i: usize) -> (response: Option<OwnerResponse>)
        requires
            i < self@.len(),
        ensures
            response == self@[i as int].response,
    {
        assert(self@[i as int] == self.records@[i as int].view());
        match &self.records[i].response {
            Some(r) => Some(r.duplicate()),
            None => None,
        }
    }

    /// The id of decision `k` recorded on the record at position `i`.
    pub fn decision_id(&self, i: usize, k: usize) -> (id: &String)
        requires
            i < self@.len(),
            k < self@[i as int].decision_results.len(),
        ensures
            id@ == self@[i as int].decision_results[k as int].0,
    {
        assert(self@[i as int] == self.records@[i as int].view());
        &self.records[i].decision_results[k].0
    }
}

/// The retained records are a part of the records, in order, so no two of
/// them share an id when no two of the records do, and there are no more of
/// them.
proof fn lemma_retained_subsequence<D>(records: Seq<RecordView<D>>, now_ms: u64)
    requires
        distinct_ids(records),
    ensures
        retained_records(records, now_ms).len() <= records.len(),
        distinct_ids(retained_records(records, now_ms)),
        forall|i: int|
            0 <= i < retained_records(records, now_ms).len() ==> records.contains(
                #[trigger] retained_records(records, now_ms)[i],
            ),
    decreases records.len(),
{
    if records.len() > 0 {
        let front = records.drop_last();
        assert forall|i: int, j: int|
            0 <= i < front.len() && 0 <= j < front.len() && i != j implies (#[trigger] front[i]).id
            != (#[trigger] front[j]).id by {
            assert(front[i] == records[i]);
            assert(front[j] == records[j]);
        }
        lemma_retained_subsequence(front, now_ms);
        let rest = retained_records(front, now_ms);
        let last = records.last();
        assert forall|i: int| 0 <= i < rest.len() implies #[trigger] rest[i].id != last.id by {
            assert(front.contains(rest[i]));
            let k = choose|k: int| 0 <= k < front.len() && front[k] == rest[i];
            assert(records[k] == front[k]);
            assert(records[records.len() - 1] == last);
        }
        let result = retained_records(records, now_ms);
        if retained(last, now_ms) {
            assert(result == rest.push(last));
            assert forall|i: int| 0 <= i < result.len() implies records.contains(#[trigger] result[i]) by {
                if i < rest.len() {
                    assert(front.contains(rest[i]));
                    let k = choose|k: int| 0 <= k < front.len() && front[k] == rest[i];
                    assert(records[k] == front[k]);
                } else {
                    assert(records[records.len() - 1] == last);
                }
            }
        } else {
            assert forall|i: int| 0 <= i < result.len() implies records.contains(#[trigger] result[i]) by {
                assert(front.contains(rest[i]));
                let k = choose|k: int| 0 <= k < front.len() && front[k] == rest[i];
                assert(records[k] == front[k]);
            }
        }
    }
}

/// What `String::from_utf8_lossy` makes of bytes: the bytes read as UTF-8,
/// each invalid sequence replaced by U+FFFD.
pub uninterp spec fn utf8_lossy_text(bytes: Seq<u8>) -> Seq<char>;

/// `String::from_utf8_lossy(..).into_owned()`: the text `utf8_lossy_text`
/// names, which depends on the bytes alone. Of ASCII bytes, which are valid
/// UTF-8, it is the characters with the same codes.
#[verifier::external_body]
fn utf8_lossy(bytes: &[u8]) -> (text: String)
    ensures
        text@ == utf8_lossy_text(bytes@),
        (forall|i: int| 0 <= i < bytes@.len() ==> #[trigger] bytes@[i] < 128) ==> text@ == Seq::new(
            bytes@.len(),
            |i: int| bytes@[i] as char,
        ),
{
    String::from_utf8_lossy(bytes).into_owned()
}

/// What waiting on the owner's decision channel brought: nothing yet, a
/// decision on a transaction, or a closed channel.
pub enum DecisionPoll {
    Nothing,
    Received { transaction: String, confirmed: bool },
    Disconnected,
}

/// What a pairing's confirmation does next: wait that many milliseconds
/// more, or end with the decision.
#[derive(Clone, Copy, Debug, PartialEq, Eq, Structural)]
pub enum ConfirmStep {
    Wait(u64),
    Decided(bool),
}

/// A pairing that waits for the owner's decision: the command that started
/// it, the time by which the decision must come, and whether it was
/// called off. The channels that carry its updates and the owner's
/// decisions stay with the caller, which sends what these methods return.
pub struct OwnerPairingTask {
    command_id: String,
    deadline_ms: u64,
    cancelled: bool,
}

impl OwnerPairingTask {
    /// The command that started the pairing.
    pub closed spec fn command(&self) -> Seq<char> {
        self.command_id@
    }

    /// When the decision is due.
    pub closed spec fn due(&self) -> u64 {
        self.deadline_ms
    }

    /// Whether the pairing was called off.
    pub closed spec fn is_cancelled(&self) -> bool {
        self.cancelled
    }

    /// A pairing for `command_id` that starts at `now_ms` and waits
    /// `PAIRING_WINDOW_MS` for the owner.
    pub fn new(command_id: String, now_ms: u64) -> (task: Self)
        requires
            now_ms + PAIRING_WINDOW_MS <= u64::MAX,
        ensures
            task.command() == command_id@,
            task.due() == now_ms + PAIRING_WINDOW_MS,
            !task.is_cancelled(),
    {
        OwnerPairingTask { command_id, deadline_ms: now_ms + PAIRING_WINDOW_MS, cancelled: false }
    }

    /// The update that says the pairing waits for a device.
    pub fn waiting(&self) -> (update: (String, OwnerResponse))
        ensures
            update.0@ == self.command(),
            update.1 == OwnerResponse::PairingWaiting,
    {
        (self.command_id.clone(), OwnerResponse::PairingWaiting)
    }

    /// Whether the decision is overdue at `now_ms`.
    pub fn expired(&self, now_ms: u64) -> (expired: bool)
        ensures
            expired == (now_ms >= self.due()),
    {
        now_ms >= self.deadline_ms
    }

    /// When the decision is due.
    pub fn deadline(&self) -> (deadline: u64)
        ensures
            deadline == self.due(),
    {
        self.deadline_ms
    }

    /// Calls the pairing off; a pending confirmation then fails.
    pub fn cancel(&mut self)
        ensures
            final(self).is_cancelled(),
            final(self).command() == old(self).command(),
            final(self).due() == old(self).due(),
    {
        self.cancelled = true;
    }

    /// The prompt that asks the owner to confirm `transaction` by comparing
    /// `authentication`: the transaction as lowercase hexadecimal and the
    /// authentication string as text. `None` once the decision is overdue
    /// at `now_ms`; the confirmation has then failed.
    pub fn confirm(&self, transaction: [u8; 16], authentication: [u8; 6], now_ms: u64) -> (prompt:
        Option<(String, OwnerResponse)>)
        ensures
            prompt is None <==> self.due() <= now_ms,
            prompt matches Some(update) ==> update.0@ == self.command() && match update.1 {
                OwnerResponse::PairingConfirmationRequired {
                    pairing_transaction_id,
                    authentication_string,
                } => {
                    &&& pairing_transaction_id@ == hex_text(transaction@)
                    &&& authentication_string@ == utf8_lossy_text(authentication@)
                    &&& (forall|i: int| 0 <= i < 6 ==> #[trigger] authentication@[i] < 128)
                        ==> authentication_string@ == Seq::new(6, |i: int| authentication@[i] as char)
                },
                _ => false,
            },
    {
        let transaction_text = hex_bytes(&transaction);
        if self.deadline_ms <= now_ms {
            return None;
        }
        let authentication_string = utf8_lossy(&authentication);
        Some(
            (
                self.command_id.clone(),
                OwnerResponse::PairingConfirmationRequired {
                    pairing_transaction_id: transaction_text,
                    authentication_string,
                },
            ),
        )
    }

    /// How long to wait for the owner's decision at `now_ms`: at most 50 ms
    /// at a time, and `None`, a failed confirmation, once the pairing is
    /// called off or overdue.
    pub fn decision_wait(&self, now_ms: u64) -> (wait: Option<u64>)
        ensures
            wait is None <==> (self.is_cancelled() || now_ms > self.due()),
            wait matches Some(ms) ==> ms == if self.due() - now_ms < 50 {
                (self.due() - now_ms) as u64
            } else {
                50
            },
    {
        if self.cancelled || now_ms > self.deadline_ms {
            return None;
        }
        let remaining = self.deadline_ms - now_ms;
        Some(if remaining < 50 { remaining } else { 50 })
    }

    /// Whether a decision received from the owner confirms the pairing: it
    /// must be for exactly the prompted transaction, and a yes.
    pub fn decision_confirms(transaction: &String, received: &String, confirmed: bool) -> (yes: bool)
        ensures
            yes == (received@ == transaction@ && confirmed),
    {
        *received == *transaction && confirmed
    }

    /// One turn of waiting for the owner's decision on the prompted
    /// `transaction` at `now_ms`, given what the previous wait brought: the
    /// first decision received decides, yes exactly when it is a yes for
    /// that transaction; a closed decision channel is a no; with nothing
    /// received, a pairing called off or overdue is a no, and otherwise the
    /// wait goes on for `decision_wait`.
    pub fn confirmation_step(&self, transaction: &String, now_ms: u64, poll: DecisionPoll) -> (step: ConfirmStep)
        ensures
            poll matches DecisionPoll::Received { transaction: received, confirmed } ==> step == ConfirmStep::Decided(
                received@ == transaction@ && confirmed,
            ),
            poll is Disconnected ==> step == ConfirmStep::Decided(false),
            poll is Nothing ==> step == if self.is_cancelled() || now_ms > self.due() {
                ConfirmStep::Decided(false)
            } else {
                ConfirmStep::Wait(
                    if self.due() - now_ms < 50 {
                        (self.due() - now_ms) as u64
                    } else {
                        50
                    },
                )
            },
    {
        match poll {
            DecisionPoll::Received { transaction: received, confirmed } => ConfirmStep::Decided(
                Self::decision_confirms(transaction, &received, confirmed),
            ),
            DecisionPoll::Disconnected => ConfirmStep::Decided(false),
            DecisionPoll::Nothing => match self.decision_wait(now_ms) {
                Some(ms) => ConfirmStep::Wait(ms),
                None => ConfirmStep::Decided(false),
            },
        }
    }

    /// The update that ends the pairing: `Paired` on success, else
    /// `OperationFailed`.
    pub fn finish(self, success: bool) -> (update: (String, OwnerResponse))
        ensures
            update.0@ == self.command(),
            update.1 == if success {
                OwnerResponse::Paired
            } else {
                OwnerResponse::OperationFailed
            },
    {
        (self.command_id, if success { OwnerResponse::Paired } else { OwnerResponse::OperationFailed })
    }
}

/// What the control plane does with a request.
pub enum CommandRoute {
    /// Answer with the owner's generation.
    Info,
    /// Answer with the stored peer state.
    ListIdentity,
    /// Answer with what the table knows of the command.
    Result { command_id: String },
    /// Answer `ShutdownAccepted` and stop serving.
    Shutdown,
    /// Accept an identity initialization.
    Init { command_id: String },
    /// Accept an unpairing of `peer_id`.
    Unpair { command_id: String, peer_id: String },
    /// Accept opening the pairing window.
    OpenWindow { command_id: String },
    /// Accept starting a pairing with the host at `loopback_address`.
    StartPairing { command_id: String, loopback_address: String },
    /// Deliver a pairing decision.
    Decide {
        command_id: String,
        parent_command_id: String,
        pairing_transaction_id: String,
        confirmed: bool,
    },
    /// The request names another owner generation: `StaleOwner`.
    Stale,
}

/// Where a request goes: the requests that only read the owner's info or
/// identity carry no generation and always go through; every other request,
/// shutdown included, must carry the current owner generation, else it is
/// stale.
pub open spec fn route_spec(command: OwnerCommand, generation: Seq<char>) -> CommandRoute {
    match command {
        OwnerCommand::OwnerInfo => CommandRoute::Info,
        OwnerCommand::IdentityList => CommandRoute::ListIdentity,
        OwnerCommand::Shutdown { owner_generation } => if owner_generation@ == generation {
            CommandRoute::Shutdown
        } else {
            CommandRoute::Stale
        },
        OwnerCommand::CommandResult { command_id, owner_generation } => if owner_generation@
            == generation {
            CommandRoute::Result { command_id }
        } else {
            CommandRoute::Stale
        },
        OwnerCommand::IdentityInit { command_id, owner_generation } => if owner_generation@
            == generation {
            CommandRoute::Init { command_id }
        } else {
            CommandRoute::Stale
        },
        OwnerCommand::Unpair { command_id, owner_generation, peer_id } => if owner_generation@
            == generation {
            CommandRoute::Unpair { command_id, peer_id }
        } else {
            CommandRoute::Stale
        },
        OwnerCommand::PairingWindowOpen { command_id, owner_generation } => if owner_generation@
            == generation {
            CommandRoute::OpenWindow { command_id }
        } else {
            CommandRoute::Stale
        },
        OwnerCommand::PairStart { command_id, owner_generation, loopback_address } => if owner_generation@
            == generation {
            CommandRoute::StartPairing { command_id, loopback_address }
        } else {
            CommandRoute::Stale
        },
        OwnerCommand::PairingDecide {
            command_id,
            owner_generation,
            parent_command_id,
            pairing_transaction_id,
            confirmed,
        } => if owner_generation@ == generation {
            CommandRoute::Decide { command_id, parent_command_id, pairing_transaction_id, confirmed }
        } else {
            CommandRoute::Stale
        },
    }
}

/// Routes a request of the owner whose generation is `owner_generation`.
pub fn route_command(command: OwnerCommand, owner_generation: &String) -> (route: CommandRoute)
    ensures
        route == route_spec(command, owner_generation@),
        request_generation(command) matches Some(g) ==> (route is Stale <==> g != owner_generation@),
        request_generation(command) is None ==> route is Info || route is ListIdentity,
{
    match command {
        OwnerCommand::OwnerInfo => CommandRoute::Info,
        OwnerCommand::IdentityList => CommandRoute::ListIdentity,
        OwnerCommand::Shutdown { owner_generation: generation } => {
            if generation == *owner_generation {
                CommandRoute::Shutdown
            } else {
                CommandRoute::Stale
            }
        },
        OwnerCommand::CommandResult { command_id, owner_generation: generation } => {
            if generation == *owner_generation {
                CommandRoute::Result { command_id }
            } else {
                CommandRoute::Stale
            }
        },
        OwnerCommand::IdentityInit { command_id, owner_generation: generation } => {
            if generation == *owner_generation {
                CommandRoute::Init { command_id }
            } else {
                CommandRoute::Stale
            }
        },
        OwnerCommand::Unpair { command_id, owner_generation: generation, peer_id } => {
            if generation == *owner_generation {
                CommandRoute::Unpair { command_id, peer_id }
            } else {
                CommandRoute::Stale
            }
        },
        OwnerCommand::PairingWindowOpen { command_id, owner_generation: generation } => {
            if generation == *owner_generation {
                CommandRoute::OpenWindow { command_id }
            } else {
                CommandRoute::Stale
            }
        },
        OwnerCommand::PairStart { command_id, owner_generation: generation, loopback_address } => {
            if generation == *owner_generation {
                CommandRoute::StartPairing { command_id, loopback_address }
            } else {
                CommandRoute::Stale
            }
        },
        OwnerCommand::PairingDecide {
            command_id,
            owner_generation: generation,
            parent_command_id,
            pairing_transaction_id,
            confirmed,
        } => {
            if generation == *owner_generation {
                CommandRoute::Decide {
                    command_id,
                    parent_command_id,
                    pairing_transaction_id,
                    confirmed,
                }
            } else {
                CommandRoute::Stale
            }
        },
    }
}

/// The answer to a route that needs neither the table nor the identity: the
/// owner's info names `owner_generation`, a shutdown is accepted, and a
/// stale request is answered `StaleOwner`. Every other route is `None`: its
/// answer comes from the table or the identity.
pub fn route_response(route: &CommandRoute, owner_generation: &String) -> (response: Option<OwnerResponse>)
    ensures
        route is Info ==> (response matches Some(OwnerResponse::OwnerInfo { owner_generation: g })
            && g@ == owner_generation@),
        route is Shutdown ==> response == Some(OwnerResponse::ShutdownAccepted),
        route is Stale ==> response == Some(OwnerResponse::StaleOwner),
        !(route is Info || route is Shutdown || route is Stale) ==> response is None,
{
    match route {
        CommandRoute::Info => Some(OwnerResponse::OwnerInfo { owner_generation: owner_generation.clone() }),
        CommandRoute::Shutdown => Some(OwnerResponse::ShutdownAccepted),
        CommandRoute::Stale => Some(OwnerResponse::StaleOwner),
        _ => None,
    }
}

/// A shutdown for the observed owner generation is always honoured, whatever
/// the table holds: it never waits for a place in the table. A shutdown for
/// any other generation is stale and stops nothing.
pub proof fn lemma_shutdown_is_reserved(requested: String, generation: Seq<char>)
    ensures
        requested@ == generation ==> route_spec(OwnerCommand::Shutdown { owner_generation: requested }, generation) is Shutdown,
        requested@ != generation ==> route_spec(OwnerCommand::Shutdown { owner_generation: requested }, generation) is Stale,
{
}

/// A mutating or stopping request from another owner generation is never
/// routed to the table, the identity or the shutdown.
pub proof fn lemma_stale_requests_mutate_nothing(command: OwnerCommand, generation: Seq<char>)
    ensures
        route_spec(command, generation) is Init || route_spec(command, generation) is Unpair
            || route_spec(command, generation) is OpenWindow || route_spec(command, generation) is StartPairing
            || route_spec(command, generation) is Decide || route_spec(command, generation) is Shutdown
            ==> match command {
            OwnerCommand::Shutdown { owner_generation } => owner_generation@ == generation,
            OwnerCommand::IdentityInit { owner_generation, .. } => owner_generation@ == generation,
            OwnerCommand::Unpair { owner_generation, .. } => owner_generation@ == generation,
            OwnerCommand::PairingWindowOpen { owner_generation, .. } => owner_generation@ == generation,
            OwnerCommand::PairStart { owner_generation, .. } => owner_generation@ == generation,
            OwnerCommand::PairingDecide { owner_generation, .. } => owner_generation@ == generation,
            _ => false,
        },
{
}

/// Whether a client waiting for the result of its command keeps polling:
/// while the command is accepted, pending or pairing, and, after a request
/// whose answer was lost, while the owner does not know it yet.
pub open spec fn keeps_waiting(response: OwnerResponse, ambiguous: bool) -> bool {
    ||| response is CommandAccepted
    ||| response is CommandPending
    ||| response is PairingWaiting
    ||| response is PairingConfirmationRequired
    ||| (ambiguous && response is CommandUnknown)
}

/// What a client does next with the latest answer about its command.
pub enum PollStep {
    /// Poll again.
    Wait,
    /// Confirm the shown pairing transaction, then poll again.
    Confirm { pairing_transaction_id: String, authentication_string: String },
    /// The owner never learned of the command within the grace period, or
    /// the owner changed: the outcome is unknown.
    Lost,
    /// The command finished with this response.
    Done(OwnerResponse),
}

/// Decides a client's next step: poll while `keeps_waiting`, but give up as
/// lost once an unknown command outlives its grace period; confirm the
/// first confirmation prompt once; a stale owner means the outcome is lost.
pub fn poll_step(response: OwnerResponse, ambiguous: bool, grace_expired: bool, decision_sent: bool) -> (step:
    PollStep)
    ensures
        keeps_waiting(response, ambiguous) && response is CommandUnknown && grace_expired ==> step is Lost,
        keeps_waiting(response, ambiguous) && !(response is CommandUnknown && grace_expired) && !decision_sent
            && response is PairingConfirmationRequired ==> (step matches PollStep::Confirm {
            pairing_transaction_id,
            authentication_string,
        } && pairing_transaction_id@ == response->pairing_transaction_id@ && authentication_string@
            == response->authentication_string@),
        keeps_waiting(response, ambiguous) && !(response is CommandUnknown && grace_expired) && !(!decision_sent
            && response is PairingConfirmationRequired) ==> step is Wait,
        !keeps_waiting(response, ambiguous) && response is StaleOwner ==> step is Lost,
        !keeps_waiting(response, ambiguous) && !(response is StaleOwner) ==> step == PollStep::Done(response),
        response is CommandAccepted || response is CommandPending || response is PairingWaiting ==> step is Wait,
        response is PairingConfirmationRequired ==> step is Wait || step is Confirm,
        response is CommandUnknown && !ambiguous ==> step == PollStep::Done(response),
        step is Done ==> step == PollStep::Done(response) && !(response is CommandAccepted
            || response is CommandPending || response is PairingWaiting || response is PairingConfirmationRequired
            || response is StaleOwner),
{
    let waiting = match &response {
        OwnerResponse::CommandAccepted => true,
        OwnerResponse::CommandPending => true,
        OwnerResponse::PairingWaiting => true,
        OwnerResponse::PairingConfirmationRequired { .. } => true,
        OwnerResponse::CommandUnknown => ambiguous,
        _ => false,
    };
    if waiting {
        if let OwnerResponse::CommandUnknown = response {
            if grace_expired {
                return PollStep::Lost;
            }
        }
        if !decision_sent {
            if let OwnerResponse::PairingConfirmationRequired { pairing_transaction_id, authentication_string } = response {
                return PollStep::Confirm { pairing_transaction_id, authentication_string };
            }
        }
        return PollStep::Wait;
    }
    if let OwnerResponse::StaleOwner = response {
        return PollStep::Lost;
    }
    PollStep::Done(response)
}

/// Whether a pairing decision's submission is still unsettled.
pub open spec fn decision_unsettled(response: OwnerResponse) -> bool {
    ||| response is CommandAccepted
    ||| response is CommandPending
    ||| response is CommandUnknown
}

/// Decides what a client does with the latest answer about the pairing
/// decision it submitted: poll while it is unsettled until the deadline,
/// then give up as lost; a stale owner means the outcome is lost; anything
/// else is the decision's response.
pub fn decision_step(response: OwnerResponse, deadline_passed: bool) -> (step: PollStep)
    ensures
        decision_unsettled(response) && deadline_passed ==> step is Lost,
        decision_unsettled(response) && !deadline_passed ==> step is Wait,
        !decision_unsettled(response) && response is StaleOwner ==> step is Lost,
        !decision_unsettled(response) && !(response is StaleOwner) ==> step == PollStep::Done(response),
        response is CommandAccepted || response is CommandPending || response is CommandUnknown ==> !(step is Done),
        step is Done ==> step == PollStep::Done(response),
{
    let unsettled = match &response {
        OwnerResponse::CommandAccepted => true,
        OwnerResponse::CommandPending => true,
        OwnerResponse::CommandUnknown => true,
        _ => false,
    };
    if unsettled {
        if deadline_passed {
            return PollStep::Lost;
        }
        return PollStep::Wait;
    }
    if let OwnerResponse::StaleOwner = response {
        return PollStep::Lost;
    }
    PollStep::Done(response)
}

proof fn lemma_lookup_push<D>(records: Seq<RecordView<D>>, record: RecordView<D>, id: Seq<char>)
    requires
        lookup_from(records, id) is None,
    ensures
        lookup_from(records.push(record), id) == lookup_from(seq![record], id),
    decreases records.len(),
{
    if records.len() > 0 {
        assert(records.push(record).drop_first() =~= records.drop_first().push(record));
        lemma_lookup_push(records.drop_first(), record, id);
    } else {
        assert(records.push(record) =~= seq![record]);
    }
}

proof fn lemma_lookup_absent<D>(records: Seq<RecordView<D>>, id: Seq<char>)
    requires
        !holds_id(records, id),
        decision_replay(records, id) is None,
    ensures
        lookup_from(records, id) is None,
    decreases records.len(),
{
    if records.len() > 0 {
        let rest = records.drop_first();
        assert(!holds_id(rest, id)) by {
            if holds_id(rest, id) {
                let k = choose|k: int| 0 <= k < rest.len() && (#[trigger] rest[k]).id == id;
                assert(records[k + 1] == rest[k]);
            }
        }
        assert(records[0].id != id);
        lemma_lookup_absent(rest, id);
    }
}

/// A command that the table has just accepted answers a result query with
/// `CommandPending`, provided no decision was recorded under its id.
pub proof fn lemma_accepted_command_is_pending<D>(records: Seq<RecordView<D>>, id: Seq<char>, decision: Option<D>)
    requires
        !holds_id(records, id),
        decision_replay(records, id) is None,
    ensures
        command_result_spec(records.push(fresh_record(id, decision)), id)
            == OwnerResponse::CommandPending,
{
    lemma_lookup_absent(records, id);
    lemma_lookup_push(records, fresh_record(id, decision), id);
}

/// Expiry keeps every record it should retain, above all every command
/// that has not finished.
pub proof fn lemma_expiry_keeps_unfinished<D>(records: Seq<RecordView<D>>, now_ms: u64)
    ensures
        forall|i: int|
            0 <= i < records.len() && retained(#[trigger] records[i], now_ms)
                ==> retained_records(records, now_ms).contains(records[i]),
        forall|i: int|
            0 <= i < records.len() && (#[trigger] records[i]).completed_at_ms is None
                ==> retained_records(records, now_ms).contains(records[i]),
    decreases records.len(),
{
    if records.len() > 0 {
        let front = records.drop_last();
        lemma_expiry_keeps_unfinished(front, now_ms);
        let rest = retained_records(front, now_ms);
        let result = retained_records(records, now_ms);
        assert forall|i: int| 0 <= i < records.len() && retained(#[trigger] records[i], now_ms) implies result.contains(records[i]) by {
            if i < records.len() - 1 {
                assert(records[i] == front[i]);
                assert(rest.contains(front[i]));
                let k = choose|k: int| 0 <= k < rest.len() && rest[k] == front[i];
                if retained(records.last(), now_ms) {
                    assert(result[k] == rest[k]);
                }
            } else {
                assert(result[result.len() - 1] == records.last());
            }
        }
    }
}

/// A pairing decision is delivered only to the command it names, only once,
/// and only while that command shows the owner the confirmation prompt of
/// exactly the decided transaction; then it is always delivered, however
/// full the table is.
pub proof fn lemma_decision_requires_prompt<D>(
    records: Seq<RecordView<D>>,
    id: Seq<char>,
    parent: Seq<char>,
    transaction: Seq<char>,
)
    requires
        distinct_ids(records),
        records.len() <= TABLE_MAX,
    ensures
        decision_target_spec(records, id, parent, transaction) is Deliver <==> {
            &&& is_command_id(id)
            &&& is_command_id(parent)
            &&& is_command_id(transaction)
            &&& decision_replay(records, id) is None
            &&& holds_id(records, parent)
            &&& records[index_of(records, parent)].decision_results.len() == 0
            &&& records[index_of(records, parent)].response matches Some(
                OwnerResponse::PairingConfirmationRequired { pairing_transaction_id, .. },
            ) && pairing_transaction_id@ == transaction
        },
        decision_target_spec(records, id, parent, transaction) matches DecisionTarget::Deliver(p)
            ==> p == index_of(records, parent) && records[p as int].id == parent,
{
}

/// The payload length a control frame's prefix announces: four bytes,
/// most significant first.
pub open spec fn prefix_length(prefix: Seq<u8>) -> int {
    prefix[0] * 0x100_0000 + prefix[1] * 0x1_0000 + prefix[2] * 0x100 + prefix[3]
}

/// The frame that carries a payload: its length in four big-endian bytes,
/// then the payload.
pub open spec fn frame_of(payload: Seq<u8>) -> Seq<u8> {
    let n = payload.len();
    seq![(n / 0x100_0000) as u8, (n / 0x1_0000 % 256) as u8, (n / 0x100 % 256) as u8, (n % 256) as u8]
        + payload
}

/// Reads the payload length from a control frame's prefix; a length over
/// `PAYLOAD_MAX` is refused.
pub fn frame_length(prefix: [u8; 4]) -> (length: Option<usize>)
    ensures
        prefix_length(prefix@) <= PAYLOAD_MAX ==> length == Some(prefix_length(prefix@) as usize),
        prefix_length(prefix@) > PAYLOAD_MAX ==> length is None,
{
    let value: u64 = prefix[0] as u64 * 0x100_0000 + prefix[1] as u64 * 0x1_0000 + prefix[2] as u64 * 0x100
        + prefix[3] as u64;
    if value > PAYLOAD_MAX as u64 {
        None
    } else {
        Some(value as usize)
    }
}

/// Frames a payload; one too long for the four-byte prefix is refused.
pub fn encode_frame(payload: &[u8]) -> (frame: Option<Vec<u8>>)
    ensures
        payload@.len() <= u32::MAX ==> (frame matches Some(f) && f@ == frame_of(payload@)),
        payload@.len() > u32::MAX ==> frame is None,
{
    if payload.len() as u64 > 0xffff_ffff {
        return None;
    }
    let n = payload.len();
    let mut frame: Vec<u8> = Vec::new();
    frame.push((n / 0x100_0000) as u8);
    frame.push((n / 0x1_0000 % 256) as u8);
    frame.push((n / 0x100 % 256) as u8);
    frame.push((n % 256) as u8);
    let ghost head = frame@;
    let mut i: usize = 0;
    while i < n
        invariant
            n == payload@.len(),
            i <= n,
            frame@ == head + payload@.subrange(0, i as int),
        decreases n - i,
    {
        frame.push(payload[i]);
        assert(payload@.subrange(0, i + 1) =~= payload@.subrange(0, i as int).push(payload@[i as int]));
        i += 1;
    }
    assert(payload@.subrange(0, n as int) =~= payload@);
    assert(frame@ =~= frame_of(payload@));
    Some(frame)
}

/// Frames a request; one whose payload exceeds `PAYLOAD_MAX` is refused
/// before anything is sent.
pub fn encode_request(payload: &[u8]) -> (frame: Option<Vec<u8>>)
    ensures
        payload@.len() <= PAYLOAD_MAX ==> (frame matches Some(f) && f@ == frame_of(payload@)),
        payload@.len() > PAYLOAD_MAX ==> frame is None,
{
    if payload.len() > PAYLOAD_MAX {
        return None;
    }
    encode_frame(payload)
}

/// What a frame announces is what was framed: the prefix of a framed
/// payload within `PAYLOAD_MAX` reads back as the payload's length, and the
/// payload follows it.
pub proof fn lemma_frame_round_trip(payload: Seq<u8>)
    requires
        payload.len() <= PAYLOAD_MAX,
    ensures
        prefix_length(frame_of(payload).subrange(0, 4)) == payload.len(),
        frame_of(payload).subrange(4, 4 + payload.len() as int) == payload,
{
    let n = payload.len() as int;
    let f = frame_of(payload);
    assert(f[0] == (n / 0x100_0000) as u8);
    assert(f[1] == (n / 0x1_0000 % 256) as u8);
    assert(f[2] == (n / 0x100 % 256) as u8);
    assert(f[3] == (n % 256) as u8);
    assert(n / 0x100_0000 == 0);
    assert(n / 0x1_0000 == 0);
    assert(n / 0x100 < 256);
    assert(n == (n / 0x100) * 0x100 + n % 0x100);
    assert(f.subrange(4, 4 + n) =~= payload);
}

/// A client never stops waiting on a command that has not finished: an
/// accepted, pending or pairing command keeps it polling whatever happened
/// to its requests, and an unknown command does so exactly while its
/// request's answer was lost.
pub proof fn lemma_unfinished_commands_keep_waiting(response: OwnerResponse, ambiguous: bool)
    ensures
        response is CommandAccepted || response is CommandPending || response is PairingWaiting
            || response is PairingConfirmationRequired ==> keeps_waiting(response, ambiguous),
        response is CommandUnknown ==> (keeps_waiting(response, ambiguous) <==> ambiguous),
        response is Paired || response is IdentityInitialized || response is Unpaired || response is StaleOwner
            || response is OperationFailed || response is InvalidRequest ==> !keeps_waiting(response, ambiguous),
{
}

/// A submitted pairing decision keeps its client waiting while the owner
/// has only accepted it, has it pending or does not know it yet, and only
/// until the deadline.
pub proof fn lemma_unsettled_decisions_keep_waiting(response: OwnerResponse)
    ensures
        response is CommandAccepted || response is CommandPending || response is CommandUnknown
            ==> decision_unsettled(response),
        response is PairingDecisionAccepted || response is StaleOwner || response is InvalidRequest
            ==> !decision_unsettled(response),
{
}

/// The owner generation a request carries; the requests that only read the
/// owner's info or identity carry none.
pub open spec fn request_generation(command: OwnerCommand) -> Option<Seq<char>> {
    match command {
        OwnerCommand::OwnerInfo => None,
        OwnerCommand::IdentityList => None,
        OwnerCommand::IdentityInit { owner_generation, .. } => Some(owner_generation@),
        OwnerCommand::Unpair { owner_generation, .. } => Some(owner_generation@),
        OwnerCommand::PairingWindowOpen { owner_generation, .. } => Some(owner_generation@),
        OwnerCommand::PairStart { owner_generation, .. } => Some(owner_generation@),
        OwnerCommand::PairingDecide { owner_generation, .. } => Some(owner_generation@),
        OwnerCommand::CommandResult { owner_generation, .. } => Some(owner_generation@),
        OwnerCommand::Shutdown { owner_generation } => Some(owner_generation@),
    }
}

/// The generation alone decides staleness: a request that carries another
/// owner generation than the current one, result queries and shutdowns
/// included, is stale, and one that carries the current generation never
/// is; the requests that carry none are answered from the owner itself.
pub proof fn lemma_generation_decides_staleness(command: OwnerCommand, generation: Seq<char>)
    ensures
        request_generation(command) matches Some(g) ==> (route_spec(command, generation) is Stale <==> g
            != generation),
        request_generation(command) is None ==> route_spec(command, generation) is Info || route_spec(
            command,
            generation,
        ) is ListIdentity,
        command is CommandResult && route_spec(command, generation) is Result ==> route_spec(
            command,
            generation,
        )->Result_command_id == command->CommandResult_command_id,
{
}

} // verus!
