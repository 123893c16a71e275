//! The desktop host's pairing identity: peer states, their validation and
//! transitions, and the lowercase hexadecimal text that records keys and
//! transaction ids.
use vstd::prelude::*;
use vstd::string::StringSliceAdditionalSpecFns;
use vstd::utf8::is_ascii_chars_encode_utf8;
use snow::resolvers::CryptoResolver;

verus! {

/// The pairing state of the one remote device a host may trust.
#[derive(Clone, Debug, PartialEq, Eq)]
pub enum PeerState {
    Unpaired,
    Pending { remote_public_key: String, pairing_transaction_id: String },
    Committing { remote_public_key: String, pairing_transaction_id: String },
    Paired { remote_public_key: String, pairing_transaction_id: String },
    Revoking { remote_public_key: String, previous_pairing_transaction_id: String },
}

/// Why an identity store operation failed.
#[derive(Clone, Copy, Debug, PartialEq, Eq, Structural)]
pub enum StoreError {
    Missing,
    AlreadyInitialized,
    Invalid,
    NotPrivate,
    UnknownEntry,
    PeerMismatch,
    GenerationExhausted,
    LockTimeout,
    RevokedRecoveryRequired,
    Io,
}

/// Why a protocol session failed.
#[derive(Clone, Copy, Debug, PartialEq, Eq, Structural)]
pub enum SessionError {
    NonLoopback,
    NonPrivateLan,
    Io,
    Noise,
    Protocol,
    Identity,
    PairingTimeout,
    Incompatible,
    AuthorizationDenied,
    SessionBusy,
    QueueFull,
    EndOfStream,
    FrameOversize,
    Timeout,
    PairingRejected,
    PairingIncomplete,
    StoreFailed,
}

/// A lowercase hexadecimal digit.
pub open spec fn is_lower_hex(c: char) -> bool {
    ('0' <= c && c <= '9') || ('a' <= c && c <= 'f')
}

/// Text made of exactly `2 * bytes` lowercase hexadecimal digits.
pub open spec fn is_hex_text(text: Seq<char>, bytes: int) -> bool {
    &&& text.len() == 2 * bytes
    &&& forall|i: int| 0 <= i < text.len() ==> #[trigger] is_lower_hex(text[i])
}

/// The value of a lowercase hexadecimal digit.
pub open spec fn nibble_value(c: char) -> int {
    if c <= '9' { c as int - '0' as int } else { c as int - 'a' as int + 10 }
}

/// The lowercase hexadecimal digit of a value below 16.
pub open spec fn hex_digit(n: int) -> char {
    if n < 10 { (n + '0' as int) as char } else { (n - 10 + 'a' as int) as char }
}

/// Two lowercase digits per byte, the high half first.
pub open spec fn hex_text(bytes: Seq<u8>) -> Seq<char> {
    Seq::new(
        2 * bytes.len(),
        |i: int|
            if i % 2 == 0 {
                hex_digit(bytes[i / 2] as int / 16)
            } else {
                hex_digit(bytes[i / 2] as int % 16)
            },
    )
}

/// The bytes that lowercase hexadecimal text of even length spells.
pub open spec fn hex_decoded(text: Seq<char>) -> Seq<u8> {
    Seq::new(
        text.len() / 2,
        |i: int| (16 * nibble_value(text[2 * i]) + nibble_value(text[2 * i + 1])) as u8,
    )
}

/// The key and transaction id that a peer state records, if any.
pub open spec fn peer_fields(peer: PeerState) -> Option<(Seq<char>, Seq<char>)> {
    match peer {
        PeerState::Unpaired => None,
        PeerState::Pending { remote_public_key, pairing_transaction_id } => Some(
            (remote_public_key@, pairing_transaction_id@),
        ),
        PeerState::Committing { remote_public_key, pairing_transaction_id } => Some(
            (remote_public_key@, pairing_transaction_id@),
        ),
        PeerState::Paired { remote_public_key, pairing_transaction_id } => Some(
            (remote_public_key@, pairing_transaction_id@),
        ),
        PeerState::Revoking { remote_public_key, previous_pairing_transaction_id } => Some(
            (remote_public_key@, previous_pairing_transaction_id@),
        ),
    }
}

/// A peer state whose key is 32 bytes and whose transaction id is 16 bytes
/// of lowercase hexadecimal text.
pub open spec fn peer_is_valid(peer: PeerState) -> bool {
    match peer_fields(peer) {
        None => true,
        Some((key, transaction)) => is_hex_text(key, 32) && is_hex_text(transaction, 16),
    }
}

/// The transitions that storing a new peer state may make: a pairing starts
/// from no peer, and a pending pairing commits and then completes with the
/// same key and transaction.
pub open spec fn peer_transition_allowed(current: PeerState, next: PeerState) -> bool {
    match current {
        PeerState::Unpaired => next is Pending,
        PeerState::Pending { remote_public_key: k1, pairing_transaction_id: t1 } => match next {
            PeerState::Committing { remote_public_key: k2, pairing_transaction_id: t2 } => k1@
                == k2@ && t1@ == t2@,
            _ => false,
        },
        PeerState::Committing { remote_public_key: k1, pairing_transaction_id: t1 } => match next {
            PeerState::Paired { remote_public_key: k2, pairing_transaction_id: t2 } => k1@ == k2@
                && t1@ == t2@,
            _ => false,
        },
        _ => false,
    }
}

/// `String::push`: appends one character to the end of the string.
#[verifier::external_body]
pub(crate) fn push_char(text: &mut String, c: char)
    ensures
        final(text)@ == old(text)@.push(c),
{
    text.push(c);
}

fn hex_digit_char(n: u8) -> (c: char)
    requires
        n < 16,
    ensures
        c == hex_digit(n as int),
{
    if n < 10 {
        (n + 48) as char
    } else {
        (n - 10 + 97) as char
    }
}

/// The bytes as lowercase hexadecimal text, two digits per byte.
pub fn hex(bytes: &[u8]) -> (text: String)
    ensures
        text@ == hex_text(bytes@),
{
    let mut out = String::new();
    let mut i: usize = 0;
    while i < bytes.len()
        invariant
            i <= bytes@.len(),
            out@ == hex_text(bytes@.subrange(0, i as int)),
        decreases bytes@.len() - i,
    {
        let b = bytes[i];
        let ghost before = out@;
        push_char(&mut out, hex_digit_char(b / 16));
        push_char(&mut out, hex_digit_char(b % 16));
        proof {
            let done = bytes@.subrange(0, i + 1);
            assert(out@ =~= hex_text(done)) by {
                assert(bytes@.subrange(0, i as int) =~= done.subrange(0, i as int));
                assert forall|k: int| 0 <= k < 2 * i implies out@[k] == hex_text(done)[k] by {
                    assert(done[k / 2] == bytes@.subrange(0, i as int)[k / 2]);
                }
            }
        }
        i += 1;
    }
    assert(bytes@.subrange(0, bytes@.len() as int) =~= bytes@);
    out
}

/// Checks the bytes of an ASCII text against lowercase hexadecimal digits.
fn all_lower_hex(text: &str) -> (ok: bool)
    ensures
        ok == (forall|i: int| 0 <= i < text@.len() ==> #[trigger] is_lower_hex(text@[i])),
        ok ==> vstd::utf8::is_ascii_chars(text@),
{
    if !text.is_ascii() {
        proof {
            let i = choose|i: int| 0 <= i < text@.len() && !('\0' <= #[trigger] text@[i] <= '\u{7f}');
            assert(!is_lower_hex(text@[i]));
        }
        return false;
    }
    let bytes = text.as_bytes();
    proof {
        is_ascii_chars_encode_utf8(text@);
    }
    let mut i: usize = 0;
    while i < bytes.len()
        invariant
            i <= bytes@.len(),
            bytes@.len() == text@.len(),
            forall|k: int| 0 <= k < text@.len() ==> text@[k] as u8 == #[trigger] bytes@[k],
            vstd::utf8::is_ascii_chars(text@),
            forall|k: int| 0 <= k < i ==> #[trigger] is_lower_hex(text@[k]),
        decreases bytes@.len() - i,
    {
        let b = bytes[i];
        assert(text@[i as int] as u8 == b);
        assert('\0' <= text@[i as int] <= '\u{7f}');
        if !((48 <= b && b <= 57) || (97 <= b && b <= 102)) {
            assert(!is_lower_hex(text@[i as int]));
            return false;
        }
        i += 1;
    }
    true
}

/// Accepts text of exactly `2 * bytes` lowercase hexadecimal digits;
/// anything else is `Invalid`.
pub fn validate_hex(value: &str, bytes: usize) -> (result: Result<(), StoreError>)
    requires
        2 * bytes <= usize::MAX,
    ensures
        result is Ok <==> is_hex_text(value@, bytes as int),
        result is Err ==> result == Err::<(), StoreError>(StoreError::Invalid),
{
    if !all_lower_hex(value) {
        return Err(StoreError::Invalid);
    }
    proof {
        is_ascii_chars_encode_utf8(value@);
        assert(value.spec_bytes().len() == value@.len());
    }
    if value.as_bytes().len() != bytes * 2 {
        return Err(StoreError::Invalid);
    }
    Ok(())
}

fn nibble(b: u8) -> (n: u8)
    requires
        (48 <= b <= 57) || (97 <= b <= 102),
    ensures
        n == nibble_value(b as char),
        n < 16,
{
    if b <= 57 {
        b - 48
    } else {
        b - 97 + 10
    }
}

/// The bytes spelled by lowercase hexadecimal text of even length; any
/// other text is `Invalid`.
pub fn decode_hex(value: &str) -> (result: Result<Vec<u8>, StoreError>)
    ensures
        result is Ok <==> is_hex_text(value@, (value@.len() / 2) as int),
        result matches Ok(bytes) ==> bytes@ == hex_decoded(value@),
        result is Err ==> result == Err::<Vec<u8>, StoreError>(StoreError::Invalid),
{
    if !all_lower_hex(value) {
        return Err(StoreError::Invalid);
    }
    proof {
        is_ascii_chars_encode_utf8(value@);
    }
    let text = value.as_bytes();
    let len = text.len();
    if len % 2 != 0 {
        return Err(StoreError::Invalid);
    }
    let mut out: Vec<u8> = Vec::new();
    let mut i: usize = 0;
    while i < len / 2
        invariant
            len == value@.len(),
            len % 2 == 0,
            text@.len() == len,
            forall|k: int| 0 <= k < len ==> value@[k] as u8 == #[trigger] text@[k],
            forall|k: int| 0 <= k < len ==> #[trigger] is_lower_hex(value@[k]),
            i <= len / 2,
            out@ == hex_decoded(value@).subrange(0, i as int),
        decreases len / 2 - i,
    {
        let high = text[2 * i];
        let low = text[2 * i + 1];
        assert(is_lower_hex(value@[2 * i as int]));
        assert(is_lower_hex(value@[2 * i + 1]));
        let byte = nibble(high) * 16 + nibble(low);
        out.push(byte);
        proof {
            assert(high as char == value@[2 * i as int]);
            assert(low as char == value@[2 * i + 1]);
            assert(out@ =~= hex_decoded(value@).subrange(0, i + 1));
        }
        i += 1;
    }
    assert(out@ =~= hex_decoded(value@));
    Ok(out)
}

/// Accepts a peer state whose key is 32 bytes and whose transaction id is
/// 16 bytes of lowercase hexadecimal text; anything else is `Invalid`.
pub fn validate_peer(peer: &PeerState) -> (result: Result<(), StoreError>)
    ensures
        result is Ok <==> peer_is_valid(*peer),
        result is Err ==> result == Err::<(), StoreError>(StoreError::Invalid),
{
    match peer {
        PeerState::Unpaired => Ok(()),
        PeerState::Pending { remote_public_key, pairing_transaction_id }
        | PeerState::Committing { remote_public_key, pairing_transaction_id }
        | PeerState::Paired { remote_public_key, pairing_transaction_id } => {
            validate_hex(remote_public_key.as_str(), 32)?;
            validate_hex(pairing_transaction_id.as_str(), 16)
        },
        PeerState::Revoking { remote_public_key, previous_pairing_transaction_id } => {
            validate_hex(remote_public_key.as_str(), 32)?;
            validate_hex(previous_pairing_transaction_id.as_str(), 16)
        },
    }
}

/// Whether storing `next` over `current` is an allowed step of pairing.
pub fn valid_peer_transition(current: &PeerState, next: &PeerState) -> (allowed: bool)
    ensures
        allowed == peer_transition_allowed(*current, *next),
{
    match current {
        PeerState::Unpaired => match next {
            PeerState::Pending { .. } => true,
            _ => false,
        },
        PeerState::Pending { remote_public_key: k1, pairing_transaction_id: t1 } => match next {
            PeerState::Committing { remote_public_key: k2, pairing_transaction_id: t2 } => {
                *k1 == *k2 && *t1 == *t2
            },
            _ => false,
        },
        PeerState::Committing { remote_public_key: k1, pairing_transaction_id: t1 } => match next {
            PeerState::Paired { remote_public_key: k2, pairing_transaction_id: t2 } => {
                *k1 == *k2 && *t1 == *t2
            },
            _ => false,
        },
        _ => false,
    }
}

/// Whether two byte strings are equal, examining every byte of equal-length
/// inputs whatever their contents.
pub fn constant_time_eq(left: &[u8], right: &[u8]) -> (equal: bool)
    ensures
        equal == (left@ == right@),
{
    if left.len() != right.len() {
        return false;
    }
    let mut difference: u8 = 0;
    let mut i: usize = 0;
    assert(left@.subrange(0, 0) =~= right@.subrange(0, 0));
    while i < left.len()
        invariant
            i <= left@.len(),
            left@.len() == right@.len(),
            (difference == 0) == (left@.subrange(0, i as int) == right@.subrange(0, i as int)),
        decreases left@.len() - i,
    {
        let a = left[i];
        let b = right[i];
        let next = difference | (a ^ b);
        assert((next == 0) == (difference == 0 && a == b)) by (bit_vector)
            requires
                next == difference | (a ^ b),
        ;
        proof {
            let l = left@.subrange(0, i + 1);
            let r = right@.subrange(0, i + 1);
            assert(l =~= left@.subrange(0, i as int).push(a));
            assert(r =~= right@.subrange(0, i as int).push(b));
            if l == r {
                assert(l.drop_last() == r.drop_last());
                assert(l.drop_last() =~= left@.subrange(0, i as int));
                assert(r.drop_last() =~= right@.subrange(0, i as int));
                assert(l.last() == a);
                assert(r.last() == b);
            }
        }
        difference = next;
        i += 1;
    }
    assert(left@.subrange(0, left@.len() as int) =~= left@);
    assert(right@.subrange(0, right@.len() as int) =~= right@);
    difference == 0
}

/// Accepts `request_id` only when it is one more than the last accepted id,
/// and then records it: ids start at 1 and rise by exactly 1.
pub fn accept_request_id(last: &mut u32, request_id: u32) -> (accepted: bool)
    ensures
        accepted == (*old(last) as int + 1 == request_id as int),
        *final(last) == if accepted { request_id } else { *old(last) },
{
    if *last < u32::MAX && *last + 1 == request_id {
        *last = request_id;
        true
    } else {
        false
    }
}

/// Reserves the one pairing window of a host run: the first field marks it
/// reserved, the second that the reservation still has to move the window
/// task to the accept loop's active slot (see `crate::pairing`). A window
/// once reserved stays reserved until the state is reset.
pub fn reserve_pairing_window(state: &mut (bool, bool, bool)) -> (reserved: bool)
    ensures
        reserved == !old(state).0,
        reserved ==> *final(state) == (true, true, old(state).2),
        !reserved ==> *final(state) == *old(state),
{
    if state.0 {
        false
    } else {
        state.0 = true;
        state.1 = true;
        true
    }
}

/// The Noise protocol that pairing and sessions speak.
pub const NOISE_PATTERN: &'static str = "Noise_XX_25519_ChaChaPoly_BLAKE2s";

#[verifier::external_type_specification]
#[verifier::external_body]
pub struct ExNoiseParams(snow::params::NoiseParams);

#[verifier::external_type_specification]
#[verifier::external_body]
pub struct ExNoiseError(snow::Error);

#[verifier::external_type_specification]
#[verifier::external_body]
pub struct ExNoiseBuilder<'builder>(snow::Builder<'builder>);

/// `<snow::params::NoiseParams as FromStr>::from_str`: parses a Noise
/// protocol name into its parameters. Stated only that the crate's own
/// pattern, `Noise`, `XX`, `25519`, `ChaChaPoly` and `BLAKE2s` joined by `_`,
/// parses: each of its five parts is one the parser accepts.
#[verifier::external_body]
fn parse_noise_params(name: &str) -> (params: Result<snow::params::NoiseParams, snow::Error>)
    ensures
        name@ == NOISE_PATTERN@ ==> params is Ok,
{
    name.parse()
}

/// `snow::Builder::new`: a builder for the parameters with the crate's
/// default crypto resolver. Nothing is stated of it.
#[verifier::external_body]
fn noise_builder(params: snow::params::NoiseParams) -> snow::Builder<'static> {
    snow::Builder::new(params)
}

/// `snow::Builder::generate_keypair`, keeping the private key of the new
/// pair. The key is drawn from the resolver's random source, so nothing is
/// stated of its bytes; its length is that of the builder's Diffie-Hellman
/// function, which the opaque builder does not show, so it is not stated
/// either.
#[verifier::external_body]
fn generate_private_key(builder: &snow::Builder<'static>) -> Result<Vec<u8>, snow::Error> {
    builder.generate_keypair().map(|keypair| keypair.private)
}

/// The context id carried by a freshly generated private key: its first 16
/// bytes. A key shorter than that yields `Noise`.
pub fn context_id_from_key(private: &[u8]) -> (id: Result<[u8; 16], SessionError>)
    ensures
        id is Ok <==> private@.len() >= 16,
        id matches Ok(value) ==> value@ == private@.subrange(0, 16),
        id is Err ==> id == Err::<[u8; 16], SessionError>(SessionError::Noise),
{
    if private.len() < 16 {
        return Err(SessionError::Noise);
    }
    let mut value = [0u8; 16];
    let mut i: usize = 0;
    while i < 16
        invariant
            i <= 16,
            private@.len() >= 16,
            forall|k: int| 0 <= k < i ==> value@[k] == private@[k],
        decreases 16 - i,
    {
        value[i] = private[i];
        i += 1;
    }
    assert(value@ =~= private@.subrange(0, 16));
    Ok(value)
}

/// A fresh random 16-byte id, taken from a newly generated Noise static
/// private key by `context_id_from_key`. `Noise` when the protocol or the key
/// cannot be had. The key comes from the resolver's random source, and key
/// generation can fail there too, so no clause says which id comes back or
/// that one does.
pub fn new_context_id() -> (id: Result<[u8; 16], SessionError>)
    ensures
        id is Err ==> id == Err::<[u8; 16], SessionError>(SessionError::Noise),
{
    let params = match parse_noise_params(NOISE_PATTERN) {
        Ok(params) => params,
        Err(_) => {
            return Err(SessionError::Noise);
        },
    };
    let builder = noise_builder(params);
    let private = match generate_private_key(&builder) {
        Ok(private) => private,
        Err(_) => {
            return Err(SessionError::Noise);
        },
    };
    context_id_from_key(private.as_slice())
}

/// A fresh random command id: 16 random bytes as 32 lowercase hexadecimal
/// digits.
pub fn new_control_id() -> (id: Result<String, SessionError>)
    ensures
        id matches Ok(text) ==> is_hex_text(text@, 16) && exists|bytes: Seq<u8>|
            bytes.len() == 16 && text@ == #[trigger] hex_text(bytes),
        id is Err ==> id == Err::<String, SessionError>(SessionError::Noise),
{
    let value = new_context_id()?;
    let text = hex(&value);
    proof {
        lemma_hex_round_trip(value@);
    }
    Ok(text)
}

/// What unpairing `remote` does to a stored identity, decided before
/// anything is written.
pub enum UnpairPlan {
    /// Publish `revoking` at `generation`, one past the stored one; once the
    /// sessions have stopped, publish `Unpaired`.
    Revoke { generation: u64, revoking: PeerState },
    /// A revocation was interrupted: publish `Unpaired` at the stored
    /// generation.
    Recover,
}

/// The outcome of unpairing `remote` from the identity at `generation` with
/// peer `peer`: no peer, or a peer with another key, is `PeerMismatch`; a
/// revoking peer is recovered; otherwise the generation advances by one,
/// `GenerationExhausted` when it cannot, and the peer is revoked under the
/// transaction it had.
pub open spec fn unpair_spec(generation: u64, peer: PeerState, remote: Seq<char>) -> Result<
    (Option<u64>, Seq<char>),
    StoreError,
> {
    match peer_fields(peer) {
        None => Err(StoreError::PeerMismatch),
        Some((key, transaction)) => if key != remote {
            Err(StoreError::PeerMismatch)
        } else if peer is Revoking {
            Ok((None, transaction))
        } else if generation == u64::MAX {
            Err(StoreError::GenerationExhausted)
        } else {
            Ok((Some((generation + 1) as u64), transaction))
        },
    }
}

fn copy_text(text: &String) -> (copy: String)
    ensures
        copy@ == text@,
{
    text.clone()
}

/// Decides how to unpair `remote`; see `unpair_spec`.
pub fn plan_unpair(generation: u64, peer: &PeerState, remote: &String) -> (plan: Result<
    UnpairPlan,
    StoreError,
>)
    ensures
        match (plan, unpair_spec(generation, *peer, remote@)) {
            (Err(e1), Err(e2)) => e1 == e2,
            (Ok(UnpairPlan::Recover), Ok((None, _))) => true,
            (
                Ok(UnpairPlan::Revoke { generation: next, revoking }),
                Ok((Some(expected), transaction)),
            ) => next == expected && match revoking {
                PeerState::Revoking { remote_public_key, previous_pairing_transaction_id } => {
                    remote_public_key@ == remote@ && previous_pairing_transaction_id@ == transaction
                },
                _ => false,
            },
            _ => false,
        },
        !(peer is Unpaired) && !(peer is Revoking) && (peer_fields(*peer)->0).0 == remote@ && generation < u64::MAX
            ==> (plan matches Ok(UnpairPlan::Revoke { generation: next, revoking: PeerState::Revoking {
            remote_public_key,
            previous_pairing_transaction_id,
        } }) && next == generation + 1 && remote_public_key@ == remote@ && previous_pairing_transaction_id@
            == (peer_fields(*peer)->0).1),
        peer is Revoking && (peer_fields(*peer)->0).0 == remote@ ==> plan matches Ok(UnpairPlan::Recover),
        peer is Unpaired || (peer_fields(*peer)->0).0 != remote@ ==> plan == Err::<UnpairPlan, StoreError>(
            StoreError::PeerMismatch,
        ),
{
    let (key, transaction, recovering) = match peer {
        PeerState::Unpaired => {
            return Err(StoreError::PeerMismatch);
        },
        PeerState::Pending { remote_public_key, pairing_transaction_id } => (
            remote_public_key,
            pairing_transaction_id,
            false,
        ),
        PeerState::Committing { remote_public_key, pairing_transaction_id } => (
            remote_public_key,
            pairing_transaction_id,
            false,
        ),
        PeerState::Paired { remote_public_key, pairing_transaction_id } => (
            remote_public_key,
            pairing_transaction_id,
            false,
        ),
        PeerState::Revoking { remote_public_key, previous_pairing_transaction_id } => (
            remote_public_key,
            previous_pairing_transaction_id,
            true,
        ),
    };
    if *key != *remote {
        return Err(StoreError::PeerMismatch);
    }
    if recovering {
        return Ok(UnpairPlan::Recover);
    }
    if generation == u64::MAX {
        return Err(StoreError::GenerationExhausted);
    }
    Ok(
        UnpairPlan::Revoke {
            generation: generation + 1,
            revoking: PeerState::Revoking {
                remote_public_key: copy_text(remote),
                previous_pairing_transaction_id: copy_text(transaction),
            },
        },
    )
}

/// The identity's generation when it is paired, else `PeerMismatch`.
pub fn paired_generation(generation: u64, peer: &PeerState) -> (result: Result<u64, StoreError>)
    ensures
        *peer is Paired ==> result == Ok::<u64, StoreError>(generation),
        !(*peer is Paired) ==> result == Err::<u64, StoreError>(StoreError::PeerMismatch),
{
    match peer {
        PeerState::Paired { .. } => Ok(generation),
        _ => Err(StoreError::PeerMismatch),
    }
}

/// Whether `next` may be stored over `current`: it must be a valid peer
/// state and an allowed step of pairing; anything else is `Invalid`.
pub fn check_peer_update(current: &PeerState, next: &PeerState) -> (result: Result<(), StoreError>)
    ensures
        result is Ok <==> peer_is_valid(*next) && peer_transition_allowed(*current, *next),
        result is Err ==> result == Err::<(), StoreError>(StoreError::Invalid),
{
    validate_peer(next)?;
    if !valid_peer_transition(current, next) {
        return Err(StoreError::Invalid);
    }
    Ok(())
}

/// Once a pairing has started, every step it may take keeps its key and
/// transaction.
pub proof fn lemma_transitions_keep_pairing(current: PeerState, next: PeerState)
    requires
        peer_transition_allowed(current, next),
        !(current is Unpaired),
    ensures
        peer_fields(next) == peer_fields(current),
{
}

/// Storing a peer state never skips a step: a pairing reaches `Paired` only
/// from `Committing`, and `Committing` only from `Pending`.
pub proof fn lemma_pairing_steps_in_order(current: PeerState, next: PeerState)
    requires
        peer_transition_allowed(current, next),
    ensures
        next is Paired ==> current is Committing,
        next is Committing ==> current is Pending,
        next is Pending ==> current is Unpaired,
        !(next is Unpaired || next is Revoking),
{
}

/// The Curve25519 public key of a 32-byte private key, as `snow` computes
/// it.
pub uninterp spec fn curve25519_public_key(private: Seq<u8>) -> Seq<u8>;

/// `snow`'s default resolver for Curve25519: `resolve_dh`, then `Dh::set`
/// with the private key and `Dh::pubkey`. With the crate's default
/// features the resolver always has the curve and its public keys are 32
/// bytes; `set` copies exactly 32 key bytes, so the key must have them. The
/// key itself is named, not stated.
#[verifier::external_body]
fn curve25519_public(private: &[u8]) -> (public: Option<Vec<u8>>)
    requires
        private@.len() == 32,
    ensures
        public is Some,
        public.unwrap()@ == curve25519_public_key(private@),
        public.unwrap()@.len() == 32,
{
    let mut dh = snow::resolvers::DefaultResolver.resolve_dh(&snow::params::DHChoice::Curve25519)?;
    dh.set(private);
    Some(dh.pubkey().to_vec())
}

/// A stored identity as plain values.
pub struct IdentityRecord {
    pub schema_major: u8,
    pub local_private_key: String,
    pub local_public_key: String,
    pub generation: u64,
    pub peer: PeerState,
}

/// The rules a stored identity keeps: schema 1, a 32-byte private key and
/// the matching 32-byte public key in lowercase hexadecimal, and a valid
/// peer state.
pub open spec fn identity_is_valid(record: IdentityRecord) -> bool {
    &&& record.schema_major == 1
    &&& is_hex_text(record.local_private_key@, 32)
    &&& is_hex_text(record.local_public_key@, 32)
    &&& curve25519_public_key(hex_decoded(record.local_private_key@)) == hex_decoded(
        record.local_public_key@,
    )
    &&& peer_is_valid(record.peer)
}

/// Checks a stored identity; one that breaks a rule is `Invalid`.
pub fn check_identity_record(record: &IdentityRecord) -> (result: Result<(), StoreError>)
    ensures
        result is Ok <==> identity_is_valid(*record),
        result is Err ==> result == Err::<(), StoreError>(StoreError::Invalid),
{
    if record.schema_major != 1 {
        return Err(StoreError::Invalid);
    }
    validate_hex(record.local_private_key.as_str(), 32)?;
    validate_hex(record.local_public_key.as_str(), 32)?;
    let private = decode_hex(record.local_private_key.as_str())?;
    let public = decode_hex(record.local_public_key.as_str())?;
    let derived = match curve25519_public(private.as_slice()) {
        Some(derived) => derived,
        None => {
            return Err(StoreError::Invalid);
        },
    };
    if !constant_time_eq(derived.as_slice(), public.as_slice()) {
        return Err(StoreError::Invalid);
    }
    validate_peer(&record.peer)
}

/// Unpairing the key of the stored peer always succeeds short of an
/// exhausted generation, whatever stage its pairing reached: a pending,
/// committing or paired peer is revoked at the next generation under the
/// transaction it had, and a peer already being revoked is recovered at the
/// same generation. Unpairing any other key, or with no peer, is
/// `PeerMismatch`.
pub proof fn lemma_unpair_revokes_the_matching_peer(
    generation: u64,
    key: String,
    transaction: String,
    remote: String,
)
    ensures
        key@ == remote@ && generation < u64::MAX ==> {
            &&& unpair_spec(
                generation,
                PeerState::Pending { remote_public_key: key, pairing_transaction_id: transaction },
                remote@,
            ) == Ok::<(Option<u64>, Seq<char>), StoreError>((Some((generation + 1) as u64), transaction@))
            &&& unpair_spec(
                generation,
                PeerState::Committing { remote_public_key: key, pairing_transaction_id: transaction },
                remote@,
            ) == Ok::<(Option<u64>, Seq<char>), StoreError>((Some((generation + 1) as u64), transaction@))
            &&& unpair_spec(
                generation,
                PeerState::Paired { remote_public_key: key, pairing_transaction_id: transaction },
                remote@,
            ) == Ok::<(Option<u64>, Seq<char>), StoreError>((Some((generation + 1) as u64), transaction@))
        },
        key@ == remote@ ==> unpair_spec(
            generation,
            PeerState::Revoking { remote_public_key: key, previous_pairing_transaction_id: transaction },
            remote@,
        ) == Ok::<(Option<u64>, Seq<char>), StoreError>((None, transaction@)),
        key@ == remote@ && generation == u64::MAX ==> unpair_spec(
            generation,
            PeerState::Paired { remote_public_key: key, pairing_transaction_id: transaction },
            remote@,
        ) == Err::<(Option<u64>, Seq<char>), StoreError>(StoreError::GenerationExhausted),
        key@ != remote@ ==> unpair_spec(
            generation,
            PeerState::Pending { remote_public_key: key, pairing_transaction_id: transaction },
            remote@,
        ) == Err::<(Option<u64>, Seq<char>), StoreError>(StoreError::PeerMismatch) && unpair_spec(
            generation,
            PeerState::Paired { remote_public_key: key, pairing_transaction_id: transaction },
            remote@,
        ) == Err::<(Option<u64>, Seq<char>), StoreError>(StoreError::PeerMismatch),
        unpair_spec(generation, PeerState::Unpaired, remote@) == Err::<(Option<u64>, Seq<char>), StoreError>(
            StoreError::PeerMismatch,
        ),
{
}

/// A new identity: schema 1, a freshly generated Noise private key with the
/// public key `snow` derives from it, both as lowercase hexadecimal,
/// generation 0 and no peer. The key comes from the random source, so
/// which key, and whether one can be had, is not stated; a key that cannot
/// be had, or that is not 32 bytes, is `Invalid`.
pub fn new_identity_record() -> (record: Result<IdentityRecord, StoreError>)
    ensures
        record matches Ok(r) ==> {
            &&& identity_is_valid(r)
            &&& r.generation == 0
            &&& r.peer == PeerState::Unpaired
        },
        record is Err ==> record == Err::<IdentityRecord, StoreError>(StoreError::Invalid),
{
    let params = match parse_noise_params(NOISE_PATTERN) {
        Ok(params) => params,
        Err(_) => {
            return Err(StoreError::Invalid);
        },
    };
    let builder = noise_builder(params);
    let private = match generate_private_key(&builder) {
        Ok(private) => private,
        Err(_) => {
            return Err(StoreError::Invalid);
        },
    };
    if private.len() != 32 {
        return Err(StoreError::Invalid);
    }
    let public = match curve25519_public(private.as_slice()) {
        Some(public) => public,
        None => {
            return Err(StoreError::Invalid);
        },
    };
    let local_private_key = hex(private.as_slice());
    let local_public_key = hex(public.as_slice());
    proof {
        lemma_hex_round_trip(private@);
        lemma_hex_round_trip(public@);
    }
    Ok(IdentityRecord {
        schema_major: 1,
        local_private_key,
        local_public_key,
        generation: 0,
        peer: PeerState::Unpaired,
    })
}

/// Hexadecimal text decodes back to the bytes it was made from.
pub proof fn lemma_hex_round_trip(bytes: Seq<u8>)
    ensures
        is_hex_text(hex_text(bytes), bytes.len() as int),
        hex_decoded(hex_text(bytes)) == bytes,
{
    let text = hex_text(bytes);
    assert forall|i: int| 0 <= i < text.len() implies #[trigger] is_lower_hex(text[i]) by {
        let n = if i % 2 == 0 { bytes[i / 2] as int / 16 } else { bytes[i / 2] as int % 16 };
        assert(0 <= n < 16);
    }
    assert forall|i: int| 0 <= i < bytes.len() implies #[trigger] hex_decoded(text)[i] == bytes[i] by {
        assert((2 * i) % 2 == 0);
        assert((2 * i + 1) % 2 == 1);
        assert((2 * i) / 2 == i);
        assert((2 * i + 1) / 2 == i);
        let b = bytes[i] as int;
        assert(nibble_value(hex_digit(b / 16)) == b / 16);
        assert(nibble_value(hex_digit(b % 16)) == b % 16);
    }
    assert(hex_decoded(text) =~= bytes);
}

/// What the shape check reads of a stored identity's JSON text: the keys of
/// its top object and, where its `peer` member is an object, that object.
pub struct IdentityShape {
    pub keys: Vec<String>,
    pub peer: Option<PeerShape>,
}

/// What the shape check reads of the `peer` object: its keys and its
/// `state` member where that is a string.
pub struct PeerShape {
    pub keys: Vec<String>,
    pub state: Option<String>,
}

/// The keys as texts.
pub open spec fn key_texts(keys: Seq<String>) -> Seq<Seq<char>> {
    keys.map_values(|k: String| k@)
}

/// The literals as texts.
pub open spec fn literal_texts(literals: Seq<&str>) -> Seq<Seq<char>> {
    literals.map_values(|l: &str| l@)
}

/// Whether the keys are exactly as many as the expected ones and hold each
/// of them.
pub open spec fn holds_exactly(keys: Seq<Seq<char>>, expected: Seq<Seq<char>>) -> bool {
    keys.len() == expected.len() && forall|i: int| 0 <= i < expected.len() ==> keys.contains(#[trigger] expected[i])
}

/// The members of a stored identity.
pub open spec fn identity_keys() -> Seq<Seq<char>> {
    seq!["schema_major"@, "local_private_key"@, "local_public_key"@, "generation"@, "peer"@]
}

/// The members of a peer object in a given state; an unknown state has none.
pub open spec fn peer_keys(state: Seq<char>) -> Option<Seq<Seq<char>>> {
    if state == "unpaired"@ {
        Some(seq!["state"@])
    } else if state == "pending"@ || state == "committing"@ || state == "paired"@ {
        Some(seq!["state"@, "remote_public_key"@, "pairing_transaction_id"@])
    } else if state == "revoking"@ {
        Some(seq!["state"@, "remote_public_key"@, "previous_pairing_transaction_id"@])
    } else {
        None
    }
}

/// Whether a stored identity's JSON has exactly the members of its schema,
/// with a peer object whose string state is known and whose members are
/// exactly those of that state.
pub open spec fn identity_shape_is_valid(keys: Seq<Seq<char>>, peer: Option<(Seq<Seq<char>>, Option<Seq<char>>)>) -> bool {
    &&& holds_exactly(keys, identity_keys())
    &&& peer matches Some((peer_keys_found, Some(state)))
    &&& peer_keys(state) matches Some(expected)
    &&& holds_exactly(peer_keys_found, expected)
}

/// The shape as texts.
pub open spec fn shape_view(shape: &IdentityShape) -> (Seq<Seq<char>>, Option<(Seq<Seq<char>>, Option<Seq<char>>)>) {
    (key_texts(shape.keys@), match shape.peer {
        Some(p) => Some((key_texts(p.keys@), match p.state {
            Some(st) => Some(st@),
            None => None,
        })),
        None => None,
    })
}

fn text_is(text: &String, literal: &str) -> (same: bool)
    ensures
        same == (text@ == literal@),
{
    let wanted = literal.to_owned();
    *text == wanted
}

fn contains_text(keys: &Vec<String>, literal: &str) -> (found: bool)
    ensures
        found == key_texts(keys@).contains(literal@),
{
    let mut i: usize = 0;
    while i < keys.len()
        invariant
            i <= keys@.len(),
            forall|k: int| 0 <= k < i ==> keys@[k]@ != literal@,
        decreases keys@.len() - i,
    {
        if text_is(&keys[i], literal) {
            assert(key_texts(keys@)[i as int] == literal@);
            return true;
        }
        i += 1;
    }
    proof {
        if key_texts(keys@).contains(literal@) {
            let k = choose|k: int| 0 <= k < key_texts(keys@).len() && key_texts(keys@)[k] == literal@;
            assert(keys@[k]@ == literal@);
        }
    }
    false
}

fn keys_are_exactly(keys: &Vec<String>, expected: &[&str]) -> (exact: bool)
    ensures
        exact == holds_exactly(key_texts(keys@), literal_texts(expected@)),
{
    if keys.len() != expected.len() {
        return false;
    }
    let mut i: usize = 0;
    while i < expected.len()
        invariant
            i <= expected@.len(),
            keys@.len() == expected@.len(),
            forall|k: int| 0 <= k < i ==> key_texts(keys@).contains(#[trigger] literal_texts(expected@)[k]),
        decreases expected@.len() - i,
    {
        if !contains_text(keys, expected[i]) {
            assert(!key_texts(keys@).contains(literal_texts(expected@)[i as int]));
            return false;
        }
        i += 1;
    }
    true
}

/// Checks the shape of a stored identity's JSON: any member missing, extra
/// or of the wrong kind is `Invalid`.
pub fn check_identity_shape(shape: &IdentityShape) -> (result: Result<(), StoreError>)
    ensures
        result is Ok <==> identity_shape_is_valid(shape_view(shape).0, shape_view(shape).1),
        result is Err ==> result == Err::<(), StoreError>(StoreError::Invalid),
{
    let top: [&str; 5] = ["schema_major", "local_private_key", "local_public_key", "generation", "peer"];
    assert(literal_texts(top@) =~= identity_keys());
    if !keys_are_exactly(&shape.keys, &top) {
        return Err(StoreError::Invalid);
    }
    let peer = match &shape.peer {
        Some(peer) => peer,
        None => {
            return Err(StoreError::Invalid);
        },
    };
    let state = match &peer.state {
        Some(state) => state,
        None => {
            return Err(StoreError::Invalid);
        },
    };
    let exact = if text_is(state, "unpaired") {
        let expected: [&str; 1] = ["state"];
        assert(literal_texts(expected@) =~= seq!["state"@]);
        keys_are_exactly(&peer.keys, &expected)
    } else if text_is(state, "pending") || text_is(state, "committing") || text_is(state, "paired") {
        let expected: [&str; 3] = ["state", "remote_public_key", "pairing_transaction_id"];
        assert(literal_texts(expected@) =~= seq!["state"@, "remote_public_key"@, "pairing_transaction_id"@]);
        keys_are_exactly(&peer.keys, &expected)
    } else if text_is(state, "revoking") {
        let expected: [&str; 3] = ["state", "remote_public_key", "previous_pairing_transaction_id"];
        assert(literal_texts(expected@) =~= seq!["state"@, "remote_public_key"@, "previous_pairing_transaction_id"@]);
        keys_are_exactly(&peer.keys, &expected)
    } else {
        false
    };
    if exact {
        Ok(())
    } else {
        Err(StoreError::Invalid)
    }
}

} // verus!
