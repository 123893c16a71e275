//! Named host profiles: how a physical host binds, what it reports, and
//! where its state lives, with the rules that keep profile names and role
//! roots inside the profile store's reserved layout.
use vstd::prelude::*;
use crate::identity::SessionError;
use vstd::string::StringSliceAdditionalSpecFns;
use vstd::string::StrSliceExecFns;
use crate::owner_control::OwnerResponse;

verus! {

/// The most profiles a store holds.
pub const PROFILE_LIMIT: usize = 32;
/// The most bytes a stored profile file holds.
pub const PROFILE_BYTES_MAX: u64 = 4096;
/// The only profile schema.
pub const PROFILE_SCHEMA_VERSION: u8 = 1;
/// The port a private-LAN host listens on.
pub const PRIVATE_LAN_PORT: u16 = 39_042;

/// How a host listens.
#[derive(Clone, Copy, Debug, PartialEq, Eq, Structural)]
pub enum BindMode {
    Loopback,
    PrivateLan,
}

/// What a host answers availability reads with.
#[derive(Clone, Copy, Debug, PartialEq, Eq, Structural)]
pub enum ProfileAvailability {
    Available,
    Unavailable,
    ReadFailed,
}

/// Whether a host records its runs.
#[derive(Clone, Copy, Debug, PartialEq, Eq, Structural)]
pub enum ProfileRecording {
    On,
    Off,
}

/// What a profile's owner is doing.
#[derive(Clone, Copy, Debug, PartialEq, Eq, Structural)]
pub enum ProfileState {
    Stopped,
    Running,
    ProfileMismatch,
    OwnerUnknown,
}

/// Why a profile operation failed.
#[derive(Clone, Copy, Debug, PartialEq, Eq, Structural)]
pub enum ProfileError {
    NameInvalid,
    SchemaInvalid,
    AddressInvalid,
    StoreUnsafe,
    NotFound,
    LimitExceeded,
    OwnerBusy,
    ProfileMismatch,
    StaleGeneration,
    OwnerUnknown,
    PublicationUnknown,
    ShutdownRejected,
    ShutdownTimeout,
    Runtime(SessionError),
    Io,
}

/// An IP address: four octets, or eight 16-bit segments.
#[derive(Clone, Copy, Debug, PartialEq, Eq)]
pub enum IpAddress {
    V4([u8; 4]),
    V6([u16; 8]),
}

/// An IP address and a port.
#[derive(Clone, Copy, Debug, PartialEq, Eq)]
pub struct SocketAddress {
    pub ip: IpAddress,
    pub port: u16,
}

/// Whether the address is a loopback address: 127.0.0.0/8 or `::1`.
pub open spec fn is_loopback_spec(ip: IpAddress) -> bool {
    match ip {
        IpAddress::V4(octets) => octets@[0] == 127,
        IpAddress::V6(segments) => segments@ == seq![0u16, 0, 0, 0, 0, 0, 0, 1],
    }
}

/// Whether the address is exactly a private-LAN host endpoint: an IPv4
/// address in 10.0.0.0/8, 172.16.0.0/12 or 192.168.0.0/16, not
/// unspecified, on `PRIVATE_LAN_PORT`.
pub open spec fn is_private_lan_spec(address: SocketAddress) -> bool {
    match address.ip {
        IpAddress::V4(o) => {
            &&& (o@[0] == 10 || (o@[0] == 172 && 16 <= o@[1] <= 31) || (o@[0] == 192 && o@[1] == 168))
            &&& address.port == PRIVATE_LAN_PORT
        },
        IpAddress::V6(_) => false,
    }
}

impl IpAddress {
    /// Whether the address is a loopback address.
    pub fn is_loopback(&self) -> (loopback: bool)
        ensures
            loopback == is_loopback_spec(*self),
    {
        match self {
            IpAddress::V4(octets) => octets[0] == 127,
            IpAddress::V6(segments) => {
                let mut all = true;
                let mut i: usize = 0;
                while i < 8
                    invariant
                        i <= 8,
                        all == (forall|k: int| 0 <= k < i ==> segments@[k] == if k == 7 { 1u16 } else { 0u16 }),
                    decreases 8 - i,
                {
                    let expected: u16 = if i == 7 { 1 } else { 0 };
                    all = all && segments[i] == expected;
                    i += 1;
                }
                assert(all == (segments@ =~= seq![0u16, 0, 0, 0, 0, 0, 0, 1]));
                all
            },
        }
    }
}

/// Whether the address is exactly a private-LAN host endpoint.
pub fn is_exact_private_lan_address(address: &SocketAddress) -> (private: bool)
    ensures
        private == is_private_lan_spec(*address),
{
    match &address.ip {
        IpAddress::V4(o) => {
            let private = o[0] == 10 || (o[0] == 172 && 16 <= o[1] && o[1] <= 31) || (o[0] == 192
                && o[1] == 168);
            private && address.port == PRIVATE_LAN_PORT
        },
        IpAddress::V6(_) => false,
    }
}

/// Where and how a host listens.
#[derive(Clone, Copy, Debug, PartialEq, Eq)]
pub struct BindProfile {
    pub mode: BindMode,
    pub address: SocketAddress,
}

/// A stored host profile.
#[derive(Clone, Debug, PartialEq, Eq)]
pub struct PhysicalProfile {
    pub schema_version: u8,
    pub role_root: String,
    pub bind: BindProfile,
    pub availability: ProfileAvailability,
    pub recording: ProfileRecording,
}

/// A profile name: 1 to 32 characters of lowercase letters, digits and
/// hyphens, with no hyphen first, last or next to another.
pub open spec fn is_profile_name(name: Seq<char>) -> bool {
    &&& 1 <= name.len() <= 32
    &&& forall|i: int|
        0 <= i < name.len() ==> ('a' <= #[trigger] name[i] <= 'z') || ('0' <= name[i] <= '9')
            || name[i] == '-'
    &&& name[0] != '-'
    &&& name[name.len() - 1] != '-'
    &&& forall|i: int| 0 <= i < name.len() - 1 ==> !(#[trigger] name[i] == '-' && name[i + 1] == '-')
}

/// Whether position `i` starts a path segment.
pub open spec fn segment_start(bytes: Seq<u8>, i: int) -> bool {
    i == 0 || bytes[i - 1] == 0x2f
}

/// Whether position `i` ends a path segment.
pub open spec fn segment_end(bytes: Seq<u8>, i: int) -> bool {
    i == bytes.len() || bytes[i] == 0x2f
}

/// Whether the text starts with the segment `word`.
pub open spec fn first_segment_is(bytes: Seq<u8>, word: Seq<u8>) -> bool {
    &&& bytes.len() >= word.len()
    &&& bytes.subrange(0, word.len() as int) == word
    &&& segment_end(bytes, word.len() as int)
}

/// A role root: a relative path of `/`-separated segments, none empty, `.`
/// or `..`, whose first segment is not one the profile store reserves.
pub open spec fn is_role_root(bytes: Seq<u8>) -> bool {
    &&& bytes.len() > 0
    &&& bytes[0] != 0x2f
    &&& bytes[bytes.len() - 1] != 0x2f
    &&& forall|i: int| 0 <= i < bytes.len() - 1 ==> !(#[trigger] bytes[i] == 0x2f && bytes[i + 1] == 0x2f)
    &&& forall|i: int|
        0 <= i < bytes.len() && segment_start(bytes, i) && #[trigger] bytes[i] == 0x2e ==> !segment_end(
            bytes,
            i + 1,
        ) && !(i + 1 < bytes.len() && bytes[i + 1] == 0x2e && segment_end(bytes, i + 2))
    &&& !first_segment_is(bytes, reserved_profiles())
    &&& !first_segment_is(bytes, reserved_control())
}

/// The bytes of `profiles`.
pub open spec fn reserved_profiles() -> Seq<u8> {
    seq![0x70u8, 0x72, 0x6f, 0x66, 0x69, 0x6c, 0x65, 0x73]
}

/// The bytes of `profile-control`.
pub open spec fn reserved_control() -> Seq<u8> {
    seq![0x70u8, 0x72, 0x6f, 0x66, 0x69, 0x6c, 0x65, 0x2d, 0x63, 0x6f, 0x6e, 0x74, 0x72, 0x6f, 0x6c]
}

/// Accepts a profile name, else `NameInvalid`.
pub fn validate_profile_name(name: &str) -> (result: Result<(), ProfileError>)
    ensures
        result is Ok <==> is_profile_name(name@),
        result is Err ==> result == Err::<(), ProfileError>(ProfileError::NameInvalid),
{
    if !name.is_ascii() {
        proof {
            let i = choose|i: int| 0 <= i < name@.len() && !('\0' <= #[trigger] name@[i] <= '\u{7f}');
            assert(!(('a' <= name@[i] <= 'z') || ('0' <= name@[i] <= '9') || name@[i] == '-'));
        }
        return Err(ProfileError::NameInvalid);
    }
    let bytes = name.as_bytes();
    proof {
        vstd::utf8::is_ascii_chars_encode_utf8(name@);
    }
    let len = bytes.len();
    if len == 0 || len > 32 {
        return Err(ProfileError::NameInvalid);
    }
    if bytes[0] == 45 || bytes[len - 1] == 45 {
        assert(bytes@[0] == name@[0] as u8);
        assert(bytes@[len - 1] == name@[len - 1] as u8);
        return Err(ProfileError::NameInvalid);
    }
    let mut i: usize = 0;
    while i < len
        invariant
            len == bytes@.len(),
            len == name@.len(),
            i <= len,
            forall|k: int| 0 <= k < len ==> name@[k] as u8 == #[trigger] bytes@[k],
            vstd::utf8::is_ascii_chars(name@),
            forall|k: int|
                0 <= k < i ==> ('a' <= #[trigger] name@[k] <= 'z') || ('0' <= name@[k] <= '9')
                    || name@[k] == '-',
            forall|k: int| 0 <= k < i && k < len - 1 ==> !(#[trigger] name@[k] == '-' && name@[k + 1] == '-'),
        decreases len - i,
    {
        let b = bytes[i];
        assert(name@[i as int] as u8 == b);
        assert('\0' <= name@[i as int] <= '\u{7f}');
        if !((97 <= b && b <= 122) || (48 <= b && b <= 57) || b == 45) {
            return Err(ProfileError::NameInvalid);
        }
        if i + 1 < len && b == 45 && bytes[i + 1] == 45 {
            assert(name@[i + 1] as u8 == bytes@[i + 1]);
            assert('\0' <= name@[i + 1] <= '\u{7f}');
            return Err(ProfileError::NameInvalid);
        }
        proof {
            if i + 1 < len {
                assert(name@[i + 1] as u8 == bytes@[i + 1]);
                assert('\0' <= name@[i + 1] <= '\u{7f}');
            }
        }
        i += 1;
    }
    assert(name@[0] as u8 == bytes@[0]);
    assert(name@[len - 1] as u8 == bytes@[len - 1]);
    Ok(())
}

fn starts_with_segment(bytes: &[u8], word: &[u8]) -> (found: bool)
    ensures
        found == first_segment_is(bytes@, word@),
{
    if bytes.len() < word.len() {
        return false;
    }
    let mut i: usize = 0;
    while i < word.len()
        invariant
            i <= word@.len(),
            word@.len() <= bytes@.len(),
            forall|k: int| 0 <= k < i ==> bytes@[k] == word@[k],
        decreases word@.len() - i,
    {
        if bytes[i] != word[i] {
            assert(bytes@.subrange(0, word@.len() as int)[i as int] != word@[i as int]);
            return false;
        }
        i += 1;
    }
    assert(bytes@.subrange(0, word@.len() as int) =~= word@);
    word.len() == bytes.len() || bytes[word.len()] == 0x2f
}

/// Accepts a role root, else `SchemaInvalid`.
pub fn validate_role_root(value: &str) -> (result: Result<(), ProfileError>)
    ensures
        result is Ok <==> is_role_root(vstd::utf8::encode_utf8(value@)),
        result is Err ==> result == Err::<(), ProfileError>(ProfileError::SchemaInvalid),
{
    let bytes = value.as_bytes();
    assert(bytes@ == vstd::utf8::encode_utf8(value@));
    let len = bytes.len();
    if len == 0 || bytes[0] == 0x2f || bytes[len - 1] == 0x2f {
        return Err(ProfileError::SchemaInvalid);
    }
    let mut i: usize = 0;
    while i < len
        invariant
            len == bytes@.len(),
            bytes@ == vstd::utf8::encode_utf8(value@),
            i <= len,
            len > 0,
            bytes@[0] != 0x2f,
            bytes@[len - 1] != 0x2f,
            forall|k: int| 0 <= k < i && k < len - 1 ==> !(#[trigger] bytes@[k] == 0x2f && bytes@[k + 1] == 0x2f),
            forall|k: int|
                0 <= k < i && segment_start(bytes@, k) && #[trigger] bytes@[k] == 0x2e ==> !segment_end(
                    bytes@,
                    k + 1,
                ) && !(k + 1 < bytes@.len() && bytes@[k + 1] == 0x2e && segment_end(bytes@, k + 2)),
        decreases len - i,
    {
        let b = bytes[i];
        if i + 1 < len && b == 0x2f && bytes[i + 1] == 0x2f {
            proof {
                let t = bytes@;
                assert(t[i as int] == 0x2f && t[i + 1] == 0x2f);
                assert(!is_role_root(t));
            }
            return Err(ProfileError::SchemaInvalid);
        }
        let starts = i == 0 || bytes[i - 1] == 0x2f;
        if starts && b == 0x2e {
            if i + 1 == len || bytes[i + 1] == 0x2f {
                proof {
                    let t = bytes@;
                    assert(segment_start(t, i as int) && t[i as int] == 0x2e && segment_end(t, i + 1));
                    assert(!is_role_root(t));
                }
                return Err(ProfileError::SchemaInvalid);
            }
            if bytes[i + 1] == 0x2e && (i + 2 == len || bytes[i + 2] == 0x2f) {
                proof {
                    let t = bytes@;
                    assert(segment_start(t, i as int) && t[i as int] == 0x2e && t[i + 1] == 0x2e
                        && segment_end(t, i + 2));
                    assert(!is_role_root(t));
                }
                return Err(ProfileError::SchemaInvalid);
            }
        }
        i += 1;
    }
    let profiles: [u8; 8] = [0x70, 0x72, 0x6f, 0x66, 0x69, 0x6c, 0x65, 0x73];
    let control: [u8; 15] = [
        0x70,
        0x72,
        0x6f,
        0x66,
        0x69,
        0x6c,
        0x65,
        0x2d,
        0x63,
        0x6f,
        0x6e,
        0x74,
        0x72,
        0x6f,
        0x6c,
    ];
    assert(profiles@ =~= reserved_profiles());
    assert(control@ =~= reserved_control());
    if starts_with_segment(bytes, &profiles) || starts_with_segment(bytes, &control) {
        return Err(ProfileError::SchemaInvalid);
    }
    Ok(())
}

/// What a shutdown request's answer means: accepted, refused for a stale
/// owner generation, or refused otherwise.
pub fn classify_shutdown_response(response: &OwnerResponse) -> (result: Result<(), ProfileError>)
    ensures
        response is ShutdownAccepted ==> result is Ok,
        response is StaleOwner ==> result == Err::<(), ProfileError>(ProfileError::StaleGeneration),
        !(response is ShutdownAccepted || response is StaleOwner) ==> result == Err::<
            (),
            ProfileError,
        >(ProfileError::ShutdownRejected),
{
    match response {
        OwnerResponse::ShutdownAccepted => Ok(()),
        OwnerResponse::StaleOwner => Err(ProfileError::StaleGeneration),
        _ => Err(ProfileError::ShutdownRejected),
    }
}

/// Text order: lexicographic by character, a prefix first.
pub open spec fn text_le(a: Seq<char>, b: Seq<char>) -> bool
    decreases a.len(),
{
    if a.len() == 0 {
        true
    } else if b.len() == 0 {
        false
    } else if a[0] != b[0] {
        a[0] < b[0]
    } else {
        text_le(a.drop_first(), b.drop_first())
    }
}

/// Any two texts are ordered one way or the other.
pub proof fn lemma_text_le_total(a: Seq<char>, b: Seq<char>)
    ensures
        text_le(a, b) || text_le(b, a),
    decreases a.len(),
{
    if a.len() > 0 && b.len() > 0 && a[0] == b[0] {
        lemma_text_le_total(a.drop_first(), b.drop_first());
    }
}

/// Text order is transitive.
pub proof fn lemma_text_le_transitive(a: Seq<char>, b: Seq<char>, c: Seq<char>)
    requires
        text_le(a, b),
        text_le(b, c),
    ensures
        text_le(a, c),
    decreases a.len(),
{
    if a.len() > 0 && b.len() > 0 && c.len() > 0 && a[0] == b[0] && b[0] == c[0] {
        lemma_text_le_transitive(a.drop_first(), b.drop_first(), c.drop_first());
    }
}

/// Texts in order, each at most every later one.
pub open spec fn texts_sorted(texts: Seq<Seq<char>>) -> bool {
    forall|i: int, j: int| 0 <= i < j < texts.len() ==> text_le(#[trigger] texts[i], #[trigger] texts[j])
}

/// The texts of strings.
pub open spec fn texts_of(strings: Seq<String>) -> Seq<Seq<char>> {
    Seq::new(strings.len(), |i: int| strings[i]@)
}

/// Compares two ASCII texts in text order.
fn ascii_text_le(a: &String, b: &String) -> (le: bool)
    requires
        vstd::utf8::is_ascii_chars(a@),
        vstd::utf8::is_ascii_chars(b@),
    ensures
        le == text_le(a@, b@),
{
    let x = a.as_str().as_bytes();
    let y = b.as_str().as_bytes();
    proof {
        vstd::utf8::is_ascii_chars_encode_utf8(a@);
        vstd::utf8::is_ascii_chars_encode_utf8(b@);
    }
    let mut i: usize = 0;
    assert(a@.skip(0) =~= a@);
    assert(b@.skip(0) =~= b@);
    while i < x.len() && i < y.len()
        invariant
            x@.len() == a@.len(),
            y@.len() == b@.len(),
            forall|k: int| 0 <= k < a@.len() ==> a@[k] as u8 == #[trigger] x@[k],
            forall|k: int| 0 <= k < b@.len() ==> b@[k] as u8 == #[trigger] y@[k],
            vstd::utf8::is_ascii_chars(a@),
            vstd::utf8::is_ascii_chars(b@),
            i <= x@.len(),
            i <= y@.len(),
            text_le(a@, b@) == text_le(a@.skip(i as int), b@.skip(i as int)),
        decreases x@.len() - i,
    {
        let ghost sa = a@.skip(i as int);
        let ghost sb = b@.skip(i as int);
        assert(sa[0] == a@[i as int]);
        assert(sb[0] == b@[i as int]);
        assert('\0' <= a@[i as int] <= '\u{7f}');
        assert('\0' <= b@[i as int] <= '\u{7f}');
        if x[i] != y[i] {
            return x[i] < y[i];
        }
        assert(sa.drop_first() =~= a@.skip(i + 1));
        assert(sb.drop_first() =~= b@.skip(i + 1));
        i += 1;
    }
    assert(a@.skip(i as int).len() == a@.len() - i);
    assert(b@.skip(i as int).len() == b@.len() - i);
    i == x.len()
}

fn insert_sorted(names: &mut Vec<String>, name: String)
    requires
        texts_sorted(texts_of(old(names)@)),
        vstd::utf8::is_ascii_chars(name@),
        forall|i: int| 0 <= i < old(names)@.len() ==> vstd::utf8::is_ascii_chars(#[trigger] old(names)@[i]@),
    ensures
        texts_sorted(texts_of(final(names)@)),
        texts_of(final(names)@).to_multiset() == texts_of(old(names)@).to_multiset().insert(name@),
        forall|i: int| 0 <= i < final(names)@.len() ==> vstd::utf8::is_ascii_chars(#[trigger] final(names)@[i]@),
{
    let ghost before = texts_of(names@);
    let mut p: usize = 0;
    let mut scanning = true;
    while scanning && p < names.len()
        invariant
            p <= names@.len(),
            before == texts_of(names@),
            texts_sorted(before),
            vstd::utf8::is_ascii_chars(name@),
            forall|i: int| 0 <= i < names@.len() ==> vstd::utf8::is_ascii_chars(#[trigger] names@[i]@),
            forall|i: int| 0 <= i < p ==> text_le(#[trigger] before[i], name@),
            !scanning ==> p < names@.len() && !text_le(before[p as int], name@),
        decreases names@.len() - p + if scanning { 1int } else { 0int },
    {
        assert(before[p as int] == names@[p as int]@);
        if ascii_text_le(&names[p], &name) {
            p += 1;
        } else {
            scanning = false;
        }
    }
    let ghost text = name@;
    names.insert(p, name);
    proof {
        let after = texts_of(names@);
        assert(after =~= before.insert(p as int, text));
        vstd::seq_lib::to_multiset_insert(before, p as int, text);
        if p < before.len() {
            lemma_text_le_total(before[p as int], text);
            assert(text_le(text, before[p as int]));
        }
        assert forall|i: int, j: int| 0 <= i < j < after.len() implies text_le(#[trigger] after[i], #[trigger] after[j]) by {
            if j < p {
                assert(after[i] == before[i] && after[j] == before[j]);
            } else if j == p {
                assert(after[i] == before[i] && after[j] == text);
            } else {
                let bj = before[j - 1];
                assert(after[j] == bj);
                if j - 1 > p {
                    lemma_text_le_transitive(text, before[p as int], bj);
                }
                assert(text_le(text, bj));
                if i < p {
                    assert(after[i] == before[i]);
                    lemma_text_le_transitive(before[i], text, bj);
                } else if i == p {
                    assert(after[i] == text);
                } else {
                    assert(after[i] == before[i - 1]);
                }
            }
        }
    }
}

impl PhysicalProfile {
    /// The rules every stored profile keeps: the current schema, a valid
    /// role root, a nonzero port, and an address that fits the bind mode
    /// (a loopback address, or exactly a private-LAN endpoint).
    pub open spec fn valid(&self) -> bool {
        &&& self.schema_version == PROFILE_SCHEMA_VERSION
        &&& is_role_root(vstd::utf8::encode_utf8(self.role_root@))
        &&& self.bind.address.port != 0
        &&& match self.bind.mode {
            BindMode::Loopback => is_loopback_spec(self.bind.address.ip),
            BindMode::PrivateLan => is_private_lan_spec(self.bind.address),
        }
    }

    /// The error that validation reports for an invalid profile.
    pub open spec fn validation_error(&self) -> ProfileError {
        if self.schema_version != PROFILE_SCHEMA_VERSION {
            ProfileError::SchemaInvalid
        } else if !is_role_root(vstd::utf8::encode_utf8(self.role_root@)) {
            ProfileError::SchemaInvalid
        } else {
            ProfileError::AddressInvalid
        }
    }

    /// Checks the profile's rules.
    pub fn validate(&self) -> (result: Result<(), ProfileError>)
        ensures
            result is Ok <==> self.valid(),
            result is Err ==> result == Err::<(), ProfileError>(self.validation_error()),
    {
        if self.schema_version != PROFILE_SCHEMA_VERSION {
            return Err(ProfileError::SchemaInvalid);
        }
        validate_role_root(self.role_root.as_str())?;
        if self.bind.address.port == 0 {
            return Err(ProfileError::AddressInvalid);
        }
        let fits = match self.bind.mode {
            BindMode::Loopback => self.bind.address.ip.is_loopback(),
            BindMode::PrivateLan => is_exact_private_lan_address(&self.bind.address),
        };
        if fits {
            Ok(())
        } else {
            Err(ProfileError::AddressInvalid)
        }
    }

    /// A profile of the current schema, if it keeps the rules.
    pub fn new(
        role_root: String,
        mode: BindMode,
        address: SocketAddress,
        availability: ProfileAvailability,
        recording: ProfileRecording,
    ) -> (profile: Result<Self, ProfileError>)
        ensures
            ({
                let candidate = PhysicalProfile {
                    schema_version: PROFILE_SCHEMA_VERSION,
                    role_root,
                    bind: BindProfile { mode, address },
                    availability,
                    recording,
                };
                &&& candidate.valid() ==> profile == Ok::<PhysicalProfile, ProfileError>(candidate)
                &&& !candidate.valid() ==> profile == Err::<PhysicalProfile, ProfileError>(
                    candidate.validation_error(),
                )
            }),
    {
        let profile = PhysicalProfile {
            schema_version: PROFILE_SCHEMA_VERSION,
            role_root,
            bind: BindProfile { mode, address },
            availability,
            recording,
        };
        match profile.validate() {
            Ok(()) => Ok(profile),
            Err(error) => Err(error),
        }
    }
}

impl ProfileState {
    /// The state's name as the command line prints it.
    pub fn as_str(&self) -> (text: &'static str)
        ensures
            *self is Stopped ==> text@ == "stopped"@,
            *self is Running ==> text@ == "running"@,
            *self is ProfileMismatch ==> text@ == "profile_mismatch"@,
            *self is OwnerUnknown ==> text@ == "owner_unknown"@,
    {
        match self {
            ProfileState::Stopped => "stopped",
            ProfileState::Running => "running",
            ProfileState::ProfileMismatch => "profile_mismatch",
            ProfileState::OwnerUnknown => "owner_unknown",
        }
    }
}

impl ProfileError {
    /// The sentence the command line prints for the error.
    pub fn message(&self) -> (text: &'static str)
        ensures
            *self is NameInvalid ==> text@ == "profile name is invalid"@,
            *self is SchemaInvalid ==> text@ == "profile schema is invalid"@,
            *self is AddressInvalid ==> text@ == "profile address is invalid"@,
            *self is StoreUnsafe ==> text@ == "profile store is unsafe"@,
            *self is NotFound ==> text@ == "profile not found"@,
            *self is LimitExceeded ==> text@ == "profile limit exceeded"@,
            *self is OwnerBusy ==> text@ == "profile role has a live owner"@,
            *self is ProfileMismatch ==> text@ == "running owner does not match profile"@,
            *self is StaleGeneration ==> text@ == "owner generation changed before shutdown"@,
            *self is OwnerUnknown ==> text@ == "owner state is unknown"@,
            *self is PublicationUnknown ==> text@ == "profile publication is unknown"@,
            *self is ShutdownRejected ==> text@ == "owner rejected shutdown"@,
            *self is ShutdownTimeout ==> text@ == "owner shutdown timed out"@,
            *self is Runtime ==> text@ == "profile host runtime failed"@,
            *self is Io ==> text@ == "profile operation failed"@,
    {
        match self {
            ProfileError::NameInvalid => "profile name is invalid",
            ProfileError::SchemaInvalid => "profile schema is invalid",
            ProfileError::AddressInvalid => "profile address is invalid",
            ProfileError::StoreUnsafe => "profile store is unsafe",
            ProfileError::NotFound => "profile not found",
            ProfileError::LimitExceeded => "profile limit exceeded",
            ProfileError::OwnerBusy => "profile role has a live owner",
            ProfileError::ProfileMismatch => "running owner does not match profile",
            ProfileError::StaleGeneration => "owner generation changed before shutdown",
            ProfileError::OwnerUnknown => "owner state is unknown",
            ProfileError::PublicationUnknown => "profile publication is unknown",
            ProfileError::ShutdownRejected => "owner rejected shutdown",
            ProfileError::ShutdownTimeout => "owner shutdown timed out",
            ProfileError::Runtime(_) => "profile host runtime failed",
            ProfileError::Io => "profile operation failed",
        }
    }
}

/// The state root the local profile store uses.
pub const STATE_ROOT: &'static str = ".deskkin";

/// One entry of the profile directory as the caller read it: its file
/// name, `None` when the name is not text, and the outcome of checking the
/// file it names and loading the profile in it.
pub struct ProfileEntry {
    pub file_name: Option<String>,
    pub loaded: Result<(), ProfileError>,
}

/// The suffix of a stored profile's file name.
pub open spec fn json_suffix() -> Seq<char> {
    seq!['.', 'j', 's', 'o', 'n']
}

/// The profile name an entry stands for, or why the listing stops at it:
/// a name that is not text or does not end in `.json` makes the store
/// unsafe, an invalid profile name is `NameInvalid`, and a file that fails
/// its checks or does not load fails with that error.
pub open spec fn entry_outcome(file_name: Option<Seq<char>>, loaded: Result<(), ProfileError>) -> Result<
    Seq<char>,
    ProfileError,
> {
    match file_name {
        None => Err(ProfileError::StoreUnsafe),
        Some(name) => if name.len() < 5 || name.subrange(name.len() - 5, name.len() as int)
            != json_suffix() {
            Err(ProfileError::StoreUnsafe)
        } else {
            let stem = name.subrange(0, name.len() - 5);
            if !is_profile_name(stem) {
                Err(ProfileError::NameInvalid)
            } else {
                match loaded {
                    Err(error) => Err(error),
                    Ok(()) => Ok(stem),
                }
            }
        },
    }
}

/// The entries as plain values.
pub open spec fn entries_view(entries: Seq<ProfileEntry>) -> Seq<(Option<Seq<char>>, Result<(), ProfileError>)> {
    Seq::new(
        entries.len(),
        |i: int|
            (
                match entries[i].file_name {
                    Some(name) => Some(name@),
                    None => None,
                },
                entries[i].loaded,
            ),
    )
}

/// The names of the entries in directory order, or the error of the first
/// entry that stops the listing.
pub open spec fn listing(entries: Seq<(Option<Seq<char>>, Result<(), ProfileError>)>) -> Result<
    Seq<Seq<char>>,
    ProfileError,
>
    decreases entries.len(),
{
    if entries.len() == 0 {
        Ok(Seq::empty())
    } else {
        match entry_outcome(entries[0].0, entries[0].1) {
            Err(error) => Err(error),
            Ok(name) => match listing(entries.drop_first()) {
                Err(error) => Err(error),
                Ok(names) => Ok(seq![name] + names),
            },
        }
    }
}

proof fn lemma_profile_name_ascii(name: Seq<char>)
    requires
        is_profile_name(name),
    ensures
        vstd::utf8::is_ascii_chars(name),
{
    assert forall|i: int| 0 <= i < name.len() implies '\0' <= #[trigger] name[i] <= '\u{7f}' by {
        assert(('a' <= name[i] <= 'z') || ('0' <= name[i] <= '9') || name[i] == '-');
    }
}

fn entry_name(entry: &ProfileEntry) -> (name: Result<String, ProfileError>)
    ensures
        match name {
            Ok(text) => entry_outcome(
                match entry.file_name {
                    Some(n) => Some(n@),
                    None => None,
                },
                entry.loaded,
            ) == Ok::<Seq<char>, ProfileError>(text@),
            Err(error) => entry_outcome(
                match entry.file_name {
                    Some(n) => Some(n@),
                    None => None,
                },
                entry.loaded,
            ) == Err::<Seq<char>, ProfileError>(error),
        },
{
    let file_name = match &entry.file_name {
        None => {
            return Err(ProfileError::StoreUnsafe);
        },
        Some(file_name) => file_name.as_str(),
    };
    let len = file_name.unicode_len();
    if len < 5 {
        return Err(ProfileError::StoreUnsafe);
    }
    let ghost suffix = file_name@.subrange(len - 5, len as int);
    if !(file_name.get_char(len - 5) == '.' && file_name.get_char(len - 4) == 'j'
        && file_name.get_char(len - 3) == 's' && file_name.get_char(len - 2) == 'o'
        && file_name.get_char(len - 1) == 'n') {
        proof {
            if suffix == json_suffix() {
                assert(suffix[0] == '.' && suffix[1] == 'j' && suffix[2] == 's' && suffix[3] == 'o'
                    && suffix[4] == 'n');
            }
        }
        return Err(ProfileError::StoreUnsafe);
    }
    assert(suffix =~= json_suffix());
    let stem = file_name.substring_char(0, len - 5);
    validate_profile_name(stem)?;
    match entry.loaded {
        Err(error) => Err(error),
        Ok(()) => Ok(stem.to_owned()),
    }
}

/// The path of the profile file `name` in the directory `profiles`: the
/// name with `.json` appended, joined to the directory as a relative path
/// is (no separator after an empty directory or one that ends in `/`).
pub open spec fn profile_path_spec(profiles: Seq<char>, name: Seq<char>) -> Seq<char> {
    let file = name + json_suffix();
    if profiles.len() == 0 {
        file
    } else if profiles[profiles.len() - 1] == '/' {
        profiles + file
    } else {
        profiles.push('/') + file
    }
}

/// The path of a profile's file in the directory `profiles`; an invalid
/// profile name is `NameInvalid`.
pub fn profile_path(profiles: &String, name: &str) -> (path: Result<String, ProfileError>)
    ensures
        !is_profile_name(name@) ==> path == Err::<String, ProfileError>(ProfileError::NameInvalid),
        is_profile_name(name@) ==> (path matches Ok(text) && text@ == profile_path_spec(profiles@, name@)),
{
    validate_profile_name(name)?;
    let mut path = profiles.clone();
    let directory = profiles.as_str();
    let len = directory.unicode_len();
    if len > 0 && directory.get_char(len - 1) != '/' {
        crate::identity::push_char(&mut path, '/');
    }
    let ghost base = path@;
    let count = name.unicode_len();
    let mut i: usize = 0;
    while i < count
        invariant
            i <= count,
            count == name@.len(),
            path@ == base + name@.subrange(0, i as int),
        decreases count - i,
    {
        crate::identity::push_char(&mut path, name.get_char(i));
        assert(path@ =~= base + name@.subrange(0, i + 1));
        i += 1;
    }
    assert(name@.subrange(0, count as int) =~= name@);
    crate::identity::push_char(&mut path, '.');
    crate::identity::push_char(&mut path, 'j');
    crate::identity::push_char(&mut path, 's');
    crate::identity::push_char(&mut path, 'o');
    crate::identity::push_char(&mut path, 'n');
    assert(path@ =~= profile_path_spec(profiles@, name@));
    Ok(path)
}

/// A profile store rooted at a state directory.
pub struct ProfileStore {
    state_root: String,
}

impl ProfileStore {
    /// The state directory.
    pub closed spec fn root(&self) -> Seq<char> {
        self.state_root@
    }

    /// A store rooted at `state_root`.
    pub fn at(state_root: String) -> (store: Self)
        ensures
            store.root() == state_root@,
    {
        ProfileStore { state_root }
    }

    /// The store of the current directory, rooted at `STATE_ROOT`.
    pub fn local() -> (store: Self)
        ensures
            store.root() == STATE_ROOT@,
    {
        ProfileStore { state_root: STATE_ROOT.to_owned() }
    }

    /// The state directory.
    pub fn state_root(&self) -> (root: &String)
        ensures
            root@ == self.root(),
    {
        &self.state_root
    }

    /// The profile names, sorted, from the entries of the store's profile
    /// directory in the order the directory gave them: the first entry that
    /// stops the listing gives its error, and more than `PROFILE_LIMIT`
    /// profiles are `LimitExceeded`.
    pub fn list(&self, entries: &Vec<ProfileEntry>) -> (names: Result<Vec<String>, ProfileError>)
        ensures
            listing(entries_view(entries@)) matches Err(error) ==> names == Err::<
                Vec<String>,
                ProfileError,
            >(error),
            listing(entries_view(entries@)) matches Ok(found) ==> if found.len() > PROFILE_LIMIT {
                names == Err::<Vec<String>, ProfileError>(ProfileError::LimitExceeded)
            } else {
                names matches Ok(sorted) && texts_sorted(texts_of(sorted@)) && texts_of(
                    sorted@,
                ).to_multiset() == found.to_multiset()
            },
    {
        let ghost all = entries_view(entries@);
        assert(all.subrange(0, all.len() as int) =~= all);
        let mut found: Vec<String> = Vec::new();
        let mut i: usize = 0;
        while i < entries.len()
            invariant
                i <= entries@.len(),
                all == entries_view(entries@),
                forall|k: int| 0 <= k < found@.len() ==> is_profile_name(#[trigger] found@[k]@),
                listing(all) == match listing(all.subrange(i as int, all.len() as int)) {
                    Err(error) => Err(error),
                    Ok(names) => Ok(texts_of(found@) + names),
                },
            decreases entries@.len() - i,
        {
            let ghost rest = all.subrange(i as int, all.len() as int);
            assert(rest[0] == all[i as int]);
            assert(rest.drop_first() =~= all.subrange(i + 1, all.len() as int));
            let name = entry_name(&entries[i]);
            match name {
                Err(error) => {
                    return Err(error);
                },
                Ok(text) => {
                    let ghost before = texts_of(found@);
                    found.push(text);
                    proof {
                        assert(texts_of(found@) =~= before.push(text@));
                        assert forall|names: Seq<Seq<char>>| #[trigger] (before + (seq![text@] + names))
                            =~= texts_of(found@) + names by {}
                    }
                },
            }
            i += 1;
        }
        assert(all.subrange(all.len() as int, all.len() as int).len() == 0);
        assert(texts_of(found@) + Seq::<Seq<char>>::empty() =~= texts_of(found@));
        if found.len() > PROFILE_LIMIT {
            return Err(ProfileError::LimitExceeded);
        }
        let ghost found_texts = texts_of(found@);
        let mut sorted: Vec<String> = Vec::new();
        let mut remaining = found;
        proof {
            assert(texts_of(sorted@) =~= Seq::<Seq<char>>::empty());
            assert(Seq::<Seq<char>>::empty().to_multiset() =~= vstd::multiset::Multiset::<Seq<char>>::empty()) by {
                broadcast use vstd::seq_lib::group_to_multiset_ensures;
            }
        }
        while remaining.len() > 0
            invariant
                texts_sorted(texts_of(sorted@)),
                forall|k: int| 0 <= k < sorted@.len() ==> vstd::utf8::is_ascii_chars(#[trigger] sorted@[k]@),
                forall|k: int| 0 <= k < remaining@.len() ==> is_profile_name(#[trigger] remaining@[k]@),
                texts_of(sorted@).to_multiset().add(texts_of(remaining@).to_multiset())
                    == found_texts.to_multiset(),
            decreases remaining@.len(),
        {
            let ghost rem_before = texts_of(remaining@);
            let ghost sorted_before = texts_of(sorted@);
            let next = remaining.pop().unwrap();
            proof {
                assert(is_profile_name(next@));
                lemma_profile_name_ascii(next@);
                assert(rem_before =~= texts_of(remaining@).push(next@));
                vstd::seq_lib::to_multiset_build(texts_of(remaining@), next@);
            }
            insert_sorted(&mut sorted, next);
            proof {
                let m_sorted = sorted_before.to_multiset();
                let m_rest = texts_of(remaining@).to_multiset();
                assert(texts_of(sorted@).to_multiset().add(m_rest) =~= m_sorted.insert(next@).add(m_rest));
                assert(m_sorted.add(m_rest.insert(next@)) =~= m_sorted.insert(next@).add(m_rest));
            }
        }
        proof {
            assert(texts_of(remaining@) =~= Seq::<Seq<char>>::empty());
            assert(texts_of(remaining@).to_multiset() =~= vstd::multiset::Multiset::<Seq<char>>::empty()) by {
                broadcast use vstd::seq_lib::group_to_multiset_ensures;
            }
            assert(texts_of(sorted@).to_multiset().add(vstd::multiset::Multiset::<Seq<char>>::empty()) =~= texts_of(sorted@).to_multiset());
        }
        Ok(sorted)
    }
}

/// What the store reads of a path's metadata, the path itself not followed:
/// whether it is a symbolic link, a regular file or a directory, its
/// permission bits and its length in bytes.
#[derive(Clone, Copy, Debug, PartialEq, Eq)]
pub struct PathFacts {
    pub symlink: bool,
    pub file: bool,
    pub directory: bool,
    pub mode: u32,
    pub len: u64,
}

/// Whether a stored profile file may be read: a regular file, no symbolic
/// link, readable and writable by its owner alone, and within
/// `PROFILE_BYTES_MAX`.
pub open spec fn profile_file_is_safe(facts: PathFacts) -> bool {
    !facts.symlink && facts.file && facts.mode & 0o777 == 0o600 && facts.len <= PROFILE_BYTES_MAX
}

/// Checks a stored profile file's metadata; an unsafe file is `StoreUnsafe`.
pub fn check_profile_file(facts: &PathFacts) -> (result: Result<(), ProfileError>)
    ensures
        result == if profile_file_is_safe(*facts) {
            Ok::<(), ProfileError>(())
        } else {
            Err(ProfileError::StoreUnsafe)
        },
{
    if facts.symlink || !facts.file || facts.mode & 0o777 != 0o600 || facts.len > PROFILE_BYTES_MAX {
        return Err(ProfileError::StoreUnsafe);
    }
    Ok(())
}

/// Whether a directory of the store may be used: a directory, no symbolic
/// link, open to its owner alone.
pub open spec fn private_directory_is_safe(facts: PathFacts) -> bool {
    !facts.symlink && facts.directory && facts.mode & 0o777 == 0o700
}

/// Checks the metadata of one of the store's private directories; an unsafe
/// directory is `StoreUnsafe`.
pub fn check_private_directory(facts: &PathFacts) -> (result: Result<(), ProfileError>)
    ensures
        result == if private_directory_is_safe(*facts) {
            Ok::<(), ProfileError>(())
        } else {
            Err(ProfileError::StoreUnsafe)
        },
{
    if facts.symlink || !facts.directory || facts.mode & 0o777 != 0o700 {
        return Err(ProfileError::StoreUnsafe);
    }
    Ok(())
}

impl ProfileStore {
    /// Whether a profile may be published under a name: a new name needs
    /// room under `PROFILE_LIMIT` beside the `stored` profiles, and the
    /// encoded profile, its closing newline included, must fit in
    /// `PROFILE_BYTES_MAX`.
    pub fn check_publication(&self, replaces: bool, stored: usize, encoded_len: usize) -> (result: Result<
        (),
        ProfileError,
    >)
        ensures
            result == if !replaces && stored >= PROFILE_LIMIT {
                Err(ProfileError::LimitExceeded)
            } else if encoded_len > PROFILE_BYTES_MAX {
                Err(ProfileError::SchemaInvalid)
            } else {
                Ok::<(), ProfileError>(())
            },
    {
        if !replaces && stored >= PROFILE_LIMIT {
            return Err(ProfileError::LimitExceeded);
        }
        if encoded_len as u64 > PROFILE_BYTES_MAX {
            return Err(ProfileError::SchemaInvalid);
        }
        Ok(())
    }
}

} // verus!
