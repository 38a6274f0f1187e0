use crate::limiter::models::BucketModel;
use crate::limiter::BucketState;
use sha2::{Digest, Sha256};
use vstd::prelude::*;
use vstd::string::*;
use vstd::utf8::*;

verus! {

pub const MAX_POLICY_LENGTH: usize = 64;

pub const MAX_CLIENT_KEY_LENGTH: usize = 256;

#[derive(Clone, Copy, Debug, PartialEq, Eq, Structural)]
pub enum BucketIdError {
    EmptyPolicy,
    PolicyTooLong,
    InvalidPolicy,
    EmptyClientKey,
    ClientKeyTooLong,
}

/// What a reader is told of an error.
pub open spec fn bucket_id_error_text(error: BucketIdError) -> Seq<char> {
    match error {
        BucketIdError::EmptyPolicy => "policy name cannot be empty"@,
        BucketIdError::PolicyTooLong => "policy name must contain at most 64 bytes"@,
        BucketIdError::InvalidPolicy =>
            "policy name may contain only ASCII letters, digits, underscores, and hyphens"@,
        BucketIdError::EmptyClientKey => "client key cannot be empty"@,
        BucketIdError::ClientKeyTooLong => "client key must contain at most 256 bytes"@,
    }
}

impl BucketIdError {
    pub fn message(&self) -> (res: String)
        ensures
            res@ == bucket_id_error_text(*self),
    {
        let text: &str = match self {
            BucketIdError::EmptyPolicy => "policy name cannot be empty",
            BucketIdError::PolicyTooLong => "policy name must contain at most 64 bytes",
            BucketIdError::InvalidPolicy =>
                "policy name may contain only ASCII letters, digits, underscores, and hyphens",
            BucketIdError::EmptyClientKey => "client key cannot be empty",
            BucketIdError::ClientKeyTooLong => "client key must contain at most 256 bytes",
        };
        text.to_owned()
    }
}

/// ASCII letters, digits, underscores and hyphens.
pub open spec fn is_policy_char(c: char) -> bool {
    ||| 'a' <= c && c <= 'z'
    ||| 'A' <= c && c <= 'Z'
    ||| '0' <= c && c <= '9'
    ||| c == '_'
    ||| c == '-'
}

pub open spec fn only_policy_chars(policy: Seq<char>) -> bool {
    forall|i: int| 0 <= i < policy.len() ==> is_policy_char(#[trigger] policy[i])
}

/// What is wrong with a policy name, if anything. Lengths are in bytes of UTF-8.
pub open spec fn policy_name_error(policy: Seq<char>) -> Option<BucketIdError> {
    if policy.len() == 0 {
        Some(BucketIdError::EmptyPolicy)
    } else if encode_utf8(policy).len() > MAX_POLICY_LENGTH {
        Some(BucketIdError::PolicyTooLong)
    } else if !only_policy_chars(policy) {
        Some(BucketIdError::InvalidPolicy)
    } else {
        None
    }
}

/// What is wrong with a policy name and a client key, if anything.
pub open spec fn bucket_id_error(policy: Seq<char>, client_key: Seq<char>) -> Option<
    BucketIdError,
> {
    if policy_name_error(policy) is Some {
        policy_name_error(policy)
    } else if client_key.len() == 0 {
        Some(BucketIdError::EmptyClientKey)
    } else if encode_utf8(client_key).len() > MAX_CLIENT_KEY_LENGTH {
        Some(BucketIdError::ClientKeyTooLong)
    } else {
        None
    }
}

/// A hexadecimal digit, in lower case.
pub open spec fn hex_digit(value: int) -> char {
    if value < 10 {
        ('0' as int + value) as char
    } else {
        ('a' as int + value - 10) as char
    }
}

/// Bytes in hexadecimal: two digits for each, the high half first.
pub open spec fn hex_text(bytes: Seq<u8>) -> Seq<char> {
    Seq::new(
        2 * bytes.len(),
        |i: int|
            if i % 2 == 0 {
                hex_digit(bytes[i / 2] as int / 16)
            } else {
                hex_digit(bytes[i / 2] as int % 16)
            },
    )
}

/// The SHA-256 digest of some bytes.
pub uninterp spec fn sha256_digest(data: Seq<u8>) -> Seq<u8>;

/// The storage key of a policy and the digest of a client key.
pub open spec fn storage_key_text(policy: Seq<char>, digest: Seq<u8>) -> Seq<char> {
    "RATE#"@ + policy + "#"@ + hex_text(digest)
}

/// The storage key of a policy and a client key.
pub open spec fn bucket_key(policy: Seq<char>, client_key: Seq<char>) -> Seq<char> {
    storage_key_text(policy, sha256_digest(encode_utf8(client_key)))
}

/// Calls `Sha256::digest` of the `sha2` crate. The contract claims only that the
/// 32 bytes of the result are determined by the data. The length of the data in
/// bits is counted in 64 bits, so longer data is left out.
#[verifier::external_body]
fn sha256(data: &[u8]) -> (res: [u8; 32])
    requires
        data@.len() < 0x2000_0000_0000_0000,
    ensures
        res@ == sha256_digest(data@),
{
    Sha256::digest(data).into()
}

/// Calls `encode` of the `hex` crate, which writes each byte as two lower-case
/// hexadecimal digits. A result too long to be held in memory is left out.
#[verifier::external_body]
fn hex_encode(data: &[u8]) -> (res: String)
    requires
        2 * data@.len() <= isize::MAX,
    ensures
        res@ == hex_text(data@),
{
    hex::encode(data)
}

fn policy_char(c: char) -> (res: bool)
    ensures
        res == is_policy_char(c),
{
    ('a' <= c && c <= 'z') || ('A' <= c && c <= 'Z') || ('0' <= c && c <= '9') || c == '_' || c
        == '-'
}

fn check_policy_name(policy: &str) -> (res: Result<(), BucketIdError>)
    ensures
        match res {
            Ok(()) => policy_name_error(policy@) is None,
            Err(error) => policy_name_error(policy@) == Some(error),
        },
{
    if policy.is_empty() {
        return Err(BucketIdError::EmptyPolicy);
    }
    if policy.as_bytes().len() > MAX_POLICY_LENGTH {
        return Err(BucketIdError::PolicyTooLong);
    }
    let chars = crate::text::chars_of(policy);
    let mut i: usize = 0;
    while i < chars.len()
        invariant
            i <= chars.len(),
            chars@ == policy@,
            policy@.len() > 0,
            encode_utf8(policy@).len() <= MAX_POLICY_LENGTH,
            forall|j: int| 0 <= j < i ==> is_policy_char(#[trigger] policy@[j]),
        decreases chars.len() - i,
    {
        if !policy_char(chars[i]) {
            assert(!is_policy_char(policy@[i as int]));
            return Err(BucketIdError::InvalidPolicy);
        }
        i = i + 1;
    }
    Ok(())
}

/// Collision-resistant, privacy-conscious identifier for one bucket.
#[derive(Clone, Debug, Eq, Hash, PartialEq)]
pub struct BucketId {
    storage_key: String,
}

impl View for BucketId {
    type V = Seq<char>;

    closed spec fn view(&self) -> Seq<char> {
        self.storage_key@
    }
}

impl BucketId {
    /// Names the bucket of a client under a policy. The client key is kept only
    /// as a digest.
    pub fn new(policy: &str, client_key: &str) -> (res: Result<BucketId, BucketIdError>)
        ensures
            match res {
                Ok(id) => {
                    &&& bucket_id_error(policy@, client_key@) is None
                    &&& id@ == bucket_key(policy@, client_key@)
                    &&& sha256_digest(encode_utf8(client_key@)).len() == 32
                },
                Err(error) => bucket_id_error(policy@, client_key@) == Some(error),
            },
    {
        match check_policy_name(policy) {
            Ok(()) => {},
            Err(error) => {
                return Err(error);
            },
        }
        if client_key.is_empty() {
            return Err(BucketIdError::EmptyClientKey);
        }
        if client_key.as_bytes().len() > MAX_CLIENT_KEY_LENGTH {
            return Err(BucketIdError::ClientKeyTooLong);
        }
        let digest = sha256(client_key.as_bytes());
        BucketId::from_digest(policy, &digest)
    }

    /// Names the bucket of a client, known by the digest of its key, under a
    /// policy.
    pub fn from_digest(policy: &str, digest: &[u8; 32]) -> (res: Result<BucketId, BucketIdError>)
        ensures
            match res {
                Ok(id) => policy_name_error(policy@) is None && id@ == storage_key_text(
                    policy@,
                    digest@,
                ),
                Err(error) => policy_name_error(policy@) == Some(error),
            },
    {
        match check_policy_name(policy) {
            Ok(()) => {},
            Err(error) => {
                return Err(error);
            },
        }
        let mut storage_key = "RATE#".to_owned();
        storage_key.append(policy);
        storage_key.append("#");
        storage_key.append(hex_encode(digest.as_slice()).as_str());
        Ok(BucketId { storage_key })
    }

    pub fn storage_key(&self) -> (res: &str)
        ensures
            res@ == self@,
    {
        self.storage_key.as_str()
    }
}

/// A stored bucket, as numbers without bound.
pub struct StoredModel {
    pub state: BucketModel,
    pub version: nat,
    pub expires_at_epoch_seconds: nat,
}

/// Bucket state plus storage metadata used for optimistic concurrency and TTL.
#[derive(Clone, Copy, Debug, PartialEq, Eq, Structural)]
pub struct StoredBucket {
    state: BucketState,
    version: u64,
    expires_at_epoch_seconds: u64,
}

impl View for StoredBucket {
    type V = StoredModel;

    closed spec fn view(&self) -> StoredModel {
        StoredModel {
            state: self.state@,
            version: self.version as nat,
            expires_at_epoch_seconds: self.expires_at_epoch_seconds as nat,
        }
    }
}

impl StoredBucket {
    pub(crate) fn new(state: BucketState, version: u64, expires_at_epoch_seconds: u64) -> (res:
        StoredBucket)
        ensures
            res@ == (StoredModel {
                state: state@,
                version: version as nat,
                expires_at_epoch_seconds: expires_at_epoch_seconds as nat,
            }),
    {
        StoredBucket { state, version, expires_at_epoch_seconds }
    }

    pub fn state(&self) -> (res: BucketState)
        ensures
            res@ == self@.state,
    {
        self.state
    }

    pub fn version(&self) -> (res: u64)
        ensures
            res == self@.version,
    {
        self.version
    }

    pub fn expires_at_epoch_seconds(&self) -> (res: u64)
        ensures
            res == self@.expires_at_epoch_seconds,
    {
        self.expires_at_epoch_seconds
    }
}

/// Two storage keys are the same only for the same policy and the same digest:
/// no policy shares a bucket with another, whatever the client keys.
pub proof fn law_storage_key_identifies_policy_and_digest(
    policy: Seq<char>,
    digest: Seq<u8>,
    other_policy: Seq<char>,
    other_digest: Seq<u8>,
)
    requires
        policy_name_error(policy) is None,
        policy_name_error(other_policy) is None,
        storage_key_text(policy, digest) == storage_key_text(other_policy, other_digest),
    ensures
        policy == other_policy,
        digest == other_digest,
{
    reveal_strlit("RATE#");
    reveal_strlit("#");
    let left = storage_key_text(policy, digest);
    let right = storage_key_text(other_policy, other_digest);
    let n = policy.len() as int;
    let m = other_policy.len() as int;
    assert(left[5 + n] == '#');
    assert(right[5 + m] == '#');
    assert(forall|i: int| 0 <= i < n ==> left[5 + i] == policy[i]);
    assert(forall|i: int| 0 <= i < m ==> right[5 + i] == other_policy[i]);
    if n < m {
        assert(right[5 + n] == other_policy[n]);
        assert(is_policy_char(other_policy[n]));
    } else if m < n {
        assert(left[5 + m] == policy[m]);
        assert(is_policy_char(policy[m]));
    }
    assert forall|i: int| 0 <= i < n implies policy[i] == other_policy[i] by {
        assert(left[5 + i] == policy[i]);
        assert(right[5 + i] == other_policy[i]);
    }
    assert(policy =~= other_policy);
    let a = hex_text(digest);
    let b = hex_text(other_digest);
    assert(left.skip(6 + n) =~= a);
    assert(right.skip(6 + n) =~= b);
    assert(digest.len() == other_digest.len());
    assert forall|i: int| 0 <= i < digest.len() implies digest[i] == other_digest[i] by {
        assert(a[2 * i] == b[2 * i]);
        assert(a[2 * i + 1] == b[2 * i + 1]);
        assert(a[2 * i] == hex_digit(digest[i] as int / 16));
        assert(b[2 * i] == hex_digit(other_digest[i] as int / 16));
    }
    assert(digest =~= other_digest);
}

/// What a policy name and a client key are refused for: a name is one to 64 bytes of
/// ASCII letters, digits, underscores and hyphens, and a key is one to 256 bytes of
/// anything. Everything else names a bucket, and the name is looked at first.
pub proof fn law_names_and_keys_are_refused_by_length_and_letters(
    policy: &str,
    client_key: &str,
    res: Result<BucketId, BucketIdError>,
)
    requires
        call_ensures(BucketId::new, (policy, client_key), res),
    ensures
        ({
            let name_bytes = encode_utf8(policy@).len();
            let key_bytes = encode_utf8(client_key@).len();
            let plain = forall|i: int|
                0 <= i < policy@.len() ==> ({
                    let code = #[trigger] policy@[i] as int;
                    ||| 48 <= code <= 57
                    ||| 65 <= code <= 90
                    ||| 97 <= code <= 122
                    ||| code == 45
                    ||| code == 95
                });
            let named = 1 <= name_bytes <= 64 && plain;
            &&& res is Ok <==> named && 1 <= key_bytes <= 256
            &&& (res matches Err(BucketIdError::EmptyPolicy)) <==> name_bytes == 0
            &&& (res matches Err(BucketIdError::PolicyTooLong)) <==> name_bytes > 64
            &&& (res matches Err(BucketIdError::InvalidPolicy)) <==> 1 <= name_bytes <= 64 && !plain
            &&& (res matches Err(BucketIdError::EmptyClientKey)) <==> named && key_bytes == 0
            &&& (res matches Err(BucketIdError::ClientKeyTooLong)) <==> named && key_bytes > 256
        }),
{
    lemma_no_bytes(policy@);
    lemma_no_bytes(client_key@);
    let plain = forall|i: int|
        0 <= i < policy@.len() ==> ({
            let code = #[trigger] policy@[i] as int;
            ||| 48 <= code <= 57
            ||| 65 <= code <= 90
            ||| 97 <= code <= 122
            ||| code == 45
            ||| code == 95
        });
    if plain {
        assert(only_policy_chars(policy@));
    }
    if only_policy_chars(policy@) {
        assert forall|i: int| 0 <= i < policy@.len() implies ({
            let code = #[trigger] policy@[i] as int;
            ||| 48 <= code <= 57
            ||| 65 <= code <= 90
            ||| 97 <= code <= 122
            ||| code == 45
            ||| code == 95
        }) by {
            assert(is_policy_char(policy@[i]));
        }
    }
}

/// Only the empty text has no bytes.
proof fn lemma_no_bytes(s: Seq<char>)
    ensures
        encode_utf8(s).len() == 0 <==> s.len() == 0,
{
    encode_utf8_decode_utf8(s);
    encode_utf8_decode_utf8(Seq::<char>::empty());
    reveal_with_fuel(encode_utf8, 2);
    assert(encode_utf8(Seq::<char>::empty()) =~= Seq::<u8>::empty());
    if s.len() == 0 {
        assert(s =~= Seq::<char>::empty());
    }
    if encode_utf8(s).len() == 0 {
        assert(encode_utf8(s) =~= Seq::<u8>::empty());
    }
}

/// The storage key spells the policy name and the SHA-256 digest of the client key:
/// `RATE#`, the name, `#`, and two lower-case hexadecimal digits for each byte.
pub proof fn law_storage_key_spells_the_digest(
    policy: &str,
    client_key: &str,
    id: BucketId,
    key: &str,
)
    requires
        call_ensures(BucketId::new, (policy, client_key), Ok(id)),
        call_ensures(BucketId::storage_key, (&id,), key),
    ensures
        ({
            let digest = sha256_digest(encode_utf8(client_key@));
            let start = 6 + policy@.len();
            let value = |c: char|
                if 48 <= c as int <= 57 {
                    c as int - 48
                } else if 97 <= c as int <= 102 {
                    c as int - 87
                } else {
                    -1
                };
            &&& digest.len() == 32
            &&& key@.len() == policy@.len() + 70
            &&& key@.take(5) == "RATE#"@
            &&& key@.subrange(5, 5int + policy@.len()) == policy@
            &&& key@[start - 1] == '#'
            &&& forall|i: int|
                0 <= i < 32 ==> {
                    &&& 0 <= value(key@[start + 2 * i])
                    &&& 0 <= value(key@[start + 2 * i + 1])
                    &&& value(key@[start + 2 * i]) * 16 + value(key@[start + 2 * i + 1])
                        == #[trigger] digest[i]
                }
        }),
{
    let digest = sha256_digest(encode_utf8(client_key@));
    lemma_spelling(policy@, digest);
}

/// The same of a digest that is given.
pub proof fn law_given_digest_is_spelled(
    policy: &str,
    client_key: &str,
    digest: [u8; 32],
    id: BucketId,
    named: BucketId,
)
    requires
        call_ensures(BucketId::from_digest, (policy, &digest), Ok(id)),
        call_ensures(BucketId::new, (policy, client_key), Ok(named)),
    ensures
        digest@ == sha256_digest(encode_utf8(client_key@)) <==> id@ == named@,
{
    let other = sha256_digest(encode_utf8(client_key@));
    if id@ == named@ {
        law_storage_key_identifies_policy_and_digest(policy@, digest@, policy@, other);
    }
}

proof fn lemma_spelling(policy: Seq<char>, digest: Seq<u8>)
    ensures
        ({
            let key = storage_key_text(policy, digest);
            let start = 6 + policy.len();
            let value = |c: char|
                if 48 <= c as int <= 57 {
                    c as int - 48
                } else if 97 <= c as int <= 102 {
                    c as int - 87
                } else {
                    -1
                };
            &&& key.len() == policy.len() + 6 + 2 * digest.len()
            &&& key.take(5) == "RATE#"@
            &&& key.subrange(5, 5int + policy.len()) == policy
            &&& key[start - 1] == '#'
            &&& forall|i: int|
                0 <= i < digest.len() ==> {
                    &&& 0 <= value(key[start + 2 * i])
                    &&& 0 <= value(key[start + 2 * i + 1])
                    &&& value(key[start + 2 * i]) * 16 + value(key[start + 2 * i + 1])
                        == #[trigger] digest[i]
                }
        }),
{
    reveal_strlit("RATE#");
    reveal_strlit("#");
    let key = storage_key_text(policy, digest);
    let start = 6 + policy.len();
    let hex = hex_text(digest);
    assert("RATE#"@.len() == 5);
    assert("#"@.len() == 1);
    assert(key.take(5) =~= "RATE#"@);
    assert(key.subrange(5, 5int + policy.len()) =~= policy);
    let value = |c: char|
        if 48 <= c as int <= 57 {
            c as int - 48
        } else if 97 <= c as int <= 102 {
            c as int - 87
        } else {
            -1
        };
    assert forall|i: int| 0 <= i < digest.len() implies {
        &&& 0 <= value(key[start + 2 * i])
        &&& 0 <= value(key[start + 2 * i + 1])
        &&& value(key[start + 2 * i]) * 16 + value(key[start + 2 * i + 1]) == #[trigger] digest[i]
    } by {
        let byte = digest[i] as int;
        assert(key[start + 2 * i] == hex[2 * i]);
        assert(key[start + 2 * i + 1] == hex[2 * i + 1]);
        assert((2 * i + 1) / 2 == i);
        assert(hex[2 * i] == hex_digit(byte / 16));
        assert(hex[2 * i + 1] == hex_digit(byte % 16));
        assert(0 <= byte / 16 <= 15);
    }
}

/// A stored bucket is told as it is.
pub proof fn law_stored_bucket_is_told_as_it_is(
    bucket: StoredBucket,
    state: BucketState,
    version: u64,
    expires_at_epoch_seconds: u64,
)
    requires
        call_ensures(StoredBucket::state, (&bucket,), state),
        call_ensures(StoredBucket::version, (&bucket,), version),
        call_ensures(
            StoredBucket::expires_at_epoch_seconds,
            (&bucket,),
            expires_at_epoch_seconds,
        ),
    ensures
        bucket@ == (StoredModel {
            state: state@,
            version: version as nat,
            expires_at_epoch_seconds: expires_at_epoch_seconds as nat,
        }),
{
}

} // verus!
