//! What holds of conditional writes, whoever makes them.

use super::memory::MemoryRepository;
use super::models::{BucketId, StoredBucket, StoredModel};
use super::{BucketRepository, RepositoryError};
use crate::limiter::models::BucketModel;
use crate::limiter::BucketState;
use vstd::prelude::*;

verus! {

/// The buckets after a conditional write to `key`: a write that is not carried
/// out changes nothing.
pub open spec fn after_write(
    buckets: Map<Seq<char>, StoredModel>,
    key: Seq<char>,
    state: BucketModel,
    expected_version: Option<nat>,
    expires_at: nat,
) -> Map<Seq<char>, StoredModel> {
    match super::replacement(super::bucket_at(buckets, key), state, expected_version, expires_at) {
        Some(stored) => buckets.insert(key, stored),
        None => buckets,
    }
}

/// A read after a write gives back what was written: the state and the
/// expiration, under the following version.
pub proof fn law_read_gives_back_the_write(
    buckets: Map<Seq<char>, StoredModel>,
    key: Seq<char>,
    state: BucketModel,
    expected_version: Option<nat>,
    expires_at: nat,
)
    requires
        super::version_of(super::bucket_at(buckets, key)) == expected_version,
        super::following_version(expected_version) is Some,
    ensures
        super::bucket_at(
            after_write(buckets, key, state, expected_version, expires_at),
            key,
        ) == Some(
            StoredModel {
                state,
                version: super::following_version(expected_version)->0,
                expires_at_epoch_seconds: expires_at,
            },
        ),
{
}

/// A write to one bucket leaves every other bucket as it was.
pub proof fn law_buckets_are_isolated(
    buckets: Map<Seq<char>, StoredModel>,
    key: Seq<char>,
    other_key: Seq<char>,
    state: BucketModel,
    expected_version: Option<nat>,
    expires_at: nat,
)
    requires
        key != other_key,
    ensures
        super::bucket_at(
            after_write(buckets, key, state, expected_version, expires_at),
            other_key,
        ) == super::bucket_at(buckets, other_key),
{
}

/// Of two writes that expect the same version only the first is carried out.
pub proof fn law_stale_version_is_rejected(
    current: Option<StoredModel>,
    expected_version: Option<nat>,
    first_state: BucketModel,
    first_expires_at: nat,
    second_state: BucketModel,
    second_expires_at: nat,
)
    requires
        super::replacement(current, first_state, expected_version, first_expires_at) is Some,
    ensures
        super::replacement(
            super::replacement(current, first_state, expected_version, first_expires_at),
            second_state,
            expected_version,
            second_expires_at,
        ) is None,
{
}

/// A load after a write of the same bucket gives back the state and the expiration
/// that were written, under the first version for a new bucket and the next one for
/// another, and a load of another bucket gives what it gave before.
pub proof fn law_load_gives_back_what_was_written<R: BucketRepository>(
    writing: &mut R,
    reading: &mut R,
    reading_other: &mut R,
    id: BucketId,
    other: BucketId,
    state: BucketState,
    expected_version: Option<u64>,
    expires_at: u64,
    stored: StoredBucket,
    found: Option<StoredBucket>,
    found_other: Option<StoredBucket>,
)
    requires
        call_ensures(
            R::compare_and_set,
            (writing, &id, state, expected_version, expires_at),
            Ok(stored),
        ),
        *old(reading) == *final(writing),
        call_ensures(R::load, (reading, &id), Ok(found)),
        *old(reading_other) == *final(writing),
        call_ensures(R::load, (reading_other, &other), Ok(found_other)),
        id@ != other@,
    ensures
        found matches Some(bucket) && bucket@ == stored@,
        stored@.state == state@,
        stored@.expires_at_epoch_seconds == expires_at,
        stored@.version == (match expected_version {
            Some(version) => version + 1,
            None => 0,
        }),
        match found_other {
            Some(bucket) => old(writing).buckets().contains_key(other@) && bucket@
                == old(writing).buckets()[other@],
            None => !old(writing).buckets().contains_key(other@),
        },
{
}

/// The store in memory starts without buckets and carries out every operation: a
/// write fails exactly if the version is not the expected one or cannot be counted
/// up, then by a conflict that leaves everything as it was.
pub proof fn law_memory_fails_only_by_conflict(
    fresh: MemoryRepository,
    writing: &mut MemoryRepository,
    reading: &mut MemoryRepository,
    id: BucketId,
    state: BucketState,
    expected_version: Option<u64>,
    expires_at: u64,
    written: Result<StoredBucket, RepositoryError>,
    loaded: Result<Option<StoredBucket>, RepositoryError>,
)
    requires
        call_ensures(MemoryRepository::new, (), fresh),
        call_ensures(
            MemoryRepository::compare_and_set,
            (writing, &id, state, expected_version, expires_at),
            written,
        ),
        call_ensures(MemoryRepository::load, (reading, &id), loaded),
    ensures
        forall|key: Seq<char>| !(#[trigger] fresh.buckets().contains_key(key)),
        written is Ok <==> (match expected_version {
            None => !old(writing).buckets().contains_key(id@),
            Some(version) => old(writing).buckets().contains_key(id@)
                && old(writing).buckets()[id@].version == version && version
                < 0xffff_ffff_ffff_ffff,
        }),
        written matches Err(error) ==> error is Conflict && final(writing).buckets() == old(
            writing,
        ).buckets(),
        loaded matches Ok(found) && (match found {
            Some(bucket) => old(reading).buckets().contains_key(id@) && bucket@
                == old(reading).buckets()[id@],
            None => !old(reading).buckets().contains_key(id@),
        }),
        final(reading).buckets() == old(reading).buckets(),
{
}

/// The messages of failures give what they are about.
pub proof fn law_repository_messages_give_their_details(
    field: &'static str,
    operation: &'static str,
    text: String,
    invalid: String,
    schema: String,
    failed: String,
)
    requires
        call_ensures(
            RepositoryError::message,
            (&RepositoryError::InvalidItem { field },),
            invalid,
        ),
        call_ensures(RepositoryError::message, (&RepositoryError::Schema(text),), schema),
        call_ensures(
            RepositoryError::message,
            (&RepositoryError::Operation { operation, message: text },),
            failed,
        ),
    ensures
        invalid@ == "stored bucket is missing or contains an invalid "@ + field@ + " attribute"@,
        schema@ == "failed to construct DynamoDB schema: "@ + text@,
        failed@ == "DynamoDB operation "@ + operation@ + " failed: "@ + text@,
{
}

/// The failure of an operation names the operation and tells what the failure
/// displays.
pub proof fn law_failed_operation_is_named<E: std::fmt::Display>(
    operation: &'static str,
    error: E,
    res: RepositoryError,
)
    requires
        call_ensures(RepositoryError::operation::<E>, (operation, error), res),
    ensures
        res matches RepositoryError::Operation { operation: name, message } && name == operation
            && vstd::string::to_string_from_display_ensures::<E>(&error, message),
{
}

} // verus!
