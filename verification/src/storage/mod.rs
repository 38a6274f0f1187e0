//! Persistence boundary for rate-limit bucket state.

pub mod dynamodb;
pub mod laws;
pub mod memory;
pub mod models;

use crate::limiter::models::BucketModel;
use crate::limiter::BucketState;
use vstd::prelude::*;
use vstd::string::*;

pub use memory::MemoryRepository;
pub use models::{BucketId, BucketIdError, StoredBucket};
use models::StoredModel;

verus! {

#[derive(Debug)]
pub enum RepositoryError {
    Conflict,
    InvalidItem { field: &'static str },
    Schema(String),
    Operation { operation: &'static str, message: String },
    TableStartupTimeout,
}

/// What a reader is told of an error.
pub open spec fn repository_error_text(error: RepositoryError) -> Seq<char> {
    match error {
        RepositoryError::Conflict => "the bucket changed before this write could be committed"@,
        RepositoryError::InvalidItem { field } =>
            "stored bucket is missing or contains an invalid "@ + field@ + " attribute"@,
        RepositoryError::Schema(message) => "failed to construct DynamoDB schema: "@ + message@,
        RepositoryError::Operation { operation, message } => "DynamoDB operation "@ + operation@
            + " failed: "@ + message@,
        RepositoryError::TableStartupTimeout =>
            "DynamoDB table did not become active before the startup deadline"@,
    }
}

impl RepositoryError {
    /// The failure of a storage operation, with what the failure displays.
    pub fn operation<E: std::fmt::Display>(operation: &'static str, error: E) -> (res:
        RepositoryError)
        ensures
            match res {
                RepositoryError::Operation { operation: name, message } => name == operation
                    && to_string_from_display_ensures::<E>(&error, message),
                _ => false,
            },
    {
        RepositoryError::Operation { operation, message: error.to_string() }
    }

    pub fn message(&self) -> (res: String)
        ensures
            res@ == repository_error_text(*self),
    {
        match self {
            RepositoryError::Conflict =>
                "the bucket changed before this write could be committed".to_owned(),
            RepositoryError::InvalidItem { field } => {
                let mut res =
                    "stored bucket is missing or contains an invalid ".to_owned();
                res.append(field);
                res.append(" attribute");
                res
            },
            RepositoryError::Schema(message) => {
                let mut res = "failed to construct DynamoDB schema: ".to_owned();
                res.append(message.as_str());
                res
            },
            RepositoryError::Operation { operation, message } => {
                let mut res = "DynamoDB operation ".to_owned();
                res.append(operation);
                res.append(" failed: ");
                res.append(message.as_str());
                res
            },
            RepositoryError::TableStartupTimeout =>
                "DynamoDB table did not become active before the startup deadline".to_owned(),
        }
    }
}

/// The model of a bucket that may be missing.
pub open spec fn found_model(found: Option<StoredBucket>) -> Option<StoredModel> {
    match found {
        Some(bucket) => Some(bucket@),
        None => None,
    }
}

/// The bucket under a storage key, if there is one.
pub open spec fn bucket_at(buckets: Map<Seq<char>, StoredModel>, key: Seq<char>) -> Option<
    StoredModel,
> {
    if buckets.contains_key(key) {
        Some(buckets[key])
    } else {
        None
    }
}

/// The state of a bucket that may be missing.
pub open spec fn state_of(bucket: Option<StoredModel>) -> Option<BucketModel> {
    match bucket {
        Some(stored) => Some(stored.state),
        None => None,
    }
}

/// The version of a bucket that may be missing.
pub open spec fn version_of(bucket: Option<StoredModel>) -> Option<nat> {
    match bucket {
        Some(stored) => Some(stored.version),
        None => None,
    }
}

/// The version that a write gives its bucket: the first one to a new bucket, one
/// more than the expected version to an existing one, and none where versions
/// are used up.
pub open spec fn following_version(expected_version: Option<nat>) -> Option<nat> {
    match expected_version {
        None => Some(0),
        Some(version) => if version < u64::MAX {
            Some(version + 1)
        } else {
            None
        },
    }
}

/// What a conditional write puts in the place of `current`: the new state under
/// the following version, if the version is the expected one, else nothing.
pub open spec fn replacement(
    current: Option<StoredModel>,
    state: BucketModel,
    expected_version: Option<nat>,
    expires_at_epoch_seconds: nat,
) -> Option<StoredModel> {
    match following_version(expected_version) {
        Some(version) => if version_of(current) == expected_version {
            Some(StoredModel { state, version, expires_at_epoch_seconds })
        } else {
            None
        },
        None => None,
    }
}

/// An expected version without bound.
pub open spec fn version_model(expected_version: Option<u64>) -> Option<nat> {
    match expected_version {
        Some(version) => Some(version as nat),
        None => None,
    }
}

/// The version that a write gives its bucket.
pub(crate) fn next_version(expected_version: Option<u64>) -> (res: Option<u64>)
    ensures
        version_model(res) == following_version(version_model(expected_version)),
{
    match expected_version {
        None => Some(0),
        Some(version) => version.checked_add(1),
    }
}

/// A call to a repository, with what came of it.
pub enum StoreCall {
    Load { key: Seq<char>, found: Result<Option<StoredModel>, RepositoryError> },
    Write {
        key: Seq<char>,
        state: BucketModel,
        expected_version: Option<nat>,
        expires_at_epoch_seconds: nat,
        written: Result<StoredModel, RepositoryError>,
    },
}

/// What a load came to.
pub open spec fn loaded_model(res: Result<Option<StoredBucket>, RepositoryError>) -> Result<
    Option<StoredModel>,
    RepositoryError,
> {
    match res {
        Ok(found) => Ok(found_model(found)),
        Err(error) => Err(error),
    }
}

/// What a conditional write came to.
pub open spec fn written_model(res: Result<StoredBucket, RepositoryError>) -> Result<
    StoredModel,
    RepositoryError,
> {
    match res {
        Ok(stored) => Ok(stored@),
        Err(error) => Err(error),
    }
}

/// Storage operations needed by the rate-limiter service, on a store that its
/// owner alone writes.
///
/// `compare_and_set` creates when `expected_version` is `None`, or replaces an
/// existing bucket only when its version still matches. The service builds a
/// bounded retry loop around this atomic primitive. A write that fails for any
/// other reason may have been carried out or not. A store that others write too
/// is driven step by step instead, with [`crate::service::CheckRun`].
pub trait BucketRepository {
    /// The buckets held, by storage key.
    spec fn buckets(&self) -> Map<Seq<char>, StoredModel>;

    /// Whether every operation is carried out.
    spec fn reliable(&self) -> bool;

    /// The calls made so far, in their order.
    spec fn calls(&self) -> Seq<StoreCall>;

    fn load(&mut self, id: &BucketId) -> (res: Result<Option<StoredBucket>, RepositoryError>)
        ensures
            final(self).reliable() == old(self).reliable(),
            final(self).buckets() == old(self).buckets(),
            final(self).calls() == old(self).calls().push(
                StoreCall::Load { key: id@, found: loaded_model(res) },
            ),
            old(self).reliable() ==> res is Ok,
            res matches Ok(found) ==> found_model(found) == bucket_at(old(self).buckets(), id@),
    ;

    fn compare_and_set(
        &mut self,
        id: &BucketId,
        state: BucketState,
        expected_version: Option<u64>,
        expires_at_epoch_seconds: u64,
    ) -> (res: Result<StoredBucket, RepositoryError>)
        ensures
            final(self).reliable() == old(self).reliable(),
            final(self).calls() == old(self).calls().push(
                StoreCall::Write {
                    key: id@,
                    state: state@,
                    expected_version: version_model(expected_version),
                    expires_at_epoch_seconds: expires_at_epoch_seconds as nat,
                    written: written_model(res),
                },
            ),
            ({
                let written = replacement(
                    bucket_at(old(self).buckets(), id@),
                    state@,
                    version_model(expected_version),
                    expires_at_epoch_seconds as nat,
                );
                match res {
                    Ok(stored) => {
                        &&& written == Some(stored@)
                        &&& final(self).buckets() == old(self).buckets().insert(id@, stored@)
                    },
                    Err(RepositoryError::Conflict) => {
                        &&& written is None
                        &&& final(self).buckets() == old(self).buckets()
                    },
                    Err(_) => {
                        &&& !old(self).reliable()
                        &&& {
                            ||| final(self).buckets() == old(self).buckets()
                            ||| {
                                &&& written is Some
                                &&& final(self).buckets() == old(self).buckets().insert(
                                    id@,
                                    written->0,
                                )
                            }
                        }
                    },
                }
            }),
    ;
}

} // verus!
