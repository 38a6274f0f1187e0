use super::models::{BucketId, StoredBucket, StoredModel};
use super::{BucketRepository, RepositoryError, StoreCall};
use crate::limiter::BucketState;
use vstd::hash_map::StringHashMap;
use vstd::prelude::*;
use vstd::string::*;

verus! {

/// Deterministic repository held in memory.
pub struct MemoryRepository {
    buckets: StringHashMap<StoredBucket>,
    calls: Ghost<Seq<StoreCall>>,
}

impl MemoryRepository {
    /// Creates a repository without buckets.
    pub fn new() -> (res: MemoryRepository)
        ensures
            res.buckets() == Map::<Seq<char>, StoredModel>::empty(),
            res.calls() == Seq::<StoreCall>::empty(),
    {
        let res = MemoryRepository { buckets: StringHashMap::new(), calls: Ghost(Seq::empty()) };
        assert(res.buckets() =~= Map::<Seq<char>, StoredModel>::empty());
        res
    }
}

impl Default for MemoryRepository {
    fn default() -> (res: MemoryRepository)
        ensures
            res.buckets() == Map::<Seq<char>, StoredModel>::empty(),
            res.calls() == Seq::<StoreCall>::empty(),
    {
        MemoryRepository::new()
    }
}

impl BucketRepository for MemoryRepository {
    closed spec fn buckets(&self) -> Map<Seq<char>, StoredModel> {
        self.buckets@.map_values(|bucket: StoredBucket| bucket@)
    }

    open spec fn reliable(&self) -> bool {
        true
    }

    closed spec fn calls(&self) -> Seq<StoreCall> {
        self.calls@
    }

    fn load(&mut self, id: &BucketId) -> (res: Result<Option<StoredBucket>, RepositoryError>) {
        let found: Option<StoredBucket> = match self.buckets.get(id.storage_key()) {
            Some(bucket) => Some(*bucket),
            None => None,
        };
        self.calls = Ghost(
            self.calls@.push(
                StoreCall::Load { key: id@, found: Ok(super::found_model(found)) },
            ),
        );
        Ok(found)
    }

    fn compare_and_set(
        &mut self,
        id: &BucketId,
        state: BucketState,
        expected_version: Option<u64>,
        expires_at_epoch_seconds: u64,
    ) -> (res: Result<StoredBucket, RepositoryError>) {
        let version: Option<u64> = match self.buckets.get(id.storage_key()) {
            Some(bucket) => Some(bucket.version()),
            None => None,
        };
        let next_version: Option<u64> = if version == expected_version {
            super::next_version(expected_version)
        } else {
            None
        };
        let res = match next_version {
            Some(next_version) => {
                let stored = StoredBucket::new(state, next_version, expires_at_epoch_seconds);
                self.buckets.insert(id.storage_key().to_owned(), stored);
                assert(self.buckets() =~= old(self).buckets().insert(id@, stored@));
                Ok(stored)
            },
            None => Err(RepositoryError::Conflict),
        };
        self.calls = Ghost(
            self.calls@.push(
                StoreCall::Write {
                    key: id@,
                    state: state@,
                    expected_version: super::version_model(expected_version),
                    expires_at_epoch_seconds: expires_at_epoch_seconds as nat,
                    written: super::written_model(res),
                },
            ),
        );
        res
    }
}

} // verus!
