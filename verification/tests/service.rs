use fluxgate::limiter::{BucketState, LimiterError, Policy};
use fluxgate::service::{backoff, CheckRun, Pause, Progress, RateLimiter, RateLimiterError};
use fluxgate::storage::dynamodb::{decode_item, encode_item, put_request};
use fluxgate::storage::{
    BucketId, BucketIdError, BucketRepository, MemoryRepository, RepositoryError,
};

fn limiter(retries: u32) -> RateLimiter<MemoryRepository> {
    RateLimiter::new(MemoryRepository::default(), retries, 86_400)
}

fn policy() -> Policy {
    Policy::new(100, 100, 60_000).unwrap()
}

#[test]
fn two_hundred_concurrent_checks_allow_exactly_capacity() {
    let limiter = limiter(512);
    let policy = Policy::new(100, 100, 60_000).unwrap();
    let key = "hot-key";
    let now_ms = 1_800_000_000_000;
    let mut repository = MemoryRepository::default();
    let mut waiting: Vec<CheckRun> = (0..200)
        .map(|_| limiter.begin("default", key, &policy, 1, now_ms).unwrap())
        .collect();

    let mut allowed = 0;
    let mut denied = 0;
    while !waiting.is_empty() {
        let writes: Vec<_> = waiting
            .iter()
            .map(|run| run.on_load(repository.load(run.id())).unwrap())
            .collect();
        let mut conflicted = Vec::new();
        for (mut run, write) in waiting.into_iter().zip(writes) {
            let written = repository.compare_and_set(
                run.id(),
                write.state(),
                write.expected_version(),
                run.expires_at(),
            );
            match run.on_write(write, written) {
                Progress::Done(decision) if decision.allowed() => allowed += 1,
                Progress::Done(_) => denied += 1,
                Progress::Retry(_) => conflicted.push(run),
                Progress::Failed(error) => panic!("{}", error.message()),
            }
        }
        waiting = conflicted;
    }

    assert_eq!(allowed, 100);
    assert_eq!(denied, 100);

    let id = BucketId::new("default", key).unwrap();
    let final_state = repository.load(&id).unwrap().unwrap();
    assert_eq!(final_state.version(), 199);
    assert_eq!(final_state.state().available_units(), 0);
}

#[test]
fn check_stores_the_decision() {
    let mut limiter = limiter(8);
    let decision = limiter
        .check("default", "user", &policy(), 30, 5_999)
        .unwrap();
    assert!(decision.allowed());
    assert_eq!(decision.remaining(), 70);

    let id = BucketId::new("default", "user").unwrap();
    let mut repository = limiter.into_repository();
    let stored = repository.load(&id).unwrap().unwrap();
    assert_eq!(stored.state(), decision.state());
    assert_eq!(stored.version(), 0);
    assert_eq!(stored.expires_at_epoch_seconds(), 86_405);

    let mut limiter = RateLimiter::new(repository, 8, 86_400);
    let denied = limiter
        .check("default", "user", &policy(), 80, 5_999)
        .unwrap();
    assert!(!denied.allowed());
    assert_eq!(denied.retry_after_ms(), Some(6_000));
    let stored = limiter.into_repository().load(&id).unwrap().unwrap();
    assert_eq!(stored.version(), 1);
}

#[test]
fn clients_and_policies_are_isolated() {
    let mut limiter = limiter(8);
    limiter.check("default", "a", &policy(), 100, 0).unwrap();
    assert!(!limiter.check("default", "a", &policy(), 1, 0).unwrap().allowed());
    assert!(limiter.check("default", "b", &policy(), 100, 0).unwrap().allowed());
    assert!(limiter.check("login", "a", &policy(), 100, 0).unwrap().allowed());
}

#[test]
fn invalid_checks_store_nothing() {
    let mut limiter = RateLimiter::new(MemoryRepository::default(), 3, u64::MAX);
    assert!(matches!(
        limiter.check("", "user", &policy(), 1, 0),
        Err(RateLimiterError::InvalidBucketId(BucketIdError::EmptyPolicy))
    ));
    assert!(matches!(
        limiter.check("default", "user", &policy(), 1, 1_000),
        Err(RateLimiterError::ExpiryOverflow)
    ));
    assert!(matches!(
        limiter.check("default", "user", &policy(), 0, 999),
        Err(RateLimiterError::InvalidRequest(LimiterError::ZeroCost))
    ));
    let id = BucketId::new("default", "user").unwrap();
    assert_eq!(limiter.into_repository().load(&id).unwrap(), None);
}

#[test]
fn errors_have_their_messages() {
    assert_eq!(
        RateLimiterError::InvalidBucketId(BucketIdError::EmptyClientKey).message(),
        "client key cannot be empty"
    );
    assert_eq!(
        RateLimiterError::InvalidRequest(LimiterError::ZeroCost).message(),
        "request cost must be greater than zero"
    );
    assert_eq!(
        RateLimiterError::Repository(RepositoryError::Conflict).message(),
        "the bucket changed before this write could be committed"
    );
    assert_eq!(
        RateLimiterError::ExpiryOverflow.message(),
        "bucket expiration timestamp overflowed"
    );
    assert_eq!(
        RateLimiterError::ContentionExhausted { attempts: 33 }.message(),
        "bucket remained contended after 33 attempts"
    );
}

#[test]
fn backoff_grows_to_its_cap() {
    assert_eq!(backoff(0), Pause::Yield);
    assert_eq!(backoff(1), Pause::Sleep { micros: 100 });
    assert_eq!(backoff(49), Pause::Sleep { micros: 4_900 });
    assert_eq!(backoff(50), Pause::Sleep { micros: 5_000 });
    assert_eq!(backoff(51), Pause::Sleep { micros: 5_000 });
    assert_eq!(backoff(u32::MAX), Pause::Sleep { micros: 5_000 });
}

#[test]
fn retry_budget_is_kept() {
    let limiter = limiter(2);
    let mut run = limiter.begin("default", "user", &policy(), 1, 0).unwrap();
    for attempt in 0..2 {
        assert_eq!(run.attempt(), attempt);
        let write = run.on_load(Ok(None)).unwrap();
        match run.on_write(write, Err(RepositoryError::Conflict)) {
            Progress::Retry(pause) => assert_eq!(pause, backoff(attempt)),
            other => panic!("unexpected {other:?}"),
        }
    }
    assert_eq!(run.attempt(), 2);
    let write = run.on_load(Ok(None)).unwrap();
    assert!(matches!(
        run.on_write(write, Err(RepositoryError::Conflict)),
        Progress::Failed(RateLimiterError::ContentionExhausted { attempts: 3 })
    ));
}

#[test]
fn storage_failures_end_the_check() {
    let limiter = limiter(2);
    let mut run = limiter.begin("default", "user", &policy(), 1, 0).unwrap();
    let failed = run.on_load(Err(RepositoryError::operation("get_item", "down")));
    assert_eq!(
        failed.unwrap_err().message(),
        "DynamoDB operation get_item failed: down"
    );
    let write = run.on_load(Ok(None)).unwrap();
    assert_eq!(write.expected_version(), None);
    match run.on_write(write, Err(RepositoryError::operation("put_item", "down"))) {
        Progress::Failed(error) => assert_eq!(
            error.message(),
            "DynamoDB operation put_item failed: down"
        ),
        other => panic!("unexpected {other:?}"),
    }
}

#[test]
fn used_up_versions_exhaust_the_retries() {
    let limiter = limiter(4);
    let mut run = limiter.begin("default", "user", &policy(), 1, 0).unwrap();
    let item = encode_item(
        run.id(),
        BucketState::from_parts(6_000_000, 0),
        u64::MAX,
        0,
    );
    let stored = decode_item(&item).unwrap();
    let mut attempts = 0;
    let error = loop {
        attempts += 1;
        let write = run.on_load(Ok(Some(stored))).unwrap();
        assert_eq!(write.expected_version(), Some(u64::MAX));
        let written = put_request(
            run.id(),
            write.state(),
            write.expected_version(),
            run.expires_at(),
        )
        .map(|put| put.stored);
        match run.on_write(write, written) {
            Progress::Retry(_) => {}
            Progress::Failed(error) => break error,
            Progress::Done(_) => panic!("the write cannot be carried out"),
        }
    };
    assert_eq!(attempts, 5);
    assert!(matches!(
        error,
        RateLimiterError::ContentionExhausted { attempts: 5 }
    ));
}

#[test]
fn expired_bucket_is_as_good_as_new() {
    let mut fresh = limiter(0);
    let mut used = limiter(0);
    used.check("default", "user", &policy(), 100, 999).unwrap();
    let later = 86_400_000;
    assert_eq!(
        used.check("default", "user", &policy(), 7, later).unwrap(),
        fresh.check("default", "user", &policy(), 7, later).unwrap()
    );
}

#[test]
fn expiration_does_not_decide() {
    let limiter = limiter(0);
    let run = limiter
        .begin("default", "user", &policy(), 1, 1_000)
        .unwrap();
    let id = BucketId::new("default", "user").unwrap();
    let state = BucketState::from_parts(59_900, 999);
    for expires_at in [0, 1, u64::MAX] {
        let stored = decode_item(&encode_item(&id, state, 7, expires_at)).unwrap();
        let write = run.on_load(Ok(Some(stored))).unwrap();
        assert_eq!(write.state(), BucketState::from_parts(0, 1_000));
        assert_eq!(write.expected_version(), Some(7));
    }
}

#[test]
fn each_answer_is_one_written_decision() {
    let limiter = limiter(8);
    let policy = Policy::new(2, 1, 1_000).unwrap();
    let mut repository = MemoryRepository::default();
    let mut runs: Vec<CheckRun> = (0..3)
        .map(|_| limiter.begin("default", "user", &policy, 1, 0).unwrap())
        .collect();
    let id = BucketId::new("default", "user").unwrap();

    let first: Vec<_> = runs
        .iter()
        .map(|run| run.on_load(repository.load(run.id())).unwrap())
        .collect();
    let mut commits = Vec::new();
    let mut answers = Vec::new();
    for (run, write) in runs.iter_mut().zip(first) {
        let mut write = write;
        loop {
            let written = repository.compare_and_set(
                &id,
                write.state(),
                write.expected_version(),
                run.expires_at(),
            );
            if let Ok(stored) = &written {
                commits.push(stored.state());
            }
            match run.on_write(write, written) {
                Progress::Done(decision) => {
                    answers.push(decision);
                    break;
                }
                Progress::Retry(_) => {
                    write = run.on_load(repository.load(&id)).unwrap();
                }
                Progress::Failed(error) => panic!("{}", error.message()),
            }
        }
    }

    let told: Vec<BucketState> = answers.iter().map(|decision| decision.state()).collect();
    assert_eq!(commits, told);
    let allowed: Vec<bool> = answers.iter().map(|decision| decision.allowed()).collect();
    assert_eq!(allowed, [true, true, false]);
    assert_eq!(repository.load(&id).unwrap().unwrap().version(), 2);
}
