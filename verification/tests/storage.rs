use fluxgate::limiter::BucketState;
use fluxgate::storage::dynamodb::{
    after_create, after_describe, after_describe_ttl, after_enable_ttl, after_pause, after_poll,
    decode_item, encode_item, get_request, on_get, on_put, put_request, table_request, ttl_request,
    Attribute, CreateReply, DescribeReply, EnableReply, Item, KeyKind, KeyRole, PollReply,
    PutReply, SetupStep, TtlReply, WriteCondition,
};
use fluxgate::storage::{
    BucketId, BucketIdError, BucketRepository, MemoryRepository, RepositoryError,
};

#[test]
fn client_key_is_not_exposed_in_storage_key() {
    let id = BucketId::new("login", "secret-api-key").unwrap();

    assert!(id.storage_key().starts_with("RATE#login#"));
    assert!(!id.storage_key().contains("secret-api-key"));
}

#[test]
fn policies_partition_identical_client_keys() {
    let login = BucketId::new("login", "user-1").unwrap();
    let default = BucketId::new("default", "user-1").unwrap();

    assert_ne!(login, default);
}

#[test]
fn invalid_identifiers_are_rejected() {
    assert_eq!(BucketId::new("", "key"), Err(BucketIdError::EmptyPolicy));
    assert_eq!(
        BucketId::new("bad policy", "key"),
        Err(BucketIdError::InvalidPolicy)
    );
    assert_eq!(
        BucketId::new("default", ""),
        Err(BucketIdError::EmptyClientKey)
    );
}

#[test]
fn storage_key_holds_the_digest_in_lower_case() {
    let id = BucketId::new("login", "user-1").unwrap();
    assert_eq!(
        id.storage_key(),
        "RATE#login#c6c289e49e9c05b2145860387b73bcb18df43fb09a1e4a4a9713c76c88bb541b"
    );
}

#[test]
fn storage_key_is_built_from_the_digest() {
    let mut digest = [0u8; 32];
    digest[0] = 0x0f;
    digest[31] = 0xa9;
    let id = BucketId::from_digest("a_B-9", &digest).unwrap();
    let expected = format!("RATE#a_B-9#0f{}a9", "00".repeat(30));
    assert_eq!(id.storage_key(), expected);
    assert_eq!(
        BucketId::from_digest("a#b", &digest),
        Err(BucketIdError::InvalidPolicy)
    );
}

#[test]
fn identifier_lengths_are_counted_in_bytes() {
    let long = "p".repeat(64);
    assert!(BucketId::new(&long, "k").is_ok());
    assert_eq!(
        BucketId::new(&"p".repeat(65), "k"),
        Err(BucketIdError::PolicyTooLong)
    );
    assert_eq!(
        BucketId::new(&"\u{e9}".repeat(33), "k"),
        Err(BucketIdError::PolicyTooLong)
    );
    assert_eq!(
        BucketId::new("caf\u{e9}", "k"),
        Err(BucketIdError::InvalidPolicy)
    );
    assert!(BucketId::new("p", &"\u{e9}".repeat(128)).is_ok());
    assert_eq!(
        BucketId::new("p", &"\u{e9}".repeat(129)),
        Err(BucketIdError::ClientKeyTooLong)
    );
    assert_eq!(
        BucketId::new("p", &"k".repeat(257)),
        Err(BucketIdError::ClientKeyTooLong)
    );
}

#[test]
fn identifier_errors_have_their_messages() {
    assert_eq!(
        BucketIdError::EmptyPolicy.message(),
        "policy name cannot be empty"
    );
    assert_eq!(
        BucketIdError::PolicyTooLong.message(),
        "policy name must contain at most 64 bytes"
    );
    assert_eq!(
        BucketIdError::InvalidPolicy.message(),
        "policy name may contain only ASCII letters, digits, underscores, and hyphens"
    );
    assert_eq!(
        BucketIdError::EmptyClientKey.message(),
        "client key cannot be empty"
    );
    assert_eq!(
        BucketIdError::ClientKeyTooLong.message(),
        "client key must contain at most 256 bytes"
    );
}

#[test]
fn repository_errors_have_their_messages() {
    assert_eq!(
        RepositoryError::Conflict.message(),
        "the bucket changed before this write could be committed"
    );
    assert_eq!(
        RepositoryError::InvalidItem { field: "version" }.message(),
        "stored bucket is missing or contains an invalid version attribute"
    );
    assert_eq!(
        RepositoryError::Schema("no name".to_owned()).message(),
        "failed to construct DynamoDB schema: no name"
    );
    assert_eq!(
        RepositoryError::operation("get_item", 17).message(),
        "DynamoDB operation get_item failed: 17"
    );
    assert_eq!(
        RepositoryError::TableStartupTimeout.message(),
        "DynamoDB table did not become active before the startup deadline"
    );
}

#[test]
fn persists_updates_and_isolates_buckets() {
    let mut repository = MemoryRepository::default();
    let first = BucketId::new("default", "first").unwrap();
    let second = BucketId::new("login", "second").unwrap();
    let expires_at = 2_000_000_000;

    let created = repository
        .compare_and_set(
            &first,
            BucketState::from_parts(9_000, 1_000),
            None,
            expires_at,
        )
        .unwrap();
    repository
        .compare_and_set(
            &second,
            BucketState::from_parts(2_000, 2_000),
            None,
            expires_at + 1,
        )
        .unwrap();

    let loaded = repository.load(&first).unwrap().unwrap();
    assert_eq!(loaded, created);
    assert_eq!(loaded.version(), 0);
    assert_eq!(loaded.expires_at_epoch_seconds(), expires_at);
    assert_eq!(loaded.state(), BucketState::from_parts(9_000, 1_000));

    let updated = repository
        .compare_and_set(
            &first,
            BucketState::from_parts(7_500, 1_500),
            Some(loaded.version()),
            expires_at + 60,
        )
        .unwrap();
    assert_eq!(updated.version(), 1);
    assert_eq!(repository.load(&first).unwrap(), Some(updated));

    let independent = repository.load(&second).unwrap().unwrap();
    assert_eq!(independent.state(), BucketState::from_parts(2_000, 2_000));
    assert_eq!(independent.expires_at_epoch_seconds(), expires_at + 1);
}

#[test]
fn stale_version_is_rejected() {
    let mut repository = MemoryRepository::default();
    let id = BucketId::new("default", "conflict").unwrap();

    repository
        .compare_and_set(&id, BucketState::from_parts(10, 10), None, 2_000_000_000)
        .unwrap();
    repository
        .compare_and_set(&id, BucketState::from_parts(9, 11), Some(0), 2_000_000_001)
        .unwrap();

    let result =
        repository.compare_and_set(&id, BucketState::from_parts(8, 12), Some(0), 2_000_000_002);
    assert!(matches!(result, Err(RepositoryError::Conflict)));
    let again = repository.compare_and_set(&id, BucketState::from_parts(8, 12), None, 0);
    assert!(matches!(again, Err(RepositoryError::Conflict)));
}

#[test]
fn missing_bucket_has_no_version_to_match() {
    let mut repository = MemoryRepository::new();
    let id = BucketId::new("default", "nobody").unwrap();
    assert_eq!(repository.load(&id).unwrap(), None);
    let result = repository.compare_and_set(&id, BucketState::from_parts(1, 1), Some(0), 1);
    assert!(matches!(result, Err(RepositoryError::Conflict)));
    assert_eq!(repository.load(&id).unwrap(), None);
}

fn item(fields: &[(&str, &str)]) -> Item {
    let mut item = Item::new();
    for (name, text) in fields {
        item.insert(name, Attribute::Number((*text).to_owned()));
    }
    item
}

#[test]
fn item_holds_every_attribute() {
    let id = BucketId::new("login", "user-1").unwrap();
    let item = encode_item(&id, BucketState::from_parts(12, 0), 7, u64::MAX);
    assert_eq!(
        item.into_entries(),
        vec![
            (
                "pk".to_owned(),
                Attribute::Text(id.storage_key().to_owned())
            ),
            (
                "available_units".to_owned(),
                Attribute::Number("12".to_owned())
            ),
            (
                "last_refill_ms".to_owned(),
                Attribute::Number("0".to_owned())
            ),
            ("version".to_owned(), Attribute::Number("7".to_owned())),
            (
                "expires_at".to_owned(),
                Attribute::Number("18446744073709551615".to_owned())
            ),
        ]
    );
}

#[test]
fn item_is_read_back() {
    let id = BucketId::new("login", "user-1").unwrap();
    for value in [0, 9, 10, 99, 100, 1_234_567_890, u64::MAX - 1, u64::MAX] {
        let item = encode_item(&id, BucketState::from_parts(value, 1_000), value, 90);
        let stored = decode_item(&item).unwrap();
        assert_eq!(stored.state(), BucketState::from_parts(value, 1_000));
        assert_eq!(stored.version(), value);
        assert_eq!(stored.expires_at_epoch_seconds(), 90);
    }
}

#[test]
fn numbers_are_read_as_the_standard_library_reads_them() {
    let texts = [
        "0",
        "007",
        "+5",
        "+",
        "-",
        "-0",
        "-1",
        "",
        " 1",
        "1 ",
        "1_000",
        "++1",
        "+-1",
        "12a",
        "0x10",
        "\u{663}",
        "18446744073709551615",
        "18446744073709551616",
        "+18446744073709551615",
        "000000000000000000000000000000000000000042",
        "99999999999999999999999999999999999999999999",
    ];
    for text in texts {
        let item = item(&[
            ("available_units", text),
            ("last_refill_ms", "1"),
            ("version", "2"),
            ("expires_at", "3"),
        ]);
        let read = decode_item(&item)
            .ok()
            .map(|stored| stored.state().available_units());
        assert_eq!(read, text.parse::<u64>().ok(), "{text:?}");
    }
}

#[test]
fn first_invalid_field_is_reported() {
    let invalid = |item: &Item| match decode_item(item) {
        Err(RepositoryError::InvalidItem { field }) => field,
        _ => panic!("expected an invalid item"),
    };
    assert_eq!(invalid(&Item::new()), "available_units");
    assert_eq!(invalid(&item(&[("available_units", "1")])), "last_refill_ms");
    assert_eq!(
        invalid(&item(&[("available_units", "1"), ("last_refill_ms", "1")])),
        "version"
    );
    let mut partial = item(&[
        ("available_units", "1"),
        ("last_refill_ms", "1"),
        ("version", "1"),
    ]);
    assert_eq!(invalid(&partial), "expires_at");
    partial.insert("expires_at", Attribute::Text("1".to_owned()));
    assert_eq!(invalid(&partial), "expires_at");
    partial.insert("expires_at", Attribute::Other);
    assert_eq!(invalid(&partial), "expires_at");
    partial.insert("expires_at", Attribute::Number("1".to_owned()));
    assert!(decode_item(&partial).is_ok());
}

#[test]
fn reads_follow_their_reply() {
    assert!(matches!(on_get(Ok(None)), Ok(None)));
    let id = BucketId::new("login", "user-1").unwrap();
    let item = encode_item(&id, BucketState::from_parts(1, 2), 3, 4);
    let stored = on_get(Ok(Some(item))).unwrap().unwrap();
    assert_eq!(stored.version(), 3);
    assert!(matches!(
        on_get(Ok(Some(Item::new()))),
        Err(RepositoryError::InvalidItem {
            field: "available_units"
        })
    ));
    assert_eq!(
        on_get(Err("timeout".to_owned())).unwrap_err().message(),
        "DynamoDB operation get_item failed: timeout"
    );
}

#[test]
fn writes_are_conditional_on_the_version() {
    let id = BucketId::new("login", "user-1").unwrap();
    let state = BucketState::from_parts(1, 2);

    let create = put_request(&id, state, None, 9).unwrap();
    assert_eq!(create.condition, WriteCondition::KeyAbsent);
    assert_eq!(create.condition.expression(), "attribute_not_exists(#pk)");
    assert_eq!(create.condition.attribute_name(), ("#pk", "pk"));
    assert_eq!(create.condition.attribute_value(), None);
    assert_eq!(create.stored.version(), 0);

    let replace = put_request(&id, state, Some(41), 9).unwrap();
    assert_eq!(replace.condition, WriteCondition::VersionIs { version: 41 });
    assert_eq!(
        replace.condition.expression(),
        "#version = :expected_version"
    );
    assert_eq!(replace.condition.attribute_name(), ("#version", "version"));
    assert_eq!(
        replace.condition.attribute_value(),
        Some((":expected_version", "41".to_owned()))
    );
    assert_eq!(replace.stored.version(), 42);
    assert_eq!(decode_item(&replace.item).unwrap(), replace.stored);

    assert!(matches!(
        put_request(&id, state, Some(u64::MAX), 9),
        Err(RepositoryError::Conflict)
    ));
}

#[test]
fn writes_follow_their_reply() {
    let id = BucketId::new("login", "user-1").unwrap();
    let put = put_request(&id, BucketState::from_parts(1, 2), None, 9).unwrap();
    assert_eq!(on_put(put.stored, PutReply::Written).unwrap(), put.stored);
    assert!(matches!(
        on_put(put.stored, PutReply::ConditionFailed),
        Err(RepositoryError::Conflict)
    ));
    assert_eq!(
        on_put(put.stored, PutReply::Failed("denied".to_owned()))
            .unwrap_err()
            .message(),
        "DynamoDB operation put_item failed: denied"
    );
}

#[test]
fn setup_creates_a_missing_table_and_enables_expiration() {
    let step = after_describe(DescribeReply::Missing).unwrap();
    assert_eq!(step, SetupStep::CreateTable);
    let step = after_create(CreateReply::Accepted).unwrap();
    assert_eq!(step, SetupStep::PollTable { attempts_left: 49 });
    let step = after_poll(49, PollReply::NotActive).unwrap();
    assert_eq!(
        step,
        SetupStep::Pause {
            attempts_left: 49,
            millis: 100
        }
    );
    let step = after_pause(49).unwrap();
    assert_eq!(step, SetupStep::PollTable { attempts_left: 48 });
    assert_eq!(
        after_poll(48, PollReply::Active).unwrap(),
        SetupStep::DescribeTtl
    );
    assert_eq!(
        after_describe_ttl(TtlReply::Other).unwrap(),
        SetupStep::EnableTtl
    );
    assert_eq!(
        after_enable_ttl(EnableReply::Accepted).unwrap(),
        SetupStep::Ready
    );
}

#[test]
fn setup_accepts_what_is_already_there() {
    assert_eq!(
        after_describe(DescribeReply::Found).unwrap(),
        SetupStep::PollTable { attempts_left: 49 }
    );
    assert_eq!(
        after_create(CreateReply::InUse).unwrap(),
        SetupStep::PollTable { attempts_left: 49 }
    );
    assert_eq!(
        after_describe_ttl(TtlReply::Enabled).unwrap(),
        SetupStep::Ready
    );
    assert_eq!(
        after_describe_ttl(TtlReply::Enabling).unwrap(),
        SetupStep::Ready
    );
}

#[test]
fn setup_gives_up_after_the_last_attempt() {
    let mut polls = 0;
    let mut step = after_describe(DescribeReply::Found);
    let error = loop {
        step = match step {
            Ok(SetupStep::PollTable { attempts_left }) => {
                polls += 1;
                after_poll(attempts_left, PollReply::NotActive)
            }
            Ok(SetupStep::Pause { attempts_left, .. }) => after_pause(attempts_left),
            Ok(other) => panic!("unexpected step {other:?}"),
            Err(error) => break error,
        };
    };
    assert_eq!(polls, 50);
    assert!(matches!(error, RepositoryError::TableStartupTimeout));
}

#[test]
fn setup_failures_name_their_operation() {
    let text = || "down".to_owned();
    let messages = [
        after_describe(DescribeReply::Failed(text())),
        after_create(CreateReply::Failed(text())),
        after_create(CreateReply::InvalidSchema(text())),
        after_poll(3, PollReply::Failed(text())),
        after_describe_ttl(TtlReply::Failed(text())),
        after_enable_ttl(EnableReply::Failed(text())),
        after_enable_ttl(EnableReply::InvalidSchema(text())),
    ]
    .map(|result| result.unwrap_err().message());
    assert_eq!(
        messages,
        [
            "DynamoDB operation describe_table failed: down",
            "DynamoDB operation create_table failed: down",
            "failed to construct DynamoDB schema: down",
            "DynamoDB operation describe_table failed: down",
            "DynamoDB operation describe_time_to_live failed: down",
            "DynamoDB operation update_time_to_live failed: down",
            "failed to construct DynamoDB schema: down",
        ]
    );
}

#[test]
fn requests_carry_what_the_table_needs() {
    let id = BucketId::new("default", "user").unwrap();
    let read = get_request(&id);
    assert_eq!(read.key_name, "pk");
    assert_eq!(read.key, id.storage_key());
    assert!(read.consistent);

    let table = table_request();
    assert_eq!(table.key, "pk");
    assert_eq!(table.key_type, KeyKind::Text);
    assert_eq!(table.role, KeyRole::Partition);
    assert!(table.on_demand);

    let ttl = ttl_request();
    assert_eq!(ttl.attribute, "expires_at");
    assert!(ttl.enabled);
}
