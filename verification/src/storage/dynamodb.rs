//! Buckets as DynamoDB items, conditional writes, and the setup of the table.
//!
//! The calls to DynamoDB are made by the program, on the table that it is
//! configured with; what else they carry and what follows from their replies is
//! settled here.

use super::models::{BucketId, StoredBucket, StoredModel};
use super::RepositoryError;
use crate::limiter::models::BucketModel;
use crate::limiter::BucketState;
use crate::text::{parse_decimal, same_text, to_decimal};
use vstd::prelude::*;
use vstd::string::*;

verus! {

pub const PRIMARY_KEY: &'static str = "pk";

/// The attribute that items expire by.
pub const EXPIRY_ATTRIBUTE: &'static str = "expires_at";

/// Descriptions of the table to wait for until it is active.
pub const TABLE_WAIT_ATTEMPTS: u32 = 50;

/// Pause between two descriptions.
pub const TABLE_WAIT_MILLIS: u64 = 100;

/// A value of an item: text, a number in decimal, or one of another type, whose
/// contents do not matter here.
#[derive(Debug, PartialEq, Eq)]
pub enum Attribute {
    Text(String),
    Number(String),
    Other,
}

/// The contents of an attribute.
pub enum AttributeModel {
    Text(Seq<char>),
    Number(Seq<char>),
    Other,
}

impl View for Attribute {
    type V = AttributeModel;

    open spec fn view(&self) -> AttributeModel {
        match self {
            Attribute::Text(text) => AttributeModel::Text(text@),
            Attribute::Number(text) => AttributeModel::Number(text@),
            Attribute::Other => AttributeModel::Other,
        }
    }
}

/// What a list of named attributes holds; of two with the same name the later
/// one counts.
pub open spec fn attributes(entries: Seq<(String, Attribute)>) -> Map<Seq<char>, AttributeModel>
    decreases entries.len(),
{
    if entries.len() == 0 {
        Map::empty()
    } else {
        attributes(entries.drop_last()).insert(entries.last().0@, entries.last().1@)
    }
}

/// An item: attributes by name.
#[derive(Debug)]
pub struct Item {
    entries: Vec<(String, Attribute)>,
}

impl View for Item {
    type V = Map<Seq<char>, AttributeModel>;

    closed spec fn view(&self) -> Map<Seq<char>, AttributeModel> {
        attributes(self.entries@)
    }
}

impl Item {
    /// An item without attributes.
    pub fn new() -> (res: Item)
        ensures
            res@ == Map::<Seq<char>, AttributeModel>::empty(),
    {
        Item { entries: Vec::new() }
    }

    /// Sets an attribute.
    pub fn insert(&mut self, name: &str, attribute: Attribute)
        ensures
            final(self)@ == old(self)@.insert(name@, attribute@),
    {
        let ghost before = self.entries@;
        self.entries.push((name.to_owned(), attribute));
        assert(self.entries@.drop_last() =~= before);
    }

    /// The attribute of that name.
    pub fn get(&self, name: &str) -> (res: Option<&Attribute>)
        ensures
            match res {
                Some(attribute) => self@.contains_key(name@) && self@[name@] == attribute@,
                None => !self@.contains_key(name@),
            },
    {
        let mut i: usize = self.entries.len();
        assert(self.entries@.take(i as int) =~= self.entries@);
        while i > 0
            invariant
                i <= self.entries.len(),
                attributes(self.entries@.take(i as int)).contains_key(name@)
                    <==> self@.contains_key(name@),
                self@.contains_key(name@) ==> attributes(self.entries@.take(i as int))[name@]
                    == self@[name@],
            decreases i,
        {
            assert(self.entries@.take(i as int).drop_last() =~= self.entries@.take(i - 1));
            if same_text(self.entries[i - 1].0.as_str(), name) {
                return Some(&self.entries[i - 1].1);
            }
            i = i - 1;
        }
        None
    }

    /// The attributes with their names, as they were set.
    pub fn into_entries(self) -> (res: Vec<(String, Attribute)>)
        ensures
            attributes(res@) == self@,
    {
        self.entries
    }
}

/// The item that a bucket is stored as.
pub open spec fn encoded(key: Seq<char>, stored: StoredModel) -> Map<Seq<char>, AttributeModel> {
    Map::empty().insert(PRIMARY_KEY@, AttributeModel::Text(key)).insert(
        "available_units"@,
        AttributeModel::Number(crate::text::decimal(stored.state.available_units)),
    ).insert(
        "last_refill_ms"@,
        AttributeModel::Number(crate::text::decimal(stored.state.last_refill_ms)),
    ).insert("version"@, AttributeModel::Number(crate::text::decimal(stored.version))).insert(
        EXPIRY_ATTRIBUTE@,
        AttributeModel::Number(crate::text::decimal(stored.expires_at_epoch_seconds)),
    )
}

/// Writes a bucket as an item.
pub fn encode_item(
    id: &BucketId,
    state: BucketState,
    version: u64,
    expires_at_epoch_seconds: u64,
) -> (res: Item)
    ensures
        res@ == encoded(
            id@,
            StoredModel {
                state: state@,
                version: version as nat,
                expires_at_epoch_seconds: expires_at_epoch_seconds as nat,
            },
        ),
{
    let mut item = Item::new();
    item.insert(PRIMARY_KEY, Attribute::Text(id.storage_key().to_owned()));
    item.insert("available_units", Attribute::Number(to_decimal(state.available_units())));
    item.insert("last_refill_ms", Attribute::Number(to_decimal(state.last_refill_ms())));
    item.insert("version", Attribute::Number(to_decimal(version)));
    item.insert(EXPIRY_ATTRIBUTE, Attribute::Number(to_decimal(expires_at_epoch_seconds)));
    item
}

/// The number in an attribute: none if the attribute is missing, is no number, or
/// does not fit in 64 bits.
pub open spec fn number_at(item: Map<Seq<char>, AttributeModel>, field: Seq<char>) -> Option<nat> {
    if item.contains_key(field) {
        match item[field] {
            AttributeModel::Number(text) => crate::text::parsed(text, u64::MAX as nat),
            _ => None,
        }
    } else {
        None
    }
}

/// The first field, in the order in which they are read, that holds no number.
pub open spec fn invalid_field(item: Map<Seq<char>, AttributeModel>) -> Option<Seq<char>> {
    if number_at(item, "available_units"@) is None {
        Some("available_units"@)
    } else if number_at(item, "last_refill_ms"@) is None {
        Some("last_refill_ms"@)
    } else if number_at(item, "version"@) is None {
        Some("version"@)
    } else if number_at(item, EXPIRY_ATTRIBUTE@) is None {
        Some(EXPIRY_ATTRIBUTE@)
    } else {
        None
    }
}

/// The bucket that an item without an invalid field stands for.
pub open spec fn decoded(item: Map<Seq<char>, AttributeModel>) -> StoredModel {
    StoredModel {
        state: BucketModel {
            available_units: number_at(item, "available_units"@)->0,
            last_refill_ms: number_at(item, "last_refill_ms"@)->0,
        },
        version: number_at(item, "version"@)->0,
        expires_at_epoch_seconds: number_at(item, EXPIRY_ATTRIBUTE@)->0,
    }
}

/// Reads a bucket from an item.
pub fn decode_item(item: &Item) -> (res: Result<StoredBucket, RepositoryError>)
    ensures
        match res {
            Ok(stored) => invalid_field(item@) is None && stored@ == decoded(item@),
            Err(RepositoryError::InvalidItem { field }) => invalid_field(item@) == Some(field@),
            Err(_) => false,
        },
{
    let available_units = match number(item, "available_units") {
        Ok(value) => value,
        Err(error) => {
            return Err(error);
        },
    };
    let last_refill_ms = match number(item, "last_refill_ms") {
        Ok(value) => value,
        Err(error) => {
            return Err(error);
        },
    };
    let version = match number(item, "version") {
        Ok(value) => value,
        Err(error) => {
            return Err(error);
        },
    };
    let expires_at = match number(item, EXPIRY_ATTRIBUTE) {
        Ok(value) => value,
        Err(error) => {
            return Err(error);
        },
    };
    Ok(
        StoredBucket::new(
            BucketState::from_parts(available_units, last_refill_ms),
            version,
            expires_at,
        ),
    )
}

fn number(item: &Item, field: &'static str) -> (res: Result<u64, RepositoryError>)
    ensures
        match res {
            Ok(value) => number_at(item@, field@) == Some(value as nat),
            Err(error) => error == (RepositoryError::InvalidItem { field }) && number_at(
                item@,
                field@,
            ) is None,
        },
{
    match item.get(field) {
        Some(Attribute::Number(text)) => match parse_decimal(text.as_str(), u64::MAX) {
            Some(value) => Ok(value),
            None => Err(RepositoryError::InvalidItem { field }),
        },
        _ => Err(RepositoryError::InvalidItem { field }),
    }
}

/// A read of one item.
#[derive(Debug)]
pub struct GetRequest {
    pub key_name: &'static str,
    pub key: String,
    /// Whether the read is strongly consistent.
    pub consistent: bool,
}

/// Prepares the strongly consistent read of a bucket.
pub fn get_request(id: &BucketId) -> (res: GetRequest)
    ensures
        res.key_name@ == PRIMARY_KEY@,
        res.key@ == id@,
        res.consistent,
{
    GetRequest { key_name: PRIMARY_KEY, key: id.storage_key().to_owned(), consistent: true }
}

/// Reads the reply to the read of a bucket: the item if there is one, or the text
/// of the failure.
pub fn on_get(reply: Result<Option<Item>, String>) -> (res: Result<
    Option<StoredBucket>,
    RepositoryError,
>)
    ensures
        match reply {
            Ok(None) => res matches Ok(None),
            Ok(Some(item)) => match res {
                Ok(Some(stored)) => invalid_field(item@) is None && stored@ == decoded(item@),
                Err(RepositoryError::InvalidItem { field }) => invalid_field(item@) == Some(
                    field@,
                ),
                _ => false,
            },
            Err(message) => is_operation(res, "get_item"@, message@),
        },
{
    match reply {
        Ok(None) => Ok(None),
        Ok(Some(item)) => match decode_item(&item) {
            Ok(stored) => Ok(Some(stored)),
            Err(error) => Err(error),
        },
        Err(message) => Err(RepositoryError::Operation { operation: "get_item", message }),
    }
}

/// Whether a result is the failure of that operation with that message.
pub open spec fn is_operation<T>(
    res: Result<T, RepositoryError>,
    name: Seq<char>,
    text: Seq<char>,
) -> bool {
    match res {
        Err(RepositoryError::Operation { operation, message }) => operation@ == name && message@
            == text,
        _ => false,
    }
}

/// What must hold of the stored item for a write to be carried out.
#[derive(Clone, Copy, Debug, PartialEq, Eq, Structural)]
pub enum WriteCondition {
    KeyAbsent,
    VersionIs { version: u64 },
}

/// Whether a condition holds of the item in the table, if there is one.
pub open spec fn holds(
    condition: WriteCondition,
    item: Option<Map<Seq<char>, AttributeModel>>,
) -> bool {
    match condition {
        WriteCondition::KeyAbsent => match item {
            Some(present) => !present.contains_key(PRIMARY_KEY@),
            None => true,
        },
        WriteCondition::VersionIs { version } => match item {
            Some(present) => number_at(present, "version"@) == Some(version as nat),
            None => false,
        },
    }
}

/// The condition that the bucket still has the expected version.
pub open spec fn condition_for(expected_version: Option<u64>) -> WriteCondition {
    match expected_version {
        Some(version) => WriteCondition::VersionIs { version },
        None => WriteCondition::KeyAbsent,
    }
}

impl WriteCondition {
    /// The condition expression.
    pub fn expression(&self) -> (res: &'static str)
        ensures
            res@ == (match self {
                WriteCondition::KeyAbsent => "attribute_not_exists(#pk)"@,
                WriteCondition::VersionIs { .. } => "#version = :expected_version"@,
            }),
    {
        match self {
            WriteCondition::KeyAbsent => "attribute_not_exists(#pk)",
            WriteCondition::VersionIs { .. } => "#version = :expected_version",
        }
    }

    /// The attribute name in the expression: its placeholder and the name.
    pub fn attribute_name(&self) -> (res: (&'static str, &'static str))
        ensures
            (res.0@, res.1@) == (match self {
                WriteCondition::KeyAbsent => ("#pk"@, PRIMARY_KEY@),
                WriteCondition::VersionIs { .. } => ("#version"@, "version"@),
            }),
    {
        match self {
            WriteCondition::KeyAbsent => ("#pk", PRIMARY_KEY),
            WriteCondition::VersionIs { .. } => ("#version", "version"),
        }
    }

    /// The value in the expression, if it has one: its placeholder and the number.
    pub fn attribute_value(&self) -> (res: Option<(&'static str, String)>)
        ensures
            match self {
                WriteCondition::KeyAbsent => res is None,
                WriteCondition::VersionIs { version } => res matches Some((name, number)) && name@
                    == ":expected_version"@ && number@ == crate::text::decimal(*version as nat),
            },
    {
        match self {
            WriteCondition::KeyAbsent => None,
            WriteCondition::VersionIs { version } => Some(
                (":expected_version", to_decimal(*version)),
            ),
        }
    }
}

/// A conditional write of one item, and the bucket that is stored once it is made.
#[derive(Debug)]
pub struct PutRequest {
    pub item: Item,
    pub condition: WriteCondition,
    pub stored: StoredBucket,
}

/// Prepares a conditional write. Where versions are used up it is a conflict.
pub fn put_request(
    id: &BucketId,
    state: BucketState,
    expected_version: Option<u64>,
    expires_at_epoch_seconds: u64,
) -> (res: Result<PutRequest, RepositoryError>)
    ensures
        match super::following_version(super::version_model(expected_version)) {
            Some(version) => res matches Ok(put) && put.item@ == encoded(id@, put.stored@)
                && put.condition == condition_for(expected_version) && put.stored@ == (
            StoredModel {
                state: state@,
                version,
                expires_at_epoch_seconds: expires_at_epoch_seconds as nat,
            }),
            None => res matches Err(RepositoryError::Conflict),
        },
{
    let version = match super::next_version(expected_version) {
        Some(version) => version,
        None => {
            return Err(RepositoryError::Conflict);
        },
    };
    let condition = match expected_version {
        Some(version) => WriteCondition::VersionIs { version },
        None => WriteCondition::KeyAbsent,
    };
    Ok(
        PutRequest {
            item: encode_item(id, state, version, expires_at_epoch_seconds),
            condition,
            stored: StoredBucket::new(state, version, expires_at_epoch_seconds),
        },
    )
}

/// The reply to a conditional write.
#[derive(Debug, PartialEq, Eq)]
pub enum PutReply {
    Written,
    ConditionFailed,
    Failed(String),
}

/// Settles what a conditional write of `stored` came to.
pub fn on_put(stored: StoredBucket, reply: PutReply) -> (res: Result<
    StoredBucket,
    RepositoryError,
>)
    ensures
        match reply {
            PutReply::Written => res == Ok::<StoredBucket, RepositoryError>(stored),
            PutReply::ConditionFailed => res matches Err(RepositoryError::Conflict),
            PutReply::Failed(message) => is_operation(res, "put_item"@, message@),
        },
{
    match reply {
        PutReply::Written => Ok(stored),
        PutReply::ConditionFailed => Err(RepositoryError::Conflict),
        PutReply::Failed(message) => Err(
            RepositoryError::Operation { operation: "put_item", message },
        ),
    }
}

/// A bucket of 64-bit numbers that is written as an item is read back as itself.
pub proof fn law_item_is_read_back(key: Seq<char>, stored: StoredModel)
    requires
        stored.state.available_units <= u64::MAX,
        stored.state.last_refill_ms <= u64::MAX,
        stored.version <= u64::MAX,
        stored.expires_at_epoch_seconds <= u64::MAX,
    ensures
        invalid_field(encoded(key, stored)) is None,
        decoded(encoded(key, stored)) == stored,
{
    lemma_field_names();
    crate::text::law_decimal_is_read_back(stored.state.available_units, u64::MAX as nat);
    crate::text::law_decimal_is_read_back(stored.state.last_refill_ms, u64::MAX as nat);
    crate::text::law_decimal_is_read_back(stored.version, u64::MAX as nat);
    crate::text::law_decimal_is_read_back(stored.expires_at_epoch_seconds, u64::MAX as nat);
}

/// The conditional write is a compare-and-set: its condition holds of a stored
/// bucket exactly if that bucket has the expected version.
pub proof fn law_condition_tests_the_version(
    key: Seq<char>,
    current: Option<StoredModel>,
    expected_version: Option<u64>,
)
    requires
        current matches Some(stored) ==> stored.version <= u64::MAX,
    ensures
        holds(
            condition_for(expected_version),
            match current {
                Some(stored) => Some(encoded(key, stored)),
                None => None,
            },
        ) <==> super::version_of(current) == super::version_model(expected_version),
{
    lemma_field_names();
    match current {
        Some(stored) => {
            crate::text::law_decimal_is_read_back(stored.version, u64::MAX as nat);
        },
        None => {},
    }
}

proof fn lemma_field_names()
    ensures
        PRIMARY_KEY@ != "available_units"@,
        PRIMARY_KEY@ != "last_refill_ms"@,
        PRIMARY_KEY@ != "version"@,
        PRIMARY_KEY@ != EXPIRY_ATTRIBUTE@,
        "available_units"@ != "last_refill_ms"@,
        "available_units"@ != "version"@,
        "available_units"@ != EXPIRY_ATTRIBUTE@,
        "last_refill_ms"@ != "version"@,
        "last_refill_ms"@ != EXPIRY_ATTRIBUTE@,
        "version"@ != EXPIRY_ATTRIBUTE@,
{
    reveal_strlit("pk");
    reveal_strlit("available_units");
    reveal_strlit("last_refill_ms");
    reveal_strlit("version");
    reveal_strlit("expires_at");
    assert(PRIMARY_KEY@ == "pk"@);
    assert("pk"@.len() == 2);
    assert("available_units"@.len() == 15);
    assert("last_refill_ms"@.len() == 14);
    assert("version"@.len() == 7);
    assert(EXPIRY_ATTRIBUTE@ == "expires_at"@);
    assert(EXPIRY_ATTRIBUTE@.len() == 10);
}

/// What the setup of the table does next.
#[derive(Clone, Copy, Debug, PartialEq, Eq, Structural)]
pub enum SetupStep {
    /// Describe the table to see whether it exists.
    DescribeTable,
    /// Create the table as [`table_request`] says.
    CreateTable,
    /// Describe the table to see whether it is active.
    PollTable { attempts_left: u32 },
    /// Sleep before the next description.
    Pause { attempts_left: u32, millis: u64 },
    /// Describe the expiration of items.
    DescribeTtl,
    /// Let items expire as [`ttl_request`] says.
    EnableTtl,
    Ready,
}

/// The first of the descriptions that wait for the table.
pub open spec fn first_poll() -> SetupStep {
    SetupStep::PollTable { attempts_left: (TABLE_WAIT_ATTEMPTS - 1) as u32 }
}

/// What came of a step of the setup.
pub enum SetupReply {
    Described(DescribeReply),
    Created(CreateReply),
    Polled(PollReply),
    Paused,
    TtlDescribed(TtlReply),
    TtlEnabled(EnableReply),
}

/// Whether the setup goes on from `step` to `next`: an existing table is waited
/// for and a missing one created first; a table in the making is waited for,
/// whoever makes it; one that is not active is looked at again after a pause, as
/// long as attempts are left; expiration is enabled unless it already is, or is
/// about to be.
pub open spec fn follows(step: SetupStep, reply: SetupReply, next: SetupStep) -> bool {
    match (step, reply) {
        (SetupStep::DescribeTable, SetupReply::Described(DescribeReply::Found)) => next
            == first_poll(),
        (SetupStep::DescribeTable, SetupReply::Described(DescribeReply::Missing)) => next
            == SetupStep::CreateTable,
        (SetupStep::CreateTable, SetupReply::Created(CreateReply::Accepted)) => next
            == first_poll(),
        (SetupStep::CreateTable, SetupReply::Created(CreateReply::InUse)) => next == first_poll(),
        (SetupStep::PollTable { .. }, SetupReply::Polled(PollReply::Active)) => next
            == SetupStep::DescribeTtl,
        (SetupStep::PollTable { attempts_left }, SetupReply::Polled(PollReply::NotActive)) => next
            == (SetupStep::Pause { attempts_left, millis: TABLE_WAIT_MILLIS }),
        (SetupStep::Pause { attempts_left, .. }, SetupReply::Paused) => attempts_left > 0 && next
            == (SetupStep::PollTable { attempts_left: (attempts_left - 1) as u32 }),
        (SetupStep::DescribeTtl, SetupReply::TtlDescribed(TtlReply::Enabled)) => next
            == SetupStep::Ready,
        (SetupStep::DescribeTtl, SetupReply::TtlDescribed(TtlReply::Enabling)) => next
            == SetupStep::Ready,
        (SetupStep::DescribeTtl, SetupReply::TtlDescribed(TtlReply::Other)) => next
            == SetupStep::EnableTtl,
        (SetupStep::EnableTtl, SetupReply::TtlEnabled(EnableReply::Accepted)) => next
            == SetupStep::Ready,
        _ => false,
    }
}

/// The reply to a description of the table.
#[derive(Debug, PartialEq, Eq)]
pub enum DescribeReply {
    Found,
    Missing,
    Failed(String),
}

/// An existing table is waited for, a missing one is created.
pub fn after_describe(reply: DescribeReply) -> (res: Result<SetupStep, RepositoryError>)
    ensures
        match reply {
            DescribeReply::Failed(message) => is_operation(res, "describe_table"@, message@),
            _ => res matches Ok(next) && follows(
                SetupStep::DescribeTable,
                SetupReply::Described(reply),
                next,
            ),
        },
{
    match reply {
        DescribeReply::Found => Ok(SetupStep::PollTable { attempts_left: TABLE_WAIT_ATTEMPTS - 1 }),
        DescribeReply::Missing => Ok(SetupStep::CreateTable),
        DescribeReply::Failed(message) => Err(
            RepositoryError::Operation { operation: "describe_table", message },
        ),
    }
}

/// The type of a key attribute.
#[derive(Clone, Copy, Debug, PartialEq, Eq, Structural)]
pub enum KeyKind {
    Text,
    Number,
    Binary,
}

/// What a key attribute is for.
#[derive(Clone, Copy, Debug, PartialEq, Eq, Structural)]
pub enum KeyRole {
    Partition,
    Sort,
}

/// The creation of a table with one key attribute.
#[derive(Clone, Copy, Debug)]
pub struct TableRequest {
    pub key: &'static str,
    pub key_type: KeyKind,
    pub role: KeyRole,
    /// Whether requests are paid for one by one, without provisioned capacity.
    pub on_demand: bool,
}

/// Prepares the creation of the table of buckets, which are found by their storage
/// key alone.
pub fn table_request() -> (res: TableRequest)
    ensures
        res.key@ == PRIMARY_KEY@,
        res.key_type == KeyKind::Text,
        res.role == KeyRole::Partition,
        res.on_demand,
{
    TableRequest {
        key: PRIMARY_KEY,
        key_type: KeyKind::Text,
        role: KeyRole::Partition,
        on_demand: true,
    }
}

/// The reply to the creation of the table.
#[derive(Debug, PartialEq, Eq)]
pub enum CreateReply {
    Accepted,
    /// Another instance is creating it.
    InUse,
    /// The request could not be put together.
    InvalidSchema(String),
    Failed(String),
}

/// A table in the making is waited for, whoever makes it.
pub fn after_create(reply: CreateReply) -> (res: Result<SetupStep, RepositoryError>)
    ensures
        match reply {
            CreateReply::InvalidSchema(message) => res == Err::<SetupStep, RepositoryError>(
                RepositoryError::Schema(message),
            ),
            CreateReply::Failed(message) => is_operation(res, "create_table"@, message@),
            _ => res matches Ok(next) && follows(
                SetupStep::CreateTable,
                SetupReply::Created(reply),
                next,
            ),
        },
{
    match reply {
        CreateReply::Accepted => Ok(
            SetupStep::PollTable { attempts_left: TABLE_WAIT_ATTEMPTS - 1 },
        ),
        CreateReply::InUse => Ok(SetupStep::PollTable { attempts_left: TABLE_WAIT_ATTEMPTS - 1 }),
        CreateReply::InvalidSchema(message) => Err(RepositoryError::Schema(message)),
        CreateReply::Failed(message) => Err(
            RepositoryError::Operation { operation: "create_table", message },
        ),
    }
}

/// The reply to a description of a table that is waited for.
#[derive(Debug, PartialEq, Eq)]
pub enum PollReply {
    Active,
    NotActive,
    Failed(String),
}

/// An active table is used; another one is looked at again after a pause.
pub fn after_poll(attempts_left: u32, reply: PollReply) -> (res: Result<
    SetupStep,
    RepositoryError,
>)
    ensures
        match reply {
            PollReply::Failed(message) => is_operation(res, "describe_table"@, message@),
            _ => res matches Ok(next) && follows(
                SetupStep::PollTable { attempts_left },
                SetupReply::Polled(reply),
                next,
            ),
        },
{
    match reply {
        PollReply::Active => Ok(SetupStep::DescribeTtl),
        PollReply::NotActive => Ok(SetupStep::Pause { attempts_left, millis: TABLE_WAIT_MILLIS }),
        PollReply::Failed(message) => Err(
            RepositoryError::Operation { operation: "describe_table", message },
        ),
    }
}

/// The description after a pause; without attempts left the setup gives up.
pub fn after_pause(attempts_left: u32) -> (res: Result<SetupStep, RepositoryError>)
    ensures
        if attempts_left == 0 {
            res matches Err(RepositoryError::TableStartupTimeout)
        } else {
            res matches Ok(next) && follows(
                SetupStep::Pause { attempts_left, millis: TABLE_WAIT_MILLIS },
                SetupReply::Paused,
                next,
            )
        },
{
    if attempts_left == 0 {
        Err(RepositoryError::TableStartupTimeout)
    } else {
        Ok(SetupStep::PollTable { attempts_left: attempts_left - 1 })
    }
}

/// The reply to a description of the expiration of items.
#[derive(Debug, PartialEq, Eq)]
pub enum TtlReply {
    Enabled,
    Enabling,
    /// Disabled, being disabled, or not known.
    Other,
    Failed(String),
}

/// Expiration is enabled unless it already is, or is about to be.
pub fn after_describe_ttl(reply: TtlReply) -> (res: Result<SetupStep, RepositoryError>)
    ensures
        match reply {
            TtlReply::Failed(message) => is_operation(res, "describe_time_to_live"@, message@),
            _ => res matches Ok(next) && follows(
                SetupStep::DescribeTtl,
                SetupReply::TtlDescribed(reply),
                next,
            ),
        },
{
    match reply {
        TtlReply::Enabled => Ok(SetupStep::Ready),
        TtlReply::Enabling => Ok(SetupStep::Ready),
        TtlReply::Other => Ok(SetupStep::EnableTtl),
        TtlReply::Failed(message) => Err(
            RepositoryError::Operation { operation: "describe_time_to_live", message },
        ),
    }
}

/// A setting of the expiration of items.
#[derive(Clone, Copy, Debug)]
pub struct TtlRequest {
    pub attribute: &'static str,
    pub enabled: bool,
}

/// Prepares the request to let buckets expire.
pub fn ttl_request() -> (res: TtlRequest)
    ensures
        res.attribute@ == EXPIRY_ATTRIBUTE@,
        res.enabled,
{
    TtlRequest { attribute: EXPIRY_ATTRIBUTE, enabled: true }
}

/// The reply to a request to let items expire.
#[derive(Debug, PartialEq, Eq)]
pub enum EnableReply {
    Accepted,
    /// The request could not be put together.
    InvalidSchema(String),
    Failed(String),
}

/// With expiration enabled the table is ready.
pub fn after_enable_ttl(reply: EnableReply) -> (res: Result<SetupStep, RepositoryError>)
    ensures
        match reply {
            EnableReply::InvalidSchema(message) => res == Err::<SetupStep, RepositoryError>(
                RepositoryError::Schema(message),
            ),
            EnableReply::Failed(message) => is_operation(res, "update_time_to_live"@, message@),
            EnableReply::Accepted => res matches Ok(next) && follows(
                SetupStep::EnableTtl,
                SetupReply::TtlEnabled(reply),
                next,
            ),
        },
{
    match reply {
        EnableReply::Accepted => Ok(SetupStep::Ready),
        EnableReply::InvalidSchema(message) => Err(RepositoryError::Schema(message)),
        EnableReply::Failed(message) => Err(
            RepositoryError::Operation { operation: "update_time_to_live", message },
        ),
    }
}

/// Whether these are the steps of a setup with these replies.
pub open spec fn is_setup(steps: Seq<SetupStep>, replies: Seq<SetupReply>) -> bool {
    &&& steps.len() == replies.len() + 1
    &&& steps[0] == SetupStep::DescribeTable
    &&& forall|i: int|
        0 <= i < replies.len() ==> follows(steps[i], #[trigger] replies[i], steps[i + 1])
}

/// How often the table was described to see whether it is active.
pub open spec fn polls(steps: Seq<SetupStep>) -> nat
    decreases steps.len(),
{
    if steps.len() == 0 {
        0
    } else {
        polls(steps.drop_last()) + (if steps.last() is PollTable {
            1nat
        } else {
            0
        })
    }
}

/// A setup that ends ready has found the table active, and after that its items
/// expire, or are about to.
pub proof fn law_ready_table_is_active_and_expires(
    steps: Seq<SetupStep>,
    replies: Seq<SetupReply>,
)
    requires
        is_setup(steps, replies),
        steps.last() == SetupStep::Ready,
    ensures
        exists|i: int, j: int|
            0 <= i < j < replies.len() && #[trigger] replies[i] == SetupReply::Polled(
                PollReply::Active,
            ) && {
                ||| #[trigger] replies[j] == SetupReply::TtlDescribed(TtlReply::Enabled)
                ||| replies[j] == SetupReply::TtlDescribed(TtlReply::Enabling)
                ||| replies[j] == SetupReply::TtlEnabled(EnableReply::Accepted)
            },
{
    let last = replies.len() - 1;
    assert(follows(steps[last], replies[last], steps[last + 1]));
    assert(follows(steps[last - 1], replies[last - 1], steps[last]));
    if steps[last] == SetupStep::EnableTtl {
        assert(follows(steps[last - 2], replies[last - 2], steps[last - 1]));
        assert(replies[last - 2] == SetupReply::Polled(PollReply::Active));
    } else {
        assert(replies[last - 1] == SetupReply::Polled(PollReply::Active));
    }
}

/// The table is looked at no more often than the startup deadline allows, and
/// exactly that often when a pause ends without attempts left.
pub proof fn law_table_wait_is_bounded(steps: Seq<SetupStep>, replies: Seq<SetupReply>)
    requires
        is_setup(steps, replies),
    ensures
        polls(steps) <= TABLE_WAIT_ATTEMPTS,
        steps.last() matches SetupStep::PollTable { attempts_left } ==> polls(steps)
            + attempts_left == TABLE_WAIT_ATTEMPTS,
        steps.last() matches SetupStep::Pause { attempts_left, .. } ==> polls(steps)
            + attempts_left == TABLE_WAIT_ATTEMPTS,
        steps.last() is DescribeTable || steps.last() is CreateTable ==> polls(steps) == 0,
    decreases steps.len(),
{
    if replies.len() == 0 {
        assert(steps.drop_last() =~= Seq::<SetupStep>::empty());
        assert(polls(steps.drop_last()) == 0);
    } else {
        let last = replies.len() - 1;
        let fewer = steps.drop_last();
        assert forall|i: int| 0 <= i < last implies follows(
            fewer[i],
            #[trigger] replies.drop_last()[i],
            fewer[i + 1],
        ) by {
            assert(follows(steps[i], replies[i], steps[i + 1]));
        }
        law_table_wait_is_bounded(fewer, replies.drop_last());
        assert(follows(steps[last], replies[last], steps[last + 1]));
    }
}

/// How many steps a setup can still take.
pub open spec fn steps_ahead(step: SetupStep) -> nat {
    match step {
        SetupStep::Ready => 0,
        SetupStep::EnableTtl => 1,
        SetupStep::DescribeTtl => 2,
        SetupStep::Pause { attempts_left, .. } => 2 * attempts_left as nat + 3,
        SetupStep::PollTable { attempts_left } => 2 * attempts_left as nat + 4,
        SetupStep::CreateTable => 2 * TABLE_WAIT_ATTEMPTS as nat + 3,
        SetupStep::DescribeTable => 2 * TABLE_WAIT_ATTEMPTS as nat + 4,
    }
}

/// The setup always comes to an end: each step leaves fewer ahead.
pub proof fn law_setup_ends(step: SetupStep, reply: SetupReply, next: SetupStep)
    requires
        follows(step, reply, next),
    ensures
        steps_ahead(next) < steps_ahead(step),
{
}

/// A write carries the bucket under the attribute names of the table and the next
/// version, and asks for the version that was expected, or for no item where none
/// was. It is a conflict only where versions are used up.
pub proof fn law_put_carries_the_bucket(
    id: BucketId,
    state: BucketState,
    expected_version: Option<u64>,
    expires_at: u64,
    res: Result<PutRequest, RepositoryError>,
    expression: &'static str,
    attribute: (&'static str, &'static str),
    value: Option<(&'static str, String)>,
)
    requires
        call_ensures(put_request, (&id, state, expected_version, expires_at), res),
        res matches Ok(put) ==> call_ensures(
            WriteCondition::expression,
            (&put.condition,),
            expression,
        ) && call_ensures(WriteCondition::attribute_name, (&put.condition,), attribute)
            && call_ensures(WriteCondition::attribute_value, (&put.condition,), value),
    ensures
        res is Err <==> expected_version == Some(0xffff_ffff_ffff_ffffu64),
        res matches Err(error) ==> error is Conflict,
        res matches Ok(put) ==> {
            let version = match expected_version {
                Some(version) => (version + 1) as nat,
                None => 0,
            };
            let item = put.item@;
            &&& put.stored@ == (StoredModel {
                state: state@,
                version,
                expires_at_epoch_seconds: expires_at as nat,
            })
            &&& forall|name: Seq<char>| #[trigger]
                item.contains_key(name) <==> name == "pk"@ || name == "available_units"@ || name
                    == "last_refill_ms"@ || name == "version"@ || name == "expires_at"@
            &&& item["pk"@] == AttributeModel::Text(id@)
            &&& item["available_units"@] == AttributeModel::Number(
                crate::text::decimal(state@.available_units),
            )
            &&& item["last_refill_ms"@] == AttributeModel::Number(
                crate::text::decimal(state@.last_refill_ms),
            )
            &&& item["version"@] == AttributeModel::Number(crate::text::decimal(version))
            &&& item["expires_at"@] == AttributeModel::Number(
                crate::text::decimal(expires_at as nat),
            )
            &&& match expected_version {
                Some(version) => {
                    &&& expression@ == "#version = :expected_version"@
                    &&& attribute.0@ == "#version"@ && attribute.1@ == "version"@
                    &&& value matches Some((name, number)) && name@ == ":expected_version"@
                        && number@ == crate::text::decimal(version as nat)
                },
                None => {
                    &&& expression@ == "attribute_not_exists(#pk)"@
                    &&& attribute.0@ == "#pk"@ && attribute.1@ == "pk"@
                    &&& value is None
                },
            }
        },
{
    lemma_field_names();
    lemma_literal_names();
}

proof fn lemma_literal_names()
    ensures
        PRIMARY_KEY@ == "pk"@,
        EXPIRY_ATTRIBUTE@ == "expires_at"@,
{
}

/// An item is a bucket exactly if its four numbers are there and fit in 64 bits, and
/// the bucket holds them; the first that does not is named.
pub proof fn law_items_are_refused_for_their_numbers(
    item: Item,
    res: Result<StoredBucket, RepositoryError>,
)
    requires
        call_ensures(decode_item, (&item,), res),
    ensures
        ({
            let value = |name: Seq<char>|
                if item@.contains_key(name) {
                    match item@[name] {
                        AttributeModel::Number(text) => crate::text::parsed(
                            text,
                            0xffff_ffff_ffff_ffff,
                        ),
                        _ => None::<nat>,
                    }
                } else {
                    None::<nat>
                };
            let units = value("available_units"@);
            let refill = value("last_refill_ms"@);
            let version = value("version"@);
            let expires = value("expires_at"@);
            &&& res is Ok <==> units is Some && refill is Some && version is Some && expires is Some
            &&& res matches Ok(bucket) ==> {
                &&& units == Some(bucket@.state.available_units)
                &&& refill == Some(bucket@.state.last_refill_ms)
                &&& version == Some(bucket@.version)
                &&& expires == Some(bucket@.expires_at_epoch_seconds)
            }
            &&& res matches Err(error) ==> error matches RepositoryError::InvalidItem { field }
                && field@ == (if units is None {
                "available_units"@
            } else if refill is None {
                "last_refill_ms"@
            } else if version is None {
                "version"@
            } else {
                "expires_at"@
            })
        }),
{
    lemma_literal_names();
}

/// What is written for a bucket is read back as that bucket.
pub proof fn law_written_item_is_read_back(
    id: BucketId,
    available_units: u64,
    last_refill_ms: u64,
    state: BucketState,
    version: u64,
    expires_at: u64,
    item: Item,
    res: Result<StoredBucket, RepositoryError>,
)
    requires
        call_ensures(BucketState::from_parts, (available_units, last_refill_ms), state),
        call_ensures(encode_item, (&id, state, version, expires_at), item),
        call_ensures(decode_item, (&item,), res),
    ensures
        res matches Ok(bucket) && bucket@ == (StoredModel {
            state: state@,
            version: version as nat,
            expires_at_epoch_seconds: expires_at as nat,
        }),
{
    law_item_is_read_back(
        id@,
        StoredModel {
            state: state@,
            version: version as nat,
            expires_at_epoch_seconds: expires_at as nat,
        },
    );
}

/// A read asks for the item under the storage key, strongly consistent, and what
/// comes back of reads and writes is passed on.
pub proof fn law_replies_are_passed_on(
    id: BucketId,
    key: &str,
    get: GetRequest,
    item: Item,
    decoded_item: Result<StoredBucket, RepositoryError>,
    text: String,
    stored: StoredBucket,
    missing: Result<Option<StoredBucket>, RepositoryError>,
    found: Result<Option<StoredBucket>, RepositoryError>,
    unread: Result<Option<StoredBucket>, RepositoryError>,
    written: Result<StoredBucket, RepositoryError>,
    conflict: Result<StoredBucket, RepositoryError>,
    unwritten: Result<StoredBucket, RepositoryError>,
)
    requires
        call_ensures(BucketId::storage_key, (&id,), key),
        call_ensures(get_request, (&id,), get),
        call_ensures(on_get, (Ok(None),), missing),
        call_ensures(on_get, (Ok(Some(item)),), found),
        call_ensures(decode_item, (&item,), decoded_item),
        call_ensures(on_get, (Err(text),), unread),
        call_ensures(on_put, (stored, PutReply::Written), written),
        call_ensures(on_put, (stored, PutReply::ConditionFailed), conflict),
        call_ensures(on_put, (stored, PutReply::Failed(text)), unwritten),
    ensures
        get.key_name@ == "pk"@ && get.key@ == key@ && get.consistent,
        missing matches Ok(None),
        match decoded_item {
            Ok(bucket) => found matches Ok(Some(same)) && same@ == bucket@,
            Err(RepositoryError::InvalidItem { field }) => found matches Err(
                RepositoryError::InvalidItem { field: same },
            ) && same@ == field@,
            Err(_) => false,
        },
        unread matches Err(RepositoryError::Operation { operation, message }) && operation@
            == "get_item"@ && message@ == text@,
        written matches Ok(same) && same == stored,
        conflict matches Err(RepositoryError::Conflict),
        unwritten matches Err(RepositoryError::Operation { operation, message }) && operation@
            == "put_item"@ && message@ == text@,
{
    lemma_literal_names();
}

/// An existing table is waited for and a missing one created; a table in the making
/// is waited for, whoever makes it. Either way it is described at most fifty times,
/// a tenth of a second apart, and used once it is active.
pub proof fn law_table_is_created_if_missing(
    found: Result<SetupStep, RepositoryError>,
    missing: Result<SetupStep, RepositoryError>,
    created: Result<SetupStep, RepositoryError>,
    in_use: Result<SetupStep, RepositoryError>,
    attempts_left: u32,
    active: Result<SetupStep, RepositoryError>,
    waiting: Result<SetupStep, RepositoryError>,
    resumed: Result<SetupStep, RepositoryError>,
)
    requires
        call_ensures(after_describe, (DescribeReply::Found,), found),
        call_ensures(after_describe, (DescribeReply::Missing,), missing),
        call_ensures(after_create, (CreateReply::Accepted,), created),
        call_ensures(after_create, (CreateReply::InUse,), in_use),
        call_ensures(after_poll, (attempts_left, PollReply::Active), active),
        call_ensures(after_poll, (attempts_left, PollReply::NotActive), waiting),
        call_ensures(after_pause, (attempts_left,), resumed),
    ensures
        found matches Ok(SetupStep::PollTable { attempts_left: left }) && left == 49,
        missing matches Ok(SetupStep::CreateTable),
        created matches Ok(SetupStep::PollTable { attempts_left: left }) && left == 49,
        in_use matches Ok(SetupStep::PollTable { attempts_left: left }) && left == 49,
        active matches Ok(SetupStep::DescribeTtl),
        waiting matches Ok(SetupStep::Pause { attempts_left: left, millis }) && left
            == attempts_left && millis == 100,
        attempts_left == 0 ==> resumed matches Err(RepositoryError::TableStartupTimeout),
        attempts_left > 0 ==> (resumed matches Ok(SetupStep::PollTable { attempts_left: left })
            && left == attempts_left - 1),
{
}

/// Expiration is enabled exactly if it is neither enabled nor about to be, and the
/// table is then ready.
pub proof fn law_expiration_is_enabled_if_needed(
    enabled: Result<SetupStep, RepositoryError>,
    enabling: Result<SetupStep, RepositoryError>,
    other: Result<SetupStep, RepositoryError>,
    accepted: Result<SetupStep, RepositoryError>,
)
    requires
        call_ensures(after_describe_ttl, (TtlReply::Enabled,), enabled),
        call_ensures(after_describe_ttl, (TtlReply::Enabling,), enabling),
        call_ensures(after_describe_ttl, (TtlReply::Other,), other),
        call_ensures(after_enable_ttl, (EnableReply::Accepted,), accepted),
    ensures
        enabled matches Ok(SetupStep::Ready),
        enabling matches Ok(SetupStep::Ready),
        other matches Ok(SetupStep::EnableTtl),
        accepted matches Ok(SetupStep::Ready),
{
}

/// A call of the setup that fails ends it with the name of the operation and the
/// text of the failure; a request that could not be put together, with that text.
pub proof fn law_setup_failures_are_named(
    attempts_left: u32,
    text: String,
    describe: Result<SetupStep, RepositoryError>,
    create: Result<SetupStep, RepositoryError>,
    schema: Result<SetupStep, RepositoryError>,
    poll: Result<SetupStep, RepositoryError>,
    describe_ttl: Result<SetupStep, RepositoryError>,
    enable: Result<SetupStep, RepositoryError>,
    enable_schema: Result<SetupStep, RepositoryError>,
)
    requires
        call_ensures(after_describe, (DescribeReply::Failed(text),), describe),
        call_ensures(after_create, (CreateReply::Failed(text),), create),
        call_ensures(after_create, (CreateReply::InvalidSchema(text),), schema),
        call_ensures(after_poll, (attempts_left, PollReply::Failed(text)), poll),
        call_ensures(after_describe_ttl, (TtlReply::Failed(text),), describe_ttl),
        call_ensures(after_enable_ttl, (EnableReply::Failed(text),), enable),
        call_ensures(after_enable_ttl, (EnableReply::InvalidSchema(text),), enable_schema),
    ensures
        describe matches Err(RepositoryError::Operation { operation, message }) && operation@
            == "describe_table"@ && message@ == text@,
        create matches Err(RepositoryError::Operation { operation, message }) && operation@
            == "create_table"@ && message@ == text@,
        schema matches Err(RepositoryError::Schema(message)) && message@ == text@,
        poll matches Err(RepositoryError::Operation { operation, message }) && operation@
            == "describe_table"@ && message@ == text@,
        describe_ttl matches Err(RepositoryError::Operation { operation, message }) && operation@
            == "describe_time_to_live"@ && message@ == text@,
        enable matches Err(RepositoryError::Operation { operation, message }) && operation@
            == "update_time_to_live"@ && message@ == text@,
        enable_schema matches Err(RepositoryError::Schema(message)) && message@ == text@,
{
}

/// An attribute that is set is found under its name and leaves the others as they
/// were; a new item has none.
pub proof fn law_attribute_is_found_as_it_was_set(
    fresh: Item,
    item: &mut Item,
    name: &str,
    attribute: Attribute,
    asked: &str,
    before: Option<&Attribute>,
    after: Option<&Attribute>,
    in_fresh: Option<&Attribute>,
)
    requires
        call_ensures(Item::new, (), fresh),
        call_ensures(Item::get, (&fresh, asked), in_fresh),
        call_ensures(Item::get, (&*old(item), asked), before),
        call_ensures(Item::insert, (item, name, attribute), ()),
        call_ensures(Item::get, (&*final(item), asked), after),
    ensures
        in_fresh is None,
        asked@ == name@ ==> (after matches Some(found) && found@ == attribute@),
        asked@ != name@ ==> match before {
            Some(found) => after matches Some(same) && same@ == found@,
            None => after is None,
        },
{
}

/// The entries of an item are its attributes: each name that is set is among them,
/// with the value that it was last set to, and no other.
pub proof fn law_entries_are_the_attributes(
    item: Item,
    name: &str,
    found: Option<&Attribute>,
    entries: Vec<(String, Attribute)>,
)
    requires
        call_ensures(Item::get, (&item, name), found),
        call_ensures(Item::into_entries, (item,), entries),
    ensures
        match found {
            Some(attribute) => exists|i: int|
                0 <= i < entries@.len() && (#[trigger] entries@[i]).0@ == name@ && entries@[i].1@
                    == attribute@ && (forall|j: int|
                    i < j < entries@.len() ==> (#[trigger] entries@[j]).0@ != name@),
            None => forall|i: int|
                0 <= i < entries@.len() ==> (#[trigger] entries@[i]).0@ != name@,
        },
{
    lemma_attributes(entries@, name@);
}

proof fn lemma_attributes(entries: Seq<(String, Attribute)>, name: Seq<char>)
    ensures
        attributes(entries).contains_key(name) ==> exists|i: int|
            0 <= i < entries.len() && (#[trigger] entries[i]).0@ == name && entries[i].1@
                == attributes(entries)[name] && (forall|j: int|
                i < j < entries.len() ==> (#[trigger] entries[j]).0@ != name),
        !attributes(entries).contains_key(name) ==> forall|i: int|
            0 <= i < entries.len() ==> (#[trigger] entries[i]).0@ != name,
    decreases entries.len(),
{
    if entries.len() > 0 {
        let fewer = entries.drop_last();
        let last = entries.len() - 1;
        lemma_attributes(fewer, name);
        if entries[last].0@ == name {
            assert(entries.last() == entries[last]);
        } else if attributes(entries).contains_key(name) {
            let i = choose|i: int|
                0 <= i < fewer.len() && (#[trigger] fewer[i]).0@ == name && fewer[i].1@
                    == attributes(fewer)[name] && (forall|j: int|
                    i < j < fewer.len() ==> (#[trigger] fewer[j]).0@ != name);
            assert(entries[i] == fewer[i]);
            assert forall|j: int| i < j < entries.len() implies (#[trigger] entries[j]).0@
                != name by {
                if j < last {
                    assert(entries[j] == fewer[j]);
                }
            }
        } else {
            assert forall|i: int| 0 <= i < entries.len() implies (#[trigger] entries[i]).0@
                != name by {
                if i < last {
                    assert(entries[i] == fewer[i]);
                }
            }
        }
    }
}

} // verus!
