//! The configuration of the service, as its environment gives it.

use crate::text::{is_in_lower_case, parse_decimal, quoted, trim};
use vstd::prelude::*;
use vstd::string::*;

verus! {

pub const DEFAULT_HOST: &'static str = "0.0.0.0";

pub const DEFAULT_PORT: &'static str = "8080";

pub const DEFAULT_LOG_FILTER: &'static str = "fluxgate=info,tower_http=info";

pub const DEFAULT_LOG_FORMAT: &'static str = "json";

pub const DEFAULT_REGION: &'static str = "us-east-1";

pub const DEFAULT_TABLE: &'static str = "fluxgate-rate-limits";

pub const DEFAULT_BUCKET_TTL: &'static str = "86400";

pub const DEFAULT_CONFLICT_RETRIES: &'static str = "32";

pub const MAX_CONFLICT_RETRIES: u64 = 1_000;

/// The variables of the environment, each with its text if it is set.
pub struct ConfigVars {
    pub app_host: Option<String>,
    pub app_port: Option<String>,
    pub rust_log: Option<String>,
    pub log_format: Option<String>,
    pub aws_region: Option<String>,
    pub dynamodb_endpoint: Option<String>,
    pub dynamodb_table: Option<String>,
    pub bucket_ttl_seconds: Option<String>,
    pub max_conflict_retries: Option<String>,
}

/// An IP address, as the number that its bytes spell.
#[derive(Clone, Copy, Debug, PartialEq, Eq, Structural)]
pub enum HostAddress {
    V4(u32),
    V6(u128),
}

#[derive(Clone, Debug, PartialEq, Eq)]
pub struct Config {
    pub host: HostAddress,
    pub port: u16,
    pub log_filter: String,
    pub log_format: LogFormat,
    pub max_conflict_retries: u32,
    pub dynamodb: DynamoConfig,
}

#[derive(Clone, Debug, PartialEq, Eq)]
pub struct DynamoConfig {
    pub region: String,
    pub endpoint_url: Option<String>,
    pub table_name: String,
    pub bucket_ttl_seconds: u64,
}

impl DynamoConfig {
    /// Whether to connect with test credentials: those go with an endpoint of one's
    /// own, which asks for no real ones.
    pub fn test_credentials(&self) -> (res: bool)
        ensures
            res == (self.endpoint_url is Some),
    {
        self.endpoint_url.is_some()
    }
}

#[derive(Clone, Copy, Debug, PartialEq, Eq, Structural)]
pub enum LogFormat {
    Json,
    Pretty,
}

#[derive(Debug)]
pub enum ConfigError {
    InvalidHost { value: String },
    InvalidPort { value: String },
    InvalidLogFormat { value: String },
    EmptyDynamoTable,
    InvalidBucketTtl { value: String },
    InvalidConflictRetries { value: String },
}

/// What was wrong, with the text that was rejected.
pub enum ConfigErrorModel {
    InvalidHost(Seq<char>),
    InvalidPort(Seq<char>),
    InvalidLogFormat(Seq<char>),
    EmptyDynamoTable,
    InvalidBucketTtl(Seq<char>),
    InvalidConflictRetries(Seq<char>),
}

impl View for ConfigError {
    type V = ConfigErrorModel;

    open spec fn view(&self) -> ConfigErrorModel {
        match self {
            ConfigError::InvalidHost { value } => ConfigErrorModel::InvalidHost(value@),
            ConfigError::InvalidPort { value } => ConfigErrorModel::InvalidPort(value@),
            ConfigError::InvalidLogFormat { value } => ConfigErrorModel::InvalidLogFormat(value@),
            ConfigError::EmptyDynamoTable => ConfigErrorModel::EmptyDynamoTable,
            ConfigError::InvalidBucketTtl { value } => ConfigErrorModel::InvalidBucketTtl(value@),
            ConfigError::InvalidConflictRetries { value } =>
                ConfigErrorModel::InvalidConflictRetries(value@),
        }
    }
}

/// The text that was rejected.
pub open spec fn rejected_text(error: ConfigErrorModel) -> Seq<char> {
    match error {
        ConfigErrorModel::InvalidHost(value) => value,
        ConfigErrorModel::InvalidPort(value) => value,
        ConfigErrorModel::InvalidLogFormat(value) => value,
        ConfigErrorModel::EmptyDynamoTable => ""@,
        ConfigErrorModel::InvalidBucketTtl(value) => value,
        ConfigErrorModel::InvalidConflictRetries(value) => value,
    }
}

/// What a reader is told of an error, given how the rejected text is shown.
pub open spec fn config_error_text(error: ConfigErrorModel, shown: Seq<char>) -> Seq<char> {
    match error {
        ConfigErrorModel::InvalidHost(_) => "APP_HOST must be a valid IP address, received "@
            + shown,
        ConfigErrorModel::InvalidPort(_) =>
            "APP_PORT must be a number from 1 to 65535, received "@ + shown,
        ConfigErrorModel::InvalidLogFormat(_) =>
            "LOG_FORMAT must be either 'json' or 'pretty', received "@ + shown,
        ConfigErrorModel::EmptyDynamoTable => "DYNAMODB_TABLE cannot be empty"@,
        ConfigErrorModel::InvalidBucketTtl(_) =>
            "BUCKET_TTL_SECONDS must be a positive integer, received "@ + shown,
        ConfigErrorModel::InvalidConflictRetries(_) =>
            "MAX_CONFLICT_RETRIES must be an integer from 0 to 1000, received "@ + shown,
    }
}

impl ConfigError {
    pub fn message(&self) -> (res: String)
        ensures
            res@ == config_error_text(self@, crate::text::debug_text(rejected_text(self@))),
    {
        let value: &String = match self {
            ConfigError::InvalidHost { value } => value,
            ConfigError::InvalidPort { value } => value,
            ConfigError::InvalidLogFormat { value } => value,
            ConfigError::EmptyDynamoTable => {
                return self.message_showing("");
            },
            ConfigError::InvalidBucketTtl { value } => value,
            ConfigError::InvalidConflictRetries { value } => value,
        };
        self.message_showing(quoted(value.as_str()).as_str())
    }

    /// The message with the rejected text shown as `shown`.
    pub fn message_showing(&self, shown: &str) -> (res: String)
        ensures
            res@ == config_error_text(self@, shown@),
    {
        let text: &str = match self {
            ConfigError::InvalidHost { .. } => "APP_HOST must be a valid IP address, received ",
            ConfigError::InvalidPort { .. } =>
                "APP_PORT must be a number from 1 to 65535, received ",
            ConfigError::InvalidLogFormat { .. } =>
                "LOG_FORMAT must be either 'json' or 'pretty', received ",
            ConfigError::EmptyDynamoTable => {
                return "DYNAMODB_TABLE cannot be empty".to_owned();
            },
            ConfigError::InvalidBucketTtl { .. } =>
                "BUCKET_TTL_SECONDS must be a positive integer, received ",
            ConfigError::InvalidConflictRetries { .. } =>
                "MAX_CONFLICT_RETRIES must be an integer from 0 to 1000, received ",
        };
        let mut res = text.to_owned();
        res.append(shown);
        res
    }
}

/// The text of a variable, or the default if it is not set.
pub open spec fn text_or(value: Option<String>, default: Seq<char>) -> Seq<char> {
    match value {
        Some(text) => text@,
        None => default,
    }
}

/// The log format that a text names, in any letter case.
pub open spec fn log_format_named(text: Seq<char>) -> Option<LogFormat> {
    if crate::text::lower(text) == "json"@ {
        Some(LogFormat::Json)
    } else if crate::text::lower(text) == "pretty"@ {
        Some(LogFormat::Pretty)
    } else {
        None
    }
}

/// A number that a text stands for, from `min` to `max`.
pub open spec fn number_between(text: Seq<char>, min: nat, max: nat) -> Option<nat> {
    match crate::text::parsed(text, max) {
        Some(number) => if number >= min {
            Some(number)
        } else {
            None
        },
        None => None,
    }
}

impl ConfigVars {
    pub open spec fn host_text(self) -> Seq<char> {
        text_or(self.app_host, DEFAULT_HOST@)
    }

    pub open spec fn port_text(self) -> Seq<char> {
        text_or(self.app_port, DEFAULT_PORT@)
    }

    pub open spec fn log_format_text(self) -> Seq<char> {
        text_or(self.log_format, DEFAULT_LOG_FORMAT@)
    }

    pub open spec fn table_text(self) -> Seq<char> {
        text_or(self.dynamodb_table, DEFAULT_TABLE@)
    }

    pub open spec fn ttl_text(self) -> Seq<char> {
        text_or(self.bucket_ttl_seconds, DEFAULT_BUCKET_TTL@)
    }

    pub open spec fn retries_text(self) -> Seq<char> {
        text_or(self.max_conflict_retries, DEFAULT_CONFLICT_RETRIES@)
    }

    /// The endpoint without surrounding white space; one that is empty counts as
    /// not set.
    pub open spec fn endpoint(self) -> Option<Seq<char>> {
        match self.dynamodb_endpoint {
            Some(text) => if crate::text::trimmed(text@).len() == 0 {
                None
            } else {
                Some(crate::text::trimmed(text@))
            },
            None => None,
        }
    }

    /// The first thing that is wrong with the variables, in the order in which
    /// they are looked at, given the address that the host text stands for.
    pub open spec fn error(self, host: Option<HostAddress>) -> Option<ConfigErrorModel> {
        if host is None {
            Some(ConfigErrorModel::InvalidHost(self.host_text()))
        } else if number_between(self.port_text(), 1, u16::MAX as nat) is None {
            Some(ConfigErrorModel::InvalidPort(self.port_text()))
        } else if log_format_named(self.log_format_text()) is None {
            Some(ConfigErrorModel::InvalidLogFormat(self.log_format_text()))
        } else if crate::text::trimmed(self.table_text()).len() == 0 {
            Some(ConfigErrorModel::EmptyDynamoTable)
        } else if number_between(self.ttl_text(), 1, u64::MAX as nat) is None {
            Some(ConfigErrorModel::InvalidBucketTtl(self.ttl_text()))
        } else if number_between(self.retries_text(), 0, MAX_CONFLICT_RETRIES as nat) is None {
            Some(ConfigErrorModel::InvalidConflictRetries(self.retries_text()))
        } else {
            None
        }
    }

    /// The text that the address to listen on is read from.
    pub fn host(&self) -> (res: String)
        ensures
            res@ == self.host_text(),
    {
        value_or(&self.app_host, DEFAULT_HOST)
    }
}

fn value_or(value: &Option<String>, default: &str) -> (res: String)
    ensures
        res@ == text_or(*value, default@),
{
    match value {
        Some(text) => text.clone(),
        None => default.to_owned(),
    }
}

impl Config {
    /// Reads the configuration from the variables of the environment. `host` is
    /// the address that [`ConfigVars::host`] stands for, if it is one.
    pub fn from_env(vars: &ConfigVars, host: Option<HostAddress>) -> (res: Result<
        Config,
        ConfigError,
    >)
        ensures
            match res {
                Ok(config) => {
                    &&& vars.error(host) is None
                    &&& host == Some(config.host)
                    &&& number_between(vars.port_text(), 1, u16::MAX as nat) == Some(
                        config.port as nat,
                    )
                    &&& config.log_filter@ == text_or(vars.rust_log, DEFAULT_LOG_FILTER@)
                    &&& log_format_named(vars.log_format_text()) == Some(config.log_format)
                    &&& number_between(vars.retries_text(), 0, MAX_CONFLICT_RETRIES as nat)
                        == Some(config.max_conflict_retries as nat)
                    &&& config.dynamodb.region@ == text_or(vars.aws_region, DEFAULT_REGION@)
                    &&& match config.dynamodb.endpoint_url {
                        Some(endpoint) => vars.endpoint() == Some(endpoint@),
                        None => vars.endpoint() is None,
                    }
                    &&& config.dynamodb.table_name@ == vars.table_text()
                    &&& number_between(vars.ttl_text(), 1, u64::MAX as nat) == Some(
                        config.dynamodb.bucket_ttl_seconds as nat,
                    )
                },
                Err(error) => vars.error(host) == Some(error@),
            },
    {
        let port_value = value_or(&vars.app_port, DEFAULT_PORT);
        let log_filter = value_or(&vars.rust_log, DEFAULT_LOG_FILTER);
        let log_format_value = value_or(&vars.log_format, DEFAULT_LOG_FORMAT);
        let region = value_or(&vars.aws_region, DEFAULT_REGION);
        let endpoint_url: Option<String> = match &vars.dynamodb_endpoint {
            Some(text) => {
                let endpoint = trim(text.as_str());
                if endpoint.is_empty() {
                    None
                } else {
                    Some(endpoint.to_owned())
                }
            },
            None => None,
        };
        let table_name = value_or(&vars.dynamodb_table, DEFAULT_TABLE);
        let ttl_value = value_or(&vars.bucket_ttl_seconds, DEFAULT_BUCKET_TTL);
        let retries_value = value_or(&vars.max_conflict_retries, DEFAULT_CONFLICT_RETRIES);

        let host = match host {
            Some(host) => host,
            None => {
                return Err(ConfigError::InvalidHost { value: vars.host() });
            },
        };
        let port = match parse_between(port_value.as_str(), 1, u16::MAX as u64) {
            Some(port) => port as u16,
            None => {
                return Err(ConfigError::InvalidPort { value: port_value });
            },
        };
        let log_format = if is_in_lower_case(log_format_value.as_str(), "json") {
            LogFormat::Json
        } else if is_in_lower_case(log_format_value.as_str(), "pretty") {
            LogFormat::Pretty
        } else {
            return Err(ConfigError::InvalidLogFormat { value: log_format_value });
        };
        if trim(table_name.as_str()).is_empty() {
            return Err(ConfigError::EmptyDynamoTable);
        }
        let bucket_ttl_seconds = match parse_between(ttl_value.as_str(), 1, u64::MAX) {
            Some(seconds) => seconds,
            None => {
                return Err(ConfigError::InvalidBucketTtl { value: ttl_value });
            },
        };
        let max_conflict_retries = match parse_between(
            retries_value.as_str(),
            0,
            MAX_CONFLICT_RETRIES,
        ) {
            Some(retries) => retries as u32,
            None => {
                return Err(ConfigError::InvalidConflictRetries { value: retries_value });
            },
        };

        Ok(
            Config {
                host,
                port,
                log_filter,
                log_format,
                max_conflict_retries,
                dynamodb: DynamoConfig { region, endpoint_url, table_name, bucket_ttl_seconds },
            },
        )
    }
}

fn parse_between(text: &str, min: u64, max: u64) -> (res: Option<u64>)
    ensures
        match res {
            Some(number) => number_between(text@, min as nat, max as nat) == Some(number as nat)
                && number <= max,
            None => number_between(text@, min as nat, max as nat) is None,
        },
{
    match parse_decimal(text, max) {
        Some(number) => if number >= min {
            Some(number)
        } else {
            None
        },
        None => None,
    }
}

/// Without any variable set the configuration is valid, given the address that
/// the default host stands for.
pub proof fn law_defaults_are_valid(vars: ConfigVars, host: HostAddress)
    requires
        vars.app_port is None,
        vars.log_format is None,
        vars.dynamodb_table is None,
        vars.bucket_ttl_seconds is None,
        vars.max_conflict_retries is None,
    ensures
        vars.error(Some(host)) is None,
        number_between(vars.port_text(), 1, u16::MAX as nat) == Some(8080nat),
        log_format_named(vars.log_format_text()) == Some(LogFormat::Json),
        number_between(vars.ttl_text(), 1, u64::MAX as nat) == Some(86_400nat),
        number_between(vars.retries_text(), 0, MAX_CONFLICT_RETRIES as nat) == Some(32nat),
{
    reveal_strlit("8080");
    reveal_strlit("86400");
    reveal_strlit("32");
    reveal_strlit("json");
    reveal_strlit("fluxgate-rate-limits");
    reveal_with_fuel(crate::text::decimal, 6);
    assert("8080"@ =~= crate::text::decimal(8080));
    assert("86400"@ =~= crate::text::decimal(86_400));
    assert("32"@ =~= crate::text::decimal(32));
    crate::text::law_decimal_is_read_back(8080, u16::MAX as nat);
    crate::text::law_decimal_is_read_back(86_400, u64::MAX as nat);
    crate::text::law_decimal_is_read_back(32, MAX_CONFLICT_RETRIES as nat);
    assert(crate::text::lower("json"@) =~= "json"@);
    assert(crate::text::trimmed(DEFAULT_TABLE@).len() > 0);
}

/// What the variables are refused for, in the order in which they are looked at: a
/// port is a number from 1 to 65535, a format is `json` or `pretty` in any letter
/// case, a table name is more than white space, a time to live is a number from 1 of
/// 64 bits, and retries are a number up to 1000. Each has its default where it is not
/// set, and nothing else is refused.
pub proof fn law_variables_are_refused_in_order(
    vars: ConfigVars,
    host: Option<HostAddress>,
    table: &str,
    table_left: &str,
    format: &str,
    json: bool,
    pretty: bool,
    res: Result<Config, ConfigError>,
)
    requires
        format@ == (match vars.log_format {
            Some(text) => text@,
            None => "json"@,
        }),
        call_ensures(is_in_lower_case, (format, "json"), json),
        call_ensures(is_in_lower_case, (format, "pretty"), pretty),
        table@ == (match vars.dynamodb_table {
            Some(text) => text@,
            None => "fluxgate-rate-limits"@,
        }),
        call_ensures(trim, (table,), table_left),
        call_ensures(Config::from_env, (&vars, host), res),
    ensures
        ({
            let given = |value: Option<String>, default: Seq<char>|
                match value {
                    Some(text) => text@,
                    None => default,
                };
            let host_text = given(vars.app_host, "0.0.0.0"@);
            let port_text = given(vars.app_port, "8080"@);
            let ttl_text = given(vars.bucket_ttl_seconds, "86400"@);
            let retries_text = given(vars.max_conflict_retries, "32"@);
            let port = crate::text::parsed(port_text, 65_535);
            let blank = table_left@.len() == 0;
            let ttl = crate::text::parsed(ttl_text, 0xffff_ffff_ffff_ffff);
            let retries = crate::text::parsed(retries_text, 1_000);
            let port_ok = port is Some && port->0 >= 1;
            let ttl_ok = ttl is Some && ttl->0 >= 1;
            &&& res is Ok <==> host is Some && port_ok && (json || pretty) && !blank && ttl_ok
                && retries is Some
            &&& res matches Err(error) ==> (if host is None {
                error matches ConfigError::InvalidHost { value } && value@ == host_text
            } else if !port_ok {
                error matches ConfigError::InvalidPort { value } && value@ == port_text
            } else if !(json || pretty) {
                error matches ConfigError::InvalidLogFormat { value } && value@ == format@
            } else if blank {
                error is EmptyDynamoTable
            } else if !ttl_ok {
                error matches ConfigError::InvalidBucketTtl { value } && value@ == ttl_text
            } else {
                error matches ConfigError::InvalidConflictRetries { value } && value@
                    == retries_text
            })
        }),
{
    lemma_default_texts();
}

/// An accepted configuration holds what the variables say.
pub proof fn law_configuration_is_what_the_variables_say(
    vars: ConfigVars,
    host: Option<HostAddress>,
    format: &str,
    json: bool,
    pretty: bool,
    config: Config,
)
    requires
        format@ == (match vars.log_format {
            Some(text) => text@,
            None => "json"@,
        }),
        call_ensures(is_in_lower_case, (format, "json"), json),
        call_ensures(is_in_lower_case, (format, "pretty"), pretty),
        call_ensures(Config::from_env, (&vars, host), Ok(config)),
    ensures
        ({
            let given = |value: Option<String>, default: Seq<char>|
                match value {
                    Some(text) => text@,
                    None => default,
                };
            let port_text = given(vars.app_port, "8080"@);
            let ttl_text = given(vars.bucket_ttl_seconds, "86400"@);
            let retries_text = given(vars.max_conflict_retries, "32"@);
            let port = crate::text::parsed(port_text, 65_535);
            let ttl = crate::text::parsed(ttl_text, 0xffff_ffff_ffff_ffff);
            let retries = crate::text::parsed(retries_text, 1_000);
            &&& host == Some(config.host)
            &&& port == Some(config.port as nat)
            &&& config.log_format is Json <==> json
            &&& config.log_format is Pretty <==> pretty
            &&& config.log_filter@ == given(vars.rust_log, "fluxgate=info,tower_http=info"@)
            &&& retries == Some(config.max_conflict_retries as nat)
            &&& config.dynamodb.region@ == given(vars.aws_region, "us-east-1"@)
            &&& config.dynamodb.table_name@ == given(
                vars.dynamodb_table,
                "fluxgate-rate-limits"@,
            )
            &&& ttl == Some(config.dynamodb.bucket_ttl_seconds as nat)
        }),
{
    reveal_strlit("json");
    reveal_strlit("pretty");
    assert("json"@.len() != "pretty"@.len());
    lemma_default_texts();
}

proof fn lemma_default_texts()
    ensures
        DEFAULT_HOST@ == "0.0.0.0"@,
        DEFAULT_PORT@ == "8080"@,
        DEFAULT_LOG_FILTER@ == "fluxgate=info,tower_http=info"@,
        DEFAULT_LOG_FORMAT@ == "json"@,
        DEFAULT_REGION@ == "us-east-1"@,
        DEFAULT_TABLE@ == "fluxgate-rate-limits"@,
        DEFAULT_BUCKET_TTL@ == "86400"@,
        DEFAULT_CONFLICT_RETRIES@ == "32"@,
{
}

/// Nothing is left of a text by trimming exactly if it is white space throughout.
proof fn lemma_blank(text: Seq<char>)
    ensures
        crate::text::trimmed(text).len() == 0 <==> forall|i: int|
            0 <= i < text.len() ==> crate::text::is_white_space(#[trigger] text[i]),
{
    crate::text::lemma_trimmed(text);
    let rest = crate::text::trimmed(text);
    let (start, end) = choose|start: int, end: int|
        0 <= start <= end <= text.len() && rest == #[trigger] text.subrange(start, end) && (forall|
            i: int,
        |
            0 <= i < text.len() && !(start <= i < end) ==> crate::text::is_white_space(
                #[trigger] text[i],
            ));
    if rest.len() > 0 {
        assert(rest.first() == text[start]);
    }
}

/// The endpoint is what is given, without the white space around it; one that is
/// blank is none, and test credentials go with an endpoint.
pub proof fn law_endpoint_is_given_without_white_space(
    vars: ConfigVars,
    host: Option<HostAddress>,
    config: Config,
    test_credentials: bool,
)
    requires
        call_ensures(Config::from_env, (&vars, host), Ok(config)),
        call_ensures(DynamoConfig::test_credentials, (&config.dynamodb,), test_credentials),
    ensures
        ({
            let white = |c: char|
                {
                    let code = c as int;
                    ||| 9 <= code <= 13
                    ||| code == 0x20
                    ||| code == 0x85
                    ||| code == 0xa0
                    ||| code == 0x1680
                    ||| 0x2000 <= code <= 0x200a
                    ||| code == 0x2028
                    ||| code == 0x2029
                    ||| code == 0x202f
                    ||| code == 0x205f
                    ||| code == 0x3000
                };
            let endpoint = config.dynamodb.endpoint_url;
            &&& vars.dynamodb_endpoint is None ==> endpoint is None
            &&& vars.dynamodb_endpoint matches Some(text) ==> match endpoint {
                None => forall|i: int| 0 <= i < text@.len() ==> white(#[trigger] text@[i]),
                Some(url) => {
                    &&& url@.len() > 0
                    &&& !white(url@.first())
                    &&& !white(url@.last())
                    &&& exists|start: int, end: int|
                        0 <= start <= end <= text@.len() && url@ == #[trigger] text@.subrange(
                            start,
                            end,
                        ) && (forall|i: int|
                            0 <= i < text@.len() && !(start <= i < end) ==> white(
                                #[trigger] text@[i],
                            ))
                },
            }
            &&& test_credentials <==> endpoint is Some
        }),
{
    if let Some(text) = vars.dynamodb_endpoint {
        crate::text::lemma_trimmed(text@);
        lemma_blank(text@);
    }
}

/// Every number in range is taken as it is written: every port from 1 to 65535, every
/// time to live from 1 of 64 bits, and every number of retries up to 1000.
pub proof fn law_every_number_in_range_is_taken(
    port: u64,
    ttl: u64,
    retries: u64,
    port_text: String,
    ttl_text: String,
    retries_text: String,
    vars: ConfigVars,
    host: HostAddress,
    res: Result<Config, ConfigError>,
)
    requires
        call_ensures(crate::text::to_decimal, (port,), port_text),
        call_ensures(crate::text::to_decimal, (ttl,), ttl_text),
        call_ensures(crate::text::to_decimal, (retries,), retries_text),
        vars.app_port == Some(port_text),
        vars.bucket_ttl_seconds == Some(ttl_text),
        vars.max_conflict_retries == Some(retries_text),
        vars.log_format is None,
        vars.dynamodb_table is None,
        call_ensures(Config::from_env, (&vars, Some(host)), res),
    ensures
        res is Ok <==> 1 <= port <= 65_535 && 1 <= ttl && retries <= 1_000,
        res matches Ok(config) ==> config.port == port && config.dynamodb.bucket_ttl_seconds == ttl
            && config.max_conflict_retries == retries && config.host == host,
{
    reveal_strlit("json");
    reveal_strlit("fluxgate-rate-limits");
    lemma_default_texts();
    assert(crate::text::lower("json"@) =~= "json"@);
    assert(crate::text::trimmed(DEFAULT_TABLE@).len() > 0);
    crate::text::lemma_decimal(port as nat);
    crate::text::lemma_decimal(ttl as nat);
    crate::text::lemma_decimal(retries as nat);
}

/// The host is read from what is given, or from the address of every interface.
pub proof fn law_host_text_is_what_is_given(vars: ConfigVars, text: String)
    requires
        call_ensures(ConfigVars::host, (&vars,), text),
    ensures
        match vars.app_host {
            Some(given) => text@ == given@,
            None => text@ == "0.0.0.0"@,
        },
{
    lemma_default_texts();
}

/// A message says what was expected and shows the text that was given.
pub proof fn law_configuration_messages_show_the_text(
    value: String,
    host: String,
    port: String,
    format: String,
    ttl: String,
    retries: String,
)
    requires
        call_ensures(ConfigError::message, (&ConfigError::InvalidHost { value },), host),
        call_ensures(ConfigError::message, (&ConfigError::InvalidPort { value },), port),
        call_ensures(ConfigError::message, (&ConfigError::InvalidLogFormat { value },), format),
        call_ensures(ConfigError::message, (&ConfigError::InvalidBucketTtl { value },), ttl),
        call_ensures(
            ConfigError::message,
            (&ConfigError::InvalidConflictRetries { value },),
            retries,
        ),
    ensures
        ({
            let shown = crate::text::debug_text(value@);
            &&& host@ == "APP_HOST must be a valid IP address, received "@ + shown
            &&& port@ == "APP_PORT must be a number from 1 to 65535, received "@ + shown
            &&& format@ == "LOG_FORMAT must be either 'json' or 'pretty', received "@ + shown
            &&& ttl@ == "BUCKET_TTL_SECONDS must be a positive integer, received "@ + shown
            &&& retries@ == "MAX_CONFLICT_RETRIES must be an integer from 0 to 1000, received "@
                + shown
        }),
{
}

} // verus!
