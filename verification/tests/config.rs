use fluxgate::config::{
    Config, ConfigError, ConfigVars, HostAddress, LogFormat, DEFAULT_HOST, DEFAULT_PORT,
};
use fluxgate::policies::PolicyRegistry;

const HOST: Option<HostAddress> = Some(HostAddress::V4(0));

fn vars() -> ConfigVars {
    ConfigVars {
        app_host: None,
        app_port: None,
        rust_log: None,
        log_format: None,
        aws_region: None,
        dynamodb_endpoint: None,
        dynamodb_table: None,
        bucket_ttl_seconds: None,
        max_conflict_retries: None,
    }
}

fn text(value: &str) -> Option<String> {
    Some(value.to_owned())
}

#[test]
fn defaults_are_valid() {
    assert_eq!(DEFAULT_HOST, "0.0.0.0");
    assert_eq!(DEFAULT_PORT.parse::<u16>().expect("default port"), 8080);
    let config = Config::from_env(&vars(), HOST).unwrap();
    assert_eq!(config.host, HostAddress::V4(0));
    assert_eq!(config.port, 8080);
    assert_eq!(config.log_filter, "fluxgate=info,tower_http=info");
    assert_eq!(config.log_format, LogFormat::Json);
    assert_eq!(config.max_conflict_retries, 32);
    assert_eq!(config.dynamodb.region, "us-east-1");
    assert_eq!(config.dynamodb.endpoint_url, None);
    assert!(!config.dynamodb.test_credentials());
    assert_eq!(config.dynamodb.table_name, "fluxgate-rate-limits");
    assert_eq!(config.dynamodb.bucket_ttl_seconds, 86_400);
}

#[test]
fn variables_override_the_defaults() {
    let host = HostAddress::V6(1);
    let vars = ConfigVars {
        app_host: text("::1"),
        app_port: text("+65535"),
        rust_log: text("debug"),
        log_format: text("PreTTY"),
        aws_region: text("eu-west-1"),
        dynamodb_endpoint: text(" \thttp://localhost:8000\u{3000}\n"),
        dynamodb_table: text(" buckets "),
        bucket_ttl_seconds: text("18446744073709551615"),
        max_conflict_retries: text("1000"),
    };
    assert_eq!(vars.host(), "::1");
    let config = Config::from_env(&vars, Some(host)).unwrap();
    assert_eq!(config.host, host);
    assert_eq!(config.port, 65_535);
    assert_eq!(config.log_filter, "debug");
    assert_eq!(config.log_format, LogFormat::Pretty);
    assert_eq!(config.max_conflict_retries, 1_000);
    assert_eq!(config.dynamodb.region, "eu-west-1");
    assert_eq!(
        config.dynamodb.endpoint_url.as_deref(),
        Some("http://localhost:8000")
    );
    assert!(config.dynamodb.test_credentials());
    assert_eq!(config.dynamodb.table_name, " buckets ");
    assert_eq!(config.dynamodb.bucket_ttl_seconds, u64::MAX);
}

fn failure(vars: ConfigVars) -> String {
    Config::from_env(&vars, HOST).unwrap_err().message()
}

#[test]
fn invalid_host_is_rejected() {
    let vars = ConfigVars {
        app_host: text("local\"host\n"),
        app_port: text("also wrong"),
        ..vars()
    };
    let error = Config::from_env(&vars, None).unwrap_err();
    assert!(matches!(&error, ConfigError::InvalidHost { value } if value == "local\"host\n"));
    assert_eq!(
        error.message(),
        r#"APP_HOST must be a valid IP address, received "local\"host\n""#
    );
    assert_eq!(
        error.message_showing("<x>"),
        "APP_HOST must be a valid IP address, received <x>"
    );
}

#[test]
fn invalid_ports_are_rejected() {
    for port in ["0", "65536", "-1", "", "80 ", "http"] {
        let vars = ConfigVars {
            app_port: text(port),
            log_format: text("xml"),
            ..vars()
        };
        assert_eq!(
            failure(vars),
            format!("APP_PORT must be a number from 1 to 65535, received {port:?}")
        );
    }
}

#[test]
fn invalid_log_formats_are_rejected() {
    for format in ["", "xml", "json ", "\u{212a}son", "JSONS"] {
        let vars = ConfigVars {
            log_format: text(format),
            dynamodb_table: text(""),
            ..vars()
        };
        assert_eq!(
            failure(vars),
            format!("LOG_FORMAT must be either 'json' or 'pretty', received {format:?}")
        );
    }
}

#[test]
fn empty_tables_are_rejected() {
    for table in ["", " ", "\t\u{a0}\u{2003}\r\n"] {
        let vars = ConfigVars {
            dynamodb_table: text(table),
            bucket_ttl_seconds: text("0"),
            ..vars()
        };
        assert_eq!(failure(vars), "DYNAMODB_TABLE cannot be empty");
    }
}

#[test]
fn invalid_lifetimes_are_rejected() {
    for ttl in ["0", "1.5", "18446744073709551616"] {
        let vars = ConfigVars {
            bucket_ttl_seconds: text(ttl),
            max_conflict_retries: text("many"),
            ..vars()
        };
        assert_eq!(
            failure(vars),
            format!("BUCKET_TTL_SECONDS must be a positive integer, received {ttl:?}")
        );
    }
}

#[test]
fn invalid_retry_budgets_are_rejected() {
    for retries in ["1001", "-1", "4294967296"] {
        let vars = ConfigVars {
            max_conflict_retries: text(retries),
            ..vars()
        };
        assert_eq!(
            failure(vars),
            format!("MAX_CONFLICT_RETRIES must be an integer from 0 to 1000, received {retries:?}")
        );
    }
    let none = ConfigVars {
        max_conflict_retries: text("0"),
        ..vars()
    };
    assert_eq!(Config::from_env(&none, HOST).unwrap().max_conflict_retries, 0);
}

#[test]
fn endpoints_are_trimmed_as_the_standard_library_trims_them() {
    for code in 0..=0x3100u32 {
        let Some(c) = char::from_u32(code) else {
            continue;
        };
        let raw = format!("{c}x{c}y{c}{c}");
        let padded = ConfigVars {
            dynamodb_endpoint: Some(raw.clone()),
            ..vars()
        };
        let config = Config::from_env(&padded, HOST).unwrap();
        assert_eq!(config.dynamodb.endpoint_url.as_deref(), Some(raw.trim()));
        let blank = ConfigVars {
            dynamodb_endpoint: Some(c.to_string()),
            ..vars()
        };
        let config = Config::from_env(&blank, HOST).unwrap();
        assert_eq!(config.dynamodb.endpoint_url.is_none(), c.is_whitespace());
    }
}

#[test]
fn shipped_policies_can_be_looked_up() {
    let policies = PolicyRegistry::built_in().unwrap();
    let parts = |name: &str| {
        policies
            .get(name)
            .map(|policy| (policy.capacity(), policy.refill_tokens(), policy.refill_period_ms()))
    };
    assert_eq!(parts("default"), Some((100, 100, 60_000)));
    assert_eq!(parts("login"), Some((10, 10, 60_000)));
    assert_eq!(parts("expensive_api"), Some((20, 20, 300_000)));
    assert_eq!(parts("missing"), None);
    assert_eq!(parts("Default"), None);
    assert_eq!(parts(""), None);
    let copy = policies.clone();
    assert!(copy.get("login").is_some());
}
