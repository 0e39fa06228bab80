use dm_mcp::config::{
    parse_journal_mode, parse_log_level, parse_synchronous, settle_log_level, Config, Variables,
};
use dm_mcp::error::Error;
use dm_mcp::text::NumberFault;

fn clean() -> Variables {
    Variables {
        db_path: None,
        db_journal_mode: None,
        db_synchronous: None,
        db_mmap_size: None,
        db_cache_size: None,
        http_bind: None,
        http_port: None,
        http_auth_token: None,
        http_max_body_bytes: None,
        log_level: None,
        content_dir: None,
    }
}

fn some(text: &str) -> Option<String> {
    Some(text.to_string())
}

#[test]
fn defaults_match_documented_values() {
    let cfg = Config::from_variables(&clean()).expect("default load");
    assert_eq!(cfg.db.path, "./campaign.db");
    assert_eq!(cfg.db.journal_mode, "WAL");
    assert_eq!(cfg.db.synchronous, "NORMAL");
    assert_eq!(cfg.db.mmap_size, 67_108_864);
    assert_eq!(cfg.db.cache_size, -32_768);
    assert_eq!(cfg.http.bind, "127.0.0.1");
    assert_eq!(cfg.http.auth_token, None);
    assert_eq!(cfg.http.max_body_bytes, 1_048_576);
    assert_eq!(cfg.http.port, 3000);
    assert_eq!(cfg.log_level, "info");
    assert!(cfg.content_dir.is_none());
}

#[test]
fn env_overrides_are_respected() {
    let mut v = clean();
    v.db_path = some("/data/campaign.db");
    v.http_port = some("8080");
    v.http_bind = some("127.0.0.1");
    v.db_mmap_size = some("134217728");
    v.log_level = some("debug");
    v.content_dir = some("/tmp/content");
    let cfg = Config::from_variables(&v).expect("override load");
    assert_eq!(cfg.db.path, "/data/campaign.db");
    assert_eq!(cfg.http.port, 8080);
    assert_eq!(cfg.http.bind, "127.0.0.1");
    assert_eq!(cfg.db.mmap_size, 134_217_728);
    assert_eq!(cfg.log_level, "debug");
    assert_eq!(cfg.content_dir, some("/tmp/content"));
}

#[test]
fn malformed_number_produces_error() {
    let mut v = clean();
    v.http_port = some("not-a-number");
    let err = Config::from_variables(&v).expect_err("should fail on bad number");
    let msg = err.message();
    assert!(msg.contains("DMMCP_HTTP_PORT"), "error should name the offending var: {msg}");
}

#[test]
fn journal_mode_is_normalised_to_uppercase() {
    let mut v = clean();
    v.db_journal_mode = some("wal");
    let cfg = Config::from_variables(&v).expect("mixed-case WAL should be accepted");
    assert_eq!(cfg.db.journal_mode, "WAL");
}

#[test]
fn journal_mode_rejects_garbage() {
    let mut v = clean();
    v.db_journal_mode = some("garbage");
    let err = Config::from_variables(&v).expect_err("should fail on unknown journal mode");
    let msg = err.message();
    assert!(msg.contains("DMMCP_DB_JOURNAL_MODE"), "error should name the offending var: {msg}");
    assert!(msg.contains("garbage"), "error should include the offending value: {msg}");
}

#[test]
fn synchronous_is_normalised_to_uppercase() {
    let mut v = clean();
    v.db_synchronous = some("full");
    let cfg = Config::from_variables(&v).expect("mixed-case FULL should be accepted");
    assert_eq!(cfg.db.synchronous, "FULL");
}

#[test]
fn synchronous_rejects_garbage() {
    let mut v = clean();
    v.db_synchronous = some("loose");
    let err = Config::from_variables(&v).expect_err("should fail on unknown synchronous mode");
    let msg = err.message();
    assert!(msg.contains("DMMCP_DB_SYNCHRONOUS"), "error should name the offending var: {msg}");
    assert!(msg.contains("loose"), "error should include the offending value: {msg}");
}

#[test]
fn log_level_accepts_simple_directive() {
    let mut v = clean();
    v.log_level = some("warn");
    let cfg = Config::from_variables(&v).expect("simple directive should parse");
    assert_eq!(cfg.log_level, "warn");
}

#[test]
fn log_level_accepts_per_target_directive() {
    let mut v = clean();
    v.log_level = some("dm_mcp=trace,warn");
    let cfg = Config::from_variables(&v).expect("per-target directive should parse");
    assert_eq!(cfg.log_level, "dm_mcp=trace,warn");
}

#[test]
fn log_level_rejects_garbage() {
    let mut v = clean();
    v.log_level = some("warng");
    let err = Config::from_variables(&v).expect_err("should fail on misspelled level");
    let msg = err.message();
    assert!(msg.contains("DMMCP_LOG_LEVEL"), "error should name the offending var: {msg}");
    assert!(msg.contains("warng"), "error should include the offending value: {msg}");
}

#[test]
fn the_case_of_modes_does_not_matter() {
    for mode in ["truncate", "Truncate", "TRUNCATE"] {
        assert_eq!(parse_journal_mode(mode), Ok("TRUNCATE".to_string()));
    }
    for mode in ["extra", "EXTRA", "eXtRa"] {
        assert_eq!(parse_synchronous(mode), Ok("EXTRA".to_string()));
    }
    assert_eq!(parse_journal_mode(""), Err(Error::SettingJournal { value: String::new() }));
    assert_eq!(parse_synchronous("3"), Err(Error::SettingSynchronous { value: "3".to_string() }));
}

#[test]
fn filters_are_read_by_the_filter() {
    assert_eq!(parse_log_level("dm_mcp[span]=debug"), Ok("dm_mcp[span]=debug".to_string()));
    assert!(parse_log_level("dm_mcp[=debug").is_err());
    assert_eq!(
        settle_log_level("a=b=c,info", Some("no".to_string())),
        Err(Error::SettingFilter { value: "a=b=c,info".to_string(), cause: "no".to_string() })
    );
    assert_eq!(
        parse_log_level("info,]").unwrap_err().message(),
        "failed to parse DMMCP_LOG_LEVEL=info,]: invalid tracing filter directive: invalid filter directive"
    );
    assert_eq!(settle_log_level("info", None), Ok("info".to_string()));
    assert_eq!(
        settle_log_level("infoo", None),
        Err(Error::SettingLevel { value: "infoo".to_string(), level: "infoo".to_string() })
    );
}

#[test]
fn numbers_have_their_sizes() {
    let mut v = clean();
    v.http_port = some("65536");
    assert_eq!(
        Config::from_variables(&v),
        Err(Error::SettingNumber {
            key: "DMMCP_HTTP_PORT".to_string(),
            value: "65536".to_string(),
            fault: NumberFault::TooLarge,
        })
    );
    assert_eq!(
        Config::from_variables(&v).unwrap_err().message(),
        "failed to parse DMMCP_HTTP_PORT=65536: parse error: number too large to fit in target type"
    );
    for text in ["x", "-", "+", "-5", "70000x", "x70000", "+65536", "12 ", "99999999999999999999"] {
        v.http_port = some(text);
        assert_eq!(
            Config::from_variables(&v).unwrap_err().message(),
            format!("failed to parse DMMCP_HTTP_PORT={text}: parse error: {}", text.parse::<u16>().unwrap_err())
        );
    }
    v.http_port = None;
    for text in ["", "-", "--1", "-9223372036854775809", "9223372036854775808", "-99999999999999999999x", "+x"] {
        v.db_cache_size = some(text);
        match text.parse::<i64>() {
            Err(e) if !text.is_empty() => assert_eq!(
                Config::from_variables(&v).unwrap_err().message(),
                format!("failed to parse DMMCP_DB_CACHE_SIZE={text}: parse error: {e}")
            ),
            _ => assert!(Config::from_variables(&v).is_ok()),
        }
    }
    let mut v = clean();
    v.db_cache_size = some("-64000");
    assert_eq!(Config::from_variables(&v).unwrap().db.cache_size, -64000);
    let mut v = clean();
    v.http_max_body_bytes = some("-1");
    assert!(Config::from_variables(&v).is_err());
}

#[test]
fn pragmas_follow_the_settings() {
    let mut v = clean();
    v.db_synchronous = some("off");
    let text = Config::from_variables(&v).unwrap().db.pragmas();
    assert!(text.contains("synchronous = OFF;"), "{text}");
    assert!(text.contains("journal_mode = WAL;"), "{text}");
    assert!(text.contains("mmap_size = 67108864;"), "{text}");
    assert!(text.contains("cache_size = -32768;"), "{text}");
    assert!(text.contains("foreign_keys = ON;"), "{text}");
}

#[test]
fn filters_are_cut_between_characters() {
    let refused = |t: &str| matches!(parse_log_level(t), Err(Error::SettingFilter { value, .. }) if value == t);
    assert!(refused("info, é=info"));
    assert!(refused("info,\u{3000}é[a]=info"));
    assert_eq!(parse_log_level("info,é=info"), Ok("info,é=info".to_string()));
    assert_eq!(parse_log_level(" é=info,warn "), Ok("é=info,warn".to_string()));
    assert_eq!(parse_log_level("info, é"), Ok("info, é".to_string()));
    assert_eq!(parse_log_level("info, dm_mcp"), Ok("info, dm_mcp".to_string()));
    for t in ["a=info, éab[x]", "info, [éa]", "info, [é=x]", "info, [ab{é=1}]", "info,  éab[x]", "info, a[b]"] {
        assert_eq!(parse_log_level(t), Ok(t.to_string()), "{t}");
    }
    let torn = [
        "info, é[a]",
        "info,  éé[a]",
        "info, [é]",
        "info, [aé{b}]",
        "info, [a{é}]",
        "info, éab[x]=info",
        "info, [é]=info",
    ];
    for t in torn {
        assert!(refused(t), "{t}");
    }
}
