//! Configuration defaults and overrides; lists and numbers.

use auria::config::{AppConfig, EnvOverrides};
use auria::models::Tier;
use auria::text::{parse_u64, split_list};

fn no_overrides() -> EnvOverrides {
    EnvOverrides { node_urls: None, bind: None, default_tier: None, max_cost_microusdc: None }
}

fn some(s: &str) -> Option<String> {
    Some(s.to_string())
}

#[test]
fn default_configuration() {
    let cfg = AppConfig::default();
    assert_eq!(cfg.bind, "127.0.0.1:8787");
    assert_eq!(cfg.node_urls, vec!["http://127.0.0.1:8080".to_string()]);
    assert_eq!(cfg.default_tier, Tier::Standard);
    assert_eq!(cfg.max_cost_microusdc, 0);
}

#[test]
fn no_override_changes_nothing() {
    let cfg = AppConfig::default().apply_env(no_overrides());
    assert_eq!(cfg.bind, "127.0.0.1:8787");
    assert_eq!(cfg.node_urls, vec!["http://127.0.0.1:8080".to_string()]);
    assert_eq!(cfg.default_tier, Tier::Standard);
    assert_eq!(cfg.max_cost_microusdc, 0);
}

#[test]
fn overrides_replace_each_setting() {
    let cfg = AppConfig::default().apply_env(EnvOverrides {
        node_urls: some("http://a:1, http://b:2 ,,http://c:3"),
        bind: some("0.0.0.0:9000"),
        default_tier: some(" pro "),
        max_cost_microusdc: some("2500"),
    });
    assert_eq!(cfg.bind, "0.0.0.0:9000");
    assert_eq!(
        cfg.node_urls,
        vec!["http://a:1".to_string(), "http://b:2".to_string(), "http://c:3".to_string()]
    );
    assert_eq!(cfg.default_tier, Tier::Pro);
    assert_eq!(cfg.max_cost_microusdc, 2500);
}

#[test]
fn unreadable_tier_and_cost_are_ignored() {
    let cfg = AppConfig {
        bind: "b".to_string(),
        node_urls: vec!["u".to_string()],
        default_tier: Tier::Max,
        max_cost_microusdc: 7,
    }
    .apply_env(EnvOverrides {
        node_urls: None,
        bind: None,
        default_tier: some("bogus"),
        max_cost_microusdc: some("12x"),
    });
    assert_eq!(cfg.default_tier, Tier::Max);
    assert_eq!(cfg.max_cost_microusdc, 7);
    assert_eq!(cfg.bind, "b");
    assert_eq!(cfg.node_urls, vec!["u".to_string()]);
}

#[test]
fn an_empty_list_leaves_no_worker() {
    let cfg = AppConfig::default().apply_env(EnvOverrides {
        node_urls: some(" , ,"),
        bind: None,
        default_tier: None,
        max_cost_microusdc: None,
    });
    assert!(cfg.node_urls.is_empty());
}

#[test]
fn split_list_trims_and_drops_empty_items() {
    let empty: Vec<String> = Vec::new();
    assert_eq!(split_list(""), empty);
    assert_eq!(split_list(","), empty);
    assert_eq!(split_list("  \t "), empty);
    assert_eq!(split_list("a"), vec!["a".to_string()]);
    assert_eq!(split_list(" a , b "), vec!["a".to_string(), "b".to_string()]);
    assert_eq!(split_list("a,,b,"), vec!["a".to_string(), "b".to_string()]);
    assert_eq!(split_list("a b,c"), vec!["a b".to_string(), "c".to_string()]);
    assert_eq!(split_list("\u{e4},\u{2003}\u{f6}\u{a0}"), vec!["\u{e4}".to_string(), "\u{f6}".to_string()]);
}

#[test]
fn split_list_agrees_with_split_trim_filter() {
    for s in ["", ",", "a", "a,b", " a ,, b ,", ",,,", "x , y,z", "http://a:1,http://b:2", "\u{3000}w\u{3000},"] {
        let expected: Vec<String> =
            s.split(',').map(|p| p.trim().to_string()).filter(|p| !p.is_empty()).collect();
        assert_eq!(split_list(s), expected, "input {:?}", s);
    }
}

#[test]
fn parse_u64_reads_decimal_numbers() {
    assert_eq!(parse_u64("0"), Some(0));
    assert_eq!(parse_u64("7"), Some(7));
    assert_eq!(parse_u64("007"), Some(7));
    assert_eq!(parse_u64("+5"), Some(5));
    assert_eq!(parse_u64("1234567890"), Some(1234567890));
    assert_eq!(parse_u64("18446744073709551615"), Some(u64::MAX));
    assert_eq!(parse_u64("00018446744073709551615"), Some(u64::MAX));
}

#[test]
fn parse_u64_refuses_everything_else() {
    assert_eq!(parse_u64(""), None);
    assert_eq!(parse_u64("+"), None);
    assert_eq!(parse_u64("-1"), None);
    assert_eq!(parse_u64("++1"), None);
    assert_eq!(parse_u64("1+"), None);
    assert_eq!(parse_u64(" 5"), None);
    assert_eq!(parse_u64("5 "), None);
    assert_eq!(parse_u64("12x"), None);
    assert_eq!(parse_u64("1_000"), None);
    assert_eq!(parse_u64("0x10"), None);
    assert_eq!(parse_u64("\u{663}"), None);
    assert_eq!(parse_u64("18446744073709551616"), None);
    assert_eq!(parse_u64("99999999999999999999999999"), None);
    assert_eq!(parse_u64("18446744073709551616x"), None);
}

#[test]
fn parse_u64_agrees_with_std() {
    for s in [
        "", "+", "-", "0", "+0", "-0", "42", "+42", "0042", "4 2", "42 ", "18446744073709551615",
        "18446744073709551616", "18446744073709551614", "1844674407370955161", "184467440737095516150",
        "a", "1a", "\u{ff11}", "+-1", "1e3", "1.0",
    ] {
        assert_eq!(parse_u64(s), s.parse::<u64>().ok(), "input {:?}", s);
    }
}
