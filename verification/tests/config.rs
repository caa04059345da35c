use mnml_db_dynamodb::app::TabSpec;
use mnml_db_dynamodb::config::{default_refresh, default_scan_limit, Config, ConfigError, Tab};

fn text(v: &toml::Value, key: &str) -> Option<String> {
    v.get(key).and_then(|x| x.as_str()).map(|s| s.to_string())
}

/// Reads a configuration file the way the browser's loader does, with the
/// same defaults for absent keys.
fn parse_config(raw: &str) -> Config {
    let v: toml::Value = toml::from_str(raw).expect("parses");
    let tabs = v
        .get("tabs")
        .and_then(|t| t.as_array())
        .map(|arr| {
            arr.iter()
                .map(|t| Tab {
                    name: text(t, "name").expect("name"),
                    table: text(t, "table").expect("table"),
                    scan_limit: t
                        .get("scan_limit")
                        .and_then(|x| x.as_integer())
                        .map(|n| n as u32)
                        .unwrap_or_else(default_scan_limit),
                    region: text(t, "region"),
                })
                .collect()
        })
        .unwrap_or_default();
    Config {
        region: text(&v, "region"),
        refresh_interval_secs: v
            .get("refresh_interval_secs")
            .and_then(|x| x.as_integer())
            .map(|n| n as u64)
            .unwrap_or_else(default_refresh),
        tabs,
    }
}

fn tab(name: &str, table: &str, scan_limit: u32) -> Tab {
    Tab { name: name.to_string(), table: table.to_string(), scan_limit, region: None }
}

fn cfg(tabs: Vec<Tab>) -> Config {
    Config { region: None, refresh_interval_secs: 0, tabs }
}

#[test]
fn example_parses_and_validates() {
    let cfg: Config = parse_config(Config::EXAMPLE);
    cfg.validate().expect("validates");
}

#[test]
fn rejects_empty_table() {
    let raw = r##"
[[tabs]]
name = "bad"
table = ""
"##;
    let cfg: Config = parse_config(raw);
    assert!(cfg.validate().is_err());
}

#[test]
fn rejects_zero_scan_limit() {
    let raw = r##"
[[tabs]]
name = "bad"
table = "x"
scan_limit = 0
"##;
    let cfg: Config = parse_config(raw);
    assert!(cfg.validate().is_err());
}

#[test]
fn rejects_huge_scan_limit() {
    let raw = r##"
[[tabs]]
name = "bad"
table = "x"
scan_limit = 9999
"##;
    let cfg: Config = parse_config(raw);
    assert!(cfg.validate().is_err());
}

#[test]
fn example_has_three_tabs_with_default_limit() {
    let cfg = parse_config(Config::EXAMPLE);
    assert_eq!(cfg.tabs.len(), 3);
    assert_eq!(cfg.tabs[2].scan_limit, 50);
    assert_eq!(cfg.tabs[1].scan_limit, 100);
    assert_eq!(cfg.refresh_interval_secs, 0);
}

#[test]
fn defaults_are_zero_and_fifty() {
    assert_eq!(default_refresh(), 0);
    assert_eq!(default_scan_limit(), 50);
}

#[test]
fn no_tabs_is_refused() {
    let err = cfg(vec![]).validate().unwrap_err();
    assert!(matches!(err, ConfigError::NoTabs));
    assert_eq!(err.message(), "config: at least one [[tabs]] entry required");
}

#[test]
fn whitespace_table_counts_as_missing() {
    let err = cfg(vec![tab("ok", "t", 10), tab("blank", " \t\u{3000} ", 10)]).validate().unwrap_err();
    match &err {
        ConfigError::MissingTable { index, name } => {
            assert_eq!(*index, 1);
            assert_eq!(name, "blank");
        }
        _ => panic!("wrong error"),
    }
    assert_eq!(err.message(), "tab #1 (blank): `table` is required");
}

#[test]
fn scan_limit_bounds_are_inclusive() {
    assert!(cfg(vec![tab("a", "t", 1)]).validate().is_ok());
    assert!(cfg(vec![tab("a", "t", 1000)]).validate().is_ok());
    let err = cfg(vec![tab("a", "t", 1001)]).validate().unwrap_err();
    match &err {
        ConfigError::ScanLimitOutOfRange { index, name, scan_limit } => {
            assert_eq!(*index, 0);
            assert_eq!(name, "a");
            assert_eq!(*scan_limit, 1001);
        }
        _ => panic!("wrong error"),
    }
    assert_eq!(err.message(), "tab #0 (a): scan_limit must be 1..=1000 (got 1001)");
}

#[test]
fn first_faulty_tab_is_reported() {
    let err = cfg(vec![tab("a", "t", 5), tab("b", "t", 0), tab("c", "", 5)]).validate().unwrap_err();
    assert_eq!(err.message(), "tab #1 (b): scan_limit must be 1..=1000 (got 0)");
}

#[test]
fn blank_table_reported_before_bad_limit() {
    let err = cfg(vec![tab("z", "  ", 0)]).validate().unwrap_err();
    assert!(matches!(err, ConfigError::MissingTable { index: 0, .. }));
}

#[test]
fn resolve_prefers_tab_region() {
    let mut t = tab("a", "tbl", 7);
    let s = TabSpec::resolve(&t, Some("eu-west-1")).unwrap();
    assert_eq!(s.region.as_deref(), Some("eu-west-1"));
    assert_eq!(s.table, "tbl");
    assert_eq!(s.scan_limit, 7);
    t.region = Some("ap-south-1".to_string());
    let s = TabSpec::resolve(&t, Some("eu-west-1")).unwrap();
    assert_eq!(s.region.as_deref(), Some("ap-south-1"));
    let s = TabSpec::resolve(&tab("b", "x", 1), None).unwrap();
    assert_eq!(s.region, None);
}
