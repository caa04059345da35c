//! The browser's configuration: one tab per DynamoDB table, and the rules
//! that a configuration must meet before the browser starts.

use vstd::prelude::*;

use crate::text::{decimal, fmt_u64, trim, trim_str};

verus! {

/// One configured tab: a DynamoDB table and how to scan it.
#[derive(Debug, Clone)]
pub struct Tab {
    pub name: String,
    /// DynamoDB table name. Required.
    pub table: String,
    /// Max items to fetch per scan.
    pub scan_limit: u32,
    /// Region for this tab; the configuration's region when absent.
    pub region: Option<String>,
}

/// The whole configuration file.
#[derive(Debug, Clone)]
pub struct Config {
    /// Default region, overridden per tab.
    pub region: Option<String>,
    /// Polling interval; `0` disables auto-refresh.
    pub refresh_interval_secs: u64,
    /// Tab list; at least one is required.
    pub tabs: Vec<Tab>,
}

/// Why a configuration was refused.
#[derive(Debug)]
pub enum ConfigError {
    /// The configuration lists no tab.
    NoTabs,
    /// Tab `index` has an empty (or all-whitespace) table name.
    MissingTable { index: usize, name: String },
    /// Tab `index` asks for a scan limit outside `1..=1000`.
    ScanLimitOutOfRange { index: usize, name: String, scan_limit: u32 },
}

/// Polling interval used when the file gives none.
pub fn default_refresh() -> (r: u64)
    ensures
        r == 0,
{
    0
}

/// Scan limit used when a tab gives none.
pub fn default_scan_limit() -> (r: u32)
    ensures
        r == 50,
{
    50
}

/// The smallest and largest scan limits a tab may ask for.
pub open spec fn scan_limit_ok(limit: u32) -> bool {
    1 <= limit <= 1000
}

/// What is wrong with tab number `i`, if anything: a blank table name is
/// reported before a bad scan limit.
pub open spec fn tab_error(i: int, t: Tab) -> Option<ConfigError> {
    if trim(t.table@).len() == 0 {
        Some(ConfigError::MissingTable { index: i as usize, name: t.name })
    } else if !scan_limit_ok(t.scan_limit) {
        Some(ConfigError::ScanLimitOutOfRange { index: i as usize, name: t.name, scan_limit: t.scan_limit })
    } else {
        None
    }
}

/// The error of the first faulty tab at or after position `from`.
pub open spec fn first_tab_error(tabs: Seq<Tab>, from: int) -> Option<ConfigError>
    decreases tabs.len() - from,
{
    if from < 0 || from >= tabs.len() {
        None
    } else {
        match tab_error(from, tabs[from]) {
            Some(e) => Some(e),
            None => first_tab_error(tabs, from + 1),
        }
    }
}

/// What checking a configuration gives.
pub open spec fn validation(tabs: Seq<Tab>) -> Result<(), ConfigError> {
    if tabs.len() == 0 {
        Err(ConfigError::NoTabs)
    } else {
        match first_tab_error(tabs, 0) {
            Some(e) => Err(e),
            None => Ok(()),
        }
    }
}

/// A tab that passes the checks.
pub open spec fn tab_ok(t: Tab) -> bool {
    trim(t.table@).len() != 0 && scan_limit_ok(t.scan_limit)
}

proof fn lemma_first_tab_error_none(tabs: Seq<Tab>, from: int)
    requires
        0 <= from <= tabs.len(),
    ensures
        first_tab_error(tabs, from) is None <==> forall|i: int| from <= i < tabs.len() ==> tab_ok(#[trigger] tabs[i]),
    decreases tabs.len() - from,
{
    if from < tabs.len() {
        lemma_first_tab_error_none(tabs, from + 1);
    }
}

/// A configuration is accepted exactly when it lists at least one tab and
/// every tab has a non-blank table name and a scan limit in `1..=1000`.
pub proof fn lemma_validation_accepts_exactly_good_configs(cfg: Config)
    ensures
        ({
            let tabs = cfg.tabs@;
            validation(tabs) is Ok <==> (tabs.len() > 0 && forall|i: int|
                0 <= i < tabs.len() ==> trim((#[trigger] tabs[i]).table@).len() != 0 && 1 <= tabs[i].scan_limit
                    <= 1000)
        }),
{
    lemma_first_tab_error_none(cfg.tabs@, 0);
}

/// A refused configuration names the first faulty tab: every tab before it
/// passes, and the named tab fails.
pub proof fn lemma_validation_names_first_faulty_tab(cfg: Config)
    ensures
        ({
        let tabs = cfg.tabs@;
        validation(tabs) matches Err(e) ==> match e {
            ConfigError::NoTabs => tabs.len() == 0,
            ConfigError::MissingTable { index, name } => {
                &&& index < tabs.len()
                &&& forall|i: int| 0 <= i < index ==> trim((#[trigger] tabs[i]).table@).len() != 0 && 1 <= tabs[i].scan_limit <= 1000
                &&& trim(tabs[index as int].table@).len() == 0
                &&& name == tabs[index as int].name
            },
            ConfigError::ScanLimitOutOfRange { index, name, scan_limit } => {
                &&& index < tabs.len()
                &&& forall|i: int| 0 <= i < index ==> trim((#[trigger] tabs[i]).table@).len() != 0 && 1 <= tabs[i].scan_limit <= 1000
                &&& trim(tabs[index as int].table@).len() != 0
                &&& (scan_limit == 0 || scan_limit > 1000)
                &&& scan_limit == tabs[index as int].scan_limit
                &&& name == tabs[index as int].name
            },
        }
        }),
{
    assert(cfg.tabs.len() == cfg.tabs@.len());
    if cfg.tabs@.len() > 0 {
        lemma_first_error_is_first(cfg.tabs@, 0);
    }
}

proof fn lemma_first_error_is_first(tabs: Seq<Tab>, from: int)
    requires
        0 <= from <= tabs.len(),
        tabs.len() <= usize::MAX,
    ensures
        first_tab_error(tabs, from) matches Some(e) ==> match e {
            ConfigError::NoTabs => false,
            ConfigError::MissingTable { index, name } => {
                &&& from <= index < tabs.len()
                &&& forall|i: int| from <= i < index ==> tab_ok(#[trigger] tabs[i])
                &&& trim(tabs[index as int].table@).len() == 0
                &&& name == tabs[index as int].name
            },
            ConfigError::ScanLimitOutOfRange { index, name, scan_limit } => {
                &&& from <= index < tabs.len()
                &&& forall|i: int| from <= i < index ==> tab_ok(#[trigger] tabs[i])
                &&& trim(tabs[index as int].table@).len() != 0
                &&& !scan_limit_ok(scan_limit)
                &&& scan_limit == tabs[index as int].scan_limit
                &&& name == tabs[index as int].name
            },
        },
    decreases tabs.len() - from,
{
    if from < tabs.len() {
        lemma_first_error_is_first(tabs, from + 1);
    }
}

/// The text reported for a refused configuration.
pub open spec fn error_text(e: ConfigError) -> Seq<char> {
    match e {
        ConfigError::NoTabs => "config: at least one [[tabs]] entry required"@,
        ConfigError::MissingTable { index, name } => "tab #"@ + decimal(index as nat) + " ("@ + name@
            + "): `table` is required"@,
        ConfigError::ScanLimitOutOfRange { index, name, scan_limit } => "tab #"@ + decimal(index as nat)
            + " ("@ + name@ + "): scan_limit must be 1..=1000 (got "@ + decimal(scan_limit as nat) + ")"@,
    }
}

impl ConfigError {
    /// The text reported for this error.
    pub fn message(&self) -> (r: String)
        ensures
            r@ == error_text(*self),
    {
        match self {
            ConfigError::NoTabs => "config: at least one [[tabs]] entry required".to_owned(),
            ConfigError::MissingTable { index, name } => {
                let mut m = "tab #".to_owned();
                m.append(fmt_u64(*index as u64).as_str());
                m.append(" (");
                m.append(name.as_str());
                m.append("): `table` is required");
                m
            },
            ConfigError::ScanLimitOutOfRange { index, name, scan_limit } => {
                let mut m = "tab #".to_owned();
                m.append(fmt_u64(*index as u64).as_str());
                m.append(" (");
                m.append(name.as_str());
                m.append("): scan_limit must be 1..=1000 (got ");
                m.append(fmt_u64(*scan_limit as u64).as_str());
                m.append(")");
                m
            },
        }
    }
}

impl Config {
    /// The configuration written on first run, for the user to edit.
    pub const EXAMPLE: &'static str = r##"# mnml-db-dynamodb config. Edit and re-run.
#
# Optional top-level region (defers to AWS CLI when unset):
# region = "us-east-1"

refresh_interval_secs = 0

# ── Tabs ─────────────────────────────────────────────────────────
# Each [[tabs]] entry is one DynamoDB table.

[[tabs]]
name = "Sessions"
table = "user-sessions"
scan_limit = 50

[[tabs]]
name = "Orders"
table = "orders"
scan_limit = 100

[[tabs]]
name = "Events"
table = "domain-events"
"##;

    /// Checks the configuration: at least one tab, and for each tab in order
    /// a non-blank table name and a scan limit in `1..=1000`. The first
    /// failure is reported.
    pub fn validate(&self) -> (r: Result<(), ConfigError>)
        ensures
            r == validation(self.tabs@),
    {
        if self.tabs.len() == 0 {
            return Err(ConfigError::NoTabs);
        }
        let mut i: usize = 0;
        while i < self.tabs.len()
            invariant
                0 < self.tabs.len(),
                i <= self.tabs.len(),
                first_tab_error(self.tabs@, 0) == first_tab_error(self.tabs@, i as int),
            decreases self.tabs.len() - i,
        {
            let t = &self.tabs[i];
            if trim_str(t.table.as_str()).as_str().is_empty() {
                return Err(ConfigError::MissingTable { index: i, name: t.name.clone() });
            }
            if t.scan_limit == 0 || t.scan_limit > 1000 {
                return Err(
                    ConfigError::ScanLimitOutOfRange {
                        index: i,
                        name: t.name.clone(),
                        scan_limit: t.scan_limit,
                    },
                );
            }
            i = i + 1;
        }
        Ok(())
    }
}

} // verus!
