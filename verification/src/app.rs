//! The browser's state: one tab per configured table, the active tab, each
//! tab's items and selection, and the status line. Scans, the web browser
//! and the clipboard are driven from outside: the methods here decide what
//! to ask for and take in what came back.

use vstd::prelude::*;

use crate::config::{Config, ConfigError, Tab};
use crate::dynamodb::{console_url, console_url_text, DynamoEvent, Item, TableMeta};
use crate::json::{json_pretty, pretty_json};
use crate::text::{decimal, digits_value, first_lines, fmt_u64, lemma_concat_ends, lemma_decimal_reads_back, lines, opt_text};
use vstd::utf8::encode_utf8;

verus! {

/// Where and how much one tab scans.
#[derive(Debug, Clone)]
pub struct TabSpec {
    pub region: Option<String>,
    pub table: String,
    pub scan_limit: u32,
}

/// One tab: its table, the items of its last scan and the selection.
pub struct TabState {
    pub name: String,
    pub spec: TabSpec,
    pub items: Vec<Item>,
    pub meta: Option<TableMeta>,
    pub selected: usize,
    pub last_error: Option<String>,
    pub loading: bool,
}

/// The whole browser.
pub struct App {
    pub cfg: Config,
    pub tabs: Vec<TabState>,
    pub active_tab: usize,
    pub status: String,
}

/// How copying the focused item to the clipboard went.
#[derive(Debug)]
pub enum YankOutcome {
    /// No item was selected, so nothing was copied.
    NothingSelected,
    /// This JSON text was copied.
    Copied(String),
    /// The clipboard refused; its error text.
    CopyFailed(String),
}

/// The region a tab scans in: its own, else the configuration's.
pub open spec fn resolved_region(t: Tab, default_region: Option<Seq<char>>) -> Option<Seq<char>> {
    match t.region {
        Some(r) => Some(r@),
        None => default_region,
    }
}

/// An optional text as an optional view.
pub open spec fn opt_str(o: Option<&str>) -> Option<Seq<char>> {
    match o {
        Some(s) => Some(s@),
        None => None,
    }
}

/// A tab's selection points at one of its items, or is 0 when it has none.
pub open spec fn selection_ok(t: TabState) -> bool {
    t.selected == 0 || t.selected < t.items@.len()
}

/// `t` with a scan started: loading, and no error shown.
pub open spec fn started(t: TabState) -> TabState {
    TabState { loading: true, last_error: None, ..t }
}

/// The status line while a tab is being scanned.
pub open spec fn scanning_status(name: Seq<char>) -> Seq<char> {
    "scanning "@ + name + "…"@
}

/// `x` held between `lo` and `hi`.
pub open spec fn clamp(x: int, lo: int, hi: int) -> int {
    if x < lo {
        lo
    } else if x > hi {
        hi
    } else {
        x
    }
}

/// The selection after a scan brought `n` items: kept when it still points
/// at an item, else moved to the last item (0 when there is none).
pub open spec fn selection_after_scan(selected: usize, n: nat) -> usize {
    if selected >= n {
        if n == 0 {
            0
        } else {
            (n - 1) as usize
        }
    } else {
        selected
    }
}

/// The tab after the outcome of its scan arrived.
pub open spec fn after_event(t: TabState, ev: DynamoEvent) -> TabState {
    match ev {
        DynamoEvent::Scanned { items, meta } => TabState {
            items,
            meta: Some(meta),
            loading: false,
            last_error: None,
            selected: selection_after_scan(t.selected, items@.len()),
            ..t
        },
        DynamoEvent::Failed(e) => TabState { last_error: Some(e), loading: false, ..t },
    }
}

/// The status line after the outcome of a scan of tab `name` arrived.
pub open spec fn event_status(name: Seq<char>, ev: DynamoEvent) -> Seq<char> {
    match ev {
        DynamoEvent::Scanned { items, .. } => name + " · "@ + decimal(items@.len()) + " items (scan)"@,
        DynamoEvent::Failed(e) => "error: "@ + e@,
    }
}

/// What the body of a tab shows.
#[derive(Debug)]
pub enum BodyView {
    /// A message instead of items; `error` marks a failed scan.
    Notice { text: String, error: bool },
    /// The item list and the focused item.
    Items,
}

/// The status line after trying to open `url` in a web browser.
pub open spec fn console_status(url: Seq<char>, outcome: Result<(), String>) -> Seq<char> {
    match outcome {
        Ok(()) => "opened "@ + url,
        Err(e) => "open failed: "@ + e@,
    }
}

/// The status line after a copy to the clipboard.
pub open spec fn yank_status(outcome: YankOutcome) -> Seq<char> {
    match outcome {
        YankOutcome::NothingSelected => "no item selected"@,
        YankOutcome::Copied(json) => "copied 1 item ("@ + decimal(encode_utf8(json@).len()) + " bytes JSON)"@,
        YankOutcome::CopyFailed(e) => "copy failed: "@ + e@,
    }
}

/// The label of tab number `i` (from 0) in the tab strip: its number from
/// 1, its name, and the item count, or a note while a first scan runs.
pub open spec fn tab_label(i: int, t: TabState) -> Seq<char> {
    let suffix = if t.loading && t.items@.len() == 0 {
        " · scanning"@
    } else if t.items@.len() != 0 {
        " ("@ + decimal(t.items@.len()) + ")"@
    } else {
        ""@
    };
    decimal((i + 1) as nat) + "."@ + t.name@ + suffix
}

/// The title of a tab's item list: its name, and its key attributes once
/// the table was described (`?` for an unknown hash key).
pub open spec fn body_title(t: TabState) -> Seq<char> {
    match t.meta {
        Some(m) => {
            let pk = match m.pk_field {
                Some(p) => p@,
                None => "?"@,
            };
            let sk = match m.sk_field {
                Some(k) => " / "@ + k@,
                None => ""@,
            };
            " "@ + t.name@ + " · pk: "@ + pk + sk + " "@
        },
        None => " "@ + t.name@ + " "@,
    }
}

/// What the body of a tab shows: the last error, else a note while the
/// first scan runs, else a note for an empty table, else the items.
pub open spec fn body_view_of(t: TabState, v: BodyView) -> bool {
    match t.last_error {
        Some(err) => v matches BodyView::Notice { text, error } && error && text@ == "error: "@ + err@
            + "\n\nPress `r` to retry."@,
        None => if t.loading && t.items@.len() == 0 {
            v matches BodyView::Notice { text, error } && !error && text@ == "scanning…"@
        } else if t.items@.len() == 0 {
            v matches BodyView::Notice { text, error } && !error && text@ == "(table empty for this scan)"@
        } else {
            v is Items
        },
    }
}

/// The pretty JSON of a tab's focused item; empty when nothing is focused.
pub open spec fn focused_json(t: TabState) -> Seq<char> {
    if t.selected < t.items@.len() {
        json_pretty(t.items@[t.selected as int].raw)
    } else {
        Seq::empty()
    }
}

/// `r` is what `y` copies from tab `t`: the focused item's pretty JSON.
pub open spec fn is_yank_text(t: TabState, r: Option<String>) -> bool {
    if t.selected < t.items@.len() {
        r matches Some(s) && s@ == json_pretty(t.items@[t.selected as int].raw)
    } else {
        r is None
    }
}

/// The detail panel shows the lines of the very JSON text that `y` copies
/// (nothing when no item is focused).
pub proof fn lemma_detail_shows_yanked_json(t: TabState, r: Option<String>)
    requires
        is_yank_text(t, r),
    ensures
        r matches Some(s) ==> lines(focused_json(t)) == lines(s@),
        r is None ==> focused_json(t) == Seq::<char>::empty(),
{
}

/// `b` is `a` after `switch_tab(idx)` returned `r`.
pub open spec fn switch_step(a: App, idx: usize, b: App, r: Option<TabSpec>) -> bool {
    if idx >= a.tabs@.len() {
        b == a && r is None
    } else {
        let t = a.tabs@[idx as int];
        let mid = App { active_tab: idx, ..a };
        if t.items@.len() == 0 && !t.loading {
            refresh_step(mid, b, r->0) && r is Some
        } else {
            b == mid && r is None
        }
    }
}

/// A tab's label starts with its number counted from 1 and its name; it
/// ends with the item count in brackets once the tab holds items, with
/// ` · scanning` while a first scan runs, and with nothing more otherwise.
pub proof fn lemma_tab_label_parts(i: int, t: TabState)
    requires
        0 <= i,
    ensures
        (decimal((i + 1) as nat) + "."@ + t.name@).is_prefix_of(tab_label(i, t)),
        t.items@.len() > 0 ==> (" ("@ + decimal(t.items@.len()) + ")"@).is_suffix_of(tab_label(i, t)),
        t.items@.len() == 0 && t.loading ==> " · scanning"@.is_suffix_of(tab_label(i, t)),
        t.items@.len() == 0 && !t.loading ==> tab_label(i, t) == decimal((i + 1) as nat) + "."@ + t.name@,
{
    let head = decimal((i + 1) as nat) + "."@ + t.name@;
    if t.items@.len() > 0 {
        let tail = " ("@ + decimal(t.items@.len()) + ")"@;
        lemma_concat_ends(head, tail);
    } else if t.loading {
        lemma_concat_ends(head, " · scanning"@);
    } else {
        reveal_strlit("");
        assert(head + ""@ =~= head);
        lemma_concat_ends(head, ""@);
    }
}

/// The list title names the tab; once the table is described it also
/// names the hash key (`?` when unknown) and, when there is one, the sort
/// key after ` / `.
pub proof fn lemma_title_names_keys(t: TabState)
    ensures
        (" "@ + t.name@).is_prefix_of(body_title(t)),
        t.meta is None ==> body_title(t) == " "@ + t.name@ + " "@,
        forall|m: TableMeta, p: String, q: String|
            t.meta == Some(m) && m.pk_field == Some(p) && m.sk_field == Some(q) ==> body_title(t) == " "@ + t.name@ + " · pk: "@
                + p@ + " / "@ + q@ + " "@,
        forall|m: TableMeta, q: String|
            t.meta == Some(m) && m.pk_field is None && m.sk_field == Some(q) ==> body_title(t) == " "@ + t.name@
                + " · pk: "@ + "?"@ + " / "@ + q@ + " "@,
        forall|m: TableMeta, p: String|
            t.meta == Some(m) && m.pk_field == Some(p) && m.sk_field is None ==> body_title(t) == " "@ + t.name@
                + " · pk: "@ + p@ + " "@,
{
    let head = " "@ + t.name@;
    match t.meta {
        Some(m) => {
            let pk = match m.pk_field {
                Some(p) => p@,
                None => "?"@,
            };
            let sk = match m.sk_field {
                Some(k) => " / "@ + k@,
                None => ""@,
            };
            let rest = " · pk: "@ + pk + sk + " "@;
            assert(body_title(t) =~= head + rest);
            lemma_concat_ends(head, rest);
            if m.sk_field is None {
                reveal_strlit("");
                assert(sk =~= Seq::<char>::empty());
            }
        },
        None => {
            lemma_concat_ends(head, " "@);
        },
    }
}

/// `b` is `a` after `move_selection(delta)`.
pub open spec fn move_step(a: App, delta: isize, b: App) -> bool {
    let t = a.active_state();
    if t.items@.len() == 0 {
        b == a
    } else {
        &&& b.cfg == a.cfg
        &&& b.active_tab == a.active_tab
        &&& b.status == a.status
        &&& b.tabs@ == a.tabs@.update(
            a.active_tab as int,
            TabState { selected: clamp(t.selected + delta, 0, t.items@.len() - 1) as usize, ..t },
        )
    }
}

/// Moving the selection of a tab with `n > 0` items lands on `old + delta`
/// when that is an item, on the first item when it would go before it and
/// on the last item when it would go past it; nothing else of the browser
/// changes. A tab without items is left as it is.
pub proof fn lemma_move_is_held_in_range(a: App, delta: isize, b: App)
    requires
        a.wf(),
        move_step(a, delta, b),
    ensures
        ({
            let t = a.active_state();
            let n = t.items@.len() as int;
            let want = t.selected + delta;
            let got = b.tabs@[a.active_tab as int].selected as int;
            &&& b.active_tab == a.active_tab
            &&& b.tabs@.len() == a.tabs@.len()
            &&& forall|i: int| 0 <= i < a.tabs@.len() && i != a.active_tab ==> b.tabs@[i] == a.tabs@[i]
            &&& n == 0 ==> b == a
            &&& n > 0 ==> {
                &&& 0 <= got < n
                &&& b.tabs@[a.active_tab as int].items == t.items
                &&& (0 <= want < n ==> got == want)
                &&& (want < 0 ==> got == 0)
                &&& (want >= n ==> got == n - 1)
            }
        }),
{
    let t = a.active_state();
    assert(t.items.len() == t.items@.len());
    if t.items@.len() > 0 {
        assert(b.tabs@[a.active_tab as int].selected as int == clamp(t.selected + delta, 0, t.items@.len() - 1));
    }
}

/// Moving further never lands earlier: from one state, a larger `delta`
/// gives a selection at least as far down. In particular moving down from
/// the last item, or up from the first, leaves the selection where it is.
pub proof fn lemma_move_is_monotone(a: App, d1: isize, b1: App, d2: isize, b2: App)
    requires
        a.wf(),
        a.active_state().items@.len() > 0,
        move_step(a, d1, b1),
        move_step(a, d2, b2),
        d1 <= d2,
    ensures
        b1.tabs@[a.active_tab as int].selected <= b2.tabs@[a.active_tab as int].selected,
        d1 > 0 && a.active_state().selected == a.active_state().items@.len() - 1
            ==> b1.tabs@[a.active_tab as int].selected == a.active_state().selected,
        d2 < 0 && a.active_state().selected == 0 ==> b2.tabs@[a.active_tab as int].selected == 0,
{
    let t = a.active_state();
    assert(t.items.len() == t.items@.len());
    assert(b1.tabs@[a.active_tab as int].selected as int == clamp(t.selected + d1, 0, t.items@.len() - 1));
    assert(b2.tabs@[a.active_tab as int].selected as int == clamp(t.selected + d2, 0, t.items@.len() - 1));
}

/// After a scan of tab `idx` brought `items`, the tab holds exactly those
/// items and the table description, shows no error and is not loading; its
/// selection stays where it was when that is still an item, else it moves
/// to the last item (to 0 when there are none). Other tabs are untouched.
pub proof fn lemma_scan_keeps_valid_selection(a: App, idx: usize, items: Vec<Item>, meta: TableMeta, b: App)
    requires
        a.wf(),
        idx < a.tabs@.len(),
        event_step(a, idx, DynamoEvent::Scanned { items, meta }, b),
    ensures
        ({
            let old_sel = a.tabs@[idx as int].selected;
            let t = b.tabs@[idx as int];
            &&& t.items == items
            &&& t.meta == Some(meta)
            &&& t.last_error is None
            &&& !t.loading
            &&& t.name == a.tabs@[idx as int].name
            &&& t.spec == a.tabs@[idx as int].spec
            &&& (old_sel < items@.len() ==> t.selected == old_sel)
            &&& (old_sel >= items@.len() && items@.len() > 0 ==> t.selected == items@.len() - 1)
            &&& (items@.len() == 0 ==> t.selected == 0)
            &&& forall|i: int| 0 <= i < a.tabs@.len() && i != idx ==> b.tabs@[i] == a.tabs@[i]
        }),
{
}

/// The body shows the last error when there is one; otherwise the items
/// whenever there are any, also while a re-scan runs. The scanning note
/// and the empty-table note appear only for a tab without items.
pub proof fn lemma_body_shows_items_when_present(t: TabState, v: BodyView)
    requires
        body_view_of(t, v),
    ensures
        t.last_error is Some ==> (v matches BodyView::Notice { error, .. } && error),
        t.last_error is None && t.items@.len() > 0 ==> v is Items,
        (v matches BodyView::Notice { error, .. } && !error) ==> t.items@.len() == 0 && t.last_error is None,
        t.last_error is None && t.items@.len() == 0 ==> (v matches BodyView::Notice { error, .. } && !error),
        v is Items ==> t.last_error is None && t.items@.len() > 0,
{
}

/// `b` is `a` after `refresh_active()` returned the request `r`.
pub open spec fn refresh_step(a: App, b: App, r: TabSpec) -> bool {
    b.refreshed_from(a) && r == a.active_state().spec
}

/// `b` is `a` after `apply_event(idx, ev)`.
pub open spec fn event_step(a: App, idx: usize, ev: DynamoEvent, b: App) -> bool {
    &&& b.cfg == a.cfg
    &&& b.active_tab == a.active_tab
    &&& b.tabs@ == a.tabs@.update(idx as int, after_event(a.tabs@[idx as int], ev))
    &&& b.status@ == event_status(a.tabs@[idx as int].name@, ev)
}

/// Switching to a tab a second time asks for no scan and changes nothing:
/// a tab is scanned on its first activation only.
pub proof fn lemma_switch_twice_scans_once(a: App, idx: usize, b: App, r1: Option<TabSpec>, c: App, r2: Option<TabSpec>)
    requires
        a.wf(),
        switch_step(a, idx, b, r1),
        switch_step(b, idx, c, r2),
    ensures
        r2 is None,
        c == b,
{
    if idx < a.tabs@.len() {
        let t = a.tabs@[idx as int];
        let mid = App { active_tab: idx, ..a };
        if t.items@.len() == 0 && !t.loading {
            assert(b.tabs@[idx as int] == started(mid.tabs@[idx as int]));
        }
        assert(App { active_tab: idx, ..b } == b);
    }
}

/// After a refresh of the active tab and the arrival of its scan's items,
/// the tab shows exactly those items, no error, and is no longer loading;
/// the refresh asked for a scan of that very tab's table.
pub proof fn lemma_refresh_then_scan_shows_items(
    a: App,
    b: App,
    req: TabSpec,
    items: Vec<Item>,
    meta: TableMeta,
    c: App,
)
    requires
        a.wf(),
        refresh_step(a, b, req),
        event_step(b, a.active_tab, DynamoEvent::Scanned { items, meta }, c),
    ensures
        req == a.active_state().spec,
        c.active_state().items == items,
        c.active_state().meta == Some(meta),
        c.active_state().last_error is None,
        !c.active_state().loading,
        selection_ok(c.active_state()),
{
}

/// Refreshing marks only the active tab as loading and clears its error;
/// its items, selection and table stay as they were, and the scan asked for
/// is that tab's own.
pub proof fn lemma_refresh_keeps_items(a: App, b: App, req: TabSpec)
    requires
        a.wf(),
        refresh_step(a, b, req),
    ensures
        ({
            let i = a.active_tab as int;
            &&& b.active_tab == a.active_tab
            &&& b.tabs@.len() == a.tabs@.len()
            &&& b.tabs@[i].loading
            &&& b.tabs@[i].last_error is None
            &&& b.tabs@[i].items == a.tabs@[i].items
            &&& b.tabs@[i].selected == a.tabs@[i].selected
            &&& b.tabs@[i].meta == a.tabs@[i].meta
            &&& b.tabs@[i].spec == a.tabs@[i].spec
            &&& req == a.tabs@[i].spec
            &&& forall|j: int| 0 <= j < a.tabs@.len() && j != i ==> b.tabs@[j] == a.tabs@[j]
        }),
{
}

/// A failed scan keeps the items the tab already showed and records the
/// error.
pub proof fn lemma_failed_scan_keeps_items(a: App, idx: usize, e: String, b: App)
    requires
        a.wf(),
        idx < a.tabs@.len(),
        event_step(a, idx, DynamoEvent::Failed(e), b),
    ensures
        b.tabs@[idx as int].items == a.tabs@[idx as int].items,
        b.tabs@[idx as int].last_error == Some(e),
        !b.tabs@[idx as int].loading,
{
}

impl TabSpec {
    /// The tab's table, scan limit and region: its own region, else
    /// `default_region`. Always succeeds.
    pub fn resolve(t: &Tab, default_region: Option<&str>) -> (r: Result<Self, ConfigError>)
        ensures
            r matches Ok(s) && s.table@ == t.table@ && s.scan_limit == t.scan_limit && opt_text(s.region)
                == resolved_region(*t, opt_str(default_region)),
    {
        let region = match &t.region {
            Some(r) => Some(r.clone()),
            None => match default_region {
                Some(d) => Some(d.to_owned()),
                None => None,
            },
        };
        Ok(TabSpec { region, table: t.table.clone(), scan_limit: t.scan_limit })
    }

    /// An equal spec.
    pub fn copy(&self) -> (r: TabSpec)
        ensures
            r == *self,
    {
        let region = match &self.region {
            Some(r) => Some(r.clone()),
            None => None,
        };
        TabSpec { region, table: self.table.clone(), scan_limit: self.scan_limit }
    }
}

impl TabState {
    /// The title of this tab's item list.
    pub fn title(&self) -> (r: String)
        ensures
            r@ == body_title(*self),
    {
        let mut t = " ".to_owned();
        t.append(self.name.as_str());
        if let Some(m) = &self.meta {
            t.append(" · pk: ");
            match &m.pk_field {
                Some(p) => t.append(p.as_str()),
                None => t.append("?"),
            }
            match &m.sk_field {
                Some(k) => {
                    t.append(" / ");
                    t.append(k.as_str());
                },
                None => t.append(""),
            }
        }
        t.append(" ");
        t
    }

    /// What this tab's body shows.
    pub fn body(&self) -> (r: BodyView)
        ensures
            body_view_of(*self, r),
    {
        if let Some(err) = &self.last_error {
            let mut text = "error: ".to_owned();
            text.append(err.as_str());
            text.append("\n\nPress `r` to retry.");
            return BodyView::Notice { text, error: true };
        }
        if self.loading && self.items.len() == 0 {
            return BodyView::Notice { text: "scanning…".to_owned(), error: false };
        }
        if self.items.len() == 0 {
            return BodyView::Notice { text: "(table empty for this scan)".to_owned(), error: false };
        }
        BodyView::Items
    }

    /// The lines of the focused item's pretty JSON that fit a panel
    /// `height` rows tall (two rows go to the border).
    pub fn detail_lines(&self, height: u16) -> (r: Vec<String>)
        ensures
            ({
                let all = lines(focused_json(*self));
                let room: int = if height >= 2 {
                    height - 2
                } else {
                    0
                };
                r@.map_values(|l: String| l@) == all.take(
                    if room < all.len() {
                        room
                    } else {
                        all.len() as int
                    },
                )
            }),
    {
        let json = if self.selected < self.items.len() {
            pretty_json(&self.items[self.selected].raw)
        } else {
            String::new()
        };
        let room: u16 = if height >= 2 {
            height - 2
        } else {
            0
        };
        first_lines(json.as_str(), room as usize)
    }

    /// A tab that has not scanned yet.
    fn empty(name: String, spec: TabSpec) -> (r: TabState)
        ensures
            r.name == name,
            r.spec == spec,
            r.items@.len() == 0,
            r.meta is None,
            r.selected == 0,
            r.last_error is None,
            !r.loading,
    {
        TabState { name, spec, items: Vec::new(), meta: None, selected: 0, last_error: None, loading: false }
    }
}

impl App {
    /// The browser's invariant: at least one tab, the active tab exists,
    /// and every tab's selection is valid.
    pub open spec fn wf(&self) -> bool {
        &&& self.tabs@.len() > 0
        &&& self.active_tab < self.tabs@.len()
        &&& forall|i: int| 0 <= i < self.tabs@.len() ==> selection_ok(#[trigger] self.tabs@[i])
    }

    /// The active tab in the spec world.
    pub open spec fn active_state(&self) -> TabState {
        self.tabs@[self.active_tab as int]
    }

    /// `self` after the active tab started a scan.
    pub open spec fn refreshed_from(&self, old: App) -> bool {
        let a = old.active_tab as int;
        &&& self.cfg == old.cfg
        &&& self.active_tab == old.active_tab
        &&& self.tabs@ == old.tabs@.update(a, started(old.tabs@[a]))
        &&& self.status@ == scanning_status(old.tabs@[a].name@)
    }

    /// One tab per configured tab, in order, with nothing scanned yet, and a
    /// scan of the first tab started; the request for that scan comes with it.
    pub fn new(cfg: Config) -> (r: Result<(App, TabSpec), ConfigError>)
        requires
            cfg.tabs@.len() > 0,
        ensures
            r matches Ok((app, req)) && {
                &&& app.wf()
                &&& app.cfg == cfg
                &&& app.active_tab == 0
                &&& app.tabs@.len() == cfg.tabs@.len()
                &&& forall|i: int| 0 <= i < cfg.tabs@.len() ==> {
                    let t = #[trigger] app.tabs@[i];
                    let c = cfg.tabs@[i];
                    &&& t.name == c.name
                    &&& t.spec.table@ == c.table@
                    &&& t.spec.scan_limit == c.scan_limit
                    &&& opt_text(t.spec.region) == resolved_region(c, opt_text(cfg.region))
                    &&& t.items@.len() == 0
                    &&& t.meta is None
                    &&& t.selected == 0
                    &&& t.last_error is None
                    &&& t.loading == (i == 0)
                }
                &&& app.status@ == scanning_status(cfg.tabs@[0].name@)
                &&& req == app.tabs@[0].spec
            },
    {
        let mut tabs: Vec<TabState> = Vec::new();
        let default_region: Option<&str> = match &cfg.region {
            Some(r) => Some(r.as_str()),
            None => None,
        };
        let mut i: usize = 0;
        while i < cfg.tabs.len()
            invariant
                i <= cfg.tabs@.len(),
                tabs@.len() == i,
                opt_str(default_region) == opt_text(cfg.region),
                forall|j: int| 0 <= j < i ==> {
                    let t = #[trigger] tabs@[j];
                    let c = cfg.tabs@[j];
                    &&& t.name == c.name
                    &&& t.spec.table@ == c.table@
                    &&& t.spec.scan_limit == c.scan_limit
                    &&& opt_text(t.spec.region) == resolved_region(c, opt_text(cfg.region))
                    &&& t.items@.len() == 0
                    &&& t.meta is None
                    &&& t.selected == 0
                    &&& t.last_error is None
                    &&& !t.loading
                },
            decreases cfg.tabs.len() - i,
        {
            let t = &cfg.tabs[i];
            let spec = match TabSpec::resolve(t, default_region) {
                Ok(s) => s,
                Err(e) => return Err(e),
            };
            tabs.push(TabState::empty(t.name.clone(), spec));
            i = i + 1;
        }
        let mut app = App { cfg, tabs, active_tab: 0, status: String::new() };
        let req = app.refresh_active();
        Ok((app, req))
    }

    /// The active tab.
    pub fn active(&self) -> (r: &TabState)
        requires
            self.wf(),
        ensures
            *r == self.active_state(),
    {
        &self.tabs[self.active_tab]
    }

    /// The active tab, for changing it.
    pub fn active_mut(&mut self) -> (r: &mut TabState)
        requires
            old(self).wf(),
        ensures
            *r == old(self).active_state(),
            final(self).tabs@ == old(self).tabs@.update(old(self).active_tab as int, *final(r)),
            final(self).cfg == old(self).cfg,
            final(self).active_tab == old(self).active_tab,
            final(self).status == old(self).status,
    {
        let a = self.active_tab;
        &mut self.tabs[a]
    }

    /// Makes tab `idx` active when it exists. A tab is scanned on its first
    /// activation only (no items yet and no scan running); the request for
    /// that scan is returned. Later switches show the items already held.
    pub fn switch_tab(&mut self, idx: usize) -> (r: Option<TabSpec>)
        requires
            old(self).wf(),
        ensures
            final(self).wf(),
            switch_step(*old(self), idx, *final(self), r),
    {
        if idx < self.tabs.len() {
            self.active_tab = idx;
            if self.tabs[idx].items.len() == 0 && !self.tabs[idx].loading {
                let req = self.refresh_active();
                return Some(req);
            }
        }
        None
    }

    /// Moves the active tab's selection by `delta`, held within its items;
    /// nothing happens when the tab has no items.
    pub fn move_selection(&mut self, delta: isize)
        requires
            old(self).wf(),
            old(self).active_state().items@.len() <= isize::MAX,
            isize::MIN <= old(self).active_state().selected + delta <= isize::MAX,
        ensures
            final(self).wf(),
            move_step(*old(self), delta, *final(self)),
    {
        let a = self.active_tab;
        if self.tabs[a].items.len() == 0 {
            return;
        }
        let n = self.tabs[a].items.len() as isize;
        let moved = self.tabs[a].selected as isize + delta;
        let clamped = if moved < 0 {
            0
        } else if moved > n - 1 {
            n - 1
        } else {
            moved
        };
        let ghost before = self.tabs@;
        self.tabs[a].selected = clamped as usize;
        assert(self.tabs@ =~= before.update(
            a as int,
            TabState { selected: clamp(before[a as int].selected + delta, 0, before[a as int].items@.len() - 1) as usize, ..before[a as int] },
        ));
    }

    /// Starts a scan of the active tab: it is marked loading, its error is
    /// cleared and the status line says so. Returns what to scan.
    pub fn refresh_active(&mut self) -> (r: TabSpec)
        requires
            old(self).wf(),
        ensures
            final(self).wf(),
            refresh_step(*old(self), *final(self), r),
    {
        let idx = self.active_tab;
        let spec = self.tabs[idx].spec.copy();
        let mut status = "scanning ".to_owned();
        status.append(self.tabs[idx].name.as_str());
        status.append("…");
        self.status = status;
        let ghost before = self.tabs@;
        self.tabs[idx].loading = true;
        self.tabs[idx].last_error = None;
        assert(self.tabs@ =~= before.update(idx as int, started(before[idx as int])));
        spec
    }

    /// The labels of the tab strip, one per tab in order.
    pub fn tab_labels(&self) -> (r: Vec<String>)
        ensures
            r@.len() == self.tabs@.len(),
            forall|i: int| 0 <= i < self.tabs@.len() ==> (#[trigger] r@[i])@ == tab_label(i, self.tabs@[i]),
    {
        let mut out: Vec<String> = Vec::new();
        let mut i: usize = 0;
        while i < self.tabs.len()
            invariant
                i <= self.tabs@.len(),
                out@.len() == i,
                forall|j: int| 0 <= j < i ==> (#[trigger] out@[j])@ == tab_label(j, self.tabs@[j]),
            decreases self.tabs.len() - i,
        {
            let t = &self.tabs[i];
            let mut label = fmt_u64((i + 1) as u64);
            label.append(".");
            label.append(t.name.as_str());
            if t.loading && t.items.len() == 0 {
                label.append(" · scanning");
            } else if t.items.len() != 0 {
                label.append(" (");
                label.append(fmt_u64(t.items.len() as u64).as_str());
                label.append(")");
            } else {
                label.append("");
            }
            out.push(label);
            i = i + 1;
        }
        out
    }

    /// The console page for the active tab's table.
    pub fn console_target(&self) -> (r: String)
        requires
            self.wf(),
        ensures
            r@ == console_url_text(self.active_state().spec.table@, opt_text(self.active_state().spec.region)),
    {
        let tab = self.active();
        let region: Option<&str> = match &tab.spec.region {
            Some(r) => Some(r.as_str()),
            None => None,
        };
        console_url(tab.spec.table.as_str(), region)
    }

    /// Reports on the status line whether the console page `url` opened.
    pub fn record_console_open(&mut self, url: &str, outcome: Result<(), String>)
        ensures
            final(self).status@ == console_status(url@, outcome),
            final(self).cfg == old(self).cfg,
            final(self).tabs == old(self).tabs,
            final(self).active_tab == old(self).active_tab,
    {
        let status = match outcome {
            Ok(()) => {
                let mut m = "opened ".to_owned();
                m.append(url);
                m
            },
            Err(e) => {
                let mut m = "open failed: ".to_owned();
                m.append(e.as_str());
                m
            },
        };
        self.status = status;
    }

    /// The pretty JSON of the active tab's focused item, if one is focused.
    pub fn yank_text(&self) -> (r: Option<String>)
        requires
            self.wf(),
        ensures
            is_yank_text(self.active_state(), r),
    {
        let tab = self.active();
        if tab.selected < tab.items.len() {
            Some(pretty_json(&tab.items[tab.selected].raw))
        } else {
            None
        }
    }

    /// Reports on the status line how copying the focused item went.
    pub fn record_yank(&mut self, outcome: YankOutcome)
        ensures
            final(self).status@ == yank_status(outcome),
            final(self).cfg == old(self).cfg,
            final(self).tabs == old(self).tabs,
            final(self).active_tab == old(self).active_tab,
    {
        let status = match outcome {
            YankOutcome::NothingSelected => "no item selected".to_owned(),
            YankOutcome::Copied(json) => {
                let mut m = "copied 1 item (".to_owned();
                m.append(fmt_u64(json.as_str().as_bytes().len() as u64).as_str());
                m.append(" bytes JSON)");
                m
            },
            YankOutcome::CopyFailed(e) => {
                let mut m = "copy failed: ".to_owned();
                m.append(e.as_str());
                m
            },
        };
        self.status = status;
    }

    /// Takes in the outcome of a scan of tab `idx`: the items and table
    /// description replace what the tab held (the selection is kept when it
    /// still points at an item, else moved to the last one), or the error
    /// is shown; either way the tab stops loading and the status line
    /// reports it.
    pub fn apply_event(&mut self, idx: usize, ev: DynamoEvent)
        requires
            old(self).wf(),
            idx < old(self).tabs@.len(),
        ensures
            final(self).wf(),
            event_step(*old(self), idx, ev, *final(self)),
    {
        let ghost ev0 = ev;
        let ghost before = self.tabs@;
        match ev {
            DynamoEvent::Scanned { items, meta } => {
                let n = items.len();
                let mut status = self.tabs[idx].name.clone();
                status.append(" · ");
                status.append(fmt_u64(n as u64).as_str());
                status.append(" items (scan)");
                self.tabs[idx].items = items;
                self.tabs[idx].meta = Some(meta);
                self.tabs[idx].loading = false;
                self.tabs[idx].last_error = None;
                if self.tabs[idx].selected >= n {
                    self.tabs[idx].selected = if n == 0 {
                        0
                    } else {
                        n - 1
                    };
                }
                self.status = status;
                assert(self.tabs@ =~= before.update(idx as int, after_event(before[idx as int], ev0)));
            },
            DynamoEvent::Failed(e) => {
                let mut status = "error: ".to_owned();
                status.append(e.as_str());
                self.tabs[idx].last_error = Some(e);
                self.tabs[idx].loading = false;
                self.status = status;
                assert(self.tabs@ =~= before.update(idx as int, after_event(before[idx as int], ev0)));
            },
        }
    }
}

} // verus!
