use mnml_db_dynamodb::app::{App, BodyView, YankOutcome};
use mnml_db_dynamodb::config::{Config, Tab};
use mnml_db_dynamodb::dynamodb::{build_item, DynamoEvent, Item, TableMeta};
use mnml_db_dynamodb::json::{parse_json, Json};

fn tab(name: &str, table: &str) -> Tab {
    Tab { name: name.to_string(), table: table.to_string(), scan_limit: 25, region: None }
}

fn config() -> Config {
    Config {
        region: Some("us-west-2".to_string()),
        refresh_interval_secs: 0,
        tabs: vec![tab("Sessions", "user-sessions"), tab("Orders", "orders"), tab("Events", "events")],
    }
}

fn meta(pk: Option<&str>, sk: Option<&str>) -> TableMeta {
    TableMeta {
        name: "t".to_string(),
        pk_field: pk.map(|s| s.to_string()),
        sk_field: sk.map(|s| s.to_string()),
        item_count: None,
        size_bytes: None,
    }
}

fn items(n: usize) -> Vec<Item> {
    (0..n)
        .map(|i| {
            let raw = parse_json(format!("{{\"id\":{{\"S\":\"i{i}\"}}}}").as_bytes()).unwrap();
            build_item(raw, &meta(Some("id"), None))
        })
        .collect()
}

#[test]
fn new_scans_first_tab() {
    let (app, req) = App::new(config()).ok().unwrap();
    assert_eq!(app.tabs.len(), 3);
    assert_eq!(app.active_tab, 0);
    assert!(app.tabs[0].loading);
    assert!(!app.tabs[1].loading);
    assert_eq!(app.status, "scanning Sessions…");
    assert_eq!(req.table, "user-sessions");
    assert_eq!(req.scan_limit, 25);
    assert_eq!(req.region.as_deref(), Some("us-west-2"));
}

#[test]
fn switch_scans_only_on_first_visit() {
    let (mut app, _) = App::new(config()).ok().unwrap();
    let r = app.switch_tab(1);
    assert_eq!(r.map(|s| s.table), Some("orders".to_string()));
    assert_eq!(app.active_tab, 1);
    assert_eq!(app.status, "scanning Orders…");
    let status = app.status.clone();
    assert!(app.switch_tab(1).is_none());
    assert_eq!(app.status, status);
    assert!(app.switch_tab(7).is_none());
    assert_eq!(app.active_tab, 1);
    assert!(app.switch_tab(0).is_none());
    assert_eq!(app.active_tab, 0);
}

#[test]
fn scan_results_and_selection() {
    let (mut app, _) = App::new(config()).ok().unwrap();
    app.apply_event(0, DynamoEvent::Scanned { items: items(3), meta: meta(Some("id"), None) });
    assert_eq!(app.status, "Sessions · 3 items (scan)");
    assert!(!app.tabs[0].loading);
    app.move_selection(5);
    assert_eq!(app.tabs[0].selected, 2);
    app.move_selection(-1);
    assert_eq!(app.tabs[0].selected, 1);
    app.move_selection(-9);
    assert_eq!(app.tabs[0].selected, 0);
    app.move_selection(2);
    app.apply_event(0, DynamoEvent::Scanned { items: items(1), meta: meta(Some("id"), None) });
    assert_eq!(app.tabs[0].selected, 0);
    app.apply_event(0, DynamoEvent::Failed("boom".to_string()));
    assert_eq!(app.status, "error: boom");
    assert_eq!(app.tabs[0].items.len(), 1);
    assert_eq!(app.tabs[0].last_error.as_deref(), Some("boom"));
    assert!(app.refresh_active().table == "user-sessions");
    assert_eq!(app.tabs[0].last_error, None);
}

#[test]
fn move_on_empty_tab_does_nothing() {
    let (mut app, _) = App::new(config()).ok().unwrap();
    app.move_selection(1);
    assert_eq!(app.tabs[0].selected, 0);
}

#[test]
fn labels_titles_and_bodies() {
    let (mut app, _) = App::new(config()).ok().unwrap();
    assert_eq!(app.tab_labels(), vec!["1.Sessions · scanning", "2.Orders", "3.Events"]);
    assert!(matches!(app.active().body(), BodyView::Notice { ref text, error: false } if text == "scanning…"));
    assert_eq!(app.active().title(), " Sessions ");
    app.apply_event(0, DynamoEvent::Scanned { items: vec![], meta: meta(None, None) });
    assert!(matches!(app.active().body(), BodyView::Notice { ref text, error: false } if text == "(table empty for this scan)"));
    assert_eq!(app.active().title(), " Sessions · pk: ? ");
    app.apply_event(0, DynamoEvent::Scanned { items: items(2), meta: meta(Some("userId"), Some("ts")) });
    assert_eq!(app.tab_labels()[0], "1.Sessions (2)");
    assert!(matches!(app.active().body(), BodyView::Items));
    assert_eq!(app.active().title(), " Sessions · pk: userId / ts ");
    app.apply_event(0, DynamoEvent::Failed("nope".to_string()));
    assert!(matches!(app.active().body(), BodyView::Notice { ref text, error: true } if text == "error: nope\n\nPress `r` to retry."));
}

#[test]
fn yank_and_console() {
    let (mut app, _) = App::new(config()).ok().unwrap();
    assert!(app.yank_text().is_none());
    app.record_yank(YankOutcome::NothingSelected);
    assert_eq!(app.status, "no item selected");
    app.apply_event(0, DynamoEvent::Scanned { items: items(2), meta: meta(Some("id"), None) });
    app.move_selection(1);
    let text = app.yank_text().unwrap();
    assert_eq!(text, "{\n  \"id\": {\n    \"S\": \"i1\"\n  }\n}");
    assert_eq!(app.active().detail_lines(5), vec!["{", "  \"id\": {", "    \"S\": \"i1\""]);
    assert_eq!(app.active().detail_lines(1), Vec::<String>::new());
    app.record_yank(YankOutcome::Copied(text.clone()));
    assert_eq!(app.status, format!("copied 1 item ({} bytes JSON)", text.len()));
    app.record_yank(YankOutcome::CopyFailed("no clipboard".to_string()));
    assert_eq!(app.status, "copy failed: no clipboard");
    let url = app.console_target();
    assert_eq!(
        url,
        "https://us-west-2.console.aws.amazon.com/dynamodbv2/home?region=us-west-2#item-explorer?table=user-sessions"
    );
    app.record_console_open(&url, Ok(()));
    assert_eq!(app.status, format!("opened {url}"));
    app.record_console_open(&url, Err("no browser".to_string()));
    assert_eq!(app.status, "open failed: no browser");
}

#[test]
fn active_mut_reaches_active_tab() {
    let (mut app, _) = App::new(config()).ok().unwrap();
    app.switch_tab(2);
    app.active_mut().name = "Renamed".to_string();
    assert_eq!(app.tabs[2].name, "Renamed");
    let _ = Json::Null;
}
