use mnml_db_dynamodb::dynamodb::{
    aws_command_args, build_item, compact_secondary, console_url, decode_aws_run, describe_args,
    extract_attr, extract_first_value, items_fit, parse_meta, scan_args, scan_fits, scan_outcome,
    AwsRun, DynamoEvent, TableMeta,
};
use mnml_db_dynamodb::json::{parse_json, pretty_json, Json, JsonNumber};
use mnml_db_dynamodb::text::{first_lines, fmt_u64, join_strings, trim_str};

fn s(t: &str) -> Json {
    Json::String(t.to_string())
}

fn obj(members: Vec<(&str, Json)>) -> Json {
    Json::Object(members.into_iter().map(|(k, v)| (k.to_string(), v)).collect())
}

fn attr_s(t: &str) -> Json {
    obj(vec![("S", s(t))])
}

fn attr_n(t: &str) -> Json {
    obj(vec![("N", s(t))])
}

fn meta(pk: Option<&str>, sk: Option<&str>) -> TableMeta {
    TableMeta {
        name: "T".to_string(),
        pk_field: pk.map(|x| x.to_string()),
        sk_field: sk.map(|x| x.to_string()),
        item_count: None,
        size_bytes: None,
    }
}

#[test]
fn extract_attr_from_string() {
    let v = obj(vec![("name", attr_s("Alice"))]);
    assert_eq!(extract_attr(&v, "name"), Some("Alice".to_string()));
}

#[test]
fn extract_attr_from_number() {
    let v = obj(vec![("count", attr_n("42"))]);
    assert_eq!(extract_attr(&v, "count"), Some("42".to_string()));
}

#[test]
fn extract_attr_returns_none_for_missing_field() {
    let v = obj(vec![("name", attr_s("Alice"))]);
    assert_eq!(extract_attr(&v, "age"), None);
}

#[test]
fn parse_meta_extracts_keys() {
    let desc = obj(vec![(
        "Table",
        obj(vec![
            (
                "KeySchema",
                Json::Array(vec![
                    obj(vec![("AttributeName", s("userId")), ("KeyType", s("HASH"))]),
                    obj(vec![("AttributeName", s("ts")), ("KeyType", s("RANGE"))]),
                ]),
            ),
            ("ItemCount", Json::Number(JsonNumber::PosInt(1234))),
            ("TableSizeBytes", Json::Number(JsonNumber::PosInt(9876))),
        ]),
    )]);
    let meta = parse_meta("Sessions", &desc);
    assert_eq!(meta.pk_field.as_deref(), Some("userId"));
    assert_eq!(meta.sk_field.as_deref(), Some("ts"));
    assert_eq!(meta.item_count, Some(1234));
}

#[test]
fn console_url_includes_region_and_table() {
    let url = console_url("Sessions", Some("us-west-2"));
    assert!(url.contains("us-west-2"));
    assert!(url.contains("table=Sessions"));
}

#[test]
fn console_url_exact_and_default_region() {
    assert_eq!(
        console_url("orders", None),
        "https://us-east-1.console.aws.amazon.com/dynamodbv2/home?region=us-east-1#item-explorer?table=orders"
    );
}

#[test]
fn extract_attr_bool_and_precedence() {
    let v = obj(vec![
        ("flag", obj(vec![("BOOL", Json::Bool(false))])),
        ("both", obj(vec![("N", s("7")), ("S", s("seven"))])),
        ("list", obj(vec![("L", Json::Array(vec![]))])),
        ("bare", s("plain")),
    ]);
    assert_eq!(extract_attr(&v, "flag"), Some("false".to_string()));
    assert_eq!(extract_attr(&v, "both"), Some("seven".to_string()));
    assert_eq!(extract_attr(&v, "list"), None);
    assert_eq!(extract_attr(&v, "bare"), None);
    assert_eq!(extract_attr(&s("x"), "flag"), None);
}

#[test]
fn first_value_or_empty() {
    let v = obj(vec![("a", attr_s("1")), ("b", attr_s("2"))]);
    assert_eq!(extract_first_value(&v), "a=1");
    let w = obj(vec![("a", obj(vec![("M", obj(vec![]))])), ("b", attr_s("2"))]);
    assert_eq!(extract_first_value(&w), "(empty)");
    assert_eq!(extract_first_value(&obj(vec![])), "(empty)");
    assert_eq!(extract_first_value(&Json::Null), "(empty)");
}

#[test]
fn parse_meta_of_null_and_last_key_wins() {
    let m = parse_meta("X", &Json::Null);
    assert_eq!(m.name, "X");
    assert_eq!(m.pk_field, None);
    assert_eq!(m.sk_field, None);
    assert_eq!(m.item_count, None);
    assert_eq!(m.size_bytes, None);
    let desc = obj(vec![(
        "Table",
        obj(vec![(
            "KeySchema",
            Json::Array(vec![
                obj(vec![("AttributeName", s("first")), ("KeyType", s("HASH"))]),
                obj(vec![("AttributeName", s("second")), ("KeyType", s("HASH"))]),
                obj(vec![("AttributeName", s("odd")), ("KeyType", s("OTHER"))]),
            ]),
        )]),
    )]);
    let m = parse_meta("X", &desc);
    assert_eq!(m.pk_field.as_deref(), Some("second"));
    assert_eq!(m.sk_field, None);
}

#[test]
fn summary_skips_keys_and_stops_at_four() {
    let item = obj(vec![
        ("a", attr_s("1")),
        ("b", attr_s("2")),
        ("c", obj(vec![("M", obj(vec![]))])),
        ("d", attr_n("4")),
        ("pk", attr_s("key")),
        ("e", obj(vec![("BOOL", Json::Bool(true))])),
        ("f", attr_s("6")),
    ]);
    assert_eq!(compact_secondary(&item, &meta(Some("pk"), None)), "a=1  b=2  d=4  e=true");
    assert_eq!(compact_secondary(&item, &meta(Some("a"), Some("b"))), "d=4  pk=key  e=true  f=6");
    assert_eq!(compact_secondary(&Json::Null, &meta(None, None)), "");
}

#[test]
fn summary_cuts_long_values() {
    let long = "abcdefghijklmnopqrstuvwxyz0123456789";
    let item = obj(vec![("v", attr_s(long))]);
    assert_eq!(compact_secondary(&item, &meta(None, None)), "v=abcdefghijklmnopqrstuvwxyz0123…");
    let exact = "abcdefghijklmnopqrstuvwxyz0123";
    let item = obj(vec![("v", attr_s(exact))]);
    assert_eq!(compact_secondary(&item, &meta(None, None)), "v=abcdefghijklmnopqrstuvwxyz0123");
}

#[test]
fn summary_fit_check_finds_split_characters() {
    // 29 ASCII bytes, then a two-byte character straddling byte 30.
    let bad = format!("{}é-tail", "x".repeat(29));
    let item = obj(vec![("v", attr_s(&bad))]);
    assert!(!items_fit(&vec![item], &meta(None, None)));
    let fine = format!("{}é-tail", "x".repeat(28));
    let item = obj(vec![("v", attr_s(&fine))]);
    assert!(items_fit(&vec![item], &meta(None, None)));
    let after_four = obj(vec![
        ("a", attr_s("1")),
        ("b", attr_s("2")),
        ("c", attr_s("3")),
        ("d", attr_s("4")),
        ("v", attr_s(&bad)),
    ]);
    assert!(items_fit(&vec![after_four], &meta(None, None)));
}

#[test]
fn build_item_joins_hash_and_sort_keys() {
    let item = obj(vec![("other", attr_s("x")), ("ts", attr_n("17")), ("user", attr_s("abc"))]);
    let it = build_item(item, &meta(Some("user"), Some("ts")));
    assert_eq!(it.primary, "abc · 17");
    assert_eq!(it.secondary, "other=x");
    let item = obj(vec![("other", attr_s("x"))]);
    let it = build_item(item, &meta(Some("user"), Some("ts")));
    assert_eq!(it.primary, "other=x");
}

#[test]
fn aws_arguments() {
    let args = scan_args("users", 50);
    assert_eq!(args, vec!["dynamodb", "scan", "--table-name", "users", "--limit", "50"]);
    assert_eq!(describe_args("users"), vec!["dynamodb", "describe-table", "--table-name", "users"]);
    let full = aws_command_args(&args, Some("eu-west-1"));
    assert_eq!(
        full,
        vec!["--region", "eu-west-1", "dynamodb", "scan", "--table-name", "users", "--limit", "50", "--output", "json"]
    );
    let full = aws_command_args(&describe_args("t"), None);
    assert_eq!(full, vec!["dynamodb", "describe-table", "--table-name", "t", "--output", "json"]);
}

#[test]
fn decode_runs() {
    let args = scan_args("t", 5);
    let r = decode_aws_run(&args, AwsRun::NotStarted("No such file".to_string()));
    assert_eq!(r.unwrap_err(), "spawn aws: No such file — is the AWS CLI on PATH?");
    let r = decode_aws_run(
        &args,
        AwsRun::Finished { success: false, stdout: vec![], stderr: b"  denied\n".to_vec() },
    );
    assert_eq!(r.unwrap_err(), "aws dynamodb → denied");
    let r = decode_aws_run(&args, AwsRun::Finished { success: true, stdout: vec![], stderr: vec![] });
    assert!(matches!(r, Ok(Json::Null)));
    let r = decode_aws_run(
        &args,
        AwsRun::Finished { success: true, stdout: b"{\"Items\": [1, -2, 2.5, \"x\", null, true]}".to_vec(), stderr: vec![] },
    );
    match r.unwrap() {
        Json::Object(m) => {
            assert_eq!(m.len(), 1);
            assert_eq!(m[0].0, "Items");
            match &m[0].1 {
                Json::Array(v) => {
                    assert_eq!(v.len(), 6);
                    assert!(matches!(v[0], Json::Number(JsonNumber::PosInt(1))));
                    assert!(matches!(v[1], Json::Number(JsonNumber::NegInt(-2))));
                    assert!(matches!(&v[2], Json::Number(JsonNumber::Float(t)) if t == "2.5"));
                    assert!(matches!(&v[3], Json::String(t) if t == "x"));
                    assert!(matches!(v[4], Json::Null));
                    assert!(matches!(v[5], Json::Bool(true)));
                }
                _ => panic!("not an array"),
            }
        }
        _ => panic!("not an object"),
    }
    let r = decode_aws_run(&args, AwsRun::Finished { success: true, stdout: b"{oops".to_vec(), stderr: vec![] });
    assert!(r.unwrap_err().starts_with("parse json: "));
}

#[test]
fn parse_and_pretty_print_json() {
    let j = parse_json(b"{\"b\": 1, \"a\": [true]}").unwrap();
    assert_eq!(pretty_json(&j), "{\n  \"a\": [\n    true\n  ],\n  \"b\": 1\n}");
    assert!(parse_json(b"").is_err());
}

#[test]
fn scan_outcomes() {
    let items = parse_json(br#"{"Items":[{"id":{"S":"a"},"n":{"N":"1"}},{"id":{"S":"b"}}],"Count":2}"#).unwrap();
    let desc = parse_json(br#"{"Table":{"KeySchema":[{"AttributeName":"id","KeyType":"HASH"}],"ItemCount":2}}"#).unwrap();
    let scan = Ok(items);
    let desc = Ok(desc);
    assert!(scan_fits("T", &scan, &desc));
    match scan_outcome("T", scan, desc) {
        DynamoEvent::Scanned { items, meta } => {
            assert_eq!(items.len(), 2);
            assert_eq!(items[0].primary, "a");
            assert_eq!(items[0].secondary, "n=1");
            assert_eq!(items[1].primary, "b");
            assert_eq!(items[1].secondary, "");
            assert_eq!(meta.item_count, Some(2));
            assert_eq!(meta.pk_field.as_deref(), Some("id"));
        }
        DynamoEvent::Failed(e) => panic!("{e}"),
    }
    match scan_outcome("T", Ok(Json::Null), Err("x".to_string())) {
        DynamoEvent::Failed(e) => assert_eq!(e, "parse dynamodb scan response"),
        _ => panic!("should fail"),
    }
    match scan_outcome("T", Err("aws dynamodb → boom".to_string()), Err(String::new())) {
        DynamoEvent::Failed(e) => assert_eq!(e, "aws dynamodb → boom"),
        _ => panic!("should fail"),
    }
    match scan_outcome("T", Ok(obj(vec![("Count", Json::Number(JsonNumber::PosInt(0)))])), Err(String::new())) {
        DynamoEvent::Scanned { items, meta } => {
            assert!(items.is_empty());
            assert_eq!(meta.pk_field, None);
        }
        _ => panic!("missing Items is an empty scan"),
    }
    match scan_outcome("T", Ok(obj(vec![("Items", s("no"))])), Err(String::new())) {
        DynamoEvent::Failed(e) => assert_eq!(e, "parse dynamodb scan response"),
        _ => panic!("should fail"),
    }
    match scan_outcome("T", Ok(Json::Array(vec![Json::Array(vec![obj(vec![])])])), Err(String::new())) {
        DynamoEvent::Scanned { items, .. } => {
            assert_eq!(items.len(), 1);
            assert_eq!(items[0].primary, "(empty)");
        }
        _ => panic!("an array holding the item array is read"),
    }
}

#[test]
fn text_helpers() {
    assert_eq!(fmt_u64(0), "0");
    assert_eq!(fmt_u64(1234567890123), "1234567890123");
    assert_eq!(fmt_u64(u64::MAX), u64::MAX.to_string());
    assert_eq!(trim_str("\u{a0}\t hi there \n"), "hi there");
    assert_eq!(trim_str("   "), "");
    assert_eq!(join_strings(&vec!["a".to_string(), "b".to_string()], ", "), "a, b");
    assert_eq!(join_strings(&vec![], ", "), "");
    assert_eq!(first_lines("a\r\nb\n\nc\r", 10), vec!["a", "b", "", "c\r"]);
    assert_eq!(first_lines("a\nb\n", 10), vec!["a", "b"]);
    assert_eq!(first_lines("a\nb\nc", 2), vec!["a", "b"]);
    assert_eq!(first_lines("", 3), Vec::<String>::new());
}

#[test]
fn failure_text_replaces_invalid_utf8() {
    let args = describe_args("t");
    let r = decode_aws_run(
        &args,
        AwsRun::Finished { success: false, stdout: vec![], stderr: b"\xffbad\n".to_vec() },
    );
    assert_eq!(r.unwrap_err(), "aws dynamodb → \u{fffd}bad");
    let r = decode_aws_run(&vec![], AwsRun::Finished { success: false, stdout: vec![], stderr: vec![] });
    assert_eq!(r.unwrap_err(), "aws  → ");
}
