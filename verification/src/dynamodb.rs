//! DynamoDB tables as the `aws` CLI describes them: key schema, item
//! summaries for the item list, console links and scan outcomes.

use vstd::prelude::*;

use crate::json::{array_of, bool_of, field, field_of, find_member, member, text_of, u64_of, Json, JsonNumber};
use crate::json::{json_from_slice, parse_json};
use crate::text::{decimal, digits_value, fmt_u64, join, join_strings, lemma_concat_ends, lemma_decimal_reads_back, opt_text, same_text, trim, trim_str};
use vstd::utf8::{decode_utf8, encode_utf8, encode_utf8_decode_utf8, is_char_boundary, valid_utf8};

verus! {

/// What `describe-table` tells about a table.
#[derive(Debug, Clone)]
pub struct TableMeta {
    pub name: String,
    /// The hash (partition) key attribute.
    pub pk_field: Option<String>,
    /// The range (sort) key attribute.
    pub sk_field: Option<String>,
    pub item_count: Option<u64>,
    pub size_bytes: Option<u64>,
}

/// `true` or `false`, as `bool` displays.
pub open spec fn bool_text(b: bool) -> Seq<char> {
    if b {
        "true"@
    } else {
        "false"@
    }
}

/// The display text of a DynamoDB attribute value: a string (`S`), else a
/// number (`N`, kept as its text), else a boolean (`BOOL`).
pub open spec fn attr_value_text(inner: Json) -> Option<Seq<char>> {
    let s = text_of(field(inner, "S"@));
    let n = text_of(field(inner, "N"@));
    let b = bool_of(field(inner, "BOOL"@));
    if s is Some {
        s
    } else if n is Some {
        n
    } else if b is Some {
        Some(bool_text(b->0))
    } else {
        None
    }
}

/// The display text of attribute `attr` of a DynamoDB item.
pub open spec fn attr_text(item: Json, attr: Seq<char>) -> Option<Seq<char>> {
    match field(item, attr) {
        Some(inner) => attr_value_text(inner),
        None => None,
    }
}

/// `key=value` for the item's first attribute, or `(empty)`.
pub open spec fn first_value_text(item: Json) -> Seq<char> {
    match item {
        Json::Object(entries) => if entries@.len() > 0 && attr_text(item, entries@[0].0@) is Some {
            entries@[0].0@ + "="@ + attr_text(item, entries@[0].0@)->0
        } else {
            "(empty)"@
        },
        _ => "(empty)"@,
    }
}

/// The DynamoDB console page for a table; the region defaults to `us-east-1`.
pub open spec fn console_url_text(table: Seq<char>, region: Option<Seq<char>>) -> Seq<char> {
    let r = match region {
        Some(r) => r,
        None => "us-east-1"@,
    };
    "https://"@ + r + ".console.aws.amazon.com/dynamodbv2/home?region="@ + r + "#item-explorer?table="@
        + table
}

/// The key schema entries of a `describe-table` answer.
pub open spec fn key_schema(desc: Json) -> Option<Seq<Json>> {
    array_of(field_of(field(desc, "Table"@), "KeySchema"@))
}

/// The attribute name of a key schema entry.
pub open spec fn key_name(entry: Json) -> Option<Seq<char>> {
    text_of(field(entry, "AttributeName"@))
}

/// The key type of a key schema entry; empty when absent.
pub open spec fn key_type(entry: Json) -> Seq<char> {
    match text_of(field(entry, "KeyType"@)) {
        Some(t) => t,
        None => ""@,
    }
}

/// Among the first `n` entries, the name given by the last one of type
/// `kind` (an entry without a name gives none); none if no entry has it.
pub open spec fn last_key_of_type(schema: Seq<Json>, n: int, kind: Seq<char>) -> Option<Seq<char>>
    decreases n,
{
    if n <= 0 {
        None
    } else if key_type(schema[n - 1]) == kind {
        key_name(schema[n - 1])
    } else {
        last_key_of_type(schema, n - 1, kind)
    }
}

/// The key attribute of type `kind` named by a `describe-table` answer.
pub open spec fn key_field(desc: Json, kind: Seq<char>) -> Option<Seq<char>> {
    match key_schema(desc) {
        Some(schema) => last_key_of_type(schema, schema.len() as int, kind),
        None => None,
    }
}

/// `m` is what `parse_meta` reads for `table` from the answer `desc`.
pub open spec fn is_meta_for(m: TableMeta, table: Seq<char>, desc: Json) -> bool {
    &&& m.name@ == table
    &&& opt_text(m.pk_field) == key_field(desc, "HASH"@)
    &&& opt_text(m.sk_field) == key_field(desc, "RANGE"@)
    &&& m.item_count == table_number(desc, "ItemCount"@)
    &&& m.size_bytes == table_number(desc, "TableSizeBytes"@)
}

/// A number of the `Table` object of a `describe-table` answer.
pub open spec fn table_number(desc: Json, key: Seq<char>) -> Option<u64> {
    u64_of(field_of(field(desc, "Table"@), key))
}

/// One item of a table, with the two columns the item list shows.
#[derive(Debug)]
pub struct Item {
    /// The item as DynamoDB JSON.
    pub raw: Json,
    /// Key attribute values: `pk`, or `pk · sk` when the table has a sort key.
    pub primary: String,
    /// A few other attributes, `name=value`, two spaces apart.
    pub secondary: String,
}

/// Longest value, in UTF-8 bytes, that the summary column shows whole.
pub open spec fn clip_bytes() -> nat {
    30
}

/// A value as the summary column shows it: values longer than 30 bytes are
/// cut to their first 30 bytes and marked with `…`.
pub open spec fn clip(v: Seq<char>) -> Seq<char> {
    if encode_utf8(v).len() > clip_bytes() {
        decode_utf8(encode_utf8(v).subrange(0, clip_bytes() as int)) + "…"@
    } else {
        v
    }
}

/// A value can be cut for the summary column: it is short enough, or its
/// 30th byte ends a character.
pub open spec fn clip_fits(v: Seq<char>) -> bool {
    encode_utf8(v).len() <= clip_bytes() || is_char_boundary(encode_utf8(v), clip_bytes() as int)
}

/// `name` is one of the table's key attributes.
pub open spec fn is_key_attr(name: Seq<char>, pk: Option<Seq<char>>, sk: Option<Seq<char>>) -> bool {
    pk == Some(name) || sk == Some(name)
}

/// The summary parts gathered from member `i` on, after `acc`: key
/// attributes and attributes without a displayable value are passed over,
/// and gathering stops at four parts.
pub open spec fn summary_parts(
    item: Json,
    entries: Seq<(String, Json)>,
    i: int,
    pk: Option<Seq<char>>,
    sk: Option<Seq<char>>,
    acc: Seq<Seq<char>>,
) -> Seq<Seq<char>>
    decreases entries.len() - i,
{
    if i < 0 || i >= entries.len() {
        acc
    } else if is_key_attr(entries[i].0@, pk, sk) {
        summary_parts(item, entries, i + 1, pk, sk, acc)
    } else {
        let acc2 = match attr_text(item, entries[i].0@) {
            Some(v) => acc.push(entries[i].0@ + "="@ + clip(v)),
            None => acc,
        };
        if acc2.len() >= 4 {
            acc2
        } else {
            summary_parts(item, entries, i + 1, pk, sk, acc2)
        }
    }
}

/// Every value that `summary_parts` cuts, from member `i` on with `count`
/// parts gathered, can be cut.
pub open spec fn summary_fits(
    item: Json,
    entries: Seq<(String, Json)>,
    i: int,
    pk: Option<Seq<char>>,
    sk: Option<Seq<char>>,
    count: nat,
) -> bool
    decreases entries.len() - i,
{
    if i < 0 || i >= entries.len() {
        true
    } else if is_key_attr(entries[i].0@, pk, sk) {
        summary_fits(item, entries, i + 1, pk, sk, count)
    } else {
        match attr_text(item, entries[i].0@) {
            Some(v) => clip_fits(v) && (count + 1 >= 4 || summary_fits(item, entries, i + 1, pk, sk, count + 1)),
            None => count >= 4 || summary_fits(item, entries, i + 1, pk, sk, count),
        }
    }
}

/// The summary column of an item: up to four non-key attributes with a
/// displayable value, in member order, as `name=value` two spaces apart.
pub open spec fn summary_text(item: Json, pk: Option<Seq<char>>, sk: Option<Seq<char>>) -> Seq<char> {
    match item {
        Json::Object(entries) => join(summary_parts(item, entries@, 0, pk, sk, Seq::empty()), "  "@),
        _ => Seq::empty(),
    }
}

/// The summary column of an item can be built without cutting a character.
pub open spec fn summary_ok(item: Json, pk: Option<Seq<char>>, sk: Option<Seq<char>>) -> bool {
    match item {
        Json::Object(entries) => summary_fits(item, entries@, 0, pk, sk, 0),
        _ => true,
    }
}

/// The key column of an item: the hash key's value (or the first
/// attribute's `key=value` when the table has no hash key or the item
/// lacks it), then ` · ` and the sort key's value when there is one.
pub open spec fn primary_text(item: Json, pk: Option<Seq<char>>, sk: Option<Seq<char>>) -> Seq<char> {
    let base = match pk {
        Some(k) => match attr_text(item, k) {
            Some(v) => v,
            None => first_value_text(item),
        },
        None => first_value_text(item),
    };
    match sk {
        Some(k) => match attr_text(item, k) {
            Some(v) => base + " · "@ + v,
            None => base,
        },
        None => base,
    }
}

/// `it` is what `build_item` makes of `raw` for a table described by `meta`.
pub open spec fn is_item_for(it: Item, raw: Json, meta: TableMeta) -> bool {
    let pk = opt_text(meta.pk_field);
    let sk = opt_text(meta.sk_field);
    &&& it.raw == raw
    &&& it.primary@ == primary_text(raw, pk, sk)
    &&& it.secondary@ == summary_text(raw, pk, sk)
}

/// Every item of `raws` has a summary column that can be built.
pub open spec fn items_ok(raws: Seq<Json>, pk: Option<Seq<char>>, sk: Option<Seq<char>>) -> bool {
    forall|i: int| 0 <= i < raws.len() ==> summary_ok(#[trigger] raws[i], pk, sk)
}

/// The items of a `scan` answer, read as the answer's shape asks: an
/// object whose optional `Items` member is an array, or an array holding at
/// most that one array. Anything else cannot be read.
pub open spec fn response_items(resp: Json) -> Option<Seq<Json>> {
    match resp {
        Json::Object(entries) => match member(entries@, "Items"@) {
            None => Some(Seq::empty()),
            Some(Json::Array(items)) => Some(items@),
            Some(_) => None,
        },
        Json::Array(fields) => if fields@.len() == 0 {
            Some(Seq::empty())
        } else if fields@.len() == 1 {
            match fields@[0] {
                Json::Array(items) => Some(items@),
                _ => None,
            }
        } else {
            None
        },
        _ => None,
    }
}

/// The key and summary columns of one item.
pub fn build_item(raw: Json, meta: &TableMeta) -> (r: Item)
    requires
        summary_ok(raw, opt_text(meta.pk_field), opt_text(meta.sk_field)),
    ensures
        is_item_for(r, raw, *meta),
{
    let base = match &meta.pk_field {
        Some(pk) => match extract_attr(&raw, pk.as_str()) {
            Some(v) => v,
            None => extract_first_value(&raw),
        },
        None => extract_first_value(&raw),
    };
    let primary = match &meta.sk_field {
        Some(sk) => match extract_attr(&raw, sk.as_str()) {
            Some(v) => {
                let mut p = base;
                p.append(" · ");
                p.append(v.as_str());
                p
            },
            None => base,
        },
        None => base,
    };
    let secondary = compact_secondary(&raw, meta);
    Item { raw, primary, secondary }
}

/// The items of a scan, in order.
pub fn build_items(raws: Vec<Json>, meta: &TableMeta) -> (r: Vec<Item>)
    requires
        items_ok(raws@, opt_text(meta.pk_field), opt_text(meta.sk_field)),
    ensures
        r@.len() == raws@.len(),
        forall|i: int| 0 <= i < raws@.len() ==> is_item_for(#[trigger] r@[i], raws@[i], *meta),
{
    let ghost all = raws@;
    let mut items: Vec<Item> = Vec::new();
    for raw in it: raws.into_iter()
        invariant
            it.seq() == all,
            items_ok(all, opt_text(meta.pk_field), opt_text(meta.sk_field)),
            items@.len() == it.index(),
            forall|i: int| 0 <= i < items@.len() ==> is_item_for(#[trigger] items@[i], all[i], *meta),
    {
        assert(summary_ok(all[it.index() as int], opt_text(meta.pk_field), opt_text(meta.sk_field)));
        let item = build_item(raw, meta);
        items.push(item);
    }
    items
}

/// The items of a `scan` answer, taken out of it.
pub fn take_response_items(resp: Json) -> (r: Option<Vec<Json>>)
    ensures
        match r {
            Some(v) => response_items(resp) == Some(v@),
            None => response_items(resp) is None,
        },
{
    match resp {
        Json::Object(mut entries) => match find_member(&entries, "Items") {
            None => Some(Vec::new()),
            Some(i) => {
                let (_, value) = entries.swap_remove(i);
                match value {
                    Json::Array(items) => Some(items),
                    _ => None,
                }
            },
        },
        Json::Array(mut fields) => {
            if fields.len() == 0 {
                Some(fields)
            } else if fields.len() == 1 {
                match fields.pop() {
                    Some(Json::Array(items)) => Some(items),
                    _ => None,
                }
            } else {
                None
            }
        },
        _ => None,
    }
}

/// Whether every item of `raws` has a summary column that can be built.
pub fn items_fit(raws: &Vec<Json>, meta: &TableMeta) -> (r: bool)
    ensures
        r == items_ok(raws@, opt_text(meta.pk_field), opt_text(meta.sk_field)),
{
    let mut i: usize = 0;
    while i < raws.len()
        invariant
            i <= raws@.len(),
            items_ok(raws@.take(i as int), opt_text(meta.pk_field), opt_text(meta.sk_field)),
        decreases raws.len() - i,
    {
        if !item_summary_fits(&raws[i], meta) {
            assert(!summary_ok(raws@[i as int], opt_text(meta.pk_field), opt_text(meta.sk_field)));
            return false;
        }
        assert(raws@.take(i + 1) =~= raws@.take(i as int).push(raws@[i as int]));
        i = i + 1;
    }
    assert(raws@.take(raws@.len() as int) =~= raws@);
    true
}

/// `p` is the summary part of some non-key member of the item.
pub open spec fn is_part_of(item: Json, entries: Seq<(String, Json)>, pk: Option<Seq<char>>, sk: Option<Seq<char>>, p: Seq<char>) -> bool {
    exists|i: int|
        0 <= i < entries.len() && !is_key_attr(#[trigger] entries[i].0@, pk, sk) && attr_text(item, entries[i].0@) is Some
            && p == entries[i].0@ + "="@ + clip(attr_text(item, entries[i].0@)->0)
}

proof fn lemma_parts_bounded(
    item: Json,
    entries: Seq<(String, Json)>,
    i: int,
    pk: Option<Seq<char>>,
    sk: Option<Seq<char>>,
    acc: Seq<Seq<char>>,
)
    requires
        acc.len() < 4,
        forall|j: int| 0 <= j < acc.len() ==> is_part_of(item, entries, pk, sk, #[trigger] acc[j]),
    ensures
        summary_parts(item, entries, i, pk, sk, acc).len() <= 4,
        forall|j: int|
            0 <= j < summary_parts(item, entries, i, pk, sk, acc).len() ==> is_part_of(
                item,
                entries,
                pk,
                sk,
                #[trigger] summary_parts(item, entries, i, pk, sk, acc)[j],
            ),
    decreases entries.len() - i,
{
    if i < 0 || i >= entries.len() {
    } else if is_key_attr(entries[i].0@, pk, sk) {
        lemma_parts_bounded(item, entries, i + 1, pk, sk, acc);
    } else {
        let acc2 = match attr_text(item, entries[i].0@) {
            Some(v) => acc.push(entries[i].0@ + "="@ + clip(v)),
            None => acc,
        };
        assert forall|j: int| 0 <= j < acc2.len() implies is_part_of(item, entries, pk, sk, #[trigger] acc2[j]) by {
            if j == acc.len() {
                assert(!is_key_attr(entries[i].0@, pk, sk));
            } else {
                assert(acc2[j] == acc[j]);
            }
        }
        if acc2.len() < 4 {
            lemma_parts_bounded(item, entries, i + 1, pk, sk, acc2);
        }
    }
}

/// The summary column shows at most four attributes, each a non-key
/// attribute of the item with a displayable value, as `name=value` with
/// the value cut for the column.
pub proof fn lemma_summary_shape(item: Json, pk: Option<Seq<char>>, sk: Option<Seq<char>>)
    ensures
        item matches Json::Object(entries) ==> {
            let parts = summary_parts(item, entries@, 0, pk, sk, Seq::empty());
            &&& parts.len() <= 4
            &&& forall|j: int| 0 <= j < parts.len() ==> is_part_of(item, entries@, pk, sk, #[trigger] parts[j])
        },
{
    if let Json::Object(entries) = item {
        lemma_parts_bounded(item, entries@, 0, pk, sk, Seq::empty());
    }
}

/// A value of at most 30 bytes is shown whole; a longer one that can be
/// cut is shown as exactly its first 30 bytes followed by `…`.
pub proof fn lemma_clip_keeps_first_bytes(v: Seq<char>)
    requires
        clip_fits(v),
    ensures
        encode_utf8(v).len() <= 30 ==> clip(v) == v,
        encode_utf8(v).len() > 30 ==> clip(v) == decode_utf8(encode_utf8(v).subrange(0, 30)) + "…"@
            && encode_utf8(decode_utf8(encode_utf8(v).subrange(0, 30))) == encode_utf8(v).subrange(0, 30),
{
    let bytes = encode_utf8(v);
    if bytes.len() > 30 {
        vstd::utf8::encode_utf8_valid_utf8(v);
        vstd::utf8::valid_utf8_split(bytes, 30);
        vstd::utf8::decode_utf8_encode_utf8(bytes.subrange(0, 30));
    }
}

/// The key column of an item. With no hash key known (as when the table
/// could not be described) and no sort key, it is the item's first member
/// as `name=value` when that member has a displayable value, else
/// `(empty)`. With a hash key the item has, it is that key's value, followed
/// by ` · ` and the sort key's value when the table has a sort key the item
/// has.
pub proof fn lemma_key_column(it: Item, raw: Json, meta: TableMeta)
    requires
        is_item_for(it, raw, meta),
    ensures
        meta.pk_field is None && meta.sk_field is None ==> (match raw {
            Json::Object(es) => if es@.len() > 0 && attr_text(raw, es@[0].0@) is Some {
                it.primary@ == es@[0].0@ + "="@ + attr_text(raw, es@[0].0@)->0
            } else {
                it.primary@ == "(empty)"@
            },
            _ => it.primary@ == "(empty)"@,
        }),
        forall|p: String, v: Seq<char>|
            meta.pk_field == Some(p) && meta.sk_field is None && attr_text(raw, p@) == Some(v) ==> it.primary@ == v,
        forall|p: String, q: String, v: Seq<char>, w: Seq<char>|
            meta.pk_field == Some(p) && meta.sk_field == Some(q) && attr_text(raw, p@) == Some(v) && attr_text(raw, q@)
                == Some(w) ==> it.primary@ == v + " · "@ + w,
        forall|p: String|
            meta.pk_field == Some(p) && meta.sk_field is None && attr_text(raw, p@) is None ==> (match raw {
                Json::Object(es) => if es@.len() > 0 && attr_text(raw, es@[0].0@) is Some {
                    it.primary@ == es@[0].0@ + "="@ + attr_text(raw, es@[0].0@)->0
                } else {
                    it.primary@ == "(empty)"@
                },
                _ => it.primary@ == "(empty)"@,
            }),
{
}

/// How an attribute value reads: DynamoDB's string type `S` as its text,
/// else its number type `N` as its text, else its boolean type `BOOL` as
/// `true`/`false`; nothing for a missing attribute or any other type.
pub proof fn lemma_attribute_types(item: Json, attr: Seq<char>)
    ensures
        field(item, attr) is None ==> attr_text(item, attr) is None,
        forall|inner: Json, s: String|
            field(item, attr) == Some(inner) && field(inner, "S"@) == Some(Json::String(s)) ==> attr_text(item, attr) == Some(s@),
        forall|inner: Json, s: String|
            field(item, attr) == Some(inner) && text_of(field(inner, "S"@)) is None && field(inner, "N"@) == Some(Json::String(s))
                ==> attr_text(item, attr) == Some(s@),
        forall|inner: Json|
            field(item, attr) == Some(inner) && text_of(field(inner, "S"@)) is None && text_of(field(inner, "N"@)) is None
                && field(inner, "BOOL"@) == Some(Json::Bool(true)) ==> attr_text(item, attr) == Some("true"@),
        forall|inner: Json|
            field(item, attr) == Some(inner) && text_of(field(inner, "S"@)) is None && text_of(field(inner, "N"@)) is None
                && field(inner, "BOOL"@) == Some(Json::Bool(false)) ==> attr_text(item, attr) == Some("false"@),
        forall|inner: Json|
            field(item, attr) == Some(inner) && text_of(field(inner, "S"@)) is None && text_of(field(inner, "N"@)) is None
                && bool_of(field(inner, "BOOL"@)) is None ==> attr_text(item, attr) is None,
{
}

proof fn lemma_last_key_is_last_of_kind(schema: Seq<Json>, n: int, kind: Seq<char>, i: int)
    requires
        0 <= i < n <= schema.len(),
        key_type(schema[i]) == kind,
        forall|j: int| i < j < n ==> key_type(#[trigger] schema[j]) != kind,
    ensures
        last_key_of_type(schema, n, kind) == key_name(schema[i]),
    decreases n,
{
    if n - 1 > i {
        lemma_last_key_is_last_of_kind(schema, n - 1, kind, i);
    }
}

proof fn lemma_no_key_of_kind(schema: Seq<Json>, n: int, kind: Seq<char>)
    requires
        0 <= n <= schema.len(),
        forall|j: int| 0 <= j < n ==> key_type(#[trigger] schema[j]) != kind,
    ensures
        last_key_of_type(schema, n, kind) is None,
    decreases n,
{
    if n > 0 {
        lemma_no_key_of_kind(schema, n - 1, kind);
    }
}

/// What `parse_meta` reads from a `describe-table` answer: the table name
/// it was given; the item count from `Table.ItemCount` and the size from
/// `Table.TableSizeBytes`, each read on its own (none when absent or not a
/// non-negative integer); the hash key from the last `HASH` entry of
/// `Table.KeySchema` and the sort key from the last `RANGE` entry, none
/// when there is no such entry.
pub proof fn lemma_meta_reads_description(m: TableMeta, table: Seq<char>, desc: Json)
    requires
        is_meta_for(m, table, desc),
    ensures
        m.name@ == table,
        field(desc, "Table"@) is None ==> m.item_count is None && m.size_bytes is None && m.pk_field is None
            && m.sk_field is None,
        forall|t: Json, n: u64|
            field(desc, "Table"@) == Some(t) && field(t, "ItemCount"@) == Some(Json::Number(JsonNumber::PosInt(n)))
                ==> m.item_count == Some(n),
        forall|t: Json, n: u64|
            field(desc, "Table"@) == Some(t) && field(t, "TableSizeBytes"@) == Some(Json::Number(JsonNumber::PosInt(n)))
                ==> m.size_bytes == Some(n),
        forall|t: Json|
            field(desc, "Table"@) == Some(t) && field(t, "ItemCount"@) is None ==> m.item_count is None,
        forall|t: Json|
            field(desc, "Table"@) == Some(t) && field(t, "TableSizeBytes"@) is None ==> m.size_bytes is None,
{
}

/// The hash key is the name in the last `HASH` entry of the key schema, and
/// the sort key the name in the last `RANGE` entry.
pub proof fn lemma_meta_key_names(m: TableMeta, table: Seq<char>, desc: Json, t: Json, v: Vec<Json>, i: int)
    requires
        is_meta_for(m, table, desc),
        field(desc, "Table"@) == Some(t),
        field(t, "KeySchema"@) == Some(Json::Array(v)),
        0 <= i < v@.len(),
    ensures
        text_of(field(v@[i], "KeyType"@)) == Some("HASH"@) && (forall|j: int|
            i < j < v@.len() ==> text_of(field(#[trigger] v@[j], "KeyType"@)) != Some("HASH"@))
            ==> opt_text(m.pk_field) == text_of(field(v@[i], "AttributeName"@)),
        text_of(field(v@[i], "KeyType"@)) == Some("RANGE"@) && (forall|j: int|
            i < j < v@.len() ==> text_of(field(#[trigger] v@[j], "KeyType"@)) != Some("RANGE"@))
            ==> opt_text(m.sk_field) == text_of(field(v@[i], "AttributeName"@)),
{
    reveal_strlit("HASH");
    reveal_strlit("RANGE");
    reveal_strlit("");
    let schema = v@;
    assert(key_schema(desc) == Some(schema));
    if text_of(field(v@[i], "KeyType"@)) == Some("HASH"@) && (forall|j: int|
        i < j < v@.len() ==> text_of(field(#[trigger] v@[j], "KeyType"@)) != Some("HASH"@)) {
        assert forall|j: int| i < j < schema.len() implies key_type(#[trigger] schema[j]) != "HASH"@ by {
            assert(text_of(field(v@[j], "KeyType"@)) != Some("HASH"@));
            if text_of(field(schema[j], "KeyType"@)) is None {
                assert(""@.len() == 0);
            }
        }
        lemma_last_key_is_last_of_kind(schema, schema.len() as int, "HASH"@, i);
    }
    if text_of(field(v@[i], "KeyType"@)) == Some("RANGE"@) && (forall|j: int|
        i < j < v@.len() ==> text_of(field(#[trigger] v@[j], "KeyType"@)) != Some("RANGE"@)) {
        assert forall|j: int| i < j < schema.len() implies key_type(#[trigger] schema[j]) != "RANGE"@ by {
            assert(text_of(field(v@[j], "KeyType"@)) != Some("RANGE"@));
            if text_of(field(schema[j], "KeyType"@)) is None {
                assert(""@.len() == 0);
            }
        }
        lemma_last_key_is_last_of_kind(schema, schema.len() as int, "RANGE"@, i);
    }
}

/// The console page starts with `https://` and the region, and ends by
/// naming the table; without a region it is the page for `us-east-1`.
pub proof fn lemma_console_url_names_region_and_table(table: Seq<char>, region: Seq<char>)
    ensures
        console_url_text(table, None) == console_url_text(table, Some("us-east-1"@)),
        ("https://"@ + region).is_prefix_of(console_url_text(table, Some(region))),
        ("#item-explorer?table="@ + table).is_suffix_of(console_url_text(table, Some(region))),
{
    let a = "https://"@ + region;
    let b = ".console.aws.amazon.com/dynamodbv2/home?region="@ + region;
    let c = "#item-explorer?table="@ + table;
    let u = console_url_text(table, Some(region));
    assert(u =~= a + (b + c));
    lemma_concat_ends(a, b + c);
    assert(u =~= (a + b) + c);
    lemma_concat_ends(a + b, c);
}

/// The `aws` argument list: `--region` and the region first when there is
/// a region, then the call's own arguments in order, then `--output json`.
pub proof fn lemma_aws_args_layout(args: Seq<Seq<char>>, region: Option<Seq<char>>)
    ensures
        ({
            let full = aws_args_text(args, region);
            let k: int = if region is Some {
                2
            } else {
                0
            };
            &&& full.len() == k + args.len() + 2
            &&& (region matches Some(r) ==> full[0] == "--region"@ && full[1] == r)
            &&& forall|i: int| 0 <= i < args.len() ==> full[k + i] == #[trigger] args[i]
            &&& full[full.len() - 2] == "--output"@
            &&& full[full.len() - 1] == "json"@
        }),
{
}

/// A scan call names the table after `--table-name` and asks for at most
/// `limit` items after `--limit`; a describe call names the table.
pub proof fn lemma_call_arguments(table: Seq<char>, limit: u32)
    ensures
        scan_args_text(table, limit).len() == 6,
        scan_args_text(table, limit)[0] == "dynamodb"@,
        scan_args_text(table, limit)[1] == "scan"@,
        scan_args_text(table, limit)[2] == "--table-name"@,
        scan_args_text(table, limit)[3] == table,
        scan_args_text(table, limit)[4] == "--limit"@,
        digits_value(scan_args_text(table, limit)[5]) == limit,
        describe_args_text(table).len() == 4,
        describe_args_text(table)[1] == "describe-table"@,
        describe_args_text(table)[3] == table,
{
    lemma_decimal_reads_back(limit as nat);
}

/// How an `aws` run is read: a process that did not start reports the
/// system error; a failed run reports `aws`, the call's first argument and
/// the trimmed error output; a successful run without output yields
/// `Null`; otherwise the output is parsed, and a parse error is reported.
pub proof fn lemma_aws_outcome_cases(args: Seq<Seq<char>>, run: AwsRun)
    ensures
        run matches AwsRun::NotStarted(e) ==> (aws_outcome(args, run) matches Err(m) && ("spawn aws: "@
            + e@).is_prefix_of(m)),
        match run {
            AwsRun::Finished { success, stdout, stderr } => if !success {
                aws_outcome(args, run) matches Err(m) && ("aws "@ + (if args.len() > 0 {
                    args[0]
                } else {
                    ""@
                })).is_prefix_of(m) && trim(utf8_lossy(stderr@)).is_suffix_of(m)
            } else if stdout@.len() == 0 {
                aws_outcome(args, run) == Ok::<Json, Seq<char>>(Json::Null)
            } else {
                match json_from_slice(stdout@) {
                    Ok(j) => aws_outcome(args, run) == Ok::<Json, Seq<char>>(j),
                    Err(m) => aws_outcome(args, run) == Err::<Json, Seq<char>>("parse json: "@ + m),
                }
            },
            _ => true,
        },
{
    match run {
        AwsRun::NotStarted(e) => {
            let m = "spawn aws: "@ + e@ + " — is the AWS CLI on PATH?"@;
            lemma_concat_ends("spawn aws: "@ + e@, " — is the AWS CLI on PATH?"@);
        },
        AwsRun::Finished { success, stdout, stderr } => {
            if !success {
                let first = if args.len() > 0 {
                    args[0]
                } else {
                    ""@
                };
                let a = "aws "@ + first;
                let b = " → "@;
                let c = trim(utf8_lossy(stderr@));
                assert(a + b + c =~= a + (b + c));
                lemma_concat_ends(a, b + c);
                lemma_concat_ends(a + b, c);
            }
        },
    }
}

/// What a scan reports: a failed scan call as it failed; a scan answer
/// without an `Items` member as a scan of no items; and when the describe
/// call failed, a table with no known key attributes.
pub proof fn lemma_scan_event_cases(ev: DynamoEvent, table: Seq<char>, scan: Result<Json, String>, desc: Result<Json, String>)
    requires
        is_scan_event(ev, table, scan, desc),
    ensures
        scan matches Err(e) ==> ev == DynamoEvent::Failed(e),
        scan matches Ok(Json::Object(es)) && member(es@, "Items"@) is None ==> (ev matches DynamoEvent::Scanned { items, .. }
            && items@.len() == 0),
        forall|es: Vec<(String, Json)>, v: Vec<Json>|
            scan == Ok::<Json, String>(Json::Object(es)) && member(es@, "Items"@) == Some(Json::Array(v)) ==> (ev matches DynamoEvent::Scanned {
                items,
                meta,
            } && items@.len() == v@.len() && forall|i: int| 0 <= i < v@.len() ==> (#[trigger] items@[i]).raw == v@[i]),
        desc is Err && scan is Ok && ev is Scanned ==> (ev matches DynamoEvent::Scanned { meta, .. } && meta.pk_field is None
            && meta.sk_field is None && meta.item_count is None && meta.size_bytes is None && meta.name@ == table),
{
}

proof fn lemma_parts_of_plain_items(
    item: Json,
    entries: Seq<(String, Json)>,
    i: int,
    pk: Option<Seq<char>>,
    sk: Option<Seq<char>>,
    acc: Seq<Seq<char>>,
)
    requires
        0 <= i <= entries.len(),
        acc.len() == i,
        i < 4,
        forall|j: int| 0 <= j < i ==> acc[j] == entries[j].0@ + "="@ + clip(attr_text(item, entries[j].0@)->0),
        forall|j: int|
            0 <= j < entries.len() ==> !is_key_attr((#[trigger] entries[j]).0@, pk, sk) && attr_text(item, entries[j].0@) is Some,
    ensures
        ({
            let parts = summary_parts(item, entries, i, pk, sk, acc);
            &&& parts.len() == if entries.len() < 4 {
                entries.len() as int
            } else {
                4
            }
            &&& forall|j: int| 0 <= j < parts.len() ==> #[trigger] parts[j] == entries[j].0@ + "="@ + clip(
                attr_text(item, entries[j].0@)->0,
            )
        }),
    decreases entries.len() - i,
{
    if i < entries.len() {
        let acc2 = acc.push(entries[i].0@ + "="@ + clip(attr_text(item, entries[i].0@)->0));
        assert(!is_key_attr(entries[i].0@, pk, sk));
        if acc2.len() < 4 {
            lemma_parts_of_plain_items(item, entries, i + 1, pk, sk, acc2);
        }
    }
}

/// When no member of the item is a key attribute and every member has a
/// displayable value, the summary lists the first four members (all of
/// them when there are fewer) in order, each as `name=value`; two members
/// are shown two spaces apart.
pub proof fn lemma_summary_lists_leading_members(item: Json, pk: Option<Seq<char>>, sk: Option<Seq<char>>)
    requires
        item matches Json::Object(es) && forall|j: int|
            0 <= j < es@.len() ==> !is_key_attr((#[trigger] es@[j]).0@, pk, sk) && attr_text(item, es@[j].0@) is Some,
    ensures
        item matches Json::Object(es) && ({
            let parts = summary_parts(item, es@, 0, pk, sk, Seq::empty());
            let part = |j: int| es@[j].0@ + "="@ + clip(attr_text(item, es@[j].0@)->0);
            &&& parts.len() == if es@.len() < 4 {
                es@.len() as int
            } else {
                4
            }
            &&& (forall|j: int| 0 <= j < parts.len() ==> #[trigger] parts[j] == part(j))
            &&& (es@.len() == 2 ==> summary_text(item, pk, sk) == part(0) + "  "@ + part(1))
        }),
{
    if let Json::Object(es) = item {
        lemma_parts_of_plain_items(item, es@, 0, pk, sk, Seq::empty());
        let parts = summary_parts(item, es@, 0, pk, sk, Seq::empty());
        let part = |j: int| es@[j].0@ + "="@ + clip(attr_text(item, es@[j].0@)->0);
        assert(forall|j: int| 0 <= j < parts.len() ==> #[trigger] parts[j] == part(j));
        if es@.len() == 2 {
            assert(parts.len() == 2);
            assert(parts.drop_last() =~= seq![parts[0]]);
            assert(join(parts.drop_last(), "  "@) == parts[0]);
            assert(summary_text(item, pk, sk) == join(parts, "  "@));
            assert(join(parts, "  "@) == parts[0] + "  "@ + parts[1]);
        }
    }
}

/// `v` cut for the summary column.
fn clip_value(v: String) -> (r: String)
    requires
        clip_fits(v@),
    ensures
        r@ == clip(v@),
{
    let bytes = v.as_str().as_bytes();
    if bytes.len() > 30 {
        let (head, _) = v.as_str().split_at(30);
        proof {
            encode_utf8_decode_utf8(head@);
        }
        let mut r = head.to_owned();
        r.append("…");
        r
    } else {
        v
    }
}

/// Whether every value `compact_secondary` would cut can be cut.
fn item_summary_fits(item: &Json, meta: &TableMeta) -> (r: bool)
    ensures
        r == summary_ok(*item, opt_text(meta.pk_field), opt_text(meta.sk_field)),
{
    let ghost pk = opt_text(meta.pk_field);
    let ghost sk = opt_text(meta.sk_field);
    if let Json::Object(entries) = item {
        let mut count: usize = 0;
        let mut i: usize = 0;
        while i < entries.len()
            invariant
                *item == Json::Object(*entries),
                pk == opt_text(meta.pk_field),
                sk == opt_text(meta.sk_field),
                i <= entries@.len(),
                count < 4,
                summary_fits(*item, entries@, 0, pk, sk, 0) == summary_fits(*item, entries@, i as int, pk, sk, count as nat),
            decreases entries.len() - i,
        {
            let k = &entries[i].0;
            if !is_key_attr_exec(k, meta) {
                if let Some(v) = extract_attr(item, k.as_str()) {
                    if !clip_fits_exec(&v) {
                        return false;
                    }
                    count = count + 1;
                }
                if count >= 4 {
                    return true;
                }
            }
            i = i + 1;
        }
    }
    true
}

fn clip_fits_exec(v: &String) -> (r: bool)
    ensures
        r == clip_fits(v@),
{
    v.as_str().as_bytes().len() <= 30 || v.as_str().is_char_boundary(30)
}

fn is_key_attr_exec(name: &String, meta: &TableMeta) -> (r: bool)
    ensures
        r == is_key_attr(name@, opt_text(meta.pk_field), opt_text(meta.sk_field)),
{
    let is_pk = match &meta.pk_field {
        Some(p) => *p == *name,
        None => false,
    };
    let is_sk = match &meta.sk_field {
        Some(s) => *s == *name,
        None => false,
    };
    is_pk || is_sk
}

/// The summary column for an item: up to four non-key attributes with a
/// displayable value, each as `name=value` with values over 30 bytes cut.
pub fn compact_secondary(item: &Json, meta: &TableMeta) -> (r: String)
    requires
        summary_ok(*item, opt_text(meta.pk_field), opt_text(meta.sk_field)),
    ensures
        r@ == summary_text(*item, opt_text(meta.pk_field), opt_text(meta.sk_field)),
{
    let ghost pk = opt_text(meta.pk_field);
    let ghost sk = opt_text(meta.sk_field);
    let mut parts: Vec<String> = Vec::new();
    assert(parts@.map_values(|p: String| p@) =~= Seq::<Seq<char>>::empty());
    if let Json::Object(entries) = item {
        let mut i: usize = 0;
        while i < entries.len() && parts.len() < 4
            invariant
                *item == Json::Object(*entries),
                pk == opt_text(meta.pk_field),
                sk == opt_text(meta.sk_field),
                i <= entries@.len(),
                parts@.len() <= 4,
                summary_parts(*item, entries@, 0, pk, sk, Seq::empty()) == (if parts@.len() >= 4 {
                    parts@.map_values(|p: String| p@)
                } else {
                    summary_parts(*item, entries@, i as int, pk, sk, parts@.map_values(|p: String| p@))
                }),
                parts@.len() < 4 ==> summary_fits(*item, entries@, i as int, pk, sk, parts@.len()),
            decreases entries.len() - i,
        {
            let k = &entries[i].0;
            if !is_key_attr_exec(k, meta) {
                let ghost before = parts@.map_values(|p: String| p@);
                if let Some(v) = extract_attr(item, k.as_str()) {
                    let short = clip_value(v);
                    let mut part = k.clone();
                    part.append("=");
                    part.append(short.as_str());
                    parts.push(part);
                    assert(parts@.map_values(|p: String| p@) =~= before.push(part@));
                }
            }
            i = i + 1;
        }
    }
    join_strings(&parts, "  ")
}

/// The display text of attribute `attr` of `item`: a string attribute's
/// text, a number attribute's text, or `true`/`false`.
pub fn extract_attr(item: &Json, attr: &str) -> (r: Option<String>)
    ensures
        opt_text(r) == attr_text(*item, attr@),
{
    let inner = match item.get(attr) {
        Some(v) => v,
        None => return None,
    };
    if let Some(v) = inner.get("S") {
        if let Some(s) = v.as_str() {
            return Some(s.to_owned());
        }
    }
    if let Some(v) = inner.get("N") {
        if let Some(s) = v.as_str() {
            return Some(s.to_owned());
        }
    }
    if let Some(v) = inner.get("BOOL") {
        if let Some(b) = v.as_bool() {
            return Some(
                if b {
                    "true".to_owned()
                } else {
                    "false".to_owned()
                },
            );
        }
    }
    None
}

/// `key=value` for the item's first attribute when it has a displayable
/// value, else `(empty)`.
pub fn extract_first_value(item: &Json) -> (r: String)
    ensures
        r@ == first_value_text(*item),
{
    if let Json::Object(entries) = item {
        if entries.len() > 0 {
            let k = &entries[0].0;
            if let Some(v) = extract_attr(item, k.as_str()) {
                let mut s = k.clone();
                s.append("=");
                s.append(v.as_str());
                return s;
            }
        }
    }
    "(empty)".to_owned()
}

/// The DynamoDB console page for `table` in `region` (`us-east-1` when none).
pub fn console_url(table: &str, region: Option<&str>) -> (r: String)
    ensures
        r@ == console_url_text(
            table@,
            match region {
                Some(s) => Some(s@),
                None => None,
            },
        ),
{
    let reg = match region {
        Some(s) => s,
        None => "us-east-1",
    };
    let mut u = "https://".to_owned();
    u.append(reg);
    u.append(".console.aws.amazon.com/dynamodbv2/home?region=");
    u.append(reg);
    u.append("#item-explorer?table=");
    u.append(table);
    u
}

/// Reads the table's key attributes and sizes from a `describe-table`
/// answer (`Null` when that call failed). With several entries of one key
/// type the last one counts.
pub fn parse_meta(table: &str, desc: &Json) -> (r: TableMeta)
    ensures
        is_meta_for(r, table@, *desc),
{
    let mut pk_field: Option<String> = None;
    let mut sk_field: Option<String> = None;
    let table_obj = desc.get("Table");
    let schema = match table_obj {
        Some(t) => t.get("KeySchema"),
        None => None,
    };
    if let Some(Json::Array(entries)) = schema {
        let mut i: usize = 0;
        while i < entries.len()
            invariant
                key_schema(*desc) == Some(entries@),
                i <= entries@.len(),
                opt_text(pk_field) == last_key_of_type(entries@, i as int, "HASH"@),
                opt_text(sk_field) == last_key_of_type(entries@, i as int, "RANGE"@),
            decreases entries.len() - i,
        {
            let entry = &entries[i];
            let name = match entry.get("AttributeName") {
                Some(v) => match v.as_str() {
                    Some(s) => Some(s.to_owned()),
                    None => None,
                },
                None => None,
            };
            let kind: &str = match entry.get("KeyType") {
                Some(v) => match v.as_str() {
                    Some(s) => s,
                    None => "",
                },
                None => "",
            };
            proof {
                reveal_strlit("HASH");
                reveal_strlit("RANGE");
                assert("HASH"@ != "RANGE"@ ) by {
                    assert("HASH"@[0] != "RANGE"@[0]);
                }
            }
            if same_text(kind, "HASH") {
                pk_field = name;
            } else if same_text(kind, "RANGE") {
                sk_field = name;
            }
            i = i + 1;
        }
    }
    let item_count = match table_obj {
        Some(t) => match t.get("ItemCount") {
            Some(v) => v.as_u64(),
            None => None,
        },
        None => None,
    };
    let size_bytes = match table_obj {
        Some(t) => match t.get("TableSizeBytes") {
            Some(v) => v.as_u64(),
            None => None,
        },
        None => None,
    };
    TableMeta { name: table.to_owned(), pk_field, sk_field, item_count, size_bytes }
}

/// What the browser learns from one scan of a table.
#[derive(Debug)]
pub enum DynamoEvent {
    Scanned { items: Vec<Item>, meta: TableMeta },
    Failed(String),
}

/// How one run of the `aws` CLI ended.
#[derive(Debug)]
pub enum AwsRun {
    /// The process could not be started; the system error's text.
    NotStarted(String),
    /// The process ran: whether it exited successfully, and what it printed.
    Finished { success: bool, stdout: Vec<u8>, stderr: Vec<u8> },
}

/// What `String::from_utf8_lossy` makes of `bytes`.
pub uninterp spec fn utf8_lossy(bytes: Seq<u8>) -> Seq<char>;

/// Decodes bytes as UTF-8 with `String::from_utf8_lossy`, which replaces
/// invalid sequences with U+FFFD. The contract claims that the text is a
/// function of the bytes alone, named `utf8_lossy`, and, as the function's
/// documentation says, that valid UTF-8 is decoded as it is.
#[verifier::external_body]
fn from_utf8_lossy(bytes: &[u8]) -> (r: String)
    ensures
        r@ == utf8_lossy(bytes@),
        valid_utf8(bytes@) ==> r@ == decode_utf8(bytes@),
{
    String::from_utf8_lossy(bytes).into_owned()
}

/// The texts of a list of strings.
pub open spec fn texts(v: Seq<String>) -> Seq<Seq<char>> {
    v.map_values(|s: String| s@)
}

/// Arguments of the `aws` call that scans up to `limit` items of `table`.
pub open spec fn scan_args_text(table: Seq<char>, limit: u32) -> Seq<Seq<char>> {
    seq!["dynamodb"@, "scan"@, "--table-name"@, table, "--limit"@, decimal(limit as nat)]
}

/// Arguments of the `aws` call that describes `table`.
pub open spec fn describe_args_text(table: Seq<char>) -> Seq<Seq<char>> {
    seq!["dynamodb"@, "describe-table"@, "--table-name"@, table]
}

/// The full argument list of an `aws` call: the region first when there is
/// one, then the call's own arguments, then JSON output.
pub open spec fn aws_args_text(args: Seq<Seq<char>>, region: Option<Seq<char>>) -> Seq<Seq<char>> {
    let prefix = match region {
        Some(r) => seq!["--region"@, r],
        None => Seq::empty(),
    };
    prefix + args + seq!["--output"@, "json"@]
}

/// What an `aws` run yields: the JSON it printed (`Null` for no output), or
/// the error text.
pub open spec fn aws_outcome(args: Seq<Seq<char>>, run: AwsRun) -> Result<Json, Seq<char>> {
    match run {
        AwsRun::NotStarted(e) => Err("spawn aws: "@ + e@ + " — is the AWS CLI on PATH?"@),
        AwsRun::Finished { success, stdout, stderr } => if !success {
            let first = if args.len() > 0 {
                args[0]
            } else {
                ""@
            };
            Err("aws "@ + first + " → "@ + trim(utf8_lossy(stderr@)))
        } else if stdout@.len() == 0 {
            Ok(Json::Null)
        } else {
            match json_from_slice(stdout@) {
                Ok(j) => Ok(j),
                Err(m) => Err("parse json: "@ + m),
            }
        },
    }
}

/// `r` is the outcome `s`, texts compared by content.
pub open spec fn outcome_is(r: Result<Json, String>, s: Result<Json, Seq<char>>) -> bool {
    match (r, s) {
        (Ok(a), Ok(b)) => a == b,
        (Err(a), Err(b)) => a@ == b,
        _ => false,
    }
}

/// The describe answer that scanning uses: the JSON, or `Null` when the
/// call failed.
pub open spec fn description(desc: Result<Json, String>) -> Json {
    match desc {
        Ok(j) => j,
        Err(_) => Json::Null,
    }
}

/// Scanning can build every item's summary column without cutting a character.
pub open spec fn scan_ok(scan: Result<Json, String>, desc: Result<Json, String>) -> bool {
    match scan {
        Ok(resp) => match response_items(resp) {
            Some(raws) => items_ok(raws, key_field(description(desc), "HASH"@), key_field(description(desc), "RANGE"@)),
            None => true,
        },
        Err(_) => true,
    }
}

/// `ev` is what a scan of `table` reports, given what the scan call and
/// the describe call yielded.
pub open spec fn is_scan_event(ev: DynamoEvent, table: Seq<char>, scan: Result<Json, String>, desc: Result<Json, String>) -> bool {
    match scan {
        Err(e) => ev == DynamoEvent::Failed(e),
        Ok(resp) => match response_items(resp) {
            None => ev matches DynamoEvent::Failed(m) && m@ == "parse dynamodb scan response"@,
            Some(raws) => match ev {
                DynamoEvent::Scanned { items, meta } => {
                    &&& is_meta_for(meta, table, description(desc))
                    &&& items@.len() == raws.len()
                    &&& forall|i: int| 0 <= i < raws.len() ==> is_item_for(#[trigger] items@[i], raws[i], meta)
                },
                DynamoEvent::Failed(_) => false,
            },
        },
    }
}

/// Arguments of the `aws` call that scans up to `limit` items of `table`.
pub fn scan_args(table: &str, limit: u32) -> (r: Vec<String>)
    ensures
        texts(r@) == scan_args_text(table@, limit),
{
    let mut v: Vec<String> = Vec::new();
    v.push("dynamodb".to_owned());
    v.push("scan".to_owned());
    v.push("--table-name".to_owned());
    v.push(table.to_owned());
    v.push("--limit".to_owned());
    v.push(fmt_u64(limit as u64));
    assert(texts(v@) =~= scan_args_text(table@, limit));
    v
}

/// Arguments of the `aws` call that describes `table`.
pub fn describe_args(table: &str) -> (r: Vec<String>)
    ensures
        texts(r@) == describe_args_text(table@),
{
    let mut v: Vec<String> = Vec::new();
    v.push("dynamodb".to_owned());
    v.push("describe-table".to_owned());
    v.push("--table-name".to_owned());
    v.push(table.to_owned());
    assert(texts(v@) =~= describe_args_text(table@));
    v
}

/// The full argument list of an `aws` call in `region`, asking for JSON.
pub fn aws_command_args(args: &Vec<String>, region: Option<&str>) -> (r: Vec<String>)
    ensures
        texts(r@) == aws_args_text(
            texts(args@),
            match region {
                Some(s) => Some(s@),
                None => None,
            },
        ),
{
    let mut v: Vec<String> = Vec::new();
    if let Some(reg) = region {
        v.push("--region".to_owned());
        v.push(reg.to_owned());
    }
    let ghost prefix = texts(v@);
    let mut i: usize = 0;
    while i < args.len()
        invariant
            i <= args@.len(),
            texts(v@) == prefix + texts(args@).take(i as int),
        decreases args.len() - i,
    {
        let ghost old_v = v@;
        let c = args[i].clone();
        v.push(c);
        assert(texts(v@) =~= texts(old_v).push(c@));
        assert(texts(args@).take(i + 1) =~= texts(args@).take(i as int).push(args@[i as int]@));
        assert(texts(v@) =~= prefix + texts(args@).take(i + 1));
        i = i + 1;
    }
    let ghost before = texts(v@);
    v.push("--output".to_owned());
    v.push("json".to_owned());
    assert(texts(args@).take(args@.len() as int) =~= texts(args@));
    assert(texts(v@) =~= before + seq!["--output"@, "json"@]);
    v
}

/// Reads the outcome of an `aws` run made with the call arguments `args`:
/// the JSON printed on success (`Null` when nothing was printed), else an
/// error text naming what went wrong.
pub fn decode_aws_run(args: &Vec<String>, run: AwsRun) -> (r: Result<Json, String>)
    ensures
        outcome_is(r, aws_outcome(texts(args@), run)),
{
    match run {
        AwsRun::NotStarted(e) => {
            let mut m = "spawn aws: ".to_owned();
            m.append(e.as_str());
            m.append(" — is the AWS CLI on PATH?");
            Err(m)
        },
        AwsRun::Finished { success, stdout, stderr } => {
            if !success {
                let mut m = "aws ".to_owned();
                if args.len() > 0 {
                    m.append(args[0].as_str());
                } else {
                    m.append("");
                }
                m.append(" → ");
                let text = from_utf8_lossy(stderr.as_slice());
                let trimmed = trim_str(text.as_str());
                m.append(trimmed.as_str());
                Err(m)
            } else if stdout.len() == 0 {
                Ok(Json::Null)
            } else {
                match parse_json(stdout.as_slice()) {
                    Ok(j) => Ok(j),
                    Err(e) => {
                        let mut m = "parse json: ".to_owned();
                        m.append(e.as_str());
                        Err(m)
                    },
                }
            }
        },
    }
}

/// Whether scanning with these call results can build every item's
/// summary column without cutting a character.
pub fn scan_fits(table: &str, scan: &Result<Json, String>, desc: &Result<Json, String>) -> (r: bool)
    ensures
        r == scan_ok(*scan, *desc),
{
    let null = Json::Null;
    let d: &Json = match desc {
        Ok(j) => j,
        Err(_) => &null,
    };
    let meta = parse_meta(table, d);
    match scan {
        Err(_) => true,
        Ok(resp) => match resp {
            Json::Object(entries) => match find_member(entries, "Items") {
                None => true,
                Some(i) => match &entries[i].1 {
                    Json::Array(items) => items_fit(items, &meta),
                    _ => true,
                },
            },
            Json::Array(fields) => {
                if fields.len() == 1 {
                    match &fields[0] {
                        Json::Array(items) => items_fit(items, &meta),
                        _ => true,
                    }
                } else {
                    true
                }
            },
            _ => true,
        },
    }
}

/// What a scan of `table` reports, given what the scan call and the
/// describe call yielded: a failed scan call is reported as it failed, an
/// unreadable answer as such, else the items with their key and summary
/// columns and what the description tells about the table.
pub fn scan_outcome(table: &str, scan: Result<Json, String>, desc: Result<Json, String>) -> (r: DynamoEvent)
    requires
        scan_ok(scan, desc),
    ensures
        is_scan_event(r, table@, scan, desc),
{
    let desc_json = match desc {
        Ok(j) => j,
        Err(_) => Json::Null,
    };
    match scan {
        Err(e) => DynamoEvent::Failed(e),
        Ok(resp) => {
            let meta = parse_meta(table, &desc_json);
            match take_response_items(resp) {
                None => DynamoEvent::Failed("parse dynamodb scan response".to_owned()),
                Some(raws) => {
                    let items = build_items(raws, &meta);
                    DynamoEvent::Scanned { items, meta }
                },
            }
        },
    }
}

} // verus!
