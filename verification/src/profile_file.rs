//! Editing a profile's TOML file in place after a video press: the pressed
//! video's path, frame rate and gaps are written into every video slot, with
//! `toml_edit` keeping the rest of the file as it was written.

use vstd::prelude::*;
use toml_edit::{DocumentMut, Value};
use crate::text::str_is;

verus! {

#[verifier::external_type_specification]
#[verifier::external_body]
pub struct ExDocumentMut(DocumentMut);

#[verifier::external_type_specification]
#[verifier::external_body]
pub struct ExValue(Value);

/// What a TOML document holds, without its layout: strings by their value,
/// integers by their value, other scalars (floats, booleans, date-times) by the
/// text they are written as; inline tables, tables and arrays of tables kept
/// apart, as `toml_edit` keeps them apart.
pub enum TomlV {
    Str(Seq<char>),
    Int(i64),
    Other(Seq<char>),
    Array(Seq<TomlV>),
    InlineTable(Map<Seq<char>, TomlV>),
    Table(Map<Seq<char>, TomlV>),
    ArrayOfTables(Seq<Map<Seq<char>, TomlV>>),
}

/// The top-level table of the document that `toml_edit` parses from `text`, or
/// `None` where the text is not a TOML document.
pub uninterp spec fn toml_parse(text: Seq<char>) -> Option<Map<Seq<char>, TomlV>>;

/// The top-level table a document holds (keys whose item is `Item::None` are absent).
pub uninterp spec fn doc_contents(d: DocumentMut) -> Map<Seq<char>, TomlV>;

/// What a TOML value holds.
pub uninterp spec fn toml_value(v: Value) -> TomlV;

/// `<DocumentMut as FromStr>::from_str`: the parsed document, or `None` on a
/// parse error. What it holds is named, not described.
#[verifier::external_body]
fn parse_document(text: &str) -> (r: Option<DocumentMut>)
    ensures
        r is None <==> toml_parse(text@) is None,
        r matches Some(d) ==> toml_parse(text@) == Some(doc_contents(d)),
{
    text.parse::<DocumentMut>().ok()
}

/// `DocumentMut`'s `Display` (`to_string`). The crate is a format-preserving
/// editor: the text it writes parses back to what the document holds (its
/// documented limitations concern the order of dotted keys and a trailing
/// newline, which `TomlV` does not hold). The text itself is not described.
#[verifier::external_body]
fn document_text(d: &DocumentMut) -> (r: String)
    ensures
        toml_parse(r@) == Some(doc_contents(*d)),
{
    d.to_string()
}

/// `Table::contains_key` on the top-level table: whether `key` holds an item.
#[verifier::external_body]
fn contains_key(d: &DocumentMut, key: &str) -> (r: bool)
    ensures
        r == doc_contents(*d).contains_key(key@),
{
    d.contains_key(key)
}

/// `doc[key] = Item::Value(v)` (`IndexMut<&str>` for `DocumentMut`, which adds
/// the key where it is missing): the top-level `key` now holds `v`.
#[verifier::external_body]
fn set_key(d: &mut DocumentMut, key: &str, v: &Value)
    ensures
        doc_contents(*final(d)) == doc_contents(*old(d)).insert(key@, toml_value(*v)),
{
    d[key] = toml_edit::Item::Value(v.clone());
}

/// The tables of the array of tables at the top-level `key`; none where the key
/// holds something else or nothing.
pub open spec fn tables_at(doc: Map<Seq<char>, TomlV>, key: Seq<char>) -> Seq<Map<Seq<char>, TomlV>> {
    match doc.get(key) {
        Some(TomlV::ArrayOfTables(ts)) => ts,
        _ => seq![],
    }
}

/// `ArrayOfTables::len` of the item at `key` (`Table::get`, then the
/// `Item::ArrayOfTables` variant); 0 where there is no such array.
#[verifier::external_body]
fn tables_len(d: &DocumentMut, key: &str) -> (r: usize)
    ensures
        r == tables_at(doc_contents(*d), key@).len(),
{
    match d.get(key) {
        Some(toml_edit::Item::ArrayOfTables(a)) => a.len(),
        _ => 0,
    }
}

/// The string that `field` of table `i` of the array of tables at `key` holds.
pub open spec fn table_str(doc: Map<Seq<char>, TomlV>, key: Seq<char>, i: int, field: Seq<char>) -> Option<Seq<char>> {
    let ts = tables_at(doc, key);
    if 0 <= i < ts.len() {
        match ts[i].get(field) {
            Some(TomlV::Str(s)) => Some(s),
            _ => None,
        }
    } else {
        None
    }
}

/// `Item::as_str` of `field` in table `i` of the array of tables at `key`
/// (`Table::get`, `ArrayOfTables::get`, `Table::get`, the string's value).
#[verifier::external_body]
fn get_table_str(d: &DocumentMut, key: &str, i: usize, field: &str) -> (r: Option<String>)
    ensures
        match table_str(doc_contents(*d), key@, i as int, field@) {
            Some(s) => r is Some && r->0@ == s,
            None => r is None,
        },
{
    match d.get(key) {
        Some(toml_edit::Item::ArrayOfTables(a)) => match a.get(i) {
            Some(t) => match t.get(field) {
                Some(item) => match item.as_str() {
                    Some(s) => Some(s.to_owned()),
                    None => None,
                },
                None => None,
            },
            None => None,
        },
        _ => None,
    }
}

/// `table[field] = Item::Value(v)` on table `i` of the array of tables at `key`
/// (`Table::get_mut`, `ArrayOfTables::get_mut`, `IndexMut<&str>` for `Table`).
#[verifier::external_body]
fn set_table_value(d: &mut DocumentMut, key: &str, i: usize, field: &str, v: &Value)
    requires
        i < tables_at(doc_contents(*old(d)), key@).len(),
    ensures
        doc_contents(*final(d)) == doc_contents(*old(d)).insert(
            key@,
            TomlV::ArrayOfTables(
                tables_at(doc_contents(*old(d)), key@).update(
                    i as int,
                    tables_at(doc_contents(*old(d)), key@)[i as int].insert(field@, toml_value(*v)),
                ),
            ),
        ),
{
    if let Some(toml_edit::Item::ArrayOfTables(a)) = d.get_mut(key) {
        if let Some(t) = a.get_mut(i) {
            t[field] = toml_edit::Item::Value(v.clone());
        }
    }
}

/// `<Value as From<&str>>::from`: a string value.
#[verifier::external_body]
fn str_value(s: &str) -> (r: Value)
    ensures
        toml_value(r) == TomlV::Str(s@),
{
    Value::from(s)
}

/// `<Value as From<i64>>::from`: an integer value.
#[verifier::external_body]
fn int_value(n: i64) -> (r: Value)
    ensures
        toml_value(r) == TomlV::Int(n),
{
    Value::from(n)
}

/// A video slot's table after a press: a table whose `action` is the string
/// `chs.deck.video` takes the path, frame rate and gaps; any other is unchanged.
pub open spec fn video_slot_updated(
    t: Map<Seq<char>, TomlV>,
    path: Seq<char>,
    fps: TomlV,
    gap_x: u32,
    gap_y: u32,
) -> Map<Seq<char>, TomlV> {
    if t.get("action"@) == Some(TomlV::Str("chs.deck.video"@)) {
        t.insert("video_path"@, TomlV::Str(path)).insert("video_fps"@, fps).insert(
            "video_gap_x"@,
            TomlV::Int(gap_x as i64),
        ).insert("video_gap_y"@, TomlV::Int(gap_y as i64))
    } else {
        t
    }
}

/// The top-level table after a press: a top-level `video_path` is set where the
/// file has one, every video slot of the `[[slot]]` array of tables is updated
/// (see `video_slot_updated`), and nothing else changes.
pub open spec fn spec_video_updated(
    doc: Map<Seq<char>, TomlV>,
    path: Seq<char>,
    fps: TomlV,
    gap_x: u32,
    gap_y: u32,
) -> Map<Seq<char>, TomlV> {
    let d1 = if doc.contains_key("video_path"@) {
        doc.insert("video_path"@, TomlV::Str(path))
    } else {
        doc
    };
    match d1.get("slot"@) {
        Some(TomlV::ArrayOfTables(ts)) => d1.insert(
            "slot"@,
            TomlV::ArrayOfTables(ts.map_values(|t: Map<Seq<char>, TomlV>| video_slot_updated(t, path, fps, gap_x, gap_y))),
        ),
        _ => d1,
    }
}

proof fn lemma_slot_update_twice(t: Map<Seq<char>, TomlV>, path: Seq<char>, fps: TomlV, gap_x: u32, gap_y: u32)
    ensures
        video_slot_updated(video_slot_updated(t, path, fps, gap_x, gap_y), path, fps, gap_x, gap_y)
            == video_slot_updated(t, path, fps, gap_x, gap_y),
{
    reveal_strlit("action");
    reveal_strlit("video_path");
    reveal_strlit("video_fps");
    reveal_strlit("video_gap_x");
    reveal_strlit("video_gap_y");
    let u = video_slot_updated(t, path, fps, gap_x, gap_y);
    assert("action"@.len() == 6 && "video_path"@.len() == 10 && "video_fps"@.len() == 9);
    assert("video_gap_x"@.len() == 11 && "video_gap_y"@.len() == 11);
    assert("action"@ != "video_path"@ && "action"@ != "video_fps"@);
    assert("action"@ != "video_gap_x"@ && "action"@ != "video_gap_y"@);
    if t.get("action"@) == Some(TomlV::Str("chs.deck.video"@)) {
        assert(u.get("action"@) == t.get("action"@));
        assert(video_slot_updated(u, path, fps, gap_x, gap_y) =~= u);
    }
}

/// A second press with the same video leaves the file's contents as the first
/// left them: updating an updated document changes nothing.
pub proof fn lemma_video_update_settles(doc: Map<Seq<char>, TomlV>, path: Seq<char>, fps: TomlV, gap_x: u32, gap_y: u32)
    ensures
        spec_video_updated(spec_video_updated(doc, path, fps, gap_x, gap_y), path, fps, gap_x, gap_y)
            == spec_video_updated(doc, path, fps, gap_x, gap_y),
{
    reveal_strlit("slot");
    reveal_strlit("video_path");
    assert("slot"@.len() == 4 && "video_path"@.len() == 10);
    assert("slot"@ != "video_path"@);
    let f = |t: Map<Seq<char>, TomlV>| video_slot_updated(t, path, fps, gap_x, gap_y);
    let once = spec_video_updated(doc, path, fps, gap_x, gap_y);
    let d1 = if doc.contains_key("video_path"@) {
        doc.insert("video_path"@, TomlV::Str(path))
    } else {
        doc
    };
    assert(once.contains_key("video_path"@) == doc.contains_key("video_path"@));
    let e1 = if once.contains_key("video_path"@) {
        once.insert("video_path"@, TomlV::Str(path))
    } else {
        once
    };
    assert(e1 =~= once);
    match d1.get("slot"@) {
        Some(TomlV::ArrayOfTables(ts)) => {
            let us = ts.map_values(f);
            assert(once.get("slot"@) == Some(TomlV::ArrayOfTables(us)));
            assert forall|k: int| 0 <= k < us.len() implies #[trigger] us.map_values(f)[k] == us[k] by {
                lemma_slot_update_twice(ts[k], path, fps, gap_x, gap_y);
            }
            assert(us.map_values(f) =~= us);
            assert(once.insert("slot"@, TomlV::ArrayOfTables(us.map_values(f))) =~= once);
        },
        _ => {
            assert(once == d1);
        },
    }
}

/// The first `i` tables updated, the rest as they were.
spec fn slots_updated_up_to(
    ts: Seq<Map<Seq<char>, TomlV>>,
    i: int,
    path: Seq<char>,
    fps: TomlV,
    gap_x: u32,
    gap_y: u32,
) -> Seq<Map<Seq<char>, TomlV>> {
    Seq::new(ts.len(), |k: int| if k < i { video_slot_updated(ts[k], path, fps, gap_x, gap_y) } else { ts[k] })
}

/// The profile text after a press on a video button with `path`, frame rate
/// `fps` and gaps `gap_x`, `gap_y`: `None` where the text is not TOML; otherwise
/// a text whose document is the old one updated as `spec_video_updated` says,
/// written by `toml_edit` so that the rest of the file keeps its layout.
pub fn update_video_settings(text: &str, path: &str, fps: &Value, gap_x: u32, gap_y: u32) -> (r: Option<String>)
    ensures
        (r is None) == (toml_parse(text@) is None),
        r is Some ==> toml_parse(r->0@) == Some(
            spec_video_updated(toml_parse(text@)->0, path@, toml_value(*fps), gap_x, gap_y),
        ),
{
    let mut doc = match parse_document(text) {
        Some(d) => d,
        None => return None,
    };
    let ghost before = doc_contents(doc);
    let ghost fv = toml_value(*fps);
    let pv = str_value(path);
    if contains_key(&doc, "video_path") {
        set_key(&mut doc, "video_path", &pv);
    }
    let ghost d1 = doc_contents(doc);
    assert(d1 == (if before.contains_key("video_path"@) {
        before.insert("video_path"@, TomlV::Str(path@))
    } else {
        before
    }));
    let gx = int_value(gap_x as i64);
    let gy = int_value(gap_y as i64);
    let n = tables_len(&doc, "slot");
    let ghost ts = tables_at(d1, "slot"@);
    let mut i: usize = 0;
    assert(slots_updated_up_to(ts, 0, path@, fv, gap_x, gap_y) =~= ts);
    if n > 0 {
        assert(d1.insert("slot"@, TomlV::ArrayOfTables(ts)) =~= d1);
    }
    while i < n
        invariant
            n == ts.len(),
            i <= n,
            n > 0 ==> d1.get("slot"@) == Some(TomlV::ArrayOfTables(ts)),
            n == 0 ==> doc_contents(doc) == d1,
            toml_value(pv) == TomlV::Str(path@),
            toml_value(gx) == TomlV::Int(gap_x as i64),
            toml_value(gy) == TomlV::Int(gap_y as i64),
            toml_value(*fps) == fv,
            n > 0 ==> doc_contents(doc) == d1.insert(
                "slot"@,
                TomlV::ArrayOfTables(slots_updated_up_to(ts, i as int, path@, fv, gap_x, gap_y)),
            ),
        decreases n - i,
    {
        let ghost cur = slots_updated_up_to(ts, i as int, path@, fv, gap_x, gap_y);
        assert(tables_at(doc_contents(doc), "slot"@) == cur);
        assert(cur[i as int] == ts[i as int]);
        let action = get_table_str(&doc, "slot", i, "action");
        let is_video = match action {
            Some(a) => str_is(a.as_str(), "chs.deck.video"),
            None => false,
        };
        assert(is_video == (ts[i as int].get("action"@) == Some(TomlV::Str("chs.deck.video"@))));
        if is_video {
            let ghost t0 = ts[i as int];
            let ghost t1 = t0.insert("video_path"@, TomlV::Str(path@));
            let ghost t2 = t1.insert("video_fps"@, fv);
            let ghost t3 = t2.insert("video_gap_x"@, TomlV::Int(gap_x as i64));
            let ghost t4 = t3.insert("video_gap_y"@, TomlV::Int(gap_y as i64));
            set_table_value(&mut doc, "slot", i, "video_path", &pv);
            assert(doc_contents(doc) =~= d1.insert("slot"@, TomlV::ArrayOfTables(cur.update(i as int, t1))));
            set_table_value(&mut doc, "slot", i, "video_fps", fps);
            assert(cur.update(i as int, t1).update(i as int, t2) =~= cur.update(i as int, t2));
            assert(doc_contents(doc) =~= d1.insert("slot"@, TomlV::ArrayOfTables(cur.update(i as int, t2))));
            set_table_value(&mut doc, "slot", i, "video_gap_x", &gx);
            assert(cur.update(i as int, t2).update(i as int, t3) =~= cur.update(i as int, t3));
            assert(doc_contents(doc) =~= d1.insert("slot"@, TomlV::ArrayOfTables(cur.update(i as int, t3))));
            set_table_value(&mut doc, "slot", i, "video_gap_y", &gy);
            assert(cur.update(i as int, t3).update(i as int, t4) =~= cur.update(i as int, t4));
            assert(doc_contents(doc) =~= d1.insert("slot"@, TomlV::ArrayOfTables(cur.update(i as int, t4))));
        }
        assert(doc_contents(doc) =~= d1.insert(
            "slot"@,
            TomlV::ArrayOfTables(slots_updated_up_to(ts, i + 1, path@, fv, gap_x, gap_y)),
        )) by {
            let nxt = slots_updated_up_to(ts, i + 1, path@, fv, gap_x, gap_y);
            if is_video {
                assert(cur.update(
                    i as int,
                    ts[i as int].insert("video_path"@, TomlV::Str(path@)).insert("video_fps"@, fv).insert(
                        "video_gap_x"@,
                        TomlV::Int(gap_x as i64),
                    ).insert("video_gap_y"@, TomlV::Int(gap_y as i64)),
                ) =~= nxt);
            } else {
                assert(cur =~= nxt);
            }
        }
        i += 1;
    }
    assert(doc_contents(doc) == spec_video_updated(before, path@, fv, gap_x, gap_y)) by {
        if n > 0 {
            assert(slots_updated_up_to(ts, n as int, path@, fv, gap_x, gap_y) =~= ts.map_values(
                |t: Map<Seq<char>, TomlV>| video_slot_updated(t, path@, fv, gap_x, gap_y),
            ));
        } else {
            match d1.get("slot"@) {
                Some(TomlV::ArrayOfTables(t2)) => {
                    assert(t2 =~= Seq::<Map<Seq<char>, TomlV>>::empty());
                    assert(d1.insert("slot"@, TomlV::ArrayOfTables(t2)) =~= d1);
                    assert(t2.map_values(|t: Map<Seq<char>, TomlV>| video_slot_updated(t, path@, fv, gap_x, gap_y)) =~= t2);
                },
                _ => {},
            }
            assert(slots_updated_up_to(ts, 0, path@, fv, gap_x, gap_y) =~= ts);
        }
    }
    Some(document_text(&doc))
}

} // verus!
