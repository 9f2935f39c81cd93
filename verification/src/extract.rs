//! Format detection and raw-record extraction.
//!
//! A provider response is one of three shapes: a combined object whose
//! `categories` member is itself an object keyed by content kind (the
//! "panel" dialect), a bare array (the "player" dialect), or M3U playlist
//! text (detected from the endpoint, never parsed as JSON). The extractors
//! are best-effort: entries without the required members are skipped, and
//! nothing here fails a whole batch.

use vstd::prelude::*;

use crate::assoc::{
    assoc_lookup, assoc_set, lemma_assoc_lookup_absent, lemma_assoc_lookup_found,
};
use crate::json::{
    aview, fview, jget, jview, lemma_aview_index, lemma_fview_index, parse_json, set_field,
    spec_parse_json, JVal, JsonValue,
};
use crate::models::{CatInfo, CategoryEntry, CategoryMap};

verus! {

/// The classified shape of one response body.
#[derive(PartialEq, Eq, Structural, Clone, Copy, Debug)]
pub enum PayloadShape {
    /// M3U playlist text, recognized from the endpoint that produced it.
    PlaylistText,
    /// A JSON object whose `categories` member is an object keyed by kind.
    NestedCategories,
    /// A bare JSON array.
    FlatArray,
    /// Valid JSON of any other shape; extraction falls back to key scanning.
    UnrecognizedObject,
}

/// Whether `v` is an object whose `categories` member is itself an object.
pub open spec fn has_nested_categories(v: JVal) -> bool {
    match jget(v, "categories"@) {
        Some(c) => c is Obj,
        None => false,
    }
}

/// The shape assigned to a parsed JSON payload.
pub open spec fn spec_shape(v: JVal) -> PayloadShape {
    if has_nested_categories(v) {
        PayloadShape::NestedCategories
    } else if v is Arr {
        PayloadShape::FlatArray
    } else {
        PayloadShape::UnrecognizedObject
    }
}

/// Classifies a response body. An M3U endpoint's body is playlist text and
/// is never parsed as JSON; any other body must parse as JSON, and `None`
/// (a parse failure) lets the caller try the next candidate endpoint.
pub fn detect_format(body: &[char], from_m3u_endpoint: bool) -> (r: Option<
    (PayloadShape, Option<JsonValue>)
>)
    ensures
        from_m3u_endpoint ==> (r matches Some(p) && p.0 == PayloadShape::PlaylistText
            && p.1 is None),
        !from_m3u_endpoint ==> match r {
            Some(p) => (spec_parse_json(body@) matches Some(v) && p.1 matches Some(vv) && vv@ == v
                && p.0 == spec_shape(v)),
            None => spec_parse_json(body@) is None,
        },
{
    if from_m3u_endpoint {
        return Some((PayloadShape::PlaylistText, None));
    }
    match parse_json(body) {
        None => None,
        Some(v) => {
            let cats_key = String::from_str("categories");
            proof {
                reveal_strlit("categories");
            }
            let nested = match v.get(&cats_key) {
                Some(c) => c.is_object(),
                None => false,
            };
            let shape = if nested {
                PayloadShape::NestedCategories
            } else if v.is_array() {
                PayloadShape::FlatArray
            } else {
                PayloadShape::UnrecognizedObject
            };
            Some((shape, Some(v)))
        },
    }
}

/// The string content of field `key`, when present with a string value.
pub open spec fn jfield_str(v: JVal, key: Seq<char>) -> Option<Seq<char>> {
    match jget(v, key) {
        Some(JVal::Str(s)) => Some(s),
        _ => None,
    }
}

/// The integer content of field `key`, when present with an integer value.
pub open spec fn jfield_int(v: JVal, key: Seq<char>) -> Option<int> {
    match jget(v, key) {
        Some(JVal::Int(n)) => Some(n),
        _ => None,
    }
}

/// One category-extraction step: an entry with string `category_id` and
/// `category_name` members binds its id (replacing an earlier binding);
/// anything else is skipped. The parent id is read only in the nested
/// dialect (`with_parent`).
pub open spec fn cat_step(
    m: Seq<(Seq<char>, CatInfo)>,
    entry: JVal,
    kind: Seq<char>,
    with_parent: bool,
) -> Seq<(Seq<char>, CatInfo)> {
    match (jfield_str(entry, "category_id"@), jfield_str(entry, "category_name"@)) {
        (Some(id), Some(nm)) => assoc_set(
            m,
            id,
            CatInfo {
                name: nm,
                kind: kind,
                parent: if with_parent {
                    jfield_int(entry, "parent_id"@)
                } else {
                    None
                },
            },
        ),
        _ => m,
    }
}

/// Folds one kind's category array into the mapping, left to right: the
/// last processed binding of an id wins.
pub open spec fn cat_fold(
    m: Seq<(Seq<char>, CatInfo)>,
    arr: Seq<JVal>,
    kind: Seq<char>,
    with_parent: bool,
) -> Seq<(Seq<char>, CatInfo)>
    decreases arr.len(),
{
    if arr.len() == 0 {
        m
    } else {
        cat_fold(cat_step(m, arr[0], kind, with_parent), arr.drop_first(), kind, with_parent)
    }
}

/// The category array under `categories.<kind_key>`, or empty.
pub open spec fn cat_bucket(v: JVal, kind_key: Seq<char>) -> Seq<JVal> {
    match jget(v, "categories"@) {
        Some(c) => match jget(c, kind_key) {
            Some(JVal::Arr(a)) => a,
            _ => Seq::empty(),
        },
        None => Seq::empty(),
    }
}

/// The category mapping extracted from a payload: the nested dialect folds
/// the `live`, `movie` and `series` buckets in that order (so an id that
/// appears in several buckets keeps the kind processed last); a bare array
/// is read as `live` categories without parents; anything else yields an
/// empty mapping.
pub open spec fn spec_extract_categories(v: JVal) -> Seq<(Seq<char>, CatInfo)> {
    if has_nested_categories(v) {
        cat_fold(
            cat_fold(
                cat_fold(Seq::empty(), cat_bucket(v, "live"@), "live"@, true),
                cat_bucket(v, "movie"@),
                "movie"@,
                true,
            ),
            cat_bucket(v, "series"@),
            "series"@,
            true,
        )
    } else if v is Arr {
        cat_fold(Seq::empty(), v->Arr_0, "live"@, false)
    } else {
        Seq::empty()
    }
}

/// Folds one category array into the mapping.
#[verifier::loop_isolation(false)]
pub(crate) fn fold_cat_array(m: &mut CategoryMap, items: &Vec<JsonValue>, kind: &String, with_parent: bool)
    ensures
        final(m)@ =~= cat_fold(old(m)@, aview(items@), kind@, with_parent),
{
    proof {
        reveal_strlit("category_id");
        reveal_strlit("category_name");
        reveal_strlit("parent_id");
        lemma_aview_index(items@);
    }
    let id_key = String::from_str("category_id");
    let name_key = String::from_str("category_name");
    let parent_key = String::from_str("parent_id");
    let ghost whole = cat_fold(m@, aview(items@), kind@, with_parent);
    assert(aview(items@).skip(0) =~= aview(items@));
    let mut i: usize = 0;
    while i < items.len()
        invariant
            i <= items.len(),
            whole == cat_fold(m@, aview(items@).skip(i as int), kind@, with_parent),
        decreases items.len() - i,
    {
        let entry = &items[i];
        assert(aview(items@).skip(i as int)[0] == entry@);
        assert(aview(items@).skip(i as int).drop_first() =~= aview(items@).skip(i + 1));
        let id = match entry.get(&id_key) {
            Some(x) => match x.as_str() {
                Some(s) => Some(s.clone()),
                None => None,
            },
            None => None,
        };
        let nm = match entry.get(&name_key) {
            Some(x) => match x.as_str() {
                Some(s) => Some(s.clone()),
                None => None,
            },
            None => None,
        };
        match (id, nm) {
            (Some(idv), Some(nmv)) => {
                let parent = if with_parent {
                    match entry.get(&parent_key) {
                        Some(x) => x.as_i64(),
                        None => None,
                    }
                } else {
                    None
                };
                let e = CategoryEntry {
                    category_id: idv,
                    name: nmv,
                    content_type: kind.clone(),
                    parent_id: parent,
                };
                m.insert(e);
            },
            _ => {},
        }
        i = i + 1;
    }
    assert(aview(items@).skip(items@.len() as int) =~= Seq::<JVal>::empty());
}

/// Extracts the category mapping from a classified payload.
pub fn extract_categories(v: &JsonValue) -> (r: CategoryMap)
    ensures
        r@ =~= spec_extract_categories(v@),
{
    proof {
        reveal_strlit("categories");
        reveal_strlit("live");
        reveal_strlit("movie");
        reveal_strlit("series");
    }
    let mut m = CategoryMap::new();
    let cats_key = String::from_str("categories");
    match v.get(&cats_key) {
        Some(c) => {
            if c.is_object() {
                let live_key = String::from_str("live");
                let movie_key = String::from_str("movie");
                let series_key = String::from_str("series");
                let kind_live = String::from_str("live");
                let kind_movie = String::from_str("movie");
                let kind_series = String::from_str("series");
                match c.get(&live_key) {
                    Some(JsonValue::Arr(items)) => {
                        fold_cat_array(&mut m, items, &kind_live, true);
                    },
                    _ => {
                        assert(cat_bucket(v@, "live"@) =~= Seq::<JVal>::empty());
                    },
                }
                match c.get(&movie_key) {
                    Some(JsonValue::Arr(items)) => {
                        fold_cat_array(&mut m, items, &kind_movie, true);
                    },
                    _ => {
                        assert(cat_bucket(v@, "movie"@) =~= Seq::<JVal>::empty());
                    },
                }
                match c.get(&series_key) {
                    Some(JsonValue::Arr(items)) => {
                        fold_cat_array(&mut m, items, &kind_series, true);
                    },
                    _ => {
                        assert(cat_bucket(v@, "series"@) =~= Seq::<JVal>::empty());
                    },
                }
                return m;
            }
        },
        None => {},
    }
    match v {
        JsonValue::Arr(items) => {
            let kind_live = String::from_str("live");
            fold_cat_array(&mut m, items, &kind_live, false);
        },
        _ => {},
    }
    m
}


/// A field vector with `stream_type` bound to `kind` when it was absent.
pub open spec fn inject_kind(ff: Seq<(Seq<char>, JVal)>, kind: Seq<char>) -> Seq<
    (Seq<char>, JVal),
> {
    if assoc_lookup(ff, "stream_type"@) is None {
        assoc_set(ff, "stream_type"@, JVal::Str(kind))
    } else {
        ff
    }
}

/// The raw records of a panel-dialect `available_channels` map: each
/// object-valued member becomes a record with the map key injected as its
/// `stream_id` and the endpoint kind injected when the record carries no
/// `stream_type` of its own; members of any other shape are dropped.
pub open spec fn panel_fold(fields: Seq<(Seq<char>, JVal)>, kind: Seq<char>) -> Seq<JVal>
    decreases fields.len(),
{
    if fields.len() == 0 {
        Seq::empty()
    } else {
        let rest = panel_fold(fields.drop_first(), kind);
        match fields[0].1 {
            JVal::Obj(ff) => seq![
                JVal::Obj(inject_kind(assoc_set(ff, "stream_id"@, JVal::Str(fields[0].0)), kind)),
            ] + rest,
            _ => rest,
        }
    }
}

/// The raw records of a player-dialect array: each object element is kept
/// (with the kind injected when absent), any other element is dropped.
pub open spec fn flat_fold(items: Seq<JVal>, kind: Seq<char>) -> Seq<JVal>
    decreases items.len(),
{
    if items.len() == 0 {
        Seq::empty()
    } else {
        let rest = flat_fold(items.drop_first(), kind);
        match items[0] {
            JVal::Obj(ff) => seq![JVal::Obj(inject_kind(ff, kind))] + rest,
            _ => rest,
        }
    }
}

/// The first of the wrapper members `channels`, `data`, `live_streams`
/// holding an array: the best-effort fallback for an object that carries
/// neither `available_channels` nor a recognizable shape.
pub open spec fn wrapper_items(v: JVal) -> Option<Seq<JVal>> {
    match jget(v, "channels"@) {
        Some(JVal::Arr(a)) => Some(a),
        _ => match jget(v, "data"@) {
            Some(JVal::Arr(a)) => Some(a),
            _ => match jget(v, "live_streams"@) {
                Some(JVal::Arr(a)) => Some(a),
                _ => None,
            },
        },
    }
}

/// The uniform raw-record sequence extracted from a classified payload,
/// source order preserved.
pub open spec fn spec_extract_channels(v: JVal, kind: Seq<char>) -> Seq<JVal> {
    match jget(v, "available_channels"@) {
        Some(JVal::Obj(fields)) => panel_fold(fields, kind),
        _ => if v is Arr {
            flat_fold(v->Arr_0, kind)
        } else {
            match wrapper_items(v) {
                Some(items) => flat_fold(items, kind),
                None => Seq::empty(),
            }
        },
    }
}

/// Finds the first binding of `key` in an object's field vector.
#[verifier::loop_isolation(false)]
fn find_key(fields: &Vec<(String, JsonValue)>, key: &String) -> (r: Option<usize>)
    ensures
        match r {
            Some(idx) => idx < fields@.len() && fields@[idx as int].0@ == key@ && assoc_lookup(
                fview(fields@),
                key@,
            ) == Some(jview(fields@[idx as int].1)),
            None => assoc_lookup(fview(fields@), key@) is None,
        },
{
    let ghost fseq = fview(fields@);
    proof {
        lemma_fview_index(fields@);
    }
    let mut i: usize = 0;
    while i < fields.len()
        invariant
            i <= fields.len(),
            forall|j: int| 0 <= j < i ==> fseq[j].0 != key@,
        decreases fields.len() - i,
    {
        assert(fseq[i as int] == (fields@[i as int].0@, jview(fields@[i as int].1)));
        if fields[i].0.eq(key) {
            proof {
                lemma_assoc_lookup_found(fseq, key@, i as int);
            }
            return Some(i);
        }
        i = i + 1;
    }
    proof {
        lemma_assoc_lookup_absent(fseq, key@);
    }
    None
}

/// Turns one panel map into raw records, consuming it.
#[verifier::loop_isolation(false)]
fn panel_records(afields: Vec<(String, JsonValue)>, kind: &String) -> (out: Vec<JsonValue>)
    ensures
        aview(out@) =~= panel_fold(fview(afields@), kind@),
{
    proof {
        reveal_strlit("stream_id");
        reveal_strlit("stream_type");
    }
    let st_key = String::from_str("stream_type");
    let ghost whole = panel_fold(fview(afields@), kind@);
    let mut rest = afields;
    let mut out: Vec<JsonValue> = Vec::new();
    while rest.len() > 0
        invariant
            whole == aview(out@) + panel_fold(fview(rest@), kind@),
        decreases rest.len(),
    {
        let ghost rest_seq = fview(rest@);
        proof {
            lemma_fview_index(rest@);
        }
        assert(rest_seq[0] == (rest@[0].0@, jview(rest@[0].1)));
        let (k, val) = rest.remove(0);
        proof {
            lemma_fview_index(rest@);
        }
        assert(fview(rest@) =~= rest_seq.drop_first());
        match val {
            JsonValue::Obj(mut ff) => {
                let ghost ff_before = fview(ff@);
                set_field(&mut ff, String::from_str("stream_id"), JsonValue::Str(k));
                let ghost ff_with_id = fview(ff@);
                assert(ff_with_id =~= assoc_set(ff_before, "stream_id"@, JVal::Str(rest_seq[0].0)));
                let has_kind = match find_key(&ff, &st_key) {
                    Some(_) => true,
                    None => false,
                };
                if !has_kind {
                    set_field(&mut ff, st_key.clone(), JsonValue::Str(kind.clone()));
                }
                assert(fview(ff@) =~= inject_kind(ff_with_id, kind@));
                let ghost out_before = aview(out@);
                let ghost out_seq = out@;
                let ghost ff_final = fview(ff@);
                out.push(JsonValue::Obj(ff));
                assert(out@.drop_last() =~= out_seq);
                assert(jview(out@.last()) == JVal::Obj(ff_final));
                assert(aview(out@) =~= out_before.push(JVal::Obj(inject_kind(ff_with_id, kind@))));
                assert(out_before.push(JVal::Obj(inject_kind(ff_with_id, kind@))) + panel_fold(
                    fview(rest@),
                    kind@,
                ) =~= out_before + (seq![JVal::Obj(inject_kind(ff_with_id, kind@))] + panel_fold(
                    fview(rest@),
                    kind@,
                )));
            },
            _ => {},
        }
    }
    assert(fview(rest@) =~= Seq::<(Seq<char>, JVal)>::empty());
    assert(whole =~= aview(out@));
    out
}

/// Turns one record array into raw records, consuming it.
#[verifier::loop_isolation(false)]
fn flat_records(items: Vec<JsonValue>, kind: &String) -> (out: Vec<JsonValue>)
    ensures
        aview(out@) =~= flat_fold(aview(items@), kind@),
{
    proof {
        reveal_strlit("stream_type");
    }
    let st_key = String::from_str("stream_type");
    let ghost whole = flat_fold(aview(items@), kind@);
    let mut rest = items;
    let mut out: Vec<JsonValue> = Vec::new();
    while rest.len() > 0
        invariant
            whole == aview(out@) + flat_fold(aview(rest@), kind@),
        decreases rest.len(),
    {
        let ghost rest_seq = aview(rest@);
        proof {
            lemma_aview_index(rest@);
        }
        assert(rest_seq[0] == jview(rest@[0]));
        let val = rest.remove(0);
        proof {
            lemma_aview_index(rest@);
        }
        assert(aview(rest@) =~= rest_seq.drop_first());
        match val {
            JsonValue::Obj(mut ff) => {
                let ghost ff_before = fview(ff@);
                let has_kind = match find_key(&ff, &st_key) {
                    Some(_) => true,
                    None => false,
                };
                if !has_kind {
                    set_field(&mut ff, st_key.clone(), JsonValue::Str(kind.clone()));
                }
                assert(fview(ff@) =~= inject_kind(ff_before, kind@));
                let ghost out_before = aview(out@);
                let ghost out_seq = out@;
                let ghost ff_final = fview(ff@);
                out.push(JsonValue::Obj(ff));
                assert(out@.drop_last() =~= out_seq);
                assert(jview(out@.last()) == JVal::Obj(ff_final));
                assert(aview(out@) =~= out_before.push(JVal::Obj(inject_kind(ff_before, kind@))));
                assert(out_before.push(JVal::Obj(inject_kind(ff_before, kind@))) + flat_fold(
                    aview(rest@),
                    kind@,
                ) =~= out_before + (seq![JVal::Obj(inject_kind(ff_before, kind@))] + flat_fold(
                    aview(rest@),
                    kind@,
                )));
            },
            _ => {},
        }
    }
    assert(aview(rest@) =~= Seq::<JVal>::empty());
    assert(whole =~= aview(out@));
    out
}

/// Extracts the uniform raw-record sequence from a classified payload,
/// consuming it. `kind` is the content kind the originating endpoint stands
/// for; it is injected into records that do not describe their own.
pub fn extract_channels(v: JsonValue, kind: &String) -> (out: Vec<JsonValue>)
    ensures
        aview(out@) =~= spec_extract_channels(jview(v), kind@),
{
    proof {
        reveal_strlit("available_channels");
        reveal_strlit("channels");
        reveal_strlit("data");
        reveal_strlit("live_streams");
    }
    let av_key = String::from_str("available_channels");
    match v {
        JsonValue::Obj(mut fields) => {
            match find_key(&fields, &av_key) {
                Some(idx) => {
                    if fields[idx].1.is_object() {
                        let (_, av) = fields.remove(idx);
                        match av {
                            JsonValue::Obj(afields) => {
                                return panel_records(afields, kind);
                            },
                            _ => {
                                return Vec::new();
                            },
                        }
                    }
                },
                None => {},
            }
            // no panel map: best-effort scan of known wrapper members
            let wrapper_keys = [
                String::from_str("channels"),
                String::from_str("data"),
                String::from_str("live_streams"),
            ];
            match find_key(&fields, &wrapper_keys[0]) {
                Some(idx) => {
                    if fields[idx].1.is_array() {
                        let (_, w) = fields.remove(idx);
                        match w {
                            JsonValue::Arr(items) => {
                                return flat_records(items, kind);
                            },
                            _ => {
                                return Vec::new();
                            },
                        }
                    }
                },
                None => {},
            }
            match find_key(&fields, &wrapper_keys[1]) {
                Some(idx) => {
                    if fields[idx].1.is_array() {
                        let (_, w) = fields.remove(idx);
                        match w {
                            JsonValue::Arr(items) => {
                                return flat_records(items, kind);
                            },
                            _ => {
                                return Vec::new();
                            },
                        }
                    }
                },
                None => {},
            }
            match find_key(&fields, &wrapper_keys[2]) {
                Some(idx) => {
                    if fields[idx].1.is_array() {
                        let (_, w) = fields.remove(idx);
                        match w {
                            JsonValue::Arr(items) => {
                                return flat_records(items, kind);
                            },
                            _ => {
                                return Vec::new();
                            },
                        }
                    }
                },
                None => {},
            }
            Vec::new()
        },
        JsonValue::Arr(items) => flat_records(items, kind),
        _ => Vec::new(),
    }
}

} // verus!
