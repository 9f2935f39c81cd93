//! The record normalizer: one raw provider record to one canonical channel.
//!
//! The resolution order of every field is fixed and part of the contract:
//! the stream id is the first of `stream_id` (string, then integer) and
//! `num` (string, then integer); the display name the first of `name` and
//! `title`; the category id the first of `category_id` (string, then
//! integer) and `group`; the stream kind the record's own `stream_type`,
//! else the endpoint's kind, else `live`. A record without a stream id or a
//! name is dropped with a `MissingField` error — per record, never fatal to
//! a batch. A playable URL from the record (`stream_url`, then `stream`) is
//! kept verbatim; otherwise one is synthesized from the server, the
//! credentials, the kind path and the stream id.

use vstd::prelude::*;

use crate::assoc::assoc_lookup;
use crate::extract::{jfield_int, jfield_str};
use crate::json::{aview, jget, jview, JVal, JsonValue};
use crate::models::{
    view_opt_int, view_opt_str, view_opt_str_list, CatInfo, CategoryMap, Channel, ChannelV,
    NormalizeError,
};
use crate::text::{chars_of, dec_int, i64_to_string, string_of};

verus! {

/// The string read of field `key`, coercing an integer to its decimal text.
pub open spec fn coerce_str(v: JVal, key: Seq<char>) -> Option<Seq<char>> {
    match jget(v, key) {
        Some(JVal::Str(s)) => Some(s),
        Some(JVal::Int(n)) => Some(dec_int(n)),
        _ => None,
    }
}

/// The resolved stream id: `stream_id` first, then `num`.
pub open spec fn spec_stream_id(raw: JVal) -> Option<Seq<char>> {
    match coerce_str(raw, "stream_id"@) {
        Some(s) => Some(s),
        None => coerce_str(raw, "num"@),
    }
}

/// The resolved display name: `name` first, then `title`.
pub open spec fn spec_display_name(raw: JVal) -> Option<Seq<char>> {
    match jfield_str(raw, "name"@) {
        Some(s) => Some(s),
        None => jfield_str(raw, "title"@),
    }
}

/// The resolved category id: `category_id` first, then `group`.
pub open spec fn spec_category_id(raw: JVal) -> Option<Seq<char>> {
    match coerce_str(raw, "category_id"@) {
        Some(s) => Some(s),
        None => jfield_str(raw, "group"@),
    }
}

/// The resolved stream kind: the record's own `stream_type`, else the
/// endpoint kind, else `live`.
pub open spec fn spec_kind(raw: JVal, ctx: Option<Seq<char>>) -> Seq<char> {
    match jfield_str(raw, "stream_type"@) {
        Some(s) => s,
        None => match ctx {
            Some(k) => k,
            None => "live"@,
        },
    }
}

/// The URL path segment for a content kind: `vod` and `movie` share the
/// `movie` path, `series` keeps its own, everything else uses `live`.
pub open spec fn kind_path(kind: Seq<char>) -> Seq<char> {
    if kind == "vod"@ || kind == "movie"@ {
        "movie"@
    } else if kind == "series"@ {
        "series"@
    } else {
        "live"@
    }
}

/// Whether `suffix` ends `s`.
pub open spec fn ends_with(s: Seq<char>, suffix: Seq<char>) -> bool {
    suffix.len() <= s.len() && s.subrange(s.len() - suffix.len(), s.len() as int) == suffix
}

/// The server URL with a known API suffix (`player_api.php` or
/// `panel_api.php`) removed, and then a trailing slash removed.
pub open spec fn strip_api_suffix(s: Seq<char>) -> Seq<char> {
    let s1 = if ends_with(s, "player_api.php"@) {
        s.subrange(0, s.len() - "player_api.php"@.len())
    } else if ends_with(s, "panel_api.php"@) {
        s.subrange(0, s.len() - "panel_api.php"@.len())
    } else {
        s
    };
    if s1.len() > 0 && s1.last() == '/' {
        s1.drop_last()
    } else {
        s1
    }
}

/// The synthesized playable URL.
pub open spec fn synth_url(
    server: Seq<char>,
    user: Seq<char>,
    pass: Seq<char>,
    sid: Seq<char>,
    kind: Seq<char>,
) -> Seq<char> {
    strip_api_suffix(server) + "/"@ + kind_path(kind) + "/"@ + user + "/"@ + pass + "/"@ + sid
}

/// The resolved playable URL: the record's own `stream_url`, then `stream`,
/// else the synthesized one.
pub open spec fn spec_stream_url(
    raw: JVal,
    server: Seq<char>,
    user: Seq<char>,
    pass: Seq<char>,
    sid: Seq<char>,
    kind: Seq<char>,
) -> Seq<char> {
    match jfield_str(raw, "stream_url"@) {
        Some(u) => u,
        None => match jfield_str(raw, "stream"@) {
            Some(u) => u,
            None => synth_url(server, user, pass, sid, kind),
        },
    }
}

/// The string elements of a JSON array, in order; other elements drop out.
pub open spec fn str_items(items: Seq<JVal>) -> Seq<Seq<char>>
    decreases items.len(),
{
    if items.len() == 0 {
        Seq::empty()
    } else {
        let rest = str_items(items.drop_first());
        match items[0] {
            JVal::Str(s) => seq![s] + rest,
            _ => rest,
        }
    }
}

/// The backdrop image list: an array's string elements, an empty result
/// normalized to absent.
pub open spec fn spec_backdrop(raw: JVal) -> Option<Seq<Seq<char>>> {
    match jget(raw, "backdrop_path"@) {
        Some(JVal::Arr(a)) => if str_items(a).len() == 0 {
            None
        } else {
            Some(str_items(a))
        },
        _ => None,
    }
}

/// The category display name denormalized into the channel: looked up by
/// the resolved category id, `Uncategorized` on a miss or without an id.
pub open spec fn spec_category_name(
    cid: Option<Seq<char>>,
    cats: Seq<(Seq<char>, CatInfo)>,
) -> Seq<char> {
    match cid {
        Some(c) => match assoc_lookup(cats, c) {
            Some(info) => info.name,
            None => "Uncategorized"@,
        },
        None => "Uncategorized"@,
    }
}

/// The canonical channel a raw record normalizes to, or the name of the
/// required field it lacks.
pub open spec fn spec_normalize(
    raw: JVal,
    cats: Seq<(Seq<char>, CatInfo)>,
    pid: int,
    server: Seq<char>,
    user: Seq<char>,
    pass: Seq<char>,
    ctx: Option<Seq<char>>,
    now: Seq<char>,
) -> Result<ChannelV, Seq<char>> {
    match spec_stream_id(raw) {
        None => Err("stream_id"@),
        Some(sid) => match spec_display_name(raw) {
            None => Err("name"@),
            Some(nm) => {
                let cid = spec_category_id(raw);
                let kind = spec_kind(raw, ctx);
                Ok(
                    ChannelV {
                        id: None,
                        playlist_id: pid,
                        category_id: cid,
                        stream_id: sid,
                        name: nm,
                        stream_type: kind,
                        kind_name: None,
                        stream_url: spec_stream_url(raw, server, user, pass, sid, kind),
                        stream_icon: jfield_str(raw, "stream_icon"@),
                        epg_channel_id: jfield_str(raw, "epg_channel_id"@),
                        added: jfield_str(raw, "added"@),
                        series_no: jfield_str(raw, "series_no"@),
                        live: jfield_str(raw, "live"@),
                        container_extension: jfield_str(raw, "container_extension"@),
                        custom_sid: jfield_str(raw, "custom_sid"@),
                        tv_archive: jfield_int(raw, "tv_archive"@),
                        direct_source: jfield_str(raw, "direct_source"@),
                        tv_archive_duration: jfield_int(raw, "tv_archive_duration"@),
                        num: coerce_str(raw, "num"@),
                        plot: jfield_str(raw, "plot"@),
                        cast: jfield_str(raw, "cast"@),
                        director: jfield_str(raw, "director"@),
                        genre: jfield_str(raw, "genre"@),
                        release_date: jfield_str(raw, "release_date"@),
                        rating: jfield_str(raw, "rating"@),
                        backdrop_path: spec_backdrop(raw),
                        youtube_trailer: jfield_str(raw, "youtube_trailer"@),
                        episode_run_time: jfield_str(raw, "episode_run_time"@),
                        cover: jfield_str(raw, "cover"@),
                        created_at: Some(now),
                        category_name: Some(spec_category_name(cid, cats)),
                        content_type: None,
                        authenticated_stream_url: None,
                        is_selected: None,
                    },
                )
            },
        },
    }
}

/// Reads a string field, cloning it out.
fn get_str(raw: &JsonValue, key: &String) -> (r: Option<String>)
    ensures
        view_opt_str(r) == jfield_str(raw@, key@),
{
    match raw.get(key) {
        Some(x) => match x.as_str() {
            Some(s) => Some(s.clone()),
            None => None,
        },
        None => None,
    }
}

/// Reads a string-or-integer field as text.
fn get_coerced_str(raw: &JsonValue, key: &String) -> (r: Option<String>)
    ensures
        view_opt_str(r) == coerce_str(raw@, key@),
{
    match raw.get(key) {
        Some(x) => match x {
            JsonValue::Str(s) => Some(s.clone()),
            JsonValue::Int(n) => Some(i64_to_string(*n)),
            _ => None,
        },
        None => None,
    }
}

/// Reads an integer field.
fn get_int(raw: &JsonValue, key: &String) -> (r: Option<i64>)
    ensures
        view_opt_int(r) == jfield_int(raw@, key@),
{
    match raw.get(key) {
        Some(x) => x.as_i64(),
        None => None,
    }
}

/// Reads the backdrop image list.
#[verifier::loop_isolation(false)]
fn get_backdrop(raw: &JsonValue) -> (r: Option<Vec<String>>)
    ensures
        view_opt_str_list(r) == spec_backdrop(raw@),
{
    proof {
        reveal_strlit("backdrop_path");
    }
    let key = String::from_str("backdrop_path");
    match raw.get(&key) {
        Some(JsonValue::Arr(items)) => {
            let ghost whole = str_items(aview(items@));
            let mut out: Vec<String> = Vec::new();
            assert(aview(items@).skip(0) =~= aview(items@));
            let mut i: usize = 0;
            while i < items.len()
                invariant
                    i <= items.len(),
                    whole == out@.map_values(|s: String| s@) + str_items(
                        aview(items@).skip(i as int),
                    ),
                decreases items.len() - i,
            {
                proof {
                    crate::json::lemma_aview_index(items@);
                }
                assert(aview(items@).skip(i as int)[0] == jview(items@[i as int]));
                assert(aview(items@).skip(i as int).drop_first() =~= aview(items@).skip(i + 1));
                match items[i].as_str() {
                    Some(s) => {
                        let ghost out_seq = out@;
                        out.push(s.clone());
                        assert(out@.map_values(|s: String| s@) =~= out_seq.map_values(
                            |s: String| s@,
                        ).push(out@.last()@));
                        assert(out_seq.map_values(|s: String| s@).push(out@.last()@) + str_items(
                            aview(items@).skip(i + 1),
                        ) =~= out_seq.map_values(|s: String| s@) + (seq![out@.last()@] + str_items(
                            aview(items@).skip(i + 1),
                        )));
                    },
                    None => {},
                }
                i = i + 1;
            }
            proof {
                crate::json::lemma_aview_index(items@);
            }
            assert(aview(items@).skip(items@.len() as int) =~= Seq::<JVal>::empty());
            assert(out@.map_values(|s: String| s@) =~= whole);
            if out.len() == 0 {
                None
            } else {
                Some(out)
            }
        },
        _ => None,
    }
}

/// Appends the characters of `s` to `out`.
#[verifier::loop_isolation(false)]
fn extend_chars(out: &mut Vec<char>, s: &[char])
    ensures
        final(out)@ == old(out)@ + s@,
{
    let mut i: usize = 0;
    while i < s.len()
        invariant
            i <= s.len(),
            out@ == old(out)@ + s@.subrange(0, i as int),
        decreases s.len() - i,
    {
        out.push(s[i]);
        assert(old(out)@ + s@.subrange(0, i + 1 as int) =~= (old(out)@ + s@.subrange(
            0,
            i as int,
        )).push(s@[i as int]));
        i = i + 1;
    }
    assert(old(out)@ + s@.subrange(0, s@.len() as int) =~= old(out)@ + s@);
}

/// Whether `suf` ends `s`.
#[verifier::loop_isolation(false)]
fn ends_with_exec(s: &[char], suf: &[char]) -> (b: bool)
    ensures
        b == ends_with(s@, suf@),
{
    if suf.len() > s.len() {
        return false;
    }
    let off = s.len() - suf.len();
    let mut i: usize = 0;
    while i < suf.len()
        invariant
            i <= suf.len(),
            off == s@.len() - suf@.len(),
            forall|j: int| 0 <= j < i ==> s@[off + j] == suf@[j],
        decreases suf.len() - i,
    {
        if s[off + i] != suf[i] {
            assert(s@.subrange(s@.len() - suf@.len(), s@.len() as int)[i as int] != suf@[i as int]);
            return false;
        }
        i = i + 1;
    }
    assert(s@.subrange(s@.len() - suf@.len(), s@.len() as int) =~= suf@);
    true
}

/// The kind's URL path segment.
fn kind_path_exec(kind: &String) -> (r: Vec<char>)
    ensures
        r@ == kind_path(kind@),
{
    proof {
        reveal_strlit("vod");
        reveal_strlit("movie");
        reveal_strlit("series");
        reveal_strlit("live");
    }
    let vod = chars_of("vod");
    let movie = chars_of("movie");
    let series = chars_of("series");
    let kc = chars_of(kind.as_str());
    if crate::text::chars_eq(kc.as_slice(), vod.as_slice()) || crate::text::chars_eq(
        kc.as_slice(),
        movie.as_slice(),
    ) {
        movie
    } else if crate::text::chars_eq(kc.as_slice(), series.as_slice()) {
        series
    } else {
        chars_of("live")
    }
}

/// Builds the synthesized playable URL.
fn synth_url_exec(
    server: &String,
    user: &String,
    pass: &String,
    sid: &String,
    kind: &String,
) -> (r: String)
    ensures
        r@ == synth_url(server@, user@, pass@, sid@, kind@),
{
    proof {
        reveal_strlit("player_api.php");
        reveal_strlit("panel_api.php");
        reveal_strlit("/");
    }
    let sc = chars_of(server.as_str());
    let player_suf = chars_of("player_api.php");
    let panel_suf = chars_of("panel_api.php");
    let mut base: Vec<char> = Vec::new();
    if ends_with_exec(sc.as_slice(), player_suf.as_slice()) {
        let mut i: usize = 0;
        let n = sc.len() - player_suf.len();
        while i < n
            invariant
                i <= n <= sc.len(),
                base@ == sc@.subrange(0, i as int),
            decreases n - i,
        {
            base.push(sc[i]);
            assert(sc@.subrange(0, i + 1 as int) =~= sc@.subrange(0, i as int).push(
                sc@[i as int],
            ));
            i = i + 1;
        }
    } else if ends_with_exec(sc.as_slice(), panel_suf.as_slice()) {
        let mut i: usize = 0;
        let n = sc.len() - panel_suf.len();
        while i < n
            invariant
                i <= n <= sc.len(),
                base@ == sc@.subrange(0, i as int),
            decreases n - i,
        {
            base.push(sc[i]);
            assert(sc@.subrange(0, i + 1 as int) =~= sc@.subrange(0, i as int).push(
                sc@[i as int],
            ));
            i = i + 1;
        }
    } else {
        let mut i: usize = 0;
        while i < sc.len()
            invariant
                i <= sc.len(),
                base@ == sc@.subrange(0, i as int),
            decreases sc.len() - i,
        {
            base.push(sc[i]);
            assert(sc@.subrange(0, i + 1 as int) =~= sc@.subrange(0, i as int).push(
                sc@[i as int],
            ));
            i = i + 1;
        }
        assert(base@ =~= sc@);
    }
    if base.len() > 0 && base[base.len() - 1] == '/' {
        base.pop();
        assert(base@ =~= strip_api_suffix(server@));
    } else {
        assert(base@ =~= strip_api_suffix(server@));
    }
    let slash = chars_of("/");
    let kp = kind_path_exec(kind);
    let uc = chars_of(user.as_str());
    let pc = chars_of(pass.as_str());
    let sidc = chars_of(sid.as_str());
    let mut url = base;
    extend_chars(&mut url, slash.as_slice());
    extend_chars(&mut url, kp.as_slice());
    extend_chars(&mut url, slash.as_slice());
    extend_chars(&mut url, uc.as_slice());
    extend_chars(&mut url, slash.as_slice());
    extend_chars(&mut url, pc.as_slice());
    extend_chars(&mut url, slash.as_slice());
    extend_chars(&mut url, sidc.as_slice());
    string_of(url.as_slice())
}

/// Normalizes one raw record against the category mapping. Failures are
/// per-record: the result says exactly which required field was missing.
pub fn normalize_record(
    raw: &JsonValue,
    cats: &CategoryMap,
    playlist_id: i64,
    server_url: &String,
    username: &String,
    password: &String,
    ctx_kind: &Option<String>,
    now: &String,
) -> (r: Result<Channel, NormalizeError>)
    ensures
        match r {
            Ok(ch) => spec_normalize(
                raw@,
                cats@,
                playlist_id as int,
                server_url@,
                username@,
                password@,
                view_opt_str(*ctx_kind),
                now@,
            ) == Ok::<ChannelV, Seq<char>>(ch@),
            Err(e) => (e matches NormalizeError::MissingField(f) && spec_normalize(
                raw@,
                cats@,
                playlist_id as int,
                server_url@,
                username@,
                password@,
                view_opt_str(*ctx_kind),
                now@,
            ) == Err::<ChannelV, Seq<char>>(f@)),
        },
{
    proof {
        reveal_strlit("stream_id");
        reveal_strlit("num");
        reveal_strlit("name");
        reveal_strlit("title");
        reveal_strlit("category_id");
        reveal_strlit("group");
        reveal_strlit("stream_type");
        reveal_strlit("live");
        reveal_strlit("stream_url");
        reveal_strlit("stream");
        reveal_strlit("Uncategorized");
    }
    let sid = match get_coerced_str(raw, &String::from_str("stream_id")) {
        Some(s) => s,
        None => match get_coerced_str(raw, &String::from_str("num")) {
            Some(s) => s,
            None => {
                return Err(NormalizeError::MissingField(String::from_str("stream_id")));
            },
        },
    };
    let nm = match get_str(raw, &String::from_str("name")) {
        Some(s) => s,
        None => match get_str(raw, &String::from_str("title")) {
            Some(s) => s,
            None => {
                return Err(NormalizeError::MissingField(String::from_str("name")));
            },
        },
    };
    let cid = match get_coerced_str(raw, &String::from_str("category_id")) {
        Some(s) => Some(s),
        None => get_str(raw, &String::from_str("group")),
    };
    let kind = match get_str(raw, &String::from_str("stream_type")) {
        Some(s) => s,
        None => match ctx_kind {
            Some(k) => k.clone(),
            None => String::from_str("live"),
        },
    };
    let cname = match &cid {
        Some(c) => match cats.lookup(c) {
            Some(e) => e.name.clone(),
            None => String::from_str("Uncategorized"),
        },
        None => String::from_str("Uncategorized"),
    };
    let url = match get_str(raw, &String::from_str("stream_url")) {
        Some(u) => u,
        None => match get_str(raw, &String::from_str("stream")) {
            Some(u) => u,
            None => synth_url_exec(server_url, username, password, &sid, &kind),
        },
    };
    proof {
        reveal_strlit("stream_icon");
        reveal_strlit("epg_channel_id");
        reveal_strlit("added");
        reveal_strlit("series_no");
        reveal_strlit("container_extension");
        reveal_strlit("custom_sid");
        reveal_strlit("tv_archive");
        reveal_strlit("direct_source");
        reveal_strlit("tv_archive_duration");
        reveal_strlit("plot");
        reveal_strlit("cast");
        reveal_strlit("director");
        reveal_strlit("genre");
        reveal_strlit("release_date");
        reveal_strlit("rating");
        reveal_strlit("youtube_trailer");
        reveal_strlit("episode_run_time");
        reveal_strlit("cover");
    }
    let ch = Channel {
        id: None,
        playlist_id,
        category_id: cid,
        stream_id: sid,
        name: nm,
        stream_type: kind,
        kind_name: None,
        stream_url: url,
        stream_icon: get_str(raw, &String::from_str("stream_icon")),
        epg_channel_id: get_str(raw, &String::from_str("epg_channel_id")),
        added: get_str(raw, &String::from_str("added")),
        series_no: get_str(raw, &String::from_str("series_no")),
        live: get_str(raw, &String::from_str("live")),
        container_extension: get_str(raw, &String::from_str("container_extension")),
        custom_sid: get_str(raw, &String::from_str("custom_sid")),
        tv_archive: get_int(raw, &String::from_str("tv_archive")),
        direct_source: get_str(raw, &String::from_str("direct_source")),
        tv_archive_duration: get_int(raw, &String::from_str("tv_archive_duration")),
        num: get_coerced_str(raw, &String::from_str("num")),
        plot: get_str(raw, &String::from_str("plot")),
        cast: get_str(raw, &String::from_str("cast")),
        director: get_str(raw, &String::from_str("director")),
        genre: get_str(raw, &String::from_str("genre")),
        release_date: get_str(raw, &String::from_str("release_date")),
        rating: get_str(raw, &String::from_str("rating")),
        backdrop_path: get_backdrop(raw),
        youtube_trailer: get_str(raw, &String::from_str("youtube_trailer")),
        episode_run_time: get_str(raw, &String::from_str("episode_run_time")),
        cover: get_str(raw, &String::from_str("cover")),
        created_at: Some(now.clone()),
        category_name: Some(cname),
        content_type: None,
        authenticated_stream_url: None,
        is_selected: None,
    };
    Ok(ch)
}

} // verus!
