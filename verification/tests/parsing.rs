//! Tests of the parsers, the extractors and the normalizer on their own.

use blipty::extract::{detect_format, extract_categories, extract_channels, PayloadShape};
use blipty::json::{parse_json, JsonValue};
use blipty::m3u::parse_m3u;
use blipty::models::{CategoryMap, NormalizeError};
use blipty::normalize::normalize_record;
use blipty::text::{chars_of, i64_to_string, u64_to_string};

fn parse(text: &str) -> JsonValue {
    let cs = chars_of(text);
    parse_json(cs.as_slice()).expect("the test input is valid JSON")
}

#[test]
fn m3u_round_trip() {
    // the documented two-channel round trip
    let text =
        "#EXTM3U\n#EXTINF:-1 group-title=\"News\",BBC News\nhttp://x/1\n#EXTINF:-1 group-title=\"News\",CNN\nhttp://x/2\n";
    let cs = chars_of(text);
    let recs = parse_m3u(cs.as_slice()).expect("header is present");
    assert_eq!(recs.len(), 2);
    assert_eq!(recs[0].stream_id, "1");
    assert_eq!(recs[0].name, "BBC News");
    assert_eq!(recs[0].category_name, "News");
    assert_eq!(recs[0].stream_url, "http://x/1");
    assert_eq!(recs[1].stream_id, "2");
    assert_eq!(recs[1].name, "CNN");
    assert_eq!(recs[1].category_name, "News");
    assert_eq!(recs[1].stream_url, "http://x/2");
}

#[test]
fn m3u_missing_header_is_rejected() {
    let cs = chars_of("just some text\nhttp://x/1\n");
    assert!(parse_m3u(cs.as_slice()).is_none());
}

#[test]
fn m3u_dangling_url_is_dropped() {
    // a URL with no pending info line is ignored; a comment keeps the
    // pending info alive
    let text = "#EXTM3U\nhttp://dangling/0\n#EXTINF:-1,Kept\n# a comment\nhttp://x/1\n";
    let cs = chars_of(text);
    let recs = parse_m3u(cs.as_slice()).unwrap();
    assert_eq!(recs.len(), 1);
    assert_eq!(recs[0].name, "Kept");
    assert_eq!(recs[0].stream_url, "http://x/1");
}

#[test]
fn m3u_without_group_title_is_uncategorized() {
    let text = "#EXTM3U\n#EXTINF:-1 tvg-id=\"x\",Plain\nhttp://x/1\n";
    let cs = chars_of(text);
    let recs = parse_m3u(cs.as_slice()).unwrap();
    assert_eq!(recs[0].category_name, "Uncategorized");
    assert_eq!(recs[0].name, "Plain");
}

#[test]
fn detect_format_classifies_shapes() {
    let nested = chars_of("{\"categories\":{\"live\":[]}}");
    let (shape, v) = detect_format(nested.as_slice(), false).unwrap();
    assert_eq!(shape, PayloadShape::NestedCategories);
    assert!(v.is_some());

    let flat = chars_of("[1,2]");
    let (shape, _) = detect_format(flat.as_slice(), false).unwrap();
    assert_eq!(shape, PayloadShape::FlatArray);

    let other = chars_of("{\"unexpected\":true}");
    let (shape, _) = detect_format(other.as_slice(), false).unwrap();
    assert_eq!(shape, PayloadShape::UnrecognizedObject);

    let broken = chars_of("{broken");
    assert!(detect_format(broken.as_slice(), false).is_none());

    let (shape, v) = detect_format(broken.as_slice(), true).unwrap();
    assert_eq!(shape, PayloadShape::PlaylistText);
    assert!(v.is_none());
}

#[test]
fn category_tiebreak_is_last_kind_wins() {
    // id "5" appears in both the live and the movie bucket: the movie
    // bucket is processed last of the two, so its kind and name win
    let v = parse("{\"categories\":{\"live\":[{\"category_id\":\"5\",\"category_name\":\"Live Five\"}],\"movie\":[{\"category_id\":\"5\",\"category_name\":\"Movie Five\"}],\"series\":[]}}");
    let cats = extract_categories(&v);
    let e = cats.lookup(&String::from("5")).expect("id 5 is mapped");
    assert_eq!(e.content_type, "movie");
    assert_eq!(e.name, "Movie Five");
}

#[test]
fn category_entries_without_id_or_name_are_skipped() {
    let v = parse("{\"categories\":{\"live\":[{\"category_id\":\"1\"},{\"category_name\":\"NoId\"},{\"category_id\":\"2\",\"category_name\":\"Good\",\"parent_id\":7}]}}");
    let cats = extract_categories(&v);
    assert_eq!(cats.len(), 1);
    let e = cats.lookup(&String::from("2")).unwrap();
    assert_eq!(e.name, "Good");
    assert_eq!(e.parent_id, Some(7));
}

#[test]
fn flat_array_categories_are_live_without_parent() {
    let v = parse("[{\"category_id\":\"9\",\"category_name\":\"Sports\",\"parent_id\":3}]");
    let cats = extract_categories(&v);
    let e = cats.lookup(&String::from("9")).unwrap();
    assert_eq!(e.content_type, "live");
    assert_eq!(e.parent_id, None);
}

#[test]
fn panel_channels_get_injected_ids_and_kind() {
    let v = parse("{\"available_channels\":{\"101\":{\"name\":\"BBC\"},\"102\":{\"name\":\"Film\",\"stream_type\":\"vod\"},\"103\":\"not an object\"}}");
    let kind = String::from("live");
    let raws = extract_channels(v, &kind);
    assert_eq!(raws.len(), 2);
    let sid_key = String::from("stream_id");
    let st_key = String::from("stream_type");
    let sid0 = raws[0].get(&sid_key).and_then(|x| x.as_str()).unwrap();
    assert_eq!(sid0, "101");
    let st0 = raws[0].get(&st_key).and_then(|x| x.as_str()).unwrap();
    assert_eq!(st0, "live");
    // a record's own kind is kept
    let st1 = raws[1].get(&st_key).and_then(|x| x.as_str()).unwrap();
    assert_eq!(st1, "vod");
}

#[test]
fn wrapper_member_arrays_are_scanned() {
    let v = parse("{\"data\":[{\"name\":\"Wrapped\",\"stream_id\":\"3\"}]}");
    let kind = String::from("live");
    let raws = extract_channels(v, &kind);
    assert_eq!(raws.len(), 1);
    let name_key = String::from("name");
    let nm = raws[0].get(&name_key).and_then(|x| x.as_str()).unwrap();
    assert_eq!(nm, "Wrapped");
}

fn normalize_one(raw_text: &str) -> Result<blipty::models::Channel, NormalizeError> {
    let raw = parse(raw_text);
    let cats = CategoryMap::new();
    normalize_record(
        &raw,
        &cats,
        1,
        &String::from("http://srv/player_api.php"),
        &String::from("u"),
        &String::from("p"),
        &None,
        &String::from("2024-01-01T00:00:00+00:00"),
    )
}

#[test]
fn stream_id_fallback_chain() {
    // num as integer coerces to its decimal text when stream_id is absent
    let ch = normalize_one("{\"num\":42,\"name\":\"A\"}").unwrap();
    assert_eq!(ch.stream_id, "42");
    // stream_id as string wins over num
    let ch = normalize_one("{\"stream_id\":\"s9\",\"num\":42,\"name\":\"A\"}").unwrap();
    assert_eq!(ch.stream_id, "s9");
    // stream_id as integer coerces
    let ch = normalize_one("{\"stream_id\":-7,\"name\":\"A\"}").unwrap();
    assert_eq!(ch.stream_id, "-7");
}

#[test]
fn record_without_id_or_name_is_dropped() {
    match normalize_one("{\"name\":\"A\"}") {
        Err(NormalizeError::MissingField(f)) => assert_eq!(f, "stream_id"),
        Ok(_) => panic!("a record without a stream id must be dropped"),
    }
    match normalize_one("{\"stream_id\":\"1\"}") {
        Err(NormalizeError::MissingField(f)) => assert_eq!(f, "name"),
        Ok(_) => panic!("a record without a name must be dropped"),
    }
}

#[test]
fn url_synthesis_strips_api_suffix() {
    // no stream_url in the payload: the URL is synthesized as
    // {server}/{kind-path}/{user}/{pass}/{stream_id} with the known API
    // suffix stripped from the server
    let ch = normalize_one("{\"stream_id\":\"99\",\"name\":\"A\"}").unwrap();
    assert_eq!(ch.stream_url, "http://srv/live/u/p/99");
    // vod maps onto the movie path
    let ch = normalize_one("{\"stream_id\":\"5\",\"name\":\"M\",\"stream_type\":\"vod\"}")
        .unwrap();
    assert_eq!(ch.stream_url, "http://srv/movie/u/p/5");
    // a payload URL is kept verbatim
    let ch = normalize_one(
        "{\"stream_id\":\"5\",\"name\":\"M\",\"stream_url\":\"http://keep/me\"}",
    )
    .unwrap();
    assert_eq!(ch.stream_url, "http://keep/me");
}

#[test]
fn category_name_is_denormalized() {
    let raw = parse("{\"stream_id\":\"1\",\"name\":\"A\",\"category_id\":5}");
    let mut cats = CategoryMap::new();
    cats.insert(blipty::models::CategoryEntry {
        category_id: String::from("5"),
        name: String::from("News"),
        content_type: String::from("live"),
        parent_id: None,
    });
    let ch = normalize_record(
        &raw,
        &cats,
        1,
        &String::from("http://srv"),
        &String::from("u"),
        &String::from("p"),
        &None,
        &String::from("now"),
    )
    .unwrap();
    assert_eq!(ch.category_id.as_deref(), Some("5"));
    assert_eq!(ch.category_name.as_deref(), Some("News"));
    // a miss falls back to the literal Uncategorized
    let raw2 = parse("{\"stream_id\":\"2\",\"name\":\"B\",\"category_id\":\"77\"}");
    let ch2 = normalize_record(
        &raw2,
        &cats,
        1,
        &String::from("http://srv"),
        &String::from("u"),
        &String::from("p"),
        &None,
        &String::from("now"),
    )
    .unwrap();
    assert_eq!(ch2.category_name.as_deref(), Some("Uncategorized"));
}

#[test]
fn metadata_tail_is_copied_or_absent() {
    let ch = normalize_one("{\"stream_id\":\"1\",\"name\":\"A\",\"plot\":\"story\",\"tv_archive\":1,\"backdrop_path\":[\"a.png\",7,\"b.png\"],\"rating\":\"8.1\"}")
    .unwrap();
    assert_eq!(ch.plot.as_deref(), Some("story"));
    assert_eq!(ch.tv_archive, Some(1));
    assert_eq!(ch.rating.as_deref(), Some("8.1"));
    let bp = ch.backdrop_path.unwrap();
    assert_eq!(bp.len(), 2);
    assert_eq!(bp[0], "a.png");
    assert_eq!(bp[1], "b.png");
    // an empty array normalizes to absent, like a missing member
    let ch2 = normalize_one("{\"stream_id\":\"1\",\"name\":\"A\",\"backdrop_path\":[]}")
        .unwrap();
    assert!(ch2.backdrop_path.is_none());
    assert!(ch2.plot.is_none());
}

#[test]
fn json_parser_handles_the_dialect() {
    // escapes, including a unicode one, decode into the string value
    let v = parse("{\"a\":\"x\\n\\u0041\\\"\"}");
    let key = String::from("a");
    let s = v.get(&key).and_then(|x| x.as_str()).unwrap();
    assert_eq!(s, "x\nA\"");
    // non-integer numbers read as null (absent for the pipeline)
    let v = parse("{\"a\":4.5,\"b\":-12}");
    assert!(v.get(&key).and_then(|x| x.as_i64()).is_none());
    let b_key = String::from("b");
    assert_eq!(v.get(&b_key).and_then(|x| x.as_i64()), Some(-12));
    // malformed text is rejected
    assert!(parse_json(chars_of("{\"a\":}").as_slice()).is_none());
    assert!(parse_json(chars_of("[1,]").as_slice()).is_none());
    assert!(parse_json(chars_of("").as_slice()).is_none());
    // duplicate keys keep the last value
    let v = parse("{\"a\":1,\"a\":2}");
    assert_eq!(v.get(&key).and_then(|x| x.as_i64()), Some(2));
}

#[test]
fn integer_rendering_is_decimal() {
    assert_eq!(u64_to_string(0), "0");
    assert_eq!(u64_to_string(42), "42");
    assert_eq!(u64_to_string(18446744073709551615), "18446744073709551615");
    assert_eq!(i64_to_string(-1), "-1");
    assert_eq!(i64_to_string(-9223372036854775808), "-9223372036854775808");
    assert_eq!(i64_to_string(9223372036854775807), "9223372036854775807");
}

#[test]
fn i64_boundaries_parse_exactly() {
    let v = parse("[9223372036854775807,-9223372036854775808,9223372036854775808]");
    match v {
        JsonValue::Arr(items) => {
            assert_eq!(items[0].as_i64(), Some(9223372036854775807));
            assert_eq!(items[1].as_i64(), Some(-9223372036854775808));
            // one past the maximum no longer fits and reads as null
            assert!(items[2].as_i64().is_none());
        },
        _ => panic!("expected an array"),
    }
}
