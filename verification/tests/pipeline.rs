//! End-to-end tests of the sync orchestrator against fake transports and
//! the in-memory store.

use blipty::store::CatalogStore;
use blipty::sync::{
    candidate_endpoints, import_from_m3u, next_probe, sync_catalog, ProbeDecision, ProbeReply,
};

fn creds() -> (String, String, String) {
    (
        String::from("http://srv/player_api.php"),
        String::from("user"),
        String::from("pass"),
    )
}

const FLAT_PAYLOAD: &str = "[{\"stream_id\":\"10\",\"name\":\"Alpha\",\"category_id\":\"1\"},{\"num\":42,\"name\":\"Beta\"},{\"name\":\"NoId\"},{\"stream_id\":7,\"title\":\"Gamma\",\"stream_url\":\"http://direct/g\"}]";

fn flat_replies() -> Vec<ProbeReply> {
    vec![
        ProbeReply::Http(500, String::from("oops")),
        ProbeReply::Http(200, String::from(FLAT_PAYLOAD)),
        ProbeReply::Http(200, String::from("[]")),
        ProbeReply::Http(200, String::from("#EXTM3U\n")),
    ]
}

#[test]
fn dialect_fallback_uses_first_success() {
    // the panel endpoint fails with HTTP 500; the player live-streams
    // endpoint answers with a valid flat array and must win
    let (server, user, pass) = creds();
    let mut store = CatalogStore::new();
    let replies = flat_replies();
    let now = String::from("2024-01-01T00:00:00+00:00");
    let r = sync_catalog(&mut store, 1, &server, &user, &pass, &replies, &now, None);
    let chans = r.expect("sync should succeed through the player dialect");
    assert_eq!(chans.len(), 3);
    assert_eq!(chans[0].stream_id, "10");
    assert_eq!(chans[0].name, "Alpha");
    assert_eq!(chans[1].stream_id, "42");
    assert_eq!(chans[1].name, "Beta");
    assert_eq!(chans[2].stream_id, "7");
    assert_eq!(chans[2].name, "Gamma");
}

#[test]
fn probe_decisions_stop_at_winner() {
    // driving the probe machine one endpoint at a time: the failing panel
    // endpoint draws TryNext, the valid flat array draws UsePayload, so
    // endpoints 2 and 3 are never queried
    let replies = flat_replies();
    assert_eq!(next_probe(0, &replies[0]), ProbeDecision::TryNext);
    assert_eq!(next_probe(1, &replies[1]), ProbeDecision::UsePayload);
}

#[test]
fn network_error_draws_try_next() {
    assert_eq!(next_probe(0, &ProbeReply::NetworkError), ProbeDecision::TryNext);
    assert_eq!(next_probe(2, &ProbeReply::Http(404, String::new())), ProbeDecision::TryNext);
    assert_eq!(next_probe(3, &ProbeReply::NetworkError), ProbeDecision::GiveUp);
}

#[test]
fn unparseable_success_body_draws_try_next() {
    let reply = ProbeReply::Http(200, String::from("<html>not json</html>"));
    assert_eq!(next_probe(0, &reply), ProbeDecision::TryNext);
}

#[test]
fn sync_is_idempotent() {
    // two syncs against the same upstream payload commit identical sets
    let (server, user, pass) = creds();
    let mut store = CatalogStore::new();
    let replies = flat_replies();
    let now = String::from("2024-01-01T00:00:00+00:00");
    sync_catalog(&mut store, 1, &server, &user, &pass, &replies, &now, None).unwrap();
    let first = store.fetch_channels(1);
    sync_catalog(&mut store, 1, &server, &user, &pass, &replies, &now, None).unwrap();
    let second = store.fetch_channels(1);
    assert_eq!(first.len(), second.len());
    for k in 0..first.len() {
        assert_eq!(first[k].stream_id, second[k].stream_id);
        assert_eq!(first[k].name, second[k].name);
        assert_eq!(first[k].stream_url, second[k].stream_url);
    }
}

#[test]
fn failed_commit_preserves_prior_catalog() {
    // the simulated storage layer fails on the second channel insert: the
    // playlist's category and channel tables stay exactly as they were
    let (server, user, pass) = creds();
    let mut store = CatalogStore::new();
    let replies = flat_replies();
    let now = String::from("2024-01-01T00:00:00+00:00");
    sync_catalog(&mut store, 1, &server, &user, &pass, &replies, &now, None).unwrap();
    let chans_before = store.fetch_channels(1);
    let cats_before = store.fetch_categories(1);
    let r = sync_catalog(&mut store, 1, &server, &user, &pass, &replies, &now, Some(1));
    assert!(r.is_err());
    let chans_after = store.fetch_channels(1);
    let cats_after = store.fetch_categories(1);
    assert_eq!(chans_before.len(), chans_after.len());
    assert_eq!(cats_before.len(), cats_after.len());
    for k in 0..chans_before.len() {
        assert_eq!(chans_before[k].stream_id, chans_after[k].stream_id);
        assert_eq!(chans_before[k].name, chans_after[k].name);
    }
}

#[test]
fn all_endpoints_failed_leaves_store_empty() {
    let (server, user, pass) = creds();
    let mut store = CatalogStore::new();
    let replies = vec![
        ProbeReply::NetworkError,
        ProbeReply::Http(403, String::from("denied")),
        ProbeReply::Http(200, String::from("not json at all")),
        ProbeReply::Http(500, String::from("")),
    ];
    let now = String::from("2024-01-01T00:00:00+00:00");
    let r = sync_catalog(&mut store, 1, &server, &user, &pass, &replies, &now, None);
    assert!(r.is_err());
    assert_eq!(store.fetch_channels(1).len(), 0);
    assert_eq!(store.fetch_categories(1).len(), 0);
}

#[test]
fn duplicate_stream_ids_keep_last_row() {
    let (server, user, pass) = creds();
    let mut store = CatalogStore::new();
    let body = "[{\"stream_id\":\"10\",\"name\":\"First\"},{\"stream_id\":\"10\",\"name\":\"Second\"}]";
    let replies = vec![
        ProbeReply::Http(200, String::from(body)),
        ProbeReply::NetworkError,
        ProbeReply::NetworkError,
        ProbeReply::NetworkError,
    ];
    let now = String::from("2024-01-01T00:00:00+00:00");
    let chans = sync_catalog(&mut store, 1, &server, &user, &pass, &replies, &now, None).unwrap();
    // the normalized list keeps both, the committed table exactly one
    assert_eq!(chans.len(), 2);
    let table = store.fetch_channels(1);
    assert_eq!(table.len(), 1);
    assert_eq!(table[0].name, "Second");
}

#[test]
fn selected_channel_round_trip_and_cascade() {
    let (server, user, pass) = creds();
    let mut store = CatalogStore::new();
    let replies = flat_replies();
    let now = String::from("2024-01-01T00:00:00+00:00");
    sync_catalog(&mut store, 1, &server, &user, &pass, &replies, &now, None).unwrap();
    assert!(store.get_selected_channel(1).is_none());
    assert!(store.set_selected_channel(1, &String::from("42")));
    let sel = store.get_selected_channel(1).expect("a channel is selected");
    assert_eq!(sel.name, "Beta");
    assert!(!store.set_selected_channel(1, &String::from("999")));
    // a catalog replace deletes the rows the pointer names, and the
    // pointer cascades away with them
    sync_catalog(&mut store, 1, &server, &user, &pass, &replies, &now, None).unwrap();
    assert!(store.get_selected_channel(1).is_none());
}

#[test]
fn syncing_one_playlist_leaves_others_alone() {
    let (server, user, pass) = creds();
    let mut store = CatalogStore::new();
    let replies = flat_replies();
    let now = String::from("2024-01-01T00:00:00+00:00");
    sync_catalog(&mut store, 1, &server, &user, &pass, &replies, &now, None).unwrap();
    sync_catalog(&mut store, 2, &server, &user, &pass, &replies, &now, None).unwrap();
    assert_eq!(store.fetch_channels(1).len(), 3);
    assert_eq!(store.fetch_channels(2).len(), 3);
}

#[test]
fn m3u_endpoint_wins_when_json_endpoints_fail() {
    let (server, user, pass) = creds();
    let mut store = CatalogStore::new();
    let m3u = "#EXTM3U\n#EXTINF:-1 group-title=\"News\",BBC News\nhttp://x/1\n";
    let replies = vec![
        ProbeReply::NetworkError,
        ProbeReply::Http(500, String::new()),
        ProbeReply::Http(200, String::from("broken {")),
        ProbeReply::Http(200, String::from(m3u)),
    ];
    let now = String::from("2024-01-01T00:00:00+00:00");
    let chans = sync_catalog(&mut store, 1, &server, &user, &pass, &replies, &now, None).unwrap();
    assert_eq!(chans.len(), 1);
    assert_eq!(chans[0].stream_id, "1");
    assert_eq!(chans[0].name, "BBC News");
    assert_eq!(chans[0].stream_url, "http://x/1");
}

#[test]
fn import_invalid_m3u_writes_nothing() {
    // input not starting with #EXTM3U: InvalidFormat, zero storage writes
    let mut store = CatalogStore::new();
    let now = String::from("2024-01-01T00:00:00+00:00");
    let text = String::from("#EXTINF:-1,Nope\nhttp://x/1\n");
    let r = import_from_m3u(&mut store, 1, &text, &now, None);
    match r {
        Err(e) => assert!(e.message().len() > 0),
        Ok(_) => panic!("a missing header must be rejected"),
    }
    assert_eq!(store.fetch_channels(1).len(), 0);
}

#[test]
fn import_empty_m3u_commits_nothing() {
    let mut store = CatalogStore::new();
    let now = String::from("2024-01-01T00:00:00+00:00");
    let text = String::from("#EXTM3U\n# just comments\n");
    let r = import_from_m3u(&mut store, 1, &text, &now, None);
    assert_eq!(r.unwrap(), false);
    assert_eq!(store.fetch_channels(1).len(), 0);
}

#[test]
fn import_m3u_replaces_channels_only() {
    let (server, user, pass) = creds();
    let mut store = CatalogStore::new();
    let panel = "{\"categories\":{\"live\":[{\"category_id\":\"1\",\"category_name\":\"News\"}]},\"available_channels\":{\"5\":{\"name\":\"Old\",\"category_id\":\"1\"}}}";
    let replies = vec![
        ProbeReply::Http(200, String::from(panel)),
        ProbeReply::NetworkError,
        ProbeReply::NetworkError,
        ProbeReply::NetworkError,
    ];
    let now = String::from("2024-01-01T00:00:00+00:00");
    sync_catalog(&mut store, 1, &server, &user, &pass, &replies, &now, None).unwrap();
    assert_eq!(store.fetch_categories(1).len(), 1);
    let text = String::from("#EXTM3U\n#EXTINF:-1,Fresh\nhttp://x/9\n");
    assert_eq!(import_from_m3u(&mut store, 1, &text, &now, None).unwrap(), true);
    // channels replaced, category rows kept
    let chans = store.fetch_channels(1);
    assert_eq!(chans.len(), 1);
    assert_eq!(chans[0].name, "Fresh");
    assert_eq!(store.fetch_categories(1).len(), 1);
}

#[test]
fn import_m3u_storage_fault_rolls_back() {
    let mut store = CatalogStore::new();
    let now = String::from("2024-01-01T00:00:00+00:00");
    let text = String::from("#EXTM3U\n#EXTINF:-1,One\nhttp://x/1\n#EXTINF:-1,Two\nhttp://x/2\n");
    assert_eq!(import_from_m3u(&mut store, 1, &text, &now, None).unwrap(), true);
    assert_eq!(store.fetch_channels(1).len(), 2);
    let text2 = String::from("#EXTM3U\n#EXTINF:-1,Three\nhttp://x/3\n");
    let r = import_from_m3u(&mut store, 1, &text2, &now, Some(0));
    assert!(r.is_err());
    let chans = store.fetch_channels(1);
    assert_eq!(chans.len(), 2);
    assert_eq!(chans[0].name, "One");
}

#[test]
fn candidate_endpoints_are_in_probe_order() {
    let server = String::from("http://h");
    let user = String::from("u");
    let pass = String::from("p");
    let urls = candidate_endpoints(&server, &user, &pass);
    assert_eq!(urls.len(), 4);
    assert_eq!(urls[0], "http://h/api/panel_api.php?username=u&password=p");
    assert_eq!(
        urls[1],
        "http://h/player_api.php?username=u&password=p&action=get_live_streams"
    );
    assert_eq!(
        urls[2],
        "http://h/player_api.php?username=u&password=p&action=get_live_categories"
    );
    assert_eq!(urls[3], "http://h/get.php?username=u&password=p&type=m3u_plus");
}

#[test]
fn player_endpoints_cover_all_kinds() {
    let server = String::from("http://h");
    let user = String::from("u");
    let pass = String::from("p");
    let urls = blipty::sync::player_endpoints(&server, &user, &pass);
    assert_eq!(urls.len(), 6);
    assert_eq!(
        urls[0],
        "http://h/player_api.php?username=u&password=p&action=get_live_categories"
    );
    assert_eq!(
        urls[2],
        "http://h/player_api.php?username=u&password=p&action=get_series_categories"
    );
    assert_eq!(urls[5], "http://h/player_api.php?username=u&password=p&action=get_series");
}

#[test]
fn player_catalog_aggregates_independent_endpoints() {
    // the vod category endpoint and the vod stream endpoint fail; the other
    // four still contribute, and the category id collision between live
    // and series resolves to the kind processed last
    let live_cats = "[{\"category_id\":\"5\",\"category_name\":\"Live Five\"}]";
    let series_cats = "[{\"category_id\":\"5\",\"category_name\":\"Series Five\"}]";
    let live_streams = "[{\"stream_id\":\"1\",\"name\":\"L\"}]";
    let series_streams = "[{\"stream_id\":\"2\",\"name\":\"S\"}]";
    let replies = vec![
        ProbeReply::Http(200, String::from(live_cats)),
        ProbeReply::Http(500, String::new()),
        ProbeReply::Http(200, String::from(series_cats)),
        ProbeReply::Http(200, String::from(live_streams)),
        ProbeReply::NetworkError,
        ProbeReply::Http(200, String::from(series_streams)),
    ];
    let (cats, raws) = blipty::sync::collect_player_catalog(&replies);
    let e = cats.lookup(&String::from("5")).unwrap();
    assert_eq!(e.content_type, "series");
    assert_eq!(e.name, "Series Five");
    assert_eq!(raws.len(), 2);
    let st_key = String::from("stream_type");
    let st0 = raws[0].get(&st_key).and_then(|x| x.as_str()).unwrap();
    assert_eq!(st0, "live");
    let st1 = raws[1].get(&st_key).and_then(|x| x.as_str()).unwrap();
    assert_eq!(st1, "series");
}
