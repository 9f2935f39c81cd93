//! The catalog sync orchestrator.
//!
//! Candidate endpoints are probed in a fixed, dialect-revealing order:
//! the combined panel endpoint, the player live-streams endpoint, the
//! player live-categories endpoint, and last the M3U playlist endpoint.
//! The first reply with a success status whose body is usable (valid JSON,
//! or any text for the M3U endpoint) wins; network errors, error statuses
//! and unparseable bodies move to the next candidate. Once a payload is
//! won, extraction, normalization and the transactional catalog replace run
//! fully in memory — a commit failure rolls everything back and the prior
//! catalog is preserved.
//!
//! The orchestrator itself is pure: the transport hands it one reply per
//! candidate endpoint ([`sync_catalog`]), or drives [`next_probe`] one
//! endpoint at a time so that no endpoint after the winner is ever fetched.

use vstd::prelude::*;

use crate::assoc::assoc_set;
use crate::extract::{extract_categories, extract_channels, spec_extract_categories, spec_extract_channels};
use crate::json::{aview, jview, parse_json, spec_parse_json, JVal, JsonValue};
use crate::m3u::{parse_m3u, spec_parse_m3u, M3uRecord, M3uRecordV};
use crate::models::{CatInfo, Category, CategoryMap, CategoryV, Channel, ChannelV, SyncError};
use crate::models::lemma_centries_view_index;
use crate::normalize::{normalize_record, spec_normalize};
use crate::store::{
    cats_view, chan_put_all, chans_view, CatalogStore, PlaylistCatalogV,
};
use crate::text::chars_of;

verus! {

/// The URL of candidate endpoint `k`, in the fixed probe order: the
/// combined panel endpoint, the player live-streams action, the player
/// live-categories action, and the M3U download.
pub open spec fn spec_endpoint_url(
    k: int,
    server: Seq<char>,
    user: Seq<char>,
    pass: Seq<char>,
) -> Seq<char> {
    if k == 0 {
        server + "/api/panel_api.php?username="@ + user + "&password="@ + pass
    } else if k == 1 {
        server + "/player_api.php?username="@ + user + "&password="@ + pass
            + "&action=get_live_streams"@
    } else if k == 2 {
        server + "/player_api.php?username="@ + user + "&password="@ + pass
            + "&action=get_live_categories"@
    } else {
        server + "/get.php?username="@ + user + "&password="@ + pass + "&type=m3u_plus"@
    }
}

/// The four candidate endpoint URLs in probe order. The transport fetches
/// them one at a time and stops at the first winner; index 3 is the M3U
/// endpoint, whose body is playlist text rather than JSON.
pub fn candidate_endpoints(server_url: &String, username: &String, password: &String) -> (r: Vec<
    String,
>)
    ensures
        r@.len() == 4,
        forall|k: int| 0 <= k < 4 ==> r@[k]@ == spec_endpoint_url(
            k,
            server_url@,
            username@,
            password@,
        ),
{
    proof {
        reveal_strlit("/api/panel_api.php?username=");
        reveal_strlit("/player_api.php?username=");
        reveal_strlit("/get.php?username=");
        reveal_strlit("&password=");
        reveal_strlit("&action=get_live_streams");
        reveal_strlit("&action=get_live_categories");
        reveal_strlit("&type=m3u_plus");
    }
    let mut r: Vec<String> = Vec::new();
    let mut u0 = server_url.clone();
    u0.append("/api/panel_api.php?username=");
    u0.append(username.as_str());
    u0.append("&password=");
    u0.append(password.as_str());
    r.push(u0);
    let mut u1 = server_url.clone();
    u1.append("/player_api.php?username=");
    u1.append(username.as_str());
    u1.append("&password=");
    u1.append(password.as_str());
    u1.append("&action=get_live_streams");
    r.push(u1);
    let mut u2 = server_url.clone();
    u2.append("/player_api.php?username=");
    u2.append(username.as_str());
    u2.append("&password=");
    u2.append(password.as_str());
    u2.append("&action=get_live_categories");
    r.push(u2);
    let mut u3 = server_url.clone();
    u3.append("/get.php?username=");
    u3.append(username.as_str());
    u3.append("&password=");
    u3.append(password.as_str());
    u3.append("&type=m3u_plus");
    r.push(u3);
    r
}

/// What the transport got from one candidate endpoint.
pub enum ProbeReply {
    /// The request never yielded an HTTP response.
    NetworkError,
    /// An HTTP response: status code and body text.
    Http(u16, String),
}

/// The ghost mirror of [`ProbeReply`].
pub enum ProbeReplyV {
    NetworkError,
    Http(int, Seq<char>),
}

impl View for ProbeReply {
    type V = ProbeReplyV;

    open spec fn view(&self) -> ProbeReplyV {
        match self {
            ProbeReply::NetworkError => ProbeReplyV::NetworkError,
            ProbeReply::Http(st, body) => ProbeReplyV::Http(*st as int, body@),
        }
    }
}

/// Whether a reply carries an HTTP success status.
pub open spec fn http_success(rep: ProbeReplyV) -> bool {
    match rep {
        ProbeReplyV::Http(st, _) => 200 <= st < 300,
        ProbeReplyV::NetworkError => false,
    }
}

/// The body text of a reply (empty for a network error).
pub open spec fn reply_body(rep: ProbeReplyV) -> Seq<char> {
    match rep {
        ProbeReplyV::Http(_, body) => body,
        ProbeReplyV::NetworkError => Seq::empty(),
    }
}

/// Whether the reply of candidate endpoint `i` wins the probe: a success
/// status, and for the JSON endpoints a body that parses as JSON. The M3U
/// endpoint (index 3) wins on status alone; its body is judged afterwards.
pub open spec fn reply_wins(rep: ProbeReplyV, i: int) -> bool {
    http_success(rep) && (i == 3 || spec_parse_json(reply_body(rep)) is Some)
}

/// The first winning candidate at or after `i`.
pub open spec fn chosen_endpoint(reps: Seq<ProbeReplyV>, i: int) -> Option<int>
    decreases reps.len() - i,
{
    if i < 0 || i >= reps.len() {
        None
    } else if reply_wins(reps[i], i) {
        Some(i)
    } else {
        chosen_endpoint(reps, i + 1)
    }
}

/// What the probe loop does after seeing one reply.
#[derive(PartialEq, Eq, Structural, Clone, Copy, Debug)]
pub enum ProbeDecision {
    /// This endpoint wins; ingest its body and query nothing further.
    UsePayload,
    /// Try the next candidate endpoint.
    TryNext,
    /// This was the last candidate; the sync fails with nothing written.
    GiveUp,
}

/// The decision the orchestrator takes on the reply of endpoint `index`.
pub open spec fn spec_next_probe(i: int, rep: ProbeReplyV) -> ProbeDecision {
    if reply_wins(rep, i) {
        ProbeDecision::UsePayload
    } else if i + 1 < 4 {
        ProbeDecision::TryNext
    } else {
        ProbeDecision::GiveUp
    }
}

/// Decides what to do with one endpoint's reply. A driver that performs one
/// request at a time and follows these decisions queries no endpoint after
/// the winning one.
pub fn next_probe(index: usize, reply: &ProbeReply) -> (r: ProbeDecision)
    requires
        index < 4,
    ensures
        r == spec_next_probe(index as int, reply@),
{
    let wins = match reply {
        ProbeReply::Http(st, body) => {
            if 200 <= *st && *st < 300 {
                if index == 3 {
                    true
                } else {
                    let cs = chars_of(body.as_str());
                    match parse_json(cs.as_slice()) {
                        Some(_) => true,
                        None => false,
                    }
                }
            } else {
                false
            }
        },
        ProbeReply::NetworkError => false,
    };
    if wins {
        ProbeDecision::UsePayload
    } else if index + 1 < 4 {
        ProbeDecision::TryNext
    } else {
        ProbeDecision::GiveUp
    }
}

/// The channels a JSON payload normalizes to: every extracted raw record in
/// order, records missing a required field dropped.
pub open spec fn norm_fold(
    raws: Seq<JVal>,
    cats: Seq<(Seq<char>, CatInfo)>,
    pid: int,
    server: Seq<char>,
    user: Seq<char>,
    pass: Seq<char>,
    now: Seq<char>,
) -> Seq<ChannelV>
    decreases raws.len(),
{
    if raws.len() == 0 {
        Seq::empty()
    } else {
        let rest = norm_fold(raws.drop_first(), cats, pid, server, user, pass, now);
        match spec_normalize(raws[0], cats, pid, server, user, pass, None, now) {
            Ok(ch) => seq![ch] + rest,
            Err(_) => rest,
        }
    }
}

/// The category rows a category mapping commits as, in extraction order.
pub open spec fn spec_cat_rows(
    cats: Seq<(Seq<char>, CatInfo)>,
    pid: int,
    now: Seq<char>,
) -> Seq<CategoryV> {
    cats.map_values(
        |p: (Seq<char>, CatInfo)| CategoryV {
            id: None,
            playlist_id: pid,
            category_id: p.0,
            name: p.1.name,
            content_type: p.1.kind,
            parent_id: p.1.parent,
            created_at: Some(now),
        },
    )
}

/// The normalized channel list of a JSON payload.
pub open spec fn spec_json_channels(
    v: JVal,
    pid: int,
    server: Seq<char>,
    user: Seq<char>,
    pass: Seq<char>,
    now: Seq<char>,
) -> Seq<ChannelV> {
    norm_fold(
        spec_extract_channels(v, "live"@),
        spec_extract_categories(v),
        pid,
        server,
        user,
        pass,
        now,
    )
}

/// The catalog a JSON payload commits for a playlist.
pub open spec fn spec_json_catalog(
    v: JVal,
    pid: int,
    server: Seq<char>,
    user: Seq<char>,
    pass: Seq<char>,
    now: Seq<char>,
) -> PlaylistCatalogV {
    PlaylistCatalogV {
        categories: spec_cat_rows(spec_extract_categories(v), pid, now),
        channels: chan_put_all(
            Seq::empty(),
            spec_json_channels(v, pid, server, user, pass, now),
        ),
        selected: None,
    }
}

/// Extracts, normalizes and transactionally commits one JSON payload,
/// returning the normalized channel list. On a storage fault nothing in the
/// store changes.
#[verifier::loop_isolation(false)]
pub fn commit_json_payload(
    store: &mut CatalogStore,
    playlist_id: i64,
    server_url: &String,
    username: &String,
    password: &String,
    payload: JsonValue,
    now: &String,
    fault: Option<usize>,
) -> (r: Result<Vec<Channel>, SyncError>)
    requires
        old(store).wf(),
    ensures
        final(store).wf(),
        match r {
            Ok(chs) => chans_view(chs@) == spec_json_channels(
                jview(payload),
                playlist_id as int,
                server_url@,
                username@,
                password@,
                now@,
            ) && final(store)@ == assoc_set(
                old(store)@,
                playlist_id as int,
                spec_json_catalog(
                    jview(payload),
                    playlist_id as int,
                    server_url@,
                    username@,
                    password@,
                    now@,
                ),
            ) && (fault matches Some(n) ==> n >= spec_json_channels(
                jview(payload),
                playlist_id as int,
                server_url@,
                username@,
                password@,
                now@,
            ).len()),
            Err(e) => *final(store) == *old(store) && e is Storage && (fault matches Some(n)
                && n < spec_json_channels(
                jview(payload),
                playlist_id as int,
                server_url@,
                username@,
                password@,
                now@,
            ).len()),
        },
{
    proof {
        reveal_strlit("live");
    }
    let ghost pv = jview(payload);
    let cats = extract_categories(&payload);
    let kind_live = String::from_str("live");
    let raws = extract_channels(payload, &kind_live);
    let ghost rawseq = aview(raws@);
    assert(rawseq == spec_extract_channels(pv, "live"@));
    let ghost whole = norm_fold(
        rawseq,
        cats@,
        playlist_id as int,
        server_url@,
        username@,
        password@,
        now@,
    );
    let ctx: Option<String> = None;
    let mut chans: Vec<Channel> = Vec::new();
    assert(rawseq.skip(0) =~= rawseq);
    let mut i: usize = 0;
    while i < raws.len()
        invariant
            i <= raws.len(),
            whole == chans_view(chans@) + norm_fold(
                rawseq.skip(i as int),
                cats@,
                playlist_id as int,
                server_url@,
                username@,
                password@,
                now@,
            ),
        decreases raws.len() - i,
    {
        proof {
            crate::json::lemma_aview_index(raws@);
        }
        assert(rawseq.skip(i as int)[0] == jview(raws@[i as int]));
        assert(rawseq.skip(i as int).drop_first() =~= rawseq.skip(i + 1));
        match normalize_record(
            &raws[i],
            &cats,
            playlist_id,
            server_url,
            username,
            password,
            &ctx,
            now,
        ) {
            Ok(ch) => {
                let ghost before = chans_view(chans@);
                let ghost chv = ch@;
                chans.push(ch);
                assert(chans_view(chans@) =~= before.push(chv));
                assert(before.push(chv) + norm_fold(
                    rawseq.skip(i + 1),
                    cats@,
                    playlist_id as int,
                    server_url@,
                    username@,
                    password@,
                    now@,
                ) =~= before + (seq![chv] + norm_fold(
                    rawseq.skip(i + 1),
                    cats@,
                    playlist_id as int,
                    server_url@,
                    username@,
                    password@,
                    now@,
                )));
            },
            Err(_) => {},
        }
        i = i + 1;
    }
    proof {
        crate::json::lemma_aview_index(raws@);
    }
    assert(rawseq.skip(rawseq.len() as int) =~= Seq::<JVal>::empty());
    assert(chans_view(chans@) =~= whole);
    // category rows, in extraction order
    let mut rows: Vec<Category> = Vec::new();
    proof {
        lemma_centries_view_index(cats.entries@);
    }
    let ghost rowspec = spec_cat_rows(cats@, playlist_id as int, now@);
    let mut k: usize = 0;
    while k < cats.entries.len()
        invariant
            k <= cats.entries.len(),
            rowspec.len() == cats.entries@.len(),
            forall|j: int|
                0 <= j < cats.entries@.len() ==> rowspec[j] == (CategoryV {
                    id: None,
                    playlist_id: playlist_id as int,
                    category_id: cats.entries@[j].category_id@,
                    name: cats.entries@[j].name@,
                    content_type: cats.entries@[j].content_type@,
                    parent_id: crate::models::view_opt_int(cats.entries@[j].parent_id),
                    created_at: Some(now@),
                }),
            cats_view(rows@) =~= rowspec.take(k as int),
        decreases cats.entries.len() - k,
    {
        let e = &cats.entries[k];
        let row = Category {
            id: None,
            playlist_id,
            category_id: e.category_id.clone(),
            name: e.name.clone(),
            content_type: e.content_type.clone(),
            parent_id: e.parent_id,
            created_at: Some(now.clone()),
        };
        let ghost before = cats_view(rows@);
        let ghost rv = row@;
        rows.push(row);
        assert(cats_view(rows@) =~= before.push(rv));
        assert(rowspec.take(k + 1 as int) =~= rowspec.take(k as int).push(rowspec[k as int]));
        k = k + 1;
    }
    assert(rowspec.take(rowspec.len() as int) =~= rowspec);
    assert(cats_view(rows@) =~= rowspec);
    match store.replace_catalog(playlist_id, &rows, &chans, fault) {
        Ok(()) => {
            assert(final(store)@ =~= assoc_set(
                old(store)@,
                playlist_id as int,
                spec_json_catalog(
                    pv,
                    playlist_id as int,
                    server_url@,
                    username@,
                    password@,
                    now@,
                ),
            ));
            Ok(chans)
        },
        Err(e) => Err(e),
    }
}

/// The channel row one accepted M3U record commits as.
pub open spec fn m3u_channel(rec: M3uRecordV, pid: int, now: Seq<char>) -> ChannelV {
    ChannelV {
        id: None,
        playlist_id: pid,
        category_id: None,
        stream_id: rec.stream_id,
        name: rec.name,
        stream_type: "live"@,
        kind_name: None,
        stream_url: rec.stream_url,
        stream_icon: None,
        epg_channel_id: None,
        added: None,
        series_no: None,
        live: None,
        container_extension: None,
        custom_sid: None,
        tv_archive: None,
        direct_source: None,
        tv_archive_duration: None,
        num: None,
        plot: None,
        cast: None,
        director: None,
        genre: None,
        release_date: None,
        rating: None,
        backdrop_path: None,
        youtube_trailer: None,
        episode_run_time: None,
        cover: None,
        created_at: Some(now),
        category_name: Some(rec.category_name),
        content_type: None,
        authenticated_stream_url: None,
        is_selected: None,
    }
}

/// The channel rows of a whole M3U parse.
pub open spec fn m3u_channels(recs: Seq<M3uRecordV>, pid: int, now: Seq<char>) -> Seq<ChannelV> {
    recs.map_values(|rec: M3uRecordV| m3u_channel(rec, pid, now))
}

/// Builds the channel row of one accepted M3U record.
fn m3u_channel_exec(rec: &M3uRecord, playlist_id: i64, now: &String) -> (c: Channel)
    ensures
        c@ == m3u_channel(rec@, playlist_id as int, now@),
{
    proof {
        reveal_strlit("live");
    }
    Channel {
        id: None,
        playlist_id,
        category_id: None,
        stream_id: rec.stream_id.clone(),
        name: rec.name.clone(),
        stream_type: String::from_str("live"),
        kind_name: None,
        stream_url: rec.stream_url.clone(),
        stream_icon: None,
        epg_channel_id: None,
        added: None,
        series_no: None,
        live: None,
        container_extension: None,
        custom_sid: None,
        tv_archive: None,
        direct_source: None,
        tv_archive_duration: None,
        num: None,
        plot: None,
        cast: None,
        director: None,
        genre: None,
        release_date: None,
        rating: None,
        backdrop_path: None,
        youtube_trailer: None,
        episode_run_time: None,
        cover: None,
        created_at: Some(now.clone()),
        category_name: Some(rec.category_name.clone()),
        content_type: None,
        authenticated_stream_url: None,
        is_selected: None,
    }
}

/// Builds the channel rows of a whole M3U parse.
#[verifier::loop_isolation(false)]
fn m3u_channels_exec(recs: &Vec<M3uRecord>, playlist_id: i64, now: &String) -> (out: Vec<Channel>)
    ensures
        chans_view(out@) == m3u_channels(
            recs@.map_values(|x: M3uRecord| x@),
            playlist_id as int,
            now@,
        ),
{
    let ghost rspec = m3u_channels(
        recs@.map_values(|x: M3uRecord| x@),
        playlist_id as int,
        now@,
    );
    let mut out: Vec<Channel> = Vec::new();
    let mut i: usize = 0;
    while i < recs.len()
        invariant
            i <= recs.len(),
            rspec.len() == recs@.len(),
            forall|j: int|
                0 <= j < recs@.len() ==> rspec[j] == m3u_channel(
                    recs@[j]@,
                    playlist_id as int,
                    now@,
                ),
            chans_view(out@) =~= rspec.take(i as int),
        decreases recs.len() - i,
    {
        let c = m3u_channel_exec(&recs[i], playlist_id, now);
        let ghost before = chans_view(out@);
        let ghost cv = c@;
        out.push(c);
        assert(chans_view(out@) =~= before.push(cv));
        assert(rspec.take(i + 1 as int) =~= rspec.take(i as int).push(rspec[i as int]));
        i = i + 1;
    }
    assert(rspec.take(rspec.len() as int) =~= rspec);
    assert(chans_view(out@) =~= rspec);
    out
}

/// Ingests M3U playlist text directly, without network probing: parses it
/// and transactionally replaces the playlist's channels (its category rows
/// stay, since playlist text carries no structured category list; the
/// selected-channel pointer is deleted with the rows). `Ok(true)` commits,
/// `Ok(false)` means the text held no records and nothing was written, and
/// a missing `#EXTM3U` header fails with `InvalidFormat`, nothing written.
pub fn import_from_m3u(
    store: &mut CatalogStore,
    playlist_id: i64,
    m3u_text: &String,
    now: &String,
    fault: Option<usize>,
) -> (r: Result<bool, SyncError>)
    requires
        old(store).wf(),
    ensures
        final(store).wf(),
        match r {
            Ok(committed) => (spec_parse_m3u(m3u_text@) matches Some(recs) && if committed {
                recs.len() > 0 && final(store)@ == assoc_set(
                    old(store)@,
                    playlist_id as int,
                    PlaylistCatalogV {
                        categories: old(store).spec_catalog(playlist_id as int).categories,
                        channels: chan_put_all(
                            Seq::empty(),
                            m3u_channels(recs, playlist_id as int, now@),
                        ),
                        selected: None,
                    },
                ) && (fault matches Some(n) ==> n >= recs.len())
            } else {
                recs.len() == 0 && *final(store) == *old(store)
            }),
            Err(e) => *final(store) == *old(store) && match e {
                SyncError::InvalidFormat => spec_parse_m3u(m3u_text@) is None,
                SyncError::Storage(_) => (spec_parse_m3u(m3u_text@) matches Some(recs)
                    && recs.len() > 0 && (fault matches Some(n) && n < recs.len())),
                SyncError::AllEndpointsFailed => false,
            },
        },
{
    let cs = chars_of(m3u_text.as_str());
    let recs = match parse_m3u(cs.as_slice()) {
        Some(recs) => recs,
        None => {
            return Err(SyncError::InvalidFormat);
        },
    };
    if recs.len() == 0 {
        return Ok(false);
    }
    let chans = m3u_channels_exec(&recs, playlist_id, now);
    match store.replace_channels(playlist_id, &chans, fault) {
        Ok(()) => Ok(true),
        Err(e) => Err(e),
    }
}

/// Runs one whole catalog sync against the replies of the four candidate
/// endpoints, committing the winning payload's catalog transactionally.
/// The store is written exactly once, by the commit; every failure leaves
/// it untouched.
#[verifier::loop_isolation(false)]
pub fn sync_catalog(
    store: &mut CatalogStore,
    playlist_id: i64,
    server_url: &String,
    username: &String,
    password: &String,
    replies: &Vec<ProbeReply>,
    now: &String,
    fault: Option<usize>,
) -> (r: Result<Vec<Channel>, SyncError>)
    requires
        old(store).wf(),
        replies@.len() == 4,
    ensures
        final(store).wf(),
        ({
            let reps = replies@.map_values(|p: ProbeReply| p@);
            match chosen_endpoint(reps, 0) {
                None => (r matches Err(e) && e is AllEndpointsFailed && *final(store) == *old(
                    store,
                )),
                Some(i) => if i == 3 {
                    match spec_parse_m3u(reply_body(reps[i])) {
                        Some(recs) => if recs.len() == 0 {
                            r matches Err(e) && e is AllEndpointsFailed && *final(store) == *old(
                                store,
                            )
                        } else {
                            match r {
                                Ok(chs) => chans_view(chs@) == m3u_channels(
                                    recs,
                                    playlist_id as int,
                                    now@,
                                ) && final(store)@ == assoc_set(
                                    old(store)@,
                                    playlist_id as int,
                                    PlaylistCatalogV {
                                        categories: old(store).spec_catalog(
                                            playlist_id as int,
                                        ).categories,
                                        channels: chan_put_all(
                                            Seq::empty(),
                                            m3u_channels(recs, playlist_id as int, now@),
                                        ),
                                        selected: None,
                                    },
                                ),
                                Err(e) => e is Storage && *final(store) == *old(store) && (
                                fault matches Some(n) && n < recs.len()),
                            }
                        },
                        None => (r matches Err(e) && e is AllEndpointsFailed && *final(store)
                            == *old(store)),
                    }
                } else {
                    match spec_parse_json(reply_body(reps[i])) {
                        Some(v) => match r {
                            Ok(chs) => chans_view(chs@) == spec_json_channels(
                                v,
                                playlist_id as int,
                                server_url@,
                                username@,
                                password@,
                                now@,
                            ) && final(store)@ == assoc_set(
                                old(store)@,
                                playlist_id as int,
                                spec_json_catalog(
                                    v,
                                    playlist_id as int,
                                    server_url@,
                                    username@,
                                    password@,
                                    now@,
                                ),
                            ),
                            Err(e) => e is Storage && *final(store) == *old(store) && (
                            fault matches Some(n) && n < spec_json_channels(
                                v,
                                playlist_id as int,
                                server_url@,
                                username@,
                                password@,
                                now@,
                            ).len()),
                        },
                        None => false,
                    }
                },
            }
        }),
{
    let ghost reps = replies@.map_values(|p: ProbeReply| p@);
    assert(chosen_endpoint(reps, 0) == chosen_endpoint(reps, 0));
    let mut i: usize = 0;
    while i < 4
        invariant
            i <= 4,
            *store == *old(store),
            chosen_endpoint(reps, 0) == chosen_endpoint(reps, i as int),
        decreases 4 - i,
    {
        assert(reps[i as int] == replies@[i as int]@);
        match &replies[i] {
            ProbeReply::NetworkError => {},
            ProbeReply::Http(st, body) => {
                if 200 <= *st && *st < 300 {
                    if i == 3 {
                        // the M3U endpoint wins on status alone
                        assert(reply_wins(reps[i as int], i as int));
                        assert(chosen_endpoint(reps, 0) == Some(i as int));
                        let cs = chars_of(body.as_str());
                        let recs = match parse_m3u(cs.as_slice()) {
                            Some(recs) => recs,
                            None => {
                                return Err(SyncError::AllEndpointsFailed);
                            },
                        };
                        if recs.len() == 0 {
                            return Err(SyncError::AllEndpointsFailed);
                        }
                        let chans = m3u_channels_exec(&recs, playlist_id, now);
                        match store.replace_channels(playlist_id, &chans, fault) {
                            Ok(()) => {
                                return Ok(chans);
                            },
                            Err(e) => {
                                return Err(e);
                            },
                        }
                    } else {
                        let cs = chars_of(body.as_str());
                        match parse_json(cs.as_slice()) {
                            Some(v) => {
                                assert(reply_wins(reps[i as int], i as int));
                                assert(chosen_endpoint(reps, 0) == Some(i as int));
                                return commit_json_payload(
                                    store,
                                    playlist_id,
                                    server_url,
                                    username,
                                    password,
                                    v,
                                    now,
                                    fault,
                                );
                            },
                            None => {
                                assert(!reply_wins(reps[i as int], i as int));
                            },
                        }
                    }
                } else {
                    assert(!reply_wins(reps[i as int], i as int));
                }
            },
        }
        i = i + 1;
    }
    assert(chosen_endpoint(reps, 4) is None);
    Err(SyncError::AllEndpointsFailed)
}


/// The URL of player-dialect endpoint `k`, in fetch order: the per-kind
/// category actions for live, vod and series, then the per-kind stream
/// actions.
pub open spec fn spec_player_endpoint_url(
    k: int,
    server: Seq<char>,
    user: Seq<char>,
    pass: Seq<char>,
) -> Seq<char> {
    let base = server + "/player_api.php?username="@ + user + "&password="@ + pass;
    if k == 0 {
        base + "&action=get_live_categories"@
    } else if k == 1 {
        base + "&action=get_vod_categories"@
    } else if k == 2 {
        base + "&action=get_series_categories"@
    } else if k == 3 {
        base + "&action=get_live_streams"@
    } else if k == 4 {
        base + "&action=get_vod_streams"@
    } else {
        base + "&action=get_series"@
    }
}

/// The six player-dialect endpoint URLs, for providers that expose the
/// catalog only through per-kind actions.
pub fn player_endpoints(server_url: &String, username: &String, password: &String) -> (r: Vec<
    String,
>)
    ensures
        r@.len() == 6,
        forall|k: int| 0 <= k < 6 ==> r@[k]@ == spec_player_endpoint_url(
            k,
            server_url@,
            username@,
            password@,
        ),
{
    proof {
        reveal_strlit("/player_api.php?username=");
        reveal_strlit("&password=");
        reveal_strlit("&action=get_live_categories");
        reveal_strlit("&action=get_vod_categories");
        reveal_strlit("&action=get_series_categories");
        reveal_strlit("&action=get_live_streams");
        reveal_strlit("&action=get_vod_streams");
        reveal_strlit("&action=get_series");
    }
    let mut base = server_url.clone();
    base.append("/player_api.php?username=");
    base.append(username.as_str());
    base.append("&password=");
    base.append(password.as_str());
    let mut r: Vec<String> = Vec::new();
    let mut u0 = base.clone();
    u0.append("&action=get_live_categories");
    r.push(u0);
    let mut u1 = base.clone();
    u1.append("&action=get_vod_categories");
    r.push(u1);
    let mut u2 = base.clone();
    u2.append("&action=get_series_categories");
    r.push(u2);
    let mut u3 = base.clone();
    u3.append("&action=get_live_streams");
    r.push(u3);
    let mut u4 = base.clone();
    u4.append("&action=get_vod_streams");
    r.push(u4);
    let mut u5 = base.clone();
    u5.append("&action=get_series");
    r.push(u5);
    r
}

/// One per-kind category endpoint's contribution to the merged mapping: a
/// successful reply whose body is a JSON array folds in with its kind,
/// anything else contributes nothing.
pub open spec fn player_cat_fold(
    m: Seq<(Seq<char>, CatInfo)>,
    rep: ProbeReplyV,
    kind: Seq<char>,
) -> Seq<(Seq<char>, CatInfo)> {
    if http_success(rep) {
        match spec_parse_json(reply_body(rep)) {
            Some(JVal::Arr(a)) => crate::extract::cat_fold(m, a, kind, false),
            _ => m,
        }
    } else {
        m
    }
}

/// The merged category mapping of the three per-kind category endpoints,
/// folded in the order live, movie, series: an id served by several kinds
/// keeps the one processed last.
pub open spec fn spec_player_cats(reps: Seq<ProbeReplyV>) -> Seq<(Seq<char>, CatInfo)> {
    player_cat_fold(
        player_cat_fold(player_cat_fold(Seq::empty(), reps[0], "live"@), reps[1], "movie"@),
        reps[2],
        "series"@,
    )
}

/// One per-kind stream endpoint's contribution to the raw record list.
pub open spec fn player_chan_part(rep: ProbeReplyV, kind: Seq<char>) -> Seq<JVal> {
    if http_success(rep) {
        match spec_parse_json(reply_body(rep)) {
            Some(v) => spec_extract_channels(v, kind),
            None => Seq::empty(),
        }
    } else {
        Seq::empty()
    }
}

/// The raw records of the three per-kind stream endpoints, concatenated in
/// the order live, vod, series.
pub open spec fn spec_player_chans(reps: Seq<ProbeReplyV>) -> Seq<JVal> {
    player_chan_part(reps[3], "live"@) + player_chan_part(reps[4], "vod"@) + player_chan_part(
        reps[5],
        "series"@,
    )
}

/// Folds one per-kind category reply into the mapping.
fn player_cat_step(m: &mut CategoryMap, reply: &ProbeReply, kind: &String)
    ensures
        final(m)@ =~= player_cat_fold(old(m)@, reply@, kind@),
{
    match reply {
        ProbeReply::Http(st, body) => {
            if 200 <= *st && *st < 300 {
                let cs = chars_of(body.as_str());
                match parse_json(cs.as_slice()) {
                    Some(JsonValue::Arr(items)) => {
                        crate::extract::fold_cat_array(m, &items, kind, false);
                    },
                    _ => {},
                }
            }
        },
        ProbeReply::NetworkError => {},
    }
}

/// The elementwise view distributes over concatenation.
proof fn lemma_aview_distributes(x: Seq<JsonValue>, y: Seq<JsonValue>)
    ensures
        aview(x + y) =~= aview(x) + aview(y),
    decreases y.len(),
{
    if y.len() == 0 {
        assert(x + y =~= x);
    } else {
        lemma_aview_distributes(x, y.drop_last());
        assert((x + y).drop_last() =~= x + y.drop_last());
        assert((x + y).last() == y.last());
    }
}

/// Appends one per-kind stream reply's records.
fn player_chan_step(out: &mut Vec<JsonValue>, reply: &ProbeReply, kind: &String)
    ensures
        aview(final(out)@) =~= aview(old(out)@) + player_chan_part(reply@, kind@),
{
    match reply {
        ProbeReply::Http(st, body) => {
            if 200 <= *st && *st < 300 {
                let cs = chars_of(body.as_str());
                match parse_json(cs.as_slice()) {
                    Some(v) => {
                        let mut part = extract_channels(v, kind);
                        let ghost out_vecs = out@;
                        let ghost part_vecs = part@;
                        out.append(&mut part);
                        proof {
                            lemma_aview_distributes(out_vecs, part_vecs);
                        }
                        assert(aview(out@) =~= aview(out_vecs) + aview(part_vecs));
                    },
                    None => {
                        assert(aview(out@) + player_chan_part(reply@, kind@) =~= aview(out@));
                    },
                }
            } else {
                assert(aview(out@) + player_chan_part(reply@, kind@) =~= aview(out@));
            }
        },
        ProbeReply::NetworkError => {
            assert(aview(out@) + player_chan_part(reply@, kind@) =~= aview(out@));
        },
    }
}

/// Aggregates the player dialect's six per-kind endpoints: the category
/// replies merge into one mapping (last kind wins on an id collision, as
/// in the nested dialect), the stream replies concatenate into one raw
/// record list with each endpoint's kind injected. Endpoints are
/// independent: one that fails, answers with an error status or returns
/// unusable JSON contributes nothing, and the rest still count.
pub fn collect_player_catalog(replies: &Vec<ProbeReply>) -> (r: (CategoryMap, Vec<JsonValue>))
    requires
        replies@.len() == 6,
    ensures
        ({
            let reps = replies@.map_values(|p: ProbeReply| p@);
            r.0@ == spec_player_cats(reps) && aview(r.1@) == spec_player_chans(reps)
        }),
{
    proof {
        reveal_strlit("live");
        reveal_strlit("movie");
        reveal_strlit("series");
        reveal_strlit("vod");
    }
    let ghost reps = replies@.map_values(|p: ProbeReply| p@);
    let kind_live = String::from_str("live");
    let kind_movie = String::from_str("movie");
    let kind_series = String::from_str("series");
    let kind_vod = String::from_str("vod");
    let mut m = CategoryMap::new();
    assert(reps[0] == replies@[0]@);
    assert(reps[1] == replies@[1]@);
    assert(reps[2] == replies@[2]@);
    assert(reps[3] == replies@[3]@);
    assert(reps[4] == replies@[4]@);
    assert(reps[5] == replies@[5]@);
    player_cat_step(&mut m, &replies[0], &kind_live);
    player_cat_step(&mut m, &replies[1], &kind_movie);
    player_cat_step(&mut m, &replies[2], &kind_series);
    assert(m@ =~= spec_player_cats(reps));
    let mut out: Vec<JsonValue> = Vec::new();
    assert(aview(out@) =~= Seq::<JVal>::empty());
    player_chan_step(&mut out, &replies[3], &kind_live);
    assert(aview(out@) =~= player_chan_part(reps[3], "live"@));
    player_chan_step(&mut out, &replies[4], &kind_vod);
    player_chan_step(&mut out, &replies[5], &kind_series);
    assert(aview(out@) =~= spec_player_chans(reps));
    (m, out)
}

} // verus!
