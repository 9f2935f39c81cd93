//! Laws of the pipeline, stated and proved once over the contracts.
//!
//! Each proof function here states a property that spans several functions:
//! what a sync commits depends only on the upstream data, probing stops at
//! the first success, the category tie-break is last-kind-wins, and a
//! committed channel table never holds two rows with one stream id.

use vstd::prelude::*;

use crate::assoc::{
    assoc_lookup, lemma_assoc_set_other, lemma_assoc_set_same, assoc_set,
};
use crate::extract::{
    cat_bucket, cat_fold, cat_step, has_nested_categories, jfield_str, spec_extract_categories,
};
use crate::json::JVal;
use crate::models::{CatInfo, ChannelV};
use crate::store::{chan_put, chan_put_all, PlaylistCatalogV};
use crate::sync::{chosen_endpoint, reply_wins, spec_next_probe, ProbeDecision, ProbeReplyV};

verus! {

// ------------------------------------------------------------------
// Idempotence.
// ------------------------------------------------------------------

/// A successful sync installs, for the synced playlist, a catalog that is a
/// function of the winning payload, the credentials and the timestamp alone
/// (`sync_catalog` ensures `final(store)@ == assoc_set(old(store)@, pid,
/// committed)` with `committed` built only from those). So two syncs
/// against an unchanged upstream commit identical catalogs, whatever the
/// two stores held before.
pub proof fn lemma_sync_idempotent(
    s1: Seq<(int, PlaylistCatalogV)>,
    s2: Seq<(int, PlaylistCatalogV)>,
    pid: int,
    committed: PlaylistCatalogV,
)
    ensures
        assoc_lookup(assoc_set(s1, pid, committed), pid) == assoc_lookup(
            assoc_set(s2, pid, committed),
            pid,
        ),
        assoc_lookup(assoc_set(s1, pid, committed), pid) == Some(committed),
{
    lemma_assoc_set_same(s1, pid, committed);
    lemma_assoc_set_same(s2, pid, committed);
}

/// Replacing one playlist's catalog touches no other playlist.
pub proof fn lemma_sync_touches_one_playlist(
    s: Seq<(int, PlaylistCatalogV)>,
    pid: int,
    committed: PlaylistCatalogV,
    other: int,
)
    requires
        other != pid,
    ensures
        assoc_lookup(assoc_set(s, pid, committed), other) == assoc_lookup(s, other),
{
    lemma_assoc_set_other(s, pid, committed, other);
}

// ------------------------------------------------------------------
// Dialect fallback.
// ------------------------------------------------------------------

proof fn lemma_chosen_skip(reps: Seq<ProbeReplyV>, k: int, i: int)
    requires
        0 <= k <= i <= reps.len(),
        forall|j: int| k <= j < i ==> !reply_wins(reps[j], j),
    ensures
        chosen_endpoint(reps, k) == chosen_endpoint(reps, i),
    decreases i - k,
{
    if k < i {
        lemma_chosen_skip(reps, k + 1, i);
    }
}

/// Probing is strictly first-success: when endpoint `i` wins and none
/// before it does, `i` is the chosen dialect, every endpoint before `i`
/// draws a `TryNext` decision and `i` itself draws `UsePayload` — so an
/// orchestrator following the decisions never queries an endpoint past the
/// winner.
pub proof fn lemma_first_winner_chosen(reps: Seq<ProbeReplyV>, i: int)
    requires
        reps.len() == 4,
        0 <= i < 4,
        reply_wins(reps[i], i),
        forall|j: int| 0 <= j < i ==> !reply_wins(reps[j], j),
    ensures
        chosen_endpoint(reps, 0) == Some(i),
        forall|j: int| 0 <= j < i ==> spec_next_probe(j, reps[j]) == ProbeDecision::TryNext,
        spec_next_probe(i, reps[i]) == ProbeDecision::UsePayload,
{
    lemma_chosen_skip(reps, 0, i);
}

/// Conversely, the chosen endpoint is a winner and the least one.
pub proof fn lemma_chosen_is_first_winner(reps: Seq<ProbeReplyV>, i: int)
    requires
        chosen_endpoint(reps, 0) == Some(i),
    ensures
        0 <= i < reps.len(),
        reply_wins(reps[i], i),
        forall|j: int| 0 <= j < i ==> !reply_wins(reps[j], j),
{
    lemma_chosen_is_first_winner_from(reps, 0, i);
}

proof fn lemma_chosen_is_first_winner_from(reps: Seq<ProbeReplyV>, k: int, i: int)
    requires
        0 <= k,
        chosen_endpoint(reps, k) == Some(i),
    ensures
        k <= i < reps.len(),
        reply_wins(reps[i], i),
        forall|j: int| k <= j < i ==> !reply_wins(reps[j], j),
    decreases reps.len() - k,
{
    if k < reps.len() && !reply_wins(reps[k], k) {
        lemma_chosen_is_first_winner_from(reps, k + 1, i);
    }
}

// ------------------------------------------------------------------
// Category tie-break.
// ------------------------------------------------------------------

/// Whether one category entry validly binds `id`: a string `category_id`
/// equal to `id` beside a string `category_name`.
pub open spec fn entry_binds(e: JVal, id: Seq<char>) -> bool {
    jfield_str(e, "category_id"@) == Some(id) && jfield_str(e, "category_name"@) is Some
}

/// Whether some entry of the bucket validly binds `id`.
pub open spec fn bucket_binds(arr: Seq<JVal>, id: Seq<char>) -> bool {
    exists|k: int| 0 <= k < arr.len() && entry_binds(#[trigger] arr[k], id)
}

/// Folding a bucket with no valid binding of `id` leaves `id`'s mapping
/// untouched.
pub proof fn lemma_cat_fold_no_bind(
    m: Seq<(Seq<char>, CatInfo)>,
    arr: Seq<JVal>,
    kind: Seq<char>,
    with_parent: bool,
    id: Seq<char>,
)
    requires
        !bucket_binds(arr, id),
    ensures
        assoc_lookup(cat_fold(m, arr, kind, with_parent), id) == assoc_lookup(m, id),
    decreases arr.len(),
{
    if arr.len() > 0 {
        assert(!entry_binds(arr[0], id));
        assert forall|k: int|
            0 <= k < arr.drop_first().len() implies !entry_binds(
            #[trigger] arr.drop_first()[k],
            id,
        ) by {
            assert(arr.drop_first()[k] == arr[k + 1]);
            assert(!entry_binds(arr[k + 1], id));
        }
        let m2 = cat_step(m, arr[0], kind, with_parent);
        match (jfield_str(arr[0], "category_id"@), jfield_str(arr[0], "category_name"@)) {
            (Some(id0), Some(nm)) => {
                assert(id0 != id);
                lemma_assoc_set_other(
                    m,
                    id0,
                    CatInfo {
                        name: nm,
                        kind: kind,
                        parent: if with_parent {
                            crate::extract::jfield_int(arr[0], "parent_id"@)
                        } else {
                            None
                        },
                    },
                    id,
                );
            },
            _ => {},
        }
        lemma_cat_fold_no_bind(m2, arr.drop_first(), kind, with_parent, id);
    }
}

/// Folding a bucket that validly binds `id` resolves `id` to that bucket's
/// kind (the value of the last valid binding).
pub proof fn lemma_cat_fold_bind(
    m: Seq<(Seq<char>, CatInfo)>,
    arr: Seq<JVal>,
    kind: Seq<char>,
    with_parent: bool,
    id: Seq<char>,
)
    requires
        bucket_binds(arr, id),
    ensures
        assoc_lookup(cat_fold(m, arr, kind, with_parent), id) matches Some(info) && info.kind
            == kind,
    decreases arr.len(),
{
    let m2 = cat_step(m, arr[0], kind, with_parent);
    if bucket_binds(arr.drop_first(), id) {
        lemma_cat_fold_bind(m2, arr.drop_first(), kind, with_parent, id);
    } else {
        let k = choose|k: int| 0 <= k < arr.len() && entry_binds(#[trigger] arr[k], id);
        if k > 0 {
            assert(entry_binds(arr.drop_first()[k - 1], id));
            assert(false);
        }
        assert(entry_binds(arr[0], id));
        match (jfield_str(arr[0], "category_id"@), jfield_str(arr[0], "category_name"@)) {
            (Some(id0), Some(nm)) => {
                assert(id0 == id);
                let info = CatInfo {
                    name: nm,
                    kind: kind,
                    parent: if with_parent {
                        crate::extract::jfield_int(arr[0], "parent_id"@)
                    } else {
                        None
                    },
                };
                lemma_assoc_set_same(m, id, info);
                lemma_cat_fold_no_bind(m2, arr.drop_first(), kind, with_parent, id);
            },
            _ => {
                assert(false);
            },
        }
    }
}

/// The documented category tie-break: the kind buckets of a nested payload
/// fold in the order `live`, `movie`, `series`, and a later bucket's
/// binding of an id overwrites an earlier one. So an id bound in the
/// `movie` bucket and not in the `series` bucket resolves to kind `movie`,
/// whether or not the `live` bucket also bound it.
pub proof fn lemma_category_tiebreak_movie(v: JVal, id: Seq<char>)
    requires
        has_nested_categories(v),
        bucket_binds(cat_bucket(v, "movie"@), id),
        !bucket_binds(cat_bucket(v, "series"@), id),
    ensures
        assoc_lookup(spec_extract_categories(v), id) matches Some(info) && info.kind == "movie"@,
{
    let after_live = cat_fold(Seq::empty(), cat_bucket(v, "live"@), "live"@, true);
    let after_movie = cat_fold(after_live, cat_bucket(v, "movie"@), "movie"@, true);
    lemma_cat_fold_bind(after_live, cat_bucket(v, "movie"@), "movie"@, true, id);
    lemma_cat_fold_no_bind(after_movie, cat_bucket(v, "series"@), "series"@, true, id);
}

// ------------------------------------------------------------------
// Stream-id uniqueness of a committed channel table.
// ------------------------------------------------------------------

/// Whether a channel table holds at most one row per stream id.
pub open spec fn sids_unique(chans: Seq<ChannelV>) -> bool {
    forall|i: int, j: int|
        0 <= i < j < chans.len() ==> chans[i].stream_id != chans[j].stream_id
}

/// Every row of `chan_put(acc, c)` carries `c`'s stream id or one already
/// present in `acc`.
proof fn lemma_chan_put_sids(acc: Seq<ChannelV>, c: ChannelV)
    ensures
        forall|k: int|
            0 <= k < chan_put(acc, c).len() ==> #[trigger] chan_put(acc, c)[k].stream_id
                == c.stream_id || exists|j: int|
                0 <= j < acc.len() && #[trigger] acc[j].stream_id == chan_put(
                    acc,
                    c,
                )[k].stream_id,
    decreases acc.len(),
{
    if acc.len() == 0 {
    } else if acc[0].stream_id == c.stream_id {
        assert forall|k: int| 0 <= k < chan_put(acc, c).len() implies #[trigger] chan_put(
            acc,
            c,
        )[k].stream_id == c.stream_id || exists|j: int|
            0 <= j < acc.len() && #[trigger] acc[j].stream_id == chan_put(acc, c)[k].stream_id by {
            if k > 0 {
                assert(chan_put(acc, c)[k] == acc.drop_first()[k - 1]);
                assert(acc[k].stream_id == chan_put(acc, c)[k].stream_id);
            }
        }
    } else {
        lemma_chan_put_sids(acc.drop_first(), c);
        assert forall|k: int| 0 <= k < chan_put(acc, c).len() implies #[trigger] chan_put(
            acc,
            c,
        )[k].stream_id == c.stream_id || exists|j: int|
            0 <= j < acc.len() && #[trigger] acc[j].stream_id == chan_put(acc, c)[k].stream_id by {
            if k == 0 {
                assert(chan_put(acc, c)[0] == acc[0]);
                assert(acc[0].stream_id == chan_put(acc, c)[0].stream_id);
            } else {
                assert(chan_put(acc, c)[k] == chan_put(acc.drop_first(), c)[k - 1]);
                if chan_put(acc.drop_first(), c)[k - 1].stream_id != c.stream_id {
                    let j = choose|j: int|
                        0 <= j < acc.drop_first().len() && #[trigger] acc.drop_first()[
                            j
                        ].stream_id == chan_put(acc.drop_first(), c)[k - 1].stream_id;
                    assert(acc[j + 1].stream_id == chan_put(acc, c)[k].stream_id);
                }
            }
        }
    }
}

/// Inserting one row preserves stream-id uniqueness.
proof fn lemma_chan_put_unique(acc: Seq<ChannelV>, c: ChannelV)
    requires
        sids_unique(acc),
    ensures
        sids_unique(chan_put(acc, c)),
    decreases acc.len(),
{
    if acc.len() == 0 {
    } else if acc[0].stream_id == c.stream_id {
        assert forall|i: int, j: int|
            0 <= i < j < chan_put(acc, c).len() implies chan_put(acc, c)[i].stream_id != chan_put(
            acc,
            c,
        )[j].stream_id by {
            assert(chan_put(acc, c)[j] == acc.drop_first()[j - 1]);
            assert(acc.drop_first()[j - 1] == acc[j]);
            if i > 0 {
                assert(chan_put(acc, c)[i] == acc[i]);
            }
        }
    } else {
        assert(sids_unique(acc.drop_first())) by {
            assert forall|i: int, j: int|
                0 <= i < j < acc.drop_first().len() implies acc.drop_first()[i].stream_id
                != acc.drop_first()[j].stream_id by {
                assert(acc.drop_first()[i] == acc[i + 1]);
                assert(acc.drop_first()[j] == acc[j + 1]);
            }
        }
        lemma_chan_put_unique(acc.drop_first(), c);
        lemma_chan_put_sids(acc.drop_first(), c);
        assert forall|i: int, j: int|
            0 <= i < j < chan_put(acc, c).len() implies chan_put(acc, c)[i].stream_id != chan_put(
            acc,
            c,
        )[j].stream_id by {
            if i == 0 {
                assert(chan_put(acc, c)[0] == acc[0]);
                assert(chan_put(acc, c)[j] == chan_put(acc.drop_first(), c)[j - 1]);
                if chan_put(acc.drop_first(), c)[j - 1].stream_id == c.stream_id {
                } else {
                    let w = choose|w: int|
                        0 <= w < acc.drop_first().len() && #[trigger] acc.drop_first()[
                            w
                        ].stream_id == chan_put(acc.drop_first(), c)[j - 1].stream_id;
                    assert(acc.drop_first()[w] == acc[w + 1]);
                }
            } else {
                assert(chan_put(acc, c)[i] == chan_put(acc.drop_first(), c)[i - 1]);
                assert(chan_put(acc, c)[j] == chan_put(acc.drop_first(), c)[j - 1]);
            }
        }
    }
}

/// The invariant of every committed catalog: the channel table that a
/// replace operation installs holds at most one row per stream id, whatever
/// duplicates the normalized batch carried.
pub proof fn lemma_committed_stream_ids_unique(cs: Seq<ChannelV>)
    ensures
        sids_unique(chan_put_all(Seq::empty(), cs)),
{
    lemma_chan_put_all_unique(Seq::empty(), cs);
}

proof fn lemma_chan_put_all_unique(acc: Seq<ChannelV>, cs: Seq<ChannelV>)
    requires
        sids_unique(acc),
    ensures
        sids_unique(chan_put_all(acc, cs)),
    decreases cs.len(),
{
    if cs.len() > 0 {
        lemma_chan_put_unique(acc, cs[0]);
        lemma_chan_put_all_unique(chan_put(acc, cs[0]), cs.drop_first());
    }
}

} // verus!
