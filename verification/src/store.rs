//! The catalog store: the relational state the pipeline commits into.
//!
//! One entry per playlist holds its category rows, its channel rows and the
//! optional selected-channel pointer. Channel rows are keyed by stream id
//! within a playlist (a later insert of the same id replaces the earlier
//! row), and the selected pointer always names an existing channel —
//! replacing a catalog wholesale deletes the pointer with the rows it
//! pointed into. The replace operations are transactional: a simulated
//! storage fault on any channel insert leaves the store untouched.

use vstd::prelude::*;

use crate::assoc::{
    assoc_lookup, assoc_set, lemma_assoc_lookup_absent, lemma_assoc_lookup_found,
    lemma_assoc_set_absent, lemma_assoc_set_found,
};
use crate::models::{Category, CategoryV, Channel, ChannelV, SyncError};

verus! {

/// The catalog of one playlist.
pub struct PlaylistCatalog {
    pub playlist_id: i64,
    pub categories: Vec<Category>,
    pub channels: Vec<Channel>,
    pub selected_stream: Option<String>,
}

/// The ghost catalog of one playlist.
pub struct PlaylistCatalogV {
    pub categories: Seq<CategoryV>,
    pub channels: Seq<ChannelV>,
    pub selected: Option<Seq<char>>,
}

/// The ghost values of a category row vector, elementwise.
pub open spec fn cats_view(s: Seq<Category>) -> Seq<CategoryV> {
    s.map_values(|c: Category| c@)
}

/// The ghost values of a channel row vector, elementwise.
pub open spec fn chans_view(s: Seq<Channel>) -> Seq<ChannelV> {
    s.map_values(|c: Channel| c@)
}

impl View for PlaylistCatalog {
    type V = PlaylistCatalogV;

    open spec fn view(&self) -> PlaylistCatalogV {
        PlaylistCatalogV {
            categories: cats_view(self.categories@),
            channels: chans_view(self.channels@),
            selected: crate::models::view_opt_str(self.selected_stream),
        }
    }
}

/// The in-memory transactional store.
pub struct CatalogStore {
    pub playlists: Vec<PlaylistCatalog>,
}

/// The ghost table of the store: playlist id to catalog, in insertion order.
pub open spec fn store_view(s: Seq<PlaylistCatalog>) -> Seq<(int, PlaylistCatalogV)>
    decreases s,
{
    if s.len() == 0 {
        Seq::empty()
    } else {
        store_view(s.drop_last()).push((s.last().playlist_id as int, s.last()@))
    }
}

pub proof fn lemma_store_view_index(s: Seq<PlaylistCatalog>)
    ensures
        store_view(s).len() == s.len(),
        forall|k: int|
            0 <= k < s.len() ==> store_view(s)[k] == (s[k].playlist_id as int, s[k]@),
    decreases s.len(),
{
    if s.len() > 0 {
        lemma_store_view_index(s.drop_last());
    }
}

impl View for CatalogStore {
    type V = Seq<(int, PlaylistCatalogV)>;

    open spec fn view(&self) -> Seq<(int, PlaylistCatalogV)> {
        store_view(self.playlists@)
    }
}

/// Whether one catalog is internally consistent: a selected pointer names
/// an existing channel.
pub open spec fn catalog_wf(c: PlaylistCatalogV) -> bool {
    match c.selected {
        Some(s) => exists|k: int| 0 <= k < c.channels.len() && c.channels[k].stream_id == s,
        None => true,
    }
}

/// The channel table with `c` inserted: the first row with the same stream
/// id is replaced in place, otherwise the row is appended.
pub open spec fn chan_put(acc: Seq<ChannelV>, c: ChannelV) -> Seq<ChannelV>
    decreases acc.len(),
{
    if acc.len() == 0 {
        seq![c]
    } else if acc[0].stream_id == c.stream_id {
        seq![c] + acc.drop_first()
    } else {
        seq![acc[0]] + chan_put(acc.drop_first(), c)
    }
}

/// The channel table after inserting every row of `cs` in order.
pub open spec fn chan_put_all(acc: Seq<ChannelV>, cs: Seq<ChannelV>) -> Seq<ChannelV>
    decreases cs.len(),
{
    if cs.len() == 0 {
        acc
    } else {
        chan_put_all(chan_put(acc, cs[0]), cs.drop_first())
    }
}

pub proof fn lemma_chan_put_found(acc: Seq<ChannelV>, c: ChannelV, m: int)
    requires
        0 <= m < acc.len(),
        acc[m].stream_id == c.stream_id,
        forall|j: int| 0 <= j < m ==> acc[j].stream_id != c.stream_id,
    ensures
        chan_put(acc, c) =~= acc.update(m, c),
    decreases m,
{
    if m == 0 {
    } else {
        lemma_chan_put_found(acc.drop_first(), c, m - 1);
        assert(acc.drop_first().update(m - 1, c) =~= acc.update(m, c).drop_first());
    }
}

pub proof fn lemma_chan_put_absent(acc: Seq<ChannelV>, c: ChannelV)
    requires
        forall|j: int| 0 <= j < acc.len() ==> acc[j].stream_id != c.stream_id,
    ensures
        chan_put(acc, c) =~= acc.push(c),
    decreases acc.len(),
{
    if acc.len() == 0 {
    } else {
        lemma_chan_put_absent(acc.drop_first(), c);
        assert(acc.drop_first().push(c) =~= acc.push(c).drop_first());
    }
}

/// The distinct category names of the channel rows at or after `i`, with
/// `acc` the names already seen, in first-appearance order.
pub open spec fn distinct_names(chans: Seq<ChannelV>, i: int, acc: Seq<Seq<char>>) -> Seq<
    Seq<char>,
>
    decreases chans.len() - i,
{
    if i < 0 || i >= chans.len() {
        acc
    } else {
        match chans[i].category_name {
            Some(n) => if acc.contains(n) {
                distinct_names(chans, i + 1, acc)
            } else {
                distinct_names(chans, i + 1, acc.push(n))
            },
            None => distinct_names(chans, i + 1, acc),
        }
    }
}

/// The first channel with the given stream id.
pub open spec fn first_chan_with(chans: Seq<ChannelV>, sid: Seq<char>) -> Option<ChannelV>
    decreases chans.len(),
{
    if chans.len() == 0 {
        None
    } else if chans[0].stream_id == sid {
        Some(chans[0])
    } else {
        first_chan_with(chans.drop_first(), sid)
    }
}

pub proof fn lemma_first_chan_found(chans: Seq<ChannelV>, sid: Seq<char>, m: int)
    requires
        0 <= m < chans.len(),
        chans[m].stream_id == sid,
        forall|j: int| 0 <= j < m ==> chans[j].stream_id != sid,
    ensures
        first_chan_with(chans, sid) == Some(chans[m]),
    decreases m,
{
    if m == 0 {
    } else {
        lemma_first_chan_found(chans.drop_first(), sid, m - 1);
    }
}

pub proof fn lemma_first_chan_absent(chans: Seq<ChannelV>, sid: Seq<char>)
    requires
        forall|j: int| 0 <= j < chans.len() ==> chans[j].stream_id != sid,
    ensures
        first_chan_with(chans, sid) is None,
    decreases chans.len(),
{
    if chans.len() == 0 {
    } else {
        lemma_first_chan_absent(chans.drop_first(), sid);
    }
}

/// Inserts one channel row, replacing the first row with its stream id.
#[verifier::loop_isolation(false)]
fn put_channel(chans: &mut Vec<Channel>, c: Channel)
    ensures
        chans_view(final(chans)@) =~= chan_put(chans_view(old(chans)@), c@),
{
    let ghost cseq = chans_view(chans@);
    let ghost cv = c@;
    let mut i: usize = 0;
    while i < chans.len()
        invariant
            i <= chans.len(),
            cseq == chans_view(chans@),
            forall|j: int| 0 <= j < i ==> cseq[j].stream_id != cv.stream_id,
        decreases chans.len() - i,
    {
        assert(cseq[i as int] == chans@[i as int]@);
        if chans[i].stream_id.eq(&c.stream_id) {
            proof {
                lemma_chan_put_found(cseq, cv, i as int);
            }
            chans.set(i, c);
            assert(chans_view(chans@) =~= cseq.update(i as int, cv));
            return ;
        }
        i = i + 1;
    }
    proof {
        lemma_chan_put_absent(cseq, cv);
    }
    chans.push(c);
    assert(chans_view(chans@) =~= cseq.push(cv));
}

impl CatalogStore {
    /// Whether the store is consistent: playlist ids are unique and every
    /// selected pointer names an existing channel.
    pub open spec fn wf(&self) -> bool {
        &&& forall|i: int, j: int|
            0 <= i < j < self@.len() ==> self@[i].0 != self@[j].0
        &&& forall|i: int| 0 <= i < self@.len() ==> catalog_wf(#[trigger] self@[i].1)
    }

    /// An empty store.
    pub fn new() -> (r: CatalogStore)
        ensures
            r@ =~= Seq::<(int, PlaylistCatalogV)>::empty(),
            r.wf(),
    {
        let r = CatalogStore { playlists: Vec::new() };
        proof {
            lemma_store_view_index(r.playlists@);
        }
        r
    }

    /// Finds a playlist's position in the table.
    #[verifier::loop_isolation(false)]
    fn find_pid(&self, playlist_id: i64) -> (r: Option<usize>)
        ensures
            match r {
                Some(idx) => idx < self.playlists@.len() && self.playlists@[idx as int].playlist_id
                    == playlist_id && assoc_lookup(self@, playlist_id as int) == Some(
                    self.playlists@[idx as int]@,
                ) && (forall|j: int|
                    0 <= j < idx ==> self.playlists@[j].playlist_id != playlist_id),
                None => assoc_lookup(self@, playlist_id as int) is None && (forall|j: int|
                    0 <= j < self.playlists@.len() ==> self.playlists@[j].playlist_id
                        != playlist_id),
            },
    {
        let ghost sseq = store_view(self.playlists@);
        proof {
            lemma_store_view_index(self.playlists@);
        }
        let mut i: usize = 0;
        while i < self.playlists.len()
            invariant
                i <= self.playlists.len(),
                forall|j: int| 0 <= j < i ==> sseq[j].0 != playlist_id as int,
                forall|j: int| 0 <= j < i ==> self.playlists@[j].playlist_id != playlist_id,
            decreases self.playlists.len() - i,
        {
            assert(sseq[i as int] == (
                self.playlists@[i as int].playlist_id as int,
                self.playlists@[i as int]@,
            ));
            if self.playlists[i].playlist_id == playlist_id {
                proof {
                    lemma_assoc_lookup_found(sseq, playlist_id as int, i as int);
                }
                return Some(i);
            }
            i = i + 1;
        }
        proof {
            lemma_assoc_lookup_absent(sseq, playlist_id as int);
        }
        None
    }

    /// The catalog bound to a playlist id, or the empty one.
    pub open spec fn spec_catalog(&self, pid: int) -> PlaylistCatalogV {
        match assoc_lookup(self@, pid) {
            Some(pc) => pc,
            None => PlaylistCatalogV {
                categories: Seq::empty(),
                channels: Seq::empty(),
                selected: None,
            },
        }
    }

    /// Replaces one playlist's whole catalog in a single transaction:
    /// existing categories, channels and the selected pointer are deleted,
    /// the new rows inserted. A simulated storage fault on the `n`-th
    /// channel insert rolls the whole transaction back.
    #[verifier::loop_isolation(false)]
    pub fn replace_catalog(
        &mut self,
        playlist_id: i64,
        cats: &Vec<Category>,
        chans: &Vec<Channel>,
        fault: Option<usize>,
    ) -> (r: Result<(), SyncError>)
        requires
            old(self).wf(),
        ensures
            final(self).wf(),
            match r {
                Ok(()) => final(self)@ =~= assoc_set(
                    old(self)@,
                    playlist_id as int,
                    PlaylistCatalogV {
                        categories: cats_view(cats@),
                        channels: chan_put_all(Seq::empty(), chans_view(chans@)),
                        selected: None,
                    },
                ) && (fault matches Some(n) ==> n >= chans@.len()),
                Err(e) => *final(self) == *old(self) && e is Storage && (fault matches Some(n)
                    && n < chans@.len()),
            },
    {
        proof {
            reveal_strlit("simulated fault during channel insert");
        }
        // build the new row vectors first; nothing is committed on failure
        let mut new_chans: Vec<Channel> = Vec::new();
        let ghost chseq = chans_view(chans@);
        let mut k: usize = 0;
        while k < chans.len()
            invariant
                k <= chans.len(),
                chans_view(new_chans@) =~= chan_put_all(Seq::empty(), chseq.take(k as int)),
                fault matches Some(n) ==> n >= k,
                *self == *old(self),
            decreases chans.len() - k,
        {
            match fault {
                Some(n) => {
                    if n == k {
                        return Err(
                            SyncError::Storage(
                                String::from_str("simulated fault during channel insert"),
                            ),
                        );
                    }
                },
                None => {},
            }
            assert(chseq[k as int] == chans@[k as int]@);
            put_channel(&mut new_chans, chans[k].clone());
            proof {
                lemma_chan_put_all_snoc(chseq, k as int);
            }
            k = k + 1;
        }
        assert(chseq.take(chans@.len() as int) =~= chseq);
        let mut new_cats: Vec<Category> = Vec::new();
        let mut k2: usize = 0;
        while k2 < cats.len()
            invariant
                k2 <= cats.len(),
                cats_view(new_cats@) =~= cats_view(cats@).take(k2 as int),
                chans_view(new_chans@) =~= chan_put_all(Seq::empty(), chseq),
                *self == *old(self),
            decreases cats.len() - k2,
        {
            new_cats.push(cats[k2].clone());
            assert(cats_view(cats@).take(k2 + 1 as int) =~= cats_view(cats@).take(k2 as int).push(
                cats@[k2 as int]@,
            ));
            assert(cats_view(new_cats@) =~= cats_view(new_cats@.drop_last()).push(
                new_cats@.last()@,
            ));
            k2 = k2 + 1;
        }
        assert(cats_view(cats@).take(cats@.len() as int) =~= cats_view(cats@));
        let newpc = PlaylistCatalog {
            playlist_id,
            categories: new_cats,
            channels: new_chans,
            selected_stream: None,
        };
        self.commit_entry(newpc);
        Ok(())
    }

    /// Replaces one playlist's channels (and deletes its selected pointer)
    /// while keeping its category rows: the M3U import path, where no
    /// structured category list exists.
    #[verifier::loop_isolation(false)]
    pub fn replace_channels(
        &mut self,
        playlist_id: i64,
        chans: &Vec<Channel>,
        fault: Option<usize>,
    ) -> (r: Result<(), SyncError>)
        requires
            old(self).wf(),
        ensures
            final(self).wf(),
            match r {
                Ok(()) => final(self)@ =~= assoc_set(
                    old(self)@,
                    playlist_id as int,
                    PlaylistCatalogV {
                        categories: old(self).spec_catalog(playlist_id as int).categories,
                        channels: chan_put_all(Seq::empty(), chans_view(chans@)),
                        selected: None,
                    },
                ) && (fault matches Some(n) ==> n >= chans@.len()),
                Err(e) => *final(self) == *old(self) && e is Storage && (fault matches Some(n)
                    && n < chans@.len()),
            },
    {
        proof {
            reveal_strlit("simulated fault during channel insert");
        }
        let mut new_chans: Vec<Channel> = Vec::new();
        let ghost chseq = chans_view(chans@);
        let mut k: usize = 0;
        while k < chans.len()
            invariant
                k <= chans.len(),
                chans_view(new_chans@) =~= chan_put_all(Seq::empty(), chseq.take(k as int)),
                fault matches Some(n) ==> n >= k,
                *self == *old(self),
            decreases chans.len() - k,
        {
            match fault {
                Some(n) => {
                    if n == k {
                        return Err(
                            SyncError::Storage(
                                String::from_str("simulated fault during channel insert"),
                            ),
                        );
                    }
                },
                None => {},
            }
            assert(chseq[k as int] == chans@[k as int]@);
            put_channel(&mut new_chans, chans[k].clone());
            proof {
                lemma_chan_put_all_snoc(chseq, k as int);
            }
            k = k + 1;
        }
        assert(chseq.take(chans@.len() as int) =~= chseq);
        // keep the existing categories of the playlist
        let mut old_cats: Vec<Category> = Vec::new();
        match self.find_pid(playlist_id) {
            Some(idx) => {
                let pc = &self.playlists[idx];
                let mut k2: usize = 0;
                while k2 < pc.categories.len()
                    invariant
                        k2 <= pc.categories.len(),
                        cats_view(old_cats@) =~= cats_view(pc.categories@).take(k2 as int),
                    decreases pc.categories.len() - k2,
                {
                    old_cats.push(pc.categories[k2].clone());
                    assert(cats_view(pc.categories@).take(k2 + 1 as int) =~= cats_view(
                        pc.categories@,
                    ).take(k2 as int).push(pc.categories@[k2 as int]@));
                    assert(cats_view(old_cats@) =~= cats_view(old_cats@.drop_last()).push(
                        old_cats@.last()@,
                    ));
                    k2 = k2 + 1;
                }
                assert(cats_view(pc.categories@).take(pc.categories@.len() as int) =~= cats_view(
                    pc.categories@,
                ));
                assert(cats_view(old_cats@) =~= old(self).spec_catalog(
                    playlist_id as int,
                ).categories);
            },
            None => {
                assert(cats_view(old_cats@) =~= old(self).spec_catalog(
                    playlist_id as int,
                ).categories);
            },
        }
        let newpc = PlaylistCatalog {
            playlist_id,
            categories: old_cats,
            channels: new_chans,
            selected_stream: None,
        };
        self.commit_entry(newpc);
        Ok(())
    }

    /// Installs one playlist's new catalog entry in place.
    #[verifier::loop_isolation(false)]
    fn commit_entry(&mut self, newpc: PlaylistCatalog)
        requires
            old(self).wf(),
            catalog_wf(newpc@),
        ensures
            final(self).wf(),
            final(self)@ =~= assoc_set(old(self)@, newpc.playlist_id as int, newpc@),
    {
        let ghost sseq = store_view(self.playlists@);
        let ghost pidv = newpc.playlist_id as int;
        let ghost pcv = newpc@;
        proof {
            lemma_store_view_index(self.playlists@);
        }
        match self.find_pid(newpc.playlist_id) {
            Some(idx) => {
                proof {
                    lemma_assoc_set_found(sseq, pidv, pcv, idx as int);
                }
                self.playlists.set(idx, newpc);
                proof {
                    lemma_store_view_index(self.playlists@);
                }
                assert(store_view(self.playlists@) =~= sseq.update(idx as int, (pidv, pcv)));
                proof {
                    let newview = store_view(self.playlists@);
                    assert forall|i: int| 0 <= i < newview.len() implies catalog_wf(
                        #[trigger] newview[i].1,
                    ) by {
                        if i != idx as int {
                            assert(newview[i] == sseq[i]);
                            assert(catalog_wf(old(self)@[i].1));
                        }
                    }
                    assert forall|i: int, j: int|
                        0 <= i < j < newview.len() implies newview[i].0 != newview[j].0 by {
                        assert(sseq[idx as int].0 == pidv);
                        assert(newview[i].0 == sseq[i].0);
                        assert(newview[j].0 == sseq[j].0);
                        assert(old(self)@[i].0 != old(self)@[j].0);
                    }
                }
            },
            None => {
                proof {
                    lemma_store_view_index(self.playlists@);
                    assert forall|j: int| 0 <= j < sseq.len() implies sseq[j].0 != pidv by {
                        assert(sseq[j] == (
                            self.playlists@[j].playlist_id as int,
                            self.playlists@[j]@,
                        ));
                        assert(self.playlists@[j].playlist_id != newpc.playlist_id);
                    }
                    lemma_assoc_set_absent(sseq, pidv, pcv);
                }
                self.playlists.push(newpc);
                proof {
                    lemma_store_view_index(self.playlists@);
                }
                assert(store_view(self.playlists@) =~= sseq.push((pidv, pcv)));
                proof {
                    let newview = store_view(self.playlists@);
                    assert forall|i: int| 0 <= i < newview.len() implies catalog_wf(
                        #[trigger] newview[i].1,
                    ) by {
                        if i < sseq.len() {
                            assert(newview[i] == sseq[i]);
                            assert(catalog_wf(old(self)@[i].1));
                        } else {
                            assert(newview[i].1 == pcv);
                        }
                    }
                    assert forall|i: int, j: int|
                        0 <= i < j < newview.len() implies newview[i].0 != newview[j].0 by {
                        if j < sseq.len() {
                            assert(old(self)@[i].0 != old(self)@[j].0);
                        } else {
                            assert(newview[j].0 == pidv);
                            assert(newview[i].0 == sseq[i].0);
                            assert(sseq[i].0 != pidv);
                        }
                    }
                }
            },
        }
    }

    /// The channel rows of one playlist, in table order.
    #[verifier::loop_isolation(false)]
    pub fn fetch_channels(&self, playlist_id: i64) -> (r: Vec<Channel>)
        ensures
            chans_view(r@) =~= self.spec_catalog(playlist_id as int).channels,
    {
        let mut r: Vec<Channel> = Vec::new();
        match self.find_pid(playlist_id) {
            Some(idx) => {
                let pc = &self.playlists[idx];
                let mut k: usize = 0;
                while k < pc.channels.len()
                    invariant
                        k <= pc.channels.len(),
                        chans_view(r@) =~= chans_view(pc.channels@).take(k as int),
                    decreases pc.channels.len() - k,
                {
                    r.push(pc.channels[k].clone());
                    assert(chans_view(pc.channels@).take(k + 1 as int) =~= chans_view(
                        pc.channels@,
                    ).take(k as int).push(pc.channels@[k as int]@));
                    assert(chans_view(r@) =~= chans_view(r@.drop_last()).push(r@.last()@));
                    k = k + 1;
                }
                assert(chans_view(pc.channels@).take(pc.channels@.len() as int) =~= chans_view(
                    pc.channels@,
                ));
            },
            None => {},
        }
        r
    }

    /// The category rows of one playlist, in table order.
    #[verifier::loop_isolation(false)]
    pub fn fetch_categories(&self, playlist_id: i64) -> (r: Vec<Category>)
        ensures
            cats_view(r@) =~= self.spec_catalog(playlist_id as int).categories,
    {
        let mut r: Vec<Category> = Vec::new();
        match self.find_pid(playlist_id) {
            Some(idx) => {
                let pc = &self.playlists[idx];
                let mut k: usize = 0;
                while k < pc.categories.len()
                    invariant
                        k <= pc.categories.len(),
                        cats_view(r@) =~= cats_view(pc.categories@).take(k as int),
                    decreases pc.categories.len() - k,
                {
                    r.push(pc.categories[k].clone());
                    assert(cats_view(pc.categories@).take(k + 1 as int) =~= cats_view(
                        pc.categories@,
                    ).take(k as int).push(pc.categories@[k as int]@));
                    assert(cats_view(r@) =~= cats_view(r@.drop_last()).push(r@.last()@));
                    k = k + 1;
                }
                assert(cats_view(pc.categories@).take(pc.categories@.len() as int) =~= cats_view(
                    pc.categories@,
                ));
            },
            None => {},
        }
        r
    }

    /// The distinct category display names that appear in one playlist's
    /// channel rows, in first-appearance order.
    #[verifier::loop_isolation(false)]
    pub fn category_names(&self, playlist_id: i64) -> (r: Vec<String>)
        ensures
            r@.map_values(|s: String| s@) == distinct_names(
                self.spec_catalog(playlist_id as int).channels,
                0,
                Seq::empty(),
            ),
    {
        let mut r: Vec<String> = Vec::new();
        let idx = match self.find_pid(playlist_id) {
            Some(idx) => idx,
            None => {
                return r;
            },
        };
        let pc = &self.playlists[idx];
        let ghost chseq = chans_view(pc.channels@);
        assert(r@.map_values(|s: String| s@) =~= Seq::<Seq<char>>::empty());
        let mut i: usize = 0;
        while i < pc.channels.len()
            invariant
                i <= pc.channels.len(),
                chseq == chans_view(pc.channels@),
                distinct_names(chseq, 0, Seq::empty()) == distinct_names(
                    chseq,
                    i as int,
                    r@.map_values(|s: String| s@),
                ),
            decreases pc.channels.len() - i,
        {
            assert(chseq[i as int] == pc.channels@[i as int]@);
            match &pc.channels[i].category_name {
                Some(n) => {
                    let mut seen = false;
                    let mut k: usize = 0;
                    while k < r.len() && !seen
                        invariant
                            k <= r.len(),
                            seen ==> (k >= 1 && r@[k as int - 1]@ == n@),
                            !seen ==> (forall|j: int| 0 <= j < k ==> r@[j]@ != n@),
                        decreases r.len() - k,
                    {
                        if r[k].eq(n) {
                            seen = true;
                        }
                        k = k + 1;
                    }
                    let ghost names = r@.map_values(|s: String| s@);
                    proof {
                        if seen {
                            assert(names[k as int - 1] == n@);
                            assert(names.contains(n@));
                        } else {
                            assert forall|j: int| 0 <= j < names.len() implies names[j] != n@ by {
                                assert(names[j] == r@[j]@);
                            }
                            assert(!names.contains(n@));
                        }
                    }
                    if !seen {
                        let ghost before = r@.map_values(|s: String| s@);
                        r.push(n.clone());
                        assert(r@.map_values(|s: String| s@) =~= before.push(n@));
                    }
                },
                None => {},
            }
            i = i + 1;
        }
        r
    }

    /// Points the playlist's selection at the channel with the given stream
    /// id. Succeeds exactly when the playlist holds such a channel; on
    /// failure nothing changes.
    #[verifier::loop_isolation(false)]
    pub fn set_selected_channel(&mut self, playlist_id: i64, stream_id: &String) -> (ok: bool)
        requires
            old(self).wf(),
        ensures
            final(self).wf(),
            ok == (first_chan_with(
                old(self).spec_catalog(playlist_id as int).channels,
                stream_id@,
            ) is Some),
            ok ==> final(self)@ =~= assoc_set(
                old(self)@,
                playlist_id as int,
                PlaylistCatalogV {
                    categories: old(self).spec_catalog(playlist_id as int).categories,
                    channels: old(self).spec_catalog(playlist_id as int).channels,
                    selected: Some(stream_id@),
                },
            ),
            !ok ==> *final(self) == *old(self),
    {
        let idx = match self.find_pid(playlist_id) {
            Some(idx) => idx,
            None => {
                return false;
            },
        };
        let ghost chseq = chans_view(self.playlists@[idx as int].channels@);
        // does the channel exist?
        let found = {
            let pc = &self.playlists[idx];
            let mut k: usize = 0;
            let mut found = false;
            while k < pc.channels.len() && !found
                invariant
                    k <= pc.channels.len(),
                    chseq == chans_view(pc.channels@),
                    found ==> (k >= 1 && chseq[k as int - 1].stream_id == stream_id@),
                    !found ==> (forall|j: int| 0 <= j < k ==> chseq[j].stream_id != stream_id@),
                decreases pc.channels.len() - k,
            {
                assert(chseq[k as int] == pc.channels@[k as int]@);
                if pc.channels[k].stream_id.eq(stream_id) {
                    found = true;
                }
                k = k + 1;
            }
            proof {
                if found {
                    lemma_first_chan_exists(chseq, stream_id@, k as int - 1);
                } else {
                    lemma_first_chan_absent(chseq, stream_id@);
                }
            }
            found
        };
        if !found {
            return false;
        }
        let ghost sseq = store_view(self.playlists@);
        proof {
            lemma_store_view_index(self.playlists@);
        }
        let mut pc = self.playlists.remove(idx);
        pc.selected_stream = Some(stream_id.clone());
        let ghost pcv = pc@;
        self.playlists.insert(idx, pc);
        proof {
            lemma_store_view_index(self.playlists@);
            lemma_assoc_set_found(sseq, playlist_id as int, pcv, idx as int);
        }
        assert(store_view(self.playlists@) =~= sseq.update(idx as int, (playlist_id as int, pcv)));
        proof {
            let newview = store_view(self.playlists@);
            lemma_first_chan_witness(chseq, stream_id@);
            assert(pcv.channels == chseq);
            assert(catalog_wf(pcv));
            assert forall|i: int| 0 <= i < newview.len() implies catalog_wf(
                #[trigger] newview[i].1,
            ) by {
                if i != idx as int {
                    assert(newview[i] == sseq[i]);
                    assert(catalog_wf(old(self)@[i].1));
                }
            }
            assert forall|i: int, j: int| 0 <= i < j < newview.len() implies newview[i].0
                != newview[j].0 by {
                assert(sseq[idx as int].0 == playlist_id as int);
                assert(newview[i].0 == sseq[i].0);
                assert(newview[j].0 == sseq[j].0);
            }
        }
        true
    }

    /// The currently selected channel of a playlist, when one is set.
    #[verifier::loop_isolation(false)]
    pub fn get_selected_channel(&self, playlist_id: i64) -> (r: Option<Channel>)
        requires
            self.wf(),
        ensures
            match self.spec_catalog(playlist_id as int).selected {
                Some(sid) => (r matches Some(ch) && first_chan_with(
                    self.spec_catalog(playlist_id as int).channels,
                    sid,
                ) == Some(ch@)),
                None => r is None,
            },
    {
        let idx = match self.find_pid(playlist_id) {
            Some(idx) => idx,
            None => {
                return None;
            },
        };
        let pc = &self.playlists[idx];
        let sid = match &pc.selected_stream {
            Some(s) => s,
            None => {
                return None;
            },
        };
        let ghost chseq = chans_view(pc.channels@);
        proof {
            assert(assoc_lookup(self@, playlist_id as int) == Some(pc@));
            assert(catalog_wf(pc@)) by {
                lemma_store_view_index(self.playlists@);
                assert(store_view(self.playlists@)[idx as int] == (
                    pc.playlist_id as int,
                    pc@,
                ));
                assert(self@[idx as int].1 == pc@);
            }
        }
        let mut k: usize = 0;
        while k < pc.channels.len()
            invariant
                k <= pc.channels.len(),
                chseq == chans_view(pc.channels@),
                forall|j: int| 0 <= j < k ==> chseq[j].stream_id != sid@,
            decreases pc.channels.len() - k,
        {
            assert(chseq[k as int] == pc.channels@[k as int]@);
            if pc.channels[k].stream_id.eq(sid) {
                proof {
                    lemma_first_chan_found(chseq, sid@, k as int);
                }
                return Some(pc.channels[k].clone());
            }
            k = k + 1;
        }
        proof {
            lemma_first_chan_absent(chseq, sid@);
        }
        // contradicts well-formedness: the pointer always names a channel
        assert(false);
        None
    }
}

/// Inserting a prefix of rows and then one more is the same as inserting
/// the longer prefix.
pub proof fn lemma_chan_put_all_snoc(cs: Seq<ChannelV>, k: int)
    requires
        0 <= k < cs.len(),
    ensures
        chan_put_all(Seq::empty(), cs.take(k + 1)) == chan_put(
            chan_put_all(Seq::empty(), cs.take(k)),
            cs[k],
        ),
{
    lemma_chan_put_all_snoc_general(Seq::empty(), cs, k);
}

proof fn lemma_chan_put_all_snoc_general(acc: Seq<ChannelV>, cs: Seq<ChannelV>, k: int)
    requires
        0 <= k < cs.len(),
    ensures
        chan_put_all(acc, cs.take(k + 1)) == chan_put(chan_put_all(acc, cs.take(k)), cs[k]),
    decreases k,
{
    if k == 0 {
        assert(cs.take(1) =~= seq![cs[0]]);
        assert(cs.take(0) =~= Seq::<ChannelV>::empty());
        assert(chan_put_all(acc, seq![cs[0]]) == chan_put_all(
            chan_put(acc, cs[0]),
            seq![cs[0]].drop_first(),
        ));
        assert(seq![cs[0]].drop_first() =~= Seq::<ChannelV>::empty());
    } else {
        lemma_chan_put_all_snoc_general(chan_put(acc, cs[0]), cs.drop_first(), k - 1);
        assert(cs.drop_first().take(k) =~= cs.take(k + 1).drop_first());
        assert(cs.drop_first().take(k - 1) =~= cs.take(k).drop_first());
        assert(cs.drop_first()[k - 1] == cs[k]);
        assert(cs.take(k + 1)[0] == cs[0]);
        assert(cs.take(k)[0] == cs[0]);
    }
}

/// A successful first-match search exhibits a hit.
pub proof fn lemma_first_chan_witness(chans: Seq<ChannelV>, sid: Seq<char>)
    requires
        first_chan_with(chans, sid) is Some,
    ensures
        exists|k: int| 0 <= k < chans.len() && chans[k].stream_id == sid,
    decreases chans.len(),
{
    if chans[0].stream_id == sid {
        assert(chans[0].stream_id == sid);
    } else {
        lemma_first_chan_witness(chans.drop_first(), sid);
        let k = choose|k: int|
            0 <= k < chans.drop_first().len() && chans.drop_first()[k].stream_id == sid;
        assert(chans[k + 1].stream_id == sid);
    }
}

/// A found hit somewhere in the table means the first-match search
/// succeeds, wherever the hit is.
pub proof fn lemma_first_chan_exists(chans: Seq<ChannelV>, sid: Seq<char>, m: int)
    requires
        0 <= m < chans.len(),
        chans[m].stream_id == sid,
    ensures
        first_chan_with(chans, sid) is Some,
    decreases m,
{
    if chans[0].stream_id == sid {
    } else {
        lemma_first_chan_exists(chans.drop_first(), sid, m - 1);
    }
}

} // verus!
