//! Canonical data model of the catalog pipeline.
//!
//! `Channel` is the normalized, storage-ready stream record; `Category` is a
//! content grouping scoped to a playlist; `Playlist` is the configured
//! provider account the caller owns. Each executable type has a ghost mirror
//! (`ChannelV`, `CatInfo`) over `Seq<char>` and `int` that the contracts
//! speak of. The error enums follow the pipeline's recovery policy: probe
//! and record errors are absorbed locally, `SyncError` is what a caller can
//! actually see.

use vstd::prelude::*;

use crate::assoc::{
    assoc_lookup, assoc_set, lemma_assoc_lookup_absent, lemma_assoc_lookup_found,
    lemma_assoc_set_absent, lemma_assoc_set_found,
};

verus! {

/// A content grouping scoped to a playlist. `(playlist_id, category_id)`
/// identifies it; `content_type` is one of the canonical kind labels
/// `"live"`, `"movie"` and `"series"`.
pub struct Category {
    pub id: Option<i64>,
    pub playlist_id: i64,
    pub category_id: String,
    pub name: String,
    pub content_type: String,
    pub parent_id: Option<i64>,
    pub created_at: Option<String>,
}

/// The ghost mirror of [`Category`].
pub struct CategoryV {
    pub id: Option<int>,
    pub playlist_id: int,
    pub category_id: Seq<char>,
    pub name: Seq<char>,
    pub content_type: Seq<char>,
    pub parent_id: Option<int>,
    pub created_at: Option<Seq<char>>,
}

/// One playable item (live channel, movie, or series entry) in a playlist,
/// fully normalized. `(playlist_id, stream_id)` identifies it; the category
/// name is a durable snapshot taken at ingestion time; the metadata tail is
/// copied from the provider record when present and absent otherwise.
pub struct Channel {
    pub id: Option<i64>,
    pub playlist_id: i64,
    pub category_id: Option<String>,
    pub stream_id: String,
    pub name: String,
    pub stream_type: String,
    pub kind_name: Option<String>,
    pub stream_url: String,
    pub stream_icon: Option<String>,
    pub epg_channel_id: Option<String>,
    pub added: Option<String>,
    pub series_no: Option<String>,
    pub live: Option<String>,
    pub container_extension: Option<String>,
    pub custom_sid: Option<String>,
    pub tv_archive: Option<i64>,
    pub direct_source: Option<String>,
    pub tv_archive_duration: Option<i64>,
    pub num: Option<String>,
    pub plot: Option<String>,
    pub cast: Option<String>,
    pub director: Option<String>,
    pub genre: Option<String>,
    pub release_date: Option<String>,
    pub rating: Option<String>,
    pub backdrop_path: Option<Vec<String>>,
    pub youtube_trailer: Option<String>,
    pub episode_run_time: Option<String>,
    pub cover: Option<String>,
    pub created_at: Option<String>,
    pub category_name: Option<String>,
    pub content_type: Option<String>,
    pub authenticated_stream_url: Option<String>,
    pub is_selected: Option<i64>,
}

/// The ghost mirror of [`Channel`].
pub struct ChannelV {
    pub id: Option<int>,
    pub playlist_id: int,
    pub category_id: Option<Seq<char>>,
    pub stream_id: Seq<char>,
    pub name: Seq<char>,
    pub stream_type: Seq<char>,
    pub kind_name: Option<Seq<char>>,
    pub stream_url: Seq<char>,
    pub stream_icon: Option<Seq<char>>,
    pub epg_channel_id: Option<Seq<char>>,
    pub added: Option<Seq<char>>,
    pub series_no: Option<Seq<char>>,
    pub live: Option<Seq<char>>,
    pub container_extension: Option<Seq<char>>,
    pub custom_sid: Option<Seq<char>>,
    pub tv_archive: Option<int>,
    pub direct_source: Option<Seq<char>>,
    pub tv_archive_duration: Option<int>,
    pub num: Option<Seq<char>>,
    pub plot: Option<Seq<char>>,
    pub cast: Option<Seq<char>>,
    pub director: Option<Seq<char>>,
    pub genre: Option<Seq<char>>,
    pub release_date: Option<Seq<char>>,
    pub rating: Option<Seq<char>>,
    pub backdrop_path: Option<Seq<Seq<char>>>,
    pub youtube_trailer: Option<Seq<char>>,
    pub episode_run_time: Option<Seq<char>>,
    pub cover: Option<Seq<char>>,
    pub created_at: Option<Seq<char>>,
    pub category_name: Option<Seq<char>>,
    pub content_type: Option<Seq<char>>,
    pub authenticated_stream_url: Option<Seq<char>>,
    pub is_selected: Option<int>,
}

/// A configured provider account: identity, server base URL and credentials.
pub struct Playlist {
    pub id: Option<i64>,
    pub name: String,
    pub server_url: String,
    pub username: String,
    pub password: String,
    pub epg_url: Option<String>,
    pub created_at: Option<String>,
    pub updated_at: Option<String>,
    pub last_updated: Option<String>,
    pub is_active: bool,
}

/// A provider reply envelope: a status word beside the payload.
pub struct ApiResponse<T> {
    pub result: String,
    pub data: T,
}

/// The ghost value of an optional owned string.
pub open spec fn view_opt_str(o: Option<String>) -> Option<Seq<char>> {
    match o {
        Some(s) => Some(s@),
        None => None,
    }
}

/// The ghost value of an optional 64-bit integer.
pub open spec fn view_opt_int(o: Option<i64>) -> Option<int> {
    match o {
        Some(n) => Some(n as int),
        None => None,
    }
}

/// The ghost value of an optional list of strings.
pub open spec fn view_opt_str_list(o: Option<Vec<String>>) -> Option<Seq<Seq<char>>> {
    match o {
        Some(v) => Some(v@.map_values(|s: String| s@)),
        None => None,
    }
}

impl View for Category {
    type V = CategoryV;

    open spec fn view(&self) -> CategoryV {
        CategoryV {
            id: view_opt_int(self.id),
            playlist_id: self.playlist_id as int,
            category_id: self.category_id@,
            name: self.name@,
            content_type: self.content_type@,
            parent_id: view_opt_int(self.parent_id),
            created_at: view_opt_str(self.created_at),
        }
    }
}

impl View for Channel {
    type V = ChannelV;

    open spec fn view(&self) -> ChannelV {
        ChannelV {
            id: view_opt_int(self.id),
            playlist_id: self.playlist_id as int,
            category_id: view_opt_str(self.category_id),
            stream_id: self.stream_id@,
            name: self.name@,
            stream_type: self.stream_type@,
            kind_name: view_opt_str(self.kind_name),
            stream_url: self.stream_url@,
            stream_icon: view_opt_str(self.stream_icon),
            epg_channel_id: view_opt_str(self.epg_channel_id),
            added: view_opt_str(self.added),
            series_no: view_opt_str(self.series_no),
            live: view_opt_str(self.live),
            container_extension: view_opt_str(self.container_extension),
            custom_sid: view_opt_str(self.custom_sid),
            tv_archive: view_opt_int(self.tv_archive),
            direct_source: view_opt_str(self.direct_source),
            tv_archive_duration: view_opt_int(self.tv_archive_duration),
            num: view_opt_str(self.num),
            plot: view_opt_str(self.plot),
            cast: view_opt_str(self.cast),
            director: view_opt_str(self.director),
            genre: view_opt_str(self.genre),
            release_date: view_opt_str(self.release_date),
            rating: view_opt_str(self.rating),
            backdrop_path: view_opt_str_list(self.backdrop_path),
            youtube_trailer: view_opt_str(self.youtube_trailer),
            episode_run_time: view_opt_str(self.episode_run_time),
            cover: view_opt_str(self.cover),
            created_at: view_opt_str(self.created_at),
            category_name: view_opt_str(self.category_name),
            content_type: view_opt_str(self.content_type),
            authenticated_stream_url: view_opt_str(self.authenticated_stream_url),
            is_selected: view_opt_int(self.is_selected),
        }
    }
}

fn clone_opt_string(o: &Option<String>) -> (r: Option<String>)
    ensures
        r == *o,
{
    match o {
        Some(s) => Some(s.clone()),
        None => None,
    }
}

fn clone_vec_string(v: &Vec<String>) -> (r: Vec<String>)
    ensures
        r@ == v@,
{
    let mut r: Vec<String> = Vec::new();
    let mut i: usize = 0;
    while i < v.len()
        invariant
            i <= v.len(),
            r@ == v@.subrange(0, i as int),
        decreases v.len() - i,
    {
        r.push(v[i].clone());
        assert(v@.subrange(0, i + 1 as int) =~= v@.subrange(0, i as int).push(v@[i as int]));
        i = i + 1;
    }
    assert(r@ =~= v@);
    r
}

fn clone_opt_vec_string(o: &Option<Vec<String>>) -> (r: Option<Vec<String>>)
    ensures
        view_opt_str_list(r) == view_opt_str_list(*o),
{
    match o {
        Some(v) => {
            let c = clone_vec_string(v);
            Some(c)
        },
        None => None,
    }
}

impl Clone for Category {
    /// A clone carries the same ghost value.
    fn clone(&self) -> (r: Self)
        ensures
            r@ == self@,
    {
        Category {
            id: self.id,
            playlist_id: self.playlist_id,
            category_id: self.category_id.clone(),
            name: self.name.clone(),
            content_type: self.content_type.clone(),
            parent_id: self.parent_id,
            created_at: clone_opt_string(&self.created_at),
        }
    }
}

impl Clone for Channel {
    /// A clone carries the same ghost value.
    fn clone(&self) -> (r: Self)
        ensures
            r@ == self@,
    {
        Channel {
            id: self.id,
            playlist_id: self.playlist_id,
            category_id: clone_opt_string(&self.category_id),
            stream_id: self.stream_id.clone(),
            name: self.name.clone(),
            stream_type: self.stream_type.clone(),
            kind_name: clone_opt_string(&self.kind_name),
            stream_url: self.stream_url.clone(),
            stream_icon: clone_opt_string(&self.stream_icon),
            epg_channel_id: clone_opt_string(&self.epg_channel_id),
            added: clone_opt_string(&self.added),
            series_no: clone_opt_string(&self.series_no),
            live: clone_opt_string(&self.live),
            container_extension: clone_opt_string(&self.container_extension),
            custom_sid: clone_opt_string(&self.custom_sid),
            tv_archive: self.tv_archive,
            direct_source: clone_opt_string(&self.direct_source),
            tv_archive_duration: self.tv_archive_duration,
            num: clone_opt_string(&self.num),
            plot: clone_opt_string(&self.plot),
            cast: clone_opt_string(&self.cast),
            director: clone_opt_string(&self.director),
            genre: clone_opt_string(&self.genre),
            release_date: clone_opt_string(&self.release_date),
            rating: clone_opt_string(&self.rating),
            backdrop_path: clone_opt_vec_string(&self.backdrop_path),
            youtube_trailer: clone_opt_string(&self.youtube_trailer),
            episode_run_time: clone_opt_string(&self.episode_run_time),
            cover: clone_opt_string(&self.cover),
            created_at: clone_opt_string(&self.created_at),
            category_name: clone_opt_string(&self.category_name),
            content_type: clone_opt_string(&self.content_type),
            authenticated_stream_url: clone_opt_string(&self.authenticated_stream_url),
            is_selected: self.is_selected,
        }
    }
}

/// One extracted category: provider id, display name, canonical kind label,
/// optional parent.
pub struct CategoryEntry {
    pub category_id: String,
    pub name: String,
    pub content_type: String,
    pub parent_id: Option<i64>,
}

/// The ghost payload of a category binding: what the normalizer reads.
pub struct CatInfo {
    pub name: Seq<char>,
    pub kind: Seq<char>,
    pub parent: Option<int>,
}

impl View for CategoryEntry {
    type V = CatInfo;

    open spec fn view(&self) -> CatInfo {
        CatInfo {
            name: self.name@,
            kind: self.content_type@,
            parent: view_opt_int(self.parent_id),
        }
    }
}

impl Clone for CategoryEntry {
    /// A clone carries the same provider id and the same ghost value.
    fn clone(&self) -> (r: Self)
        ensures
            r@ == self@,
            r.category_id@ == self.category_id@,
    {
        CategoryEntry {
            category_id: self.category_id.clone(),
            name: self.name.clone(),
            content_type: self.content_type.clone(),
            parent_id: self.parent_id,
        }
    }
}

/// The mapping from provider category id to category data, in extraction
/// order. A later binding of an id replaces the earlier value in place.
pub struct CategoryMap {
    pub entries: Vec<CategoryEntry>,
}

/// The ghost value of a category entry vector, elementwise.
pub open spec fn centries_view(entries: Seq<CategoryEntry>) -> Seq<(Seq<char>, CatInfo)>
    decreases entries,
{
    if entries.len() == 0 {
        Seq::empty()
    } else {
        centries_view(entries.drop_last()).push(
            (entries.last().category_id@, entries.last()@),
        )
    }
}

pub proof fn lemma_centries_view_index(entries: Seq<CategoryEntry>)
    ensures
        centries_view(entries).len() == entries.len(),
        forall|k: int|
            0 <= k < entries.len() ==> centries_view(entries)[k] == (
                entries[k].category_id@,
                entries[k]@,
            ),
    decreases entries.len(),
{
    if entries.len() > 0 {
        lemma_centries_view_index(entries.drop_last());
    }
}

impl View for CategoryMap {
    type V = Seq<(Seq<char>, CatInfo)>;

    open spec fn view(&self) -> Seq<(Seq<char>, CatInfo)> {
        centries_view(self.entries@)
    }
}

impl CategoryMap {
    /// An empty mapping.
    pub fn new() -> (r: CategoryMap)
        ensures
            r@ =~= Seq::<(Seq<char>, CatInfo)>::empty(),
    {
        CategoryMap { entries: Vec::new() }
    }

    /// Binds a category id, replacing the first existing binding in place
    /// or appending a new one: a later extraction pass wins.
    #[verifier::loop_isolation(false)]
    pub fn insert(&mut self, e: CategoryEntry)
        ensures
            final(self)@ =~= assoc_set(old(self)@, e.category_id@, e@),
    {
        let ghost eseq = centries_view(self.entries@);
        let ghost kview = e.category_id@;
        let ghost vview = e@;
        proof {
            lemma_centries_view_index(self.entries@);
        }
        let mut i: usize = 0;
        while i < self.entries.len()
            invariant
                i <= self.entries.len(),
                eseq == centries_view(self.entries@),
                eseq.len() == self.entries@.len(),
                forall|k: int|
                    0 <= k < self.entries@.len() ==> eseq[k] == (
                        self.entries@[k].category_id@,
                        self.entries@[k]@,
                    ),
                forall|j: int| 0 <= j < i ==> eseq[j].0 != kview,
            decreases self.entries.len() - i,
        {
            assert(eseq[i as int] == (
                self.entries@[i as int].category_id@,
                self.entries@[i as int]@,
            ));
            if self.entries[i].category_id.eq(&e.category_id) {
                proof {
                    lemma_assoc_set_found(eseq, kview, vview, i as int);
                }
                self.entries.set(i, e);
                proof {
                    lemma_centries_view_index(self.entries@);
                }
                assert(centries_view(self.entries@) =~= eseq.update(i as int, (kview, vview)));
                return ;
            }
            i = i + 1;
        }
        proof {
            lemma_assoc_set_absent(eseq, kview, vview);
        }
        self.entries.push(e);
        proof {
            lemma_centries_view_index(self.entries@);
        }
        assert(centries_view(self.entries@) =~= eseq.push((kview, vview)));
    }

    /// Looks a category id up.
    #[verifier::loop_isolation(false)]
    pub fn lookup<'a>(&'a self, id: &String) -> (r: Option<&'a CategoryEntry>)
        ensures
            match r {
                Some(e) => assoc_lookup(self@, id@) == Some(e@),
                None => assoc_lookup(self@, id@) is None,
            },
    {
        let ghost eseq = centries_view(self.entries@);
        proof {
            lemma_centries_view_index(self.entries@);
        }
        let mut i: usize = 0;
        while i < self.entries.len()
            invariant
                i <= self.entries.len(),
                eseq == centries_view(self.entries@),
                eseq.len() == self.entries@.len(),
                forall|k: int|
                    0 <= k < self.entries@.len() ==> eseq[k] == (
                        self.entries@[k].category_id@,
                        self.entries@[k]@,
                    ),
                forall|j: int| 0 <= j < i ==> eseq[j].0 != id@,
            decreases self.entries.len() - i,
        {
            assert(eseq[i as int] == (
                self.entries@[i as int].category_id@,
                self.entries@[i as int]@,
            ));
            if self.entries[i].category_id.eq(id) {
                proof {
                    lemma_assoc_lookup_found(eseq, id@, i as int);
                }
                return Some(&self.entries[i]);
            }
            i = i + 1;
        }
        proof {
            lemma_assoc_lookup_absent(eseq, id@);
        }
        None
    }

    /// The number of bindings.
    pub fn len(&self) -> (n: usize)
        ensures
            n == self@.len(),
    {
        proof {
            lemma_centries_view_index(self.entries@);
        }
        self.entries.len()
    }
}

/// Why one normalized record was dropped: a required field is missing.
/// The carried name is the field in question (`"stream_id"` or `"name"`).
#[derive(Debug)]
pub enum NormalizeError {
    MissingField(String),
}

/// What a whole sync or import can report to its caller.
#[derive(Debug)]
pub enum SyncError {
    /// No candidate endpoint yielded a usable payload; nothing was written.
    AllEndpointsFailed,
    /// The transactional commit failed; the prior catalog is preserved.
    Storage(String),
    /// M3U text without the required header; nothing was written.
    InvalidFormat,
}

impl SyncError {
    /// A short human-readable description.
    pub fn message(&self) -> (r: String)
        ensures
            r@.len() > 0,
    {
        proof {
            reveal_strlit("no candidate endpoint yielded usable data");
            reveal_strlit("storage transaction failed");
            reveal_strlit("playlist text does not start with the M3U header");
        }
        match self {
            SyncError::AllEndpointsFailed => String::from_str(
                "no candidate endpoint yielded usable data",
            ),
            SyncError::Storage(_) => String::from_str("storage transaction failed"),
            SyncError::InvalidFormat => String::from_str(
                "playlist text does not start with the M3U header",
            ),
        }
    }
}

} // verus!
