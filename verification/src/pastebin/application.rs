//! Application layer: use cases over the repository port.
//!
//! What a use case decides stands in functions of its own, which take what the
//! store, the cache and the clock have said as arguments: [`draft`],
//! [`after_insert`], [`after_cache`], [`after_store`], [`after_delete`] and
//! [`after_ping`].
//! [`PasteService`] runs them over a [`PasteRepository`], a [`Cache`] and a
//! [`ViewRecorder`].

use vstd::prelude::*;
use vstd::std_specs::convert::FromSpecImpl;

use crate::cache::{Cache, NoOpCache};
use crate::clock;
use crate::pastebin::domain;
use crate::pastebin::domain::{
    Content, Paste, PasteId, PasteRepository, PasteView, RepoError, ValidationError,
};
use crate::pastebin::views;
use crate::pastebin::views::{ImmediateViewRecorder, ViewRecorder};
use crate::token;

verus! {

/// Length of an auto-generated paste id.
pub const GENERATED_ID_LEN: usize = 8;

/// Attempts at an id that is free before giving up.
pub const MAX_GENERATION_ATTEMPTS: usize = 5;

/// Errors surfaced by the application layer.
#[derive(Debug)]
pub enum ServiceError {
    Validation(ValidationError),
    NotFound,
    Conflict,
    Backend(String),
}

/// What a failure of the store is to the application.
pub open spec fn from_repo(err: RepoError) -> ServiceError {
    match err {
        RepoError::Conflict => ServiceError::Conflict,
        RepoError::Backend(cause) => ServiceError::Backend(cause),
    }
}

impl From<RepoError> for ServiceError {
    fn from(err: RepoError) -> (out: Self) {
        match err {
            RepoError::Conflict => ServiceError::Conflict,
            RepoError::Backend(cause) => ServiceError::Backend(cause),
        }
    }
}

impl FromSpecImpl<RepoError> for ServiceError {
    open spec fn obeys_from_spec() -> bool {
        true
    }

    open spec fn from_spec(err: RepoError) -> Self {
        from_repo(err)
    }
}

impl ServiceError {
    /// The text of the error.
    pub open spec fn text(self) -> Seq<char> {
        match self {
            ServiceError::Validation(v) => v.text(),
            ServiceError::NotFound => "not found"@,
            ServiceError::Conflict => "paste id already in use"@,
            ServiceError::Backend(cause) => cause@,
        }
    }

    /// Describes the error.
    pub fn message(&self) -> (s: String)
        ensures
            s@ == self.text(),
    {
        match self {
            ServiceError::Validation(v) => v.message(),
            ServiceError::NotFound => "not found".to_owned(),
            ServiceError::Conflict => "paste id already in use".to_owned(),
            ServiceError::Backend(cause) => cause.clone(),
        }
    }
}

/// Snapshot of a paste for the cache. Only non-one-shot pastes are ever cached.
#[derive(Debug, PartialEq, Eq)]
pub struct CachedPaste {
    pub id: PasteId,
    pub content: Content,
    pub syntax: Option<String>,
    pub created_at: i64,
    pub expires_at: Option<i64>,
    pub one_shot: bool,
    pub views: i64,
}

impl View for CachedPaste {
    type V = PasteView;

    open spec fn view(&self) -> PasteView {
        PasteView {
            id: self.id@,
            content: self.content@,
            syntax: domain::text_of(self.syntax),
            created_at: self.created_at,
            expires_at: self.expires_at,
            one_shot: self.one_shot,
            views: self.views,
        }
    }
}

impl Clone for CachedPaste {
    fn clone(&self) -> (r: Self)
        ensures
            r == *self,
    {
        CachedPaste {
            id: self.id.clone(),
            content: self.content.clone(),
            syntax: domain::copy_text(&self.syntax),
            created_at: self.created_at,
            expires_at: self.expires_at,
            one_shot: self.one_shot,
            views: self.views,
        }
    }
}

impl CachedPaste {
    /// The snapshot of a paste.
    pub fn from_paste(p: &Paste) -> (c: Self)
        ensures
            c@ == p@,
    {
        CachedPaste {
            id: p.id.clone(),
            content: p.content.clone(),
            syntax: domain::copy_text(&p.syntax),
            created_at: p.created_at,
            expires_at: p.expires_at,
            one_shot: p.one_shot,
            views: p.views,
        }
    }

    /// The paste as it was when the snapshot was taken.
    pub fn into_paste(self) -> (p: Paste)
        ensures
            p@ == self@,
    {
        Paste {
            id: self.id,
            content: self.content,
            syntax: self.syntax,
            created_at: self.created_at,
            expires_at: self.expires_at,
            one_shot: self.one_shot,
            views: self.views,
        }
    }
}

/// How long to cache a paste: bounded, and never beyond the paste's own expiry.
/// Returns 0 if already expired (don't cache).
pub fn cache_ttl_secs(paste: &Paste, now: i64) -> (secs: u64)
    ensures
        secs == clock::cache_ttl(paste.expires_at, now),
{
    clock::cache_ttl_at(paste.expires_at, now)
}

/// Generates a random base62 id of the given length.
pub fn generate_id(len: usize) -> (id: String)
    ensures
        id@.len() == len,
        token::plain(id@),
        token::random(id@, len as nat),
{
    token::generate(len)
}

/// A paste that has no id yet.
#[derive(Debug)]
pub struct Draft {
    pub content: Content,
    pub syntax: Option<String>,
    pub created_at: i64,
    pub expires_at: Option<i64>,
    pub one_shot: bool,
}

/// When a paste created at `created_at` expires.
pub open spec fn expiry_of(created_at: i64, ttl_seconds: Option<u64>) -> Option<i64> {
    match ttl_seconds {
        Some(secs) => Some(clock::expiry(created_at, secs) as i64),
        None => None,
    }
}

impl Draft {
    /// The paste that the draft becomes under an id.
    pub open spec fn named(self, id: Seq<char>) -> PasteView {
        PasteView {
            id,
            content: self.content@,
            syntax: domain::text_of(self.syntax),
            created_at: self.created_at,
            expires_at: self.expires_at,
            one_shot: self.one_shot,
            views: 0,
        }
    }

    /// The draft under an id: a brand-new paste.
    pub fn paste(&self, id: PasteId) -> (p: Paste)
        ensures
            p@ == self.named(id@),
    {
        Paste::new(
            id,
            self.content.clone(),
            domain::copy_text(&self.syntax),
            self.created_at,
            self.expires_at,
            self.one_shot,
        )
    }
}

/// Validates what a client wants to store.
pub fn draft(
    content: String,
    syntax: Option<String>,
    ttl_seconds: Option<u64>,
    one_shot: bool,
    created_at: i64,
) -> (out: Result<Draft, ServiceError>)
    ensures
        match out {
            Ok(d) => {
                &&& domain::content_check(content@) is Ok
                &&& d.content@ == content@
                &&& d.syntax == syntax
                &&& d.created_at == created_at
                &&& d.expires_at == expiry_of(created_at, ttl_seconds)
                &&& d.one_shot == one_shot
            },
            Err(e) => e matches ServiceError::Validation(v) && domain::content_check(content@)
                == Err::<(), ValidationError>(v),
        },
{
    match Content::parse(content) {
        Ok(content) => {
            let expires_at: Option<i64> = clock::expires_at(created_at, ttl_seconds);
            Ok(Draft { content, syntax, created_at, expires_at, one_shot })
        },
        Err(v) => Err(ServiceError::Validation(v)),
    }
}

/// What follows an attempt to insert a new paste.
#[derive(Debug)]
pub enum InsertVerdict {
    /// The paste is stored.
    Done(Paste),
    /// The id is taken: try another one.
    Retry,
    /// Give up.
    Fail(ServiceError),
}

/// Judges an attempt to insert `paste`, with so many attempts left after it.
pub fn after_insert(res: Result<(), RepoError>, paste: Paste, attempts_left: usize) -> (verdict:
    InsertVerdict)
    ensures
        verdict == match res {
            Ok(()) => InsertVerdict::Done(paste),
            Err(RepoError::Conflict) => if attempts_left > 0 {
                InsertVerdict::Retry
            } else {
                InsertVerdict::Fail(ServiceError::Conflict)
            },
            Err(RepoError::Backend(cause)) => InsertVerdict::Fail(ServiceError::Backend(cause)),
        },
{
    match res {
        Ok(()) => InsertVerdict::Done(paste),
        Err(RepoError::Conflict) => if attempts_left > 0 {
            InsertVerdict::Retry
        } else {
            InsertVerdict::Fail(ServiceError::Conflict)
        },
        Err(RepoError::Backend(cause)) => InsertVerdict::Fail(ServiceError::Backend(cause)),
    }
}

/// What follows a look into the cache.
#[derive(Debug)]
pub enum CacheVerdict {
    /// Record a view and serve the paste.
    Serve(Paste),
    /// Drop the entry, then ask the store.
    Evict,
    /// Ask the store.
    Miss,
}

/// Judges what the cache holds. Only non-one-shot pastes are ever cached, so an
/// entry that has not expired is always safe to serve.
pub fn after_cache(hit: Option<CachedPaste>, now: i64) -> (verdict: CacheVerdict)
    ensures
        match verdict {
            CacheVerdict::Serve(p) => hit is Some && p@ == hit->0@ && !clock::expired(
                hit->0.expires_at,
                now,
            ),
            CacheVerdict::Evict => hit is Some && clock::expired(hit->0.expires_at, now),
            CacheVerdict::Miss => hit is None,
        },
{
    match hit {
        Some(cached) => {
            let paste = cached.into_paste();
            if paste.is_expired(now) {
                CacheVerdict::Evict
            } else {
                CacheVerdict::Serve(paste)
            }
        },
        None => CacheVerdict::Miss,
    }
}

/// What follows a look into the store.
#[derive(Debug)]
pub enum StoreVerdict {
    /// Report the error.
    Fail(ServiceError),
    /// The paste has expired: delete it, drop it from the cache and report that it
    /// does not exist. The clean-up is best-effort.
    Purge,
    /// Burn after read: delete the paste, best-effort, and serve it.
    Burn(Paste),
    /// Cache the paste for so many seconds if the number is not zero, record a
    /// view and serve it.
    Serve { paste: Paste, cache_secs: u64 },
}

/// Judges what the store has answered. `now` decides on expiry and `ttl_now` on
/// how long the paste may be cached.
pub fn after_store(found: Result<Option<Paste>, RepoError>, now: i64, ttl_now: i64) -> (verdict:
    StoreVerdict)
    ensures
        match found {
            Err(e) => verdict == StoreVerdict::Fail(from_repo(e)),
            Ok(None) => verdict == StoreVerdict::Fail(ServiceError::NotFound),
            Ok(Some(p)) => if clock::expired(p.expires_at, now) {
                verdict == StoreVerdict::Purge
            } else if p.one_shot {
                verdict == StoreVerdict::Burn(p)
            } else {
                &&& verdict matches StoreVerdict::Serve { paste, cache_secs }
                &&& paste == p
                &&& cache_secs == clock::cache_ttl(p.expires_at, ttl_now)
            },
        },
{
    match found {
        Err(e) => StoreVerdict::Fail(ServiceError::from(e)),
        Ok(None) => StoreVerdict::Fail(ServiceError::NotFound),
        Ok(Some(paste)) => {
            if paste.is_expired(now) {
                StoreVerdict::Purge
            } else if paste.one_shot {
                StoreVerdict::Burn(paste)
            } else {
                let cache_secs: u64 = cache_ttl_secs(&paste, ttl_now);
                StoreVerdict::Serve { paste, cache_secs }
            }
        },
    }
}

/// What the answer of the store to a connectivity check comes to: success stays
/// success, and an error of the store becomes one of the service, cause and all.
pub open spec fn pinged(res: Result<(), RepoError>) -> Result<(), ServiceError> {
    match res {
        Ok(()) => Ok(()),
        Err(e) => Err(from_repo(e)),
    }
}

/// Judges the answer of the store to a connectivity check.
pub fn after_ping(res: Result<(), RepoError>) -> (out: Result<(), ServiceError>)
    ensures
        out == pinged(res),
{
    match res {
        Ok(()) => Ok(()),
        Err(e) => Err(ServiceError::from(e)),
    }
}

/// Judges the answer of the store to a deletion.
pub fn after_delete(removed: Result<bool, RepoError>) -> (out: Result<(), ServiceError>)
    ensures
        match removed {
            Ok(true) => out == Ok::<(), ServiceError>(()),
            Ok(false) => out == Err::<(), ServiceError>(ServiceError::NotFound),
            Err(e) => out == Err::<(), ServiceError>(from_repo(e)),
        },
{
    match removed {
        Ok(true) => Ok(()),
        Ok(false) => Err(ServiceError::NotFound),
        Err(e) => Err(ServiceError::from(e)),
    }
}

/// What the store, the cache and the recorder hold between two calls.
pub struct World {
    /// The stored pastes by id.
    pub pastes: Map<Seq<char>, PasteView>,
    /// What the cache may hand out, by id.
    pub cached: Map<Seq<char>, PasteView>,
    /// For how many seconds it was cached, by id.
    pub lives: Map<Seq<char>, u64>,
    /// The views noted and not yet stored, by id.
    pub noted: Map<Seq<char>, i64>,
    /// Whether the store never fails.
    pub reliable: bool,
    /// Whether the cache keeps what it is given.
    pub retains: bool,
    /// Whether the cache drops what it is told to drop.
    pub evicts: bool,
}

/// What the cache and the clock said during a fetch.
pub struct Moment {
    /// What the cache handed out.
    pub hit: Option<PasteView>,
    /// The time at which the entry of the cache was judged.
    pub cache_now: i64,
    /// Whether the cache dropped the entry if it was told to.
    pub evicted: bool,
    /// The time at which the stored paste was judged.
    pub store_now: i64,
    /// The time at which the life of a new entry of the cache was computed.
    pub ttl_now: i64,
}

/// What a fetch comes to.
pub enum Fetched {
    Served(PasteView),
    Missing,
    Broken,
}

/// The paste stored under an id.
pub open spec fn stored(pastes: Map<Seq<char>, PasteView>, id: Seq<char>) -> Option<PasteView> {
    if pastes.contains_key(id) {
        Some(pastes[id])
    } else {
        None
    }
}

/// The contents of an optional snapshot.
pub open spec fn snapshot_of(c: Option<CachedPaste>) -> Option<PasteView> {
    match c {
        Some(c) => Some(c@),
        None => None,
    }
}

/// The contents of the entries of a cache.
pub open spec fn snapshots(entries: Map<Seq<char>, CachedPaste>) -> Map<Seq<char>, PasteView> {
    entries.map_values(|c: CachedPaste| c@)
}

proof fn lemma_snapshots(entries: Map<Seq<char>, CachedPaste>, key: Seq<char>, value: CachedPaste)
    ensures
        snapshots(entries.insert(key, value)) == snapshots(entries).insert(key, value@),
        snapshots(entries.remove(key)) == snapshots(entries).remove(key),
{
    assert(snapshots(entries.insert(key, value)) =~= snapshots(entries).insert(key, value@));
    assert(snapshots(entries.remove(key)) =~= snapshots(entries).remove(key));
}

/// The cache handed out what it may, and all it must.
pub open spec fn honest_hit(w: World, id: Seq<char>, hit: Option<PasteView>) -> bool {
    &&& hit matches Some(c) ==> w.cached.contains_key(id) && w.cached[id] == c
    &&& w.retains && w.cached.contains_key(id) ==> hit is Some
}

/// Whether the cache answers the fetch.
pub open spec fn from_cache(m: Moment) -> bool {
    m.hit matches Some(c) && !clock::expired(c.expires_at, m.cache_now)
}

/// What is served: the entry of the cache if it has not expired, else the stored
/// paste if it has not expired.
pub open spec fn served(w: World, id: Seq<char>, m: Moment) -> Option<PasteView> {
    if from_cache(m) {
        m.hit
    } else {
        match stored(w.pastes, id) {
            Some(p) => if clock::expired(p.expires_at, m.store_now) {
                None
            } else {
                Some(p)
            },
            None => None,
        }
    }
}

/// What a fetch makes of the store: an expired paste is purged, a one-shot paste is
/// burned, and the view of any other paste that is served is recorded.
pub open spec fn fetch_store(pre: World, post: World, id: Seq<char>, m: Moment) -> bool {
    let view_recorded = views::counted(
        pre.pastes,
        pre.noted,
        post.pastes,
        post.noted,
        Some(id),
    );
    if from_cache(m) {
        view_recorded
    } else {
        match stored(pre.pastes, id) {
            None => post.pastes == pre.pastes && post.noted == pre.noted,
            Some(p) => if clock::expired(p.expires_at, m.store_now) || p.one_shot {
                post.pastes == pre.pastes.remove(id) && post.noted == pre.noted
            } else {
                view_recorded
            },
        }
    }
}

/// The cache is as it was.
pub open spec fn cache_kept(pre: World, post: World) -> bool {
    post.cached == pre.cached && post.lives == pre.lives
}

/// The cache was told to drop an id, which it does unless it fails.
pub open spec fn cache_dropped(pre: World, post: World, id: Seq<char>) -> bool {
    ||| post.cached == pre.cached.remove(id) && post.lives == pre.lives.remove(id)
    ||| !pre.evicts && cache_kept(pre, post)
}

/// The cache was given a paste for so many seconds, which it keeps unless it fails.
pub open spec fn cache_filled(
    pre: World,
    post: World,
    p: PasteView,
    id: Seq<char>,
    secs: u64,
) -> bool {
    ||| post.cached == pre.cached.insert(id, p) && post.lives == pre.lives.insert(id, secs)
    ||| !pre.retains && cache_kept(pre, post)
}

/// What a fetch that the cache does not answer leaves in the cache before it asks
/// the store: everything but an expired entry that was dropped.
pub open spec fn swept(pre: World, id: Seq<char>, m: Moment) -> World {
    if m.hit is Some && m.evicted {
        World { cached: pre.cached.remove(id), lives: pre.lives.remove(id), ..pre }
    } else {
        pre
    }
}

/// What a fetch makes of a cache: an expired entry and a purged paste are dropped,
/// and a paste that is served from the store and may be cached is given to it for as
/// long as it may be cached. A one-shot paste never is.
pub open spec fn fetch_cache(pre: World, post: World, id: Seq<char>, m: Moment) -> bool {
    if from_cache(m) {
        cache_kept(pre, post)
    } else {
        let rest = swept(pre, id, m);
        match stored(pre.pastes, id) {
            None => cache_kept(rest, post),
            Some(p) => if clock::expired(p.expires_at, m.store_now) {
                cache_dropped(rest, post, id)
            } else if p.one_shot || clock::cache_ttl(p.expires_at, m.ttl_now) == 0 {
                cache_kept(rest, post)
            } else {
                cache_filled(
                    rest,
                    post,
                    p,
                    id,
                    clock::cache_ttl(p.expires_at, m.ttl_now) as u64,
                )
            },
        }
    }
}

/// The times that decide are times that the clock showed: the one at which an entry
/// of the cache was judged, and those at which the stored paste was.
pub open spec fn timed(m: Moment) -> bool {
    &&& m.hit is Some ==> clock::is_reading(m.cache_now)
    &&& !from_cache(m) ==> clock::is_reading(m.store_now) && clock::is_reading(m.ttl_now)
}

/// What a fetch of a valid id does. The store that never fails stays so; of any
/// other nothing is said once it has failed.
pub open spec fn fetch_ok(pre: World, post: World, id: Seq<char>, out: Fetched, m: Moment) -> bool {
    &&& honest_hit(pre, id, m.hit)
    &&& pre.evicts ==> m.evicted
    &&& match out {
        Fetched::Served(p) => served(pre, id, m) == Some(p),
        Fetched::Missing => served(pre, id, m) is None,
        Fetched::Broken => !pre.reliable && !from_cache(m),
    }
    &&& pre.reliable ==> post.reliable && fetch_store(pre, post, id, m)
    &&& if out is Broken {
        cache_kept(swept(pre, id, m), post)
    } else {
        fetch_cache(pre, post, id, m)
    }
    &&& post.retains == pre.retains
    &&& post.evicts == pre.evicts
}

/// The cache agrees with the store: every entry is a stored paste, but for its view
/// count, and none is one-shot.
pub open spec fn consistent(w: World) -> bool {
    forall|k: Seq<char>| #[trigger]
        w.cached.contains_key(k) ==> w.pastes.contains_key(k) && views::same_but_views(
            w.cached[k],
            w.pastes[k],
        ) && !w.cached[k].one_shot
}

/// The store does not fail, and the cache drops what it is told to and agrees with
/// the store.
pub open spec fn sound(w: World) -> bool {
    w.reliable && w.evicts && consistent(w)
}

/// An id that a generator may draw.
pub open spec fn generated(id: Seq<char>) -> bool {
    id.len() == GENERATED_ID_LEN && token::plain(id) && token::random(id, GENERATED_ID_LEN as nat)
}

/// The paste is what a client has asked for: brand-new, under a generated id, and
/// created at a time that the clock showed.
pub open spec fn asked(
    p: PasteView,
    content: Seq<char>,
    syntax: Option<Seq<char>>,
    ttl_seconds: Option<u64>,
    one_shot: bool,
) -> bool {
    &&& generated(p.id)
    &&& clock::is_reading(p.created_at)
    &&& p == PasteView {
        id: p.id,
        content,
        syntax,
        created_at: p.created_at,
        expires_at: expiry_of(p.created_at, ttl_seconds),
        one_shot,
        views: 0,
    }
}

/// The store, holding these pastes, may fail to insert the paste, with this cause.
pub open spec fn insert_fails<R: PasteRepository>(
    pastes: Map<Seq<char>, PasteView>,
    p: PasteView,
    cause: String,
) -> bool {
    exists|store: &mut R, paste: Paste|
        store.pastes() == pastes && paste@ == p && #[trigger] call_ensures(
            R::insert,
            (store, &paste),
            Err(RepoError::Backend(cause)),
        )
}

/// The store may fail to look the id up, with this cause.
pub open spec fn get_fails<R: PasteRepository>(store: R, id: Seq<char>, cause: String) -> bool {
    exists|key: PasteId|
        key@ == id && #[trigger] call_ensures(
            R::get,
            (&store, &key),
            Err(RepoError::Backend(cause)),
        )
}

/// The store may fail to delete the id, with this cause.
pub open spec fn delete_fails<R: PasteRepository>(before: R, id: Seq<char>, cause: String) -> bool {
    exists|store: &mut R, key: PasteId|
        *store == before && key@ == id && #[trigger] call_ensures(
            R::delete,
            (store, &key),
            Err(RepoError::Backend(cause)),
        )
}

/// The texts of a list of ids.
pub open spec fn texts_of(ids: Seq<PasteId>) -> Seq<Seq<char>> {
    Seq::new(ids.len(), |i: int| ids[i]@)
}

/// Ids that are drawn for one paste: as many as there are attempts, each generated, and
/// each by draws of its own.
pub open spec fn candidates(ids: Seq<PasteId>) -> bool {
    &&& ids.len() == MAX_GENERATION_ATTEMPTS
    &&& forall|i: int| 0 <= i < ids.len() ==> generated((#[trigger] ids[i])@)
    &&& exists|rngs: Seq<rand::rngs::ThreadRng>| #[trigger]
        token::random_in_turn(rngs, texts_of(ids), GENERATED_ID_LEN as nat)
}

/// The ids before the `k`th are all taken.
pub open spec fn taken_before(
    pastes: Map<Seq<char>, PasteView>,
    ids: Seq<PasteId>,
    k: int,
) -> bool {
    forall|i: int| 0 <= i < k ==> pastes.contains_key((#[trigger] ids[i])@)
}

/// What comes of a draft and the ids drawn for it. The paste is stored under the
/// first id that is free; where all are taken, that is a conflict; and a failure of
/// the store, which comes at an id before which all were taken, ends the attempts.
pub open spec fn stored_under_first_free<R: PasteRepository>(
    d: Draft,
    ids: Seq<PasteId>,
    before: R,
    after: R,
    out: Result<Paste, ServiceError>,
) -> bool {
    let pastes = before.pastes();
    match out {
        Ok(p) => exists|k: int|
            {
                &&& 0 <= k < ids.len()
                &&& taken_before(pastes, ids, k)
                &&& !pastes.contains_key((#[trigger] ids[k])@)
                &&& p@ == d.named(ids[k]@)
                &&& after.pastes() == pastes.insert(ids[k]@, p@)
            },
        Err(ServiceError::Conflict) => {
            &&& taken_before(pastes, ids, ids.len() as int)
            &&& after.pastes() == pastes
        },
        Err(ServiceError::Backend(cause)) => !before.reliable() && exists|k: int|
            {
                &&& 0 <= k < ids.len()
                &&& taken_before(pastes, ids, k)
                &&& insert_fails::<R>(pastes, d.named((#[trigger] ids[k])@), cause)
            },
        Err(_) => false,
    }
}

/// The draft holds what a client has asked for, at a time that the clock showed.
pub open spec fn drafted(
    d: Draft,
    content: Seq<char>,
    syntax: Option<String>,
    ttl_seconds: Option<u64>,
    one_shot: bool,
) -> bool {
    &&& clock::is_reading(d.created_at)
    &&& d.content@ == content
    &&& d.syntax == syntax
    &&& d.expires_at == expiry_of(d.created_at, ttl_seconds)
    &&& d.one_shot == one_shot
}

/// Draws the ids for one paste.
pub fn draw_ids() -> (ids: Vec<PasteId>)
    ensures
        candidates(ids@),
{
    let drawn = token::generate_many(MAX_GENERATION_ATTEMPTS, GENERATED_ID_LEN);
    let mut ids: Vec<PasteId> = Vec::new();
    let mut n: usize = 0;
    while n < MAX_GENERATION_ATTEMPTS
        invariant
            n <= MAX_GENERATION_ATTEMPTS,
            drawn@.len() == MAX_GENERATION_ATTEMPTS,
            forall|i: int| 0 <= i < drawn@.len() ==> generated((#[trigger] drawn@[i])@),
            ids@.len() == n,
            forall|i: int| 0 <= i < ids@.len() ==> (#[trigger] ids@[i])@ == drawn@[i]@,
        decreases MAX_GENERATION_ATTEMPTS - n,
    {
        assert(generated(drawn@[n as int]@));
        ids.push(PasteId::from_trusted(drawn[n].clone()));
        n += 1;
    }
    proof {
        assert(texts_of(ids@) =~= token::texts_of(drawn@));
        assert forall|i: int| 0 <= i < ids@.len() implies generated((#[trigger] ids@[i])@) by {
            assert(generated(drawn@[i]@));
        }
    }
    ids
}

/// Use cases for creating and fetching pastes.
pub struct PasteService<R: PasteRepository, C: Cache<CachedPaste>, V: ViewRecorder<R>> {
    pub repo: R,
    /// Read-cache for the hot fetch path.
    pub cache: C,
    /// Where paste views are recorded.
    pub views: V,
}

impl<R: PasteRepository> PasteService<R, NoOpCache, ImmediateViewRecorder> {
    /// Constructs with caching disabled and one write per view.
    pub fn new(repo: R) -> (s: Self)
        ensures
            s.repo == repo,
            s.valid(),
            repo.reliable() ==> sound(s.world()),
    {
        PasteService { repo, cache: NoOpCache, views: ImmediateViewRecorder::new() }
    }
}

impl<R: PasteRepository, C: Cache<CachedPaste>> PasteService<R, C, ImmediateViewRecorder> {
    /// Constructs with an explicit cache and one write per view, which keeps counts
    /// exact.
    pub fn with_cache(repo: R, cache: C) -> (s: Self)
        ensures
            s.repo == repo,
            s.cache == cache,
            s.valid(),
    {
        PasteService { repo, cache, views: ImmediateViewRecorder::new() }
    }
}

impl<R: PasteRepository, C: Cache<CachedPaste>, V: ViewRecorder<R>> PasteService<R, C, V> {
    /// What holds of a service at all times.
    pub open spec fn valid(&self) -> bool {
        self.views.valid()
    }

    /// What the service works on.
    pub open spec fn world(&self) -> World {
        World {
            pastes: self.repo.pastes(),
            cached: snapshots(self.cache.entries()),
            lives: self.cache.lifetimes(),
            noted: self.views.noted(),
            reliable: self.repo.reliable(),
            retains: self.cache.retains(),
            evicts: self.cache.evicts(),
        }
    }

    /// Constructs with an explicit cache *and* view recorder, such as a
    /// [`views::BatchingViewRecorder`].
    pub fn with_cache_and_views(repo: R, cache: C, views: V) -> (s: Self)
        ensures
            s.repo == repo,
            s.cache == cache,
            s.views == views,
    {
        PasteService { repo, cache, views }
    }

    /// Stores a draft under the first of `ids` that is free. A clash goes on to the
    /// next id; with none left it is a conflict. Any other failure of the store is
    /// final.
    pub fn insert_first_free(&mut self, d: &Draft, ids: Vec<PasteId>) -> (out: Result<
        Paste,
        ServiceError,
    >)
        ensures
            final(self).cache == old(self).cache,
            final(self).views == old(self).views,
            old(self).repo.reliable() ==> final(self).repo.reliable(),
            stored_under_first_free(*d, ids@, old(self).repo, final(self).repo, out),
            sound(old(self).world()) ==> sound(final(self).world()),
    {
        let n: usize = ids.len();
        let mut i: usize = 0;
        while i < n
            invariant
                i <= n,
                n == ids@.len(),
                self.cache == old(self).cache,
                self.views == old(self).views,
                old(self).repo.reliable() ==> self.repo.reliable(),
                self.repo.pastes() == old(self).repo.pastes(),
                taken_before(old(self).repo.pastes(), ids@, i as int),
            decreases n - i,
        {
            let paste = d.paste(ids[i].clone());
            let ghost new = paste@;
            let res = self.repo.insert(&paste);
            assert(new == d.named(ids@[i as int]@));
            match after_insert(res, paste, n - 1 - i) {
                InsertVerdict::Done(p) => {
                    return Ok(p);
                },
                InsertVerdict::Retry => {},
                InsertVerdict::Fail(e) => {
                    assert(e matches ServiceError::Backend(cause) ==> insert_fails::<R>(
                        old(self).repo.pastes(),
                        new,
                        cause,
                    ));
                    return Err(e);
                },
            }
            i += 1;
        }
        Err(ServiceError::Conflict)
    }

    /// Creates a paste from `content`, with optional syntax hint, TTL, and
    /// burn-after-read. Ids are generated, as many as there are attempts, and the
    /// paste goes under the first that is free.
    ///
    /// A paste that is created has exactly what was asked for and zero views, under
    /// an id that was free. Content that is refused, or ids that are all taken,
    /// leave the store as it is. Nothing else fails while the store does not; a
    /// failure of the store is reported with its cause.
    pub fn create(
        &mut self,
        content: String,
        syntax: Option<String>,
        ttl_seconds: Option<u64>,
        one_shot: bool,
    ) -> (out: Result<Paste, ServiceError>)
        requires
            old(self).valid(),
        ensures
            final(self).valid(),
            final(self).cache == old(self).cache,
            final(self).views == old(self).views,
            old(self).repo.reliable() ==> final(self).repo.reliable(),
            sound(old(self).world()) ==> sound(final(self).world()),
            domain::content_check(content@) matches Err(v) ==> out == Err::<Paste, ServiceError>(
                ServiceError::Validation(v),
            ) && final(self).repo == old(self).repo,
            domain::content_check(content@) is Ok ==> exists|d: Draft, ids: Vec<PasteId>|
                {
                    &&& drafted(d, content@, syntax, ttl_seconds, one_shot)
                    &&& candidates(ids@)
                    &&& call_ensures(draw_ids, (), ids)
                    &&& #[trigger] stored_under_first_free(
                        d,
                        ids@,
                        old(self).repo,
                        final(self).repo,
                        out,
                    )
                },
            domain::content_check(content@) is Ok ==> match out {
                Ok(p) => {
                    &&& asked(p@, content@, domain::text_of(syntax), ttl_seconds, one_shot)
                    &&& !old(self).repo.pastes().contains_key(p.id@)
                    &&& final(self).repo.pastes() == old(self).repo.pastes().insert(p.id@, p@)
                },
                Err(ServiceError::Conflict) => final(self).repo.pastes() == old(
                    self,
                ).repo.pastes(),
                Err(ServiceError::Backend(_)) => !old(self).repo.reliable(),
                Err(_) => false,
            },
    {
        let d = match draft(content, syntax, ttl_seconds, one_shot, clock::now_unix()) {
            Ok(d) => d,
            Err(e) => {
                return Err(e);
            },
        };
        let ids = draw_ids();
        assert(drafted(d, content@, syntax, ttl_seconds, one_shot));
        self.insert_first_free(&d, ids)
    }

    /// Fetches a paste. Expired pastes are purged and reported as `NotFound`;
    /// a `one_shot` paste is deleted after this read (burn-after-read);
    /// otherwise a view is recorded. An invalid id cannot exist, so it maps to
    /// `NotFound`. A failure of the store is reported with its cause.
    pub fn fetch(&mut self, id: &str) -> (out: Result<Paste, ServiceError>)
        requires
            old(self).valid(),
        ensures
            final(self).valid(),
            !token::valid(id@) ==> out == Err::<Paste, ServiceError>(ServiceError::NotFound)
                && *final(self) == *old(self),
            token::valid(id@) ==> exists|m: Moment| #[trigger]
                fetch_ok(old(self).world(), final(self).world(), id@, fetched(out), m) && timed(m),
            sound(old(self).world()) ==> sound(final(self).world()),
            out matches Err(e) ==> e is NotFound || e is Backend,
            out matches Err(ServiceError::Backend(cause)) ==> get_fails(
                old(self).repo,
                id@,
                cause,
            ),
    {
        let id = match PasteId::parse(id) {
            Ok(id) => id,
            Err(_) => {
                return Err(ServiceError::NotFound);
            },
        };
        let hit = self.cache.get(id.as_str());
        let ghost pre = self.world();
        let ghost seen = snapshot_of(hit);
        let cache_now: i64 = clock::now_unix();
        let ghost mut evicted = true;
        match after_cache(hit, cache_now) {
            CacheVerdict::Serve(paste) => {
                self.views.record(&mut self.repo, &id);
                let ghost m = Moment { hit: seen, cache_now, evicted, store_now: 0, ttl_now: 0 };
                proof {
                    assert(fetch_ok(pre, self.world(), id@, Fetched::Served(paste@), m));
                    fetch_keeps_sound(pre, self.world(), id@, Fetched::Served(paste@), m);
                }
                return Ok(paste);
            },
            CacheVerdict::Evict => {
                proof {
                    lemma_snapshots(self.cache.entries(), id@, arbitrary());
                }
                self.cache.delete(id.as_str());
                proof {
                    evicted = self.world() == swept(
                        pre,
                        id@,
                        Moment { hit: seen, cache_now, evicted, store_now: 0, ttl_now: 0 },
                    );
                }
            },
            CacheVerdict::Miss => {},
        }
        let store_now: i64 = clock::now_unix();
        let ttl_now: i64 = clock::now_unix();
        let ghost m = Moment { hit: seen, cache_now, evicted, store_now, ttl_now };
        let found = self.repo.get(&id);
        match after_store(found, store_now, ttl_now) {
            StoreVerdict::Fail(e) => {
                proof {
                    assert(fetch_ok(pre, self.world(), id@, fetched(Err(e)), m));
                    fetch_keeps_sound(pre, self.world(), id@, fetched(Err(e)), m);
                }
                Err(e)
            },
            StoreVerdict::Purge => {
                let _ = self.repo.delete(&id);
                proof {
                    lemma_snapshots(self.cache.entries(), id@, arbitrary());
                }
                self.cache.delete(id.as_str());
                proof {
                    assert(fetch_ok(pre, self.world(), id@, Fetched::Missing, m));
                    fetch_keeps_sound(pre, self.world(), id@, Fetched::Missing, m);
                }
                Err(ServiceError::NotFound)
            },
            StoreVerdict::Burn(paste) => {
                let _ = self.repo.delete(&id);
                proof {
                    assert(fetch_ok(pre, self.world(), id@, Fetched::Served(paste@), m));
                    fetch_keeps_sound(pre, self.world(), id@, Fetched::Served(paste@), m);
                }
                Ok(paste)
            },
            StoreVerdict::Serve { paste, cache_secs } => {
                if cache_secs > 0 {
                    let snapshot = CachedPaste::from_paste(&paste);
                    proof {
                        lemma_snapshots(self.cache.entries(), id@, snapshot);
                    }
                    self.cache.set(id.as_str(), snapshot, cache_secs);
                }
                self.views.record(&mut self.repo, &id);
                proof {
                    assert(fetch_ok(pre, self.world(), id@, Fetched::Served(paste@), m));
                    fetch_keeps_sound(pre, self.world(), id@, Fetched::Served(paste@), m);
                }
                Ok(paste)
            },
        }
    }

    /// Deletes a paste, or `NotFound` if it does not exist. The cache drops it
    /// either way. A failure of the store is reported with its cause.
    pub fn delete(&mut self, id: &str) -> (out: Result<(), ServiceError>)
        requires
            old(self).valid(),
        ensures
            final(self).valid(),
            !token::valid(id@) ==> out == Err::<(), ServiceError>(ServiceError::NotFound)
                && *final(self) == *old(self),
            token::valid(id@) ==> deleted(
                old(self).world(),
                final(self).world(),
                id@,
                out,
            ),
            sound(old(self).world()) ==> sound(final(self).world()),
            out matches Err(ServiceError::Backend(cause)) ==> delete_fails(
                old(self).repo,
                id@,
                cause,
            ),
    {
        let id = match PasteId::parse(id) {
            Ok(id) => id,
            Err(_) => {
                return Err(ServiceError::NotFound);
            },
        };
        let res = self.repo.delete(&id);
        if res.is_ok() {
            proof {
                lemma_snapshots(self.cache.entries(), id@, arbitrary());
            }
            self.cache.delete(id.as_str());
        }
        proof {
            let pastes = old(self).repo.pastes();
            if !pastes.contains_key(id@) {
                assert(pastes.remove(id@) =~= pastes);
            }
        }
        after_delete(res)
    }

    /// Readiness check: confirms the backing store is reachable. It succeeds where
    /// the store answers a ping, and fails with the store's own error where it does
    /// not.
    pub fn ready(&self) -> (out: Result<(), ServiceError>)
        ensures
            exists|res: Result<(), RepoError>| #[trigger]
                call_ensures(R::ping, (&self.repo,), res) && out == pinged(res),
            self.repo.reliable() ==> out is Ok,
            out matches Err(e) ==> e is Backend,
    {
        after_ping(self.repo.ping())
    }
}

/// What the deletion of a valid id does.
pub open spec fn deleted(
    pre: World,
    post: World,
    id: Seq<char>,
    out: Result<(), ServiceError>,
) -> bool {
    &&& match out {
        Ok(()) => pre.pastes.contains_key(id) && post.pastes == pre.pastes.remove(id),
        Err(ServiceError::NotFound) => !pre.pastes.contains_key(id) && post.pastes == pre.pastes,
        Err(ServiceError::Backend(_)) => !pre.reliable,
        Err(_) => false,
    }
    &&& pre.reliable ==> post.reliable
    &&& if out matches Err(ServiceError::Backend(_)) {
        cache_kept(pre, post)
    } else {
        cache_dropped(pre, post, id)
    }
    &&& post.noted == pre.noted
    &&& post.retains == pre.retains
    &&& post.evicts == pre.evicts
}

/// A fetch keeps the cache in agreement with the store.
pub proof fn fetch_keeps_sound(pre: World, post: World, id: Seq<char>, out: Fetched, m: Moment)
    requires
        fetch_ok(pre, post, id, out, m),
    ensures
        sound(pre) ==> sound(post),
{
    if sound(pre) {
        assert forall|k: Seq<char>| #[trigger] post.cached.contains_key(k) implies (
        post.pastes.contains_key(k) && views::same_but_views(post.cached[k], post.pastes[k])
            && !post.cached[k].one_shot) by {
            if pre.cached.contains_key(k) {
                assert(views::same_but_views(pre.cached[k], pre.pastes[k]));
            }
            if pre.pastes.contains_key(k) && post.pastes.contains_key(k) {
                assert(views::same_but_views(post.pastes[k], pre.pastes[k]));
            }
        }
    }
}

/// What a result of a fetch comes to.
pub open spec fn fetched(out: Result<Paste, ServiceError>) -> Fetched {
    match out {
        Ok(p) => Fetched::Served(p@),
        Err(ServiceError::Backend(_)) => Fetched::Broken,
        Err(_) => Fetched::Missing,
    }
}

/// What is served is what is stored, but for the view count, and has not expired
/// when it is judged; a paste that is stored and has not expired is served.
pub proof fn fetch_serves_what_is_stored(
    pre: World,
    post: World,
    id: Seq<char>,
    out: Fetched,
    m: Moment,
)
    requires
        sound(pre),
        fetch_ok(pre, post, id, out, m),
    ensures
        out matches Fetched::Served(p) ==> {
            &&& pre.pastes.contains_key(id)
            &&& views::same_but_views(p, pre.pastes[id])
            &&& !clock::expired(p.expires_at, m.cache_now) || !clock::expired(
                p.expires_at,
                m.store_now,
            )
        },
        pre.pastes.contains_key(id) && !clock::expired(pre.pastes[id].expires_at, m.store_now)
            ==> out is Served,
        !pre.pastes.contains_key(id) ==> out is Missing,
{
    if pre.cached.contains_key(id) {
        assert(views::same_but_views(pre.cached[id], pre.pastes[id]));
    }
}

/// What has been created can be fetched: until it expires, a new paste is served
/// with the content and everything else it was created with.
pub proof fn created_paste_is_served(
    before: World,
    pre: World,
    post: World,
    p: PasteView,
    out: Fetched,
    m: Moment,
)
    requires
        sound(pre),
        pre.pastes == before.pastes.insert(p.id, p),
        !clock::expired(p.expires_at, m.store_now),
        fetch_ok(pre, post, p.id, out, m),
    ensures
        out is Served,
        views::same_but_views(out->0, p),
{
    fetch_serves_what_is_stored(pre, post, p.id, out, m);
}

/// A paste that has expired by the time it is judged is not served, and neither the
/// store nor the cache holds it afterwards.
pub proof fn expired_paste_is_purged(pre: World, post: World, id: Seq<char>, out: Fetched, m: Moment)
    requires
        sound(pre),
        pre.pastes.contains_key(id),
        clock::expired(pre.pastes[id].expires_at, m.cache_now),
        clock::expired(pre.pastes[id].expires_at, m.store_now),
        fetch_ok(pre, post, id, out, m),
    ensures
        out is Missing,
        !post.pastes.contains_key(id),
        !post.cached.contains_key(id),
{
    if pre.cached.contains_key(id) {
        assert(views::same_but_views(pre.cached[id], pre.pastes[id]));
    }
}

/// None of the pastes is one-shot.
pub open spec fn no_one_shot(pastes: Map<Seq<char>, PasteView>) -> bool {
    forall|k: Seq<char>| #[trigger] pastes.contains_key(k) ==> !pastes[k].one_shot
}

/// A one-shot paste never enters the cache, whatever the cache: a fetch that the
/// cache does not answer, and that finds one unexpired in the store, leaves the
/// cache as it is, and where none was cached before a fetch, none is after it.
pub proof fn one_shot_never_enters_the_cache(
    pre: World,
    post: World,
    id: Seq<char>,
    out: Fetched,
    m: Moment,
)
    requires
        fetch_ok(pre, post, id, out, m),
    ensures
        m.hit is None && pre.pastes.contains_key(id) && pre.pastes[id].one_shot && !clock::expired(
            pre.pastes[id].expires_at,
            m.store_now,
        ) ==> cache_kept(pre, post),
        no_one_shot(pre.cached) ==> no_one_shot(post.cached),
{
    if no_one_shot(pre.cached) {
        assert forall|k: Seq<char>| #[trigger]
            post.cached.contains_key(k) implies !post.cached[k].one_shot by {
            if pre.cached.contains_key(k) {
                assert(!pre.cached[k].one_shot);
            }
        }
    }
}

/// What is neither stored nor cached is not found, and stays so.
pub proof fn absent_paste_stays_absent(
    pre: World,
    post: World,
    id: Seq<char>,
    out: Fetched,
    m: Moment,
)
    requires
        pre.reliable,
        !pre.pastes.contains_key(id),
        !pre.cached.contains_key(id),
        fetch_ok(pre, post, id, out, m),
    ensures
        out is Missing,
        post.reliable,
        post.pastes == pre.pastes,
        post.noted == pre.noted,
        cache_kept(pre, post),
{
}

/// Each fetch of a paste starts where the one before it ended.
pub open spec fn fetched_in_turn(
    worlds: Seq<World>,
    id: Seq<char>,
    outs: Seq<Fetched>,
    moments: Seq<Moment>,
) -> bool {
    &&& worlds.len() == outs.len() + 1
    &&& moments.len() == outs.len()
    &&& forall|i: int|
        0 <= i < outs.len() ==> fetch_ok(
            worlds[i],
            worlds[i + 1],
            id,
            #[trigger] outs[i],
            moments[i],
        )
}

/// Burn after read: with any cache that does not hold it already, a one-shot paste
/// that has not expired is served once. The first fetch serves it and takes it out of
/// the store, and every later fetch finds nothing. No view of it is recorded, and it
/// never enters the cache.
pub proof fn one_shot_is_served_once(
    worlds: Seq<World>,
    id: Seq<char>,
    outs: Seq<Fetched>,
    moments: Seq<Moment>,
    n: int,
)
    requires
        fetched_in_turn(worlds, id, outs, moments),
        0 <= n < outs.len(),
        worlds[0].reliable,
        worlds[0].pastes.contains_key(id),
        worlds[0].pastes[id].one_shot,
        !worlds[0].cached.contains_key(id),
        !clock::expired(worlds[0].pastes[id].expires_at, moments[0].store_now),
    ensures
        n == 0 ==> outs[n] == Fetched::Served(worlds[0].pastes[id]),
        n > 0 ==> outs[n] is Missing,
        worlds[n + 1].reliable,
        worlds[n + 1].pastes == worlds[0].pastes.remove(id),
        worlds[n + 1].noted == worlds[0].noted,
        cache_kept(worlds[0], worlds[n + 1]),
    decreases n,
{
    assert(fetch_ok(worlds[n], worlds[n + 1], id, outs[n], moments[n]));
    if n > 0 {
        one_shot_is_served_once(worlds, id, outs, moments, n - 1);
        absent_paste_stays_absent(worlds[n], worlds[n + 1], id, outs[n], moments[n]);
    }
}

/// What a fetch gives to the cache stays there for one second at least, for no longer
/// than the bound, and never beyond the paste's own expiry.
pub proof fn cache_entry_ends_with_the_paste(
    pre: World,
    post: World,
    id: Seq<char>,
    p: PasteView,
    m: Moment,
)
    requires
        fetch_ok(pre, post, id, Fetched::Served(p), m),
        m.hit is None,
        !cache_kept(pre, post),
    ensures
        post.cached == pre.cached.insert(id, p),
        post.lives == pre.lives.insert(id, post.lives[id]),
        1 <= post.lives[id] <= clock::MAX_CACHE_TTL_SECS,
        p.expires_at matches Some(exp) ==> m.ttl_now + post.lives[id] <= exp,
{
}

/// A paste that has been deleted is not found any more.
pub proof fn deleted_paste_is_gone(
    pre: World,
    mid: World,
    post: World,
    id: Seq<char>,
    gone: Result<(), ServiceError>,
    out: Fetched,
    m: Moment,
)
    requires
        sound(pre),
        deleted(pre, mid, id, gone),
        fetch_ok(mid, post, id, out, m),
    ensures
        gone is Ok <==> pre.pastes.contains_key(id),
        out is Missing,
{
}

/// With a recorder that notes nothing, a paste that is served and stays stored has
/// one view more, and every other paste is as it was.
pub proof fn served_paste_gains_a_view(
    pre: World,
    post: World,
    id: Seq<char>,
    p: PasteView,
    m: Moment,
)
    requires
        sound(pre),
        fetch_ok(pre, post, id, Fetched::Served(p), m),
        !pre.pastes[id].one_shot,
        pre.noted == Map::<Seq<char>, i64>::empty(),
        post.noted == Map::<Seq<char>, i64>::empty(),
        pre.pastes[id].views < i64::MAX,
    ensures
        post.pastes == pre.pastes.insert(
            id,
            PasteView { views: (pre.pastes[id].views + 1) as i64, ..pre.pastes[id] },
        ),
{
    fetch_serves_what_is_stored(pre, post, id, Fetched::Served(p), m);
    let expected = pre.pastes.insert(
        id,
        PasteView { views: (pre.pastes[id].views + 1) as i64, ..pre.pastes[id] },
    );
    assert(post.pastes.dom() =~= expected.dom());
    assert forall|k: Seq<char>| pre.pastes.contains_key(k) implies #[trigger] post.pastes[k]
        == expected[k] by {
        assert(views::same_but_views(post.pastes[k], pre.pastes[k]));
        assert(views::in_range(pre.pastes[k].views, 0, views::gain(Some(id), k)));
    }
    assert(post.pastes =~= expected);
}

/// A draft holds exactly what a client has asked for. It expires its time to live
/// after its creation, or at the end of the range of times where that lies beyond it,
/// and never where no time to live was given. It is refused only where its content is.
pub proof fn drafts_hold_what_was_asked(
    content: String,
    syntax: Option<String>,
    ttl_seconds: Option<u64>,
    one_shot: bool,
    created_at: i64,
    out: Result<Draft, ServiceError>,
)
    requires
        call_ensures(draft, (content, syntax, ttl_seconds, one_shot, created_at), out),
    ensures
        out is Ok <==> 1 <= vstd::utf8::encode_utf8(content@).len() <= 1_000_000,
        out matches Err(e) ==> e is Validation,
        out matches Ok(d) ==> {
            &&& d.content@ == content@
            &&& d.syntax == syntax
            &&& d.one_shot == one_shot
            &&& d.created_at == created_at
            &&& d.expires_at is Some <==> ttl_seconds is Some
            &&& ttl_seconds matches Some(t) ==> (created_at + t <= i64::MAX
                ==> d.expires_at->0 - created_at == t)
            &&& ttl_seconds matches Some(t) ==> (created_at + t > i64::MAX
                ==> d.expires_at->0 == i64::MAX)
        },
{
    if content@.len() > 0 {
        vstd::utf8::encode_utf8_first_scalar(content@);
    }
}

/// A paste that is created is what was asked for, under an id of eight letters and
/// digits that was free. It has no views. It expires its time to live after its
/// creation, or at the end of the range of times where that lies beyond it, and never
/// where no time to live was given. The store holds it, and every other paste as
/// before.
pub proof fn created_paste_is_what_was_asked<R: PasteRepository>(
    d: Draft,
    ids: Seq<PasteId>,
    content: Seq<char>,
    syntax: Option<String>,
    ttl_seconds: Option<u64>,
    one_shot: bool,
    before: R,
    after: R,
    p: Paste,
)
    requires
        drafted(d, content, syntax, ttl_seconds, one_shot),
        candidates(ids),
        stored_under_first_free(d, ids, before, after, Ok::<Paste, ServiceError>(p)),
    ensures
        p.content@ == content && p.one_shot == one_shot && p.views == 0,
        p.syntax is Some <==> syntax is Some,
        syntax is Some ==> p.syntax->0@ == syntax->0@,
        p.expires_at is Some <==> ttl_seconds is Some,
        ttl_seconds matches Some(t) ==> (p.created_at + t <= i64::MAX
            ==> p.expires_at->0 - p.created_at == t),
        ttl_seconds matches Some(t) ==> (p.created_at + t > i64::MAX
            ==> p.expires_at->0 == i64::MAX),
        p.id@.len() == 8 && token::random(p.id@, 8),
        ids.len() == 5,
        !before.pastes().contains_key(p.id@),
        after.pastes().contains_key(p.id@) && after.pastes()[p.id@] == p@,
        after.pastes().remove(p.id@) =~= before.pastes(),
        clock::is_reading(p.created_at),
{
    let k = choose|k: int|
        {
            &&& 0 <= k < ids.len()
            &&& taken_before(before.pastes(), ids, k)
            &&& !before.pastes().contains_key((#[trigger] ids[k])@)
            &&& p@ == d.named(ids[k]@)
            &&& after.pastes() == before.pastes().insert(ids[k]@, p@)
        };
    assert(generated(ids[k]@));
    assert(p@ == d.named(ids[k]@));
}

/// What a client asks for is created at a time that the clock showed, with the time to
/// live that it gave.
pub proof fn asked_for_means_to_the_second(
    p: PasteView,
    content: Seq<char>,
    syntax: Option<Seq<char>>,
    ttl_seconds: Option<u64>,
    one_shot: bool,
)
    requires
        asked(p, content, syntax, ttl_seconds, one_shot),
    ensures
        p.content == content && p.syntax == syntax && p.one_shot == one_shot && p.views == 0,
        p.id.len() == 8 && token::random(p.id, 8),
        clock::is_reading(p.created_at),
        p.expires_at is Some <==> ttl_seconds is Some,
        ttl_seconds matches Some(t) ==> (p.created_at + t <= i64::MAX
            ==> p.expires_at->0 - p.created_at == t),
        ttl_seconds matches Some(t) ==> (p.created_at + t > i64::MAX
            ==> p.expires_at->0 == i64::MAX),
{
}

/// A generated id spells one draw for each of its characters.
pub proof fn generated_ids_take_one_draw_per_character(len: usize, id: String)
    requires
        call_ensures(generate_id, (len,), id),
    ensures
        id@.len() == len,
        token::random(id@, len as nat),
{
    token::random_text_takes_one_draw_per_character(id@, len as nat);
}

/// What is cached of a paste, and what is made of it again, is all of the paste.
pub proof fn snapshots_keep_the_paste(p: Paste, c: CachedPaste, back: Paste)
    requires
        call_ensures(CachedPaste::from_paste, (&p,), c),
        call_ensures(CachedPaste::into_paste, (c,), back),
    ensures
        back.id@ == p.id@ && back.content@ == p.content@ && back.created_at == p.created_at,
        back.expires_at == p.expires_at && back.one_shot == p.one_shot && back.views == p.views,
        back.syntax is Some <==> p.syntax is Some,
        p.syntax is Some ==> back.syntax->0@ == p.syntax->0@,
{
}

/// A stored paste that has not expired is served as it is, and burned if it is
/// one-shot; one that has is purged; and what is not stored is not found.
pub proof fn stored_paste_is_served_until_it_expires(
    p: Paste,
    now: i64,
    ttl_now: i64,
    verdict: StoreVerdict,
    missing: StoreVerdict,
)
    requires
        call_ensures(after_store, (Ok(Some(p)), now, ttl_now), verdict),
        call_ensures(after_store, (Ok(None), now, ttl_now), missing),
    ensures
        verdict is Purge <==> (p.expires_at matches Some(e) && e <= now),
        !(verdict is Purge) && p.one_shot ==> verdict == StoreVerdict::Burn(p),
        !(verdict is Purge) && !p.one_shot ==> (verdict matches StoreVerdict::Serve { paste, .. }
            && paste == p),
        verdict matches StoreVerdict::Serve { cache_secs, .. } ==> cache_secs <= 300 && (
        p.expires_at matches Some(e) ==> cache_secs == 0 || ttl_now + cache_secs <= e),
        missing == StoreVerdict::Fail(ServiceError::NotFound),
{
}

/// What the cache holds is served as it is until it expires.
pub proof fn cached_paste_is_served_until_it_expires(
    c: CachedPaste,
    now: i64,
    verdict: CacheVerdict,
    missing: CacheVerdict,
)
    requires
        call_ensures(after_cache, (Some(c), now), verdict),
        call_ensures(after_cache, (None, now), missing),
    ensures
        verdict is Evict <==> (c.expires_at matches Some(e) && e <= now),
        !(verdict is Evict) ==> (verdict matches CacheVerdict::Serve(p) && p.content@ == c.content@
            && p.id@ == c.id@ && p.views == c.views && p.created_at == c.created_at && p.expires_at
            == c.expires_at && p.one_shot == c.one_shot),
        missing is Miss,
{
}

/// A clash is retried while attempts are left; any other failure is final.
pub proof fn only_a_clash_is_retried(
    paste: Paste,
    cause: String,
    left: usize,
    stored: InsertVerdict,
    clash: InsertVerdict,
    failed: InsertVerdict,
)
    requires
        call_ensures(after_insert, (Ok(()), paste, left), stored),
        call_ensures(after_insert, (Err(RepoError::Conflict), paste, left), clash),
        call_ensures(after_insert, (Err(RepoError::Backend(cause)), paste, left), failed),
    ensures
        stored == InsertVerdict::Done(paste),
        left > 0 ==> clash is Retry,
        left == 0 ==> clash == InsertVerdict::Fail(ServiceError::Conflict),
        failed == InsertVerdict::Fail(ServiceError::Backend(cause)),
{
}

/// A deletion that removed something succeeds, one that did not is not found, and a
/// failure of the store is reported.
pub proof fn deletions_report_what_was_removed(
    cause: String,
    gone: Result<(), ServiceError>,
    absent: Result<(), ServiceError>,
    failed: Result<(), ServiceError>,
)
    requires
        call_ensures(after_delete, (Ok(true),), gone),
        call_ensures(after_delete, (Ok(false),), absent),
        call_ensures(after_delete, (Err(RepoError::Backend(cause)),), failed),
    ensures
        gone is Ok,
        absent == Err::<(), ServiceError>(ServiceError::NotFound),
        failed == Err::<(), ServiceError>(ServiceError::Backend(cause)),
{
}

/// The ids for one paste are five, of eight characters each, and each takes draws of its
/// own, made after those for the one before it.
pub proof fn ids_for_a_paste_are_drawn_one_after_the_other(ids: Vec<PasteId>)
    requires
        call_ensures(draw_ids, (), ids),
    ensures
        ids@.len() == 5,
        exists|rngs: Seq<rand::rngs::ThreadRng>, texts: Seq<Seq<char>>|
            {
                &&& #[trigger] token::random_in_turn(rngs, texts, 8)
                &&& texts.len() == 5
                &&& forall|i: int| 0 <= i < 5 ==> #[trigger] texts[i] == ids@[i]@
            },
{
    assert forall|i: int| 0 <= i < 5 implies #[trigger] texts_of(ids@)[i] == ids@[i]@ by {}
}

/// What is done of a fetch, a deletion or a creation is told by its result as it is: a
/// paste that is served is handed out in full.
pub proof fn served_pastes_are_handed_out_in_full(p: Paste, v: PasteView)
    requires
        fetched(Ok(p)) == Fetched::Served(v),
    ensures
        v.id == p.id@ && v.content == p.content@ && v.created_at == p.created_at,
        v.expires_at == p.expires_at && v.one_shot == p.one_shot && v.views == p.views,
        p.syntax matches Some(s) ==> v.syntax == Some(s@),
        p.syntax is None ==> v.syntax is None,
{
}

/// With a reliable store and a cache that agrees with it, a fetch finds exactly what is
/// stored. A paste that expires later than any time the clock shows, or never, is served,
/// with its content and everything else but its count of views. One that has expired at
/// any such time is not found and not kept. What is not stored is not found. A one-shot
/// paste that is served is gone; every other paste stays stored, with all but its count
/// of views.
pub proof fn fetch_finds_what_is_stored<
    R: PasteRepository,
    C: Cache<CachedPaste>,
    V: ViewRecorder<R>,
>(s: &mut PasteService<R, C, V>, id: &str, out: Result<Paste, ServiceError>)
    requires
        old(s).valid(),
        sound(old(s).world()),
        call_ensures(PasteService::<R, C, V>::fetch, (s, id), out),
    ensures
        out matches Err(e) ==> e is NotFound,
        !token::valid(id@) ==> out is Err,
        !old(s).repo.pastes().contains_key(id@) ==> out is Err,
        token::valid(id@) && old(s).repo.pastes().contains_key(id@) ==> {
            let p = old(s).repo.pastes()[id@];
            let kept = final(s).repo.pastes();
            &&& p.expires_at is None ==> out is Ok
            &&& (p.expires_at is Some && forall|t: i64| #[trigger]
                clock::is_reading(t) ==> t < p.expires_at->0) ==> out is Ok
            &&& (p.expires_at is Some && forall|t: i64| #[trigger]
                clock::is_reading(t) ==> p.expires_at->0 <= t) ==> out is Err
                && !kept.contains_key(id@)
            &&& out is Ok ==> {
                let got = out->Ok_0;
                &&& got.id@ == p.id && got.content@ == p.content
                &&& got.syntax is Some <==> p.syntax is Some
                &&& got.syntax is Some ==> got.syntax->0@ == p.syntax->0
                &&& got.created_at == p.created_at && got.expires_at == p.expires_at
                &&& got.one_shot == p.one_shot
                &&& kept.contains_key(id@) <==> !p.one_shot
            }
        },
        forall|k: Seq<char>|
            #![trigger final(s).repo.pastes().contains_key(k)]
            #![trigger old(s).repo.pastes().contains_key(k)]
            k != id@ ==> {
                let before = old(s).repo.pastes();
                let after = final(s).repo.pastes();
                &&& after.contains_key(k) <==> before.contains_key(k)
                &&& before.contains_key(k) ==> after[k].id == before[k].id && after[k].content
                    == before[k].content && after[k].syntax == before[k].syntax
                    && after[k].created_at == before[k].created_at && after[k].expires_at
                    == before[k].expires_at && after[k].one_shot == before[k].one_shot
            },
{
    if token::valid(id@) {
        let pre = old(s).world();
        let m = choose|m: Moment| #[trigger]
            fetch_ok(pre, final(s).world(), id@, fetched(out), m) && timed(m);
        fetch_serves_what_is_stored(pre, final(s).world(), id@, fetched(out), m);
        if pre.cached.contains_key(id@) {
            assert(views::same_but_views(pre.cached[id@], pre.pastes[id@]));
        }
        assert forall|k: Seq<char>| k != id@ && #[trigger] pre.pastes.contains_key(
            k,
        ) implies final(s).repo.pastes().contains_key(k) && views::same_but_views(
            final(s).repo.pastes()[k],
            pre.pastes[k],
        ) by {
            assert(final(s).repo.pastes().dom().contains(k));
        }
        assert forall|k: Seq<char>| #[trigger]
            final(s).repo.pastes().contains_key(k) implies pre.pastes.contains_key(k) by {
            assert(final(s).repo.pastes().dom().contains(k));
        }
        if pre.pastes.contains_key(id@) && out is Ok && !pre.pastes[id@].one_shot {
            assert(final(s).repo.pastes().dom().contains(id@));
        }
    }
}

/// With a reliable store, content of a proper size is stored exactly as asked for, under
/// an id that was free, unless every id that was drawn is taken; any other content is
/// refused. Every other paste stays as it is.
pub proof fn create_stores_what_was_asked<
    R: PasteRepository,
    C: Cache<CachedPaste>,
    V: ViewRecorder<R>,
>(
    s: &mut PasteService<R, C, V>,
    content: String,
    syntax: Option<String>,
    ttl_seconds: Option<u64>,
    one_shot: bool,
    out: Result<Paste, ServiceError>,
)
    requires
        old(s).valid(),
        old(s).repo.reliable(),
        call_ensures(
            PasteService::<R, C, V>::create,
            (s, content, syntax, ttl_seconds, one_shot),
            out,
        ),
    ensures
        1 <= vstd::utf8::encode_utf8(content@).len() <= 1_000_000 ==> out is Ok || out
            == Err::<Paste, ServiceError>(ServiceError::Conflict),
        !(1 <= vstd::utf8::encode_utf8(content@).len() <= 1_000_000) ==> out is Err
            && out->Err_0 is Validation,
        out is Err ==> final(s).repo.pastes() == old(s).repo.pastes(),
        out is Err && out->Err_0 is Conflict ==> exists|ids: Vec<PasteId>|
            #[trigger] call_ensures(draw_ids, (), ids) && forall|i: int|
                0 <= i < ids@.len() ==> old(s).repo.pastes().contains_key((#[trigger] ids@[i])@),
        out is Ok ==> {
            let p = out->Ok_0;
            &&& p.content@ == content@ && p.one_shot == one_shot && p.views == 0
            &&& p.syntax is Some <==> syntax is Some
            &&& syntax is Some ==> p.syntax->0@ == syntax->0@
            &&& clock::is_reading(p.created_at)
            &&& p.expires_at is Some <==> ttl_seconds is Some
            &&& ttl_seconds is Some && p.created_at + ttl_seconds->0 <= i64::MAX
                ==> p.expires_at->0 == p.created_at + ttl_seconds->0
            &&& ttl_seconds is Some && p.created_at + ttl_seconds->0 > i64::MAX
                ==> p.expires_at->0 == i64::MAX
            &&& p.id@.len() == 8 && token::random(p.id@, 8)
            &&& !old(s).repo.pastes().contains_key(p.id@)
            &&& final(s).repo.pastes() == old(s).repo.pastes().insert(p.id@, p@)
        },
        final(s).cache == old(s).cache,
{
    if content@.len() > 0 {
        vstd::utf8::encode_utf8_first_scalar(content@);
    }
    if out is Err && out->Err_0 is Conflict {
        let (d, ids) = choose|d: Draft, ids: Vec<PasteId>|
            {
                &&& drafted(d, content@, syntax, ttl_seconds, one_shot)
                &&& candidates(ids@)
                &&& call_ensures(draw_ids, (), ids)
                &&& #[trigger] stored_under_first_free(d, ids@, old(s).repo, final(s).repo, out)
            };
        assert(call_ensures(draw_ids, (), ids));
    }
}

/// With a reliable store, a deletion succeeds exactly where the paste is stored. The store
/// then holds every paste but that one, and so does a cache that drops what it is told to.
pub proof fn delete_removes_one_paste<
    R: PasteRepository,
    C: Cache<CachedPaste>,
    V: ViewRecorder<R>,
>(s: &mut PasteService<R, C, V>, id: &str, out: Result<(), ServiceError>)
    requires
        old(s).valid(),
        old(s).repo.reliable(),
        call_ensures(PasteService::<R, C, V>::delete, (s, id), out),
    ensures
        out is Ok <==> token::valid(id@) && old(s).repo.pastes().contains_key(id@),
        out is Err ==> out->Err_0 is NotFound,
        out is Ok ==> final(s).repo.pastes() == old(s).repo.pastes().remove(id@),
        out is Err ==> final(s).repo.pastes() == old(s).repo.pastes(),
        forall|k: Seq<char>|
            k != id@ ==> (#[trigger] final(s).cache.entries().contains_key(k)
                <==> old(s).cache.entries().contains_key(k)),
        old(s).cache.evicts() && token::valid(id@) ==> !final(s).cache.entries().contains_key(id@),
{
    if token::valid(id@) {
        let before = old(s).world().cached;
        let after = final(s).world().cached;
        assert forall|k: Seq<char>|
            k != id@ implies (#[trigger] final(s).cache.entries().contains_key(k)
                <==> old(s).cache.entries().contains_key(k)) by {
            assert(after.contains_key(k) <==> before.contains_key(k));
            assert(after.dom().contains(k) == final(s).cache.entries().dom().contains(k));
            assert(before.dom().contains(k) == old(s).cache.entries().dom().contains(k));
        }
        if old(s).cache.evicts() {
            assert(!after.contains_key(id@));
            assert(after.dom().contains(id@) == final(s).cache.entries().dom().contains(id@));
        }
    }
}

/// A paste that is served from the store, and that expires later than any time the clock
/// shows or never, is given to the cache, unless it is one-shot: a cache that keeps what
/// it is given holds it afterwards.
pub proof fn served_pastes_are_cached<
    R: PasteRepository,
    C: Cache<CachedPaste>,
    V: ViewRecorder<R>,
>(s: &mut PasteService<R, C, V>, id: &str, out: Result<Paste, ServiceError>)
    requires
        old(s).valid(),
        sound(old(s).world()),
        old(s).cache.retains(),
        call_ensures(PasteService::<R, C, V>::fetch, (s, id), out),
        out is Ok,
        !out->Ok_0.one_shot,
        out->Ok_0.expires_at is Some ==> forall|t: i64| #[trigger]
            clock::is_reading(t) ==> t < out->Ok_0.expires_at->0,
    ensures
        final(s).cache.entries().contains_key(id@),
        final(s).cache.entries()[id@].content@ == out->Ok_0.content@,
        final(s).cache.entries()[id@].expires_at == out->Ok_0.expires_at,
        !old(s).cache.entries().contains_key(id@) ==> final(s).cache.lifetimes()[id@] <= 300,
{
    fetch_finds_what_is_stored(s, id, out);
    let pre = old(s).world();
    let post = final(s).world();
    let m = choose|m: Moment| #[trigger] fetch_ok(pre, post, id@, fetched(out), m) && timed(m);
    fetch_serves_what_is_stored(pre, post, id@, fetched(out), m);
    if pre.cached.contains_key(id@) {
        assert(views::same_but_views(pre.cached[id@], pre.pastes[id@]));
    }
    assert(post.cached.contains_key(id@));
    assert(post.cached.dom().contains(id@) == final(s).cache.entries().dom().contains(id@));
    assert(post.cached[id@] == final(s).cache.entries()[id@]@);
}

/// The service is ready exactly as the store is: a store that answers a ping makes it
/// ready, and a failure is reported as it is.
pub proof fn ready_as_the_store_is<R: PasteRepository, C: Cache<CachedPaste>, V: ViewRecorder<R>>(
    s: PasteService<R, C, V>,
    cause: String,
    out: Result<(), ServiceError>,
    answered: Result<(), ServiceError>,
    failed: Result<(), ServiceError>,
)
    requires
        call_ensures(PasteService::<R, C, V>::ready, (&s,), out),
        call_ensures(after_ping, (Ok(()),), answered),
        call_ensures(after_ping, (Err(RepoError::Backend(cause)),), failed),
    ensures
        s.repo.reliable() ==> out is Ok,
        exists|res: Result<(), RepoError>| #[trigger]
            call_ensures(R::ping, (&s.repo,), res) && (res is Ok <==> out is Ok),
        answered is Ok,
        failed == Err::<(), ServiceError>(ServiceError::Backend(cause)),
{
    let res = choose|res: Result<(), RepoError>| #[trigger]
        call_ensures(R::ping, (&s.repo,), res) && out == pinged(res);
    assert(call_ensures(R::ping, (&s.repo,), res));
}

/// A service is made of the parts it is given, and keeps them.
pub proof fn services_are_made_of_their_parts<
    R: PasteRepository,
    C: Cache<CachedPaste>,
    V: ViewRecorder<R>,
>(
    repo: R,
    cache: C,
    views: V,
    a: PasteService<R, NoOpCache, ImmediateViewRecorder>,
    b: PasteService<R, C, ImmediateViewRecorder>,
    c: PasteService<R, C, V>,
)
    requires
        call_ensures(PasteService::<R, NoOpCache, ImmediateViewRecorder>::new, (repo,), a),
        call_ensures(PasteService::<R, C, ImmediateViewRecorder>::with_cache, (repo, cache), b),
        call_ensures(PasteService::<R, C, V>::with_cache_and_views, (repo, cache, views), c),
    ensures
        a.repo == repo && b.repo == repo && c.repo == repo,
        b.cache == cache && c.cache == cache,
        c.views == views,
        a.valid() && b.valid(),
        repo.reliable() ==> sound(a.world()),
{
}

/// A paste that never expires is cached for five minutes, and one that does for no longer
/// than it lives; one that has expired is not cached.
pub proof fn pastes_are_cached_for_what_is_left(p: Paste, now: i64, secs: u64)
    requires
        call_ensures(cache_ttl_secs, (&p, now), secs),
    ensures
        p.expires_at is None ==> secs == 300,
        p.expires_at is Some && p.expires_at->0 <= now ==> secs == 0,
        p.expires_at is Some && now < p.expires_at->0 <= now + 300 ==> secs == p.expires_at->0
            - now,
        p.expires_at is Some && p.expires_at->0 > now + 300 ==> secs == 300,
{
}

/// A draft becomes a paste with all that it holds, and no views.
pub proof fn drafts_become_what_they_hold(d: Draft, id: PasteId, p: Paste)
    requires
        call_ensures(Draft::paste, (&d, id), p),
    ensures
        p.id@ == id@ && p.content@ == d.content@ && p.views == 0,
        p.syntax is Some <==> d.syntax is Some,
        p.syntax is Some ==> p.syntax->0@ == d.syntax->0@,
        p.created_at == d.created_at && p.expires_at == d.expires_at && p.one_shot == d.one_shot,
{
}

} // verus!
