//! Application layer: use cases over the repository port.
//!
//! What a use case decides stands in functions of its own, which take what the
//! store, the cache and the clock have said as arguments: [`draft`],
//! [`after_insert`], [`after_cache`], [`after_lookup`], [`after_get`],
//! [`after_delete`] and [`after_ping`].
//! [`LinkService`] runs them over a [`LinkRepository`], a [`Cache`] and a
//! [`HitRecorder`].

use vstd::prelude::*;
use vstd::std_specs::convert::FromSpecImpl;

use crate::cache::{Cache, NoOpCache};
use crate::clock;
use crate::shortener::domain;
use crate::shortener::domain::{
    Link, LinkRepository, LinkView, RepoError, ShortCode, TargetUrl, UrlParts, ValidationError,
};
use crate::shortener::hits;
use crate::shortener::hits::{HitRecorder, ImmediateHitRecorder};
use crate::text;
use crate::token;

verus! {

/// Length of an auto-generated short code.
pub const GENERATED_CODE_LEN: usize = 7;

/// Attempts at a code that is free before giving up.
pub const MAX_GENERATION_ATTEMPTS: usize = 5;

/// Errors surfaced by the application layer.
#[derive(Debug)]
pub enum ServiceError {
    Validation(ValidationError),
    NotFound,
    Conflict,
    /// The host of the target is on the denylist.
    Blocked,
    Backend(String),
}

/// What a failure of the store is to the application.
pub open spec fn from_repo(err: RepoError) -> ServiceError {
    match err {
        RepoError::Conflict => ServiceError::Conflict,
        RepoError::Backend(cause) => ServiceError::Backend(cause),
    }
}

impl From<RepoError> for ServiceError {
    fn from(err: RepoError) -> (out: Self) {
        match err {
            RepoError::Conflict => ServiceError::Conflict,
            RepoError::Backend(cause) => ServiceError::Backend(cause),
        }
    }
}

impl FromSpecImpl<RepoError> for ServiceError {
    open spec fn obeys_from_spec() -> bool {
        true
    }

    open spec fn from_spec(err: RepoError) -> Self {
        from_repo(err)
    }
}

impl ServiceError {
    /// The text of the error.
    pub open spec fn text(self) -> Seq<char> {
        match self {
            ServiceError::Validation(v) => v.text(),
            ServiceError::NotFound => "not found"@,
            ServiceError::Conflict => "short code already in use"@,
            ServiceError::Blocked => "target host is not allowed"@,
            ServiceError::Backend(cause) => cause@,
        }
    }

    /// Describes the error.
    pub fn message(&self) -> (s: String)
        ensures
            s@ == self.text(),
    {
        match self {
            ServiceError::Validation(v) => v.message(),
            ServiceError::NotFound => "not found".to_owned(),
            ServiceError::Conflict => "short code already in use".to_owned(),
            ServiceError::Blocked => "target host is not allowed".to_owned(),
            ServiceError::Backend(cause) => cause.clone(),
        }
    }
}

/// What the cache holds of a link: where it redirects to, and until when.
#[derive(Debug, PartialEq, Eq)]
pub struct CachedTarget {
    pub target: TargetUrl,
    pub expires_at: Option<i64>,
}

/// The contents of a cached target.
pub struct CachedTargetView {
    pub target: Seq<char>,
    pub expires_at: Option<i64>,
}

impl View for CachedTarget {
    type V = CachedTargetView;

    open spec fn view(&self) -> CachedTargetView {
        CachedTargetView { target: self.target@, expires_at: self.expires_at }
    }
}

impl Clone for CachedTarget {
    fn clone(&self) -> (r: Self)
        ensures
            r == *self,
    {
        CachedTarget { target: self.target.clone(), expires_at: self.expires_at }
    }
}

/// Generates a random base62 code of the given length.
pub fn generate_code(len: usize) -> (code: String)
    ensures
        code@.len() == len,
        token::plain(code@),
        token::random(code@, len as nat),
{
    token::generate(len)
}

/// A link that may still need a code.
#[derive(Debug)]
pub struct Draft {
    pub target: TargetUrl,
    pub created_at: i64,
    pub expires_at: Option<i64>,
    /// The code that the client has chosen, if any.
    pub alias: Option<ShortCode>,
}

/// When a link created at `created_at` expires.
pub open spec fn expiry_of(created_at: i64, ttl_seconds: Option<u64>) -> Option<i64> {
    match ttl_seconds {
        Some(secs) => Some(clock::expiry(created_at, secs) as i64),
        None => None,
    }
}

impl Draft {
    /// The link that the draft becomes under a code.
    pub open spec fn named(self, code: Seq<char>) -> LinkView {
        LinkView {
            code,
            target: self.target@,
            created_at: self.created_at,
            expires_at: self.expires_at,
            hits: 0,
        }
    }

    /// The draft is what a client has asked for.
    pub open spec fn asked(
        self,
        url: Seq<char>,
        alias: Option<String>,
        ttl_seconds: Option<u64>,
        created_at: i64,
    ) -> bool {
        &&& self.target@ == url
        &&& self.created_at == created_at
        &&& self.expires_at == expiry_of(created_at, ttl_seconds)
        &&& self.chosen() == domain::text_of(alias)
    }

    /// The code that the client has chosen, if any.
    pub open spec fn chosen(self) -> Option<Seq<char>> {
        match self.alias {
            Some(code) => Some(code@),
            None => None,
        }
    }

    /// How many codes are tried: a chosen one only once, since a clash is a hard
    /// conflict.
    pub fn attempts(&self) -> (n: usize)
        ensures
            n == if self.chosen() is Some {
                1
            } else {
                MAX_GENERATION_ATTEMPTS
            },
    {
        if self.alias.is_some() {
            1
        } else {
            MAX_GENERATION_ATTEMPTS
        }
    }

    /// A code to try: the chosen one, or a random one.
    pub fn code(&self) -> (code: ShortCode)
        ensures
            candidate(self.chosen(), code@),
    {
        match &self.alias {
            Some(code) => code.clone(),
            None => ShortCode::from_trusted(generate_code(GENERATED_CODE_LEN)),
        }
    }

    /// The codes to try, in order: the chosen one, or as many random ones as there are
    /// attempts.
    pub fn codes(&self) -> (codes: Vec<ShortCode>)
        ensures
            candidates(self.chosen(), codes@),
    {
        let mut codes: Vec<ShortCode> = Vec::new();
        if let Some(code) = &self.alias {
            codes.push(code.clone());
            return codes;
        }
        let n: usize = self.attempts();
        let drawn = token::generate_many(n, GENERATED_CODE_LEN);
        let mut i: usize = 0;
        while i < n
            invariant
                i <= n,
                drawn@.len() == n,
                forall|j: int| 0 <= j < drawn@.len() ==> generated((#[trigger] drawn@[j])@),
                codes@.len() == i,
                forall|j: int| 0 <= j < codes@.len() ==> (#[trigger] codes@[j])@ == drawn@[j]@,
            decreases n - i,
        {
            assert(generated(drawn@[i as int]@));
            codes.push(ShortCode::from_trusted(drawn[i].clone()));
            i += 1;
        }
        proof {
            assert(texts_of(codes@) =~= token::texts_of(drawn@));
            assert forall|j: int| 0 <= j < codes@.len() implies candidate(
                self.chosen(),
                (#[trigger] codes@[j])@,
            ) by {
                assert(generated(drawn@[j]@));
            }
        }
        codes
    }

    /// The draft under a code: a brand-new link.
    pub fn link(&self, code: ShortCode) -> (l: Link)
        ensures
            l@ == self.named(code@),
    {
        Link {
            code,
            target: self.target.clone(),
            created_at: self.created_at,
            expires_at: self.expires_at,
            hits: 0,
        }
    }
}

/// A code that may be tried: the chosen one, or a generated one.
pub open spec fn candidate(chosen: Option<Seq<char>>, code: Seq<char>) -> bool {
    match chosen {
        Some(a) => code == a,
        None => generated(code),
    }
}

/// The texts of a list of codes.
pub open spec fn texts_of(codes: Seq<ShortCode>) -> Seq<Seq<char>> {
    Seq::new(codes.len(), |i: int| codes[i]@)
}

/// The codes that are tried for one link: a chosen one only once, else as many
/// generated ones as there are attempts, each by draws of its own.
pub open spec fn candidates(chosen: Option<Seq<char>>, codes: Seq<ShortCode>) -> bool {
    &&& codes.len() == if chosen is Some {
        1
    } else {
        MAX_GENERATION_ATTEMPTS as int
    }
    &&& forall|i: int| 0 <= i < codes.len() ==> candidate(chosen, (#[trigger] codes[i])@)
    &&& chosen is None ==> exists|rngs: Seq<rand::rngs::ThreadRng>| #[trigger]
        token::random_in_turn(rngs, texts_of(codes), GENERATED_CODE_LEN as nat)
}

/// Why a link is refused before anything is stored.
pub enum Refusal {
    Invalid(ValidationError),
    Blocked,
}

/// Whether the host of a URL is on the denylist.
pub open spec fn host_blocked(
    parsed: Option<(Seq<char>, Option<Seq<char>>)>,
    blocked: Seq<String>,
) -> bool {
    parsed matches Some((_, Some(host))) && domain::denied(host, blocked)
}

/// The verdict on a link that a client asks for, given the parts of its URL: the
/// URL is judged first, then its host, then the alias.
pub open spec fn refusal(
    url: Seq<char>,
    parsed: Option<(Seq<char>, Option<Seq<char>>)>,
    alias: Option<Seq<char>>,
    blocked: Seq<String>,
) -> Option<Refusal> {
    match domain::url_check(url, parsed) {
        Err(v) => Some(Refusal::Invalid(v)),
        Ok(()) => if host_blocked(parsed, blocked) {
            Some(Refusal::Blocked)
        } else {
            match alias {
                Some(a) => match domain::code_check(a) {
                    Err(v) => Some(Refusal::Invalid(v)),
                    Ok(()) => None,
                },
                None => None,
            }
        },
    }
}

/// Validates what a client wants to shorten, given the parts of its URL.
pub fn draft_parsed(
    url: String,
    parts: &Option<UrlParts>,
    alias: Option<String>,
    ttl_seconds: Option<u64>,
    blocked: &Vec<String>,
    created_at: i64,
) -> (out: Result<Draft, ServiceError>)
    ensures
        match refusal(url@, domain::parts_of(*parts), domain::text_of(alias), blocked@) {
            Some(Refusal::Invalid(v)) => out == Err::<Draft, ServiceError>(
                ServiceError::Validation(v),
            ),
            Some(Refusal::Blocked) => out == Err::<Draft, ServiceError>(ServiceError::Blocked),
            None => out matches Ok(d) && d.asked(url@, alias, ttl_seconds, created_at),
        },
{
    let target = match TargetUrl::judge(url, parts) {
        Ok(t) => t,
        Err(v) => {
            return Err(ServiceError::Validation(v));
        },
    };
    if let Some(p) = parts {
        if let Some(host) = &p.host {
            if domain::host_denied(host.as_str(), blocked) {
                return Err(ServiceError::Blocked);
            }
        }
    }
    let expires_at: Option<i64> = clock::expires_at(created_at, ttl_seconds);
    let alias = match alias {
        Some(a) => match ShortCode::parse(a.as_str()) {
            Ok(code) => Some(code),
            Err(v) => {
                return Err(ServiceError::Validation(v));
            },
        },
        None => None,
    };
    Ok(Draft { target, created_at, expires_at, alias })
}

/// Validates what a client wants to shorten.
pub fn draft(
    url: String,
    alias: Option<String>,
    ttl_seconds: Option<u64>,
    blocked: &Vec<String>,
    created_at: i64,
) -> (out: Result<Draft, ServiceError>)
    ensures
        match refusal(url@, domain::parsed_url(url@), domain::text_of(alias), blocked@) {
            Some(Refusal::Invalid(v)) => out == Err::<Draft, ServiceError>(
                ServiceError::Validation(v),
            ),
            Some(Refusal::Blocked) => out == Err::<Draft, ServiceError>(ServiceError::Blocked),
            None => out matches Ok(d) && d.asked(url@, alias, ttl_seconds, created_at),
        },
{
    let parts = domain::url_parts(url.as_str());
    draft_parsed(url, &parts, alias, ttl_seconds, blocked, created_at)
}

/// What follows an attempt to insert a new link.
#[derive(Debug)]
pub enum InsertVerdict {
    /// The link is stored.
    Done(Link),
    /// The code is taken: try another one.
    Retry,
    /// Give up.
    Fail(ServiceError),
}

/// Judges an attempt to insert `link`, with so many attempts left after it. A
/// chosen alias has no other attempt: a clash is a hard conflict.
pub fn after_insert(res: Result<(), RepoError>, link: Link, attempts_left: usize) -> (verdict:
    InsertVerdict)
    ensures
        verdict == match res {
            Ok(()) => InsertVerdict::Done(link),
            Err(RepoError::Conflict) => if attempts_left > 0 {
                InsertVerdict::Retry
            } else {
                InsertVerdict::Fail(ServiceError::Conflict)
            },
            Err(RepoError::Backend(cause)) => InsertVerdict::Fail(ServiceError::Backend(cause)),
        },
{
    match res {
        Ok(()) => InsertVerdict::Done(link),
        Err(RepoError::Conflict) => if attempts_left > 0 {
            InsertVerdict::Retry
        } else {
            InsertVerdict::Fail(ServiceError::Conflict)
        },
        Err(RepoError::Backend(cause)) => InsertVerdict::Fail(ServiceError::Backend(cause)),
    }
}

/// What follows a look into the cache on a redirect.
#[derive(Debug)]
pub enum CacheVerdict {
    /// Record a hit and redirect to the target.
    Serve(TargetUrl),
    /// Drop the entry, then ask the store.
    Evict,
    /// Ask the store.
    Miss,
}

/// Judges what the cache holds. The entry of a link that has expired since is not
/// served, however long the cache keeps it.
pub fn after_cache(hit: Option<CachedTarget>, now: i64) -> (verdict: CacheVerdict)
    ensures
        verdict == match hit {
            Some(c) => if clock::expired(c.expires_at, now) {
                CacheVerdict::Evict
            } else {
                CacheVerdict::Serve(c.target)
            },
            None => CacheVerdict::Miss,
        },
{
    match hit {
        Some(c) => {
            if clock::has_expired(c.expires_at, now) {
                CacheVerdict::Evict
            } else {
                CacheVerdict::Serve(c.target)
            }
        },
        None => CacheVerdict::Miss,
    }
}

/// What follows a look into the store on a redirect.
#[derive(Debug)]
pub enum LookupVerdict {
    /// Report the error.
    Fail(ServiceError),
    /// Cache the target with its expiry for so many seconds if the number is not
    /// zero, record a hit and redirect to it.
    Serve { target: TargetUrl, expires_at: Option<i64>, cache_secs: u64 },
}

/// Judges what the store has answered on a redirect. `now` decides on expiry and
/// `ttl_now` on how long the target may be cached.
pub fn after_lookup(found: Result<Option<Link>, RepoError>, now: i64, ttl_now: i64) -> (verdict:
    LookupVerdict)
    ensures
        match found {
            Err(e) => verdict == LookupVerdict::Fail(from_repo(e)),
            Ok(None) => verdict == LookupVerdict::Fail(ServiceError::NotFound),
            Ok(Some(l)) => if clock::expired(l.expires_at, now) {
                verdict == LookupVerdict::Fail(ServiceError::NotFound)
            } else {
                &&& verdict matches LookupVerdict::Serve { target, expires_at, cache_secs }
                &&& target == l.target
                &&& expires_at == l.expires_at
                &&& cache_secs == clock::cache_ttl(l.expires_at, ttl_now)
            },
        },
{
    match found {
        Err(e) => LookupVerdict::Fail(ServiceError::from(e)),
        Ok(None) => LookupVerdict::Fail(ServiceError::NotFound),
        Ok(Some(link)) => {
            if link.is_expired(now) {
                LookupVerdict::Fail(ServiceError::NotFound)
            } else {
                let cache_secs: u64 = clock::cache_ttl_at(link.expires_at, ttl_now);
                LookupVerdict::Serve {
                    target: link.target,
                    expires_at: link.expires_at,
                    cache_secs,
                }
            }
        },
    }
}

/// Judges what the store has answered to a request for metadata.
pub fn after_get(found: Result<Option<Link>, RepoError>) -> (out: Result<Link, ServiceError>)
    ensures
        match found {
            Ok(Some(l)) => out == Ok::<Link, ServiceError>(l),
            Ok(None) => out == Err::<Link, ServiceError>(ServiceError::NotFound),
            Err(e) => out == Err::<Link, ServiceError>(from_repo(e)),
        },
{
    match found {
        Ok(Some(link)) => Ok(link),
        Ok(None) => Err(ServiceError::NotFound),
        Err(e) => Err(ServiceError::from(e)),
    }
}

/// What the answer of the store to a connectivity check comes to: success stays
/// success, and an error of the store becomes one of the service, cause and all.
pub open spec fn pinged(res: Result<(), RepoError>) -> Result<(), ServiceError> {
    match res {
        Ok(()) => Ok(()),
        Err(e) => Err(from_repo(e)),
    }
}

/// Judges the answer of the store to a connectivity check.
pub fn after_ping(res: Result<(), RepoError>) -> (out: Result<(), ServiceError>)
    ensures
        out == pinged(res),
{
    match res {
        Ok(()) => Ok(()),
        Err(e) => Err(ServiceError::from(e)),
    }
}

/// Judges the answer of the store to a deletion.
pub fn after_delete(removed: Result<bool, RepoError>) -> (out: Result<(), ServiceError>)
    ensures
        match removed {
            Ok(true) => out == Ok::<(), ServiceError>(()),
            Ok(false) => out == Err::<(), ServiceError>(ServiceError::NotFound),
            Err(e) => out == Err::<(), ServiceError>(from_repo(e)),
        },
{
    match removed {
        Ok(true) => Ok(()),
        Ok(false) => Err(ServiceError::NotFound),
        Err(e) => Err(ServiceError::from(e)),
    }
}

/// What the store, the cache and the recorder hold between two calls.
pub struct World {
    /// The stored links by code.
    pub links: Map<Seq<char>, LinkView>,
    /// The targets that the cache may hand out, by code.
    pub cached: Map<Seq<char>, CachedTargetView>,
    /// For how many seconds they were cached, by code.
    pub lives: Map<Seq<char>, u64>,
    /// The hits noted and not yet stored, by code.
    pub noted: Map<Seq<char>, i64>,
    /// Whether the store never fails.
    pub reliable: bool,
    /// Whether the cache keeps what it is given.
    pub retains: bool,
    /// Whether the cache drops what it is told to drop.
    pub evicts: bool,
}

/// What the cache and the clock said during a redirect.
pub struct Moment {
    /// What the cache handed out.
    pub hit: Option<CachedTargetView>,
    /// The time at which the entry of the cache was judged.
    pub cache_now: i64,
    /// Whether the cache dropped the entry if it was told to.
    pub evicted: bool,
    /// The time at which the stored link was judged.
    pub store_now: i64,
    /// The time at which the life of a new entry of the cache was computed.
    pub ttl_now: i64,
}

/// What a redirect comes to.
pub enum Resolved {
    To(Seq<char>),
    Missing,
    Broken,
}

/// The link stored under a code.
pub open spec fn stored(links: Map<Seq<char>, LinkView>, code: Seq<char>) -> Option<LinkView> {
    if links.contains_key(code) {
        Some(links[code])
    } else {
        None
    }
}

/// The contents of an optional entry of the cache.
pub open spec fn target_of(c: Option<CachedTarget>) -> Option<CachedTargetView> {
    match c {
        Some(c) => Some(c@),
        None => None,
    }
}

/// The contents of the entries of a cache.
pub open spec fn targets(entries: Map<Seq<char>, CachedTarget>) -> Map<
    Seq<char>,
    CachedTargetView,
> {
    entries.map_values(|c: CachedTarget| c@)
}

proof fn lemma_targets(entries: Map<Seq<char>, CachedTarget>, key: Seq<char>, value: CachedTarget)
    ensures
        targets(entries.insert(key, value)) == targets(entries).insert(key, value@),
        targets(entries.remove(key)) == targets(entries).remove(key),
{
    assert(targets(entries.insert(key, value)) =~= targets(entries).insert(key, value@));
    assert(targets(entries.remove(key)) =~= targets(entries).remove(key));
}

/// The cache handed out what it may, and all it must.
pub open spec fn honest_hit(w: World, code: Seq<char>, hit: Option<CachedTargetView>) -> bool {
    &&& hit matches Some(c) ==> w.cached.contains_key(code) && w.cached[code] == c
    &&& w.retains && w.cached.contains_key(code) ==> hit is Some
}

/// Whether the cache answers the redirect.
pub open spec fn from_cache(m: Moment) -> bool {
    m.hit matches Some(c) && !clock::expired(c.expires_at, m.cache_now)
}

/// Where the redirect goes: to the cached target if it has not expired, else to that
/// of the stored link if it has not expired.
pub open spec fn destination(w: World, code: Seq<char>, m: Moment) -> Option<Seq<char>> {
    if from_cache(m) {
        Some(m.hit->0.target)
    } else {
        match stored(w.links, code) {
            Some(l) => if clock::expired(l.expires_at, m.store_now) {
                None
            } else {
                Some(l.target)
            },
            None => None,
        }
    }
}

/// What the cache holds of a link.
pub open spec fn cached_form(l: LinkView) -> CachedTargetView {
    CachedTargetView { target: l.target, expires_at: l.expires_at }
}

/// The cache is as it was.
pub open spec fn cache_kept(pre: World, post: World) -> bool {
    post.cached == pre.cached && post.lives == pre.lives
}

/// The cache was told to drop a code, which it does unless it fails.
pub open spec fn cache_dropped(pre: World, post: World, code: Seq<char>) -> bool {
    ||| post.cached == pre.cached.remove(code) && post.lives == pre.lives.remove(code)
    ||| !pre.evicts && cache_kept(pre, post)
}

/// The cache was given a link for so many seconds, which it keeps unless it fails.
pub open spec fn cache_filled(
    pre: World,
    post: World,
    l: LinkView,
    code: Seq<char>,
    secs: u64,
) -> bool {
    ||| post.cached == pre.cached.insert(code, cached_form(l)) && post.lives == pre.lives.insert(
        code,
        secs,
    )
    ||| !pre.retains && cache_kept(pre, post)
}

/// What a redirect that the cache does not answer leaves in the cache before it asks
/// the store: everything but an expired entry that was dropped.
pub open spec fn swept(pre: World, code: Seq<char>, m: Moment) -> World {
    if m.hit is Some && m.evicted {
        World { cached: pre.cached.remove(code), lives: pre.lives.remove(code), ..pre }
    } else {
        pre
    }
}

/// What a redirect makes of a cache: an expired entry is dropped, and a stored link
/// that is served and may be cached is given to it for as long as it may be cached.
pub open spec fn resolve_cache(pre: World, post: World, code: Seq<char>, m: Moment) -> bool {
    if from_cache(m) {
        cache_kept(pre, post)
    } else {
        let rest = swept(pre, code, m);
        match stored(pre.links, code) {
            Some(l) => if clock::expired(l.expires_at, m.store_now) || clock::cache_ttl(
                l.expires_at,
                m.ttl_now,
            ) == 0 {
                cache_kept(rest, post)
            } else {
                cache_filled(
                    rest,
                    post,
                    l,
                    code,
                    clock::cache_ttl(l.expires_at, m.ttl_now) as u64,
                )
            },
            None => cache_kept(rest, post),
        }
    }
}

/// The times that decide are times that the clock showed: the one at which an entry
/// of the cache was judged, and those at which the stored link was.
pub open spec fn timed(m: Moment) -> bool {
    &&& m.hit is Some ==> clock::is_reading(m.cache_now)
    &&& !from_cache(m) ==> clock::is_reading(m.store_now) && clock::is_reading(m.ttl_now)
}

/// What a redirect for a valid code does. A redirect that is served counts one hit;
/// one that is not leaves the store as it is. The store that never fails stays so;
/// of any other nothing is said once it has failed.
pub open spec fn resolve_ok(
    pre: World,
    post: World,
    code: Seq<char>,
    out: Resolved,
    m: Moment,
) -> bool {
    &&& honest_hit(pre, code, m.hit)
    &&& pre.evicts ==> m.evicted
    &&& match out {
        Resolved::To(t) => destination(pre, code, m) == Some(t),
        Resolved::Missing => destination(pre, code, m) is None,
        Resolved::Broken => !pre.reliable && !from_cache(m),
    }
    &&& pre.reliable ==> post.reliable && if out is To {
        hits::counted(pre.links, pre.noted, post.links, post.noted, Some(code))
    } else {
        post.links == pre.links && post.noted == pre.noted
    }
    &&& if out is Broken {
        cache_kept(swept(pre, code, m), post)
    } else {
        resolve_cache(pre, post, code, m)
    }
    &&& post.retains == pre.retains
    &&& post.evicts == pre.evicts
}

/// What the deletion of a valid code does.
pub open spec fn deleted(
    pre: World,
    post: World,
    code: Seq<char>,
    out: Result<(), ServiceError>,
) -> bool {
    &&& match out {
        Ok(()) => pre.links.contains_key(code) && post.links == pre.links.remove(code),
        Err(ServiceError::NotFound) => !pre.links.contains_key(code) && post.links == pre.links,
        Err(ServiceError::Backend(_)) => !pre.reliable,
        Err(_) => false,
    }
    &&& pre.reliable ==> post.reliable
    &&& if out matches Err(ServiceError::Backend(_)) {
        cache_kept(pre, post)
    } else {
        cache_dropped(pre, post, code)
    }
    &&& post.noted == pre.noted
    &&& post.retains == pre.retains
    &&& post.evicts == pre.evicts
}

/// The cache agrees with the store: every entry is the target and the expiry of a
/// stored link.
pub open spec fn consistent(w: World) -> bool {
    forall|k: Seq<char>| #[trigger]
        w.cached.contains_key(k) ==> w.links.contains_key(k) && w.cached[k] == cached_form(
            w.links[k],
        )
}

/// The store does not fail, and the cache drops what it is told to and agrees with
/// the store.
pub open spec fn sound(w: World) -> bool {
    w.reliable && w.evicts && consistent(w)
}

/// A new link under a free code, and the deletion of a link from store and cache,
/// keep the cache in agreement with the store.
proof fn lemma_keeps_consistent(pre: World, post: World, code: Seq<char>)
    requires
        consistent(pre),
        ({
            ||| !pre.links.contains_key(code) && post.links == pre.links.insert(
                code,
                post.links[code],
            ) && post.cached == pre.cached
            ||| post.links == pre.links.remove(code) && post.cached == pre.cached.remove(code)
        }),
    ensures
        consistent(post),
{
    assert forall|k: Seq<char>| #[trigger] post.cached.contains_key(k) implies (
    post.links.contains_key(k) && post.cached[k] == cached_form(post.links[k])) by {
        assert(pre.cached.contains_key(k));
    }
}

/// A code that a generator may draw.
pub open spec fn generated(code: Seq<char>) -> bool {
    code.len() == GENERATED_CODE_LEN && token::plain(code) && token::random(code, GENERATED_CODE_LEN as nat)
}

/// The link is what a client has asked for: brand-new, under the alias or a generated
/// code, and created at a time that the clock showed.
pub open spec fn asked(
    l: LinkView,
    url: Seq<char>,
    alias: Option<Seq<char>>,
    ttl_seconds: Option<u64>,
) -> bool {
    &&& candidate(alias, l.code)
    &&& clock::is_reading(l.created_at)
    &&& l == LinkView {
        code: l.code,
        target: url,
        created_at: l.created_at,
        expires_at: expiry_of(l.created_at, ttl_seconds),
        hits: 0,
    }
}

/// The store, holding these links, may fail to insert the link, with this cause.
pub open spec fn insert_fails<R: LinkRepository>(
    links: Map<Seq<char>, LinkView>,
    l: LinkView,
    cause: String,
) -> bool {
    exists|store: &mut R, link: Link|
        store.links() == links && link@ == l && #[trigger] call_ensures(
            R::insert,
            (store, &link),
            Err(RepoError::Backend(cause)),
        )
}

/// The store may fail to look the code up, with this cause.
pub open spec fn get_fails<R: LinkRepository>(store: R, code: Seq<char>, cause: String) -> bool {
    exists|key: ShortCode|
        key@ == code && #[trigger] call_ensures(
            R::get,
            (&store, &key),
            Err(RepoError::Backend(cause)),
        )
}

/// The store may fail to delete the code, with this cause.
pub open spec fn delete_fails<R: LinkRepository>(
    before: R,
    code: Seq<char>,
    cause: String,
) -> bool {
    exists|store: &mut R, key: ShortCode|
        *store == before && key@ == code && #[trigger] call_ensures(
            R::delete,
            (store, &key),
            Err(RepoError::Backend(cause)),
        )
}

/// The codes before the `k`th are all taken.
pub open spec fn taken_before(
    links: Map<Seq<char>, LinkView>,
    codes: Seq<ShortCode>,
    k: int,
) -> bool {
    forall|i: int| 0 <= i < k ==> links.contains_key((#[trigger] codes[i])@)
}

/// What comes of a draft and the codes to try for it. The link is stored under the
/// first code that is free; where all are taken, that is a conflict; and a failure of
/// the store, which comes at a code before which all were taken, ends the attempts.
pub open spec fn stored_under_first_free<R: LinkRepository>(
    d: Draft,
    codes: Seq<ShortCode>,
    before: R,
    after: R,
    out: Result<Link, ServiceError>,
) -> bool {
    let links = before.links();
    match out {
        Ok(l) => exists|k: int|
            {
                &&& 0 <= k < codes.len()
                &&& taken_before(links, codes, k)
                &&& !links.contains_key((#[trigger] codes[k])@)
                &&& l@ == d.named(codes[k]@)
                &&& after.links() == links.insert(codes[k]@, l@)
            },
        Err(ServiceError::Conflict) => {
            &&& taken_before(links, codes, codes.len() as int)
            &&& after.links() == links
        },
        Err(ServiceError::Backend(cause)) => !before.reliable() && exists|k: int|
            {
                &&& 0 <= k < codes.len()
                &&& taken_before(links, codes, k)
                &&& insert_fails::<R>(links, d.named((#[trigger] codes[k])@), cause)
            },
        Err(_) => false,
    }
}

/// Use cases for creating and resolving short links.
pub struct LinkService<R: LinkRepository, C: Cache<CachedTarget>, H: HitRecorder<R>> {
    pub repo: R,
    /// Hosts (and their subdomains) that may not be shortened. Lowercased.
    pub blocked_hosts: Vec<String>,
    /// Read-cache for the hot redirect path.
    pub cache: C,
    /// Where hits are recorded.
    pub hits: H,
}

impl<R: LinkRepository> LinkService<R, NoOpCache, ImmediateHitRecorder> {
    /// Constructs with caching disabled, no denylist and one write per hit.
    pub fn new(repo: R) -> (s: Self)
        ensures
            s.repo == repo,
            s.blocked_hosts@.len() == 0,
            s.valid(),
            repo.reliable() ==> sound(s.world()),
    {
        LinkService {
            repo,
            blocked_hosts: Vec::new(),
            cache: NoOpCache,
            hits: ImmediateHitRecorder::new(),
        }
    }
}

impl<R: LinkRepository, C: Cache<CachedTarget>> LinkService<R, C, ImmediateHitRecorder> {
    /// Constructs with a denylist, an explicit cache and one write per hit, which
    /// keeps counts exact.
    pub fn with_cache(repo: R, blocked_hosts: Vec<String>, cache: C) -> (s: Self)
        ensures
            s.repo == repo,
            s.blocked_hosts == blocked_hosts,
            s.cache == cache,
            s.valid(),
    {
        LinkService { repo, blocked_hosts, cache, hits: ImmediateHitRecorder::new() }
    }
}

impl<R: LinkRepository, C: Cache<CachedTarget>, H: HitRecorder<R>> LinkService<R, C, H> {
    /// What holds of a service at all times.
    pub open spec fn valid(&self) -> bool {
        self.hits.valid()
    }

    /// What the service works on.
    pub open spec fn world(&self) -> World {
        World {
            links: self.repo.links(),
            cached: targets(self.cache.entries()),
            lives: self.cache.lifetimes(),
            noted: self.hits.noted(),
            reliable: self.repo.reliable(),
            retains: self.cache.retains(),
            evicts: self.cache.evicts(),
        }
    }

    /// Constructs with a denylist, an explicit cache *and* hit recorder, such as a
    /// [`hits::BatchingHitRecorder`].
    pub fn with_cache_and_hits(repo: R, blocked_hosts: Vec<String>, cache: C, hits: H) -> (s: Self)
        ensures
            s.repo == repo,
            s.blocked_hosts == blocked_hosts,
            s.cache == cache,
            s.hits == hits,
    {
        LinkService { repo, blocked_hosts, cache, hits }
    }

    /// Stores a draft under the first of `codes` that is free. A clash goes on to the
    /// next code; with none left it is a conflict. Any other failure of the store is
    /// final.
    pub fn insert_first_free(&mut self, d: &Draft, codes: Vec<ShortCode>) -> (out: Result<
        Link,
        ServiceError,
    >)
        ensures
            final(self).blocked_hosts == old(self).blocked_hosts,
            final(self).cache == old(self).cache,
            final(self).hits == old(self).hits,
            old(self).repo.reliable() ==> final(self).repo.reliable(),
            stored_under_first_free(*d, codes@, old(self).repo, final(self).repo, out),
            sound(old(self).world()) ==> sound(final(self).world()),
    {
        let n: usize = codes.len();
        let mut i: usize = 0;
        while i < n
            invariant
                i <= n,
                n == codes@.len(),
                self.blocked_hosts == old(self).blocked_hosts,
                self.cache == old(self).cache,
                self.hits == old(self).hits,
                old(self).repo.reliable() ==> self.repo.reliable(),
                self.repo.links() == old(self).repo.links(),
                taken_before(old(self).repo.links(), codes@, i as int),
            decreases n - i,
        {
            let link = d.link(codes[i].clone());
            let ghost new = link@;
            let res = self.repo.insert(&link);
            assert(new == d.named(codes@[i as int]@));
            match after_insert(res, link, n - 1 - i) {
                InsertVerdict::Done(l) => {
                    proof {
                        if sound(old(self).world()) {
                            lemma_keeps_consistent(old(self).world(), self.world(), l.code@);
                        }
                    }
                    return Ok(l);
                },
                InsertVerdict::Retry => {},
                InsertVerdict::Fail(e) => {
                    assert(e matches ServiceError::Backend(cause) ==> insert_fails::<R>(
                        old(self).repo.links(),
                        new,
                        cause,
                    ));
                    return Err(e);
                },
            }
            i += 1;
        }
        Err(ServiceError::Conflict)
    }

    /// Creates a link for `url`. When `alias` is given it is used verbatim (and a
    /// clash is a hard conflict); otherwise codes are generated, as many as there are
    /// attempts, and the link goes under the first that is free.
    ///
    /// A link that is created has exactly what was asked for and zero hits, under a
    /// code that was free. What is refused, or codes that are all taken, leave the
    /// store as it is. Nothing else fails while the store does not; a failure of the
    /// store is reported with its cause.
    pub fn create(
        &mut self,
        url: String,
        alias: Option<String>,
        ttl_seconds: Option<u64>,
    ) -> (out: Result<Link, ServiceError>)
        requires
            old(self).valid(),
        ensures
            final(self).valid(),
            final(self).blocked_hosts == old(self).blocked_hosts,
            final(self).cache == old(self).cache,
            final(self).hits == old(self).hits,
            old(self).repo.reliable() ==> final(self).repo.reliable(),
            sound(old(self).world()) ==> sound(final(self).world()),
            match refusal(
                url@,
                domain::parsed_url(url@),
                domain::text_of(alias),
                old(self).blocked_hosts@,
            ) {
                Some(Refusal::Invalid(v)) => out == Err::<Link, ServiceError>(
                    ServiceError::Validation(v),
                ) && final(self).repo == old(self).repo,
                Some(Refusal::Blocked) => out == Err::<Link, ServiceError>(ServiceError::Blocked)
                    && final(self).repo == old(self).repo,
                None => {
                    &&& exists|d: Draft, codes: Vec<ShortCode>|
                        {
                            &&& d.asked(url@, alias, ttl_seconds, d.created_at)
                            &&& clock::is_reading(d.created_at)
                            &&& candidates(domain::text_of(alias), codes@)
                            &&& call_ensures(Draft::codes, (&d,), codes)
                            &&& #[trigger] stored_under_first_free(
                                d,
                                codes@,
                                old(self).repo,
                                final(self).repo,
                                out,
                            )
                        }
                    &&& match out {
                        Ok(l) => {
                            &&& asked(l@, url@, domain::text_of(alias), ttl_seconds)
                            &&& !old(self).repo.links().contains_key(l.code@)
                            &&& final(self).repo.links() == old(self).repo.links().insert(
                                l.code@,
                                l@,
                            )
                        },
                        Err(ServiceError::Conflict) => final(self).repo.links() == old(
                            self,
                        ).repo.links(),
                        Err(ServiceError::Backend(_)) => !old(self).repo.reliable(),
                        Err(_) => false,
                    }
                },
            },
    {
        let d = match draft(url, alias, ttl_seconds, &self.blocked_hosts, clock::now_unix()) {
            Ok(d) => d,
            Err(e) => {
                return Err(e);
            },
        };
        let codes = d.codes();
        self.insert_first_free(&d, codes)
    }

    /// Resolves a code to its target, counting the hit. An invalid code cannot
    /// exist, so it maps to `NotFound` rather than a validation error, and so does
    /// a link that has expired. A failure of the store is reported with its cause.
    pub fn resolve(&mut self, code: &str) -> (out: Result<TargetUrl, ServiceError>)
        requires
            old(self).valid(),
        ensures
            final(self).valid(),
            !token::valid(code@) ==> out == Err::<TargetUrl, ServiceError>(ServiceError::NotFound)
                && *final(self) == *old(self),
            final(self).blocked_hosts == old(self).blocked_hosts,
            token::valid(code@) ==> exists|m: Moment| #[trigger]
                resolve_ok(old(self).world(), final(self).world(), code@, resolved(out), m)
                    && timed(m),
            sound(old(self).world()) ==> sound(final(self).world()),
            out matches Err(e) ==> e is NotFound || e is Backend,
            out matches Err(ServiceError::Backend(cause)) ==> get_fails(
                old(self).repo,
                code@,
                cause,
            ),
    {
        let code = match ShortCode::parse(code) {
            Ok(code) => code,
            Err(_) => {
                return Err(ServiceError::NotFound);
            },
        };
        let ghost pre = self.world();
        let hit = self.cache.get(code.as_str());
        let ghost seen = target_of(hit);
        let cache_now: i64 = clock::now_unix();
        let ghost mut evicted = true;
        match after_cache(hit, cache_now) {
            CacheVerdict::Serve(target) => {
                self.hits.record(&mut self.repo, &code);
                let ghost m = Moment { hit: seen, cache_now, evicted, store_now: 0, ttl_now: 0 };
                proof {
                    assert(resolve_ok(pre, self.world(), code@, Resolved::To(target@), m));
                    resolve_keeps_sound(pre, self.world(), code@, Resolved::To(target@), m);
                }
                return Ok(target);
            },
            CacheVerdict::Evict => {
                proof {
                    lemma_targets(self.cache.entries(), code@, arbitrary());
                }
                self.cache.delete(code.as_str());
                proof {
                    evicted = self.world() == swept(
                        pre,
                        code@,
                        Moment { hit: seen, cache_now, evicted, store_now: 0, ttl_now: 0 },
                    );
                }
            },
            CacheVerdict::Miss => {},
        }
        let store_now: i64 = clock::now_unix();
        let ttl_now: i64 = clock::now_unix();
        let ghost m = Moment { hit: seen, cache_now, evicted, store_now, ttl_now };
        let found = self.repo.get(&code);
        match after_lookup(found, store_now, ttl_now) {
            LookupVerdict::Fail(e) => {
                proof {
                    assert(resolve_ok(pre, self.world(), code@, resolved(Err(e)), m));
                    resolve_keeps_sound(pre, self.world(), code@, resolved(Err(e)), m);
                }
                Err(e)
            },
            LookupVerdict::Serve { target, expires_at, cache_secs } => {
                if cache_secs > 0 {
                    let value = CachedTarget { target: target.clone(), expires_at };
                    proof {
                        lemma_targets(self.cache.entries(), code@, value);
                    }
                    self.cache.set(code.as_str(), value, cache_secs);
                }
                self.hits.record(&mut self.repo, &code);
                proof {
                    assert(resolve_ok(pre, self.world(), code@, Resolved::To(target@), m));
                    resolve_keeps_sound(pre, self.world(), code@, Resolved::To(target@), m);
                }
                Ok(target)
            },
        }
    }

    /// Fetches link metadata without counting a hit. A failure of the store is
    /// reported with its cause.
    pub fn get(&self, code: &str) -> (out: Result<Link, ServiceError>)
        ensures
            match out {
                Ok(l) => token::valid(code@) && stored(self.repo.links(), code@) == Some(l@),
                Err(ServiceError::NotFound) => !token::valid(code@) || !self.repo.links().contains_key(
                    code@,
                ),
                Err(ServiceError::Backend(cause)) => token::valid(code@) && !self.repo.reliable()
                    && get_fails(self.repo, code@, cause),
                Err(_) => false,
            },
    {
        match ShortCode::parse(code) {
            Ok(code) => after_get(self.repo.get(&code)),
            Err(_) => Err(ServiceError::NotFound),
        }
    }

    /// Readiness check: confirms the backing store is reachable. It succeeds where
    /// the store answers a ping, and fails with the store's own error where it does
    /// not.
    pub fn ready(&self) -> (out: Result<(), ServiceError>)
        ensures
            exists|res: Result<(), RepoError>| #[trigger]
                call_ensures(R::ping, (&self.repo,), res) && out == pinged(res),
            self.repo.reliable() ==> out is Ok,
            out matches Err(e) ==> e is Backend,
    {
        after_ping(self.repo.ping())
    }

    /// Deletes a link, or `NotFound` if it does not exist. The cache drops it
    /// either way. A failure of the store is reported with its cause.
    pub fn delete(&mut self, code: &str) -> (out: Result<(), ServiceError>)
        requires
            old(self).valid(),
        ensures
            final(self).valid(),
            !token::valid(code@) ==> out == Err::<(), ServiceError>(ServiceError::NotFound)
                && *final(self) == *old(self),
            token::valid(code@) ==> deleted(
                old(self).world(),
                final(self).world(),
                code@,
                out,
            ),
            final(self).blocked_hosts == old(self).blocked_hosts,
            sound(old(self).world()) ==> sound(final(self).world()),
            out matches Err(ServiceError::Backend(cause)) ==> delete_fails(
                old(self).repo,
                code@,
                cause,
            ),
    {
        let code = match ShortCode::parse(code) {
            Ok(code) => code,
            Err(_) => {
                return Err(ServiceError::NotFound);
            },
        };
        let res = self.repo.delete(&code);
        if res.is_ok() {
            proof {
                lemma_targets(self.cache.entries(), code@, arbitrary());
            }
            self.cache.delete(code.as_str());
        }
        proof {
            let links = old(self).repo.links();
            if !links.contains_key(code@) {
                assert(links.remove(code@) =~= links);
            }
            if sound(old(self).world()) {
                lemma_keeps_consistent(old(self).world(), self.world(), code@);
            }
        }
        after_delete(res)
    }
}

/// What a result of a redirect comes to.
pub open spec fn resolved(out: Result<TargetUrl, ServiceError>) -> Resolved {
    match out {
        Ok(t) => Resolved::To(t@),
        Err(ServiceError::Backend(_)) => Resolved::Broken,
        Err(_) => Resolved::Missing,
    }
}

/// A redirect keeps the cache in agreement with the store.
pub proof fn resolve_keeps_sound(pre: World, post: World, code: Seq<char>, out: Resolved, m: Moment)
    requires
        resolve_ok(pre, post, code, out, m),
    ensures
        sound(pre) ==> sound(post),
{
    if sound(pre) {
        assert forall|k: Seq<char>| #[trigger] post.cached.contains_key(k) implies (
        post.links.contains_key(k) && post.cached[k] == cached_form(post.links[k])) by {
            if pre.cached.contains_key(k) {
                assert(pre.links.contains_key(k));
            }
            if out is To && pre.links.contains_key(k) {
                assert(hits::same_but_hits(post.links[k], pre.links[k]));
            }
        }
    }
}

/// A redirect goes to the target that is stored under the code, and a link that is
/// stored and has not expired is resolved.
pub proof fn resolve_goes_to_the_stored_target(
    pre: World,
    post: World,
    code: Seq<char>,
    out: Resolved,
    m: Moment,
)
    requires
        sound(pre),
        resolve_ok(pre, post, code, out, m),
    ensures
        out matches Resolved::To(t) ==> pre.links.contains_key(code) && t
            == pre.links[code].target,
        pre.links.contains_key(code) && !clock::expired(pre.links[code].expires_at, m.store_now)
            ==> out is To,
        !pre.links.contains_key(code) ==> out is Missing,
{
}

/// What has been created can be resolved: until it expires, a new code redirects to
/// the URL that it was created for.
pub proof fn created_link_is_resolved(
    before: World,
    pre: World,
    post: World,
    l: LinkView,
    out: Resolved,
    m: Moment,
)
    requires
        sound(pre),
        pre.links == before.links.insert(l.code, l),
        !clock::expired(l.expires_at, m.store_now),
        resolve_ok(pre, post, l.code, out, m),
    ensures
        out == Resolved::To(l.target),
{
}

/// A link that has expired by the time it is judged is not resolved, from the cache
/// or from the store, and the store does not change. Its entry leaves a cache that
/// drops what it is told to.
pub proof fn expired_link_is_not_resolved(
    pre: World,
    post: World,
    code: Seq<char>,
    out: Resolved,
    m: Moment,
)
    requires
        pre.reliable,
        consistent(pre),
        pre.links.contains_key(code),
        clock::expired(pre.links[code].expires_at, m.cache_now),
        clock::expired(pre.links[code].expires_at, m.store_now),
        resolve_ok(pre, post, code, out, m),
    ensures
        out is Missing,
        post.links == pre.links,
        post.noted == pre.noted,
        cache_kept(swept(pre, code, m), post),
        pre.evicts && m.hit is Some ==> !post.cached.contains_key(code),
{
}

/// What a redirect gives to the cache stays there for one second at least, for no
/// longer than the bound, and never beyond the link's own expiry.
pub proof fn cache_entry_ends_with_the_link(
    pre: World,
    post: World,
    code: Seq<char>,
    t: Seq<char>,
    m: Moment,
)
    requires
        resolve_ok(pre, post, code, Resolved::To(t), m),
        m.hit is None,
        !cache_kept(pre, post),
    ensures
        post.cached == pre.cached.insert(code, cached_form(pre.links[code])),
        post.lives == pre.lives.insert(code, post.lives[code]),
        1 <= post.lives[code] <= clock::MAX_CACHE_TTL_SECS,
        pre.links[code].expires_at matches Some(exp) ==> m.ttl_now + post.lives[code] <= exp,
{
}

/// A link that has been deleted is not found any more, neither in the store nor in
/// the cache.
pub proof fn deleted_link_is_gone(
    pre: World,
    mid: World,
    post: World,
    code: Seq<char>,
    gone: Result<(), ServiceError>,
    out: Resolved,
    m: Moment,
)
    requires
        sound(pre),
        deleted(pre, mid, code, gone),
        resolve_ok(mid, post, code, out, m),
    ensures
        gone is Ok <==> pre.links.contains_key(code),
        out is Missing,
{
}

/// With a recorder that notes nothing, a link that is resolved has one hit more,
/// and every other link is as it was.
pub proof fn resolved_link_gains_a_hit(
    pre: World,
    post: World,
    code: Seq<char>,
    t: Seq<char>,
    m: Moment,
)
    requires
        sound(pre),
        resolve_ok(pre, post, code, Resolved::To(t), m),
        pre.noted == Map::<Seq<char>, i64>::empty(),
        post.noted == Map::<Seq<char>, i64>::empty(),
        pre.links[code].hits < i64::MAX,
    ensures
        post.links == pre.links.insert(
            code,
            LinkView { hits: (pre.links[code].hits + 1) as i64, ..pre.links[code] },
        ),
{
    resolve_goes_to_the_stored_target(pre, post, code, Resolved::To(t), m);
    let expected = pre.links.insert(
        code,
        LinkView { hits: (pre.links[code].hits + 1) as i64, ..pre.links[code] },
    );
    assert(post.links.dom() =~= expected.dom());
    assert forall|k: Seq<char>| pre.links.contains_key(k) implies #[trigger] post.links[k]
        == expected[k] by {
        assert(hits::same_but_hits(post.links[k], pre.links[k]));
        assert(hits::in_range(pre.links[k].hits, 0, hits::gain(Some(code), k)));
    }
    assert(post.links =~= expected);
}

/// Wherever a host is blocked, its subdomains are blocked too.
pub proof fn subdomain_of_blocked_host_is_refused(
    url: Seq<char>,
    scheme: Seq<char>,
    label: Seq<char>,
    host: Seq<char>,
    alias: Option<Seq<char>>,
    blocked: Seq<String>,
)
    requires
        domain::url_check(url, Some((scheme, Some(label + seq!['.'] + host)))) is Ok,
        domain::denied(host, blocked),
    ensures
        refusal(url, Some((scheme, Some(label + seq!['.'] + host))), alias, blocked) == Some(
            Refusal::Blocked,
        ),
{
    let whole = label + seq!['.'] + host;
    let i = choose|i: int|
        0 <= i < blocked.len() && domain::falls_under(
            text::lowered(host),
            #[trigger] blocked[i]@,
        );
    assert(text::lowered(whole) =~= text::lowered(label) + seq!['.'] + text::lowered(host));
    domain::subdomains_are_denied(text::lowered(label), text::lowered(host), blocked[i]@);
}

/// A draft is accepted exactly if its URL is one with the scheme `http` or `https`, a
/// host that is not denied and at most 2048 bytes, and its alias, if any, has 1 to 32
/// letters and digits. It then holds what was asked for, and expires its time to live
/// after its creation.
pub proof fn drafts_hold_what_was_asked(
    url: String,
    parts: Option<UrlParts>,
    alias: Option<String>,
    ttl_seconds: Option<u64>,
    blocked: Vec<String>,
    created_at: i64,
    out: Result<Draft, ServiceError>,
)
    requires
        call_ensures(draft_parsed, (url, &parts, alias, ttl_seconds, &blocked, created_at), out),
    ensures
        out is Ok <==> {
            &&& vstd::utf8::encode_utf8(url@).len() <= 2048
            &&& parts matches Some(p) && (p.scheme@ == "http"@ || p.scheme@ == "https"@)
                && p.host is Some && !domain::denied(p.host->0@, blocked@)
            &&& alias matches Some(a) ==> token::valid(a@)
        },
        out matches Err(e) ==> e is Validation || e is Blocked,
        out matches Err(ServiceError::Blocked) ==> (parts matches Some(p) && p.host is Some
            && domain::denied(p.host->0@, blocked@)),
        out matches Ok(d) ==> {
            &&& d.target@ == url@
            &&& d.created_at == created_at
            &&& d.alias is Some <==> alias is Some
            &&& alias is Some ==> d.alias->0@ == alias->0@
            &&& d.expires_at is Some <==> ttl_seconds is Some
            &&& ttl_seconds matches Some(t) ==> (created_at + t <= i64::MAX
                ==> d.expires_at->0 - created_at == t)
            &&& ttl_seconds matches Some(t) ==> (created_at + t > i64::MAX
                ==> d.expires_at->0 == i64::MAX)
        },
{
    if let Some(a) = alias {
        token::accepted_iff_valid(a@);
    }
}

/// A link that is created is what was asked for, under the alias or under a code of
/// seven letters and digits, which was free. It has no hits. It expires its time to live
/// after its creation, or at the end of the range of times where that lies beyond it,
/// and never where no time to live was given. The store holds it, and every other link
/// as before.
pub proof fn created_link_is_what_was_asked<R: LinkRepository>(
    d: Draft,
    codes: Seq<ShortCode>,
    url: Seq<char>,
    alias: Option<String>,
    ttl_seconds: Option<u64>,
    before: R,
    after: R,
    l: Link,
)
    requires
        d.asked(url, alias, ttl_seconds, d.created_at),
        candidates(domain::text_of(alias), codes),
        stored_under_first_free(d, codes, before, after, Ok::<Link, ServiceError>(l)),
    ensures
        l.target@ == url && l.hits == 0,
        alias matches Some(a) ==> l.code@ == a@ && codes.len() == 1,
        alias is None ==> l.code@.len() == 7 && token::random(l.code@, 7) && codes.len() == 5,
        l.expires_at is Some <==> ttl_seconds is Some,
        ttl_seconds matches Some(t) ==> (l.created_at + t <= i64::MAX
            ==> l.expires_at->0 - l.created_at == t),
        ttl_seconds matches Some(t) ==> (l.created_at + t > i64::MAX
            ==> l.expires_at->0 == i64::MAX),
        !before.links().contains_key(l.code@),
        after.links().contains_key(l.code@) && after.links()[l.code@] == l@,
        after.links().remove(l.code@) =~= before.links(),
{
    let k = choose|k: int|
        {
            &&& 0 <= k < codes.len()
            &&& taken_before(before.links(), codes, k)
            &&& !before.links().contains_key((#[trigger] codes[k])@)
            &&& l@ == d.named(codes[k]@)
            &&& after.links() == before.links().insert(codes[k]@, l@)
        };
    assert(candidate(domain::text_of(alias), codes[k]@));
    assert(l@ == d.named(codes[k]@));
}

/// What a client asks for is created at a time that the clock showed, with the time to
/// live that it gave.
pub proof fn asked_for_means_to_the_second(
    l: LinkView,
    url: Seq<char>,
    alias: Option<Seq<char>>,
    ttl_seconds: Option<u64>,
)
    requires
        asked(l, url, alias, ttl_seconds),
    ensures
        l.target == url && l.hits == 0,
        alias matches Some(a) ==> l.code == a,
        alias is None ==> l.code.len() == 7 && token::random(l.code, 7),
        clock::is_reading(l.created_at),
        l.expires_at is Some <==> ttl_seconds is Some,
        ttl_seconds matches Some(t) ==> (l.created_at + t <= i64::MAX
            ==> l.expires_at->0 - l.created_at == t),
        ttl_seconds matches Some(t) ==> (l.created_at + t > i64::MAX
            ==> l.expires_at->0 == i64::MAX),
{
}

/// A generated code spells one draw for each of its characters.
pub proof fn generated_codes_take_one_draw_per_character(len: usize, code: String)
    requires
        call_ensures(generate_code, (len,), code),
    ensures
        code@.len() == len,
        token::random(code@, len as nat),
{
    token::random_text_takes_one_draw_per_character(code@, len as nat);
}

/// A stored link that has not expired is redirected to its target; one that has, and one
/// that is not stored, is not found.
pub proof fn stored_link_is_served_until_it_expires(
    l: Link,
    now: i64,
    ttl_now: i64,
    verdict: LookupVerdict,
    missing: LookupVerdict,
)
    requires
        call_ensures(after_lookup, (Ok(Some(l)), now, ttl_now), verdict),
        call_ensures(after_lookup, (Ok(None), now, ttl_now), missing),
    ensures
        (l.expires_at matches Some(e) && e <= now) ==> verdict == LookupVerdict::Fail(
            ServiceError::NotFound,
        ),
        !(l.expires_at matches Some(e) && e <= now) ==> {
            &&& verdict matches LookupVerdict::Serve { target, expires_at, cache_secs }
            &&& target == l.target
            &&& expires_at == l.expires_at
            &&& cache_secs <= 300
            &&& l.expires_at matches Some(e) ==> cache_secs == 0 || ttl_now + cache_secs <= e
        },
        missing == LookupVerdict::Fail(ServiceError::NotFound),
{
}

/// What the cache holds is served as it is until it expires.
pub proof fn cached_target_is_served_until_it_expires(
    c: CachedTarget,
    now: i64,
    verdict: CacheVerdict,
    missing: CacheVerdict,
)
    requires
        call_ensures(after_cache, (Some(c), now), verdict),
        call_ensures(after_cache, (None, now), missing),
    ensures
        verdict is Evict <==> (c.expires_at matches Some(e) && e <= now),
        !(verdict is Evict) ==> verdict == CacheVerdict::Serve(c.target),
        missing is Miss,
{
}

/// Metadata is given out as it is stored, whether or not the link has expired.
pub proof fn metadata_is_given_out_as_stored(
    l: Link,
    found: Result<Link, ServiceError>,
    missing: Result<Link, ServiceError>,
)
    requires
        call_ensures(after_get, (Ok(Some(l)),), found),
        call_ensures(after_get, (Ok(None),), missing),
    ensures
        found == Ok::<Link, ServiceError>(l),
        missing == Err::<Link, ServiceError>(ServiceError::NotFound),
{
}

/// A clash is retried while attempts are left; any other failure is final.
pub proof fn only_a_clash_is_retried(
    link: Link,
    cause: String,
    left: usize,
    stored: InsertVerdict,
    clash: InsertVerdict,
    failed: InsertVerdict,
)
    requires
        call_ensures(after_insert, (Ok(()), link, left), stored),
        call_ensures(after_insert, (Err(RepoError::Conflict), link, left), clash),
        call_ensures(after_insert, (Err(RepoError::Backend(cause)), link, left), failed),
    ensures
        stored == InsertVerdict::Done(link),
        left > 0 ==> clash is Retry,
        left == 0 ==> clash == InsertVerdict::Fail(ServiceError::Conflict),
        failed == InsertVerdict::Fail(ServiceError::Backend(cause)),
{
}

/// A deletion that removed something succeeds, one that did not is not found, and a
/// failure of the store is reported.
pub proof fn deletions_report_what_was_removed(
    cause: String,
    gone: Result<(), ServiceError>,
    absent: Result<(), ServiceError>,
    failed: Result<(), ServiceError>,
)
    requires
        call_ensures(after_delete, (Ok(true),), gone),
        call_ensures(after_delete, (Ok(false),), absent),
        call_ensures(after_delete, (Err(RepoError::Backend(cause)),), failed),
    ensures
        gone is Ok,
        absent == Err::<(), ServiceError>(ServiceError::NotFound),
        failed == Err::<(), ServiceError>(ServiceError::Backend(cause)),
{
}

/// The codes for one link without an alias are five, of seven characters each, and each
/// takes draws of its own, made after those for the one before it; for one with an alias
/// it is the alias alone.
pub proof fn codes_for_a_link_are_drawn_one_after_the_other(d: Draft, codes: Vec<ShortCode>)
    requires
        call_ensures(Draft::codes, (&d,), codes),
    ensures
        d.alias matches Some(a) ==> codes@.len() == 1 && codes@[0]@ == a@,
        d.alias is None ==> codes@.len() == 5 && exists|
            rngs: Seq<rand::rngs::ThreadRng>,
            texts: Seq<Seq<char>>,
        |
            {
                &&& #[trigger] token::random_in_turn(rngs, texts, 7)
                &&& texts.len() == 5
                &&& forall|i: int| 0 <= i < 5 ==> #[trigger] texts[i] == codes@[i]@
            },
{
    if d.alias is None {
        assert forall|i: int| 0 <= i < 5 implies #[trigger] texts_of(codes@)[i] == codes@[i]@ by {}
    } else {
        assert(candidate(d.chosen(), codes@[0]@));
    }
}

/// With a reliable store and a cache that agrees with it, a redirect goes exactly where
/// the stored link does. A link that expires later than any time the clock shows, or
/// never, is resolved to its target; one that has expired at any such time is not found,
/// and neither is what is not stored. Every link stays stored, with all but its count of
/// hits.
pub proof fn resolve_finds_what_is_stored<
    R: LinkRepository,
    C: Cache<CachedTarget>,
    H: HitRecorder<R>,
>(s: &mut LinkService<R, C, H>, code: &str, out: Result<TargetUrl, ServiceError>)
    requires
        old(s).valid(),
        sound(old(s).world()),
        call_ensures(LinkService::<R, C, H>::resolve, (s, code), out),
    ensures
        out matches Err(e) ==> e is NotFound,
        !token::valid(code@) ==> out is Err,
        !old(s).repo.links().contains_key(code@) ==> out is Err,
        token::valid(code@) && old(s).repo.links().contains_key(code@) ==> {
            let l = old(s).repo.links()[code@];
            &&& l.expires_at is None ==> out is Ok
            &&& (l.expires_at is Some && forall|t: i64| #[trigger]
                clock::is_reading(t) ==> t < l.expires_at->0) ==> out is Ok
            &&& (l.expires_at is Some && forall|t: i64| #[trigger]
                clock::is_reading(t) ==> l.expires_at->0 <= t) ==> out is Err
            &&& out is Ok ==> out->Ok_0@ == l.target
        },
        forall|k: Seq<char>|
            #![trigger final(s).repo.links().contains_key(k)]
            #![trigger old(s).repo.links().contains_key(k)]
            {
                let before = old(s).repo.links();
                let after = final(s).repo.links();
                &&& after.contains_key(k) <==> before.contains_key(k)
                &&& before.contains_key(k) ==> after[k].code == before[k].code && after[k].target
                    == before[k].target && after[k].created_at == before[k].created_at
                    && after[k].expires_at == before[k].expires_at
            },
{
    if token::valid(code@) {
        let pre = old(s).world();
        let m = choose|m: Moment| #[trigger]
            resolve_ok(pre, final(s).world(), code@, resolved(out), m) && timed(m);
        resolve_goes_to_the_stored_target(pre, final(s).world(), code@, resolved(out), m);
        if pre.cached.contains_key(code@) {
            assert(pre.cached[code@] == cached_form(pre.links[code@]));
        }
        assert forall|k: Seq<char>| #[trigger] pre.links.contains_key(k) implies
            final(s).repo.links().contains_key(k) && hits::same_but_hits(
            final(s).repo.links()[k],
            pre.links[k],
        ) by {
            assert(final(s).repo.links().dom().contains(k));
        }
        assert forall|k: Seq<char>| #[trigger]
            final(s).repo.links().contains_key(k) implies pre.links.contains_key(k) by {
            assert(final(s).repo.links().dom().contains(k));
        }
    }
}

/// With a reliable store, a URL that may be shortened is stored exactly as asked for.
/// That is a URL of at most 2048 bytes with the scheme `http` or `https` and a host that
/// is not denied. The link goes under the alias, which has 1 to 32 letters and digits,
/// or under a code that was drawn. An alias that is taken is a conflict, and so are
/// drawn codes that are all taken. A denied host is blocked; anything else is invalid.
/// Every other link stays as it is.
pub proof fn create_stores_what_was_asked<
    R: LinkRepository,
    C: Cache<CachedTarget>,
    H: HitRecorder<R>,
>(
    s: &mut LinkService<R, C, H>,
    url: String,
    alias: Option<String>,
    ttl_seconds: Option<u64>,
    out: Result<Link, ServiceError>,
)
    requires
        old(s).valid(),
        old(s).repo.reliable(),
        call_ensures(LinkService::<R, C, H>::create, (s, url, alias, ttl_seconds), out),
    ensures
        ({
            let parsed = domain::parsed_url(url@);
            let scheme = (parsed->Some_0).0;
            let host = (parsed->Some_0).1;
            let proper = vstd::utf8::encode_utf8(url@).len() <= 2048 && parsed is Some && (scheme
                == "http"@ || scheme == "https"@) && host is Some;
            let denied = proper && domain::denied(host->Some_0, old(s).blocked_hosts@);
            let named = alias is Some ==> token::valid(alias->0@);
            &&& out is Ok ==> proper && !denied && named
            &&& proper && !denied && named ==> out is Ok || out == Err::<Link, ServiceError>(
                ServiceError::Conflict,
            )
            &&& denied <==> out == Err::<Link, ServiceError>(ServiceError::Blocked)
            &&& !proper || !denied && !named <==> out is Err && out->Err_0 is Validation
            &&& proper && !denied && named && alias is Some ==> (out is Ok
                <==> !old(s).repo.links().contains_key(alias->0@))
        }),
        out is Err ==> final(s).repo.links() == old(s).repo.links(),
        alias is None && out is Err && out->Err_0 is Conflict ==> exists|
            d: Draft,
            codes: Vec<ShortCode>,
        |
            d.alias is None && #[trigger] call_ensures(Draft::codes, (&d,), codes) && forall|i: int|
                0 <= i < codes@.len() ==> old(s).repo.links().contains_key(
                    (#[trigger] codes@[i])@,
                ),
        out is Ok ==> {
            let l = out->Ok_0;
            &&& l.target@ == url@ && l.hits == 0
            &&& alias is Some ==> l.code@ == alias->0@
            &&& alias is None ==> l.code@.len() == 7 && token::random(l.code@, 7)
            &&& clock::is_reading(l.created_at)
            &&& l.expires_at is Some <==> ttl_seconds is Some
            &&& ttl_seconds is Some && l.created_at + ttl_seconds->0 <= i64::MAX
                ==> l.expires_at->0 == l.created_at + ttl_seconds->0
            &&& ttl_seconds is Some && l.created_at + ttl_seconds->0 > i64::MAX
                ==> l.expires_at->0 == i64::MAX
            &&& !old(s).repo.links().contains_key(l.code@)
            &&& final(s).repo.links() == old(s).repo.links().insert(l.code@, l@)
        },
        final(s).cache == old(s).cache,
        final(s).blocked_hosts == old(s).blocked_hosts,
{
    if let Some(a) = alias {
        token::accepted_iff_valid(a@);
    }
    if refusal(
        url@,
        domain::parsed_url(url@),
        domain::text_of(alias),
        old(s).blocked_hosts@,
    ) is None {
        let (d, codes) = choose|d: Draft, codes: Vec<ShortCode>|
            {
                &&& d.asked(url@, alias, ttl_seconds, d.created_at)
                &&& clock::is_reading(d.created_at)
                &&& candidates(domain::text_of(alias), codes@)
                &&& call_ensures(Draft::codes, (&d,), codes)
                &&& #[trigger] stored_under_first_free(
                    d,
                    codes@,
                    old(s).repo,
                    final(s).repo,
                    out,
                )
            };
        assert(call_ensures(Draft::codes, (&d,), codes));
        if alias is Some {
            assert(candidate(domain::text_of(alias), codes@[0]@));
        }
    }
}

/// With a reliable store, the metadata of a link is what is stored under its code, and
/// what is not stored is not found. Reading it changes nothing.
pub proof fn get_finds_what_is_stored<
    R: LinkRepository,
    C: Cache<CachedTarget>,
    H: HitRecorder<R>,
>(s: LinkService<R, C, H>, code: &str, out: Result<Link, ServiceError>)
    requires
        s.repo.reliable(),
        call_ensures(LinkService::<R, C, H>::get, (&s, code), out),
    ensures
        out is Ok <==> token::valid(code@) && s.repo.links().contains_key(code@),
        out is Err ==> out->Err_0 is NotFound,
        out is Ok ==> {
            let l = s.repo.links()[code@];
            let got = out->Ok_0;
            &&& got.code@ == l.code && got.target@ == l.target && got.hits == l.hits
            &&& got.created_at == l.created_at && got.expires_at == l.expires_at
        },
{
}

/// With a reliable store, a deletion succeeds exactly where the link is stored. The store
/// then holds every link but that one, and so does a cache that drops what it is told to.
pub proof fn delete_removes_one_link<
    R: LinkRepository,
    C: Cache<CachedTarget>,
    H: HitRecorder<R>,
>(s: &mut LinkService<R, C, H>, code: &str, out: Result<(), ServiceError>)
    requires
        old(s).valid(),
        old(s).repo.reliable(),
        call_ensures(LinkService::<R, C, H>::delete, (s, code), out),
    ensures
        out is Ok <==> token::valid(code@) && old(s).repo.links().contains_key(code@),
        out is Err ==> out->Err_0 is NotFound,
        out is Ok ==> final(s).repo.links() == old(s).repo.links().remove(code@),
        out is Err ==> final(s).repo.links() == old(s).repo.links(),
        forall|k: Seq<char>|
            k != code@ ==> (#[trigger] final(s).cache.entries().contains_key(k)
                <==> old(s).cache.entries().contains_key(k)),
        old(s).cache.evicts() && token::valid(code@) ==> !final(s).cache.entries().contains_key(
            code@,
        ),
        final(s).blocked_hosts == old(s).blocked_hosts,
{
    if token::valid(code@) {
        let before = old(s).world().cached;
        let after = final(s).world().cached;
        assert forall|k: Seq<char>|
            k != code@ implies (#[trigger] final(s).cache.entries().contains_key(k)
                <==> old(s).cache.entries().contains_key(k)) by {
            assert(after.contains_key(k) <==> before.contains_key(k));
            assert(after.dom().contains(k) == final(s).cache.entries().dom().contains(k));
            assert(before.dom().contains(k) == old(s).cache.entries().dom().contains(k));
        }
        if old(s).cache.evicts() {
            assert(!after.contains_key(code@));
            assert(after.dom().contains(code@) == final(s).cache.entries().dom().contains(code@));
        }
    }
}

/// A link that is resolved, and that expires later than any time the clock shows or
/// never, is in a cache afterwards that keeps what it is given: with its target, its
/// expiry, and a life of at most five minutes.
pub proof fn resolved_links_are_cached<
    R: LinkRepository,
    C: Cache<CachedTarget>,
    H: HitRecorder<R>,
>(s: &mut LinkService<R, C, H>, code: &str, out: Result<TargetUrl, ServiceError>)
    requires
        old(s).valid(),
        sound(old(s).world()),
        old(s).cache.retains(),
        call_ensures(LinkService::<R, C, H>::resolve, (s, code), out),
        out is Ok,
        old(s).repo.links()[code@].expires_at is Some ==> forall|t: i64| #[trigger]
            clock::is_reading(t) ==> t < old(s).repo.links()[code@].expires_at->0,
    ensures
        final(s).cache.entries().contains_key(code@),
        final(s).cache.entries()[code@]@.target == out->Ok_0@,
        final(s).cache.entries()[code@]@.expires_at == old(s).repo.links()[code@].expires_at,
        !old(s).cache.entries().contains_key(code@) ==> final(s).cache.lifetimes()[code@] <= 300,
{
    resolve_finds_what_is_stored(s, code, out);
    let pre = old(s).world();
    let post = final(s).world();
    let m = choose|m: Moment| #[trigger]
        resolve_ok(pre, post, code@, resolved(out), m) && timed(m);
    resolve_goes_to_the_stored_target(pre, post, code@, resolved(out), m);
    if pre.cached.contains_key(code@) {
        assert(pre.cached[code@] == cached_form(pre.links[code@]));
    }
    assert(post.cached.contains_key(code@));
    assert(post.cached.dom().contains(code@) == final(s).cache.entries().dom().contains(code@));
    assert(post.cached[code@] == final(s).cache.entries()[code@]@);
}

/// The service is ready exactly as the store is: a store that answers a ping makes it
/// ready, and a failure is reported as it is.
pub proof fn ready_as_the_store_is<R: LinkRepository, C: Cache<CachedTarget>, H: HitRecorder<R>>(
    s: LinkService<R, C, H>,
    cause: String,
    out: Result<(), ServiceError>,
    answered: Result<(), ServiceError>,
    failed: Result<(), ServiceError>,
)
    requires
        call_ensures(LinkService::<R, C, H>::ready, (&s,), out),
        call_ensures(after_ping, (Ok(()),), answered),
        call_ensures(after_ping, (Err(RepoError::Backend(cause)),), failed),
    ensures
        s.repo.reliable() ==> out is Ok,
        exists|res: Result<(), RepoError>| #[trigger]
            call_ensures(R::ping, (&s.repo,), res) && (res is Ok <==> out is Ok),
        answered is Ok,
        failed == Err::<(), ServiceError>(ServiceError::Backend(cause)),
{
    let res = choose|res: Result<(), RepoError>| #[trigger]
        call_ensures(R::ping, (&s.repo,), res) && out == pinged(res);
    assert(call_ensures(R::ping, (&s.repo,), res));
}

/// A service is made of the parts it is given, and keeps them; without a denylist, it
/// denies no host.
pub proof fn services_are_made_of_their_parts<
    R: LinkRepository,
    C: Cache<CachedTarget>,
    H: HitRecorder<R>,
>(
    repo: R,
    blocked_hosts: Vec<String>,
    cache: C,
    hits: H,
    a: LinkService<R, NoOpCache, ImmediateHitRecorder>,
    b: LinkService<R, C, ImmediateHitRecorder>,
    c: LinkService<R, C, H>,
    host: Seq<char>,
)
    requires
        call_ensures(LinkService::<R, NoOpCache, ImmediateHitRecorder>::new, (repo,), a),
        call_ensures(
            LinkService::<R, C, ImmediateHitRecorder>::with_cache,
            (repo, blocked_hosts, cache),
            b,
        ),
        call_ensures(
            LinkService::<R, C, H>::with_cache_and_hits,
            (repo, blocked_hosts, cache, hits),
            c,
        ),
    ensures
        a.repo == repo && b.repo == repo && c.repo == repo,
        b.cache == cache && c.cache == cache,
        b.blocked_hosts == blocked_hosts && c.blocked_hosts == blocked_hosts,
        !domain::denied(host, a.blocked_hosts@),
        c.hits == hits,
        a.valid() && b.valid(),
        repo.reliable() ==> sound(a.world()),
{
}

/// A draft becomes a link with all that it holds, and no hits. A chosen code is tried
/// once and as it is; otherwise codes of seven characters are drawn, up to five.
pub proof fn drafts_become_what_they_hold(
    d: Draft,
    code: ShortCode,
    l: Link,
    n: usize,
    tried: ShortCode,
)
    requires
        call_ensures(Draft::link, (&d, code), l),
        call_ensures(Draft::attempts, (&d,), n),
        call_ensures(Draft::code, (&d,), tried),
    ensures
        l.code@ == code@ && l.target@ == d.target@ && l.hits == 0,
        l.created_at == d.created_at && l.expires_at == d.expires_at,
        d.alias is Some ==> n == 1 && tried@ == d.alias->0@,
        d.alias is None ==> n == 5 && tried@.len() == 7 && token::random(tried@, 7),
{
}

} // verus!
