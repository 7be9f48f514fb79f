use rest_services::cache::{Cache, InMemoryCache, NoOpCache};
use rest_services::env::Env;
use rest_services::error::rate_limited;
use rest_services::net::{ClientIp, SocketAddress};
use rest_services::shortener::api::{
    create_reply, create_status_code, delete_reply, delete_status_code, link_reply,
    link_status_code, redirect_reply, redirect_status_code, CreateLinkRequest, CreateLinkResponse,
};
use rest_services::shortener::application::{
    after_cache, after_get, after_insert, after_lookup, draft, draft_parsed, generate_code,
    CacheVerdict, CachedTarget, InsertVerdict, LinkService, LookupVerdict, ServiceError,
    GENERATED_CODE_LEN,
};
use rest_services::shortener::config::ConfigError;
use rest_services::shortener::domain::{
    host_denied, Link, LinkRepository, RepoError, ShortCode, TargetUrl, UrlParts, ValidationError,
    CODE_MAX_LEN, URL_MAX_LEN,
};
use rest_services::shortener::hits::{BatchingHitRecorder, HitRecorder, ImmediateHitRecorder};
use rest_services::shortener::infrastructure::{Cmd, InMemoryLinkRepository, Reply};
use rest_services::shortener::metrics::Metrics;
use rest_services::shortener::rate_limit::RateLimiter;
use rest_services::shortener::{AppError, Config};

fn text(s: &str) -> String {
    s.to_owned()
}

fn url(s: &str) -> TargetUrl {
    TargetUrl::parse(text(s)).unwrap()
}

// --- domain -----------------------------------------------------------------

#[test]
fn short_code_accepts_valid() {
    assert_eq!(ShortCode::parse("abc123").unwrap().as_str(), "abc123");
}

#[test]
fn short_code_rejects_empty_and_overlong() {
    assert_eq!(ShortCode::parse(""), Err(ValidationError::CodeLength));
    let too_long = "a".repeat(CODE_MAX_LEN + 1);
    assert_eq!(ShortCode::parse(&too_long), Err(ValidationError::CodeLength));
}

#[test]
fn short_code_rejects_bad_charset() {
    assert_eq!(ShortCode::parse("ab-c"), Err(ValidationError::CodeCharset));
    assert_eq!(ShortCode::parse("a/b"), Err(ValidationError::CodeCharset));
}

#[test]
fn target_url_accepts_http_and_https() {
    assert!(TargetUrl::parse(text("https://example.com/path?q=1")).is_ok());
    assert!(TargetUrl::parse(text("http://example.com")).is_ok());
    // The text is kept as it was given.
    assert_eq!(url("HTTP://Example.COM").as_str(), "HTTP://Example.COM");
}

#[test]
fn target_url_rejects_other_schemes_and_garbage() {
    assert_eq!(
        TargetUrl::parse(text("ftp://example.com")),
        Err(ValidationError::UrlScheme)
    );
    assert_eq!(
        TargetUrl::parse(text("not a url")),
        Err(ValidationError::UrlInvalid)
    );
    assert_eq!(TargetUrl::parse(text("mailto:a@b.c")), Err(ValidationError::UrlScheme));
    assert_eq!(TargetUrl::parse(text("http://")), Err(ValidationError::UrlInvalid));
}

#[test]
fn target_url_rejects_overlong() {
    let long = format!("https://example.com/{}", "x".repeat(URL_MAX_LEN));
    assert_eq!(TargetUrl::parse(long), Err(ValidationError::UrlTooLong));
    // Too long is told before anything else.
    assert_eq!(TargetUrl::parse("x".repeat(URL_MAX_LEN + 1)), Err(ValidationError::UrlTooLong));
    let fits = format!("https://example.com/{}", "x".repeat(URL_MAX_LEN - 20));
    assert!(TargetUrl::parse(fits).is_ok());
}

#[test]
fn target_is_judged_by_the_parts_of_its_url() {
    let parts = |scheme: &str, host: Option<&str>| {
        Some(UrlParts { scheme: text(scheme), host: host.map(text) })
    };
    assert!(TargetUrl::judge(text("x"), &parts("http", Some("h"))).is_ok());
    assert!(TargetUrl::judge(text("x"), &parts("https", Some("h"))).is_ok());
    assert_eq!(
        TargetUrl::judge(text("x"), &parts("httpx", Some("h"))),
        Err(ValidationError::UrlScheme)
    );
    assert_eq!(TargetUrl::judge(text("x"), &parts("file", None)), Err(ValidationError::UrlScheme));
    assert_eq!(TargetUrl::judge(text("x"), &parts("http", None)), Err(ValidationError::UrlInvalid));
    assert_eq!(TargetUrl::judge(text("x"), &None), Err(ValidationError::UrlInvalid));
}

#[test]
fn new_link_starts_with_zero_hits() {
    let link = Link::new(
        ShortCode::parse("abc").unwrap(),
        TargetUrl::parse(text("https://example.com")).unwrap(),
        1_700_000_000,
    );
    assert_eq!(link.hits, 0);
    assert_eq!(link.expires_at, None);
    assert!(!link.is_expired(i64::MAX));
}

#[test]
fn rows_hold_links() {
    let l = sample();
    assert_eq!(l.to_row().target, "https://example.com");
    assert_eq!(Link::from_row(l.to_row()), Some(l));
    let mut bad = sample().to_row();
    bad.code = text("");
    assert_eq!(Link::from_row(bad), None);
}

#[test]
fn hosts_and_their_subdomains_are_denied() {
    let list = vec![text("evil.com"), text("malware.test")];
    assert!(host_denied("evil.com", &list));
    assert!(host_denied("a.b.evil.com", &list));
    assert!(host_denied("EVIL.com", &list));
    assert!(host_denied("x.malware.test", &list));
    assert!(!host_denied("notevil.com", &list));
    assert!(!host_denied("evil.com.org", &list));
    assert!(!host_denied("com", &list));
    assert!(!host_denied("", &list));
    assert!(!host_denied("evil.com", &Vec::new()));
}

#[test]
fn shortener_errors_are_described() {
    assert_eq!(
        ValidationError::CodeLength.message(),
        "short code must be between 1 and 32 characters"
    );
    assert_eq!(
        ValidationError::CodeCharset.message(),
        "short code must contain only ASCII letters and digits"
    );
    assert_eq!(ValidationError::UrlTooLong.message(), "url must be 2048 bytes or fewer");
    assert_eq!(
        ValidationError::UrlInvalid.message(),
        "url must be a valid absolute URL with a host"
    );
    assert_eq!(ValidationError::UrlScheme.message(), "url scheme must be http or https");
    assert_eq!(RepoError::Conflict.message(), "short code already exists");
    assert_eq!(RepoError::Backend(text("disk")).message(), "disk");
    assert_eq!(ServiceError::Conflict.message(), "short code already in use");
    assert_eq!(ServiceError::Blocked.message(), "target host is not allowed");
    assert_eq!(ServiceError::NotFound.message(), "not found");
}

// --- application ------------------------------------------------------------

type Svc = LinkService<InMemoryLinkRepository, NoOpCache, ImmediateHitRecorder>;

fn service() -> Svc {
    LinkService::new(InMemoryLinkRepository::default())
}

#[test]
fn generated_code_is_valid() {
    let code = generate_code(GENERATED_CODE_LEN);
    assert_eq!(code.len(), GENERATED_CODE_LEN);
    assert!(ShortCode::parse(&code).is_ok());
}

#[test]
fn create_then_get_roundtrips() {
    let mut svc = service();
    let link = svc.create(text("https://example.com"), None, None).unwrap();
    let fetched = svc.get(link.code.as_str()).unwrap();
    assert_eq!(fetched.target.as_str(), "https://example.com");
    assert_eq!(fetched.hits, 0);
}

#[test]
fn create_rejects_invalid_url() {
    let mut svc = service();
    let err = svc.create(text("ftp://nope"), None, None).unwrap_err();
    assert!(matches!(err, ServiceError::Validation(_)));
}

#[test]
fn custom_alias_conflict_is_reported() {
    let mut svc = service();
    svc.create(text("https://a.com"), Some(text("mylink")), None).unwrap();
    let err = svc.create(text("https://b.com"), Some(text("mylink")), None).unwrap_err();
    assert!(matches!(err, ServiceError::Conflict));
    // The first link stays.
    assert_eq!(svc.get("mylink").unwrap().target.as_str(), "https://a.com");
}

#[test]
fn resolve_increments_hits_and_returns_target() {
    let mut svc = service();
    let link = svc.create(text("https://example.com"), Some(text("xy")), None).unwrap();
    let target = svc.resolve(link.code.as_str()).unwrap();
    assert_eq!(target.as_str(), "https://example.com");
    let after = svc.get(link.code.as_str()).unwrap();
    assert_eq!(after.hits, 1);
}

#[test]
fn missing_code_is_not_found() {
    let mut svc = service();
    assert!(matches!(svc.get("missing"), Err(ServiceError::NotFound)));
    assert!(matches!(svc.resolve("missing"), Err(ServiceError::NotFound)));
    assert!(matches!(svc.delete("missing"), Err(ServiceError::NotFound)));
    assert!(matches!(svc.get("no code!"), Err(ServiceError::NotFound)));
    assert!(matches!(svc.resolve("no code!"), Err(ServiceError::NotFound)));
    assert!(matches!(svc.delete("no code!"), Err(ServiceError::NotFound)));
}

#[test]
fn ready_succeeds_with_reachable_store() {
    assert!(service().ready().is_ok());
}

#[test]
fn delete_removes_link() {
    let mut svc = service();
    svc.create(text("https://a.com"), Some(text("gone")), None).unwrap();
    svc.delete("gone").unwrap();
    assert!(matches!(svc.get("gone"), Err(ServiceError::NotFound)));
}

#[test]
fn aliases_are_validated_after_the_url() {
    let mut svc = service();
    assert!(matches!(
        svc.create(text("https://a.com"), Some(text("my-link")), None),
        Err(ServiceError::Validation(ValidationError::CodeCharset))
    ));
    assert!(matches!(
        svc.create(text("https://a.com"), Some(text("")), None),
        Err(ServiceError::Validation(ValidationError::CodeLength))
    ));
    assert!(matches!(
        svc.create(text("nope"), Some(text("my-link")), None),
        Err(ServiceError::Validation(ValidationError::UrlInvalid))
    ));
}

#[test]
fn blocked_hosts_cannot_be_shortened() {
    let mut svc = LinkService::with_cache(
        InMemoryLinkRepository::default(),
        vec![text("evil.com")],
        NoOpCache,
    );
    assert!(matches!(
        svc.create(text("https://evil.com/x"), None, None),
        Err(ServiceError::Blocked)
    ));
    assert!(matches!(
        svc.create(text("https://user@Sub.EVIL.com:8080/x"), Some(text("a-b")), None),
        Err(ServiceError::Blocked)
    ));
    assert!(svc.create(text("https://good.com/evil.com"), None, None).is_ok());
}

#[test]
fn resolve_caches_and_delete_invalidates() {
    let mut svc = LinkService::with_cache(
        InMemoryLinkRepository::default(),
        Vec::new(),
        InMemoryCache::default(),
    );
    svc.create(text("https://a.com"), Some(text("hot")), None).unwrap();
    assert_eq!(svc.cache.get("hot"), None);
    svc.resolve("hot").unwrap();
    let entry = svc.cache.get("hot").unwrap();
    assert_eq!((entry.target.as_str(), entry.expires_at), ("https://a.com", None));
    // Served from the cache, and still counted.
    assert_eq!(svc.resolve("hot").unwrap().as_str(), "https://a.com");
    assert_eq!(svc.get("hot").unwrap().hits, 2);
    svc.delete("hot").unwrap();
    assert_eq!(svc.cache.get("hot"), None);
    assert!(matches!(svc.resolve("hot"), Err(ServiceError::NotFound)));
}

#[test]
fn expired_link_is_not_served_from_the_cache() {
    let mut svc = LinkService::with_cache(
        InMemoryLinkRepository::default(),
        Vec::new(),
        InMemoryCache::default(),
    );
    let l = svc.create(text("https://a.com"), Some(text("ttl")), Some(3600)).unwrap();
    assert_eq!(svc.resolve("ttl").unwrap().as_str(), "https://a.com");
    assert_eq!(svc.cache.get("ttl").unwrap().expires_at, l.expires_at);
    // An entry that has expired is dropped, and the store is asked.
    let old = CachedTarget { target: url("https://old.com"), expires_at: Some(1) };
    svc.cache.set("ttl", old.clone(), 60);
    assert_eq!(svc.resolve("ttl").unwrap().as_str(), "https://a.com");
    assert_eq!(svc.cache.get("ttl").unwrap().target.as_str(), "https://a.com");
    svc.cache.set("gone", old, 60);
    assert!(matches!(svc.resolve("gone"), Err(ServiceError::NotFound)));
    assert_eq!(svc.cache.get("gone"), None);
}

#[test]
fn cached_targets_are_judged() {
    let entry = |exp| Some(CachedTarget { target: url("https://a.com"), expires_at: exp });
    assert!(matches!(after_cache(None, 5), CacheVerdict::Miss));
    assert!(matches!(after_cache(entry(Some(5)), 5), CacheVerdict::Evict));
    let CacheVerdict::Serve(target) = after_cache(entry(Some(6)), 5) else {
        panic!("an entry that has not expired is served")
    };
    assert_eq!(target.as_str(), "https://a.com");
    assert!(matches!(after_cache(entry(None), i64::MAX), CacheVerdict::Serve(_)));
}

#[test]
fn longest_time_to_live_of_a_link() {
    let mut svc = LinkService::new(InMemoryLinkRepository::default());
    let l = svc.create(text("https://a.com"), Some(text("far")), Some(u64::MAX)).unwrap();
    assert_eq!(l.expires_at, Some(i64::MAX));
    assert!(l.created_at > 1_700_000_000);
    assert!(svc.resolve("far").is_ok());
}

#[test]
fn denylist_outlives_redirects_and_deletions() {
    let mut svc = LinkService::with_cache(
        InMemoryLinkRepository::default(),
        vec![text("evil.com")],
        NoOpCache,
    );
    svc.create(text("https://a.com"), Some(text("ok")), None).unwrap();
    svc.resolve("ok").unwrap();
    svc.delete("ok").unwrap();
    assert!(matches!(
        svc.create(text("https://evil.com"), None, None),
        Err(ServiceError::Blocked)
    ));
}

#[test]
fn link_goes_under_the_first_free_code() {
    let mut svc = LinkService::new(InMemoryLinkRepository::default());
    let d = draft(text("https://a.com"), None, None, &Vec::new(), 5).unwrap();
    let codes = || ["aa", "bb", "cc"].map(|c| ShortCode::parse(c).unwrap()).to_vec();
    for taken in ["aa", "bb", "cc"] {
        assert_eq!(svc.insert_first_free(&d, codes()).unwrap().code.as_str(), taken);
        assert!(svc.resolve(taken).is_ok());
    }
    assert!(matches!(svc.insert_first_free(&d, codes()), Err(ServiceError::Conflict)));
    assert_eq!(d.codes().len(), 5);
    assert!(d.codes().iter().all(|c| c.as_str().len() == GENERATED_CODE_LEN));
    let d = draft(text("https://a.com"), Some(text("mine")), None, &Vec::new(), 5).unwrap();
    assert_eq!(d.codes(), vec![ShortCode::parse("mine").unwrap()]);
}

#[test]
fn replies_have_their_statuses_too() {
    let mut svc = service();
    let mut m = Metrics::default();
    let created = post(&mut svc, request("https://a.com", Some("st"), None));
    assert_eq!(create_status_code(&created), 201);
    let again = post(&mut svc, request("https://a.com", Some("st"), None));
    assert_eq!(create_status_code(&again), 409);
    assert_eq!(redirect_status_code(&redirect_reply(svc.resolve("st"), &mut m)), 302);
    assert_eq!(link_status_code(&link_reply(svc.get("st"))), 200);
    assert_eq!(delete_status_code(&delete_reply(svc.delete("st"))), 204);
    assert_eq!(redirect_status_code(&redirect_reply(svc.resolve("st"), &mut m)), 404);
    assert_eq!(link_status_code(&link_reply(svc.get("st"))), 404);
    assert_eq!(delete_status_code(&delete_reply(svc.delete("st"))), 404);
}

#[test]
fn links_are_judged() {
    let link = |exp| Link {
        code: ShortCode::parse("abc").unwrap(),
        target: url("https://a.com"),
        created_at: 0,
        expires_at: exp,
        hits: 0,
    };
    assert!(matches!(
        after_lookup(Ok(Some(link(Some(10)))), 10, 10),
        LookupVerdict::Fail(ServiceError::NotFound)
    ));
    assert!(matches!(
        after_lookup(Ok(Some(link(Some(10)))), 9, 9),
        LookupVerdict::Serve { cache_secs: 1, expires_at: Some(10), .. }
    ));
    assert!(matches!(
        after_lookup(Ok(Some(link(None))), 9, 9),
        LookupVerdict::Serve { cache_secs: 300, .. }
    ));
    assert!(matches!(after_lookup(Ok(None), 9, 9), LookupVerdict::Fail(ServiceError::NotFound)));
    assert!(matches!(
        after_lookup(Err(RepoError::Backend(text("disk"))), 9, 9),
        LookupVerdict::Fail(ServiceError::Backend(_))
    ));
    // Metadata is given out whether or not the link has expired.
    assert!(after_get(Ok(Some(link(Some(0))))).is_ok());
    assert!(matches!(after_get(Ok(None)), Err(ServiceError::NotFound)));
    assert!(matches!(
        after_insert(Err(RepoError::Conflict), link(None), 0),
        InsertVerdict::Fail(ServiceError::Conflict)
    ));
    assert!(matches!(
        after_insert(Err(RepoError::Conflict), link(None), 3),
        InsertVerdict::Retry
    ));
    assert!(matches!(after_insert(Ok(()), link(None), 0), InsertVerdict::Done(_)));
    let parts = Some(UrlParts { scheme: text("http"), host: Some(text("a.com")) });
    let d =
        draft_parsed(text("http://a.com"), &parts, Some(text("al")), Some(5), &Vec::new(), 100)
            .unwrap();
    assert_eq!(d.expires_at, Some(105));
    assert_eq!(d.alias.as_ref().unwrap().as_str(), "al");
    assert_eq!(d.attempts(), 1);
    assert_eq!(d.code().as_str(), "al");
    assert_eq!(d.link(d.code()).hits, 0);
    assert!(matches!(
        draft_parsed(text("http://a.com"), &parts, None, None, &vec![text("a.com")], 100),
        Err(ServiceError::Blocked)
    ));
    let d = draft(text("http://a.com"), None, None, &Vec::new(), 100).unwrap();
    assert_eq!(d.attempts(), 5);
    assert_eq!(d.code().as_str().len(), 7);
    assert_eq!(d.target.as_str(), "http://a.com");
}

#[test]
fn the_same_target_may_have_many_codes() {
    let mut svc = service();
    let a = svc.create(text("https://a.com"), None, None).unwrap();
    let b = svc.create(text("https://a.com"), None, None).unwrap();
    assert_ne!(a.code, b.code);
    assert_eq!(svc.get(a.code.as_str()).unwrap().target, svc.get(b.code.as_str()).unwrap().target);
}

// --- cache ------------------------------------------------------------------

#[test]
fn in_memory_cache_roundtrips_and_deletes() {
    let mut cache: InMemoryCache<String> = InMemoryCache::default();
    assert_eq!(cache.get("k"), None);
    cache.set("k", text("v"), 60);
    assert_eq!(cache.get("k").as_deref(), Some("v"));
    cache.delete("k");
    assert_eq!(cache.get("k"), None);
}

#[test]
fn noop_cache_never_stores() {
    let mut cache = NoOpCache;
    cache.set("k", text("v"), 60);
    let hit: Option<String> = cache.get("k");
    assert_eq!(hit, None);
}

// --- in-memory store --------------------------------------------------------

fn sample() -> Link {
    Link::new(
        ShortCode::parse("abc").unwrap(),
        TargetUrl::parse(text("https://example.com")).unwrap(),
        1_700_000_000,
    )
}

#[test]
fn insert_is_idempotent_guarded_by_conflict() {
    let mut repo = InMemoryLinkRepository::default();
    repo.insert(&sample()).unwrap();
    assert!(matches!(repo.insert(&sample()), Err(RepoError::Conflict)));
}

#[test]
fn increment_and_delete_report_presence() {
    let mut repo = InMemoryLinkRepository::default();
    let code = ShortCode::parse("abc").unwrap();
    assert!(!repo.increment_hits(&code).unwrap());
    repo.insert(&sample()).unwrap();
    assert!(repo.increment_hits(&code).unwrap());
    assert_eq!(repo.get(&code).unwrap().unwrap().hits, 1);
    assert!(repo.delete(&code).unwrap());
    assert!(!repo.delete(&code).unwrap());
}

#[test]
fn increment_hits_by_adds_a_batch_in_one_call() {
    let mut repo = InMemoryLinkRepository::default();
    let code = ShortCode::parse("abc").unwrap();
    assert!(!repo.increment_hits_by(&code, 5).unwrap()); // absent
    repo.insert(&sample()).unwrap();
    assert!(repo.increment_hits_by(&code, 5).unwrap());
    repo.increment_hits(&code).unwrap(); // default delegates to +1
    assert_eq!(repo.get(&code).unwrap().unwrap().hits, 6);
}

#[test]
fn ping_round_trips_through_the_task() {
    let repo = InMemoryLinkRepository::default();
    assert!(repo.ping().is_ok());
}

#[test]
fn concurrent_inserts_are_serialized_by_the_owning_task() {
    // The commands of many callers, carried out one at a time by the owner.
    let mut repo = InMemoryLinkRepository::default();
    for i in 0..50 {
        let link = Link::new(
            ShortCode::parse(&format!("code{i:03}")).unwrap(),
            TargetUrl::parse(text("https://example.com")).unwrap(),
            1_700_000_000,
        );
        assert!(matches!(repo.apply(Cmd::Insert { link }), Reply::Inserted(true)));
    }
    for i in 0..50 {
        let code = ShortCode::parse(&format!("code{i:03}")).unwrap();
        assert!(repo.get(&code).unwrap().is_some());
    }
    let code = text("code000");
    assert!(matches!(repo.apply(Cmd::IncrementBy { code, n: 2 }), Reply::Updated(true)));
    let code = text("code000");
    assert!(matches!(repo.apply(Cmd::Get { code }), Reply::Found(Some(l)) if l.hits == 2));
    let code = text("code000");
    assert!(matches!(repo.apply(Cmd::Delete { code }), Reply::Removed(true)));
    assert!(matches!(repo.apply(Cmd::Ping), Reply::Pong));
}

// --- hit recorders ----------------------------------------------------------

#[test]
fn hit_recorders_keep_counts() {
    let code = ShortCode::parse("abc").unwrap();
    let mut repo = InMemoryLinkRepository::default();
    repo.insert(&sample()).unwrap();
    let mut immediate = ImmediateHitRecorder::new();
    immediate.record(&mut repo, &code);
    assert_eq!(repo.get(&code).unwrap().unwrap().hits, 1);

    let mut batching = BatchingHitRecorder::spawn(1_000);
    for _ in 0..5 {
        batching.record(&mut repo, &code);
    }
    assert_eq!(repo.get(&code).unwrap().unwrap().hits, 1);
    batching.flush(&mut repo);
    assert_eq!(repo.get(&code).unwrap().unwrap().hits, 6);
    batching.flush(&mut repo);
    assert_eq!(repo.get(&code).unwrap().unwrap().hits, 6);

    let mut svc = LinkService::with_cache_and_hits(
        repo,
        Vec::new(),
        NoOpCache,
        BatchingHitRecorder::spawn_default(),
    );
    svc.resolve("abc").unwrap();
    assert_eq!(svc.get("abc").unwrap().hits, 6);
    svc.hits.flush(&mut svc.repo);
    assert_eq!(svc.get("abc").unwrap().hits, 7);
}

// --- rate limiter -----------------------------------------------------------

fn ip(a: u8, b: u8, c: u8, d: u8) -> ClientIp {
    ClientIp::V4(u32::from_be_bytes([a, b, c, d]))
}

#[test]
fn rps_zero_disables_limiting() {
    let mut rl = RateLimiter::new(0, 0);
    let a = ip(1, 2, 3, 4);
    for _ in 0..1000 {
        assert!(rl.check(a));
    }
}

#[test]
fn burst_is_consumed_then_blocked() {
    let mut rl = RateLimiter::new(1, 1); // 1 token, refills 1/sec
    let a = ip(1, 2, 3, 4);
    assert!(rl.check(a)); // consumes the only token
    assert!(!rl.check(a)); // immediately after: ~0 refill -> blocked
}

#[test]
fn buckets_are_independent_per_ip() {
    let mut rl = RateLimiter::new(1, 1);
    let a = ip(1, 1, 1, 1);
    let b = ip(2, 2, 2, 2);
    assert!(rl.check(a));
    assert!(!rl.check(a));
    assert!(rl.check(b)); // b has its own full bucket
    assert!(rl.check(ClientIp::V6(0x0101_0101)));
}

#[test]
fn buckets_refill_exactly() {
    let second = 1_000_000_000u128;
    let a = ip(1, 2, 3, 4);
    let mut rl = RateLimiter::new(2, 3);
    for _ in 0..3 {
        assert!(rl.check_at(a, 0));
    }
    assert!(!rl.check_at(a, 0));
    // Half a second refills one token, a nanosecond less does not.
    assert!(!rl.check_at(a, second / 2 - 1));
    assert!(rl.check_at(a, second / 2));
    assert!(!rl.check_at(a, second / 2));
    // A long rest refills the burst and no more, and a clock that runs back
    // refills nothing.
    for _ in 0..3 {
        assert!(rl.check_at(a, u128::MAX));
    }
    assert!(!rl.check_at(a, u128::MAX));
    assert!(!rl.check_at(a, 5));
    // Without a burst of its own the rate is the burst.
    let mut rl = RateLimiter::new(4, 0);
    assert_eq!((0..10).filter(|_| rl.check_at(a, 7)).count(), 4);
}

#[test]
fn buckets_refill_as_time_passes() {
    let a = ip(8, 8, 8, 8);
    let mut rl = RateLimiter::new(100, 1);
    assert!(rl.check(a));
    let start = std::time::Instant::now();
    while start.elapsed() < std::time::Duration::from_millis(30) {
        std::hint::spin_loop();
    }
    assert!(rl.check(a));
}

#[test]
fn allowance_over_a_span_is_bounded() {
    let a = ip(9, 9, 9, 9);
    let mut rl = RateLimiter::new(5, 10);
    // 100 requests a second over 20 seconds: 10 of the burst, 5 a second after.
    let step = 10_000_000u128;
    let allowed = (0..=2000u128).filter(|i| rl.check_at(a, i * step)).count();
    assert_eq!(allowed, 10 + 5 * 20);
}

#[test]
fn idle_time_does_not_widen_the_allowance() {
    let a = ip(9, 9, 9, 9);
    let mut rl = RateLimiter::new(5, 10);
    assert!(rl.check_at(a, 0));
    // An hour later, over two seconds: 10 of the burst and 5 a second, no more.
    let hour = 3_600_000_000_000u128;
    let step = 10_000_000u128;
    let allowed = (0..=200u128).filter(|i| rl.check_at(a, hour + i * step)).count();
    assert_eq!(allowed, 10 + 5 * 2);
}

#[test]
fn new_client_gets_its_burst_between_others() {
    let a = ip(1, 1, 1, 1);
    let mut rl = RateLimiter::new(1, 4);
    for i in 0..4u128 {
        assert!(rl.check_at(a, i));
        for n in 0..10u8 {
            rl.check_at(ip(2, 2, 2, n), i);
        }
    }
    assert!(!rl.check_at(a, 4));
    // Refused requests cost nothing: the next token comes when it would have.
    for i in 5..100u128 {
        assert!(!rl.check_at(a, i));
    }
    assert!(rl.check_at(a, 1_000_000_000));
}

#[test]
fn second_request_is_rate_limited() {
    let mut rl = RateLimiter::new(1, 1);
    let anyone = ClientIp::V4(0);
    assert!(rl.check(anyone));
    assert!(!rl.check(anyone));
    let r = rate_limited();
    assert_eq!((r.status, r.error.as_str()), (429, "rate limit exceeded"));
}

// --- API --------------------------------------------------------------------

fn post(svc: &mut Svc, req: CreateLinkRequest) -> Result<CreateLinkResponse, AppError> {
    create_reply(svc.create(req.url, req.alias, req.ttl_seconds), "http://localhost")
}

fn request(url: &str, alias: Option<&str>, ttl_seconds: Option<u64>) -> CreateLinkRequest {
    CreateLinkRequest { url: text(url), alias: alias.map(text), ttl_seconds }
}

#[test]
fn create_with_alias_then_full_lifecycle() {
    let mut svc = service();
    let mut m = Metrics::default();

    // Create with a custom alias.
    let created = post(&mut svc, request("https://example.com", Some("demo"), None)).unwrap();
    assert_eq!(created.code, "demo");
    assert_eq!(created.short_url, "http://localhost/demo");
    assert_eq!(created.target, "https://example.com");

    // Metadata: zero hits initially.
    assert_eq!(link_reply(svc.get("demo")).unwrap().hits, 0);

    // Redirect, and the hit is counted.
    assert_eq!(redirect_reply(svc.resolve("demo"), &mut m).unwrap(), "https://example.com");
    assert_eq!(link_reply(svc.get("demo")).unwrap().hits, 1);

    // Delete, then it is gone.
    assert!(delete_reply(svc.delete("demo")).is_ok());
    assert_eq!(link_reply(svc.get("demo")).unwrap_err().status(), 404);
    assert_eq!(delete_reply(svc.delete("demo")).unwrap_err().status(), 404);
    assert_eq!(redirect_reply(svc.resolve("demo"), &mut m).unwrap_err().status(), 404);
    assert_eq!(m.redirects_served(), 1);
}

#[test]
fn create_without_alias_generates_code() {
    let mut svc = service();
    let code = post(&mut svc, request("https://example.com", None, None)).unwrap().code;
    assert_eq!(code.len(), 7);
    assert!(code.chars().all(|c| c.is_ascii_alphanumeric()));
}

#[test]
fn invalid_url_is_rejected() {
    let mut svc = service();
    assert_eq!(post(&mut svc, request("ftp://nope", None, None)).unwrap_err().status(), 400);
}

#[test]
fn duplicate_alias_conflicts() {
    let mut svc = service();
    post(&mut svc, request("https://a.com", Some("dup"), None)).unwrap();
    let err = post(&mut svc, request("https://b.com", Some("dup"), None)).unwrap_err();
    assert_eq!(err.status(), 409);
    assert_eq!(err.message(), "short code already in use");
}

#[test]
fn unknown_code_redirect_is_not_found() {
    let mut svc = service();
    let mut m = Metrics::default();
    assert_eq!(redirect_reply(svc.resolve("nope"), &mut m).unwrap_err().status(), 404);
}

#[test]
fn create_with_ttl_sets_expiry_and_still_resolves() {
    let mut svc = service();
    let mut m = Metrics::default();
    let created =
        post(&mut svc, request("https://example.com", Some("ttl"), Some(3600))).unwrap();
    assert_eq!(created.expires_at, Some(created.created_at + 3600));

    // Not expired yet: still redirects.
    assert!(redirect_reply(svc.resolve("ttl"), &mut m).is_ok());
}

#[test]
fn expired_link_redirect_is_not_found() {
    let mut svc = service();
    let mut m = Metrics::default();
    // ttl_seconds 0 means it expires when it is created, so it's expired on read.
    post(&mut svc, request("https://example.com", Some("exp"), Some(0))).unwrap();
    assert_eq!(redirect_reply(svc.resolve("exp"), &mut m).unwrap_err().status(), 404);
    assert_eq!(svc.get("exp").unwrap().hits, 0);
}

#[test]
fn blocked_and_broken_are_answered() {
    let reply = |e| link_reply(Err(e)).unwrap_err().into_response();
    let r = reply(ServiceError::Blocked);
    assert_eq!((r.status, r.error.as_str()), (400, "target host is not allowed"));
    let r = reply(ServiceError::Backend(text("disk")));
    assert_eq!((r.status, r.error.as_str()), (500, "internal error"));
}

#[test]
fn trailing_slashes_of_the_base_url_are_dropped() {
    let r = create_reply(Ok(sample()), "http://localhost//").unwrap();
    assert_eq!(r.short_url, "http://localhost/abc");
    assert_eq!(create_reply(Ok(sample()), "///").unwrap().short_url, "/abc");
    assert_eq!(create_reply(Ok(sample()), "").unwrap().short_url, "/abc");
}

// --- configuration ----------------------------------------------------------

#[test]
fn shortener_config_reads_variables() {
    let bind = Some(SocketAddress::V6 { ip6: 1, port: 80, flowinfo: 0, scope_id: 0 });
    let mut env = Env::new();
    assert_eq!(Config::bind_address(&env), "127.0.0.1:8080");
    let c = Config::from_env(&env, bind).unwrap();
    assert_eq!(c.max_body_bytes, 16384);
    assert_eq!(c.database_url, "sqlite://links.db");
    assert_eq!(c.database_max_connections, 5);
    assert_eq!(c.public_base_url, "http://127.0.0.1:8080");
    assert_eq!(c.request_timeout_secs, 10);
    assert_eq!(c.max_concurrent_requests, 1024);
    assert!(c.blocked_hosts.is_empty());
    assert_eq!((c.rate_limit_rps, c.rate_limit_burst), (0, 0));
    assert_eq!(Some(c.bind_addr), bind);

    env.set("BLOCKED_HOSTS", " Evil.com,, malware.test ,\t");
    env.set("RATE_LIMIT_RPS", "7");
    let c = Config::from_env(&env, bind).unwrap();
    assert_eq!(c.blocked_hosts, vec![text("evil.com"), text("malware.test")]);
    assert_eq!(c.rate_limit_rps, 7);

    for name in [
        "RATE_LIMIT_BURST",
        "RATE_LIMIT_RPS",
        "MAX_CONCURRENT_REQUESTS",
        "REQUEST_TIMEOUT_SECS",
        "DATABASE_MAX_CONNECTIONS",
        "MAX_BODY_BYTES",
    ] {
        env.set(name, "x");
        assert_eq!(Config::from_env(&env, bind).unwrap_err(), ConfigError::Invalid(name));
    }
    assert_eq!(
        Config::from_env(&env, None).unwrap_err(),
        ConfigError::Invalid("APP_BIND_ADDR")
    );
}
