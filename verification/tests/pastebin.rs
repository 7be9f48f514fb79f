use rest_services::cache::{Cache, InMemoryCache, NoOpCache};
use rest_services::count_batch::{Batch, BatchEvent, CountBatch};
use rest_services::env::Env;
use rest_services::net::SocketAddress;
use rest_services::pastebin::api::{
    create_reply, create_status_code, delete_reply, delete_status_code, paste_reply,
    paste_status_code, raw_reply, raw_status_code, CreatePasteRequest, CreatePasteResponse,
    PasteResponse,
};
use rest_services::pastebin::application::{
    after_cache, after_delete, after_insert, after_ping, after_store, cache_ttl_secs, draft,
    draw_ids, generate_id, CacheVerdict, CachedPaste, InsertVerdict, PasteService, ServiceError, StoreVerdict,
    GENERATED_ID_LEN, MAX_GENERATION_ATTEMPTS,
};
use rest_services::pastebin::config::ConfigError;
use rest_services::pastebin::domain::{
    Content, Paste, PasteId, PasteRepository, RepoError, ValidationError, ID_MAX_LEN,
    MAX_CONTENT_BYTES,
};
use rest_services::pastebin::infrastructure::{Cmd, InMemoryPasteRepository, Reply};
use rest_services::pastebin::metrics::Metrics;
use rest_services::pastebin::views::{
    BatchingViewRecorder, ImmediateViewRecorder, ViewRecorder,
};
use rest_services::pastebin::{AppError, Config};
use rest_services::web::ready_response;

fn text(s: &str) -> String {
    s.to_owned()
}

fn id(s: &str) -> PasteId {
    PasteId::parse(s).unwrap()
}

// --- domain -----------------------------------------------------------------

#[test]
fn paste_id_accepts_valid() {
    assert_eq!(PasteId::parse("abc123").unwrap().as_str(), "abc123");
}

#[test]
fn paste_id_rejects_empty_and_overlong() {
    assert_eq!(PasteId::parse(""), Err(ValidationError::IdLength));
    let long = "a".repeat(ID_MAX_LEN + 1);
    assert_eq!(PasteId::parse(&long), Err(ValidationError::IdLength));
    assert!(PasteId::parse(&"a".repeat(ID_MAX_LEN)).is_ok());
}

#[test]
fn paste_id_rejects_bad_charset() {
    assert_eq!(PasteId::parse("ab-c"), Err(ValidationError::IdCharset));
    assert_eq!(PasteId::parse("a/b"), Err(ValidationError::IdCharset));
    assert_eq!(PasteId::parse("é"), Err(ValidationError::IdCharset));
    // Seventeen characters of two bytes each are too long before they are wrong.
    assert_eq!(PasteId::parse(&"é".repeat(17)), Err(ValidationError::IdLength));
}

#[test]
fn content_accepts_valid() {
    assert_eq!(Content::parse(text("hello")).unwrap().as_str(), "hello");
}

#[test]
fn content_rejects_empty() {
    assert_eq!(Content::parse(text("")), Err(ValidationError::ContentEmpty));
}

#[test]
fn content_rejects_oversized() {
    let big = "x".repeat(MAX_CONTENT_BYTES + 1);
    assert_eq!(Content::parse(big), Err(ValidationError::ContentTooLarge));
    assert!(Content::parse("x".repeat(MAX_CONTENT_BYTES)).is_ok());
    // The limit is in bytes.
    assert_eq!(
        Content::parse("é".repeat(MAX_CONTENT_BYTES / 2 + 1)),
        Err(ValidationError::ContentTooLarge)
    );
}

fn sample(expires_at: Option<i64>) -> Paste {
    Paste::new(
        PasteId::parse("abc").unwrap(),
        Content::parse(text("body")).unwrap(),
        Some(text("rust")),
        1_700_000_000,
        expires_at,
        false,
    )
}

#[test]
fn new_paste_starts_with_zero_views_and_no_expiry() {
    let p = sample(None);
    assert_eq!(p.views, 0);
    assert_eq!(p.expires_at, None);
    assert!(!p.is_expired(i64::MAX));
}

#[test]
fn is_expired_respects_the_boundary() {
    let p = sample(Some(1_700_000_100));
    assert!(!p.is_expired(1_700_000_099));
    assert!(p.is_expired(1_700_000_100)); // at expiry == expired
    assert!(p.is_expired(1_700_000_101));
}

#[test]
fn rows_hold_pastes() {
    let p = sample(Some(7));
    let row = p.to_row();
    assert_eq!((row.id.as_str(), row.syntax.as_deref(), row.expires_at), ("abc", Some("rust"), Some(7)));
    assert_eq!(Paste::from_row(row), Some(p));
    let mut bad = sample(None).to_row();
    bad.id = text("a-b");
    assert_eq!(Paste::from_row(bad), None);
}

#[test]
fn validation_errors_are_described() {
    assert_eq!(
        ValidationError::IdLength.message(),
        "paste id must be between 1 and 32 characters"
    );
    assert_eq!(
        ValidationError::IdCharset.message(),
        "paste id must contain only ASCII letters and digits"
    );
    assert_eq!(ValidationError::ContentEmpty.message(), "paste content must not be empty");
    assert_eq!(
        ValidationError::ContentTooLarge.message(),
        "paste content must be 1000000 bytes or fewer"
    );
    assert_eq!(RepoError::Conflict.message(), "paste id already exists");
    assert_eq!(RepoError::Backend(text("disk")).message(), "disk");
}

// --- application ------------------------------------------------------------

fn service() -> PasteService<InMemoryPasteRepository, NoOpCache, ImmediateViewRecorder> {
    PasteService::new(InMemoryPasteRepository::default())
}

#[test]
fn fetch_caches_non_one_shot_and_delete_invalidates() {
    let repo = InMemoryPasteRepository::default();
    let cache = InMemoryCache::default();
    let mut svc = PasteService::with_cache(repo, cache);

    let p = svc.create(text("hello"), None, None, false).unwrap();
    // First fetch populates the cache.
    svc.fetch(p.id.as_str()).unwrap();
    assert!(svc.cache.get(p.id.as_str()).is_some());

    // Delete invalidates it.
    svc.delete(p.id.as_str()).unwrap();
    assert!(svc.cache.get(p.id.as_str()).is_none());
}

#[test]
fn one_shot_paste_is_never_cached() {
    let repo = InMemoryPasteRepository::default();
    let cache = InMemoryCache::default();
    let mut svc = PasteService::with_cache(repo, cache);

    let p = svc.create(text("secret"), None, None, true).unwrap();
    // Fetch burns it; it must not be cached.
    svc.fetch(p.id.as_str()).unwrap();
    assert!(svc.cache.get(p.id.as_str()).is_none());
    // And it's gone (burned).
    assert!(matches!(svc.fetch(p.id.as_str()), Err(ServiceError::NotFound)));
}

#[test]
fn generated_id_is_valid() {
    let id = generate_id(GENERATED_ID_LEN);
    assert_eq!(id.len(), GENERATED_ID_LEN);
    assert!(PasteId::parse(&id).is_ok());
}

#[test]
fn create_then_fetch_roundtrips() {
    let mut svc = service();
    let p = svc.create(text("hello world"), Some(text("text")), None, false).unwrap();
    let fetched = svc.fetch(p.id.as_str()).unwrap();
    assert_eq!(fetched.content.as_str(), "hello world");
    assert_eq!(fetched.syntax.as_deref(), Some("text"));
}

#[test]
fn create_rejects_empty_and_oversized_content() {
    let mut svc = service();
    assert!(matches!(
        svc.create(String::new(), None, None, false),
        Err(ServiceError::Validation(_))
    ));
    let big = "x".repeat(MAX_CONTENT_BYTES + 1);
    assert!(matches!(
        svc.create(big, None, None, false),
        Err(ServiceError::Validation(_))
    ));
}

#[test]
fn fetch_expired_is_not_found_and_purged() {
    let mut repo = InMemoryPasteRepository::default();
    let expired = Paste::new(
        PasteId::parse("old").unwrap(),
        Content::parse(text("x")).unwrap(),
        None,
        1_000,
        Some(1_001),
        false,
    );
    repo.insert(&expired).unwrap();
    let mut svc = PasteService::new(repo);

    assert!(matches!(svc.fetch("old"), Err(ServiceError::NotFound)));
    assert!(svc.repo.get(&PasteId::parse("old").unwrap()).unwrap().is_none());
}

#[test]
fn one_shot_paste_is_burned_after_first_fetch() {
    let mut svc = service();
    let p = svc.create(text("secret"), None, None, true).unwrap();
    let first = svc.fetch(p.id.as_str()).unwrap();
    assert_eq!(first.content.as_str(), "secret");
    assert!(matches!(svc.fetch(p.id.as_str()), Err(ServiceError::NotFound)));
}

#[test]
fn non_one_shot_fetch_increments_views() {
    let mut svc = service();
    let p = svc.create(text("body"), None, None, false).unwrap();
    svc.fetch(p.id.as_str()).unwrap();
    let stored = svc.repo.get(&p.id).unwrap().unwrap();
    assert_eq!(stored.views, 1);
}

#[test]
fn missing_id_is_not_found() {
    let mut svc = service();
    assert!(matches!(svc.fetch("missing"), Err(ServiceError::NotFound)));
    assert!(matches!(svc.delete("missing"), Err(ServiceError::NotFound)));
    assert!(matches!(svc.fetch("not an id"), Err(ServiceError::NotFound)));
    assert!(matches!(svc.delete(""), Err(ServiceError::NotFound)));
}

#[test]
fn delete_removes_paste() {
    let mut svc = service();
    let p = svc.create(text("x"), None, None, false).unwrap();
    svc.delete(p.id.as_str()).unwrap();
    assert!(matches!(svc.fetch(p.id.as_str()), Err(ServiceError::NotFound)));
}

#[test]
fn cached_fetches_count_views_too() {
    let mut svc =
        PasteService::with_cache(InMemoryPasteRepository::default(), InMemoryCache::default());
    let p = svc.create(text("body"), None, None, false).unwrap();
    for _ in 0..3 {
        assert_eq!(svc.fetch(p.id.as_str()).unwrap().content.as_str(), "body");
    }
    assert_eq!(svc.repo.get(&p.id).unwrap().unwrap().views, 3);
}

#[test]
fn longest_time_to_live_does_not_expire() {
    let mut svc = service();
    let p = svc.create(text("hi"), None, Some(u64::MAX), false).unwrap();
    assert_eq!(p.expires_at, Some(i64::MAX));
    assert!(p.created_at > 1_700_000_000);
    assert_eq!(svc.fetch(p.id.as_str()).unwrap().content.as_str(), "hi");
}

#[test]
fn one_shot_is_served_once_with_any_cache() {
    let mut bare = service();
    let p = bare.create(text("secret"), None, None, true).unwrap();
    assert_eq!(bare.fetch(p.id.as_str()).unwrap().content.as_str(), "secret");
    for _ in 0..3 {
        assert!(matches!(bare.fetch(p.id.as_str()), Err(ServiceError::NotFound)));
    }
    let mut cached =
        PasteService::with_cache(InMemoryPasteRepository::default(), InMemoryCache::default());
    let p = cached.create(text("secret"), None, None, true).unwrap();
    assert!(cached.fetch(p.id.as_str()).is_ok());
    for _ in 0..3 {
        assert!(matches!(cached.fetch(p.id.as_str()), Err(ServiceError::NotFound)));
        assert!(cached.cache.get(p.id.as_str()).is_none());
    }
}

#[test]
fn expired_cache_entry_is_evicted_and_the_store_asked() {
    let mut svc =
        PasteService::with_cache(InMemoryPasteRepository::default(), InMemoryCache::default());
    svc.cache.set("abc", CachedPaste::from_paste(&sample(Some(1))), 60);
    assert!(matches!(svc.fetch("abc"), Err(ServiceError::NotFound)));
    assert!(svc.cache.get("abc").is_none());

    svc.cache.set("abc", CachedPaste::from_paste(&sample(Some(1))), 60);
    svc.repo.insert(&sample(None)).unwrap();
    assert_eq!(svc.fetch("abc").unwrap().expires_at, None);
    // The fresh paste has taken its place.
    assert_eq!(svc.cache.get("abc").unwrap().expires_at, None);
}

#[test]
fn a_paste_of_the_past_century_has_expired() {
    // The clock is read: a paste that expired long ago is gone, one that expires
    // in the far future is not.
    let mut svc = service();
    svc.repo.insert(&sample(Some(4_102_444_800))).unwrap();
    let p = svc.fetch("abc").unwrap();
    assert_eq!(p.expires_at, Some(4_102_444_800));
    let created = svc.create(text("x"), None, Some(60), false).unwrap();
    assert!(created.created_at > 1_700_000_000);
    assert_eq!(created.expires_at, Some(created.created_at + 60));
}

#[test]
fn generated_ids_differ() {
    let a = generate_id(20);
    let b = generate_id(20);
    assert_ne!(a, b);
    assert_eq!(generate_id(0), "");
}

#[test]
fn paste_goes_under_the_first_free_id() {
    let mut svc = service();
    let d = draft(text("x"), None, None, false, 5).unwrap();
    let ids = || vec![id("aa"), id("bb"), id("cc"), id("dd"), id("ee")];
    for taken in ["aa", "bb", "cc", "dd", "ee"] {
        let p = svc.insert_first_free(&d, ids()).unwrap();
        assert_eq!(p.id.as_str(), taken);
        assert_eq!(svc.fetch(taken).unwrap().content.as_str(), "x");
    }
    assert!(matches!(svc.insert_first_free(&d, ids()), Err(ServiceError::Conflict)));
    assert!(matches!(svc.insert_first_free(&d, Vec::new()), Err(ServiceError::Conflict)));
    let drawn = draw_ids();
    assert_eq!(drawn.len(), MAX_GENERATION_ATTEMPTS);
    assert!(drawn.iter().all(|i| i.as_str().len() == GENERATED_ID_LEN));
    assert_ne!(drawn[0], drawn[1]);
}

#[test]
fn replies_have_their_statuses() {
    let mut svc = service();
    let mut m = Metrics::default();
    let created = post(&mut svc, request("hi"));
    assert_eq!(create_status_code(&created), 201);
    assert_eq!(create_status_code(&post(&mut svc, request(""))), 400);
    let id = created.unwrap().id;
    assert_eq!(paste_status_code(&get(&mut svc, &mut m, &id)), 200);
    assert_eq!(raw_status_code(&raw_reply(svc.fetch(&id), &mut m)), 200);
    assert_eq!(delete_status_code(&delete_reply(svc.delete(&id))), 204);
    assert_eq!(delete_status_code(&delete_reply(svc.delete(&id))), 404);
    assert_eq!(paste_status_code(&get(&mut svc, &mut m, &id)), 404);
    assert_eq!(raw_status_code(&raw_reply(svc.fetch(&id), &mut m)), 404);
}

#[test]
fn drafts_compute_expiry() {
    let d = draft(text("x"), None, Some(60), true, 1_000).unwrap();
    assert_eq!(d.expires_at, Some(1_060));
    assert!(d.one_shot);
    // Times saturate: a time to live, however long, never lies back.
    let far = draft(text("x"), None, Some(i64::MAX as u64), false, 1_000).unwrap();
    assert_eq!(far.expires_at, Some(i64::MAX));
    let farther = draft(text("x"), None, Some(u64::MAX), false, 1_000).unwrap();
    assert_eq!(farther.expires_at, Some(i64::MAX));
    assert!(matches!(
        draft(text(""), None, None, false, 0),
        Err(ServiceError::Validation(ValidationError::ContentEmpty))
    ));
    let p = d.paste(id("zz"));
    assert_eq!((p.id.as_str(), p.views, p.created_at), ("zz", 0, 1_000));
}

#[test]
fn inserts_are_judged() {
    assert!(matches!(after_insert(Ok(()), sample(None), 4), InsertVerdict::Done(p) if p == sample(None)));
    assert!(matches!(
        after_insert(Err(RepoError::Conflict), sample(None), 1),
        InsertVerdict::Retry
    ));
    assert!(matches!(
        after_insert(Err(RepoError::Conflict), sample(None), 0),
        InsertVerdict::Fail(ServiceError::Conflict)
    ));
    assert!(matches!(
        after_insert(Err(RepoError::Backend(text("disk"))), sample(None), 4),
        InsertVerdict::Fail(ServiceError::Backend(c)) if c == "disk"
    ));
    assert_eq!(MAX_GENERATION_ATTEMPTS, 5);
}

#[test]
fn lookups_are_judged() {
    let cached = |exp| Some(CachedPaste::from_paste(&sample(exp)));
    assert!(matches!(after_cache(None, 5), CacheVerdict::Miss));
    assert!(matches!(after_cache(cached(Some(5)), 5), CacheVerdict::Evict));
    assert!(matches!(after_cache(cached(Some(6)), 5), CacheVerdict::Serve(p) if p == sample(Some(6))));

    assert!(matches!(
        after_store(Err(RepoError::Backend(text("disk"))), 5, 5),
        StoreVerdict::Fail(ServiceError::Backend(_))
    ));
    assert!(matches!(after_store(Ok(None), 5, 5), StoreVerdict::Fail(ServiceError::NotFound)));
    assert!(matches!(after_store(Ok(Some(sample(Some(5)))), 5, 5), StoreVerdict::Purge));
    let mut one_shot = sample(Some(6));
    one_shot.one_shot = true;
    assert!(matches!(after_store(Ok(Some(one_shot)), 5, 5), StoreVerdict::Burn(_)));
    assert!(matches!(
        after_store(Ok(Some(sample(Some(15)))), 5, 6),
        StoreVerdict::Serve { cache_secs: 9, .. }
    ));
    assert!(matches!(
        after_store(Ok(Some(sample(None))), 5, 6),
        StoreVerdict::Serve { cache_secs: 300, .. }
    ));

    assert!(after_ping(Ok(())).is_ok());
    assert!(matches!(
        after_ping(Err(RepoError::Backend(text("disk")))),
        Err(ServiceError::Backend(c)) if c == "disk"
    ));
    assert!(after_delete(Ok(true)).is_ok());
    assert!(matches!(after_delete(Ok(false)), Err(ServiceError::NotFound)));
    assert!(matches!(
        after_delete(Err(RepoError::Backend(text("disk")))),
        Err(ServiceError::Backend(_))
    ));
}

#[test]
fn cache_life_is_bounded_by_expiry() {
    assert_eq!(cache_ttl_secs(&sample(None), 0), 300);
    assert_eq!(cache_ttl_secs(&sample(Some(100)), 100), 0);
    assert_eq!(cache_ttl_secs(&sample(Some(100)), 101), 0);
    assert_eq!(cache_ttl_secs(&sample(Some(100)), 99), 1);
    assert_eq!(cache_ttl_secs(&sample(Some(1_000)), 0), 300);
    assert_eq!(cache_ttl_secs(&sample(Some(i64::MAX)), i64::MIN), 300);
    assert_eq!(cache_ttl_secs(&sample(Some(i64::MIN)), i64::MAX), 0);
}

#[test]
fn service_errors_are_described() {
    assert_eq!(ServiceError::NotFound.message(), "not found");
    assert_eq!(ServiceError::Conflict.message(), "paste id already in use");
    assert_eq!(ServiceError::Backend(text("disk")).message(), "disk");
    assert_eq!(
        ServiceError::Validation(ValidationError::ContentEmpty).message(),
        "paste content must not be empty"
    );
    assert!(matches!(ServiceError::from(RepoError::Conflict), ServiceError::Conflict));
}

// --- in-memory store --------------------------------------------------------

fn stored_sample() -> Paste {
    Paste::new(
        PasteId::parse("abc").unwrap(),
        Content::parse(text("body")).unwrap(),
        None,
        1_700_000_000,
        None,
        false,
    )
}

#[test]
fn insert_conflicts_then_views_and_delete_report_presence() {
    let mut repo = InMemoryPasteRepository::default();
    let id = PasteId::parse("abc").unwrap();

    assert!(!repo.increment_views(&id).unwrap());
    repo.insert(&stored_sample()).unwrap();
    assert!(matches!(repo.insert(&stored_sample()), Err(RepoError::Conflict)));

    assert!(repo.increment_views(&id).unwrap());
    assert_eq!(repo.get(&id).unwrap().unwrap().views, 1);

    assert!(repo.delete(&id).unwrap());
    assert!(!repo.delete(&id).unwrap());
}

#[test]
fn increment_views_by_adds_a_batch_in_one_call() {
    let mut repo = InMemoryPasteRepository::default();
    let id = PasteId::parse("abc").unwrap();
    assert!(!repo.increment_views_by(&id, 5).unwrap()); // absent
    repo.insert(&stored_sample()).unwrap();
    assert!(repo.increment_views_by(&id, 5).unwrap());
    repo.increment_views(&id).unwrap(); // default delegates to +1
    assert_eq!(repo.get(&id).unwrap().unwrap().views, 6);
}

#[test]
fn memory_ping_round_trips_through_the_task() {
    let repo = InMemoryPasteRepository::default();
    assert!(repo.ping().is_ok());
}

#[test]
fn memory_concurrent_inserts_are_serialized_by_the_owning_task() {
    // The commands of many callers, carried out one at a time by the owner.
    let mut repo = InMemoryPasteRepository::default();
    for i in 0..50 {
        let paste = Paste::new(
            PasteId::parse(&format!("id{i:04}")).unwrap(),
            Content::parse(text("body")).unwrap(),
            None,
            1_700_000_000,
            None,
            false,
        );
        assert!(matches!(repo.apply(Cmd::Insert { paste }), Reply::Inserted(true)));
    }
    for i in 0..50 {
        let id = format!("id{i:04}");
        assert!(matches!(repo.apply(Cmd::Get { id }), Reply::Found(Some(_))));
    }
    assert!(matches!(repo.apply(Cmd::Ping), Reply::Pong));
}

#[test]
fn a_paste_inserted_again_starts_with_its_own_views() {
    let mut repo = InMemoryPasteRepository::new();
    repo.insert(&stored_sample()).unwrap();
    repo.increment_views_by(&id("abc"), 9).unwrap();
    assert!(matches!(repo.apply(Cmd::Insert { paste: stored_sample() }), Reply::Inserted(false)));
    assert_eq!(repo.get(&id("abc")).unwrap().unwrap().views, 9);
    repo.delete(&id("abc")).unwrap();
    repo.insert(&stored_sample()).unwrap();
    assert_eq!(repo.get(&id("abc")).unwrap().unwrap().views, 0);
}

// --- view recorders ---------------------------------------------------------

fn repo_with(id: &str) -> InMemoryPasteRepository {
    let mut repo = InMemoryPasteRepository::default();
    let paste = Paste::new(
        PasteId::parse(id).unwrap(),
        Content::parse(text("body")).unwrap(),
        None,
        1_700_000_000,
        None,
        false,
    );
    repo.insert(&paste).unwrap();
    repo
}

fn views_of(repo: &InMemoryPasteRepository, id: &str) -> i64 {
    repo.get(&PasteId::parse(id).unwrap()).unwrap().unwrap().views
}

#[test]
fn immediate_recorder_counts_each_view() {
    let mut repo = repo_with("abc");
    let mut rec = ImmediateViewRecorder::new();
    rec.record(&mut repo, &PasteId::parse("abc").unwrap());
    rec.record(&mut repo, &PasteId::parse("abc").unwrap());
    assert_eq!(views_of(&repo, "abc"), 2);
}

#[test]
fn batcher_coalesces_views_and_flush_persists_them() {
    let mut repo = repo_with("abc");
    let mut rec = BatchingViewRecorder::spawn(1_000_000);
    for _ in 0..5 {
        rec.record(&mut repo, &PasteId::parse("abc").unwrap());
    }
    assert_eq!(views_of(&repo, "abc"), 0);
    rec.flush(&mut repo);
    assert_eq!(views_of(&repo, "abc"), 5);
}

#[test]
fn dropping_the_recorder_flushes_remaining_counts() {
    let mut repo = repo_with("xy");
    let mut batch = Batch::new(1_000_000);
    assert!(batch.on_event(&BatchEvent::Count(text("xy"))).is_empty());
    assert!(batch.on_event(&BatchEvent::Count(text("xy"))).is_empty());
    // Last sender gone: a final flush.
    for (id, n) in batch.on_event(&BatchEvent::Closed) {
        repo.increment_views_by(&PasteId::from_trusted(id), n).unwrap();
    }
    assert_eq!(views_of(&repo, "xy"), 2);
}

#[test]
fn batcher_flushes_early_when_many_ids_are_pending() {
    let mut repo = repo_with("abc");
    let mut rec = BatchingViewRecorder::spawn(2);
    rec.record(&mut repo, &id("abc"));
    assert_eq!(views_of(&repo, "abc"), 0);
    rec.record(&mut repo, &id("other")); // not stored: its count is dropped
    assert_eq!(views_of(&repo, "abc"), 1);
    // A cap of zero counts as one: every view is written at once.
    let mut eager = BatchingViewRecorder::spawn(0);
    eager.record(&mut repo, &id("abc"));
    assert_eq!(views_of(&repo, "abc"), 2);
    let mut default = BatchingViewRecorder::spawn_default();
    default.record(&mut repo, &id("abc"));
    assert_eq!(views_of(&repo, "abc"), 2);
    default.flush(&mut repo);
    assert_eq!(views_of(&repo, "abc"), 3);
}

#[test]
fn no_count_is_lost_over_any_events() {
    let mut batch = Batch::new(3);
    let mut written = 0;
    let mut counted = 0;
    for i in 0..100u32 {
        let event = match i % 7 {
            5 => BatchEvent::Tick,
            6 => BatchEvent::Flush,
            k => BatchEvent::Count(format!("id{}", k % 4)),
        };
        if let BatchEvent::Count(key) = &event {
            counted += i64::from(key == "id0");
        }
        written += batch
            .on_event(&event)
            .iter()
            .filter(|(k, _)| k == "id0")
            .map(|(_, n)| n)
            .sum::<i64>();
    }
    written += batch.drain().iter().filter(|(k, _)| k == "id0").map(|(_, n)| n).sum::<i64>();
    assert_eq!(written, counted);
}

#[test]
fn count_batch_counts_distinct_keys() {
    let mut b = CountBatch::new();
    for k in ["a", "b", "a", "c", "a"] {
        b.bump(k);
    }
    assert_eq!(b.distinct(), 3);
    assert_eq!(b.drain(), vec![(text("a"), 3), (text("b"), 1), (text("c"), 1)]);
    assert_eq!(b.distinct(), 0);
    b.bump("a");
    assert_eq!(b.drain(), vec![(text("a"), 1)]);
}

#[test]
fn a_service_with_a_batching_recorder_keeps_counts() {
    let mut svc = PasteService::with_cache_and_views(
        InMemoryPasteRepository::default(),
        NoOpCache,
        BatchingViewRecorder::spawn_default(),
    );
    let p = svc.create(text("x"), None, None, false).unwrap();
    for _ in 0..4 {
        svc.fetch(p.id.as_str()).unwrap();
    }
    assert_eq!(svc.repo.get(&p.id).unwrap().unwrap().views, 0);
    svc.views.flush(&mut svc.repo);
    assert_eq!(svc.repo.get(&p.id).unwrap().unwrap().views, 4);
}

// --- metrics ----------------------------------------------------------------

#[test]
fn counts_accumulate() {
    let mut m = Metrics::default();
    assert_eq!(m.pastes_served(), 0);
    m.record_served();
    m.record_served();
    assert_eq!(m.pastes_served(), 2);
}

// --- errors -----------------------------------------------------------------

#[test]
fn each_variant_maps_to_its_status() {
    assert_eq!(AppError::NotFound.status(), 404);
    assert_eq!(AppError::Validation("bad".into()).status(), 400);
    assert_eq!(AppError::Conflict("dup".into()).status(), 409);
    let internal = AppError::Internal("boom".into());
    assert_eq!(internal.status(), 500);
}

#[test]
fn into_response_sets_status() {
    let resp = AppError::NotFound.into_response();
    assert_eq!(resp.status, 404);
    assert_eq!(resp.error, "not found");
}

#[test]
fn the_cause_of_an_internal_error_is_not_told() {
    let resp = AppError::Internal(text("boom")).into_response();
    assert_eq!((resp.status, resp.error.as_str()), (500, "internal error"));
    assert_eq!(AppError::Validation(text("bad")).into_response().error, "bad");
    assert_eq!(AppError::Conflict(text("dup")).message(), "dup");
}

// --- API --------------------------------------------------------------------

type Svc = PasteService<InMemoryPasteRepository, NoOpCache, ImmediateViewRecorder>;

fn post(svc: &mut Svc, req: CreatePasteRequest) -> Result<CreatePasteResponse, AppError> {
    let res = svc.create(req.content, req.syntax, req.ttl_seconds, req.one_shot);
    create_reply(res, "http://localhost")
}

fn get(svc: &mut Svc, m: &mut Metrics, id: &str) -> Result<PasteResponse, AppError> {
    paste_reply(svc.fetch(id), m)
}

fn request(content: &str) -> CreatePasteRequest {
    CreatePasteRequest { content: text(content), syntax: None, ttl_seconds: None, one_shot: false }
}

#[test]
fn create_then_fetch_then_raw_then_delete() {
    let mut svc = service();
    let mut m = Metrics::default();

    // Create.
    let created =
        post(&mut svc, CreatePasteRequest { syntax: Some(text("text")), ..request("hello world") })
            .unwrap();
    let id = created.id.clone();
    assert!(!created.one_shot);
    assert!(created.url.ends_with(&format!("/api/pastes/{id}")));
    assert_eq!(created.url, format!("http://localhost/api/pastes/{id}"));

    // Fetch.
    let fetched = get(&mut svc, &mut m, &id).unwrap();
    assert_eq!(fetched.content, "hello world");
    assert_eq!(fetched.syntax.as_deref(), Some("text"));
    assert_eq!(fetched.id, id);

    // Raw.
    assert_eq!(raw_reply(svc.fetch(&id), &mut m).unwrap(), "hello world");

    // Delete, then gone.
    assert!(delete_reply(svc.delete(&id)).is_ok());
    assert_eq!(get(&mut svc, &mut m, &id).unwrap_err().status(), 404);
    assert_eq!(raw_reply(svc.fetch(&id), &mut m).unwrap_err().status(), 404);
    assert_eq!(delete_reply(svc.delete(&id)).unwrap_err().status(), 404);
    assert_eq!(m.pastes_served(), 2);
}

#[test]
fn empty_content_is_400() {
    let mut svc = service();
    assert_eq!(post(&mut svc, request("")).unwrap_err().status(), 400);
}

#[test]
fn oversized_content_is_rejected() {
    let mut svc = service();
    // Just over the 1,000,000-byte content limit.
    let big = "x".repeat(1_000_001);
    assert_eq!(post(&mut svc, request(&big)).unwrap_err().status(), 400);
}

#[test]
fn ttl_paste_expires() {
    let mut svc = service();
    let mut m = Metrics::default();
    // ttl_seconds 0: it expires when it is created, and is expired on read.
    let created =
        post(&mut svc, CreatePasteRequest { ttl_seconds: Some(0), ..request("x") }).unwrap();
    assert_eq!(created.expires_at, Some(created.created_at));
    assert_eq!(get(&mut svc, &mut m, &created.id).unwrap_err().status(), 404);
}

#[test]
fn one_shot_burns_over_http() {
    let mut svc = service();
    let mut m = Metrics::default();
    let created =
        post(&mut svc, CreatePasteRequest { one_shot: true, ..request("secret") }).unwrap();

    // First fetch succeeds.
    assert!(get(&mut svc, &mut m, &created.id).is_ok());
    // Second fetch is gone (burned).
    assert_eq!(get(&mut svc, &mut m, &created.id).unwrap_err().status(), 404);
}

#[test]
fn unknown_id_is_404() {
    let mut svc = service();
    let mut m = Metrics::default();
    assert_eq!(get(&mut svc, &mut m, "nope").unwrap_err().status(), 404);
}

#[test]
fn ready_returns_ok_when_store_reachable() {
    let r = ready_response(service().ready().is_ok());
    assert_eq!(r.status, 200);
    assert_eq!(r.text, "ready");
    let r = ready_response(false);
    assert_eq!((r.status, r.text), (503, "unavailable"));
}

#[test]
fn service_errors_become_answers() {
    let reply = |e| create_reply(Err(e), "").unwrap_err().into_response();
    let r = reply(ServiceError::Conflict);
    assert_eq!((r.status, r.error.as_str()), (409, "paste id already in use"));
    let r = reply(ServiceError::Backend(text("disk")));
    assert_eq!((r.status, r.error.as_str()), (500, "internal error"));
    let r = reply(ServiceError::Validation(ValidationError::ContentEmpty));
    assert_eq!((r.status, r.error.as_str()), (400, "paste content must not be empty"));
}

// --- configuration ----------------------------------------------------------

#[test]
fn pastebin_config_defaults_and_errors() {
    let bind = Some(SocketAddress::V4 { ip4: 0x7f00_0001, port: 8090 });
    let mut env = Env::new();
    assert_eq!(Config::bind_address(&env), "127.0.0.1:8090");
    let c = Config::from_env(&env, bind).unwrap();
    assert_eq!(c.max_body_bytes, 1_048_576);
    assert_eq!(c.public_base_url, "http://127.0.0.1:8090");
    assert_eq!(c.database_max_connections, 5);
    assert_eq!(c.rate_limit_rps, 0);
    assert_eq!(
        Config::from_env(&env, None).unwrap_err(),
        ConfigError::Invalid("APP_BIND_ADDR")
    );
    env.set("RATE_LIMIT_BURST", "4294967296");
    assert_eq!(
        Config::from_env(&env, bind).unwrap_err(),
        ConfigError::Invalid("RATE_LIMIT_BURST")
    );
    env.set("MAX_BODY_BYTES", "1 MB");
    assert_eq!(
        Config::from_env(&env, bind).unwrap_err().message(),
        "invalid value for MAX_BODY_BYTES"
    );
}
