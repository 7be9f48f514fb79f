//! Hit counting, immediate or batched.
//!
//! A redirect shouldn't wait on a database write just to bump a counter.
//! [`BatchingHitRecorder`] only notes a hit; the notes for one code are coalesced
//! into one `hits = hits + n` write, which is made when the batch is flushed.
//! [`ImmediateHitRecorder`] makes one write per hit.
//!
//! Counting is best-effort: a store that fails loses counts and nothing else. With
//! a store that does not fail, what is stored and what is noted together always
//! add up to the hits recorded ([`counted`]).

use vstd::prelude::*;

use crate::count_batch;
use crate::count_batch::Batch;
use crate::shortener::domain::{LinkRepository, LinkView, ShortCode};
use crate::token;

verus! {

/// Default cap on how stale a buffered count can get before it is flushed, in
/// seconds.
pub const DEFAULT_FLUSH_INTERVAL_SECS: u64 = 2;

/// Default number of *distinct* codes buffered before an early flush is forced.
pub const DEFAULT_MAX_PENDING: usize = 1024;

/// The two links differ in their hit counts at most.
pub open spec fn same_but_hits(a: LinkView, b: LinkView) -> bool {
    a == LinkView { hits: a.hits, ..b }
}

/// Whether a stored count, the noted hits and `n` more fit a count.
pub open spec fn in_range(stored: i64, noted: i64, n: int) -> bool {
    0 <= noted && noted + n <= i64::MAX && stored + noted + n <= i64::MAX
}

/// The hits of `code` that a step adds.
pub open spec fn gain(recorded: Option<Seq<char>>, code: Seq<char>) -> int {
    if recorded == Some(code) {
        1
    } else {
        0
    }
}

/// No count is lost between two states of a store and its noted hits: the links
/// are the same but for their counts, and for every link the stored count and the
/// noted hits together grow by the hit that was recorded, if any.
pub open spec fn counted(
    before: Map<Seq<char>, LinkView>,
    noted_before: Map<Seq<char>, i64>,
    after: Map<Seq<char>, LinkView>,
    noted_after: Map<Seq<char>, i64>,
    recorded: Option<Seq<char>>,
) -> bool {
    &&& after.dom() == before.dom()
    &&& forall|k: Seq<char>|
        before.contains_key(k) ==> same_but_hits(#[trigger] after[k], before[k])
    &&& forall|k: Seq<char>|
        before.contains_key(k) && in_range(
            before[k].hits,
            count_batch::count_of(noted_before, k),
            gain(recorded, k),
        ) ==> (#[trigger] after[k]).hits + count_batch::count_of(noted_after, k)
            == before[k].hits + count_batch::count_of(noted_before, k) + gain(recorded, k)
}

/// Records link hits. Best-effort: a failed or dropped count must never fail a
/// redirect.
pub trait HitRecorder<R: LinkRepository>: Sized {
    /// The hits noted and not yet stored, by code.
    spec fn noted(&self) -> Map<Seq<char>, i64>;

    /// What holds of the recorder at all times.
    spec fn valid(&self) -> bool;

    /// Records one hit.
    fn record(&mut self, repo: &mut R, code: &ShortCode)
        requires
            old(self).valid(),
        ensures
            final(self).valid(),
            old(repo).reliable() ==> final(repo).reliable() && counted(
                old(repo).links(),
                old(self).noted(),
                final(repo).links(),
                final(self).noted(),
                Some(code@),
            ),
    ;

    /// Stores every noted hit.
    fn flush(&mut self, repo: &mut R)
        requires
            old(self).valid(),
        ensures
            final(self).valid(),
            final(self).noted() == Map::<Seq<char>, i64>::empty(),
            old(repo).reliable() ==> final(repo).reliable() && counted(
                old(repo).links(),
                old(self).noted(),
                final(repo).links(),
                final(self).noted(),
                None,
            ),
    ;
}

/// Increments immediately: one write per hit. Exact and simple.
#[derive(Debug, Clone, Copy)]
pub struct ImmediateHitRecorder;

impl ImmediateHitRecorder {
    /// The recorder, which has no state of its own.
    pub fn new() -> Self {
        ImmediateHitRecorder
    }
}

impl<R: LinkRepository> HitRecorder<R> for ImmediateHitRecorder {
    open spec fn noted(&self) -> Map<Seq<char>, i64> {
        Map::empty()
    }

    open spec fn valid(&self) -> bool {
        true
    }

    fn record(&mut self, repo: &mut R, code: &ShortCode) {
        let _ = repo.increment_hits(code);
        proof {
            if old(repo).reliable() {
                assert(repo.links().dom() =~= old(repo).links().dom());
            }
        }
    }

    fn flush(&mut self, _repo: &mut R) {
    }
}

/// Batches hits and flushes them when many distinct codes are noted or on demand.
pub struct BatchingHitRecorder {
    batch: Batch,
}

impl BatchingHitRecorder {
    /// A recorder that flushes early once `max_pending` *distinct* codes are noted,
    /// which bounds memory under a burst.
    pub fn spawn(max_pending: usize) -> (r: Self)
        ensures
            r.batch().well_formed(),
            r.batch().noted() == Map::<Seq<char>, i64>::empty(),
            r.batch().limit() == if max_pending >= 1 {
                max_pending as nat
            } else {
                1
            },
    {
        BatchingHitRecorder { batch: Batch::new(max_pending) }
    }

    /// A recorder with the default cap.
    pub fn spawn_default() -> (r: Self)
        ensures
            r.batch().well_formed(),
            r.batch().noted() == Map::<Seq<char>, i64>::empty(),
            r.batch().limit() == DEFAULT_MAX_PENDING,
    {
        Self::spawn(DEFAULT_MAX_PENDING)
    }

    /// The batch behind the recorder.
    pub closed spec fn batch(&self) -> Batch {
        self.batch
    }
}

/// Stores the entries of a drained batch, one write each; a write that fails is
/// given up.
fn store_all<R: LinkRepository>(repo: &mut R, items: &Vec<(String, i64)>)
    requires
        count_batch::distinct_keys(items@),
        forall|i: int| 0 <= i < items@.len() ==> token::valid((#[trigger] items@[i]).0@),
    ensures
        old(repo).reliable() ==> final(repo).reliable() && counted(
            old(repo).links(),
            count_batch::counts_in(items@),
            final(repo).links(),
            Map::empty(),
            None,
        ),
{
    let n: usize = items.len();
    let mut i: usize = 0;
    let ghost start = repo.links();
    let ghost reliable = repo.reliable();
    while i < n
        invariant
            i <= n,
            n == items@.len(),
            count_batch::distinct_keys(items@),
            forall|j: int| 0 <= j < items@.len() ==> token::valid((#[trigger] items@[j]).0@),
            reliable ==> repo.reliable(),
            reliable ==> counted(
                start,
                count_batch::counts_in(items@.take(i as int)),
                repo.links(),
                Map::empty(),
                None,
            ),
            reliable ==> forall|k: Seq<char>|
                start.contains_key(k) && !count_batch::counts_in(
                    items@.take(i as int),
                ).contains_key(k) ==> #[trigger] repo.links()[k] == start[k],
        decreases n - i,
    {
        let ghost before = repo.links();
        let code = ShortCode::from_trusted(items[i].0.clone());
        let _ = repo.increment_hits_by(&code, items[i].1);
        proof {
            let done = items@.take(i as int);
            let more = items@.take(i + 1);
            assert(more.drop_last() =~= done);
            assert(count_batch::distinct_keys(more)) by {
                assert forall|a: int, b: int| 0 <= a < b < more.len() implies (#[trigger] more[a]).0@
                    != (#[trigger] more[b]).0@ by {
                    assert(items@[a].0@ != items@[b].0@);
                }
            }
            count_batch::lemma_front_distinct(more);
            if reliable {
                assert(repo.links().dom() =~= start.dom());
                assert forall|k: Seq<char>| start.contains_key(k) implies same_but_hits(
                    #[trigger] repo.links()[k],
                    start[k],
                ) by {
                    assert(same_but_hits(before[k], start[k]));
                }
                assert forall|k: Seq<char>|
                    start.contains_key(k) && in_range(
                        start[k].hits,
                        count_batch::count_of(count_batch::counts_in(more), k),
                        0,
                    ) implies (#[trigger] repo.links()[k]).hits == start[k].hits
                    + count_batch::count_of(count_batch::counts_in(more), k) by {
                    assert(same_but_hits(before[k], start[k]));
                    if k != code@ {
                        assert(before[k].hits == start[k].hits + count_batch::count_of(
                            count_batch::counts_in(done),
                            k,
                        ));
                    }
                }
            }
        }
        i += 1;
    }
    assert(items@.take(n as int) =~= items@);
}

impl<R: LinkRepository> HitRecorder<R> for BatchingHitRecorder {
    open spec fn noted(&self) -> Map<Seq<char>, i64> {
        self.batch().noted()
    }

    open spec fn valid(&self) -> bool {
        self.batch().well_formed()
    }

    fn record(&mut self, repo: &mut R, code: &ShortCode)
        ensures
            final(self).batch().limit() == old(self).batch().limit(),
            ({
                let noted = old(self).batch().noted();
                let more = noted.insert(
                    code@,
                    count_batch::one_more(count_batch::count_of(noted, code@)),
                );
                if more.len() < old(self).batch().limit() {
                    final(self).batch().noted() == more && *final(repo) == *old(repo)
                } else {
                    final(self).batch().noted() == Map::<Seq<char>, i64>::empty()
                }
            }),
    {
        if self.batch.note(code.as_str()) {
            let items = self.batch.drain();
            store_all(repo, &items);
        }
    }

    fn flush(&mut self, repo: &mut R)
        ensures
            final(self).batch().limit() == old(self).batch().limit(),
    {
        let items = self.batch.drain();
        store_all(repo, &items);
    }
}

/// Links that are the same but for their hits agree in everything else.
pub proof fn same_but_hits_agree(a: LinkView, b: LinkView)
    ensures
        same_but_hits(a, b) <==> a.code == b.code && a.target == b.target && a.created_at
            == b.created_at && a.expires_at == b.expires_at,
{
}

/// With a reliable store, a hit that is recorded is counted once, stored or noted, and
/// no other count changes but by moving from the notes to the store. Nothing but counts
/// changes. A flush leaves nothing noted.
pub proof fn recorded_hits_are_not_lost<R: LinkRepository, V: HitRecorder<R>>(
    v: &mut V,
    repo: &mut R,
    id: ShortCode,
    w: &mut V,
    store: &mut R,
    k: Seq<char>,
)
    requires
        old(v).valid() && old(w).valid(),
        old(repo).reliable() && old(store).reliable(),
        call_ensures(V::record, (v, repo, &id), ()),
        call_ensures(V::flush, (w, store), ()),
    ensures
        final(repo).links().contains_key(k) <==> old(repo).links().contains_key(k),
        final(store).links().contains_key(k) <==> old(store).links().contains_key(k),
        ({
            let stored = old(repo).links()[k].hits;
            let noted = count_batch::count_of(old(v).noted(), k);
            old(repo).links().contains_key(k) && 0 <= noted < i64::MAX && stored + noted < i64::MAX
                ==> final(repo).links()[k].hits + count_batch::count_of(final(v).noted(), k)
                == stored + noted + (if k == id@ {
                1int
            } else {
                0
            })
        }),
        ({
            let stored = old(store).links()[k].hits;
            let noted = count_batch::count_of(old(w).noted(), k);
            old(store).links().contains_key(k) && 0 <= noted && stored + noted <= i64::MAX
                ==> final(store).links()[k].hits == stored + noted
        }),
        forall|x: Seq<char>| !#[trigger] final(w).noted().contains_key(x),
{
    assert(final(repo).links().dom().contains(k) == old(repo).links().dom().contains(k));
    assert(final(store).links().dom().contains(k) == old(store).links().dom().contains(k));
    if old(repo).links().contains_key(k) {
        assert(same_but_hits(final(repo).links()[k], old(repo).links()[k]));
    }
    if old(store).links().contains_key(k) {
        assert(same_but_hits(final(store).links()[k], old(store).links()[k]));
    }
}

/// A recorder flushes at the number of distinct tokens that it was made for, which is 1024
/// where none is given.
pub proof fn recorders_have_the_cap_they_were_made_with(max_pending: usize, r: BatchingHitRecorder, d: BatchingHitRecorder)
    requires
        call_ensures(BatchingHitRecorder::spawn, (max_pending,), r),
        call_ensures(BatchingHitRecorder::spawn_default, (), d),
    ensures
        max_pending > 0 ==> r.batch().limit() == max_pending,
        max_pending == 0 ==> r.batch().limit() == 1,
        d.batch().limit() == 1024,
        DEFAULT_FLUSH_INTERVAL_SECS == 2,
{
}

} // verus!
