//! View counting, immediate or batched.
//!
//! Fetching a paste shouldn't wait on a database write just to bump a counter.
//! [`BatchingViewRecorder`] only notes a view; the notes for one id are coalesced
//! into one `views = views + n` write, which is made when the batch is flushed.
//! [`ImmediateViewRecorder`] makes one write per view.
//!
//! Counting is best-effort: a store that fails loses counts and nothing else. With
//! a store that does not fail, what is stored and what is noted together always
//! add up to the views recorded ([`counted`]).

use vstd::prelude::*;

use crate::count_batch;
use crate::count_batch::Batch;
use crate::pastebin::domain::{PasteId, PasteRepository, PasteView};
use crate::token;

verus! {

/// Default cap on how stale a buffered count can get before it is flushed, in
/// seconds.
pub const DEFAULT_FLUSH_INTERVAL_SECS: u64 = 2;

/// Default number of *distinct* ids buffered before an early flush is forced.
pub const DEFAULT_MAX_PENDING: usize = 1024;

/// The two pastes differ in their view counts at most.
pub open spec fn same_but_views(a: PasteView, b: PasteView) -> bool {
    a == PasteView { views: a.views, ..b }
}

/// Whether a stored count, the noted views and `n` more fit a count.
pub open spec fn in_range(stored: i64, noted: i64, n: int) -> bool {
    0 <= noted && noted + n <= i64::MAX && stored + noted + n <= i64::MAX
}

/// The views of `id` that a step adds.
pub open spec fn gain(recorded: Option<Seq<char>>, id: Seq<char>) -> int {
    if recorded == Some(id) {
        1
    } else {
        0
    }
}

/// No count is lost between two states of a store and its noted views: the pastes
/// are the same but for their counts, and for every paste the stored count and the
/// noted views together grow by the view that was recorded, if any.
pub open spec fn counted(
    before: Map<Seq<char>, PasteView>,
    noted_before: Map<Seq<char>, i64>,
    after: Map<Seq<char>, PasteView>,
    noted_after: Map<Seq<char>, i64>,
    recorded: Option<Seq<char>>,
) -> bool {
    &&& after.dom() == before.dom()
    &&& forall|k: Seq<char>|
        before.contains_key(k) ==> same_but_views(#[trigger] after[k], before[k])
    &&& forall|k: Seq<char>|
        before.contains_key(k) && in_range(
            before[k].views,
            count_batch::count_of(noted_before, k),
            gain(recorded, k),
        ) ==> (#[trigger] after[k]).views + count_batch::count_of(noted_after, k)
            == before[k].views + count_batch::count_of(noted_before, k) + gain(recorded, k)
}

/// Records paste views. Best-effort: a failed or dropped count must never fail a
/// fetch.
pub trait ViewRecorder<R: PasteRepository>: Sized {
    /// The views noted and not yet stored, by id.
    spec fn noted(&self) -> Map<Seq<char>, i64>;

    /// What holds of the recorder at all times.
    spec fn valid(&self) -> bool;

    /// Records one view.
    fn record(&mut self, repo: &mut R, id: &PasteId)
        requires
            old(self).valid(),
        ensures
            final(self).valid(),
            old(repo).reliable() ==> final(repo).reliable() && counted(
                old(repo).pastes(),
                old(self).noted(),
                final(repo).pastes(),
                final(self).noted(),
                Some(id@),
            ),
    ;

    /// Stores every noted view.
    fn flush(&mut self, repo: &mut R)
        requires
            old(self).valid(),
        ensures
            final(self).valid(),
            final(self).noted() == Map::<Seq<char>, i64>::empty(),
            old(repo).reliable() ==> final(repo).reliable() && counted(
                old(repo).pastes(),
                old(self).noted(),
                final(repo).pastes(),
                final(self).noted(),
                None,
            ),
    ;
}

/// Increments immediately: one write per view. Exact and simple.
#[derive(Debug, Clone, Copy)]
pub struct ImmediateViewRecorder;

impl ImmediateViewRecorder {
    /// The recorder, which has no state of its own.
    pub fn new() -> Self {
        ImmediateViewRecorder
    }
}

impl<R: PasteRepository> ViewRecorder<R> for ImmediateViewRecorder {
    open spec fn noted(&self) -> Map<Seq<char>, i64> {
        Map::empty()
    }

    open spec fn valid(&self) -> bool {
        true
    }

    fn record(&mut self, repo: &mut R, id: &PasteId) {
        let _ = repo.increment_views(id);
        proof {
            if old(repo).reliable() {
                assert(repo.pastes().dom() =~= old(repo).pastes().dom());
            }
        }
    }

    fn flush(&mut self, _repo: &mut R) {
    }
}

/// Batches views and flushes them when many distinct ids are noted or on demand.
pub struct BatchingViewRecorder {
    batch: Batch,
}

impl BatchingViewRecorder {
    /// A recorder that flushes early once `max_pending` *distinct* ids are noted,
    /// which bounds memory under a burst.
    pub fn spawn(max_pending: usize) -> (r: Self)
        ensures
            r.batch().well_formed(),
            r.batch().noted() == Map::<Seq<char>, i64>::empty(),
            r.batch().limit() == if max_pending >= 1 {
                max_pending as nat
            } else {
                1
            },
    {
        BatchingViewRecorder { batch: Batch::new(max_pending) }
    }

    /// A recorder with the default cap.
    pub fn spawn_default() -> (r: Self)
        ensures
            r.batch().well_formed(),
            r.batch().noted() == Map::<Seq<char>, i64>::empty(),
            r.batch().limit() == DEFAULT_MAX_PENDING,
    {
        Self::spawn(DEFAULT_MAX_PENDING)
    }

    /// The batch behind the recorder.
    pub closed spec fn batch(&self) -> Batch {
        self.batch
    }
}

/// Stores the entries of a drained batch, one write each; a write that fails is
/// given up.
fn store_all<R: PasteRepository>(repo: &mut R, items: &Vec<(String, i64)>)
    requires
        count_batch::distinct_keys(items@),
        forall|i: int| 0 <= i < items@.len() ==> token::valid((#[trigger] items@[i]).0@),
    ensures
        old(repo).reliable() ==> final(repo).reliable() && counted(
            old(repo).pastes(),
            count_batch::counts_in(items@),
            final(repo).pastes(),
            Map::empty(),
            None,
        ),
{
    let n: usize = items.len();
    let mut i: usize = 0;
    let ghost start = repo.pastes();
    let ghost reliable = repo.reliable();
    while i < n
        invariant
            i <= n,
            n == items@.len(),
            count_batch::distinct_keys(items@),
            forall|j: int| 0 <= j < items@.len() ==> token::valid((#[trigger] items@[j]).0@),
            reliable ==> repo.reliable(),
            reliable ==> counted(
                start,
                count_batch::counts_in(items@.take(i as int)),
                repo.pastes(),
                Map::empty(),
                None,
            ),
            reliable ==> forall|k: Seq<char>|
                start.contains_key(k) && !count_batch::counts_in(
                    items@.take(i as int),
                ).contains_key(k) ==> #[trigger] repo.pastes()[k] == start[k],
        decreases n - i,
    {
        let ghost before = repo.pastes();
        let id = PasteId::from_trusted(items[i].0.clone());
        let _ = repo.increment_views_by(&id, items[i].1);
        proof {
            let done = items@.take(i as int);
            let more = items@.take(i + 1);
            assert(more.drop_last() =~= done);
            assert(count_batch::distinct_keys(more)) by {
                assert forall|a: int, b: int| 0 <= a < b < more.len() implies (#[trigger] more[a]).0@
                    != (#[trigger] more[b]).0@ by {
                    assert(items@[a].0@ != items@[b].0@);
                }
            }
            count_batch::lemma_front_distinct(more);
            if reliable {
                assert(repo.pastes().dom() =~= start.dom());
                assert forall|k: Seq<char>| start.contains_key(k) implies same_but_views(
                    #[trigger] repo.pastes()[k],
                    start[k],
                ) by {
                    assert(same_but_views(before[k], start[k]));
                }
                assert forall|k: Seq<char>|
                    start.contains_key(k) && in_range(
                        start[k].views,
                        count_batch::count_of(count_batch::counts_in(more), k),
                        0,
                    ) implies (#[trigger] repo.pastes()[k]).views == start[k].views
                    + count_batch::count_of(count_batch::counts_in(more), k) by {
                    assert(same_but_views(before[k], start[k]));
                    if k != id@ {
                        assert(before[k].views == start[k].views + count_batch::count_of(
                            count_batch::counts_in(done),
                            k,
                        ));
                    }
                }
            }
        }
        i += 1;
    }
    assert(items@.take(n as int) =~= items@);
}

impl<R: PasteRepository> ViewRecorder<R> for BatchingViewRecorder {
    open spec fn noted(&self) -> Map<Seq<char>, i64> {
        self.batch().noted()
    }

    open spec fn valid(&self) -> bool {
        self.batch().well_formed()
    }

    fn record(&mut self, repo: &mut R, id: &PasteId)
        ensures
            final(self).batch().limit() == old(self).batch().limit(),
            ({
                let noted = old(self).batch().noted();
                let more = noted.insert(
                    id@,
                    count_batch::one_more(count_batch::count_of(noted, id@)),
                );
                if more.len() < old(self).batch().limit() {
                    final(self).batch().noted() == more && *final(repo) == *old(repo)
                } else {
                    final(self).batch().noted() == Map::<Seq<char>, i64>::empty()
                }
            }),
    {
        if self.batch.note(id.as_str()) {
            let items = self.batch.drain();
            store_all(repo, &items);
        }
    }

    fn flush(&mut self, repo: &mut R)
        ensures
            final(self).batch().limit() == old(self).batch().limit(),
    {
        let items = self.batch.drain();
        store_all(repo, &items);
    }
}

/// Pastes that are the same but for their views agree in everything else.
pub proof fn same_but_views_agree(a: PasteView, b: PasteView)
    ensures
        same_but_views(a, b) <==> a.id == b.id && a.content == b.content && a.syntax == b.syntax
            && a.created_at == b.created_at && a.expires_at == b.expires_at && a.one_shot
            == b.one_shot,
{
}

/// With a reliable store, a view that is recorded is counted once, stored or noted, and
/// no other count changes but by moving from the notes to the store. Nothing but counts
/// changes. A flush leaves nothing noted.
pub proof fn recorded_views_are_not_lost<R: PasteRepository, V: ViewRecorder<R>>(
    v: &mut V,
    repo: &mut R,
    id: PasteId,
    w: &mut V,
    store: &mut R,
    k: Seq<char>,
)
    requires
        old(v).valid() && old(w).valid(),
        old(repo).reliable() && old(store).reliable(),
        call_ensures(V::record, (v, repo, &id), ()),
        call_ensures(V::flush, (w, store), ()),
    ensures
        final(repo).pastes().contains_key(k) <==> old(repo).pastes().contains_key(k),
        final(store).pastes().contains_key(k) <==> old(store).pastes().contains_key(k),
        ({
            let stored = old(repo).pastes()[k].views;
            let noted = count_batch::count_of(old(v).noted(), k);
            old(repo).pastes().contains_key(k) && 0 <= noted < i64::MAX && stored + noted < i64::MAX
                ==> final(repo).pastes()[k].views + count_batch::count_of(final(v).noted(), k)
                == stored + noted + (if k == id@ {
                1int
            } else {
                0
            })
        }),
        ({
            let stored = old(store).pastes()[k].views;
            let noted = count_batch::count_of(old(w).noted(), k);
            old(store).pastes().contains_key(k) && 0 <= noted && stored + noted <= i64::MAX
                ==> final(store).pastes()[k].views == stored + noted
        }),
        forall|x: Seq<char>| !#[trigger] final(w).noted().contains_key(x),
{
    assert(final(repo).pastes().dom().contains(k) == old(repo).pastes().dom().contains(k));
    assert(final(store).pastes().dom().contains(k) == old(store).pastes().dom().contains(k));
    if old(repo).pastes().contains_key(k) {
        assert(same_but_views(final(repo).pastes()[k], old(repo).pastes()[k]));
    }
    if old(store).pastes().contains_key(k) {
        assert(same_but_views(final(store).pastes()[k], old(store).pastes()[k]));
    }
}

/// A recorder flushes at the number of distinct tokens that it was made for, which is 1024
/// where none is given.
pub proof fn recorders_have_the_cap_they_were_made_with(max_pending: usize, r: BatchingViewRecorder, d: BatchingViewRecorder)
    requires
        call_ensures(BatchingViewRecorder::spawn, (max_pending,), r),
        call_ensures(BatchingViewRecorder::spawn_default, (), d),
    ensures
        max_pending > 0 ==> r.batch().limit() == max_pending,
        max_pending == 0 ==> r.batch().limit() == 1,
        d.batch().limit() == 1024,
        DEFAULT_FLUSH_INTERVAL_SECS == 2,
{
}

} // verus!
