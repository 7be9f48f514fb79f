//! Counts that are collected by key and handed on together.

use vstd::hash_map::StringHashMap;
use vstd::prelude::*;

use crate::token;

verus! {

/// One more than `n`. A count that is full starts over at the lowest number.
pub open spec fn one_more(n: i64) -> i64 {
    if n == i64::MAX {
        i64::MIN
    } else {
        (n + 1) as i64
    }
}

/// The count of a key; nothing was counted for a key that is missing.
pub open spec fn count_of(counts: Map<Seq<char>, i64>, key: Seq<char>) -> i64 {
    if counts.contains_key(key) {
        counts[key]
    } else {
        0
    }
}

/// The counts in a list of keys and numbers, the later of two entries for one key
/// taking effect.
pub open spec fn counts_in(items: Seq<(String, i64)>) -> Map<Seq<char>, i64>
    decreases items.len(),
{
    if items.len() == 0 {
        Map::empty()
    } else {
        counts_in(items.drop_last()).insert(items.last().0@, items.last().1)
    }
}

/// No key occurs twice.
pub open spec fn distinct_keys(items: Seq<(String, i64)>) -> bool {
    forall|i: int, j: int|
        0 <= i < j < items.len() ==> (#[trigger] items[i]).0@ != (#[trigger] items[j]).0@
}

/// Counts by key, with the keys in the order in which they first occurred.
pub struct CountBatch {
    items: Vec<(String, i64)>,
    index: StringHashMap<usize>,
}

/// What is in a list is in its counts.
pub proof fn lemma_counts_in(items: Seq<(String, i64)>, i: int)
    requires
        distinct_keys(items),
        0 <= i < items.len(),
    ensures
        counts_in(items).contains_key(items[i].0@),
        counts_in(items)[items[i].0@] == items[i].1,
    decreases items.len(),
{
    if i < items.len() - 1 {
        lemma_front_distinct(items);
        lemma_counts_in(items.drop_last(), i);
        assert(items[i].0@ != items[items.len() - 1].0@);
    }
}

/// What is in the counts of a list is in the list.
proof fn lemma_counts_from(items: Seq<(String, i64)>, key: Seq<char>)
    requires
        counts_in(items).contains_key(key),
    ensures
        exists|i: int| 0 <= i < items.len() && (#[trigger] items[i]).0@ == key,
    decreases items.len(),
{
    if items.len() > 0 {
        if items.last().0@ == key {
            assert(items[items.len() - 1].0@ == key);
        } else {
            lemma_counts_from(items.drop_last(), key);
            let i = choose|i: int|
                0 <= i < items.drop_last().len() && (#[trigger] items.drop_last()[i]).0@ == key;
            assert(items[i].0@ == key);
        }
    }
}

/// A list without its last entry still has distinct keys.
pub proof fn lemma_front_distinct(items: Seq<(String, i64)>)
    requires
        distinct_keys(items),
        items.len() > 0,
    ensures
        distinct_keys(items.drop_last()),
        !counts_in(items.drop_last()).contains_key(items.last().0@),
{
    let front = items.drop_last();
    assert forall|a: int, b: int| 0 <= a < b < front.len() implies (#[trigger] front[a]).0@ != (
    #[trigger] front[b]).0@ by {
        assert(items[a].0@ != items[b].0@);
    }
    if counts_in(front).contains_key(items.last().0@) {
        lemma_counts_from(front, items.last().0@);
        let i = choose|i: int|
            0 <= i < front.len() && (#[trigger] front[i]).0@ == items.last().0@;
        assert(items[i].0@ != items[items.len() - 1].0@);
    }
}

/// A list with distinct keys counts as many keys as it is long.
proof fn lemma_counts_len(items: Seq<(String, i64)>)
    requires
        distinct_keys(items),
    ensures
        counts_in(items).dom().finite(),
        counts_in(items).len() == items.len(),
    decreases items.len(),
{
    if items.len() > 0 {
        lemma_front_distinct(items);
        lemma_counts_len(items.drop_last());
    }
}

/// A new number at one place of a list is a new count for its key.
proof fn lemma_counts_update(items: Seq<(String, i64)>, i: int, n: i64)
    requires
        distinct_keys(items),
        0 <= i < items.len(),
    ensures
        counts_in(items.update(i, (items[i].0, n))) == counts_in(items).insert(items[i].0@, n),
    decreases items.len(),
{
    let changed = items.update(i, (items[i].0, n));
    lemma_front_distinct(items);
    if i < items.len() - 1 {
        lemma_counts_update(items.drop_last(), i, n);
        assert(changed.drop_last() =~= items.drop_last().update(i, (items[i].0, n)));
        assert(items[i].0@ != items[items.len() - 1].0@);
    } else {
        assert(changed.drop_last() =~= items.drop_last());
    }
    assert(counts_in(changed) =~= counts_in(items).insert(items[i].0@, n));
}

impl CountBatch {
    /// The counts by key.
    pub closed spec fn counts(&self) -> Map<Seq<char>, i64> {
        counts_in(self.items@)
    }

    /// The index finds every key at its place and nothing else.
    pub closed spec fn well_formed(&self) -> bool {
        &&& distinct_keys(self.items@)
        &&& forall|i: int|
            0 <= i < self.items@.len() ==> self.index@.contains_key((#[trigger] self.items@[i]).0@)
                && self.index@[self.items@[i].0@] == i
        &&& forall|k: Seq<char>| #[trigger]
            self.index@.contains_key(k) ==> self.index@[k] < self.items@.len()
                && self.items@[self.index@[k] as int].0@ == k
    }

    /// No counts.
    pub fn new() -> (b: Self)
        ensures
            b.well_formed(),
            b.counts() == Map::<Seq<char>, i64>::empty(),
    {
        CountBatch { items: Vec::new(), index: StringHashMap::new() }
    }

    /// How many keys have been counted.
    pub fn distinct(&self) -> (n: usize)
        requires
            self.well_formed(),
        ensures
            n == self.counts().len(),
            self.counts().dom().finite(),
    {
        proof {
            lemma_counts_len(self.items@);
        }
        self.items.len()
    }

    /// Counts one for `key`.
    pub fn bump(&mut self, key: &str)
        requires
            old(self).well_formed(),
        ensures
            final(self).well_formed(),
            final(self).counts() == old(self).counts().insert(
                key@,
                one_more(count_of(old(self).counts(), key@)),
            ),
    {
        let found: Option<usize> = match self.index.get(key) {
            Some(i) => Some(*i),
            None => None,
        };
        match found {
            Some(i) => {
                let n: i64 = self.items[i].1;
                let more: i64 = if n == i64::MAX {
                    i64::MIN
                } else {
                    n + 1
                };
                proof {
                    lemma_counts_in(self.items@, i as int);
                    lemma_counts_update(self.items@, i as int, more);
                }
                let ghost before = self.items@;
                self.items[i].1 = more;
                assert(self.items@ =~= before.update(i as int, (before[i as int].0, more)));
            },
            None => {
                let at: usize = self.items.len();
                proof {
                    if self.counts().contains_key(key@) {
                        lemma_counts_from(self.items@, key@);
                    }
                }
                let ghost before = self.items@;
                self.items.push((key.to_owned(), 1));
                self.index.insert(key.to_owned(), at);
                assert(self.items@.drop_last() =~= before);
            },
        }
    }

    /// Takes all counts out.
    pub fn drain(&mut self) -> (items: Vec<(String, i64)>)
        requires
            old(self).well_formed(),
        ensures
            final(self).well_formed(),
            final(self).counts() == Map::<Seq<char>, i64>::empty(),
            distinct_keys(items@),
            counts_in(items@) == old(self).counts(),
    {
        let mut items: Vec<(String, i64)> = Vec::new();
        std::mem::swap(&mut items, &mut self.items);
        self.index.clear();
        items
    }
}

/// A batch of noted counts for valid tokens, to be written out once many distinct
/// tokens are noted: the state of a background batcher.
pub struct Batch {
    pending: CountBatch,
    max_pending: usize,
}

/// What reaches a batcher.
#[derive(Debug)]
pub enum BatchEvent {
    /// One more for a token.
    Count(String),
    /// Somebody asks for a flush.
    Flush,
    /// The flush interval is over.
    Tick,
    /// Nothing more will come.
    Closed,
}

/// What is noted and what is written out after an event.
pub open spec fn batch_step(noted: Map<Seq<char>, i64>, limit: nat, event: BatchEvent) -> (
    Map<Seq<char>, i64>,
    Map<Seq<char>, i64>,
) {
    match event {
        BatchEvent::Count(key) => {
            let more = noted.insert(key@, one_more(count_of(noted, key@)));
            if more.len() >= limit {
                (Map::empty(), more)
            } else {
                (more, Map::empty())
            }
        },
        _ => (Map::empty(), noted),
    }
}

impl Batch {
    /// The counts noted, by token.
    pub closed spec fn noted(&self) -> Map<Seq<char>, i64> {
        self.pending.counts()
    }

    /// How many distinct tokens force a flush.
    pub closed spec fn limit(&self) -> nat {
        self.max_pending as nat
    }

    /// Only valid tokens are noted.
    pub closed spec fn well_formed(&self) -> bool {
        &&& self.pending.well_formed()
        &&& self.max_pending >= 1
        &&& forall|k: Seq<char>| #[trigger]
            self.pending.counts().contains_key(k) ==> token::valid(k)
    }

    /// An empty batch, to be flushed once `max_pending` distinct tokens (at least
    /// one) are noted.
    pub fn new(max_pending: usize) -> (b: Self)
        ensures
            b.well_formed(),
            b.noted() == Map::<Seq<char>, i64>::empty(),
            b.limit() == if max_pending >= 1 {
                max_pending as nat
            } else {
                1
            },
    {
        Batch {
            pending: CountBatch::new(),
            max_pending: if max_pending >= 1 {
                max_pending
            } else {
                1
            },
        }
    }

    /// Notes one for a token; true if the batch is to be flushed now.
    pub fn note(&mut self, key: &str) -> (full: bool)
        requires
            old(self).well_formed(),
            token::valid(key@),
        ensures
            final(self).well_formed(),
            final(self).limit() == old(self).limit(),
            final(self).noted() == old(self).noted().insert(
                key@,
                one_more(count_of(old(self).noted(), key@)),
            ),
            full == (final(self).noted().len() >= final(self).limit()),
    {
        self.pending.bump(key);
        self.pending.distinct() >= self.max_pending
    }

    /// Takes the noted counts out: one entry per token.
    pub fn drain(&mut self) -> (items: Vec<(String, i64)>)
        requires
            old(self).well_formed(),
        ensures
            final(self).well_formed(),
            final(self).limit() == old(self).limit(),
            final(self).noted() == Map::<Seq<char>, i64>::empty(),
            distinct_keys(items@),
            counts_in(items@) == old(self).noted(),
            forall|i: int| 0 <= i < items@.len() ==> token::valid((#[trigger] items@[i]).0@),
    {
        let items = self.pending.drain();
        proof {
            assert forall|i: int| 0 <= i < items@.len() implies token::valid(
                (#[trigger] items@[i]).0@,
            ) by {
                lemma_counts_in(items@, i);
            }
        }
        items
    }

    /// Takes in an event and hands out what is to be written now, one entry per
    /// token.
    pub fn on_event(&mut self, event: &BatchEvent) -> (writes: Vec<(String, i64)>)
        requires
            old(self).well_formed(),
            event matches BatchEvent::Count(key) ==> token::valid(key@),
        ensures
            final(self).well_formed(),
            final(self).limit() == old(self).limit(),
            final(self).noted() == batch_step(old(self).noted(), old(self).limit(), *event).0,
            distinct_keys(writes@),
            counts_in(writes@) == batch_step(old(self).noted(), old(self).limit(), *event).1,
            forall|i: int| 0 <= i < writes@.len() ==> token::valid((#[trigger] writes@[i]).0@),
    {
        match event {
            BatchEvent::Count(key) => {
                if self.note(key.as_str()) {
                    self.drain()
                } else {
                    Vec::new()
                }
            },
            _ => self.drain(),
        }
    }
}

/// What is noted after a run of events.
pub open spec fn noted_after(noted: Map<Seq<char>, i64>, limit: nat, events: Seq<BatchEvent>) -> Map<
    Seq<char>,
    i64,
>
    decreases events.len(),
{
    if events.len() == 0 {
        noted
    } else {
        batch_step(noted_after(noted, limit, events.drop_last()), limit, events.last()).0
    }
}

/// How much is written out for a token over a run of events.
pub open spec fn written(
    noted: Map<Seq<char>, i64>,
    limit: nat,
    events: Seq<BatchEvent>,
    key: Seq<char>,
) -> int
    decreases events.len(),
{
    if events.len() == 0 {
        0
    } else {
        let before = noted_after(noted, limit, events.drop_last());
        written(noted, limit, events.drop_last(), key) + count_of(
            batch_step(before, limit, events.last()).1,
            key,
        )
    }
}

/// How often a token is counted in a run of events.
pub open spec fn occurrences(events: Seq<BatchEvent>, key: Seq<char>) -> nat
    decreases events.len(),
{
    if events.len() == 0 {
        0
    } else {
        occurrences(events.drop_last(), key) + (if events.last() matches BatchEvent::Count(k)
            && k@ == key {
            1nat
        } else {
            0nat
        })
    }
}

/// No count is lost or made up: whatever the events and the limit, what has been
/// written out for a token and what is still noted add up to how often it was
/// counted.
pub proof fn no_count_is_lost(limit: nat, events: Seq<BatchEvent>, key: Seq<char>)
    requires
        events.len() <= i64::MAX,
    ensures
        written(Map::empty(), limit, events, key) + count_of(
            noted_after(Map::empty(), limit, events),
            key,
        ) == occurrences(events, key),
        0 <= count_of(noted_after(Map::empty(), limit, events), key) <= events.len(),
        0 <= written(Map::empty(), limit, events, key),
    decreases events.len(),
{
    if events.len() > 0 {
        no_count_is_lost(limit, events.drop_last(), key);
    }
}

/// When nothing more will come, everything that was counted has been written out.
pub proof fn closing_writes_everything(limit: nat, events: Seq<BatchEvent>, key: Seq<char>)
    requires
        events.len() < i64::MAX,
    ensures
        written(Map::empty(), limit, events.push(BatchEvent::Closed), key) == occurrences(
            events,
            key,
        ),
{
    let all = events.push(BatchEvent::Closed);
    assert(all.drop_last() =~= events);
    no_count_is_lost(limit, all, key);
}

/// Nothing is written while fewer distinct tokens are noted than the limit, and
/// everything once there are as many; any other event writes everything.
pub proof fn batches_are_written_at_the_limit(
    noted: Map<Seq<char>, i64>,
    limit: nat,
    key: String,
    other: BatchEvent,
)
    requires
        noted.dom().finite(),
        !(other is Count),
    ensures
        ({
            let (kept, out) = batch_step(noted, limit, BatchEvent::Count(key));
            let distinct = if noted.contains_key(key@) {
                noted.len()
            } else {
                noted.len() + 1
            };
            &&& distinct < limit ==> out =~= Map::<Seq<char>, i64>::empty() && kept.contains_key(
                key@,
            ) && kept.remove(key@) =~= noted.remove(key@)
            &&& distinct >= limit ==> kept =~= Map::<Seq<char>, i64>::empty() && out.contains_key(
                key@,
            ) && out.remove(key@) =~= noted.remove(key@)
        }),
        batch_step(noted, limit, other).0 =~= Map::<Seq<char>, i64>::empty(),
        batch_step(noted, limit, other).1 == noted,
{
    if noted.contains_key(key@) {
        assert(noted.dom().insert(key@) =~= noted.dom());
    }
}

/// A batch is written out at the number of distinct tokens that it was made for, which is
/// at least one, and holds nothing at first.
pub proof fn batches_have_the_limit_they_were_made_with(max_pending: usize, b: Batch)
    requires
        call_ensures(Batch::new, (max_pending,), b),
    ensures
        max_pending > 0 ==> b.limit() == max_pending,
        max_pending == 0 ==> b.limit() == 1,
        forall|k: Seq<char>| !#[trigger] b.noted().contains_key(k),
{
}

/// An event moves counts and loses none. What is written for a token and what stays noted
/// for it is what was noted before, and one more for the token that is counted. An event
/// that counts nothing leaves nothing noted.
pub proof fn events_move_counts(
    b: &mut Batch,
    event: BatchEvent,
    writes: Vec<(String, i64)>,
    key: Seq<char>,
)
    requires
        old(b).well_formed(),
        event is Count ==> token::valid(event->Count_0@),
        call_ensures(Batch::on_event, (b, &event), writes),
        0 <= count_of(old(b).noted(), key) < i64::MAX,
    ensures
        count_of(counts_in(writes@), key) + count_of(final(b).noted(), key) == count_of(
            old(b).noted(),
            key,
        ) + (if event is Count && event->Count_0@ == key {
            1int
        } else {
            0
        }),
        !(event is Count) ==> count_of(final(b).noted(), key) == 0,
        final(b).limit() == old(b).limit(),
        forall|i: int, j: int|
            0 <= i < j < writes@.len() ==> (#[trigger] writes@[i]).0@ != (#[trigger] writes@[j]).0@,
        forall|i: int|
            0 <= i < writes@.len() ==> (#[trigger] writes@[i]).1 == count_of(
                counts_in(writes@),
                writes@[i].0@,
            ),
{
    assert forall|i: int| 0 <= i < writes@.len() implies (#[trigger] writes@[i]).1 == count_of(
        counts_in(writes@),
        writes@[i].0@,
    ) by {
        lemma_counts_in(writes@, i);
    }
}

} // verus!
