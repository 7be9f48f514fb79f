//! Infrastructure layer: an in-memory [`PasteRepository`].
//!
//! [`InMemoryPasteRepository`] owns its map outright. Where several tasks share
//! one store, a single task owns it and carries out the [`Cmd`]s that the others
//! send, one at a time, so that nothing is locked.

use vstd::hash_map::StringHashMap;
use vstd::prelude::*;

use crate::pastebin::domain;
use crate::pastebin::domain::{Paste, PasteId, PasteRepository, PasteView, RepoError};

verus! {

/// Commands the owner of a store understands.
#[derive(Debug)]
pub enum Cmd {
    /// Insert a paste.
    Insert { paste: Paste },
    /// Fetch a paste by id.
    Get { id: String },
    /// Add `n` to a paste's view count.
    IncrementBy { id: String, n: i64 },
    /// Remove a paste.
    Delete { id: String },
    /// Liveness round-trip.
    Ping,
}

/// The answer to a [`Cmd`].
#[derive(Debug)]
pub enum Reply {
    /// `true` if inserted, `false` if the id was taken.
    Inserted(bool),
    /// The paste, if there is one.
    Found(Option<Paste>),
    /// `true` if the row existed.
    Updated(bool),
    /// `true` if a row was removed.
    Removed(bool),
    /// The owner is alive.
    Pong,
}

/// The contents of an optional paste.
pub open spec fn paste_of(p: Option<Paste>) -> Option<PasteView> {
    match p {
        Some(p) => Some(p@),
        None => None,
    }
}

/// The paste stored under an id.
pub open spec fn lookup(pastes: Map<Seq<char>, PasteView>, id: Seq<char>) -> Option<PasteView> {
    if pastes.contains_key(id) {
        Some(pastes[id])
    } else {
        None
    }
}

/// How a command changes the store and what it is answered.
pub open spec fn carried_out(
    before: Map<Seq<char>, PasteView>,
    after: Map<Seq<char>, PasteView>,
    cmd: Cmd,
    reply: Reply,
) -> bool {
    match cmd {
        Cmd::Insert { paste } => {
            &&& reply == Reply::Inserted(!before.contains_key(paste.id@))
            &&& after == if before.contains_key(paste.id@) {
                before
            } else {
                before.insert(paste.id@, paste@)
            }
        },
        Cmd::Get { id } => {
            &&& reply matches Reply::Found(p)
            &&& paste_of(p) == lookup(before, id@)
            &&& after == before
        },
        Cmd::IncrementBy { id, n } => {
            &&& reply == Reply::Updated(before.contains_key(id@))
            &&& if before.contains_key(id@) {
                domain::views_added(before, after, id@, n)
            } else {
                after == before
            }
        },
        Cmd::Delete { id } => {
            &&& reply == Reply::Removed(before.contains_key(id@))
            &&& after == before.remove(id@)
        },
        Cmd::Ping => reply == Reply::Pong && after == before,
    }
}

/// In-memory paste store.
pub struct InMemoryPasteRepository {
    /// The pastes as they were inserted.
    inserted: StringHashMap<Paste>,
    /// The view counts that have changed since.
    views: StringHashMap<i64>,
}

impl Default for InMemoryPasteRepository {
    fn default() -> (r: Self)
        ensures
            r.contents() == Map::<Seq<char>, PasteView>::empty(),
    {
        Self::new()
    }
}

impl InMemoryPasteRepository {
    /// The stored pastes by id.
    pub closed spec fn contents(&self) -> Map<Seq<char>, PasteView> {
        Map::new(
            |k: Seq<char>| self.inserted@.contains_key(k),
            |k: Seq<char>|
                PasteView {
                    views: if self.views@.contains_key(k) {
                        self.views@[k]
                    } else {
                        self.inserted@[k].views
                    },
                    ..self.inserted@[k]@
                },
        )
    }

    /// An empty store.
    pub fn new() -> (r: Self)
        ensures
            r.contents() == Map::<Seq<char>, PasteView>::empty(),
    {
        let r = InMemoryPasteRepository {
            inserted: StringHashMap::new(),
            views: StringHashMap::new(),
        };
        assert(r.contents() =~= Map::<Seq<char>, PasteView>::empty());
        r
    }

    /// The paste stored under `id`, with its current count.
    fn find(&self, id: &str) -> (p: Option<Paste>)
        ensures
            paste_of(p) == lookup(self.contents(), id@),
    {
        match self.inserted.get(id) {
            Some(p) => {
                let mut paste = p.clone();
                if let Some(n) = self.views.get(id) {
                    paste.views = *n;
                }
                Some(paste)
            },
            None => None,
        }
    }

    /// Carries out one command.
    pub fn apply(&mut self, cmd: Cmd) -> (reply: Reply)
        ensures
            carried_out(old(self).contents(), final(self).contents(), cmd, reply),
    {
        match cmd {
            Cmd::Insert { paste } => {
                let vacant = !self.inserted.contains_key(paste.id.as_str());
                if vacant {
                    let key = paste.id.as_str().to_owned();
                    let ghost p = paste@;
                    self.views.remove(key.as_str());
                    self.inserted.insert(key, paste);
                    assert(self.contents() =~= old(self).contents().insert(p.id, p));
                }
                Reply::Inserted(vacant)
            },
            Cmd::Get { id } => {
                Reply::Found(self.find(id.as_str()))
            },
            Cmd::IncrementBy { id, n } => {
                let count: Option<i64> = match self.inserted.get(id.as_str()) {
                    Some(p) => match self.views.get(id.as_str()) {
                        Some(v) => Some(*v),
                        None => Some(p.views),
                    },
                    None => None,
                };
                match count {
                    Some(v) => {
                        let ghost key = id@;
                        let sum: i64 = v.wrapping_add(n);
                        self.views.insert(id, sum);
                        assert(self.contents() =~= old(self).contents().insert(
                            key,
                            PasteView { views: sum, ..old(self).contents()[key] },
                        ));
                        Reply::Updated(true)
                    },
                    None => Reply::Updated(false),
                }
            },
            Cmd::Delete { id } => {
                let present = self.inserted.contains_key(id.as_str());
                self.inserted.remove(id.as_str());
                self.views.remove(id.as_str());
                assert(self.contents() =~= old(self).contents().remove(id@));
                Reply::Removed(present)
            },
            Cmd::Ping => Reply::Pong,
        }
    }
}

impl PasteRepository for InMemoryPasteRepository {
    open spec fn pastes(&self) -> Map<Seq<char>, PasteView> {
        self.contents()
    }

    open spec fn reliable(&self) -> bool {
        true
    }

    fn insert(&mut self, paste: &Paste) -> Result<(), RepoError> {
        match self.apply(Cmd::Insert { paste: paste.clone() }) {
            Reply::Inserted(true) => Ok(()),
            _ => Err(RepoError::Conflict),
        }
    }

    fn get(&self, id: &PasteId) -> Result<Option<Paste>, RepoError> {
        Ok(self.find(id.as_str()))
    }

    fn increment_views_by(&mut self, id: &PasteId, n: i64) -> Result<bool, RepoError> {
        match self.apply(Cmd::IncrementBy { id: id.as_str().to_owned(), n }) {
            Reply::Updated(updated) => Ok(updated),
            _ => Ok(false),
        }
    }

    fn delete(&mut self, id: &PasteId) -> Result<bool, RepoError> {
        match self.apply(Cmd::Delete { id: id.as_str().to_owned() }) {
            Reply::Removed(removed) => Ok(removed),
            _ => Ok(false),
        }
    }

    fn ping(&self) -> Result<(), RepoError> {
        Ok(())
    }
}

/// What is inserted under a free id is found under it, and nothing else changes; under
/// a id that is taken nothing is inserted; and what is deleted is gone.
pub proof fn stores_hold_what_was_inserted(
    before: Map<Seq<char>, PasteView>,
    after: Map<Seq<char>, PasteView>,
    cmd: Cmd,
    reply: Reply,
    k: Seq<char>,
)
    requires
        carried_out(before, after, cmd, reply),
    ensures
        cmd matches Cmd::Insert { paste } ==> {
            &&& before.contains_key(paste.id@) ==> after == before && reply
                == Reply::Inserted(false)
            &&& !before.contains_key(paste.id@) ==> after.contains_key(paste.id@)
                && after[paste.id@] == paste@ && reply == Reply::Inserted(true)
            &&& k != paste.id@ ==> (after.contains_key(k) <==> before.contains_key(k)) && (
            before.contains_key(k) ==> after[k] == before[k])
        },
        cmd matches Cmd::Get { id } ==> after == before && (reply matches Reply::Found(f)
            && (f is Some <==> before.contains_key(id@)) && (f is Some ==> f->0@
            == before[id@])),
        cmd matches Cmd::Delete { id } ==> {
            &&& !after.contains_key(id@)
            &&& reply == Reply::Removed(before.contains_key(id@))
            &&& k != id@ ==> (after.contains_key(k) <==> before.contains_key(k)) && (
            before.contains_key(k) ==> after[k] == before[k])
        },
        cmd matches Cmd::IncrementBy { id, n } ==> {
            &&& reply == Reply::Updated(before.contains_key(id@))
            &&& after.contains_key(k) <==> before.contains_key(k)
            &&& k != id@ && before.contains_key(k) ==> after[k] == before[k]
            &&& before.contains_key(id@) && i64::MIN <= before[id@].views + n <= i64::MAX
                ==> after[id@].views == before[id@].views + n
        },
        cmd is Ping ==> after == before && reply is Pong,
{
}

/// The store never fails. It takes a paste under an id that is free, hands it out as it was
/// taken, and holds it until it is deleted; all the others stay as they are.
pub proof fn store_hands_out_what_it_took(
    r: &mut InMemoryPasteRepository,
    p: Paste,
    key: PasteId,
    res: Result<(), RepoError>,
    found: Result<Option<Paste>, RepoError>,
    d: &mut InMemoryPasteRepository,
    removed: Result<bool, RepoError>,
    gone: Result<Option<Paste>, RepoError>,
    alive: Result<(), RepoError>,
    k: Seq<char>,
)
    requires
        key@ == p.id@,
        call_ensures(InMemoryPasteRepository::insert, (r, &p), res),
        call_ensures(InMemoryPasteRepository::get, (final(r), &key), found),
        *old(d) == *final(r),
        call_ensures(InMemoryPasteRepository::delete, (d, &key), removed),
        call_ensures(InMemoryPasteRepository::get, (final(d), &key), gone),
        call_ensures(InMemoryPasteRepository::ping, (final(d),), alive),
    ensures
        old(r).reliable() && final(d).reliable(),
        res is Ok <==> !old(r).pastes().contains_key(p.id@),
        res is Err ==> res->Err_0 is Conflict && final(r).pastes() == old(r).pastes(),
        found is Ok && found->Ok_0 is Some,
        res is Ok ==> found->Ok_0->Some_0@ == p@,
        removed is Ok && removed->Ok_0,
        gone is Ok && gone->Ok_0 is None,
        alive is Ok,
        k != p.id@ ==> {
            &&& final(d).pastes().contains_key(k) <==> old(r).pastes().contains_key(k)
            &&& old(r).pastes().contains_key(k) ==> final(d).pastes()[k] == old(r).pastes()[k]
        },
{
}

/// A count grows by what is added, as long as it fits, and nothing else changes; what is
/// not stored is not counted.
pub proof fn store_adds_to_one_count(
    r: &mut InMemoryPasteRepository,
    key: PasteId,
    n: i64,
    res: Result<bool, RepoError>,
    k: Seq<char>,
)
    requires
        call_ensures(InMemoryPasteRepository::increment_views_by, (r, &key, n), res),
    ensures
        res is Ok && res->Ok_0 == old(r).pastes().contains_key(key@),
        final(r).pastes().contains_key(k) <==> old(r).pastes().contains_key(k),
        k != key@ && old(r).pastes().contains_key(k) ==> final(r).pastes()[k]
            == old(r).pastes()[k],
        res->Ok_0 && i64::MIN <= old(r).pastes()[key@].views + n <= i64::MAX ==> final(r).pastes()[key@].views
            == old(r).pastes()[key@].views + n,
{
}

/// Each command does what it says, on one paste alone.
pub proof fn commands_do_what_they_say(r: &mut InMemoryPasteRepository, cmd: Cmd, reply: Reply, k: Seq<char>)
    requires
        call_ensures(InMemoryPasteRepository::apply, (r, cmd), reply),
    ensures
        cmd matches Cmd::Insert { paste } ==> {
            let taken = old(r).contents().contains_key(paste.id@);
            &&& reply == Reply::Inserted(!taken)
            &&& final(r).contents().contains_key(paste.id@)
            &&& !taken ==> final(r).contents()[paste.id@] == paste@
            &&& taken ==> final(r).contents() == old(r).contents()
        },
        cmd matches Cmd::Delete { id } ==> reply == Reply::Removed(
            old(r).contents().contains_key(id@),
        ) && !final(r).contents().contains_key(id@),
        cmd is Get || cmd is Ping ==> final(r).contents() == old(r).contents(),
        cmd is Get ==> reply is Found,
        cmd is Ping ==> reply is Pong,
        !(cmd matches Cmd::Insert { paste } && paste.id@ == k) && !(cmd matches Cmd::Delete { id }
            && id@ == k) ==> (final(r).contents().contains_key(k)
            <==> old(r).contents().contains_key(k)),
{
    stores_hold_what_was_inserted(old(r).contents(), final(r).contents(), cmd, reply, k);
}

} // verus!
