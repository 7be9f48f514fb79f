//! Infrastructure layer: an in-memory [`LinkRepository`].
//!
//! [`InMemoryLinkRepository`] owns its map outright. Where several tasks share
//! one store, a single task owns it and carries out the [`Cmd`]s that the others
//! send, one at a time, so that nothing is locked.

use vstd::hash_map::StringHashMap;
use vstd::prelude::*;

use crate::shortener::domain;
use crate::shortener::domain::{Link, ShortCode, LinkRepository, LinkView, RepoError};

verus! {

/// Commands the owner of a store understands.
#[derive(Debug)]
pub enum Cmd {
    /// Insert a link.
    Insert { link: Link },
    /// Fetch a link by code.
    Get { code: String },
    /// Add `n` to a link's hit count.
    IncrementBy { code: String, n: i64 },
    /// Remove a link.
    Delete { code: String },
    /// Liveness round-trip.
    Ping,
}

/// The answer to a [`Cmd`].
#[derive(Debug)]
pub enum Reply {
    /// `true` if inserted, `false` if the code was taken.
    Inserted(bool),
    /// The link, if there is one.
    Found(Option<Link>),
    /// `true` if the row existed.
    Updated(bool),
    /// `true` if a row was removed.
    Removed(bool),
    /// The owner is alive.
    Pong,
}

/// The contents of an optional link.
pub open spec fn link_of(p: Option<Link>) -> Option<LinkView> {
    match p {
        Some(p) => Some(p@),
        None => None,
    }
}

/// The link stored under a code.
pub open spec fn lookup(links: Map<Seq<char>, LinkView>, code: Seq<char>) -> Option<LinkView> {
    if links.contains_key(code) {
        Some(links[code])
    } else {
        None
    }
}

/// How a command changes the store and what it is answered.
pub open spec fn carried_out(
    before: Map<Seq<char>, LinkView>,
    after: Map<Seq<char>, LinkView>,
    cmd: Cmd,
    reply: Reply,
) -> bool {
    match cmd {
        Cmd::Insert { link } => {
            &&& reply == Reply::Inserted(!before.contains_key(link.code@))
            &&& after == if before.contains_key(link.code@) {
                before
            } else {
                before.insert(link.code@, link@)
            }
        },
        Cmd::Get { code } => {
            &&& reply matches Reply::Found(p)
            &&& link_of(p) == lookup(before, code@)
            &&& after == before
        },
        Cmd::IncrementBy { code, n } => {
            &&& reply == Reply::Updated(before.contains_key(code@))
            &&& if before.contains_key(code@) {
                domain::hits_added(before, after, code@, n)
            } else {
                after == before
            }
        },
        Cmd::Delete { code } => {
            &&& reply == Reply::Removed(before.contains_key(code@))
            &&& after == before.remove(code@)
        },
        Cmd::Ping => reply == Reply::Pong && after == before,
    }
}

/// In-memory link store.
pub struct InMemoryLinkRepository {
    /// The links as they were inserted.
    inserted: StringHashMap<Link>,
    /// The hit counts that have changed since.
    hits: StringHashMap<i64>,
}

impl Default for InMemoryLinkRepository {
    fn default() -> (r: Self)
        ensures
            r.contents() == Map::<Seq<char>, LinkView>::empty(),
    {
        Self::new()
    }
}

impl InMemoryLinkRepository {
    /// The stored links by code.
    pub closed spec fn contents(&self) -> Map<Seq<char>, LinkView> {
        Map::new(
            |k: Seq<char>| self.inserted@.contains_key(k),
            |k: Seq<char>|
                LinkView {
                    hits: if self.hits@.contains_key(k) {
                        self.hits@[k]
                    } else {
                        self.inserted@[k].hits
                    },
                    ..self.inserted@[k]@
                },
        )
    }

    /// An empty store.
    pub fn new() -> (r: Self)
        ensures
            r.contents() == Map::<Seq<char>, LinkView>::empty(),
    {
        let r = InMemoryLinkRepository {
            inserted: StringHashMap::new(),
            hits: StringHashMap::new(),
        };
        assert(r.contents() =~= Map::<Seq<char>, LinkView>::empty());
        r
    }

    /// The link stored under `code`, with its current count.
    fn find(&self, code: &str) -> (p: Option<Link>)
        ensures
            link_of(p) == lookup(self.contents(), code@),
    {
        match self.inserted.get(code) {
            Some(p) => {
                let mut link = p.clone();
                if let Some(n) = self.hits.get(code) {
                    link.hits = *n;
                }
                Some(link)
            },
            None => None,
        }
    }

    /// Carries out one command.
    pub fn apply(&mut self, cmd: Cmd) -> (reply: Reply)
        ensures
            carried_out(old(self).contents(), final(self).contents(), cmd, reply),
    {
        match cmd {
            Cmd::Insert { link } => {
                let vacant = !self.inserted.contains_key(link.code.as_str());
                if vacant {
                    let key = link.code.as_str().to_owned();
                    let ghost p = link@;
                    self.hits.remove(key.as_str());
                    self.inserted.insert(key, link);
                    assert(self.contents() =~= old(self).contents().insert(p.code, p));
                }
                Reply::Inserted(vacant)
            },
            Cmd::Get { code } => {
                Reply::Found(self.find(code.as_str()))
            },
            Cmd::IncrementBy { code, n } => {
                let count: Option<i64> = match self.inserted.get(code.as_str()) {
                    Some(p) => match self.hits.get(code.as_str()) {
                        Some(v) => Some(*v),
                        None => Some(p.hits),
                    },
                    None => None,
                };
                match count {
                    Some(v) => {
                        let ghost key = code@;
                        let sum: i64 = v.wrapping_add(n);
                        self.hits.insert(code, sum);
                        assert(self.contents() =~= old(self).contents().insert(
                            key,
                            LinkView { hits: sum, ..old(self).contents()[key] },
                        ));
                        Reply::Updated(true)
                    },
                    None => Reply::Updated(false),
                }
            },
            Cmd::Delete { code } => {
                let present = self.inserted.contains_key(code.as_str());
                self.inserted.remove(code.as_str());
                self.hits.remove(code.as_str());
                assert(self.contents() =~= old(self).contents().remove(code@));
                Reply::Removed(present)
            },
            Cmd::Ping => Reply::Pong,
        }
    }
}

impl LinkRepository for InMemoryLinkRepository {
    open spec fn links(&self) -> Map<Seq<char>, LinkView> {
        self.contents()
    }

    open spec fn reliable(&self) -> bool {
        true
    }

    fn insert(&mut self, link: &Link) -> Result<(), RepoError> {
        match self.apply(Cmd::Insert { link: link.clone() }) {
            Reply::Inserted(true) => Ok(()),
            _ => Err(RepoError::Conflict),
        }
    }

    fn get(&self, code: &ShortCode) -> Result<Option<Link>, RepoError> {
        Ok(self.find(code.as_str()))
    }

    fn increment_hits_by(&mut self, code: &ShortCode, n: i64) -> Result<bool, RepoError> {
        match self.apply(Cmd::IncrementBy { code: code.as_str().to_owned(), n }) {
            Reply::Updated(updated) => Ok(updated),
            _ => Ok(false),
        }
    }

    fn delete(&mut self, code: &ShortCode) -> Result<bool, RepoError> {
        match self.apply(Cmd::Delete { code: code.as_str().to_owned() }) {
            Reply::Removed(removed) => Ok(removed),
            _ => Ok(false),
        }
    }

    fn ping(&self) -> Result<(), RepoError> {
        Ok(())
    }
}

/// What is inserted under a free code is found under it, and nothing else changes; under
/// a code that is taken nothing is inserted; and what is deleted is gone.
pub proof fn stores_hold_what_was_inserted(
    before: Map<Seq<char>, LinkView>,
    after: Map<Seq<char>, LinkView>,
    cmd: Cmd,
    reply: Reply,
    k: Seq<char>,
)
    requires
        carried_out(before, after, cmd, reply),
    ensures
        cmd matches Cmd::Insert { link } ==> {
            &&& before.contains_key(link.code@) ==> after == before && reply
                == Reply::Inserted(false)
            &&& !before.contains_key(link.code@) ==> after.contains_key(link.code@)
                && after[link.code@] == link@ && reply == Reply::Inserted(true)
            &&& k != link.code@ ==> (after.contains_key(k) <==> before.contains_key(k)) && (
            before.contains_key(k) ==> after[k] == before[k])
        },
        cmd matches Cmd::Get { code } ==> after == before && (reply matches Reply::Found(f)
            && (f is Some <==> before.contains_key(code@)) && (f is Some ==> f->0@
            == before[code@])),
        cmd matches Cmd::Delete { code } ==> {
            &&& !after.contains_key(code@)
            &&& reply == Reply::Removed(before.contains_key(code@))
            &&& k != code@ ==> (after.contains_key(k) <==> before.contains_key(k)) && (
            before.contains_key(k) ==> after[k] == before[k])
        },
        cmd matches Cmd::IncrementBy { code, n } ==> {
            &&& reply == Reply::Updated(before.contains_key(code@))
            &&& after.contains_key(k) <==> before.contains_key(k)
            &&& k != code@ && before.contains_key(k) ==> after[k] == before[k]
            &&& before.contains_key(code@) && i64::MIN <= before[code@].hits + n <= i64::MAX
                ==> after[code@].hits == before[code@].hits + n
        },
        cmd is Ping ==> after == before && reply is Pong,
{
}

/// The store never fails. It takes a link under a code that is free, hands it out as it was
/// taken, and holds it until it is deleted; all the others stay as they are.
pub proof fn store_hands_out_what_it_took(
    r: &mut InMemoryLinkRepository,
    p: Link,
    key: ShortCode,
    res: Result<(), RepoError>,
    found: Result<Option<Link>, RepoError>,
    d: &mut InMemoryLinkRepository,
    removed: Result<bool, RepoError>,
    gone: Result<Option<Link>, RepoError>,
    alive: Result<(), RepoError>,
    k: Seq<char>,
)
    requires
        key@ == p.code@,
        call_ensures(InMemoryLinkRepository::insert, (r, &p), res),
        call_ensures(InMemoryLinkRepository::get, (final(r), &key), found),
        *old(d) == *final(r),
        call_ensures(InMemoryLinkRepository::delete, (d, &key), removed),
        call_ensures(InMemoryLinkRepository::get, (final(d), &key), gone),
        call_ensures(InMemoryLinkRepository::ping, (final(d),), alive),
    ensures
        old(r).reliable() && final(d).reliable(),
        res is Ok <==> !old(r).links().contains_key(p.code@),
        res is Err ==> res->Err_0 is Conflict && final(r).links() == old(r).links(),
        found is Ok && found->Ok_0 is Some,
        res is Ok ==> found->Ok_0->Some_0@ == p@,
        removed is Ok && removed->Ok_0,
        gone is Ok && gone->Ok_0 is None,
        alive is Ok,
        k != p.code@ ==> {
            &&& final(d).links().contains_key(k) <==> old(r).links().contains_key(k)
            &&& old(r).links().contains_key(k) ==> final(d).links()[k] == old(r).links()[k]
        },
{
}

/// A count grows by what is added, as long as it fits, and nothing else changes; what is
/// not stored is not counted.
pub proof fn store_adds_to_one_count(
    r: &mut InMemoryLinkRepository,
    key: ShortCode,
    n: i64,
    res: Result<bool, RepoError>,
    k: Seq<char>,
)
    requires
        call_ensures(InMemoryLinkRepository::increment_hits_by, (r, &key, n), res),
    ensures
        res is Ok && res->Ok_0 == old(r).links().contains_key(key@),
        final(r).links().contains_key(k) <==> old(r).links().contains_key(k),
        k != key@ && old(r).links().contains_key(k) ==> final(r).links()[k]
            == old(r).links()[k],
        res->Ok_0 && i64::MIN <= old(r).links()[key@].hits + n <= i64::MAX ==> final(r).links()[key@].hits
            == old(r).links()[key@].hits + n,
{
}

/// Each command does what it says, on one link alone.
pub proof fn commands_do_what_they_say(r: &mut InMemoryLinkRepository, cmd: Cmd, reply: Reply, k: Seq<char>)
    requires
        call_ensures(InMemoryLinkRepository::apply, (r, cmd), reply),
    ensures
        cmd matches Cmd::Insert { link } ==> {
            let taken = old(r).contents().contains_key(link.code@);
            &&& reply == Reply::Inserted(!taken)
            &&& final(r).contents().contains_key(link.code@)
            &&& !taken ==> final(r).contents()[link.code@] == link@
            &&& taken ==> final(r).contents() == old(r).contents()
        },
        cmd matches Cmd::Delete { code } ==> reply == Reply::Removed(
            old(r).contents().contains_key(code@),
        ) && !final(r).contents().contains_key(code@),
        cmd is Get || cmd is Ping ==> final(r).contents() == old(r).contents(),
        cmd is Get ==> reply is Found,
        cmd is Ping ==> reply is Pong,
        !(cmd matches Cmd::Insert { link } && link.code@ == k) && !(cmd matches Cmd::Delete { code }
            && code@ == k) ==> (final(r).contents().contains_key(k)
            <==> old(r).contents().contains_key(k)),
{
    stores_hold_what_was_inserted(old(r).contents(), final(r).contents(), cmd, reply, k);
}

} // verus!
