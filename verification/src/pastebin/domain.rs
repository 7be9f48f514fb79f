//! Domain layer: entities, validation, and the repository port.
//!
//! Defines *what* a paste is and *what* persistence operations exist
//! ([`PasteRepository`]), not how they are served or stored.

use vstd::prelude::*;
use vstd::utf8;

use crate::clock;
use crate::token;
use crate::token::TokenError;

verus! {

/// Minimum length of a paste id (characters).
pub const ID_MIN_LEN: usize = 1;

/// Maximum length of a paste id (characters).
pub const ID_MAX_LEN: usize = 32;

/// Maximum accepted paste content size, in bytes.
pub const MAX_CONTENT_BYTES: usize = 1_000_000;

/// Errors produced when validating client-supplied values.
#[derive(Debug, Clone, Copy, PartialEq, Eq, Structural)]
pub enum ValidationError {
    IdLength,
    IdCharset,
    ContentEmpty,
    ContentTooLarge,
}

impl ValidationError {
    /// The text of the error.
    pub open spec fn text(self) -> Seq<char> {
        match self {
            ValidationError::IdLength => "paste id must be between 1 and 32 characters"@,
            ValidationError::IdCharset => "paste id must contain only ASCII letters and digits"@,
            ValidationError::ContentEmpty => "paste content must not be empty"@,
            ValidationError::ContentTooLarge => "paste content must be 1000000 bytes or fewer"@,
        }
    }

    /// Describes the error to a client.
    pub fn message(&self) -> (s: String)
        ensures
            s@ == self.text(),
    {
        match self {
            ValidationError::IdLength => "paste id must be between 1 and 32 characters",
            ValidationError::IdCharset => "paste id must contain only ASCII letters and digits",
            ValidationError::ContentEmpty => "paste content must not be empty",
            ValidationError::ContentTooLarge => "paste content must be 1000000 bytes or fewer",
        }.to_owned()
    }
}

/// A validated paste id: 1 to 32 ASCII alphanumeric characters.
#[derive(Debug, PartialEq, Eq, Hash)]
pub struct PasteId(String);

/// Whether a text is a paste id, and if not, why.
pub open spec fn id_check(raw: Seq<char>) -> Result<(), ValidationError> {
    match token::check_of(raw) {
        Ok(()) => Ok(()),
        Err(TokenError::Length) => Err(ValidationError::IdLength),
        Err(TokenError::Charset) => Err(ValidationError::IdCharset),
    }
}

impl View for PasteId {
    type V = Seq<char>;

    closed spec fn view(&self) -> Seq<char> {
        self.0@
    }
}

impl Clone for PasteId {
    fn clone(&self) -> (r: Self)
        ensures
            r == *self,
    {
        proof {
            use_type_invariant(self);
        }
        PasteId(self.0.clone())
    }
}

impl PasteId {
    #[verifier::type_invariant]
    spec fn inv(self) -> bool {
        token::valid(self.0@)
    }

    /// Validates and constructs a paste id from untrusted input.
    pub fn parse(raw: &str) -> (out: Result<Self, ValidationError>)
        ensures
            match out {
                Ok(id) => id_check(raw@) is Ok && id@ == raw@ && token::valid(raw@),
                Err(e) => id_check(raw@) == Err::<(), ValidationError>(e) && !token::valid(raw@),
            },
    {
        match token::check(raw) {
            Ok(()) => Ok(PasteId(raw.to_owned())),
            Err(TokenError::Length) => Err(ValidationError::IdLength),
            Err(TokenError::Charset) => Err(ValidationError::IdCharset),
        }
    }

    /// Constructs from a value already known valid (generated id or stored row).
    pub fn from_trusted(value: String) -> (id: Self)
        requires
            token::valid(value@),
        ensures
            id@ == value@,
    {
        PasteId(value)
    }

    /// The id as text.
    pub fn as_str(&self) -> (s: &str)
        ensures
            s@ == self@,
            token::valid(self@),
    {
        proof {
            use_type_invariant(self);
        }
        self.0.as_str()
    }
}

/// Validated paste content: non-empty and within the size limit.
#[derive(Debug, PartialEq, Eq)]
pub struct Content(String);

/// Whether a text can be the content of a paste, and if not, why.
pub open spec fn content_check(raw: Seq<char>) -> Result<(), ValidationError> {
    if raw.len() == 0 {
        Err(ValidationError::ContentEmpty)
    } else if utf8::encode_utf8(raw).len() > MAX_CONTENT_BYTES {
        Err(ValidationError::ContentTooLarge)
    } else {
        Ok(())
    }
}

impl View for Content {
    type V = Seq<char>;

    closed spec fn view(&self) -> Seq<char> {
        self.0@
    }
}

impl Clone for Content {
    fn clone(&self) -> (r: Self)
        ensures
            r == *self,
    {
        Content(self.0.clone())
    }
}

proof fn lemma_empty_has_no_bytes(raw: Seq<char>)
    ensures
        raw.len() == 0 <==> utf8::encode_utf8(raw).len() == 0,
{
    if raw.len() > 0 {
        utf8::encode_utf8_first_scalar(raw);
    }
}

impl Content {
    /// Validates and constructs content from untrusted input.
    pub fn parse(raw: String) -> (out: Result<Self, ValidationError>)
        ensures
            match out {
                Ok(c) => content_check(raw@) is Ok && c@ == raw@,
                Err(e) => content_check(raw@) == Err::<(), ValidationError>(e),
            },
    {
        proof {
            lemma_empty_has_no_bytes(raw@);
        }
        let bytes: usize = raw.as_str().as_bytes().len();
        if bytes == 0 {
            return Err(ValidationError::ContentEmpty);
        }
        if bytes > MAX_CONTENT_BYTES {
            return Err(ValidationError::ContentTooLarge);
        }
        Ok(Content(raw))
    }

    /// Constructs from a value already known valid (loaded from storage).
    pub fn from_trusted(value: String) -> (c: Self)
        ensures
            c@ == value@,
    {
        Content(value)
    }

    /// The content as text.
    pub fn as_str(&self) -> (s: &str)
        ensures
            s@ == self@,
    {
        self.0.as_str()
    }
}

/// A stored paste and its metadata.
#[derive(Debug, PartialEq, Eq)]
pub struct Paste {
    pub id: PasteId,
    pub content: Content,
    /// Optional free-form syntax/language hint (e.g. "rust", "json").
    pub syntax: Option<String>,
    /// Creation time as Unix seconds (UTC).
    pub created_at: i64,
    /// Optional expiry as Unix seconds (UTC). `None` means it never expires.
    pub expires_at: Option<i64>,
    /// Burn-after-read: deleted on first successful fetch.
    pub one_shot: bool,
    /// Number of successful fetches served.
    pub views: i64,
}

/// The contents of a [`Paste`].
pub struct PasteView {
    pub id: Seq<char>,
    pub content: Seq<char>,
    pub syntax: Option<Seq<char>>,
    pub created_at: i64,
    pub expires_at: Option<i64>,
    pub one_shot: bool,
    pub views: i64,
}

/// The contents of an optional text.
pub open spec fn text_of(s: Option<String>) -> Option<Seq<char>> {
    match s {
        Some(t) => Some(t@),
        None => None,
    }
}

/// Copies an optional text.
pub fn copy_text(s: &Option<String>) -> (r: Option<String>)
    ensures
        r == *s,
{
    match s {
        Some(t) => Some(t.clone()),
        None => None,
    }
}

impl View for Paste {
    type V = PasteView;

    open spec fn view(&self) -> PasteView {
        PasteView {
            id: self.id@,
            content: self.content@,
            syntax: text_of(self.syntax),
            created_at: self.created_at,
            expires_at: self.expires_at,
            one_shot: self.one_shot,
            views: self.views,
        }
    }
}

impl Clone for Paste {
    fn clone(&self) -> (r: Self)
        ensures
            r == *self,
    {
        Paste {
            id: self.id.clone(),
            content: self.content.clone(),
            syntax: copy_text(&self.syntax),
            created_at: self.created_at,
            expires_at: self.expires_at,
            one_shot: self.one_shot,
            views: self.views,
        }
    }
}

/// A paste as plain values, as a database or a cache holds it.
#[derive(Debug)]
pub struct PasteRow {
    pub id: String,
    pub content: String,
    pub syntax: Option<String>,
    pub created_at: i64,
    pub expires_at: Option<i64>,
    pub one_shot: bool,
    pub views: i64,
}

impl View for PasteRow {
    type V = PasteView;

    open spec fn view(&self) -> PasteView {
        PasteView {
            id: self.id@,
            content: self.content@,
            syntax: text_of(self.syntax),
            created_at: self.created_at,
            expires_at: self.expires_at,
            one_shot: self.one_shot,
            views: self.views,
        }
    }
}

impl Paste {
    /// Creates a brand-new paste with zero views.
    pub fn new(
        id: PasteId,
        content: Content,
        syntax: Option<String>,
        created_at: i64,
        expires_at: Option<i64>,
        one_shot: bool,
    ) -> (p: Self)
        ensures
            p@ == (PasteView {
                id: id@,
                content: content@,
                syntax: text_of(syntax),
                created_at,
                expires_at,
                one_shot,
                views: 0,
            }),
    {
        Paste { id, content, syntax, created_at, expires_at, one_shot, views: 0 }
    }

    /// The paste that a stored row holds; `None` if its id is not valid, which no
    /// row that was inserted as a paste has.
    pub fn from_row(row: PasteRow) -> (out: Option<Self>)
        ensures
            token::valid(row.id@) ==> out is Some && out->0@ == row@,
            !token::valid(row.id@) ==> out is None,
    {
        match PasteId::parse(row.id.as_str()) {
            Ok(id) => Some(
                Paste {
                    id,
                    content: Content::from_trusted(row.content),
                    syntax: row.syntax,
                    created_at: row.created_at,
                    expires_at: row.expires_at,
                    one_shot: row.one_shot,
                    views: row.views,
                },
            ),
            Err(_) => None,
        }
    }

    /// The row that stores the paste.
    pub fn to_row(&self) -> (row: PasteRow)
        ensures
            row@ == self@,
            token::valid(row.id@),
    {
        PasteRow {
            id: self.id.as_str().to_owned(),
            content: self.content.as_str().to_owned(),
            syntax: copy_text(&self.syntax),
            created_at: self.created_at,
            expires_at: self.expires_at,
            one_shot: self.one_shot,
            views: self.views,
        }
    }

    /// True if the paste has an expiry at or before `now` (Unix seconds).
    pub fn is_expired(&self, now: i64) -> (yes: bool)
        ensures
            yes == clock::expired(self.expires_at, now),
    {
        clock::has_expired(self.expires_at, now)
    }
}

/// Errors a [`PasteRepository`] can return.
#[derive(Debug)]
pub enum RepoError {
    /// The id already exists (unique-constraint violation on insert).
    Conflict,
    /// A backend failure (I/O, driver, etc.), described.
    Backend(String),
}

impl RepoError {
    /// The text of the error.
    pub open spec fn text(self) -> Seq<char> {
        match self {
            RepoError::Conflict => "paste id already exists"@,
            RepoError::Backend(cause) => cause@,
        }
    }

    /// Describes the error.
    pub fn message(&self) -> (s: String)
        ensures
            s@ == self.text(),
    {
        match self {
            RepoError::Conflict => "paste id already exists".to_owned(),
            RepoError::Backend(cause) => cause.clone(),
        }
    }
}

/// Whether a view count can grow by `n` without leaving its range.
pub open spec fn can_add(views: i64, n: i64) -> bool {
    i64::MIN <= views + n <= i64::MAX
}

/// The pastes after `n` more views of `id`. A count that would leave its range is
/// not determined; everything else is as before.
pub open spec fn views_added(
    before: Map<Seq<char>, PasteView>,
    after: Map<Seq<char>, PasteView>,
    id: Seq<char>,
    n: i64,
) -> bool {
    &&& before.contains_key(id)
    &&& after.contains_key(id)
    &&& after == before.insert(id, PasteView { views: after[id].views, ..before[id] })
    &&& can_add(before[id].views, n) ==> after[id].views == before[id].views + n
}

/// Persistence port for pastes.
///
/// A store may fail at any time, unless it is [`PasteRepository::reliable`]; what
/// it holds after a failure is not determined.
pub trait PasteRepository: Sized {
    /// The stored pastes by id.
    spec fn pastes(&self) -> Map<Seq<char>, PasteView>;

    /// Whether the store never fails.
    spec fn reliable(&self) -> bool;

    /// Persists a new paste. Returns [`RepoError::Conflict`] if the id is taken.
    fn insert(&mut self, paste: &Paste) -> (res: Result<(), RepoError>)
        ensures
            old(self).reliable() ==> final(self).reliable() && !(res matches Err(
                RepoError::Backend(_),
            )),
            res is Ok ==> !old(self).pastes().contains_key(paste.id@) && final(self).pastes()
                == old(self).pastes().insert(paste.id@, paste@),
            res matches Err(RepoError::Conflict) ==> old(self).pastes().contains_key(paste.id@)
                && final(self).pastes() == old(self).pastes(),
    ;

    /// Fetches a paste by id, or `None` if it does not exist.
    fn get(&self, id: &PasteId) -> (res: Result<Option<Paste>, RepoError>)
        ensures
            self.reliable() ==> res is Ok,
            res matches Ok(Some(p)) ==> self.pastes().contains_key(id@) && p@
                == self.pastes()[id@],
            res matches Ok(None) ==> !self.pastes().contains_key(id@),
            !(res matches Err(RepoError::Conflict)),
    ;

    /// Adds `n` to the view counter; returns `true` if a row was updated.
    fn increment_views_by(&mut self, id: &PasteId, n: i64) -> (res: Result<bool, RepoError>)
        ensures
            old(self).reliable() ==> final(self).reliable() && res is Ok,
            res matches Ok(true) ==> views_added(
                old(self).pastes(),
                final(self).pastes(),
                id@,
                n,
            ),
            res matches Ok(false) ==> !old(self).pastes().contains_key(id@)
                && final(self).pastes() == old(self).pastes(),
    ;

    /// Increments the view counter; returns `true` if a row was updated.
    fn increment_views(&mut self, id: &PasteId) -> (res: Result<bool, RepoError>)
        ensures
            old(self).reliable() ==> final(self).reliable() && res is Ok,
            res matches Ok(true) ==> views_added(
                old(self).pastes(),
                final(self).pastes(),
                id@,
                1,
            ),
            res matches Ok(false) ==> !old(self).pastes().contains_key(id@)
                && final(self).pastes() == old(self).pastes(),
    {
        self.increment_views_by(id, 1)
    }

    /// Deletes a paste; returns `true` if a row was removed.
    fn delete(&mut self, id: &PasteId) -> (res: Result<bool, RepoError>)
        ensures
            old(self).reliable() ==> final(self).reliable() && res is Ok,
            res matches Ok(removed) ==> removed == old(self).pastes().contains_key(id@)
                && final(self).pastes() == old(self).pastes().remove(id@),
            !(res matches Err(RepoError::Conflict)),
    ;

    /// Cheap connectivity check for readiness probes.
    fn ping(&self) -> (res: Result<(), RepoError>)
        ensures
            self.reliable() ==> res is Ok,
            !(res matches Err(RepoError::Conflict)),
    ;
}

/// A text is a paste id exactly if it has 1 to 32 letters and digits of ASCII; the paste id
/// is that text. Any other is refused, for its length if it has no byte or more than 32
/// of them, else for its characters.
pub proof fn only_letters_and_digits_are_accepted(raw: &str, out: Result<PasteId, ValidationError>)
    requires
        call_ensures(PasteId::parse, (raw,), out),
    ensures
        out is Ok <==> 1 <= raw@.len() <= 32 && (forall|i: int|
            0 <= i < raw@.len() ==> {
                ||| 'A' <= #[trigger] raw@[i] <= 'Z'
                ||| 'a' <= raw@[i] <= 'z'
                ||| '0' <= raw@[i] <= '9'
            }),
        out matches Ok(t) ==> t@ == raw@,
        out matches Err(e) ==> e == if utf8::encode_utf8(raw@).len() == 0 || utf8::encode_utf8(
            raw@,
        ).len() > 32 {
            ValidationError::IdLength
        } else {
            ValidationError::IdCharset
        },
{
    token::valid_means_letters_and_digits(raw@);
}

/// A text can be the content of a paste exactly if it is not empty and has at most
/// 1000000 bytes, whatever is in it; the content is that text.
pub proof fn content_is_judged_by_its_size_only(
    raw: String,
    out: Result<Content, ValidationError>,
)
    requires
        call_ensures(Content::parse, (raw,), out),
    ensures
        out is Ok <==> 1 <= utf8::encode_utf8(raw@).len() <= 1_000_000,
        out matches Ok(c) ==> c@ == raw@,
        out matches Err(e) ==> e == if raw@.len() == 0 {
            ValidationError::ContentEmpty
        } else {
            ValidationError::ContentTooLarge
        },
        content_check(raw@) is Ok <==> 1 <= utf8::encode_utf8(raw@).len() <= 1_000_000,
{
    lemma_empty_has_no_bytes(raw@);
}

/// Adding views changes the count of one paste by that much and nothing else.
pub proof fn only_the_count_grows(
    before: Map<Seq<char>, PasteView>,
    after: Map<Seq<char>, PasteView>,
    id: Seq<char>,
    n: i64,
)
    requires
        views_added(before, after, id, n),
    ensures
        before.contains_key(id) && after.dom() =~= before.dom(),
        forall|k: Seq<char>|
            k != id && before.contains_key(k) ==> #[trigger] after[k] == before[k],
        after[id].id == before[id].id && after[id].content == before[id].content,
        after[id].syntax == before[id].syntax && after[id].one_shot == before[id].one_shot,
        after[id].created_at == before[id].created_at,
        after[id].expires_at == before[id].expires_at,
        i64::MIN <= before[id].views + n <= i64::MAX ==> after[id].views == before[id].views + n,
{
}

/// Pastes with the same contents are the same in every field.
pub proof fn contents_of_a_paste_are_its_fields(a: Paste, b: Paste)
    requires
        a@ == b@,
    ensures
        a.id@ == b.id@ && a.content@ == b.content@ && a.created_at == b.created_at,
        a.expires_at == b.expires_at && a.one_shot == b.one_shot && a.views == b.views,
        a.syntax is Some <==> b.syntax is Some,
        a.syntax is Some ==> a.syntax->0@ == b.syntax->0@,
        a@.id == a.id@ && a@.content == a.content@ && a@.created_at == a.created_at,
        a@.expires_at == a.expires_at && a@.one_shot == a.one_shot && a@.views == a.views,
        a.syntax matches Some(s) ==> a@.syntax == Some(s@),
{
}

/// A paste that is stored as a row and read again is the same paste.
pub proof fn rows_keep_the_paste(p: Paste, row: PasteRow, back: Option<Paste>)
    requires
        call_ensures(Paste::to_row, (&p,), row),
        call_ensures(Paste::from_row, (row,), back),
    ensures
        back is Some,
        back->0.id@ == p.id@ && back->0.content@ == p.content@ && back->0.created_at
            == p.created_at && back->0.expires_at == p.expires_at && back->0.one_shot == p.one_shot
            && back->0.views == p.views,
        p.syntax is Some <==> back->0.syntax is Some,
        p.syntax is Some ==> p.syntax->0@ == back->0.syntax->0@,
{
}

/// A paste has expired from its expiry on and not before; without one it never has.
pub proof fn pastes_expire_at_their_expiry(p: Paste, now: i64, yes: bool)
    requires
        call_ensures(Paste::is_expired, (&p, now), yes),
    ensures
        yes <==> (p.expires_at matches Some(e) && e <= now),
{
}

/// Each reason has a text of its own, which says what is asked for.
pub proof fn reasons_are_told(e: ValidationError, s: String)
    requires
        call_ensures(ValidationError::message, (&e,), s),
    ensures
        s@ == match e {
            ValidationError::IdLength => "paste id must be between 1 and 32 characters"@,
            ValidationError::IdCharset => "paste id must contain only ASCII letters and digits"@,
            ValidationError::ContentEmpty => "paste content must not be empty"@,
            ValidationError::ContentTooLarge => "paste content must be 1000000 bytes or fewer"@,
        },
        s@ == e.text(),
{
}

/// A new paste has what it was made of, and no views.
pub proof fn new_pastes_have_no_views(
    id: PasteId,
    content: Content,
    syntax: Option<String>,
    created_at: i64,
    expires_at: Option<i64>,
    one_shot: bool,
    p: Paste,
)
    requires
        call_ensures(Paste::new, (id, content, syntax, created_at, expires_at, one_shot), p),
    ensures
        p.id@ == id@ && p.content@ == content@ && p.views == 0,
        p.syntax is Some <==> syntax is Some,
        p.syntax is Some ==> p.syntax->0@ == syntax->0@,
        p.created_at == created_at && p.expires_at == expires_at && p.one_shot == one_shot,
{
}

} // verus!
