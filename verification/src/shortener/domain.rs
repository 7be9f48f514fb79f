//! Domain layer: entities, validation, and the repository port.
//!
//! Defines *what* a link is and *what* persistence operations exist
//! ([`LinkRepository`]), but not *how* they are served or stored.

use vstd::prelude::*;
use vstd::utf8;

use crate::clock;
use crate::text;
use crate::token;
use crate::token::TokenError;

verus! {

/// Minimum length of a short code (in characters).
pub const CODE_MIN_LEN: usize = 1;

/// Maximum length of a short code (in characters).
pub const CODE_MAX_LEN: usize = 32;

/// Maximum accepted length of a target URL (in bytes).
pub const URL_MAX_LEN: usize = 2048;

/// Errors produced when validating client-supplied values.
#[derive(Debug, Clone, Copy, PartialEq, Eq, Structural)]
pub enum ValidationError {
    CodeLength,
    CodeCharset,
    UrlTooLong,
    UrlInvalid,
    UrlScheme,
}

impl ValidationError {
    /// The text of the error.
    pub open spec fn text(self) -> Seq<char> {
        match self {
            ValidationError::CodeLength => "short code must be between 1 and 32 characters"@,
            ValidationError::CodeCharset => "short code must contain only ASCII letters and digits"@,
            ValidationError::UrlTooLong => "url must be 2048 bytes or fewer"@,
            ValidationError::UrlInvalid => "url must be a valid absolute URL with a host"@,
            ValidationError::UrlScheme => "url scheme must be http or https"@,
        }
    }

    /// Describes the error to a client.
    pub fn message(&self) -> (s: String)
        ensures
            s@ == self.text(),
    {
        match self {
            ValidationError::CodeLength => "short code must be between 1 and 32 characters",
            ValidationError::CodeCharset => "short code must contain only ASCII letters and digits",
            ValidationError::UrlTooLong => "url must be 2048 bytes or fewer",
            ValidationError::UrlInvalid => "url must be a valid absolute URL with a host",
            ValidationError::UrlScheme => "url scheme must be http or https",
        }.to_owned()
    }
}

/// A validated short code: 1 to 32 ASCII alphanumeric characters.
#[derive(Debug, PartialEq, Eq, Hash)]
pub struct ShortCode(String);

/// Whether a text is a short code, and if not, why.
pub open spec fn code_check(raw: Seq<char>) -> Result<(), ValidationError> {
    match token::check_of(raw) {
        Ok(()) => Ok(()),
        Err(TokenError::Length) => Err(ValidationError::CodeLength),
        Err(TokenError::Charset) => Err(ValidationError::CodeCharset),
    }
}

impl View for ShortCode {
    type V = Seq<char>;

    closed spec fn view(&self) -> Seq<char> {
        self.0@
    }
}

impl Clone for ShortCode {
    fn clone(&self) -> (r: Self)
        ensures
            r == *self,
    {
        proof {
            use_type_invariant(self);
        }
        ShortCode(self.0.clone())
    }
}

impl ShortCode {
    #[verifier::type_invariant]
    spec fn inv(self) -> bool {
        token::valid(self.0@)
    }

    /// Validates and constructs a short code from untrusted input.
    pub fn parse(raw: &str) -> (out: Result<Self, ValidationError>)
        ensures
            match out {
                Ok(code) => code_check(raw@) is Ok && code@ == raw@ && token::valid(raw@),
                Err(e) => code_check(raw@) == Err::<(), ValidationError>(e) && !token::valid(raw@),
            },
    {
        match token::check(raw) {
            Ok(()) => Ok(ShortCode(raw.to_owned())),
            Err(TokenError::Length) => Err(ValidationError::CodeLength),
            Err(TokenError::Charset) => Err(ValidationError::CodeCharset),
        }
    }

    /// Constructs from a value already known to be valid (e.g. a generated code or
    /// a row loaded from storage).
    pub fn from_trusted(value: String) -> (code: Self)
        requires
            token::valid(value@),
        ensures
            code@ == value@,
    {
        ShortCode(value)
    }

    /// The code as text.
    pub fn as_str(&self) -> (s: &str)
        ensures
            s@ == self@,
            token::valid(self@),
    {
        proof {
            use_type_invariant(self);
        }
        self.0.as_str()
    }
}

/// The parts of a URL that decide whether it may be a target.
#[derive(Debug)]
pub struct UrlParts {
    pub scheme: String,
    pub host: Option<String>,
}

/// The contents of an optional text.
pub open spec fn text_of(s: Option<String>) -> Option<Seq<char>> {
    match s {
        Some(t) => Some(t@),
        None => None,
    }
}

impl View for UrlParts {
    type V = (Seq<char>, Option<Seq<char>>);

    open spec fn view(&self) -> (Seq<char>, Option<Seq<char>>) {
        (self.scheme@, text_of(self.host))
    }
}

/// The contents of the parts of a URL, if there are any.
pub open spec fn parts_of(p: Option<UrlParts>) -> Option<(Seq<char>, Option<Seq<char>>)> {
    match p {
        Some(p) => Some(p@),
        None => None,
    }
}

/// What `url::Url::parse` makes of a text: the scheme and the host of the absolute
/// URL that it denotes, or `None` if it denotes none.
pub uninterp spec fn parsed_url(raw: Seq<char>) -> Option<(Seq<char>, Option<Seq<char>>)>;

/// Calls `url::Url::parse`, and takes the `scheme` and the `host_str` of the URL,
/// which is there exactly if the URL has a host; an error of the parser is `None`.
/// The result is a function of the text alone; which texts are URLs, and what
/// their parts are, is left to the URL standard.
#[verifier::external_body]
pub(crate) fn url_parts(raw: &str) -> (parts: Option<UrlParts>)
    ensures
        parts_of(parts) == parsed_url(raw@),
{
    match url::Url::parse(raw) {
        Ok(parsed) => {
            let host = match parsed.host_str() {
                Some(h) => Some(h.to_owned()),
                None => None,
            };
            Some(UrlParts { scheme: parsed.scheme().to_owned(), host })
        },
        Err(_) => None,
    }
}

/// Whether a text may be a target, given the parts of the URL that it denotes, and
/// if not, why.
pub open spec fn url_check(
    raw: Seq<char>,
    parsed: Option<(Seq<char>, Option<Seq<char>>)>,
) -> Result<(), ValidationError> {
    if utf8::encode_utf8(raw).len() > URL_MAX_LEN {
        Err(ValidationError::UrlTooLong)
    } else {
        match parsed {
            None => Err(ValidationError::UrlInvalid),
            Some((scheme, host)) => if scheme != "http"@ && scheme != "https"@ {
                Err(ValidationError::UrlScheme)
            } else if host is None {
                Err(ValidationError::UrlInvalid)
            } else {
                Ok(())
            },
        }
    }
}

/// A validated target URL: an absolute `http`/`https` URL with a host.
#[derive(Debug, PartialEq, Eq)]
pub struct TargetUrl(String);

impl View for TargetUrl {
    type V = Seq<char>;

    closed spec fn view(&self) -> Seq<char> {
        self.0@
    }
}

impl Clone for TargetUrl {
    fn clone(&self) -> (r: Self)
        ensures
            r == *self,
    {
        TargetUrl(self.0.clone())
    }
}

impl TargetUrl {
    /// Validates and constructs a target URL from untrusted input.
    pub fn parse(raw: String) -> (out: Result<Self, ValidationError>)
        ensures
            match out {
                Ok(t) => url_check(raw@, parsed_url(raw@)) is Ok && t@ == raw@,
                Err(e) => url_check(raw@, parsed_url(raw@)) == Err::<(), ValidationError>(e),
            },
    {
        let parts = url_parts(raw.as_str());
        Self::judge(raw, &parts)
    }

    /// Decides whether a text may be a target, given the parts of the URL that it
    /// denotes.
    pub fn judge(raw: String, parts: &Option<UrlParts>) -> (out: Result<Self, ValidationError>)
        ensures
            match out {
                Ok(t) => url_check(raw@, parts_of(*parts)) is Ok && t@ == raw@,
                Err(e) => url_check(raw@, parts_of(*parts)) == Err::<(), ValidationError>(e),
            },
    {
        if raw.as_str().as_bytes().len() > URL_MAX_LEN {
            return Err(ValidationError::UrlTooLong);
        }
        match parts {
            None => Err(ValidationError::UrlInvalid),
            Some(p) => {
                if !text::same(&p.scheme, "http") && !text::same(&p.scheme, "https") {
                    return Err(ValidationError::UrlScheme);
                }
                match &p.host {
                    None => Err(ValidationError::UrlInvalid),
                    Some(_) => Ok(TargetUrl(raw)),
                }
            },
        }
    }

    /// Constructs from a value already known to be valid (e.g. loaded from
    /// storage).
    pub fn from_trusted(value: String) -> (t: Self)
        ensures
            t@ == value@,
    {
        TargetUrl(value)
    }

    /// The target as text.
    pub fn as_str(&self) -> (s: &str)
        ensures
            s@ == self@,
    {
        self.0.as_str()
    }
}

/// `host` is the denied host itself or one of its subdomains.
pub open spec fn falls_under(host: Seq<char>, denied: Seq<char>) -> bool {
    host == denied || (seq!['.'] + denied).is_suffix_of(host)
}

/// `host` falls under one of the denied hosts. Case does not matter.
pub open spec fn denied(host: Seq<char>, list: Seq<String>) -> bool {
    exists|i: int| 0 <= i < list.len() && falls_under(text::lowered(host), #[trigger] list[i]@)
}

/// Tests whether `host` is `base` or one of its subdomains.
fn under(host: &[char], base: &[char]) -> (yes: bool)
    ensures
        yes == falls_under(host@, base@),
{
    let n: usize = host.len();
    let m: usize = base.len();
    if n < m {
        return false;
    }
    let from: usize = n - m;
    let mut i: usize = 0;
    while i < m
        invariant
            i <= m,
            n == host@.len(),
            m == base@.len(),
            from + m == n,
            forall|j: int| 0 <= j < i ==> host@[from + j] == #[trigger] base@[j],
        decreases m - i,
    {
        if host[from + i] != base[i] {
            proof {
                let dotted = seq!['.'] + base@;
                assert(host@[from + i] != base@[i as int]);
                if dotted.is_suffix_of(host@) {
                    assert(host@.subrange(n - dotted.len(), n as int)[i + 1] == dotted[i + 1]);
                }
            }
            return false;
        }
        i += 1;
    }
    let yes = from == 0 || host[from - 1] == '.';
    proof {
        let dotted = seq!['.'] + base@;
        assert forall|j: int| 0 <= j < m implies host@[from + j] == base@[j] by {}
        if from == 0 {
            assert(host@ =~= base@);
        } else {
            let tail = host@.subrange(n - dotted.len(), n as int);
            if yes {
                assert(tail =~= dotted);
            } else {
                assert(tail[0] != dotted[0]);
            }
        }
    }
    yes
}

/// Tests whether a host falls under one of the denied hosts.
pub fn host_denied(host: &str, list: &Vec<String>) -> (yes: bool)
    ensures
        yes == denied(host@, list@),
{
    let lower = text::lower_chars(&text::chars_of(host));
    let n: usize = list.len();
    let mut i: usize = 0;
    while i < n
        invariant
            i <= n,
            n == list@.len(),
            lower@ == text::lowered(host@),
            forall|j: int| 0 <= j < i ==> !falls_under(lower@, #[trigger] list@[j]@),
        decreases n - i,
    {
        let base = text::chars_of(list[i].as_str());
        if under(&lower, &base) {
            assert(falls_under(lower@, list@[i as int]@));
            return true;
        }
        i += 1;
    }
    false
}

/// A subdomain of a host falls under whatever the host falls under.
pub proof fn subdomains_are_denied(label: Seq<char>, host: Seq<char>, base: Seq<char>)
    requires
        falls_under(host, base),
    ensures
        falls_under(label + seq!['.'] + host, base),
{
    let whole = label + seq!['.'] + host;
    let dotted = seq!['.'] + base;
    let tail = whole.subrange(whole.len() - dotted.len(), whole.len() as int);
    if host == base {
        assert(tail =~= dotted);
    } else {
        assert(tail =~= host.subrange(host.len() - dotted.len(), host.len() as int));
    }
}

/// A shortened link and its metadata.
#[derive(Debug, PartialEq, Eq)]
pub struct Link {
    pub code: ShortCode,
    pub target: TargetUrl,
    /// Creation time as Unix seconds (UTC).
    pub created_at: i64,
    /// Optional expiry as Unix seconds (UTC). `None` means it never expires.
    pub expires_at: Option<i64>,
    /// Number of successful redirects served.
    pub hits: i64,
}

/// The contents of a [`Link`].
pub struct LinkView {
    pub code: Seq<char>,
    pub target: Seq<char>,
    pub created_at: i64,
    pub expires_at: Option<i64>,
    pub hits: i64,
}

impl View for Link {
    type V = LinkView;

    open spec fn view(&self) -> LinkView {
        LinkView {
            code: self.code@,
            target: self.target@,
            created_at: self.created_at,
            expires_at: self.expires_at,
            hits: self.hits,
        }
    }
}

impl Clone for Link {
    fn clone(&self) -> (r: Self)
        ensures
            r == *self,
    {
        Link {
            code: self.code.clone(),
            target: self.target.clone(),
            created_at: self.created_at,
            expires_at: self.expires_at,
            hits: self.hits,
        }
    }
}

/// A link as plain values, as a database holds it.
#[derive(Debug)]
pub struct LinkRow {
    pub code: String,
    pub target: String,
    pub created_at: i64,
    pub expires_at: Option<i64>,
    pub hits: i64,
}

impl View for LinkRow {
    type V = LinkView;

    open spec fn view(&self) -> LinkView {
        LinkView {
            code: self.code@,
            target: self.target@,
            created_at: self.created_at,
            expires_at: self.expires_at,
            hits: self.hits,
        }
    }
}

impl Link {
    /// Creates a brand-new link with zero hits that never expires.
    pub fn new(code: ShortCode, target: TargetUrl, created_at: i64) -> (l: Self)
        ensures
            l@ == (LinkView {
                code: code@,
                target: target@,
                created_at,
                expires_at: None,
                hits: 0,
            }),
    {
        Link { code, target, created_at, expires_at: None, hits: 0 }
    }

    /// The link that a stored row holds; `None` if its code is not valid, which no
    /// row that was inserted as a link has.
    pub fn from_row(row: LinkRow) -> (out: Option<Self>)
        ensures
            token::valid(row.code@) ==> out is Some && out->0@ == row@,
            !token::valid(row.code@) ==> out is None,
    {
        match ShortCode::parse(row.code.as_str()) {
            Ok(code) => Some(
                Link {
                    code,
                    target: TargetUrl::from_trusted(row.target),
                    created_at: row.created_at,
                    expires_at: row.expires_at,
                    hits: row.hits,
                },
            ),
            Err(_) => None,
        }
    }

    /// The row that stores the link.
    pub fn to_row(&self) -> (row: LinkRow)
        ensures
            row@ == self@,
            token::valid(row.code@),
    {
        LinkRow {
            code: self.code.as_str().to_owned(),
            target: self.target.as_str().to_owned(),
            created_at: self.created_at,
            expires_at: self.expires_at,
            hits: self.hits,
        }
    }

    /// True if the link has an expiry at or before `now` (Unix seconds).
    pub fn is_expired(&self, now: i64) -> (yes: bool)
        ensures
            yes == clock::expired(self.expires_at, now),
    {
        clock::has_expired(self.expires_at, now)
    }
}

/// Errors a [`LinkRepository`] can return.
#[derive(Debug)]
pub enum RepoError {
    /// The short code already exists (unique-constraint violation on insert).
    Conflict,
    /// A backend failure (I/O, driver, etc.), described.
    Backend(String),
}

impl RepoError {
    /// The text of the error.
    pub open spec fn text(self) -> Seq<char> {
        match self {
            RepoError::Conflict => "short code already exists"@,
            RepoError::Backend(cause) => cause@,
        }
    }

    /// Describes the error.
    pub fn message(&self) -> (s: String)
        ensures
            s@ == self.text(),
    {
        match self {
            RepoError::Conflict => "short code already exists".to_owned(),
            RepoError::Backend(cause) => cause.clone(),
        }
    }
}

/// Whether a hit count can grow by `n` without leaving its range.
pub open spec fn can_add(hits: i64, n: i64) -> bool {
    i64::MIN <= hits + n <= i64::MAX
}

/// The links after `n` more hits of `code`. A count that would leave its range is
/// not determined; everything else is as before.
pub open spec fn hits_added(
    before: Map<Seq<char>, LinkView>,
    after: Map<Seq<char>, LinkView>,
    code: Seq<char>,
    n: i64,
) -> bool {
    &&& before.contains_key(code)
    &&& after.contains_key(code)
    &&& after == before.insert(code, LinkView { hits: after[code].hits, ..before[code] })
    &&& can_add(before[code].hits, n) ==> after[code].hits == before[code].hits + n
}

/// Persistence port for links.
///
/// A store may fail at any time, unless it is [`LinkRepository::reliable`]; what it
/// holds after a failure is not determined.
pub trait LinkRepository: Sized {
    /// The stored links by code.
    spec fn links(&self) -> Map<Seq<char>, LinkView>;

    /// Whether the store never fails.
    spec fn reliable(&self) -> bool;

    /// Persists a new link. Returns [`RepoError::Conflict`] if the code is taken.
    fn insert(&mut self, link: &Link) -> (res: Result<(), RepoError>)
        ensures
            old(self).reliable() ==> final(self).reliable() && !(res matches Err(
                RepoError::Backend(_),
            )),
            res is Ok ==> !old(self).links().contains_key(link.code@) && final(self).links()
                == old(self).links().insert(link.code@, link@),
            res matches Err(RepoError::Conflict) ==> old(self).links().contains_key(link.code@)
                && final(self).links() == old(self).links(),
    ;

    /// Fetches a link by code, or `None` if it does not exist.
    fn get(&self, code: &ShortCode) -> (res: Result<Option<Link>, RepoError>)
        ensures
            self.reliable() ==> res is Ok,
            res matches Ok(Some(l)) ==> self.links().contains_key(code@) && l@
                == self.links()[code@],
            res matches Ok(None) ==> !self.links().contains_key(code@),
            !(res matches Err(RepoError::Conflict)),
    ;

    /// Adds `n` to the hit counter; returns `true` if a row was updated.
    fn increment_hits_by(&mut self, code: &ShortCode, n: i64) -> (res: Result<bool, RepoError>)
        ensures
            old(self).reliable() ==> final(self).reliable() && res is Ok,
            res matches Ok(true) ==> hits_added(
                old(self).links(),
                final(self).links(),
                code@,
                n,
            ),
            res matches Ok(false) ==> !old(self).links().contains_key(code@)
                && final(self).links() == old(self).links(),
    ;

    /// Increments the hit counter; returns `true` if a row was updated.
    fn increment_hits(&mut self, code: &ShortCode) -> (res: Result<bool, RepoError>)
        ensures
            old(self).reliable() ==> final(self).reliable() && res is Ok,
            res matches Ok(true) ==> hits_added(
                old(self).links(),
                final(self).links(),
                code@,
                1,
            ),
            res matches Ok(false) ==> !old(self).links().contains_key(code@)
                && final(self).links() == old(self).links(),
    {
        self.increment_hits_by(code, 1)
    }

    /// Deletes a link; returns `true` if a row was removed.
    fn delete(&mut self, code: &ShortCode) -> (res: Result<bool, RepoError>)
        ensures
            old(self).reliable() ==> final(self).reliable() && res is Ok,
            res matches Ok(removed) ==> removed == old(self).links().contains_key(code@)
                && final(self).links() == old(self).links().remove(code@),
            !(res matches Err(RepoError::Conflict)),
    ;

    /// Cheap connectivity check for readiness probes.
    fn ping(&self) -> (res: Result<(), RepoError>)
        ensures
            self.reliable() ==> res is Ok,
            !(res matches Err(RepoError::Conflict)),
    ;
}

/// A text is a short code exactly if it has 1 to 32 letters and digits of ASCII; the short code
/// is that text. Any other is refused, for its length if it has no byte or more than 32
/// of them, else for its characters.
pub proof fn only_letters_and_digits_are_accepted(raw: &str, out: Result<ShortCode, ValidationError>)
    requires
        call_ensures(ShortCode::parse, (raw,), out),
    ensures
        out is Ok <==> 1 <= raw@.len() <= 32 && (forall|i: int|
            0 <= i < raw@.len() ==> {
                ||| 'A' <= #[trigger] raw@[i] <= 'Z'
                ||| 'a' <= raw@[i] <= 'z'
                ||| '0' <= raw@[i] <= '9'
            }),
        out matches Ok(t) ==> t@ == raw@,
        out matches Err(e) ==> e == if utf8::encode_utf8(raw@).len() == 0 || utf8::encode_utf8(
            raw@,
        ).len() > 32 {
            ValidationError::CodeLength
        } else {
            ValidationError::CodeCharset
        },
{
    token::valid_means_letters_and_digits(raw@);
}

/// A text is accepted as a target exactly if it has at most 2048 bytes and denotes a
/// URL with the scheme `http` or `https` and a host. Nothing else is asked of it, and
/// the target is that text.
pub proof fn targets_are_http_urls_with_a_host(
    raw: String,
    out: Result<TargetUrl, ValidationError>,
)
    requires
        call_ensures(TargetUrl::parse, (raw,), out),
    ensures
        out is Ok <==> utf8::encode_utf8(raw@).len() <= 2048 && (parsed_url(raw@) matches Some(
            (scheme, host),
        ) && (scheme == "http"@ || scheme == "https"@) && host is Some),
        out matches Ok(t) ==> t@ == raw@,
        out matches Err(ValidationError::UrlTooLong) <==> utf8::encode_utf8(raw@).len() > 2048,
        out matches Err(ValidationError::UrlScheme) <==> utf8::encode_utf8(raw@).len() <= 2048 && (
        parsed_url(raw@) matches Some((scheme, _)) && scheme != "http"@ && scheme != "https"@),
        out matches Err(e) ==> e is UrlTooLong || e is UrlScheme || e is UrlInvalid,
{
}

/// Of two texts within the limit that denote URLs with the same scheme and host, either
/// both are accepted or neither is, whatever their paths and queries.
pub proof fn paths_and_queries_do_not_matter(
    a: String,
    b: String,
    out_a: Result<TargetUrl, ValidationError>,
    out_b: Result<TargetUrl, ValidationError>,
)
    requires
        call_ensures(TargetUrl::parse, (a,), out_a),
        call_ensures(TargetUrl::parse, (b,), out_b),
        parsed_url(a@) == parsed_url(b@),
        utf8::encode_utf8(a@).len() <= 2048,
        utf8::encode_utf8(b@).len() <= 2048,
    ensures
        out_a is Ok <==> out_b is Ok,
        out_a matches Err(e) ==> out_b == Err::<TargetUrl, ValidationError>(e),
{
}

/// What decides on a target, given the parts of its URL, is its size, the scheme and
/// whether there is a host.
pub proof fn judged_by_size_scheme_and_host(
    raw: String,
    parts: Option<UrlParts>,
    out: Result<TargetUrl, ValidationError>,
)
    requires
        call_ensures(TargetUrl::judge, (raw, &parts), out),
    ensures
        out is Ok <==> utf8::encode_utf8(raw@).len() <= 2048 && (parts matches Some(p) && (
        p.scheme@ == "http"@ || p.scheme@ == "https"@) && p.host is Some),
        out matches Ok(t) ==> t@ == raw@,
{
}

/// A host is denied exactly if, in lower case, it is on the list or is what is on the
/// list with something and a dot in front. A host that merely ends like one on the list
/// is not denied.
pub proof fn denied_hosts_are_listed_or_under_a_listed_one(
    host: &str,
    list: Vec<String>,
    yes: bool,
)
    requires
        call_ensures(host_denied, (host, &list), yes),
    ensures
        yes <==> exists|i: int|
            0 <= i < list@.len() && {
                ||| text::lowered(host@) == (#[trigger] list@[i])@
                ||| exists|front: Seq<char>|
                    text::lowered(host@) == #[trigger] (front + seq!['.'] + list@[i]@)
            },
{
    let h = text::lowered(host@);
    assert forall|i: int| 0 <= i < list@.len() implies (falls_under(h, #[trigger] list@[i]@) <==> (h
        == list@[i]@ || exists|front: Seq<char>| h == #[trigger] (front + seq!['.'] + list@[i]@)))
        by {
        let dotted = seq!['.'] + list@[i]@;
        if dotted.is_suffix_of(h) {
            let front = h.take(h.len() - dotted.len());
            assert(h.subrange(h.len() - dotted.len(), h.len() as int) == dotted);
            assert(h =~= front + dotted);
            assert(front + dotted =~= front + seq!['.'] + list@[i]@);
        }
        if exists|front: Seq<char>| h == #[trigger] (front + seq!['.'] + list@[i]@) {
            let front = choose|front: Seq<char>| h == #[trigger] (front + seq!['.'] + list@[i]@);
            assert(h.subrange(h.len() - dotted.len(), h.len() as int) =~= dotted);
        }
    }
    if yes {
        let i = choose|i: int|
            0 <= i < list@.len() && falls_under(h, #[trigger] list@[i]@);
        assert(falls_under(h, list@[i]@));
    }
}

/// Adding hits changes the count of one link by that much and nothing else.
pub proof fn only_the_count_grows(
    before: Map<Seq<char>, LinkView>,
    after: Map<Seq<char>, LinkView>,
    code: Seq<char>,
    n: i64,
)
    requires
        hits_added(before, after, code, n),
    ensures
        before.contains_key(code) && after.dom() =~= before.dom(),
        forall|k: Seq<char>|
            k != code && before.contains_key(k) ==> #[trigger] after[k] == before[k],
        after[code].code == before[code].code && after[code].target == before[code].target,
        after[code].created_at == before[code].created_at,
        after[code].expires_at == before[code].expires_at,
        i64::MIN <= before[code].hits + n <= i64::MAX ==> after[code].hits == before[code].hits + n,
{
}

/// Links with the same contents are the same in every field.
pub proof fn contents_of_a_link_are_its_fields(a: Link, b: Link)
    requires
        a@ == b@,
    ensures
        a.code@ == b.code@ && a.target@ == b.target@ && a.created_at == b.created_at && a.expires_at
            == b.expires_at && a.hits == b.hits,
        a@.code == a.code@ && a@.target == a.target@ && a@.created_at == a.created_at
            && a@.expires_at == a.expires_at && a@.hits == a.hits,
{
}

/// A link that is stored as a row and read again is the same link.
pub proof fn rows_keep_the_link(l: Link, row: LinkRow, back: Option<Link>)
    requires
        call_ensures(Link::to_row, (&l,), row),
        call_ensures(Link::from_row, (row,), back),
    ensures
        back is Some,
        back->0.code@ == l.code@ && back->0.target@ == l.target@ && back->0.created_at
            == l.created_at && back->0.expires_at == l.expires_at && back->0.hits == l.hits,
{
}

/// A link has expired from its expiry on and not before; without one it never has.
pub proof fn links_expire_at_their_expiry(l: Link, now: i64, yes: bool)
    requires
        call_ensures(Link::is_expired, (&l, now), yes),
    ensures
        yes <==> (l.expires_at matches Some(e) && e <= now),
{
}

/// Each reason has a text of its own, which says what is asked for.
pub proof fn reasons_are_told(e: ValidationError, s: String)
    requires
        call_ensures(ValidationError::message, (&e,), s),
    ensures
        s@ == match e {
            ValidationError::CodeLength => "short code must be between 1 and 32 characters"@,
            ValidationError::CodeCharset => "short code must contain only ASCII letters and digits"@,
            ValidationError::UrlTooLong => "url must be 2048 bytes or fewer"@,
            ValidationError::UrlInvalid => "url must be a valid absolute URL with a host"@,
            ValidationError::UrlScheme => "url scheme must be http or https"@,
        },
        s@ == e.text(),
{
}

/// A new link has what it was made of, and no hits; it never expires.
pub proof fn new_links_have_no_hits(code: ShortCode, target: TargetUrl, created_at: i64, l: Link)
    requires
        call_ensures(Link::new, (code, target, created_at), l),
    ensures
        l.code@ == code@ && l.target@ == target@ && l.hits == 0,
        l.created_at == created_at && l.expires_at is None,
{
}

} // verus!
