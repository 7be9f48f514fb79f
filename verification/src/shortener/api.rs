//! API layer: what requests carry and how the results of use cases are answered.
//!
//! Handlers translate between HTTP and the application's use cases; they hold no
//! business logic. [`ServiceError`] is mapped to [`AppError`] here.

use vstd::prelude::*;

use crate::counter;
use crate::error;
use crate::error::{AppError, Problem};
use crate::shortener::application::ServiceError;
use crate::shortener::domain::{Link, TargetUrl};
use crate::shortener::metrics::Metrics;
use crate::web;

verus! {

/// What an application error is to a client.
pub open spec fn problem_of(err: ServiceError) -> Problem {
    match err {
        ServiceError::Validation(v) => Problem::Validation(v.text()),
        ServiceError::NotFound => Problem::NotFound,
        ServiceError::Conflict => Problem::Conflict("short code already in use"@),
        ServiceError::Blocked => Problem::Validation("target host is not allowed"@),
        ServiceError::Backend(cause) => Problem::Internal(cause@),
    }
}

/// Maps an application error to its HTTP representation. This is the only bridge
/// between the application and HTTP error vocabularies.
pub fn app_error(err: ServiceError) -> (out: AppError)
    ensures
        out@ == problem_of(err),
{
    match err {
        ServiceError::Validation(v) => AppError::Validation(v.message()),
        ServiceError::NotFound => AppError::NotFound,
        ServiceError::Conflict => AppError::Conflict("short code already in use".to_owned()),
        ServiceError::Blocked => AppError::Validation("target host is not allowed".to_owned()),
        ServiceError::Backend(cause) => AppError::Internal(cause),
    }
}

/// A request to create a link.
#[derive(Debug)]
pub struct CreateLinkRequest {
    /// The long URL to shorten.
    pub url: String,
    /// Optional custom alias; if omitted a code is generated.
    pub alias: Option<String>,
    /// Optional time-to-live in seconds; omit for a link that never expires.
    pub ttl_seconds: Option<u64>,
}

/// The answer to a request to create a link.
#[derive(Debug)]
pub struct CreateLinkResponse {
    pub code: String,
    pub short_url: String,
    pub target: String,
    pub created_at: i64,
    /// Expiry as Unix seconds, or nothing if the link never expires.
    pub expires_at: Option<i64>,
}

/// The short URL of a code.
pub open spec fn short_url(base_url: Seq<char>, code: Seq<char>) -> Seq<char> {
    web::without_slashes(base_url) + "/"@ + code
}

impl CreateLinkResponse {
    /// What a client learns of a link that it has created.
    pub open spec fn describes(&self, link: Link, base_url: Seq<char>) -> bool {
        &&& self.code@ == link.code@
        &&& self.short_url@ == short_url(base_url, link.code@)
        &&& self.target@ == link.target@
        &&& self.created_at == link.created_at
        &&& self.expires_at == link.expires_at
    }

    /// Describes a new link.
    pub fn from_link(link: &Link, base_url: &str) -> (r: Self)
        ensures
            r.describes(*link, base_url@),
    {
        let code = link.code.as_str();
        CreateLinkResponse {
            code: code.to_owned(),
            short_url: web::join_url(base_url, "/", code),
            target: link.target.as_str().to_owned(),
            created_at: link.created_at,
            expires_at: link.expires_at,
        }
    }
}

/// A link as it is answered.
#[derive(Debug)]
pub struct LinkResponse {
    pub code: String,
    pub target: String,
    pub created_at: i64,
    pub hits: i64,
    /// Expiry as Unix seconds, or nothing if the link never expires.
    pub expires_at: Option<i64>,
}

impl LinkResponse {
    /// What a client learns of a link: all of it.
    pub open spec fn describes(&self, link: Link) -> bool {
        &&& self.code@ == link.code@
        &&& self.target@ == link.target@
        &&& self.created_at == link.created_at
        &&& self.hits == link.hits
        &&& self.expires_at == link.expires_at
    }

    /// Describes a link.
    pub fn from_link(link: &Link) -> (r: Self)
        ensures
            r.describes(*link),
    {
        LinkResponse {
            code: link.code.as_str().to_owned(),
            target: link.target.as_str().to_owned(),
            created_at: link.created_at,
            hits: link.hits,
            expires_at: link.expires_at,
        }
    }
}

/// The status of the answer to a creation: `201` for a new link, or that of the error.
pub open spec fn create_status(reply: Result<CreateLinkResponse, AppError>) -> int {
    web::reply_status(201, reply)
}

/// Finds the status of the answer to a creation.
pub fn create_status_code(reply: &Result<CreateLinkResponse, AppError>) -> (code: u16)
    ensures
        code == create_status(*reply),
{
    web::reply_status_code(201, reply)
}

/// `POST /api/links`: what the outcome of a creation is answered.
pub fn create_reply(res: Result<Link, ServiceError>, base_url: &str) -> (out: Result<
    CreateLinkResponse,
    AppError,
>)
    ensures
        match res {
            Ok(l) => out is Ok && out->Ok_0.describes(l, base_url@),
            Err(e) => out is Err && out->Err_0@ == problem_of(e),
        },
        create_status(out) == match res {
            Ok(_) => 201,
            Err(e) => error::status_of(problem_of(e)),
        },
{
    match res {
        Ok(link) => Ok(CreateLinkResponse::from_link(&link, base_url)),
        Err(e) => Err(app_error(e)),
    }
}

/// The status of a redirect: `302` for a target, or that of the error.
pub open spec fn redirect_status(reply: Result<String, AppError>) -> int {
    web::reply_status(302, reply)
}

/// Finds the status of a redirect.
pub fn redirect_status_code(reply: &Result<String, AppError>) -> (code: u16)
    ensures
        code == redirect_status(*reply),
{
    web::reply_status_code(302, reply)
}

/// `GET /:code`: where a redirect goes, and what it is counted as. Only a target
/// that is found counts.
pub fn redirect_reply(res: Result<TargetUrl, ServiceError>, metrics: &mut Metrics) -> (out: Result<
    String,
    AppError,
>)
    ensures
        match res {
            Ok(t) => out is Ok && out->Ok_0@ == t@,
            Err(e) => out is Err && out->Err_0@ == problem_of(e),
        },
        redirect_status(out) == match res {
            Ok(_) => 302,
            Err(e) => error::status_of(problem_of(e)),
        },
        final(metrics).redirects() == if res is Ok {
            counter::bumped(old(metrics).redirects())
        } else {
            old(metrics).redirects()
        },
{
    match res {
        Ok(target) => {
            metrics.record_redirect();
            Ok(target.as_str().to_owned())
        },
        Err(e) => Err(app_error(e)),
    }
}

/// The status of the answer to a request for metadata: `200` for a link, or that of the error.
pub open spec fn link_status(reply: Result<LinkResponse, AppError>) -> int {
    web::reply_status(200, reply)
}

/// Finds the status of the answer to a request for metadata.
pub fn link_status_code(reply: &Result<LinkResponse, AppError>) -> (code: u16)
    ensures
        code == link_status(*reply),
{
    web::reply_status_code(200, reply)
}

/// `GET /api/links/:code`: what the outcome of a request for metadata is answered.
pub fn link_reply(res: Result<Link, ServiceError>) -> (out: Result<LinkResponse, AppError>)
    ensures
        match res {
            Ok(l) => out is Ok && out->Ok_0.describes(l),
            Err(e) => out is Err && out->Err_0@ == problem_of(e),
        },
        link_status(out) == match res {
            Ok(_) => 200,
            Err(e) => error::status_of(problem_of(e)),
        },
{
    match res {
        Ok(link) => Ok(LinkResponse::from_link(&link)),
        Err(e) => Err(app_error(e)),
    }
}

/// The status of the answer to a deletion: `204` if it is carried out, or that of the error.
pub open spec fn delete_status(reply: Result<(), AppError>) -> int {
    web::reply_status(204, reply)
}

/// Finds the status of the answer to a deletion.
pub fn delete_status_code(reply: &Result<(), AppError>) -> (code: u16)
    ensures
        code == delete_status(*reply),
{
    web::reply_status_code(204, reply)
}

/// `DELETE /api/links/:code`: what the outcome of a deletion is answered.
pub fn delete_reply(res: Result<(), ServiceError>) -> (out: Result<(), AppError>)
    ensures
        match res {
            Ok(()) => out is Ok,
            Err(e) => out is Err && out->Err_0@ == problem_of(e),
        },
        delete_status(out) == match res {
            Ok(_) => 204,
            Err(e) => error::status_of(problem_of(e)),
        },
{
    match res {
        Ok(()) => Ok(()),
        Err(e) => Err(app_error(e)),
    }
}

/// Every outcome has its status: 400 for what is not valid, 404 for what is not found,
/// 409 for a conflict and 500 for a failure of the store.
pub proof fn errors_have_their_statuses(e: ServiceError, out: AppError, code: u16)
    requires
        call_ensures(app_error, (e,), out),
        call_ensures(AppError::status, (&out,), code),
    ensures
        code == match e {
            ServiceError::Validation(_) => 400,
            ServiceError::Blocked => 400,
            ServiceError::NotFound => 404,
            ServiceError::Conflict => 409,
            ServiceError::Backend(_) => 500int,
        },
        e matches ServiceError::Validation(v) ==> (out matches AppError::Validation(s) && s@
            == v.text()),
{
}

/// A client that creates a link learns its code, its short URL, its target, when it was
/// created and when it expires; the answer is a 201.
pub proof fn created_links_are_described(
    l: Link,
    base_url: &str,
    out: Result<CreateLinkResponse, AppError>,
    code: u16,
)
    requires
        call_ensures(create_reply, (Ok(l), base_url), out),
        call_ensures(create_status_code, (&out,), code),
    ensures
        code == 201,
        out is Ok,
        out->Ok_0.code@ == l.code@ && out->Ok_0.target@ == l.target@ && out->Ok_0.created_at
            == l.created_at && out->Ok_0.expires_at == l.expires_at,
        ("/"@ + l.code@).is_suffix_of(out->Ok_0.short_url@),
        base_url@.len() > 0 && base_url@.last() != '/' ==> out->Ok_0.short_url@ == base_url@
            + "/"@ + l.code@,
{
    let url = out->Ok_0.short_url@;
    let core = web::without_slashes(base_url@);
    let leaf = "/"@ + l.code@;
    assert(url =~= core + leaf);
    assert(leaf =~= url.subrange(url.len() - leaf.len(), url.len() as int));
}

/// A client that asks for a link learns all of it, with a 200; a redirect is a 302, and
/// a deletion a 204.
pub proof fn links_are_described(l: Link, r: LinkResponse)
    requires
        call_ensures(LinkResponse::from_link, (&l,), r),
    ensures
        r.code@ == l.code@ && r.target@ == l.target@ && r.created_at == l.created_at,
        r.hits == l.hits && r.expires_at == l.expires_at,
        link_status(Ok(r)) == 200 && redirect_status(Ok(r.target)) == 302 && delete_status(Ok(()))
            == 204,
{
}

/// A redirect goes to its target with a 302, and counts once; an error is answered with
/// its status, and does not count.
pub proof fn redirects_are_answered(
    res: Result<TargetUrl, ServiceError>,
    m: &mut Metrics,
    out: Result<String, AppError>,
    code: u16,
)
    requires
        call_ensures(redirect_reply, (res, m), out),
        call_ensures(redirect_status_code, (&out,), code),
    ensures
        out is Ok <==> res is Ok,
        res is Ok ==> out->Ok_0@ == res->Ok_0@ && code == 302,
        res is Ok && old(m).redirects() < u64::MAX ==> final(m).redirects() == old(m).redirects()
            + 1,
        res is Err ==> final(m).redirects() == old(m).redirects(),
        res is Err ==> code == match res->Err_0 {
            ServiceError::Validation(_) => 400,
            ServiceError::Blocked => 400,
            ServiceError::NotFound => 404,
            ServiceError::Conflict => 409,
            ServiceError::Backend(_) => 500int,
        },
{
}

/// A link that is asked for is answered in full with a 200, and an error with its status.
pub proof fn requests_for_metadata_are_answered(
    res: Result<Link, ServiceError>,
    out: Result<LinkResponse, AppError>,
    code: u16,
)
    requires
        call_ensures(link_reply, (res,), out),
        call_ensures(link_status_code, (&out,), code),
    ensures
        out is Ok <==> res is Ok,
        res is Ok ==> {
            let l = res->Ok_0;
            let r = out->Ok_0;
            &&& code == 200
            &&& r.code@ == l.code@ && r.target@ == l.target@ && r.created_at == l.created_at
            &&& r.hits == l.hits && r.expires_at == l.expires_at
        },
        res is Err ==> code == match res->Err_0 {
            ServiceError::Validation(_) => 400,
            ServiceError::Blocked => 400,
            ServiceError::NotFound => 404,
            ServiceError::Conflict => 409,
            ServiceError::Backend(_) => 500int,
        },
{
}

/// A deletion is answered with a 204, and a creation or a deletion that fails with the
/// status of its error. A client is told why its request is refused.
pub proof fn refusals_are_answered(
    e: ServiceError,
    base_url: &str,
    done: Result<(), AppError>,
    done_code: u16,
    out: Result<(), AppError>,
    code: u16,
    refused: Result<CreateLinkResponse, AppError>,
    refused_code: u16,
    told: String,
)
    requires
        call_ensures(delete_reply, (Ok(()),), done),
        call_ensures(delete_status_code, (&done,), done_code),
        call_ensures(delete_reply, (Err(e),), out),
        call_ensures(delete_status_code, (&out,), code),
        call_ensures(create_reply, (Err(e), base_url), refused),
        call_ensures(create_status_code, (&refused,), refused_code),
        refused is Err ==> call_ensures(AppError::message, (&refused->Err_0,), told),
    ensures
        done is Ok && done_code == 204,
        out is Err && refused is Err,
        code == refused_code,
        code == match e {
            ServiceError::Validation(_) => 400,
            ServiceError::Blocked => 400,
            ServiceError::NotFound => 404,
            ServiceError::Conflict => 409,
            ServiceError::Backend(_) => 500int,
        },
        e is Conflict ==> told@ == "short code already in use"@,
        e is Blocked ==> told@ == "target host is not allowed"@,
        e is Validation ==> told@ == e->Validation_0.text(),
        e is Backend ==> told@ == "internal error"@,
{
}

} // verus!
