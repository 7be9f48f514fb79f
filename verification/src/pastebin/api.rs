//! API layer: what requests carry and how the results of use cases are answered.
//!
//! Handlers translate between HTTP and the application's use cases; they hold no
//! business logic. [`ServiceError`] is mapped to [`AppError`] here.

use vstd::prelude::*;

use crate::counter;
use crate::error;
use crate::error::{AppError, Problem};
use crate::pastebin::application::ServiceError;
use crate::pastebin::domain;
use crate::pastebin::domain::Paste;
use crate::pastebin::metrics::Metrics;
use crate::web;

verus! {

/// What an application error is to a client.
pub open spec fn problem_of(err: ServiceError) -> Problem {
    match err {
        ServiceError::Validation(v) => Problem::Validation(v.text()),
        ServiceError::NotFound => Problem::NotFound,
        ServiceError::Conflict => Problem::Conflict("paste id already in use"@),
        ServiceError::Backend(cause) => Problem::Internal(cause@),
    }
}

/// Bridges application errors to HTTP. The only place that knows both
/// vocabularies.
pub fn app_error(err: ServiceError) -> (out: AppError)
    ensures
        out@ == problem_of(err),
{
    match err {
        ServiceError::Validation(v) => AppError::Validation(v.message()),
        ServiceError::NotFound => AppError::NotFound,
        ServiceError::Conflict => AppError::Conflict("paste id already in use".to_owned()),
        ServiceError::Backend(cause) => AppError::Internal(cause),
    }
}

/// A request to create a paste.
#[derive(Debug)]
pub struct CreatePasteRequest {
    /// The text to store.
    pub content: String,
    /// Optional syntax/language hint (e.g. "rust", "json").
    pub syntax: Option<String>,
    /// Optional time-to-live in seconds; omit for a paste that never expires.
    pub ttl_seconds: Option<u64>,
    /// Burn-after-read: deleted on first fetch. Defaults to false.
    pub one_shot: bool,
}

/// The answer to a request to create a paste.
#[derive(Debug)]
pub struct CreatePasteResponse {
    pub id: String,
    pub url: String,
    pub created_at: i64,
    pub expires_at: Option<i64>,
    pub one_shot: bool,
}

/// Where a paste is found.
pub open spec fn paste_url(base_url: Seq<char>, id: Seq<char>) -> Seq<char> {
    web::without_slashes(base_url) + "/api/pastes/"@ + id
}

impl CreatePasteResponse {
    /// What a client learns of a paste that it has created.
    pub open spec fn describes(&self, paste: Paste, base_url: Seq<char>) -> bool {
        &&& self.id@ == paste.id@
        &&& self.url@ == paste_url(base_url, paste.id@)
        &&& self.created_at == paste.created_at
        &&& self.expires_at == paste.expires_at
        &&& self.one_shot == paste.one_shot
    }

    /// Describes a new paste.
    pub fn from_paste(paste: &Paste, base_url: &str) -> (r: Self)
        ensures
            r.describes(*paste, base_url@),
    {
        let id = paste.id.as_str();
        CreatePasteResponse {
            id: id.to_owned(),
            url: web::join_url(base_url, "/api/pastes/", id),
            created_at: paste.created_at,
            expires_at: paste.expires_at,
            one_shot: paste.one_shot,
        }
    }
}

/// A paste as it is answered.
#[derive(Debug)]
pub struct PasteResponse {
    pub id: String,
    pub content: String,
    pub syntax: Option<String>,
    pub created_at: i64,
    pub expires_at: Option<i64>,
    pub one_shot: bool,
    pub views: i64,
}

impl PasteResponse {
    /// What a client learns of a paste that it fetches: all of it.
    pub open spec fn describes(&self, paste: Paste) -> bool {
        &&& self.id@ == paste.id@
        &&& self.content@ == paste.content@
        &&& self.syntax == paste.syntax
        &&& self.created_at == paste.created_at
        &&& self.expires_at == paste.expires_at
        &&& self.one_shot == paste.one_shot
        &&& self.views == paste.views
    }

    /// Describes a paste.
    pub fn from_paste(paste: &Paste) -> (r: Self)
        ensures
            r.describes(*paste),
    {
        PasteResponse {
            id: paste.id.as_str().to_owned(),
            content: paste.content.as_str().to_owned(),
            syntax: domain::copy_text(&paste.syntax),
            created_at: paste.created_at,
            expires_at: paste.expires_at,
            one_shot: paste.one_shot,
            views: paste.views,
        }
    }
}

/// The status of the answer to a creation: `201` for a new paste, or that of the error.
pub open spec fn create_status(reply: Result<CreatePasteResponse, AppError>) -> int {
    web::reply_status(201, reply)
}

/// Finds the status of the answer to a creation.
pub fn create_status_code(reply: &Result<CreatePasteResponse, AppError>) -> (code: u16)
    ensures
        code == create_status(*reply),
{
    web::reply_status_code(201, reply)
}

/// `POST /api/pastes`: what the outcome of a creation is answered.
pub fn create_reply(res: Result<Paste, ServiceError>, base_url: &str) -> (out: Result<
    CreatePasteResponse,
    AppError,
>)
    ensures
        match res {
            Ok(p) => out is Ok && out->Ok_0.describes(p, base_url@),
            Err(e) => out is Err && out->Err_0@ == problem_of(e),
        },
        create_status(out) == match res {
            Ok(_) => 201,
            Err(e) => error::status_of(problem_of(e)),
        },
{
    match res {
        Ok(paste) => Ok(CreatePasteResponse::from_paste(&paste, base_url)),
        Err(e) => Err(app_error(e)),
    }
}

/// The count of served pastes after a fetch: only a paste that is served counts.
pub open spec fn served_after(count: u64, res: Result<Paste, ServiceError>) -> u64 {
    if res is Ok {
        counter::bumped(count)
    } else {
        count
    }
}

/// The status of the answer to a fetch: `200` for a paste, or that of the error.
pub open spec fn paste_status(reply: Result<PasteResponse, AppError>) -> int {
    web::reply_status(200, reply)
}

/// Finds the status of the answer to a fetch.
pub fn paste_status_code(reply: &Result<PasteResponse, AppError>) -> (code: u16)
    ensures
        code == paste_status(*reply),
{
    web::reply_status_code(200, reply)
}

/// `GET /api/pastes/:id`: what the outcome of a fetch is answered, and counted as.
pub fn paste_reply(res: Result<Paste, ServiceError>, metrics: &mut Metrics) -> (out: Result<
    PasteResponse,
    AppError,
>)
    ensures
        match res {
            Ok(p) => out is Ok && out->Ok_0.describes(p),
            Err(e) => out is Err && out->Err_0@ == problem_of(e),
        },
        paste_status(out) == match res {
            Ok(_) => 200,
            Err(e) => error::status_of(problem_of(e)),
        },
        final(metrics).served() == served_after(old(metrics).served(), res),
{
    match res {
        Ok(paste) => {
            metrics.record_served();
            Ok(PasteResponse::from_paste(&paste))
        },
        Err(e) => Err(app_error(e)),
    }
}

/// The status of the answer to a fetch of plain text: `200` for a paste, or that of the error.
pub open spec fn raw_status(reply: Result<String, AppError>) -> int {
    web::reply_status(200, reply)
}

/// Finds the status of the answer to a fetch of plain text.
pub fn raw_status_code(reply: &Result<String, AppError>) -> (code: u16)
    ensures
        code == raw_status(*reply),
{
    web::reply_status_code(200, reply)
}

/// `GET /raw/:id`: what the outcome of a fetch is answered as plain text, and
/// counted as.
pub fn raw_reply(res: Result<Paste, ServiceError>, metrics: &mut Metrics) -> (out: Result<
    String,
    AppError,
>)
    ensures
        match res {
            Ok(p) => out is Ok && out->Ok_0@ == p.content@,
            Err(e) => out is Err && out->Err_0@ == problem_of(e),
        },
        raw_status(out) == match res {
            Ok(_) => 200,
            Err(e) => error::status_of(problem_of(e)),
        },
        final(metrics).served() == served_after(old(metrics).served(), res),
{
    match res {
        Ok(paste) => {
            metrics.record_served();
            Ok(paste.content.as_str().to_owned())
        },
        Err(e) => Err(app_error(e)),
    }
}

/// The status of the answer to a deletion: `204` if it is carried out, or that of the error.
pub open spec fn delete_status(reply: Result<(), AppError>) -> int {
    web::reply_status(204, reply)
}

/// Finds the status of the answer to a deletion.
pub fn delete_status_code(reply: &Result<(), AppError>) -> (code: u16)
    ensures
        code == delete_status(*reply),
{
    web::reply_status_code(204, reply)
}

/// `DELETE /api/pastes/:id`: what the outcome of a deletion is answered.
pub fn delete_reply(res: Result<(), ServiceError>) -> (out: Result<(), AppError>)
    ensures
        match res {
            Ok(()) => out is Ok,
            Err(e) => out is Err && out->Err_0@ == problem_of(e),
        },
        delete_status(out) == match res {
            Ok(_) => 204,
            Err(e) => error::status_of(problem_of(e)),
        },
{
    match res {
        Ok(()) => Ok(()),
        Err(e) => Err(app_error(e)),
    }
}

/// Every outcome has its status: 400 for what is not valid, 404 for what is not found,
/// 409 for a conflict and 500 for a failure of the store.
pub proof fn errors_have_their_statuses(e: ServiceError, out: AppError, code: u16)
    requires
        call_ensures(app_error, (e,), out),
        call_ensures(AppError::status, (&out,), code),
    ensures
        code == match e {
            ServiceError::Validation(_) => 400,
            ServiceError::NotFound => 404,
            ServiceError::Conflict => 409,
            ServiceError::Backend(_) => 500int,
        },
        e matches ServiceError::Validation(v) ==> (out matches AppError::Validation(s) && s@
            == v.text()),
{
}

/// A client that creates a paste learns its id, where it is found, when it was created,
/// when it expires and whether it is one-shot; the answer is a 201.
pub proof fn created_pastes_are_described(
    p: Paste,
    base_url: &str,
    out: Result<CreatePasteResponse, AppError>,
    code: u16,
)
    requires
        call_ensures(create_reply, (Ok(p), base_url), out),
        call_ensures(create_status_code, (&out,), code),
    ensures
        code == 201,
        out is Ok,
        out->Ok_0.id@ == p.id@ && out->Ok_0.created_at == p.created_at && out->Ok_0.expires_at
            == p.expires_at && out->Ok_0.one_shot == p.one_shot,
        ("/api/pastes/"@ + p.id@).is_suffix_of(out->Ok_0.url@),
        base_url@.len() > 0 && base_url@.last() != '/' ==> out->Ok_0.url@ == base_url@
            + "/api/pastes/"@ + p.id@,
{
    let url = out->Ok_0.url@;
    let core = web::without_slashes(base_url@);
    let leaf = "/api/pastes/"@ + p.id@;
    assert(url =~= core + leaf);
    assert(leaf =~= url.subrange(url.len() - leaf.len(), url.len() as int));
}

/// A client that fetches a paste learns all of it, with a 200; as plain text it gets the
/// content and nothing else.
pub proof fn fetched_pastes_are_described(p: Paste, r: PasteResponse)
    requires
        call_ensures(PasteResponse::from_paste, (&p,), r),
    ensures
        r.id@ == p.id@ && r.content@ == p.content@ && r.syntax == p.syntax,
        r.created_at == p.created_at && r.expires_at == p.expires_at,
        r.one_shot == p.one_shot && r.views == p.views,
        paste_status(Ok(r)) == 200 && raw_status(Ok(r.content)) == 200 && delete_status(Ok(()))
            == 204,
{
}

/// Only a paste that is served counts, and it counts once.
pub proof fn served_pastes_count_once(count: u64, p: Paste, e: ServiceError)
    ensures
        count < u64::MAX ==> served_after(count, Ok(p)) == count + 1,
        served_after(count, Err(e)) == count,
{
}

/// A paste that is fetched is answered in full with a 200, and counts once; an error is
/// answered with its status, and does not count.
pub proof fn fetches_are_answered(
    res: Result<Paste, ServiceError>,
    m: &mut Metrics,
    out: Result<PasteResponse, AppError>,
    code: u16,
)
    requires
        call_ensures(paste_reply, (res, m), out),
        call_ensures(paste_status_code, (&out,), code),
    ensures
        out is Ok <==> res is Ok,
        res is Ok ==> {
            let p = res->Ok_0;
            let r = out->Ok_0;
            &&& code == 200
            &&& r.id@ == p.id@ && r.content@ == p.content@ && r.syntax == p.syntax
            &&& r.created_at == p.created_at && r.expires_at == p.expires_at
            &&& r.one_shot == p.one_shot && r.views == p.views
            &&& old(m).served() < u64::MAX ==> final(m).served() == old(m).served() + 1
        },
        res is Err ==> final(m).served() == old(m).served(),
        res is Err ==> code == match res->Err_0 {
            ServiceError::Validation(_) => 400,
            ServiceError::NotFound => 404,
            ServiceError::Conflict => 409,
            ServiceError::Backend(_) => 500int,
        },
{
}

/// A paste that is fetched as plain text is answered with its content and a 200, and
/// counts once; an error is answered with its status, and does not count.
pub proof fn raw_fetches_are_answered(
    res: Result<Paste, ServiceError>,
    m: &mut Metrics,
    out: Result<String, AppError>,
    code: u16,
)
    requires
        call_ensures(raw_reply, (res, m), out),
        call_ensures(raw_status_code, (&out,), code),
    ensures
        out is Ok <==> res is Ok,
        res is Ok ==> out->Ok_0@ == res->Ok_0.content@ && code == 200,
        res is Ok && old(m).served() < u64::MAX ==> final(m).served() == old(m).served() + 1,
        res is Err ==> final(m).served() == old(m).served(),
        res is Err ==> code == match res->Err_0 {
            ServiceError::Validation(_) => 400,
            ServiceError::NotFound => 404,
            ServiceError::Conflict => 409,
            ServiceError::Backend(_) => 500int,
        },
{
}

/// A deletion is answered with a 204, and a creation or a deletion that fails with the
/// status of its error. A client is told why its request is refused.
pub proof fn refusals_are_answered(
    e: ServiceError,
    base_url: &str,
    done: Result<(), AppError>,
    done_code: u16,
    out: Result<(), AppError>,
    code: u16,
    refused: Result<CreatePasteResponse, AppError>,
    refused_code: u16,
    told: String,
)
    requires
        call_ensures(delete_reply, (Ok(()),), done),
        call_ensures(delete_status_code, (&done,), done_code),
        call_ensures(delete_reply, (Err(e),), out),
        call_ensures(delete_status_code, (&out,), code),
        call_ensures(create_reply, (Err(e), base_url), refused),
        call_ensures(create_status_code, (&refused,), refused_code),
        refused is Err ==> call_ensures(AppError::message, (&refused->Err_0,), told),
    ensures
        done is Ok && done_code == 204,
        out is Err && refused is Err,
        code == refused_code,
        code == match e {
            ServiceError::Validation(_) => 400,
            ServiceError::NotFound => 404,
            ServiceError::Conflict => 409,
            ServiceError::Backend(_) => 500int,
        },
        e is Conflict ==> told@ == "paste id already in use"@,
        e is Validation ==> told@ == e->Validation_0.text(),
        e is Backend ==> told@ == "internal error"@,
{
}

} // verus!
