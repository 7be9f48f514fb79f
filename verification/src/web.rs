//! What the web APIs of the services share.

use vstd::prelude::*;

use crate::error;
use crate::error::AppError;
use crate::text;

verus! {

/// `s` without the slashes at its end.
pub open spec fn without_slashes(s: Seq<char>) -> Seq<char>
    decreases s.len(),
{
    if s.len() > 0 && s.last() == '/' {
        without_slashes(s.drop_last())
    } else {
        s
    }
}

/// A base URL without the slashes at its end, followed by a path.
pub fn join_url(base: &str, path: &str, leaf: &str) -> (url: String)
    ensures
        url@ == without_slashes(base@) + path@ + leaf@,
{
    let chars = text::chars_of(base);
    let mut n: usize = chars.len();
    assert(chars@.take(n as int) =~= chars@);
    while n > 0 && chars[n - 1] == '/'
        invariant
            n <= chars@.len(),
            without_slashes(chars@.take(n as int)) == without_slashes(chars@),
        decreases n,
    {
        assert(chars@.take(n as int).drop_last() =~= chars@.take(n - 1));
        n -= 1;
    }
    let mut url = text::string_of(vstd::slice::slice_subrange(&chars, 0, n));
    assert(chars@.subrange(0, n as int) =~= chars@.take(n as int));
    url.append(path);
    url.append(leaf);
    url
}

/// The status of a reply that is answered with `success` unless it is an error.
pub open spec fn reply_status<T>(success: u16, reply: Result<T, AppError>) -> int {
    match reply {
        Ok(_) => success as int,
        Err(e) => error::status_of(e@),
    }
}

/// Finds the status of a reply that is answered with `success` unless it is an error.
pub fn reply_status_code<T>(success: u16, reply: &Result<T, AppError>) -> (code: u16)
    ensures
        code == reply_status(success, *reply),
{
    match reply {
        Ok(_) => success,
        Err(e) => e.status(),
    }
}

/// A readiness answer: its status and the value of its `status` member.
#[derive(Debug)]
pub struct ReadyResponse {
    pub status: u16,
    pub text: &'static str,
}

/// Readiness: `200` when the store is reachable, `503` (not `500`) when it is not,
/// so that a load balancer takes the instance out of rotation.
pub fn ready_response(reachable: bool) -> (r: ReadyResponse)
    ensures
        reachable ==> r.status == 200 && r.text@ == "ready"@,
        !reachable ==> r.status == 503 && r.text@ == "unavailable"@,
{
    if reachable {
        ReadyResponse { status: 200, text: "ready" }
    } else {
        ReadyResponse { status: 503, text: "unavailable" }
    }
}

/// A URL is the base without the slashes at its end, then the path and the leaf, all as
/// they are.
pub proof fn joined_urls_keep_their_parts(base: &str, path: &str, leaf: &str, url: String)
    requires
        call_ensures(join_url, (base, path, leaf), url),
    ensures
        exists|core: Seq<char>|
            {
                &&& #[trigger] core.is_prefix_of(base@)
                &&& core.len() > 0 ==> core.last() != '/'
                &&& forall|i: int| core.len() <= i < base@.len() ==> #[trigger] base@[i] == '/'
                &&& url@ == core + path@ + leaf@
            },
{
    lemma_without_slashes(base@);
    assert(without_slashes(base@).is_prefix_of(base@));
}

proof fn lemma_without_slashes(s: Seq<char>)
    ensures
        without_slashes(s).is_prefix_of(s),
        without_slashes(s).len() > 0 ==> without_slashes(s).last() != '/',
        forall|i: int| without_slashes(s).len() <= i < s.len() ==> #[trigger] s[i] == '/',
    decreases s.len(),
{
    if s.len() > 0 && s.last() == '/' {
        let front = s.drop_last();
        lemma_without_slashes(front);
        assert(without_slashes(s) =~= s.subrange(0, without_slashes(s).len() as int));
        assert forall|i: int| without_slashes(s).len() <= i < s.len() implies #[trigger] s[i]
            == '/' by {
            if i < front.len() {
                assert(front[i] == s[i]);
            }
        }
    } else {
        assert(without_slashes(s) =~= s.subrange(0, s.len() as int));
    }
}

/// A reply has the status of its success, or that of its error: 404 for what is not
/// found, 400 for what is not valid, 409 for a conflict and 500 for a failure.
pub proof fn replies_have_the_status_of_their_outcome<T>(
    success: u16,
    reply: Result<T, AppError>,
    code: u16,
)
    requires
        call_ensures(reply_status_code::<T>, (success, &reply), code),
    ensures
        code == match reply {
            Ok(_) => success,
            Err(AppError::NotFound) => 404,
            Err(AppError::Validation(_)) => 400,
            Err(AppError::Conflict(_)) => 409,
            Err(AppError::Internal(_)) => 500,
        },
{
}

/// A service is ready exactly while its store is reachable; one that is not asks to be
/// taken out of rotation, with a 503.
pub proof fn readiness_is_reachability(reachable: bool, r: ReadyResponse)
    requires
        call_ensures(ready_response, (reachable,), r),
    ensures
        r.status == 200 <==> reachable,
        r.status == 503 <==> !reachable,
        r.text@ == if reachable {
            "ready"@
        } else {
            "unavailable"@
        },
{
}

} // verus!
