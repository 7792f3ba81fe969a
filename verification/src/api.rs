//! What the client makes of the server's answers: the address of each
//! endpoint, and the message of a refused request.

use vstd::prelude::*;
use crate::config::text_result_view;
use crate::error::{ClientError, ClientErrorView};
use crate::text::{concat, is_blank, is_blank_str, owned};

verus! {

/// What `url::Url::join` gives for a relative reference against a base
/// URL (both as text): the serialization of the joined URL, or the text of
/// the error.
pub uninterp spec fn url_join(base: Seq<char>, path: Seq<char>) -> Result<Seq<char>, Seq<char>>;

/// Joins `path` onto the base URL `base` (`Url::parse`, then `Url::join`).
/// Trusted: the result is `url_join` of the two texts; the resolution
/// rules are left to the crate.
#[verifier::external_body]
fn join_url(base: &str, path: &str) -> (r: Result<String, String>)
    ensures
        match r {
            Ok(s) => url_join(base@, path@) == Ok::<Seq<char>, Seq<char>>(s@),
            Err(e) => url_join(base@, path@) == Err::<Seq<char>, Seq<char>>(e@),
        },
{
    match url::Url::parse(base).and_then(|u| u.join(path)) {
        Ok(u) => Ok(u.to_string()),
        Err(e) => Err(e.to_string()),
    }
}

/// The address of an endpoint, from how the join came out.
pub open spec fn endpoint_of(joined: Result<Seq<char>, Seq<char>>) -> Result<Seq<char>, ClientErrorView> {
    match joined {
        Ok(u) => Ok(u),
        Err(e) => Err(ClientErrorView::Config("API URLを構築できません: "@ + e)),
    }
}

/// The address of endpoint `path` of the server at `base`.
pub fn endpoint_url(base: &str, path: &str) -> (r: Result<String, ClientError>)
    ensures
        text_result_view(r) == endpoint_of(url_join(base@, path@)),
{
    match join_url(base, path) {
        Ok(u) => Ok(u),
        Err(e) => Err(ClientError::Config(concat("API URLを構築できません: ", e.as_str()))),
    }
}

/// The message of a refused request: the server's `error` field when the
/// body is an error answer, else the body, else the status's reason, else
/// a generic message.
pub open spec fn refusal_message(decoded: Option<Seq<char>>, body: Seq<char>, reason: Option<Seq<char>>) -> Seq<
    char,
> {
    match decoded {
        Some(m) => m,
        None => if is_blank(body) {
            match reason {
                Some(r) => r,
                None => "不明なHTTPエラー"@,
            }
        } else {
            body
        },
    }
}

/// The message of a refused request, given the `error` field if the body
/// decoded as an error answer, the body, and the status's canonical
/// reason.
pub fn http_error_message(decoded: Option<String>, body: String, reason: Option<String>) -> (r: String)
    ensures
        r@ == refusal_message(crate::protocol::opt_view(decoded), body@, crate::protocol::opt_view(reason)),
{
    match decoded {
        Some(m) => m,
        None => if is_blank_str(body.as_str()) {
            match reason {
                Some(r) => r,
                None => owned("不明なHTTPエラー"),
            }
        } else {
            body
        },
    }
}

} // verus!
