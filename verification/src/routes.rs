//! The two fixed routes beside the proxy itself.

use crate::proxy::plain_reply;
use crate::proxy::redirect_to;
use crate::proxy::reply_plain;
use crate::proxy::reply_redirect;
use crate::proxy::Step;
use crate::proxy::StepView;
use crate::proxy::ROOT;
use vstd::prelude::*;
use vstd::string::StringExecFns;

verus! {

/// Status of the front page when nothing is asked of it.
pub const NOT_FOUND: u16 = 404;

/// Body of the front page when nothing is asked of it.
pub const NOT_FOUND_BODY: &'static str = "The requested resource was not found on this server.";

/// What crawlers are told.
pub const ROBOTS: &'static str = "User-agent: *\r\nDisallow: /";

/// The answer of the front page to the query parameter `q`.
pub open spec fn index_reply(q: Option<Seq<char>>) -> StepView {
    match q {
        Some(target) => redirect_to(ROOT@ + target),
        None => plain_reply(NOT_FOUND, NOT_FOUND_BODY@),
    }
}

/// The front page: with a query parameter `q` it redirects to the proxy
/// path of that name, without one it is not found.
pub fn index(q: Option<&str>) -> (step: Step)
    ensures
        step@ == index_reply(q.deep_view()),
{
    match q {
        Some(target) => {
            let mut location = ROOT.to_owned();
            location.append(target);
            reply_redirect(location.as_str())
        },
        None => reply_plain(NOT_FOUND, NOT_FOUND_BODY),
    }
}

/// The text served to crawlers.
pub fn robots() -> (text: &'static str)
    ensures
        text@ == ROBOTS@,
{
    ROBOTS
}

} // verus!
