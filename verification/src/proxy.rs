//! The proxy as a machine of steps. It reads nothing and sends nothing: it
//! says what to answer or what to fetch, and is told what the origin said.

use crate::access::check_access_control;
use crate::access::check_url;
use crate::access::classify;
use crate::access::decide;
use crate::access::is_blob_style;
use crate::access::is_blob_url;
use crate::access::AccessDecision;
use crate::access::Rejection;
use crate::access::BLACKLISTED;
use crate::access::NOT_WHITELISTED;
use crate::config::Config;
use crate::config::ConfigView;
use crate::headers::find_location;
use crate::headers::forward_headers;
use crate::headers::forwarded;
use crate::headers::lemma_forwarded_twice;
use crate::headers::location_of;
use crate::headers::sanitize_headers;
use crate::headers::sanitized;
use crate::headers::Header;
use crate::headers::HeaderView;
use crate::headers::LOCATION;
use crate::text::append_from;
use crate::text::chars_of;
use crate::text::contains;
use crate::text::has;
use crate::text::has_at;
use crate::text::lemma_first_occurrence;
use crate::text::lemma_replace_first_absent;
use crate::text::lemma_replace_first_at;
use crate::text::occurs_at;
use crate::text::replace_all;
use crate::text::replace_first;
use crate::text::replaced_all;
use crate::text::replaced_first;
use crate::text::starts_with;
use crate::text::text_of;
use vstd::prelude::*;
use vstd::string::StrSliceExecFns;
use vstd::string::StringExecFns;
use vstd::utf8::encode_utf8;

verus! {

/// Status of a malformed target URL.
pub const BAD_REQUEST: u16 = 400;

/// Status of every rejection.
pub const FORBIDDEN: u16 = 403;

/// Status of a failed fetch.
pub const INTERNAL_SERVER_ERROR: u16 = 500;

/// Status of every redirect that the proxy itself answers with.
pub const PERMANENT_REDIRECT: u16 = 308;

/// Body of the answer to a URL of no supported shape.
pub const INVALID_INPUT: &'static str = "Invalid input.";

/// Body of the answer to a target URL that does not parse.
pub const INVALID_URL: &'static str = "Invalid URL";

/// What the body of the answer to a failed fetch begins with.
pub const SERVER_ERROR: &'static str = "server error ";

/// What is said of a chain of redirects that is longer than allowed.
pub const TOO_MANY_REDIRECTS: &'static str = "too many redirects";

/// Name of the header that says what kind of body an answer has.
pub const CONTENT_TYPE: &'static str = "content-type";

/// Kind of the body of a rejection.
pub const TEXT_PLAIN: &'static str = "text/plain; charset=utf-8";

/// Kind of the body of the answer to a failed fetch.
pub const TEXT_HTML: &'static str = "text/html; charset=UTF-8";

/// What a request path begins with when it brings its own scheme.
pub const SCHEME_START: &'static str = "http";

/// The scheme given to a path that brings none.
pub const DEFAULT_SCHEME: &'static str = "https://";

/// What parts scheme and host.
pub const SCHEME_END: &'static str = "://";

/// The end of a scheme that has lost one of its slashes.
pub const BROKEN_SCHEME_END: &'static str = "s:/";

/// What a broken scheme end is mended to.
pub const MENDED_SCHEME_END: &'static str = "s://";

/// The path segment of a file shown in the browser.
pub const BLOB_SEGMENT: &'static str = "/blob/";

/// The path segment of the same file raw.
pub const RAW_SEGMENT: &'static str = "/raw/";

/// The proxy's own root, which redirects back to it begin with.
pub const ROOT: &'static str = "/";

/// One GET to make at the origin. Whatever the client's request was, the
/// origin is asked with GET and without a body.
#[derive(Debug, PartialEq, Eq)]
pub struct Fetch {
    /// The path as the client asked for it; mirror redirects are built
    /// from it.
    pub requested: String,
    /// The URL to get.
    pub url: String,
    /// The headers to send.
    pub headers: Vec<Header>,
    /// How many redirects of the origin led here.
    pub hops: u32,
}

/// A `Fetch` as mathematics.
pub struct FetchView {
    pub requested: Seq<char>,
    pub url: Seq<char>,
    pub headers: Seq<HeaderView>,
    pub hops: u32,
}

impl DeepView for Fetch {
    type V = FetchView;

    open spec fn deep_view(&self) -> FetchView {
        FetchView {
            requested: self.requested@,
            url: self.url@,
            headers: self.headers.deep_view(),
            hops: self.hops,
        }
    }
}

impl View for Fetch {
    type V = FetchView;

    open spec fn view(&self) -> FetchView {
        self.deep_view()
    }
}

/// What the origin answered, without the body.
#[derive(Debug, PartialEq, Eq)]
pub struct UpstreamResponse {
    pub status: u16,
    pub headers: Vec<Header>,
    /// The length that the origin declared for the body, if it declared
    /// one.
    pub content_length: Option<u64>,
}

/// An `UpstreamResponse` as mathematics.
pub struct UpstreamResponseView {
    pub status: u16,
    pub headers: Seq<HeaderView>,
    pub content_length: Option<u64>,
}

impl DeepView for UpstreamResponse {
    type V = UpstreamResponseView;

    open spec fn deep_view(&self) -> UpstreamResponseView {
        UpstreamResponseView {
            status: self.status,
            headers: self.headers.deep_view(),
            content_length: self.content_length,
        }
    }
}

impl View for UpstreamResponse {
    type V = UpstreamResponseView;

    open spec fn view(&self) -> UpstreamResponseView {
        self.deep_view()
    }
}

/// What to do next for one request.
#[derive(Debug, PartialEq, Eq)]
pub enum Step {
    /// Answer the client with this status, these headers and this body.
    Respond { status: u16, headers: Vec<Header>, body: String },
    /// Get this from the origin and come back with what it said.
    Fetch(Fetch),
    /// Answer the client with this status and these headers, and with the
    /// body of the origin's answer, chunk by chunk.
    Relay { status: u16, headers: Vec<Header> },
}

/// A `Step` as mathematics.
pub enum StepView {
    Respond { status: u16, headers: Seq<HeaderView>, body: Seq<char> },
    Fetch(FetchView),
    Relay { status: u16, headers: Seq<HeaderView> },
}

impl DeepView for Step {
    type V = StepView;

    open spec fn deep_view(&self) -> StepView {
        match *self {
            Step::Respond { status, headers, body } => StepView::Respond {
                status,
                headers: headers.deep_view(),
                body: body@,
            },
            Step::Fetch(fetch) => StepView::Fetch(fetch@),
            Step::Relay { status, headers } => StepView::Relay {
                status,
                headers: headers.deep_view(),
            },
        }
    }
}

impl View for Step {
    type V = StepView;

    open spec fn view(&self) -> StepView {
        self.deep_view()
    }
}

/// The header `name` with the text `text` as its value.
pub open spec fn text_header(name: Seq<char>, text: Seq<char>) -> HeaderView {
    HeaderView { name, value: encode_utf8(text) }
}

/// The answer with a status and a body of plain text.
pub open spec fn plain_reply(status: u16, body: Seq<char>) -> StepView {
    StepView::Respond { status, headers: seq![text_header(CONTENT_TYPE@, TEXT_PLAIN@)], body }
}

/// The permanent redirect to `location`.
pub open spec fn redirect_to(location: Seq<char>) -> StepView {
    StepView::Respond {
        status: PERMANENT_REDIRECT,
        headers: seq![text_header(LOCATION@, location)],
        body: Seq::empty(),
    }
}

/// The answer to a fetch that failed for the reason `message`.
pub open spec fn server_error(message: Seq<char>) -> StepView {
    StepView::Respond {
        status: INTERNAL_SERVER_ERROR,
        headers: seq![text_header(CONTENT_TYPE@, TEXT_HTML@)],
        body: SERVER_ERROR@ + message,
    }
}

/// The full URL that a request path stands for. A path that does not begin
/// with `http` is given the scheme `https://`. Where the result then holds
/// no `://`, its leftmost `s:/` is mended to `s://`.
pub open spec fn normalized(path: Seq<char>) -> Seq<char> {
    let url = if starts_with(path, SCHEME_START@) {
        path
    } else {
        DEFAULT_SCHEME@ + path
    };
    if contains(url, SCHEME_END@) {
        url
    } else {
        replace_first(url, BROKEN_SCHEME_END@, MENDED_SCHEME_END@)
    }
}

/// Every normalised URL begins with `http`, and normalising it once more
/// changes nothing.
pub proof fn lemma_normalized_is_settled(path: Seq<char>)
    ensures
        starts_with(normalized(path), SCHEME_START@),
        normalized(normalized(path)) == normalized(path),
{
    reveal_strlit("http");
    reveal_strlit("https://");
    reveal_strlit("://");
    reveal_strlit("s:/");
    reveal_strlit("s://");
    let http = SCHEME_START@;
    let mark = SCHEME_END@;
    let broken = BROKEN_SCHEME_END@;
    let mended = MENDED_SCHEME_END@;
    if !starts_with(path, http) {
        let url = DEFAULT_SCHEME@ + path;
        assert(url.subrange(5, 8) =~= mark);
        assert(occurs_at(url, mark, 5));
        assert(url.subrange(0, 4) =~= http);
    } else if contains(path, mark) {
    } else if !contains(path, broken) {
        lemma_replace_first_absent(path, broken, mended);
    } else {
        let at = lemma_first_occurrence(path, broken);
        lemma_replace_first_at(path, broken, mended, at);
        let url = path.take(at) + mended + path.skip(at + 3);
        assert(path.subrange(at, at + 3)[0] == 's');
        assert(path.subrange(0, 4) == http);
        if at < 4 {
            assert(path.subrange(0, 4)[at] == path[at]);
        }
        assert(url.subrange(0, 4) =~= path.subrange(0, 4));
        assert(url.subrange(at + 1, at + 4) =~= mark);
        assert(occurs_at(url, mark, at + 1));
    }
}

/// What the access gate answers at once for a request, or `None` where the
/// request proceeds to the origin. `target` is what classification made of
/// the request's URL.
pub open spec fn gate(
    config: ConfigView,
    requested: Seq<char>,
    target: Option<(Seq<char>, Seq<char>)>,
) -> Option<StepView> {
    match target {
        None => Some(plain_reply(FORBIDDEN, INVALID_INPUT@)),
        Some((owner, resource)) => match decide(config, owner, resource) {
            AccessDecision::Rejected(Rejection::NotWhitelisted) => Some(
                plain_reply(FORBIDDEN, NOT_WHITELISTED@),
            ),
            AccessDecision::Rejected(Rejection::Blacklisted) => Some(
                plain_reply(FORBIDDEN, BLACKLISTED@),
            ),
            AccessDecision::DivertToMirror => Some(redirect_to(config.big_server + requested)),
            AccessDecision::Proceed => None,
        },
    }
}

/// The URL that is fetched for an admitted URL: a URL of the blob shape has
/// every `/blob/` replaced by `/raw/`, any other is taken as it is.
pub open spec fn fetch_url(url: Seq<char>, blob: bool) -> Seq<char> {
    if blob {
        replace_all(url, BLOB_SEGMENT@, RAW_SEGMENT@)
    } else {
        url
    }
}

/// What `reqwest::Url::parse` makes of `input`: whether it parses as an
/// absolute URL.
pub uninterp spec fn url_parses(input: Seq<char>) -> bool;

/// The first step of the engine for one target URL; `parses` says whether
/// the URL parses.
pub open spec fn start(
    requested: Seq<char>,
    target_url: Seq<char>,
    inbound: Seq<HeaderView>,
    hops: u32,
    parses: bool,
) -> StepView {
    if parses {
        StepView::Fetch(
            FetchView { requested, url: target_url, headers: forwarded(inbound), hops },
        )
    } else {
        plain_reply(BAD_REQUEST, INVALID_URL@)
    }
}

/// What the proxy does with a request for `path`.
pub open spec fn handle(config: ConfigView, path: Seq<char>, inbound: Seq<HeaderView>)
    -> StepView {
    let url = normalized(path);
    match gate(config, path, classify(url)) {
        Some(answer) => answer,
        None => {
            let target_url = fetch_url(url, is_blob_style(url));
            start(path, target_url, inbound, 0, url_parses(target_url))
        },
    }
}

/// What the proxy does with a redirect of the origin to `location`;
/// `recognized` says whether `location` names a resource of the platform.
pub open spec fn follow(
    config: ConfigView,
    fetch: FetchView,
    location: Seq<char>,
    recognized: bool,
) -> StepView {
    if recognized {
        redirect_to(ROOT@ + location)
    } else if fetch.hops >= config.max_hops {
        server_error(TOO_MANY_REDIRECTS@)
    } else {
        start(
            fetch.requested,
            location,
            fetch.headers,
            (fetch.hops + 1) as u32,
            url_parses(location),
        )
    }
}

/// The declared length is over the limit.
pub open spec fn oversized(config: ConfigView, response: UpstreamResponseView) -> bool {
    response.content_length matches Some(length) && length > config.size_limit
}

/// What the proxy does with the origin's answer to `fetch`.
pub open spec fn settle(config: ConfigView, fetch: FetchView, response: UpstreamResponseView)
    -> StepView {
    if oversized(config, response) {
        redirect_to(config.big_server + fetch.requested)
    } else {
        match location_of(response.headers) {
            Some(location) => follow(config, fetch, location, classify(location) is Some),
            None => StepView::Relay {
                status: response.status,
                headers: sanitized(response.headers),
            },
        }
    }
}

/// An answer whose declared length is over the limit is never relayed: the
/// client is sent to the mirror, for the path that it asked for.
pub proof fn lemma_oversized_goes_to_mirror(
    config: ConfigView,
    fetch: FetchView,
    response: UpstreamResponseView,
)
    requires
        response.content_length matches Some(length) && length > config.size_limit,
    ensures
        settle(config, fetch, response) == redirect_to(config.big_server + fetch.requested),
        !(settle(config, fetch, response) is Relay),
        !(settle(config, fetch, response) is Fetch),
{
}

/// Nothing is fetched for a request unless its URL was classified and the
/// access rules let it proceed. Only then does `/raw/` take the place of
/// `/blob/`: the rules judge the URL as it came. Where they stop a
/// request, the answer is given at once.
pub proof fn lemma_fetch_only_after_proceed(
    config: ConfigView,
    path: Seq<char>,
    inbound: Seq<HeaderView>,
)
    ensures
        !(handle(config, path, inbound) is Relay),
        handle(config, path, inbound) matches StepView::Fetch(fetch) ==> {
            let url = normalized(path);
            &&& classify(url) matches Some(target) && decide(config, target.0, target.1)
                == AccessDecision::Proceed
            &&& fetch.url == fetch_url(url, is_blob_style(url))
            &&& fetch.requested == path
            &&& fetch.hops == 0
            &&& fetch.headers == forwarded(inbound)
        },
        gate(config, path, classify(normalized(path))) is Some ==> handle(config, path, inbound)
            == gate(config, path, classify(normalized(path)))->0,
        gate(config, path, classify(normalized(path))) matches Some(answer) ==> answer is Respond,
        classify(normalized(path)) is None ==> handle(config, path, inbound) == plain_reply(
            FORBIDDEN,
            INVALID_INPUT@,
        ),
{
}

/// Following a redirect of the origin adds one hop, never passes the cap,
/// and keeps the path that the client asked for and the headers that are
/// sent, as long as those came from a step of this machine.
pub proof fn lemma_redirect_chain_is_bounded(
    config: ConfigView,
    fetch: FetchView,
    response: UpstreamResponseView,
)
    ensures
        settle(config, fetch, response) matches StepView::Fetch(next) ==> {
            &&& next.hops == fetch.hops + 1
            &&& next.hops <= config.max_hops
            &&& next.requested == fetch.requested
            &&& location_of(response.headers) == Some(next.url)
            &&& classify(next.url) is None
            &&& next.headers == forwarded(fetch.headers)
            &&& forall|inbound: Seq<HeaderView>| #[trigger]
                forwarded(inbound) == fetch.headers ==> next.headers == fetch.headers
        },
{
    if settle(config, fetch, response) is Fetch {
        assert forall|inbound: Seq<HeaderView>| #[trigger]
            forwarded(inbound) == fetch.headers implies forwarded(fetch.headers)
            == fetch.headers by {
            lemma_forwarded_twice(inbound);
        }
    }
}

/// What came of one fetch: it failed for a reason, or the origin answered.
pub enum Outcome {
    Failed(Seq<char>),
    Answered(UpstreamResponseView),
}

/// The step after one fetch.
pub open spec fn step_after(config: ConfigView, fetch: FetchView, outcome: Outcome) -> StepView {
    match outcome {
        Outcome::Failed(message) => server_error(message),
        Outcome::Answered(response) => settle(config, fetch, response),
    }
}

/// Where the machine stands after the fetches that it asked for came out
/// as `outcomes`, one after the other, starting from `step`. A step that
/// asks for no fetch is where it stays.
pub open spec fn run(config: ConfigView, step: StepView, outcomes: Seq<Outcome>) -> StepView
    decreases outcomes.len(),
{
    if outcomes.len() == 0 {
        step
    } else {
        match step {
            StepView::Fetch(fetch) => run(
                config,
                step_after(config, fetch, outcomes[0]),
                outcomes.skip(1),
            ),
            _ => step,
        }
    }
}

/// No request is fetched for without end: whatever the origin answers, a
/// fetch that lies within the cap is followed by as many further fetches
/// as the cap leaves room for, at most, and then by an answer to the
/// client.
pub proof fn lemma_run_ends(config: ConfigView, fetch: FetchView, outcomes: Seq<Outcome>)
    requires
        fetch.hops <= config.max_hops,
        outcomes.len() > config.max_hops - fetch.hops,
    ensures
        !(run(config, StepView::Fetch(fetch), outcomes) is Fetch),
    decreases outcomes.len(),
{
    let next = step_after(config, fetch, outcomes[0]);
    match next {
        StepView::Fetch(further) => {
            lemma_run_ends(config, further, outcomes.skip(1));
        },
        _ => {
            assert(run(config, next, outcomes.skip(1)) == next);
        },
    }
}

fn joined(head: &str, tail: &str) -> (whole: String)
    ensures
        whole@ == head@ + tail@,
{
    let mut whole = head.to_owned();
    whole.append(tail);
    whole
}

fn header_of_text(name: &str, text: &str) -> (header: Header)
    ensures
        header.deep_view() == text_header(name@, text@),
{
    Header { name: name.to_owned(), value: text.as_bytes_vec() }
}

/// The answer with a status and a body of plain text.
pub fn reply_plain(status: u16, body: &str) -> (step: Step)
    ensures
        step@ == plain_reply(status, body@),
{
    let mut headers: Vec<Header> = Vec::new();
    headers.push(header_of_text(CONTENT_TYPE, TEXT_PLAIN));
    proof {
        assert(headers.deep_view() =~= seq![text_header(CONTENT_TYPE@, TEXT_PLAIN@)]);
    }
    Step::Respond { status, headers, body: body.to_owned() }
}

/// The permanent redirect to `location`.
pub fn reply_redirect(location: &str) -> (step: Step)
    ensures
        step@ == redirect_to(location@),
{
    let mut headers: Vec<Header> = Vec::new();
    headers.push(header_of_text(LOCATION, location));
    proof {
        assert(headers.deep_view() =~= seq![text_header(LOCATION@, location@)]);
    }
    Step::Respond { status: PERMANENT_REDIRECT, headers, body: String::new() }
}

/// The answer to a fetch that failed; `message` says how.
pub fn upstream_failed(message: &str) -> (step: Step)
    ensures
        step@ == server_error(message@),
{
    let mut headers: Vec<Header> = Vec::new();
    headers.push(header_of_text(CONTENT_TYPE, TEXT_HTML));
    proof {
        assert(headers.deep_view() =~= seq![text_header(CONTENT_TYPE@, TEXT_HTML@)]);
    }
    Step::Respond { status: INTERNAL_SERVER_ERROR, headers, body: joined(SERVER_ERROR, message) }
}

/// Makes a full URL of a request path.
pub fn normalize_url(path: &str) -> (url: String)
    ensures
        url@ == normalized(path@),
{
    let given = chars_of(path);
    let url = if has_at(&given, &chars_of(SCHEME_START), 0) {
        given
    } else {
        let mut with_scheme = chars_of(DEFAULT_SCHEME);
        append_from(&mut with_scheme, &given, 0);
        proof {
            assert(given@.skip(0) =~= given@);
        }
        with_scheme
    };
    if has(&url, &chars_of(SCHEME_END)) {
        text_of(&url)
    } else {
        text_of(&replaced_first(&url, &chars_of(BROKEN_SCHEME_END), &chars_of(MENDED_SCHEME_END)))
    }
}

/// Judges a classified request: the answer to give at once, or `None`
/// where the request proceeds.
pub fn screen(config: &Config, requested: &str, target: &Option<(String, String)>) -> (answer:
    Option<Step>)
    ensures
        answer.deep_view() == gate(config@, requested@, target.deep_view()),
{
    match target {
        None => Some(reply_plain(FORBIDDEN, INVALID_INPUT)),
        Some((author, repo)) => match check_access_control(
            config,
            author.as_str(),
            repo.as_str(),
        ) {
            Err(body) => Some(reply_plain(FORBIDDEN, body)),
            Ok(divert) => {
                if divert {
                    Some(reply_redirect(joined(config.big_server.as_str(), requested).as_str()))
                } else {
                    None
                }
            },
        },
    }
}

/// The URL to fetch for an admitted URL; `blob` says whether the URL has
/// the blob shape.
pub fn rewrite_blob(url: &str, blob: bool) -> (target_url: String)
    ensures
        target_url@ == fetch_url(url@, blob),
{
    if blob {
        text_of(&replaced_all(&chars_of(url), &chars_of(BLOB_SEGMENT), &chars_of(RAW_SEGMENT)))
    } else {
        url.to_owned()
    }
}

/// Asks `reqwest::Url::parse` whether `input` parses. The contract only
/// gives that answer its name.
#[verifier::external_body]
fn parses_as_url(input: &str) -> (parses: bool)
    ensures
        parses == url_parses(input@),
{
    reqwest::Url::parse(input).is_ok()
}

/// The first step for a target URL of which it is known whether it parses:
/// the fetch with every inbound header but `Host`, or the answer to a
/// malformed URL.
pub fn begin_fetch(
    requested: &str,
    target_url: &str,
    inbound: &Vec<Header>,
    hops: u32,
    parses: bool,
) -> (step: Step)
    ensures
        step@ == start(requested@, target_url@, inbound.deep_view(), hops, parses),
{
    if parses {
        Step::Fetch(
            Fetch {
                requested: requested.to_owned(),
                url: target_url.to_owned(),
                headers: forward_headers(inbound),
                hops,
            },
        )
    } else {
        reply_plain(BAD_REQUEST, INVALID_URL)
    }
}

/// The first step of the engine for a target URL that the access gate has
/// cleared, or that the origin redirected to.
pub fn proxy_request(requested: &str, target_url: &str, inbound: &Vec<Header>, hops: u32) -> (step:
    Step)
    ensures
        step@ == start(
            requested@,
            target_url@,
            inbound.deep_view(),
            hops,
            url_parses(target_url@),
        ),
{
    begin_fetch(requested, target_url, inbound, hops, parses_as_url(target_url))
}

/// The first step for a request: normalises the path, classifies the URL,
/// asks the access gate and, where the request proceeds, starts the fetch.
pub fn handler(config: &Config, path: &str, inbound: &Vec<Header>) -> (step: Step)
    ensures
        step@ == handle(config@, path@, inbound.deep_view()),
{
    let url = normalize_url(path);
    let target = check_url(url.as_str());
    match screen(config, path, &target) {
        Some(answer) => answer,
        None => {
            let blob = is_blob_url(url.as_str());
            let target_url = rewrite_blob(url.as_str(), blob);
            proxy_request(path, target_url.as_str(), inbound, 0)
        },
    }
}

/// The step after a redirect of the origin to `location`, of which it is
/// known whether it names a resource of the platform. A recognised
/// location is handed back to the client, to come in again by the front
/// door; any other is fetched in turn, as long as the chain is short
/// enough.
pub fn follow_location(config: &Config, fetch: &Fetch, location: &str, recognized: bool) -> (step:
    Step)
    ensures
        step@ == follow(config@, fetch@, location@, recognized),
{
    if recognized {
        reply_redirect(joined(ROOT, location).as_str())
    } else if fetch.hops >= config.max_hops {
        upstream_failed(TOO_MANY_REDIRECTS)
    } else {
        proxy_request(fetch.requested.as_str(), location, &fetch.headers, fetch.hops + 1)
    }
}

/// The step after the origin answered `fetch`.
pub fn upstream_responded(config: &Config, fetch: &Fetch, response: &UpstreamResponse) -> (step:
    Step)
    ensures
        step@ == settle(config@, fetch@, response@),
{
    let over = match response.content_length {
        Some(length) => length > config.size_limit,
        None => false,
    };
    if over {
        return reply_redirect(
            joined(config.big_server.as_str(), fetch.requested.as_str()).as_str(),
        );
    }
    match find_location(&response.headers) {
        Some(location) => {
            let recognized = check_url(location.as_str()).is_some();
            follow_location(config, fetch, location.as_str(), recognized)
        },
        None => Step::Relay {
            status: response.status,
            headers: sanitize_headers(&response.headers),
        },
    }
}

} // verus!
