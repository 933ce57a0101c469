//! Header sets as ordered lists of name and value, and the two filters that
//! the proxy applies to them.

use crate::text::chars_of;
use crate::text::text_of;
use vstd::prelude::*;
use vstd::seq_lib::*;

verus! {

/// One header line. The value is kept as the bytes that came over the wire.
#[derive(Debug, PartialEq, Eq)]
pub struct Header {
    pub name: String,
    pub value: Vec<u8>,
}

/// A header line as mathematics.
pub struct HeaderView {
    pub name: Seq<char>,
    pub value: Seq<u8>,
}

impl DeepView for Header {
    type V = HeaderView;

    open spec fn deep_view(&self) -> HeaderView {
        HeaderView { name: self.name@, value: self.value@ }
    }
}

impl View for Header {
    type V = HeaderView;

    open spec fn view(&self) -> HeaderView {
        self.deep_view()
    }
}

impl Clone for Header {
    fn clone(&self) -> (copy: Header)
        ensures
            copy@ == self@,
    {
        let value = self.value.clone();
        assert(value@ =~= self.value@);
        Header { name: self.name.clone(), value }
    }
}

/// Name of the header that is not forwarded to the origin.
pub const HOST: &'static str = "host";

/// Name of the header by which the origin redirects.
pub const LOCATION: &'static str = "location";

/// The code of a character with the upper-case ASCII letters mapped to
/// their lower-case ones.
pub open spec fn folded(c: char) -> int {
    if 'A' <= c && c <= 'Z' {
        c as int + 32
    } else {
        c as int
    }
}

/// Two names are the same but for the case of their ASCII letters.
pub open spec fn same_name(a: Seq<char>, b: Seq<char>) -> bool {
    &&& a.len() == b.len()
    &&& forall|i: int| 0 <= i < a.len() ==> folded(#[trigger] a[i]) == folded(b[i])
}

/// The names of the response headers that are not relayed, in lower case.
pub open spec fn removed_names() -> Seq<Seq<char>> {
    seq![
        "transfer-encoding"@,
        "strict-transport-security"@,
        "access-control-allow-origin"@,
        "clear-site-data"@,
        "content-security-policy"@,
        "content-security-policy-report-only"@,
        "cross-origin-resource-policy"@,
        "x-github-request-id"@,
        "x-fastly-request-id"@,
        "via"@,
        "x-served-by"@,
        "x-cache"@,
        "x-cache-hits"@,
        "x-timer"@,
        "expires"@,
        "source-age"@,
    ]
}

/// `name` is, but for case, one of `names`.
pub open spec fn named_among(name: Seq<char>, names: Seq<Seq<char>>) -> bool {
    exists|i: int| 0 <= i < names.len() && same_name(name, #[trigger] names[i])
}

/// The response header `name` is not relayed.
pub open spec fn is_removed(name: Seq<char>) -> bool {
    named_among(name, removed_names())
}

/// The request headers sent to the origin: all but `Host`, in order.
pub open spec fn forwarded(inbound: Seq<HeaderView>) -> Seq<HeaderView> {
    inbound.filter(|h: HeaderView| !same_name(h.name, HOST@))
}

/// The response headers relayed to the client: all but the removed ones,
/// in order.
pub open spec fn sanitized(upstream: Seq<HeaderView>) -> Seq<HeaderView> {
    upstream.filter(|h: HeaderView| !is_removed(h.name))
}

/// A byte that may stand in a header value read as text: printable ASCII,
/// the space and the tab.
pub open spec fn is_visible(b: u8) -> bool {
    (32 <= b && b < 127) || b == 9
}

/// The bytes read as text, one character for each byte.
pub open spec fn ascii_text(bytes: Seq<u8>) -> Seq<char> {
    Seq::new(bytes.len(), |i: int| bytes[i] as char)
}

/// Where the origin redirects to: the value of the first `Location` header,
/// where there is one and all its bytes are visible.
pub open spec fn location_of(headers: Seq<HeaderView>) -> Option<Seq<char>>
    decreases headers.len(),
{
    if headers.len() == 0 {
        None
    } else if same_name(headers[0].name, LOCATION@) {
        if forall|i: int| 0 <= i < headers[0].value.len() ==> is_visible(
            #[trigger] headers[0].value[i],
        ) {
            Some(ascii_text(headers[0].value))
        } else {
            None
        }
    } else {
        location_of(headers.skip(1))
    }
}

/// Filtering the request headers twice is filtering them once: a chain of
/// redirects sends the origin the same headers at every hop.
pub proof fn lemma_forwarded_twice(inbound: Seq<HeaderView>)
    ensures
        forwarded(forwarded(inbound)) == forwarded(inbound),
    decreases inbound.len(),
{
    let keep = |h: HeaderView| !same_name(h.name, HOST@);
    if inbound.len() == 0 {
        inbound.lemma_filter_len(keep);
        assert(inbound.filter(keep) =~= inbound);
    } else {
        let front = inbound.drop_last();
        let last = inbound.last();
        lemma_forwarded_twice(front);
        assert(inbound =~= front.push(last));
        front.lemma_filter_push(last, keep);
        front.filter(keep).lemma_filter_push(last, keep);
    }
}

/// No header that is sent to the origin is named `Host`, and none that is
/// relayed to the client bears a removed name.
pub proof fn lemma_filtered_names(headers: Seq<HeaderView>, i: int)
    ensures
        0 <= i < forwarded(headers).len() ==> !same_name(forwarded(headers)[i].name, HOST@),
        0 <= i < sanitized(headers).len() ==> !is_removed(sanitized(headers)[i].name),
{
    if 0 <= i < forwarded(headers).len() {
        headers.lemma_filter_pred(|h: HeaderView| !same_name(h.name, HOST@), i);
    }
    if 0 <= i < sanitized(headers).len() {
        headers.lemma_filter_pred(|h: HeaderView| !is_removed(h.name), i);
    }
}

fn fold(c: char) -> (code: u32)
    ensures
        code == folded(c),
{
    let code: u32 = c as u32;
    if 65 <= code && code <= 90 {
        code + 32
    } else {
        code
    }
}

/// Whether two names are the same but for the case of their ASCII letters.
pub fn same_chars_ignoring_case(a: &Vec<char>, b: &Vec<char>) -> (same: bool)
    ensures
        same == same_name(a@, b@),
{
    if a.len() != b.len() {
        return false;
    }
    let mut i: usize = 0;
    while i < a.len()
        invariant
            i <= a.len(),
            a.len() == b.len(),
            forall|k: int| 0 <= k < i ==> folded(#[trigger] a@[k]) == folded(b@[k]),
        decreases a.len() - i,
    {
        if fold(a[i]) != fold(b[i]) {
            return false;
        }
        i = i + 1;
    }
    true
}

/// Whether two names are the same but for the case of their ASCII letters.
pub fn same_name_ignoring_case(a: &str, b: &str) -> (same: bool)
    ensures
        same == same_name(a@, b@),
{
    same_chars_ignoring_case(&chars_of(a), &chars_of(b))
}

fn removed_list() -> (names: Vec<Vec<char>>)
    ensures
        names.deep_view() == removed_names(),
{
    let mut names: Vec<Vec<char>> = Vec::new();
    names.push(chars_of("transfer-encoding"));
    names.push(chars_of("strict-transport-security"));
    names.push(chars_of("access-control-allow-origin"));
    names.push(chars_of("clear-site-data"));
    names.push(chars_of("content-security-policy"));
    names.push(chars_of("content-security-policy-report-only"));
    names.push(chars_of("cross-origin-resource-policy"));
    names.push(chars_of("x-github-request-id"));
    names.push(chars_of("x-fastly-request-id"));
    names.push(chars_of("via"));
    names.push(chars_of("x-served-by"));
    names.push(chars_of("x-cache"));
    names.push(chars_of("x-cache-hits"));
    names.push(chars_of("x-timer"));
    names.push(chars_of("expires"));
    names.push(chars_of("source-age"));
    proof {
        assert(names@.len() == 16);
        assert(removed_names().len() == 16);
        assert forall|i: int| 0 <= i < 16 implies names.deep_view()[i] == removed_names()[i] by {
            assert(names.deep_view()[i] == names@[i]@);
        }
        assert(names.deep_view() =~= removed_names());
    }
    names
}

fn is_among(name: &Vec<char>, names: &Vec<Vec<char>>) -> (found: bool)
    ensures
        found == named_among(name@, names.deep_view()),
{
    let mut i: usize = 0;
    while i < names.len()
        invariant
            i <= names.len(),
            forall|k: int| 0 <= k < i ==> !same_name(name@, #[trigger] names.deep_view()[k]),
        decreases names.len() - i,
    {
        assert(names.deep_view()[i as int] == names@[i as int]@);
        if same_chars_ignoring_case(name, &names[i]) {
            return true;
        }
        i = i + 1;
    }
    false
}

/// Whether the response header `name` is one of those that are not
/// relayed.
pub fn is_removed_header(name: &str) -> (removed: bool)
    ensures
        removed == is_removed(name@),
{
    is_among(&chars_of(name), &removed_list())
}

/// Finds where the origin redirects to.
pub fn find_location(headers: &Vec<Header>) -> (location: Option<String>)
    ensures
        location.deep_view() == location_of(headers.deep_view()),
{
    let wanted = chars_of(LOCATION);
    let mut i: usize = 0;
    proof {
        assert(headers.deep_view().skip(0) =~= headers.deep_view());
    }
    while i < headers.len()
        invariant
            i <= headers.len(),
            wanted@ == LOCATION@,
            location_of(headers.deep_view()) == location_of(headers.deep_view().skip(i as int)),
        decreases headers.len() - i,
    {
        let ghost rest = headers.deep_view().skip(i as int);
        proof {
            assert(rest[0] == headers@[i as int]@);
            assert(rest.skip(1) =~= headers.deep_view().skip(i + 1));
        }
        if same_chars_ignoring_case(&chars_of(headers[i].name.as_str()), &wanted) {
            return visible_text(&headers[i].value);
        }
        i = i + 1;
    }
    None
}

/// Reads a header value as text, where all its bytes are visible.
pub fn visible_text(value: &Vec<u8>) -> (text: Option<String>)
    ensures
        text.deep_view() == (if forall|i: int|
            0 <= i < value@.len() ==> is_visible(#[trigger] value@[i]) {
            Some(ascii_text(value@))
        } else {
            None
        }),
{
    let mut chars: Vec<char> = Vec::new();
    let mut i: usize = 0;
    while i < value.len()
        invariant
            i <= value.len(),
            chars@.len() == i,
            forall|k: int| 0 <= k < i ==> is_visible(#[trigger] value@[k]),
            forall|k: int| 0 <= k < i ==> chars@[k] == value@[k] as char,
        decreases value.len() - i,
    {
        let b: u8 = value[i];
        if !((32 <= b && b < 127) || b == 9) {
            return None;
        }
        chars.push(b as char);
        i = i + 1;
    }
    proof {
        assert(chars@ =~= ascii_text(value@));
    }
    Some(text_of(&chars))
}

/// The headers to send to the origin: every inbound header except `Host`.
pub fn forward_headers(inbound: &Vec<Header>) -> (outbound: Vec<Header>)
    ensures
        outbound.deep_view() == forwarded(inbound.deep_view()),
{
    let host = chars_of(HOST);
    let ghost keep = |h: HeaderView| !same_name(h.name, HOST@);
    let mut outbound: Vec<Header> = Vec::new();
    let mut i: usize = 0;
    proof {
        assert(inbound.deep_view().take(0) =~= Seq::<HeaderView>::empty());
        assert(outbound.deep_view() =~= Seq::<HeaderView>::empty());
    }
    while i < inbound.len()
        invariant
            i <= inbound.len(),
            host@ == HOST@,
            keep == |h: HeaderView| !same_name(h.name, HOST@),
            outbound.deep_view() == inbound.deep_view().take(i as int).filter(keep),
        decreases inbound.len() - i,
    {
        let ghost before = outbound.deep_view();
        proof {
            inbound.deep_view().lemma_take_succ_push(i as int);
            inbound.deep_view().take(i as int).lemma_filter_push(inbound.deep_view()[i as int], keep);
            assert(inbound.deep_view()[i as int] == inbound@[i as int]@);
        }
        if !same_chars_ignoring_case(&chars_of(inbound[i].name.as_str()), &host) {
            outbound.push(inbound[i].clone());
            proof {
                assert(outbound.deep_view() =~= before.push(inbound@[i as int]@));
            }
        }
        i = i + 1;
    }
    proof {
        inbound.deep_view().lemma_take_len();
    }
    outbound
}

/// The headers to relay to the client: every header of the origin except
/// those that are removed.
pub fn sanitize_headers(upstream: &Vec<Header>) -> (relayed: Vec<Header>)
    ensures
        relayed.deep_view() == sanitized(upstream.deep_view()),
{
    let removed = removed_list();
    let ghost keep = |h: HeaderView| !is_removed(h.name);
    let mut relayed: Vec<Header> = Vec::new();
    let mut i: usize = 0;
    proof {
        assert(upstream.deep_view().take(0) =~= Seq::<HeaderView>::empty());
        assert(relayed.deep_view() =~= Seq::<HeaderView>::empty());
    }
    while i < upstream.len()
        invariant
            i <= upstream.len(),
            removed.deep_view() == removed_names(),
            keep == |h: HeaderView| !is_removed(h.name),
            relayed.deep_view() == upstream.deep_view().take(i as int).filter(keep),
        decreases upstream.len() - i,
    {
        let ghost before = relayed.deep_view();
        proof {
            upstream.deep_view().lemma_take_succ_push(i as int);
            upstream.deep_view().take(i as int).lemma_filter_push(
                upstream.deep_view()[i as int],
                keep,
            );
            assert(upstream.deep_view()[i as int] == upstream@[i as int]@);
        }
        if !is_among(&chars_of(upstream[i].name.as_str()), &removed) {
            relayed.push(upstream[i].clone());
            proof {
                assert(relayed.deep_view() =~= before.push(upstream@[i as int]@));
            }
        }
        i = i + 1;
    }
    proof {
        upstream.deep_view().lemma_take_len();
    }
    relayed
}

} // verus!
