//! Which URLs name a resource of the platform, and what the access rules
//! say of its owner and name.

use crate::config::Config;
use crate::config::ConfigView;
use crate::config::Rule;
use crate::text::same_text;
use vstd::prelude::*;

verus! {

/// The pattern that stands for every owner, or for every resource.
pub const WILDCARD: &'static str = "*";

/// Body of the rejection by the allow table.
pub const NOT_WHITELISTED: &'static str = "Forbidden by white list.";

/// Body of the rejection by the deny table.
pub const BLACKLISTED: &'static str = "Forbidden by black list.";

/// Why the access rules turn a request away.
#[derive(Clone, Copy, Debug, PartialEq, Eq)]
pub enum Rejection {
    /// The allow table is not empty and none of its rules matches.
    NotWhitelisted,
    /// A rule of the deny table matches.
    Blacklisted,
}

/// What the access rules say of one owner and resource.
#[derive(Clone, Copy, Debug, PartialEq, Eq)]
pub enum AccessDecision {
    Rejected(Rejection),
    DivertToMirror,
    Proceed,
}

/// A rule matches by its resource under a wildcard owner, by both fields,
/// or by its owner under a wildcard resource.
pub open spec fn rule_matches(rule: Rule, owner: Seq<char>, resource: Seq<char>) -> bool {
    ||| rule.0 == WILDCARD@ && rule.1 == resource
    ||| rule.0 == owner && rule.1 == resource
    ||| rule.0 == owner && rule.1 == WILDCARD@
}

/// Some rule of the table matches; the order of the rules plays no part.
pub open spec fn table_matches(table: Seq<Rule>, owner: Seq<char>, resource: Seq<char>) -> bool {
    exists|i: int| 0 <= i < table.len() && rule_matches(#[trigger] table[i], owner, resource)
}

/// The access decision: allow table first, then deny, then divert.
pub open spec fn decide(config: ConfigView, owner: Seq<char>, resource: Seq<char>)
    -> AccessDecision {
    if config.white_list.len() > 0 && !table_matches(config.white_list, owner, resource) {
        AccessDecision::Rejected(Rejection::NotWhitelisted)
    } else if table_matches(config.black_list, owner, resource) {
        AccessDecision::Rejected(Rejection::Blacklisted)
    } else if table_matches(config.pass_list, owner, resource) {
        AccessDecision::DivertToMirror
    } else {
        AccessDecision::Proceed
    }
}

/// Whether one rule matches the owner and resource.
pub fn matches_rule(rule: &(String, String), author: &str, repo: &str) -> (hit: bool)
    ensures
        hit == rule_matches(rule.deep_view(), author@, repo@),
{
    let owner_is_wild = same_text(rule.0.as_str(), WILDCARD);
    let owner_is_same = same_text(rule.0.as_str(), author);
    let resource_is_wild = same_text(rule.1.as_str(), WILDCARD);
    let resource_is_same = same_text(rule.1.as_str(), repo);
    (owner_is_wild && resource_is_same) || (owner_is_same && resource_is_same) || (owner_is_same
        && resource_is_wild)
}

/// Whether some rule of the table matches the owner and resource.
pub fn matches_any(table: &Vec<(String, String)>, author: &str, repo: &str) -> (hit: bool)
    ensures
        hit == table_matches(table.deep_view(), author@, repo@),
{
    let mut i: usize = 0;
    while i < table.len()
        invariant
            i <= table.len(),
            forall|k: int|
                0 <= k < i ==> !rule_matches(
                    #[trigger] table.deep_view()[k],
                    author@,
                    repo@,
                ),
        decreases table.len() - i,
    {
        assert(table.deep_view()[i as int] == table@[i as int].deep_view());
        if matches_rule(&table[i], author, repo) {
            return true;
        }
        i = i + 1;
    }
    false
}

/// Judges one owner and resource by the three tables of `config`: `Err`
/// with the body of the rejection, `Ok(true)` to divert to the mirror,
/// `Ok(false)` to proceed.
pub fn check_access_control(config: &Config, author: &str, repo: &str) -> (verdict: Result<
    bool,
    &'static str,
>)
    ensures
        match decide(config@, author@, repo@) {
            AccessDecision::Rejected(Rejection::NotWhitelisted) => verdict matches Err(body)
                && body@ == NOT_WHITELISTED@,
            AccessDecision::Rejected(Rejection::Blacklisted) => verdict matches Err(body) && body@
                == BLACKLISTED@,
            AccessDecision::DivertToMirror => verdict == Ok::<bool, &'static str>(true),
            AccessDecision::Proceed => verdict == Ok::<bool, &'static str>(false),
        },
{
    if config.white_list.len() > 0 && !matches_any(&config.white_list, author, repo) {
        return Err(NOT_WHITELISTED);
    }
    if matches_any(&config.black_list, author, repo) {
        return Err(BLACKLISTED);
    }
    Ok(matches_any(&config.pass_list, author, repo))
}

/// Under a wildcard owner a rule matches exactly the requests for its own
/// resource, whoever the owner is. The one exception is left out: the rule
/// of two wildcards and an owner that is itself the wildcard, which the
/// rule then matches by its owner, whatever the resource.
pub proof fn lemma_wildcard_owner_matches_by_resource(
    pattern: Seq<char>,
    owner: Seq<char>,
    resource: Seq<char>,
)
    requires
        pattern == WILDCARD@ && owner == WILDCARD@ ==> resource == WILDCARD@,
    ensures
        rule_matches((WILDCARD@, pattern), owner, resource) <==> resource == pattern,
{
}

/// Under a wildcard resource a rule matches exactly the requests of its own
/// owner, whatever the resource is. The one exception is left out: the rule
/// of two wildcards and a resource that is itself the wildcard, which the
/// rule then matches by its resource, whoever the owner.
pub proof fn lemma_wildcard_resource_matches_by_owner(
    pattern: Seq<char>,
    owner: Seq<char>,
    resource: Seq<char>,
)
    requires
        pattern == WILDCARD@ && resource == WILDCARD@ ==> owner == WILDCARD@,
    ensures
        rule_matches((pattern, WILDCARD@), owner, resource) <==> owner == pattern,
{
}

/// The order of the rules in a table plays no part: two tables that hold
/// the same rules, each as often, match the same requests.
pub proof fn lemma_table_order_is_irrelevant(
    one: Seq<Rule>,
    other: Seq<Rule>,
    owner: Seq<char>,
    resource: Seq<char>,
)
    requires
        one.to_multiset() == other.to_multiset(),
    ensures
        table_matches(one, owner, resource) == table_matches(other, owner, resource),
{
    lemma_matching_rule_is_elsewhere(one, other, owner, resource);
    lemma_matching_rule_is_elsewhere(other, one, owner, resource);
}

proof fn lemma_matching_rule_is_elsewhere(
    one: Seq<Rule>,
    other: Seq<Rule>,
    owner: Seq<char>,
    resource: Seq<char>,
)
    requires
        one.to_multiset() == other.to_multiset(),
    ensures
        table_matches(one, owner, resource) ==> table_matches(other, owner, resource),
{
    if table_matches(one, owner, resource) {
        let i = choose|i: int| 0 <= i < one.len() && rule_matches(#[trigger] one[i], owner, resource);
        vstd::seq_lib::to_multiset_contains(one, one[i]);
        vstd::seq_lib::to_multiset_contains(other, one[i]);
        assert(one.contains(one[i]));
        let j = choose|j: int| 0 <= j < other.len() && other[j] == one[i];
        assert(rule_matches(other[j], owner, resource));
    }
}

/// With an empty allow table nothing is rejected for want of an allow rule.
pub proof fn lemma_empty_allow_table_rejects_nothing(
    config: ConfigView,
    owner: Seq<char>,
    resource: Seq<char>,
)
    requires
        config.white_list.len() == 0,
    ensures
        decide(config, owner, resource) != AccessDecision::Rejected(Rejection::NotWhitelisted),
{
}

/// A request that the allow table admits and the deny table matches is
/// rejected by the deny table, whether or not the divert table matches too:
/// deny is judged before divert.
pub proof fn lemma_deny_beats_divert(config: ConfigView, owner: Seq<char>, resource: Seq<char>)
    requires
        config.white_list.len() == 0 || table_matches(config.white_list, owner, resource),
        table_matches(config.black_list, owner, resource),
    ensures
        decide(config, owner, resource) == AccessDecision::Rejected(Rejection::Blacklisted),
{
}

/// A request that the allow table admits, the deny table does not match
/// and the divert table matches is diverted to the mirror.
pub proof fn lemma_divert_after_allow_and_deny(
    config: ConfigView,
    owner: Seq<char>,
    resource: Seq<char>,
)
    requires
        config.white_list.len() == 0 || table_matches(config.white_list, owner, resource),
        !table_matches(config.black_list, owner, resource),
        table_matches(config.pass_list, owner, resource),
    ensures
        decide(config, owner, resource) == AccessDecision::DivertToMirror,
{
}

/// Release and archive downloads.
pub const RELEASE_PATTERN: &'static str =
    r"^(?:https?://)?github\.com/(?P<author>.+?)/(?P<repo>.+?)/(?:releases|archive)/.*$";

/// Files shown in the browser, and the same files raw.
pub const BLOB_PATTERN: &'static str =
    r"^(?:https?://)?github\.com/(?P<author>.+?)/(?P<repo>.+?)/(?:blob|raw)/.*$";

/// The endpoints that `git` talks to over HTTP.
pub const GIT_PATTERN: &'static str =
    r"^(?:https?://)?github\.com/(?P<author>.+?)/(?P<repo>.+?)/(?:info|git-).*$";

/// The host that serves raw file content.
pub const RAW_PATTERN: &'static str =
    r"^(?:https?://)?raw\.(?:githubusercontent|github)\.com/(?P<author>.+?)/(?P<repo>.+?)/.+?/.+$";

/// The host that serves snippets.
pub const GIST_PATTERN: &'static str =
    r"^(?:https?://)?gist\.(?:githubusercontent|github)\.com/(?P<author>.+?)/(?P<repo>.+?)/.+$";

/// Number of URL shapes that are tried.
pub const SHAPES: usize = 5;

/// The patterns in the order in which they are tried.
pub open spec fn shape_pattern(i: int) -> Seq<char> {
    if i == 0 {
        RELEASE_PATTERN@
    } else if i == 1 {
        BLOB_PATTERN@
    } else if i == 2 {
        GIT_PATTERN@
    } else if i == 3 {
        RAW_PATTERN@
    } else {
        GIST_PATTERN@
    }
}

/// What `regex::Regex::captures` finds for `pattern` in `haystack`: `None`
/// where the pattern does not compile or matches nowhere; else the text of
/// every capture group of the leftmost match, the whole match first, each
/// group `None` where it took no part in the match.
pub uninterp spec fn regex_captures(pattern: Seq<char>, haystack: Seq<char>) -> Option<
    Seq<Option<Seq<char>>>,
>;

/// Compiles `pattern` with `regex::Regex::new`, searches `haystack` with
/// `Regex::captures` and copies out what `Captures::iter` yields. The
/// contract only gives that result its name. The pattern is compiled anew
/// at every call.
#[verifier::external_body]
fn captures(pattern: &str, haystack: &str) -> (groups: Option<Vec<Option<String>>>)
    ensures
        groups.deep_view() == regex_captures(pattern@, haystack@),
{
    let compiled = regex::Regex::new(pattern).ok()?;
    let found = compiled.captures(haystack)?;
    Some(found.iter().map(|group| group.map(|m| m.as_str().to_string())).collect())
}

/// Owner and resource among the capture groups of a match: the first and
/// the second group after the whole match, where both took part.
pub open spec fn target_of(groups: Seq<Option<Seq<char>>>) -> Option<(Seq<char>, Seq<char>)> {
    if groups.len() > 2 && groups[1] is Some && groups[2] is Some {
        Some((groups[1]->0, groups[2]->0))
    } else {
        None
    }
}

/// The first shape from `from` on that matches decides; the later ones are
/// not tried, even where the match yields no owner and resource.
pub open spec fn classify_from(url: Seq<char>, from: int) -> Option<(Seq<char>, Seq<char>)>
    decreases SHAPES - from,
{
    if from < 0 || from >= SHAPES {
        None
    } else {
        match regex_captures(shape_pattern(from), url) {
            Some(groups) => target_of(groups),
            None => classify_from(url, from + 1),
        }
    }
}

/// Owner and resource of the platform resource that `url` names, if any.
pub open spec fn classify(url: Seq<char>) -> Option<(Seq<char>, Seq<char>)> {
    classify_from(url, 0)
}

/// `url` has the shape of a file shown in the browser, or of the same file
/// raw.
pub open spec fn is_blob_style(url: Seq<char>) -> bool {
    regex_captures(BLOB_PATTERN@, url) is Some
}

/// Picks owner and resource out of the capture groups of a match.
pub fn target_of_captures(groups: &Vec<Option<String>>) -> (target: Option<(String, String)>)
    ensures
        target.deep_view() == target_of(groups.deep_view()),
{
    if groups.len() > 2 {
        match (&groups[1], &groups[2]) {
            (Some(author), Some(repo)) => Some((author.clone(), repo.clone())),
            _ => None,
        }
    } else {
        None
    }
}

fn pattern_at(i: usize) -> (pattern: &'static str)
    requires
        i < SHAPES,
    ensures
        pattern@ == shape_pattern(i as int),
{
    if i == 0 {
        RELEASE_PATTERN
    } else if i == 1 {
        BLOB_PATTERN
    } else if i == 2 {
        GIT_PATTERN
    } else if i == 3 {
        RAW_PATTERN
    } else {
        GIST_PATTERN
    }
}

/// Recognises a URL of the platform and extracts owner and resource.
pub fn check_url(url: &str) -> (target: Option<(String, String)>)
    ensures
        target.deep_view() == classify(url@),
{
    let mut i: usize = 0;
    while i < SHAPES
        invariant
            i <= SHAPES,
            classify(url@) == classify_from(url@, i as int),
        decreases SHAPES - i,
    {
        match captures(pattern_at(i), url) {
            Some(groups) => {
                return target_of_captures(&groups);
            },
            None => {},
        }
        i = i + 1;
    }
    None
}

/// Whether `url` has the blob shape.
pub fn is_blob_url(url: &str) -> (blob: bool)
    ensures
        blob == is_blob_style(url@),
{
    captures(BLOB_PATTERN, url).is_some()
}

} // verus!
