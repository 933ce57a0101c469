//! The configuration that every request is judged against.

use crate::text::chars_of;
use crate::text::text_of;
use vstd::prelude::*;

verus! {

/// Size limit used when none is configured: 999 GiB, in bytes.
pub const DEFAULT_SIZE_LIMIT: u64 = 1024 * 1024 * 1024 * 999;

/// Mirror used when none is configured.
pub const DEFAULT_BIG_SERVER: &'static str = "https://ghfast.top/";

/// Number of upstream redirects followed for one request when none is
/// configured.
pub const DEFAULT_MAX_HOPS: u32 = 10;

/// An access rule as mathematics: owner pattern, then resource pattern.
pub type Rule = (Seq<char>, Seq<char>);

/// Built once before the first request and only read afterwards.
#[derive(Debug, PartialEq, Eq)]
pub struct Config {
    /// Largest declared body, in bytes, that is relayed.
    pub size_limit: u64,
    /// Base URL of the mirror that takes diverted requests.
    pub big_server: String,
    /// Largest number of upstream redirects followed for one request.
    pub max_hops: u32,
    /// Allow table; empty means that nothing is restricted.
    pub white_list: Vec<(String, String)>,
    /// Deny table.
    pub black_list: Vec<(String, String)>,
    /// Divert table.
    pub pass_list: Vec<(String, String)>,
}

/// What a `Config` holds, as mathematics.
pub struct ConfigView {
    pub size_limit: u64,
    pub big_server: Seq<char>,
    pub max_hops: u32,
    pub white_list: Seq<Rule>,
    pub black_list: Seq<Rule>,
    pub pass_list: Seq<Rule>,
}

impl View for Config {
    type V = ConfigView;

    open spec fn view(&self) -> ConfigView {
        ConfigView {
            size_limit: self.size_limit,
            big_server: self.big_server@,
            max_hops: self.max_hops,
            white_list: self.white_list.deep_view(),
            black_list: self.black_list.deep_view(),
            pass_list: self.pass_list.deep_view(),
        }
    }
}

impl Config {
    /// The configuration for the given settings: a size limit, a mirror
    /// and a redirect cap, each with its default where it is not set, and
    /// the texts of the three rule files.
    pub fn from_settings(
        size_limit: Option<u64>,
        big_server: Option<String>,
        max_hops: Option<u32>,
        white_rules: &str,
        black_rules: &str,
        pass_rules: &str,
    ) -> (config: Config)
        ensures
            config@ == (ConfigView {
                size_limit: match size_limit {
                    Some(limit) => limit,
                    None => DEFAULT_SIZE_LIMIT,
                },
                big_server: match big_server {
                    Some(base) => base@,
                    None => DEFAULT_BIG_SERVER@,
                },
                max_hops: match max_hops {
                    Some(cap) => cap,
                    None => DEFAULT_MAX_HOPS,
                },
                white_list: rules_of(white_rules@),
                black_list: rules_of(black_rules@),
                pass_list: rules_of(pass_rules@),
            }),
    {
        Config {
            size_limit: match size_limit {
                Some(limit) => limit,
                None => DEFAULT_SIZE_LIMIT,
            },
            big_server: match big_server {
                Some(base) => base,
                None => DEFAULT_BIG_SERVER.to_owned(),
            },
            max_hops: match max_hops {
                Some(cap) => cap,
                None => DEFAULT_MAX_HOPS,
            },
            white_list: read_and_process_rules(white_rules),
            black_list: read_and_process_rules(black_rules),
            pass_list: read_and_process_rules(pass_rules),
        }
    }
}

/// What parts the owner from the resource in a rule.
pub const FIELD_SEPARATOR: char = '/';

/// What ends a line.
pub const LINE_END: char = '\n';

/// White space: the characters that Unicode gives the property White_Space.
pub open spec fn is_space(c: char) -> bool {
    let code = c as int;
    ||| 0x09 <= code <= 0x0D
    ||| code == 0x20
    ||| code == 0x85
    ||| code == 0xA0
    ||| code == 0x1680
    ||| 0x2000 <= code <= 0x200A
    ||| code == 0x2028
    ||| code == 0x2029
    ||| code == 0x202F
    ||| code == 0x205F
    ||| code == 0x3000
}

/// `s` without its white space.
pub open spec fn stripped(s: Seq<char>) -> Seq<char> {
    s.filter(|c: char| !is_space(c))
}

/// Where `sep` first stands in `s`; the length of `s` where it stands
/// nowhere.
pub open spec fn position(s: Seq<char>, sep: char) -> nat
    decreases s.len(),
{
    if s.len() == 0 || s[0] == sep {
        0
    } else {
        1 + position(s.skip(1), sep)
    }
}

/// The rule that a line states: the text before the first `/` and the text
/// between the first `/` and the second, or the end of the line, both
/// without white space. A line without `/` states none.
pub open spec fn rule_of_line(line: Seq<char>) -> Option<Rule> {
    let slash = position(line, FIELD_SEPARATOR) as int;
    if slash >= line.len() {
        None
    } else {
        let rest = line.skip(slash + 1);
        Some(
            (
                stripped(line.take(slash)),
                stripped(rest.take(position(rest, FIELD_SEPARATOR) as int)),
            ),
        )
    }
}

/// The rules that a text states, one line after the other.
pub open spec fn rules_of(text: Seq<char>) -> Seq<Rule>
    decreases text.len(),
{
    let end = position(text, LINE_END) as int;
    let here = match rule_of_line(text.take(end)) {
        Some(rule) => seq![rule],
        None => Seq::empty(),
    };
    if end >= text.len() {
        here
    } else {
        here + rules_of(text.skip(end + 1))
    }
}

/// `position` is the least index at which `sep` stands, or the length.
pub proof fn lemma_position(s: Seq<char>, sep: char)
    ensures
        position(s, sep) <= s.len(),
        forall|k: int| 0 <= k < position(s, sep) ==> s[k] != sep,
        position(s, sep) < s.len() ==> s[position(s, sep) as int] == sep,
    decreases s.len(),
{
    if s.len() == 0 || s[0] == sep {
    } else {
        lemma_position(s.skip(1), sep);
        assert forall|k: int| 0 <= k < position(s, sep) implies s[k] != sep by {
            if k > 0 {
                assert(s.skip(1)[k - 1] == s[k]);
            }
        }
    }
}

/// No field of a rule that a line states holds white space or a `/`.
pub proof fn lemma_rule_fields_are_clean(line: Seq<char>, i: int)
    requires
        rule_of_line(line) is Some,
    ensures
        ({
            let rule = rule_of_line(line)->0;
            &&& 0 <= i < rule.0.len() ==> !is_space(rule.0[i]) && rule.0[i] != FIELD_SEPARATOR
            &&& 0 <= i < rule.1.len() ==> !is_space(rule.1[i]) && rule.1[i] != FIELD_SEPARATOR
        }),
{
    let slash = position(line, FIELD_SEPARATOR) as int;
    let rest = line.skip(slash + 1);
    lemma_position(line, FIELD_SEPARATOR);
    lemma_position(rest, FIELD_SEPARATOR);
    lemma_stripped_keeps_no_other(line.take(slash), i);
    lemma_stripped_keeps_no_other(rest.take(position(rest, FIELD_SEPARATOR) as int), i);
}

/// What is left of a text without its white space is no white space, and
/// stood in the text.
pub proof fn lemma_stripped_keeps_no_other(s: Seq<char>, i: int)
    ensures
        0 <= i < stripped(s).len() ==> !is_space(stripped(s)[i]) && s.contains(stripped(s)[i]),
{
    if 0 <= i < stripped(s).len() {
        let keep = |c: char| !is_space(c);
        s.lemma_filter_pred(keep, i);
        assert(stripped(s).contains(stripped(s)[i]));
        s.lemma_filter_contains_rev(keep, stripped(s)[i]);
    }
}

/// Whether a character is white space.
pub fn is_space_char(c: char) -> (space: bool)
    ensures
        space == is_space(c),
{
    let code: u32 = c as u32;
    (0x09 <= code && code <= 0x0D) || code == 0x20 || code == 0x85 || code == 0xA0 || code
        == 0x1680 || (0x2000 <= code && code <= 0x200A) || code == 0x2028 || code == 0x2029 || code
        == 0x202F || code == 0x205F || code == 0x3000
}

fn position_from(s: &Vec<char>, from: usize, to: usize, sep: char) -> (at: usize)
    requires
        from <= to <= s.len(),
    ensures
        from <= at <= to,
        at - from == position(s@.subrange(from as int, to as int), sep),
{
    let mut at: usize = from;
    proof {
        assert(s@.subrange(from as int, to as int).skip(0) =~= s@.subrange(from as int, to as int));
    }
    while at < to && s[at] != sep
        invariant
            from <= at <= to <= s.len(),
            position(s@.subrange(from as int, to as int), sep) == (at - from) + position(
                s@.subrange(at as int, to as int),
                sep,
            ),
        decreases to - at,
    {
        proof {
            assert(s@.subrange(at as int, to as int).skip(1) =~= s@.subrange(at + 1, to as int));
        }
        at = at + 1;
    }
    at
}

fn stripped_text(s: &Vec<char>, from: usize, to: usize) -> (out: String)
    requires
        from <= to <= s.len(),
    ensures
        out@ == stripped(s@.subrange(from as int, to as int)),
{
    let ghost keep = |c: char| !is_space(c);
    let mut out: Vec<char> = Vec::new();
    let mut i: usize = from;
    proof {
        assert(s@.subrange(from as int, from as int) =~= Seq::<char>::empty());
    }
    while i < to
        invariant
            from <= i <= to <= s.len(),
            keep == |c: char| !is_space(c),
            out@ == s@.subrange(from as int, i as int).filter(keep),
        decreases to - i,
    {
        proof {
            assert(s@.subrange(from as int, i + 1) =~= s@.subrange(from as int, i as int).push(
                s@[i as int],
            ));
            s@.subrange(from as int, i as int).lemma_filter_push(s@[i as int], keep);
        }
        if !is_space_char(s[i]) {
            out.push(s[i]);
        }
        i = i + 1;
    }
    text_of(&out)
}

fn rule_between(s: &Vec<char>, from: usize, to: usize) -> (rule: Option<(String, String)>)
    requires
        from <= to <= s.len(),
    ensures
        rule.deep_view() == rule_of_line(s@.subrange(from as int, to as int)),
{
    let ghost line = s@.subrange(from as int, to as int);
    let slash = position_from(s, from, to, FIELD_SEPARATOR);
    if slash >= to {
        return None;
    }
    let next = position_from(s, slash + 1, to, FIELD_SEPARATOR);
    proof {
        assert(line.take(slash - from) =~= s@.subrange(from as int, slash as int));
        assert(line.skip(slash - from + 1) =~= s@.subrange(slash + 1, to as int));
        assert(line.skip(slash - from + 1).take(next - slash - 1) =~= s@.subrange(
            slash + 1,
            next as int,
        ));
    }
    Some((stripped_text(s, from, slash), stripped_text(s, slash + 1, next)))
}

/// Reads the rules that a text states, one to a line, each of the form
/// `owner/resource`. White space within a line counts for nothing, and a
/// line without `/` is passed over.
pub fn read_and_process_rules(text: &str) -> (rules: Vec<(String, String)>)
    ensures
        rules.deep_view() == rules_of(text@),
{
    let chars = chars_of(text);
    let mut rules: Vec<(String, String)> = Vec::new();
    let mut start: usize = 0;
    proof {
        assert(chars@.skip(0) =~= chars@);
        assert(rules.deep_view() =~= Seq::<Rule>::empty());
        assert(rules.deep_view() + rules_of(chars@) =~= rules_of(chars@));
    }
    loop
        invariant_except_break
            rules.deep_view() + rules_of(chars@.skip(start as int)) == rules_of(chars@),
        invariant
            start <= chars.len(),
            chars@ == text@,
        ensures
            rules.deep_view() == rules_of(text@),
        decreases chars.len() - start,
    {
        let ghost rest = chars@.skip(start as int);
        let ghost before = rules.deep_view();
        proof {
            assert(chars@.subrange(start as int, chars@.len() as int) =~= rest);
        }
        let end = position_from(&chars, start, chars.len(), LINE_END);
        proof {
            assert(rest.take(end - start) =~= chars@.subrange(start as int, end as int));
        }
        match rule_between(&chars, start, end) {
            Some(rule) => {
                rules.push(rule);
                proof {
                    assert(rules.deep_view() =~= before + seq![rule.deep_view()]);
                }
            },
            None => {
                proof {
                    assert(rules.deep_view() =~= before + Seq::<Rule>::empty());
                }
            },
        }
        if end >= chars.len() {
            break;
        }
        proof {
            assert(rest.skip(end - start + 1) =~= chars@.skip(end + 1));
            let here = match rule_of_line(rest.take(end - start)) {
                Some(rule) => seq![rule],
                None => Seq::<Rule>::empty(),
            };
            assert(before + (here + rules_of(rest.skip(end - start + 1))) =~= (before + here)
                + rules_of(rest.skip(end - start + 1)));
        }
        start = end + 1;
    }
    rules
}

} // verus!
