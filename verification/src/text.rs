//! Text as sequences of characters: comparison, search and replacement.
//!
//! Every function here is stated over `Seq<char>`, the view of `str` and
//! `String`, and counts positions in characters, never in bytes.

use vstd::prelude::*;
use vstd::string::StringSliceAdditionalSpecFns;

verus! {

/// `needle` stands in `hay` at position `at`.
pub open spec fn occurs_at(hay: Seq<char>, needle: Seq<char>, at: int) -> bool {
    &&& 0 <= at
    &&& at + needle.len() <= hay.len()
    &&& hay.subrange(at, at + needle.len()) == needle
}

/// `hay` begins with `prefix`.
pub open spec fn starts_with(hay: Seq<char>, prefix: Seq<char>) -> bool {
    occurs_at(hay, prefix, 0)
}

/// `needle` stands somewhere in `hay`.
pub open spec fn contains(hay: Seq<char>, needle: Seq<char>) -> bool {
    exists|at: int| occurs_at(hay, needle, at)
}

/// `hay` with its leftmost occurrence of `needle` replaced by `with`;
/// `hay` itself where `needle` does not occur.
pub open spec fn replace_first(hay: Seq<char>, needle: Seq<char>, with: Seq<char>) -> Seq<char>
    decreases hay.len(),
{
    if occurs_at(hay, needle, 0) {
        with + hay.skip(needle.len() as int)
    } else if hay.len() == 0 {
        hay
    } else {
        seq![hay[0]] + replace_first(hay.skip(1), needle, with)
    }
}

/// `hay` with every occurrence of `needle` replaced by `with`, reading from
/// the left and never looking back into text already replaced. An empty
/// `needle` replaces nothing.
pub open spec fn replace_all(hay: Seq<char>, needle: Seq<char>, with: Seq<char>) -> Seq<char>
    decreases hay.len(),
{
    if needle.len() == 0 || hay.len() == 0 {
        hay
    } else if occurs_at(hay, needle, 0) {
        with + replace_all(hay.skip(needle.len() as int), needle, with)
    } else {
        seq![hay[0]] + replace_all(hay.skip(1), needle, with)
    }
}

/// An occurrence in a suffix of `hay` is an occurrence in `hay`, shifted.
pub proof fn lemma_occurs_in_suffix(hay: Seq<char>, needle: Seq<char>, from: int, at: int)
    requires
        0 <= from <= hay.len(),
        0 <= at,
    ensures
        occurs_at(hay.skip(from), needle, at) == occurs_at(hay, needle, from + at),
{
    if at + needle.len() <= hay.len() - from {
        assert(hay.skip(from).subrange(at, at + needle.len()) =~= hay.subrange(
            from + at,
            from + at + needle.len(),
        ));
    }
}

/// `needle` stands at `at` and nowhere before it.
pub open spec fn first_at(hay: Seq<char>, needle: Seq<char>, at: int) -> bool {
    &&& occurs_at(hay, needle, at)
    &&& forall|k: int| 0 <= k < at ==> !occurs_at(hay, needle, k)
}

/// A text that holds `needle` holds it at a first position, which is
/// returned.
pub proof fn lemma_first_occurrence(hay: Seq<char>, needle: Seq<char>) -> (at: int)
    requires
        contains(hay, needle),
    ensures
        first_at(hay, needle, at),
{
    let somewhere = choose|at: int| occurs_at(hay, needle, at);
    lemma_first_occurrence_up_to(hay, needle, somewhere)
}

proof fn lemma_first_occurrence_up_to(hay: Seq<char>, needle: Seq<char>, bound: int) -> (at: int)
    requires
        occurs_at(hay, needle, bound),
    ensures
        first_at(hay, needle, at),
        at <= bound,
    decreases bound,
{
    if exists|k: int| 0 <= k < bound && occurs_at(hay, needle, k) {
        let earlier = choose|k: int| 0 <= k < bound && occurs_at(hay, needle, k);
        lemma_first_occurrence_up_to(hay, needle, earlier)
    } else {
        bound
    }
}

/// `replace_first` puts `with` where `needle` first stands, and keeps what
/// is before and after it.
pub proof fn lemma_replace_first_at(hay: Seq<char>, needle: Seq<char>, with: Seq<char>, at: int)
    requires
        first_at(hay, needle, at),
    ensures
        replace_first(hay, needle, with) == hay.take(at) + with + hay.skip(at + needle.len()),
    decreases at,
{
    if at == 0 {
        assert(hay.take(0) + with + hay.skip(needle.len() as int) =~= with + hay.skip(
            needle.len() as int,
        ));
    } else {
        let tail = hay.skip(1);
        lemma_occurs_in_suffix(hay, needle, 1, at - 1);
        assert forall|k: int| 0 <= k < at - 1 implies !occurs_at(tail, needle, k) by {
            lemma_occurs_in_suffix(hay, needle, 1, k);
        }
        lemma_replace_first_at(tail, needle, with, at - 1);
        assert(seq![hay[0]] + (tail.take(at - 1) + with + tail.skip(at - 1 + needle.len()))
            =~= hay.take(at) + with + hay.skip(at + needle.len()));
    }
}

/// `replace_first` leaves a text without `needle` as it is.
pub proof fn lemma_replace_first_absent(hay: Seq<char>, needle: Seq<char>, with: Seq<char>)
    requires
        !contains(hay, needle),
    ensures
        replace_first(hay, needle, with) == hay,
    decreases hay.len(),
{
    if hay.len() > 0 {
        let tail = hay.skip(1);
        assert forall|k: int| !occurs_at(tail, needle, k) by {
            if 0 <= k {
                lemma_occurs_in_suffix(hay, needle, 1, k);
            }
        }
        lemma_replace_first_absent(tail, needle, with);
        assert(seq![hay[0]] + tail =~= hay);
    }
}

/// `replace_all` puts `with` where `needle` first stands, keeps what is
/// before it and goes on behind it.
pub proof fn lemma_replace_all_at(hay: Seq<char>, needle: Seq<char>, with: Seq<char>, at: int)
    requires
        needle.len() > 0,
        first_at(hay, needle, at),
    ensures
        replace_all(hay, needle, with) == hay.take(at) + with + replace_all(
            hay.skip(at + needle.len()),
            needle,
            with,
        ),
    decreases at,
{
    if at == 0 {
        assert(hay.take(0) + with + replace_all(hay.skip(needle.len() as int), needle, with)
            =~= with + replace_all(hay.skip(needle.len() as int), needle, with));
    } else {
        let tail = hay.skip(1);
        lemma_occurs_in_suffix(hay, needle, 1, at - 1);
        assert forall|k: int| 0 <= k < at - 1 implies !occurs_at(tail, needle, k) by {
            lemma_occurs_in_suffix(hay, needle, 1, k);
        }
        lemma_replace_all_at(tail, needle, with, at - 1);
        assert(tail.skip(at - 1 + needle.len()) =~= hay.skip(at + needle.len()));
        assert(seq![hay[0]] + (tail.take(at - 1) + with + replace_all(
            hay.skip(at + needle.len()),
            needle,
            with,
        )) =~= hay.take(at) + with + replace_all(hay.skip(at + needle.len()), needle, with));
    }
}

/// `replace_all` leaves a text without `needle` as it is.
pub proof fn lemma_replace_all_absent(hay: Seq<char>, needle: Seq<char>, with: Seq<char>)
    requires
        !contains(hay, needle),
    ensures
        replace_all(hay, needle, with) == hay,
    decreases hay.len(),
{
    if needle.len() > 0 && hay.len() > 0 {
        let tail = hay.skip(1);
        assert forall|k: int| !occurs_at(tail, needle, k) by {
            if 0 <= k {
                lemma_occurs_in_suffix(hay, needle, 1, k);
            }
        }
        lemma_replace_all_absent(tail, needle, with);
        assert(seq![hay[0]] + tail =~= hay);
    }
}

/// The characters of `s`, in order.
pub fn chars_of(s: &str) -> (out: Vec<char>)
    ensures
        out@ == s@,
{
    let mut out: Vec<char> = Vec::new();
    for c in walk: s.chars()
        invariant
            walk.seq() == s@,
            out@ == s@.take(walk.index() as int),
    {
        out.push(c);
        proof {
            assert(s@.take(walk.index() + 1) =~= s@.take(walk.index() as int).push(c));
        }
    }
    proof {
        assert(s@.take(s@.len() as int) =~= s@);
    }
    out
}

/// The string that holds the characters `chars`, in order.
pub fn text_of(chars: &Vec<char>) -> (out: String)
    ensures
        out@ == chars@,
{
    let mut out = String::new();
    let mut i: usize = 0;
    while i < chars.len()
        invariant
            i <= chars.len(),
            out@ == chars@.take(i as int),
        decreases chars.len() - i,
    {
        push_char(&mut out, chars[i]);
        proof {
            assert(chars@.take(i + 1) =~= chars@.take(i as int).push(chars@[i as int]));
        }
        i = i + 1;
    }
    proof {
        assert(chars@.take(chars@.len() as int) =~= chars@);
    }
    out
}

/// `String::push` of the standard library: it appends one character to the
/// end of the string and leaves the rest as it was.
#[verifier::external_body]
fn push_char(s: &mut String, c: char)
    ensures
        final(s)@ == old(s)@.push(c),
{
    s.push(c);
}

/// Whether two strings hold the same characters.
pub fn same_text(a: &str, b: &str) -> (same: bool)
    ensures
        same == (a@ == b@),
{
    let x = a.as_bytes();
    let y = b.as_bytes();
    if x.len() != y.len() {
        return false;
    }
    let mut i: usize = 0;
    while i < x.len()
        invariant
            i <= x.len(),
            x.len() == y.len(),
            x@ == a.spec_bytes(),
            y@ == b.spec_bytes(),
            forall|k: int| 0 <= k < i ==> x@[k] == y@[k],
        decreases x.len() - i,
    {
        if x[i] != y[i] {
            return false;
        }
        i = i + 1;
    }
    proof {
        assert(x@ =~= y@);
        vstd::utf8::encode_utf8_decode_utf8(a@);
        vstd::utf8::encode_utf8_decode_utf8(b@);
    }
    true
}

/// Whether `needle` stands in `hay` at position `at`.
pub fn has_at(hay: &Vec<char>, needle: &Vec<char>, at: usize) -> (found: bool)
    ensures
        found == occurs_at(hay@, needle@, at as int),
{
    if needle.len() > hay.len() || at > hay.len() - needle.len() {
        return false;
    }
    let mut k: usize = 0;
    while k < needle.len()
        invariant
            k <= needle.len(),
            at + needle.len() <= hay.len(),
            forall|j: int| 0 <= j < k ==> hay@[at + j] == needle@[j],
        decreases needle.len() - k,
    {
        if hay[at + k] != needle[k] {
            proof {
                assert(hay@.subrange(at as int, at + needle@.len())[k as int] == hay@[at + k]);
            }
            return false;
        }
        k = k + 1;
    }
    proof {
        assert(hay@.subrange(at as int, at + needle@.len()) =~= needle@);
    }
    true
}

/// Whether `needle` stands somewhere in `hay`.
pub fn has(hay: &Vec<char>, needle: &Vec<char>) -> (found: bool)
    ensures
        found == contains(hay@, needle@),
{
    if needle.len() > hay.len() {
        return false;
    }
    let last = hay.len() - needle.len();
    let mut at: usize = 0;
    while at <= last
        invariant
            at <= last + 1,
            last + needle.len() == hay.len(),
            forall|k: int| 0 <= k < at ==> !occurs_at(hay@, needle@, k),
        decreases last + 1 - at,
    {
        if has_at(hay, needle, at) {
            return true;
        }
        if at == last {
            return false;
        }
        at = at + 1;
    }
    false
}

/// Appends to `out` the characters of `src` from position `from` on;
/// nothing where `src` is shorter than that.
pub fn append_from(out: &mut Vec<char>, src: &Vec<char>, from: usize)
    ensures
        from <= src@.len() ==> final(out)@ == old(out)@ + src@.skip(from as int),
        from > src@.len() ==> final(out)@ == old(out)@,
{
    if from > src.len() {
        return ;
    }
    let mut k: usize = from;
    while k < src.len()
        invariant
            from <= k <= src.len(),
            out@ == old(out)@ + src@.subrange(from as int, k as int),
        decreases src.len() - k,
    {
        out.push(src[k]);
        proof {
            assert(out@ =~= old(out)@ + src@.subrange(from as int, k + 1));
        }
        k = k + 1;
    }
    proof {
        assert(src@.subrange(from as int, src@.len() as int) =~= src@.skip(from as int));
    }
}

/// `hay` with its leftmost `needle` replaced by `with`.
pub fn replaced_first(hay: &Vec<char>, needle: &Vec<char>, with: &Vec<char>) -> (out: Vec<char>)
    ensures
        out@ == replace_first(hay@, needle@, with@),
{
    let mut out: Vec<char> = Vec::new();
    let mut i: usize = 0;
    proof {
        assert(hay@.skip(0) =~= hay@);
        assert(out@ + hay@ =~= hay@);
    }
    while i < hay.len()
        invariant
            i <= hay.len(),
            out@ + replace_first(hay@.skip(i as int), needle@, with@) == replace_first(
                hay@,
                needle@,
                with@,
            ),
        decreases hay.len() - i,
    {
        let ghost rest = hay@.skip(i as int);
        proof {
            lemma_occurs_in_suffix(hay@, needle@, i as int, 0);
        }
        if has_at(hay, needle, i) {
            let ghost before = out@;
            append_from(&mut out, with, 0);
            append_from(&mut out, hay, i + needle.len());
            proof {
                assert(with@.skip(0) =~= with@);
                assert(rest.skip(needle@.len() as int) =~= hay@.skip(i + needle@.len()));
                assert(out@ =~= before + (with@ + rest.skip(needle@.len() as int)));
            }
            return out;
        }
        out.push(hay[i]);
        proof {
            assert(rest.skip(1) =~= hay@.skip(i + 1));
            assert(seq![rest[0]] + rest.skip(1) =~= rest);
            assert(out@ + replace_first(rest.skip(1), needle@, with@) =~= out@.drop_last() + (
            seq![rest[0]] + replace_first(rest.skip(1), needle@, with@)));
        }
        i = i + 1;
    }
    proof {
        lemma_occurs_in_suffix(hay@, needle@, i as int, 0);
        assert(hay@.skip(i as int) =~= Seq::<char>::empty());
    }
    if has_at(hay, needle, i) {
        let ghost before = out@;
        append_from(&mut out, with, 0);
        proof {
            assert(with@.skip(0) =~= with@);
            assert(hay@.skip(i as int).skip(needle@.len() as int) =~= Seq::<char>::empty());
            assert(out@ =~= before + (with@ + Seq::<char>::empty()));
        }
    } else {
        proof {
            assert(out@ + Seq::<char>::empty() =~= out@);
        }
    }
    out
}

/// `hay` with every `needle` replaced by `with`.
pub fn replaced_all(hay: &Vec<char>, needle: &Vec<char>, with: &Vec<char>) -> (out: Vec<char>)
    ensures
        out@ == replace_all(hay@, needle@, with@),
{
    let mut out: Vec<char> = Vec::new();
    let mut i: usize = 0;
    proof {
        assert(hay@.skip(0) =~= hay@);
        assert(out@ + hay@ =~= hay@);
    }
    while i < hay.len()
        invariant
            i <= hay.len(),
            out@ + replace_all(hay@.skip(i as int), needle@, with@) == replace_all(
                hay@,
                needle@,
                with@,
            ),
        decreases hay.len() - i,
    {
        let ghost rest = hay@.skip(i as int);
        proof {
            lemma_occurs_in_suffix(hay@, needle@, i as int, 0);
        }
        if needle.len() > 0 && has_at(hay, needle, i) {
            let ghost before = out@;
            append_from(&mut out, with, 0);
            proof {
                assert(with@.skip(0) =~= with@);
                assert(rest.skip(needle@.len() as int) =~= hay@.skip(i + needle@.len()));
                assert(out@ + replace_all(hay@.skip(i + needle@.len()), needle@, with@) =~= before
                    + (with@ + replace_all(rest.skip(needle@.len() as int), needle@, with@)));
            }
            i = i + needle.len();
        } else {
            out.push(hay[i]);
            proof {
                assert(rest.skip(1) =~= hay@.skip(i + 1));
                assert(seq![rest[0]] + rest.skip(1) =~= rest);
                assert(out@ + replace_all(rest.skip(1), needle@, with@) =~= out@.drop_last() + (
                seq![rest[0]] + replace_all(rest.skip(1), needle@, with@)));
            }
            i = i + 1;
        }
    }
    proof {
        assert(hay@.skip(i as int) =~= Seq::<char>::empty());
        assert(out@ + Seq::<char>::empty() =~= out@);
    }
    out
}

} // verus!
