use gh_proxy::text::append_from;
use gh_proxy::text::chars_of;
use gh_proxy::text::has;
use gh_proxy::text::has_at;
use gh_proxy::text::replaced_all;
use gh_proxy::text::replaced_first;
use gh_proxy::text::same_text;
use gh_proxy::text::text_of;

fn cs(s: &str) -> Vec<char> {
    s.chars().collect()
}

#[test]
fn chars_and_text_round_trip() {
    assert_eq!(chars_of("a/b"), vec!['a', '/', 'b']);
    assert_eq!(chars_of(""), Vec::<char>::new());
    assert_eq!(chars_of("né€𝄞"), vec!['n', 'é', '€', '𝄞']);
    assert_eq!(text_of(&vec!['n', 'é', '€', '𝄞']), "né€𝄞");
    assert_eq!(text_of(&Vec::new()), "");
    assert_eq!(text_of(&chars_of("https://github.com")), "https://github.com");
}

#[test]
fn same_text_compares_whole_strings() {
    assert!(same_text("", ""));
    assert!(same_text("acme", "acme"));
    assert!(!same_text("acme", "acm"));
    assert!(!same_text("acme", "acmf"));
    assert!(!same_text("*", ""));
    assert!(same_text("né€", "né€"));
    assert!(!same_text("né€", "ne€"));
}

#[test]
fn has_at_looks_at_one_position() {
    assert!(has_at(&cs("https://x"), &cs("http"), 0));
    assert!(!has_at(&cs("https://x"), &cs("http"), 1));
    assert!(has_at(&cs("https://x"), &cs("://"), 5));
    assert!(has_at(&cs("abc"), &cs(""), 3));
    assert!(!has_at(&cs("abc"), &cs(""), 4));
    assert!(!has_at(&cs("ab"), &cs("abc"), 0));
    assert!(!has_at(&cs("abc"), &cs("bc"), usize::MAX));
}

#[test]
fn has_finds_anywhere() {
    assert!(has(&cs("https://x"), &cs("://")));
    assert!(has(&cs("x://"), &cs("://")));
    assert!(!has(&cs("https:/x"), &cs("://")));
    assert!(has(&cs(""), &cs("")));
    assert!(!has(&cs(""), &cs("a")));
    assert!(has(&cs("aab"), &cs("ab")));
}

#[test]
fn append_from_copies_the_tail() {
    let mut out = cs("ab");
    append_from(&mut out, &cs("cdef"), 2);
    assert_eq!(out, cs("abef"));
    append_from(&mut out, &cs("xy"), 2);
    assert_eq!(out, cs("abef"));
    append_from(&mut out, &cs("xy"), 3);
    assert_eq!(out, cs("abef"));
    append_from(&mut out, &cs("xy"), usize::MAX);
    assert_eq!(out, cs("abef"));
    append_from(&mut out, &cs("xy"), 0);
    assert_eq!(out, cs("abefxy"));
}

#[test]
fn replaced_first_touches_only_the_leftmost() {
    assert_eq!(replaced_first(&cs("https:/a/s:/b"), &cs("s:/"), &cs("s://")), cs("https://a/s:/b"));
    assert_eq!(replaced_first(&cs("abc"), &cs("x"), &cs("y")), cs("abc"));
    assert_eq!(replaced_first(&cs("abc"), &cs("c"), &cs("")), cs("ab"));
    assert_eq!(replaced_first(&cs("abc"), &cs(""), &cs("-")), cs("-abc"));
    assert_eq!(replaced_first(&cs(""), &cs(""), &cs("-")), cs("-"));
    assert_eq!(replaced_first(&cs(""), &cs("a"), &cs("-")), cs(""));
    assert_eq!(replaced_first(&cs("aaa"), &cs("aa"), &cs("b")), cs("ba"));
}

#[test]
fn replaced_all_reads_from_the_left() {
    assert_eq!(
        replaced_all(&cs("/a/blob/b/blob/c"), &cs("/blob/"), &cs("/raw/")),
        cs("/a/raw/b/raw/c")
    );
    assert_eq!(replaced_all(&cs("/blob/blob/"), &cs("/blob/"), &cs("/raw/")), cs("/raw/blob/"));
    assert_eq!(replaced_all(&cs("aaa"), &cs("aa"), &cs("b")), cs("ba"));
    assert_eq!(replaced_all(&cs("aaaa"), &cs("aa"), &cs("b")), cs("bb"));
    assert_eq!(replaced_all(&cs("abc"), &cs(""), &cs("-")), cs("abc"));
    assert_eq!(replaced_all(&cs("abc"), &cs("abc"), &cs("")), cs(""));
    assert_eq!(replaced_all(&cs("ab"), &cs("b"), &cs("bb")), cs("abb"));
    assert_eq!(replaced_all(&cs(""), &cs("a"), &cs("b")), cs(""));
}
