use gh_proxy::config::is_space_char;
use gh_proxy::config::read_and_process_rules;
use gh_proxy::config::Config;
use gh_proxy::config::DEFAULT_BIG_SERVER;
use gh_proxy::config::DEFAULT_MAX_HOPS;
use gh_proxy::config::DEFAULT_SIZE_LIMIT;

fn rule(owner: &str, resource: &str) -> (String, String) {
    (owner.to_string(), resource.to_string())
}

#[test]
fn defaults_are_as_documented() {
    assert_eq!(DEFAULT_SIZE_LIMIT, 1_072_668_082_176);
    assert_eq!(DEFAULT_BIG_SERVER, "https://ghfast.top/");
    assert_eq!(DEFAULT_MAX_HOPS, 10);
}

#[test]
fn one_rule_to_a_line() {
    assert_eq!(
        read_and_process_rules("acme/widgets\nother/*\n*/gadgets\n"),
        vec![rule("acme", "widgets"), rule("other", "*"), rule("*", "gadgets")]
    );
}

#[test]
fn last_line_needs_no_line_end() {
    assert_eq!(read_and_process_rules("acme/widgets"), vec![rule("acme", "widgets")]);
    assert_eq!(
        read_and_process_rules("a/b\nc/d"),
        vec![rule("a", "b"), rule("c", "d")]
    );
}

#[test]
fn empty_and_slashless_lines_state_nothing() {
    assert_eq!(read_and_process_rules(""), Vec::<(String, String)>::new());
    assert_eq!(read_and_process_rules("\n\n   \n"), Vec::<(String, String)>::new());
    assert_eq!(read_and_process_rules("acme\nwidgets\n"), Vec::<(String, String)>::new());
    assert_eq!(
        read_and_process_rules("\nacme\n\na/b\n\n"),
        vec![rule("a", "b")]
    );
}

#[test]
fn white_space_counts_for_nothing() {
    assert_eq!(
        read_and_process_rules("  ac me / wid gets  \r\n\t*\t/\tx\u{3000}y\u{a0}\n"),
        vec![rule("acme", "widgets"), rule("*", "xy")]
    );
}

#[test]
fn only_the_first_two_fields_count() {
    assert_eq!(
        read_and_process_rules("a/b/c/d\n/x\ny/\n/\n//\n"),
        vec![rule("a", "b"), rule("", "x"), rule("y", ""), rule("", ""), rule("", "")]
    );
}

#[test]
fn carriage_returns_are_dropped() {
    assert_eq!(
        read_and_process_rules("a/b\r\nc/d\r\n"),
        vec![rule("a", "b"), rule("c", "d")]
    );
}

#[test]
fn white_space_is_the_unicode_property() {
    for c in ['\t', '\n', '\u{b}', '\u{c}', '\r', ' ', '\u{85}', '\u{a0}', '\u{1680}', '\u{2000}',
        '\u{2005}', '\u{200a}', '\u{2028}', '\u{2029}', '\u{202f}', '\u{205f}', '\u{3000}']
    {
        assert!(is_space_char(c));
    }
    for c in ['a', '/', '*', '\u{8}', '\u{e}', '\u{1f}', '\u{200b}', '\u{180e}', '\u{feff}', '\u{2060}'] {
        assert!(!is_space_char(c));
    }
    let mut code: u32 = 0;
    while code < 0x3100 {
        if let Some(c) = char::from_u32(code) {
            assert_eq!(is_space_char(c), c.is_whitespace());
        }
        code += 1;
    }
}

#[test]
fn settings_fall_back_to_defaults() {
    let c = Config::from_settings(None, None, None, "", "", "");
    assert_eq!(c.size_limit, DEFAULT_SIZE_LIMIT);
    assert_eq!(c.big_server, "https://ghfast.top/");
    assert_eq!(c.max_hops, 10);
    assert!(c.white_list.is_empty());
    assert!(c.black_list.is_empty());
    assert!(c.pass_list.is_empty());
}

#[test]
fn settings_are_taken_where_given() {
    let c = Config::from_settings(
        Some(1_000_000_000),
        Some("https://mirror.example/".to_string()),
        Some(3),
        "acme/*\n",
        "acme/widgets\n",
        "*/big\nhuge/repo\n",
    );
    assert_eq!(c.size_limit, 1_000_000_000);
    assert_eq!(c.big_server, "https://mirror.example/");
    assert_eq!(c.max_hops, 3);
    assert_eq!(c.white_list, vec![rule("acme", "*")]);
    assert_eq!(c.black_list, vec![rule("acme", "widgets")]);
    assert_eq!(c.pass_list, vec![rule("*", "big"), rule("huge", "repo")]);
}
