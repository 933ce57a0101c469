use gh_proxy::access::check_access_control;
use gh_proxy::access::check_url;
use gh_proxy::access::is_blob_url;
use gh_proxy::config::Config;

fn rule(owner: &str, resource: &str) -> (String, String) {
    (owner.to_string(), resource.to_string())
}

fn config(
    white: Vec<(String, String)>,
    black: Vec<(String, String)>,
    pass: Vec<(String, String)>,
) -> Config {
    Config {
        size_limit: 1_000_000_000,
        big_server: "https://mirror.example/".to_string(),
        max_hops: 10,
        white_list: white,
        black_list: black,
        pass_list: pass,
    }
}

fn pair(owner: &str, resource: &str) -> Option<(String, String)> {
    Some((owner.to_string(), resource.to_string()))
}

#[test]
fn classifies_release_download() {
    assert_eq!(
        check_url("github.com/acme/widgets/releases/v1.0/file.zip"),
        pair("acme", "widgets")
    );
    assert_eq!(
        check_url("https://github.com/acme/widgets/archive/main.zip"),
        pair("acme", "widgets")
    );
}

#[test]
fn classifies_blob_and_raw_paths() {
    assert_eq!(
        check_url("https://github.com/acme/widgets/blob/main/src/lib.rs"),
        pair("acme", "widgets")
    );
    assert_eq!(
        check_url("http://github.com/acme/widgets/raw/main/src/lib.rs"),
        pair("acme", "widgets")
    );
}

#[test]
fn classifies_git_endpoints() {
    assert_eq!(
        check_url("https://github.com/acme/widgets/info/refs"),
        pair("acme", "widgets")
    );
    assert_eq!(
        check_url("https://github.com/acme/widgets/git-upload-pack"),
        pair("acme", "widgets")
    );
}

#[test]
fn classifies_raw_content_host() {
    assert_eq!(
        check_url("raw.githubusercontent.com/acme/widgets/main/README.md"),
        pair("acme", "widgets")
    );
    assert_eq!(
        check_url("https://raw.github.com/acme/widgets/main/README.md"),
        pair("acme", "widgets")
    );
}

#[test]
fn classifies_snippet_host() {
    assert_eq!(
        check_url("https://gist.githubusercontent.com/acme/0123abcd/raw/notes.txt"),
        pair("acme", "0123abcd")
    );
    assert_eq!(
        check_url("gist.github.com/acme/0123abcd/raw"),
        pair("acme", "0123abcd")
    );
}

#[test]
fn rejects_other_hosts_and_shapes() {
    assert_eq!(check_url("example.com/foo"), None);
    assert_eq!(check_url("https://github.com/acme/widgets"), None);
    assert_eq!(check_url("https://githubXcom/acme/widgets/releases/x"), None);
    assert_eq!(check_url("ftp://github.com/acme/widgets/releases/x"), None);
    assert_eq!(check_url(""), None);
}

#[test]
fn blob_shape_is_narrower_than_classification() {
    assert!(is_blob_url("https://github.com/acme/widgets/blob/main/a.txt"));
    assert!(is_blob_url("github.com/acme/widgets/raw/main/a.txt"));
    assert!(!is_blob_url("https://github.com/acme/widgets/releases/v1/a.zip"));
    assert!(!is_blob_url("https://raw.githubusercontent.com/acme/widgets/main/a.txt"));
}

#[test]
fn empty_tables_let_everything_proceed() {
    let c = config(vec![], vec![], vec![]);
    assert_eq!(check_access_control(&c, "acme", "widgets"), Ok(false));
}

#[test]
fn allow_table_rejects_what_it_does_not_match() {
    let c = config(vec![rule("acme", "widgets")], vec![], vec![]);
    assert_eq!(check_access_control(&c, "acme", "widgets"), Ok(false));
    assert_eq!(
        check_access_control(&c, "acme", "gadgets"),
        Err("Forbidden by white list.")
    );
}

#[test]
fn deny_table_rejects_what_it_matches() {
    let c = config(vec![], vec![rule("acme", "widgets")], vec![]);
    assert_eq!(
        check_access_control(&c, "acme", "widgets"),
        Err("Forbidden by black list.")
    );
    assert_eq!(check_access_control(&c, "acme", "gadgets"), Ok(false));
}

#[test]
fn divert_table_diverts_what_it_matches() {
    let c = config(vec![], vec![], vec![rule("*", "widgets")]);
    assert_eq!(check_access_control(&c, "acme", "widgets"), Ok(true));
    assert_eq!(check_access_control(&c, "other", "widgets"), Ok(true));
    assert_eq!(check_access_control(&c, "acme", "gadgets"), Ok(false));
}

#[test]
fn deny_is_judged_before_divert() {
    let c = config(
        vec![rule("acme", "*")],
        vec![rule("acme", "widgets")],
        vec![rule("*", "widgets")],
    );
    assert_eq!(
        check_access_control(&c, "acme", "widgets"),
        Err("Forbidden by black list.")
    );
}

#[test]
fn allowed_and_diverted_is_diverted() {
    let c = config(vec![rule("acme", "*")], vec![], vec![rule("acme", "widgets")]);
    assert_eq!(check_access_control(&c, "acme", "widgets"), Ok(true));
}

#[test]
fn wildcard_owner_matches_by_resource_alone() {
    let c = config(vec![], vec![rule("*", "widgets")], vec![]);
    assert!(check_access_control(&c, "anyone", "widgets").is_err());
    assert!(check_access_control(&c, "", "widgets").is_err());
    assert_eq!(check_access_control(&c, "anyone", "widget"), Ok(false));
}

#[test]
fn wildcard_resource_matches_by_owner_alone() {
    let c = config(vec![], vec![rule("acme", "*")], vec![]);
    assert!(check_access_control(&c, "acme", "anything").is_err());
    assert_eq!(check_access_control(&c, "acmee", "anything"), Ok(false));
}

#[test]
fn two_wildcards_match_only_a_wildcard_field() {
    let c = config(vec![], vec![rule("*", "*")], vec![]);
    assert_eq!(check_access_control(&c, "acme", "widgets"), Ok(false));
    assert!(check_access_control(&c, "*", "widgets").is_err());
    assert!(check_access_control(&c, "acme", "*").is_err());
}

fn round_trip(url: &str) -> String {
    let (owner, resource) = check_url(url).unwrap();
    format!("{}/{}", owner, resource)
}

#[test]
fn owner_and_resource_come_back_as_they_stand_in_the_url() {
    let owner = "acme-corp";
    let resource = "wid.gets_2";
    let embedded = format!("{}/{}", owner, resource);
    for url in [
        format!("https://github.com/{}/{}/releases/download/v1/a.zip", owner, resource),
        format!("https://github.com/{}/{}/archive/refs/heads/main.zip", owner, resource),
        format!("https://github.com/{}/{}/blob/main/README.md", owner, resource),
        format!("https://github.com/{}/{}/raw/main/README.md", owner, resource),
        format!("https://github.com/{}/{}/info/refs", owner, resource),
        format!("https://github.com/{}/{}/git-upload-pack", owner, resource),
        format!("https://raw.githubusercontent.com/{}/{}/main/README.md", owner, resource),
        format!("https://raw.github.com/{}/{}/main/README.md", owner, resource),
        format!("https://gist.githubusercontent.com/{}/{}/raw/a.txt", owner, resource),
        format!("https://gist.github.com/{}/{}/raw", owner, resource),
    ] {
        assert_eq!(round_trip(&url), embedded);
        assert_eq!(round_trip(url.trim_start_matches("https://")), embedded);
        assert_eq!(round_trip(&url.replacen("https", "http", 1)), embedded);
    }
}

#[test]
fn the_shortest_owner_and_resource_are_taken() {
    assert_eq!(
        check_url("https://github.com/a/b/c/releases/d/releases/e"),
        pair("a", "b/c")
    );
    assert_eq!(
        check_url("https://github.com/a/b/releases/c/blob/d"),
        pair("a", "b")
    );
    assert_eq!(check_url("https://github.com/a/b/blob/c/releases/d"), pair("a", "b/blob/c"));
}

#[test]
fn the_dot_of_the_host_is_a_dot() {
    assert_eq!(check_url("https://github-com/a/b/releases/c"), None);
    assert_eq!(check_url("https://rawXgithubusercontent.com/a/b/c/d"), None);
    assert_eq!(check_url("https://gist.githubXcom/a/b/c"), None);
    assert_eq!(check_url("https://github\\.com/a/b/releases/c"), None);
}

#[test]
fn the_order_of_the_rules_plays_no_part() {
    let one = config(vec![], vec![rule("a", "b"), rule("*", "c"), rule("d", "*")], vec![]);
    let other = config(vec![], vec![rule("d", "*"), rule("a", "b"), rule("*", "c")], vec![]);
    for (owner, resource) in [("a", "b"), ("a", "c"), ("d", "x"), ("x", "c"), ("x", "y"), ("a", "x")] {
        assert_eq!(
            check_access_control(&one, owner, resource),
            check_access_control(&other, owner, resource)
        );
    }
}
