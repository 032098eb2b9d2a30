use update_qtile::source::{join, Args, UpdateQtile};

fn selectors() -> Args {
    Args { fork: Some("qtile".to_string()), path: None, commit: None, branch: None, tag: None, restart: false }
}

fn run(args: Args) -> UpdateQtile {
    UpdateQtile::new(args, None)
}

#[test]
fn branch_with_default_fork() {
    let mut a = selectors();
    a.branch = Some("next".to_string());
    assert_eq!(run(a).get_source(), "https://github.com/qtile/qtile#branch=next");
}

#[test]
fn fork_with_commit() {
    let mut a = selectors();
    a.fork = Some("alice".to_string());
    a.commit = Some("abc123".to_string());
    assert_eq!(run(a).get_source(), "https://github.com/alice/qtile#commit=abc123");
}

#[test]
fn no_qualifier_means_default_branch() {
    assert_eq!(run(selectors()).get_source(), "https://github.com/qtile/qtile");
}

#[test]
fn no_fork_and_no_path_is_upstream() {
    let mut a = selectors();
    a.fork = None;
    assert_eq!(run(a).get_source(), "https://github.com/qtile/qtile");
}

#[test]
fn tag_qualifier() {
    let mut a = selectors();
    a.tag = Some("v0.23.0".to_string());
    assert_eq!(run(a).get_source(), "https://github.com/qtile/qtile#tag=v0.23.0");
}

#[test]
fn local_path_takes_precedence_over_fork() {
    let mut a = selectors();
    a.path = Some("/home/me/src/qtile".to_string());
    a.branch = Some("wip".to_string());
    assert_eq!(run(a).get_source(), "file:///home/me/src/qtile#branch=wip");
}

#[test]
fn commit_wins_over_tag_and_branch() {
    let mut a = selectors();
    a.commit = Some("c0ffee".to_string());
    a.tag = Some("v1".to_string());
    a.branch = Some("main".to_string());
    assert_eq!(run(a).get_source(), "https://github.com/qtile/qtile#commit=c0ffee");
}

#[test]
fn tag_wins_over_branch() {
    let mut a = selectors();
    a.tag = Some("v1".to_string());
    a.branch = Some("main".to_string());
    assert_eq!(run(a).get_source(), "https://github.com/qtile/qtile#tag=v1");
}

#[test]
fn empty_values_are_kept() {
    let mut a = selectors();
    a.fork = Some(String::new());
    a.branch = Some(String::new());
    assert_eq!(run(a).get_source(), "https://github.com//qtile#branch=");
}

#[test]
fn default_cache_root() {
    let u = UpdateQtile::new(selectors(), None);
    assert_eq!(u.repo_path, "~/.cache/yay/qtile-git");
    assert!(!u.args.restart);
}

#[test]
fn configured_cache_root() {
    let u = UpdateQtile::new(selectors(), Some("/home/me/.cache".to_string()));
    assert_eq!(u.repo_path, "/home/me/.cache/yay/qtile-git");
}

#[test]
fn cache_root_with_trailing_separator() {
    let u = UpdateQtile::new(selectors(), Some("/var/cache/".to_string()));
    assert_eq!(u.repo_path, "/var/cache/yay/qtile-git");
}

#[test]
fn empty_cache_root_gives_relative_path() {
    let u = UpdateQtile::new(selectors(), Some(String::new()));
    assert_eq!(u.repo_path, "yay/qtile-git");
}

#[test]
fn join_adds_one_separator() {
    assert_eq!(join("a".to_string(), "b"), "a/b");
    assert_eq!(join("a/".to_string(), "b"), "a/b");
    assert_eq!(join(String::new(), "b"), "b");
    assert_eq!(join("/".to_string(), "b"), "/b");
}

#[test]
fn at_most_one_ref_is_well_formed() {
    let mut a = selectors();
    assert!(a.is_wf());
    a.tag = Some("v1".to_string());
    assert!(a.is_wf());
    a.branch = Some("main".to_string());
    assert!(!a.is_wf());
    a.tag = None;
    a.commit = Some("c0ffee".to_string());
    assert!(!a.is_wf());
    a.branch = None;
    assert!(a.is_wf());
}

#[test]
fn selection_line_names_origin_and_ref() {
    let mut a = selectors();
    assert_eq!(run(a.clone()).selection_message(), "selected repo `https://github.com/qtile/qtile` - branch `master`");
    a.branch = Some("next".to_string());
    assert_eq!(run(a.clone()).selection_message(), "selected repo `https://github.com/qtile/qtile` - branch `next`");
    a.tag = Some("v1".to_string());
    assert_eq!(run(a.clone()).selection_message(), "selected repo `https://github.com/qtile/qtile` - tag `v1`");
    a.commit = Some("abc".to_string());
    a.path = Some("/src/qtile".to_string());
    assert_eq!(run(a.clone()).selection_message(), "selected repo `file:///src/qtile` - commit `abc`");
    assert_eq!(run(a).get_origin(), "file:///src/qtile");
}
