use agentcontainer::git::{main_worktree_from_porcelain, main_worktree_root};
use std::cell::Cell;

const LINKED: &str = "worktree /home/user/main-repo\nHEAD 0123456789abcdef\nbranch refs/heads/main\n\nworktree /home/user/feature\nHEAD fedcba9876543210\nbranch refs/heads/feature\n";

#[test]
fn linked_worktree_yields_the_main_worktree() {
    assert_eq!(
        main_worktree_from_porcelain(LINKED, "/home/user/feature"),
        Some(String::from("/home/user/main-repo"))
    );
}

#[test]
fn main_worktree_itself_yields_none() {
    assert_eq!(main_worktree_from_porcelain(LINKED, "/home/user/main-repo"), None);
}

#[test]
fn paths_are_compared_by_components() {
    assert_eq!(main_worktree_from_porcelain(LINKED, "/home/user/main-repo/"), None);
}

#[test]
fn output_without_worktree_lines_yields_none() {
    assert_eq!(main_worktree_from_porcelain("", "/w"), None);
    assert_eq!(main_worktree_from_porcelain("HEAD abc\nbare\n", "/w"), None);
}

#[test]
fn crlf_line_endings_are_accepted() {
    assert_eq!(
        main_worktree_from_porcelain("worktree /main\r\nHEAD abc\r\n", "/w"),
        Some(String::from("/main"))
    );
}

#[test]
fn only_the_first_worktree_line_counts() {
    assert_eq!(
        main_worktree_from_porcelain("worktree /w\nworktree /other\n", "/w"),
        None
    );
}

#[test]
fn no_git_entry_means_no_worktree_and_no_git_call() {
    let listed = Cell::new(false);
    let res = main_worktree_root(
        |_dir: &str| None,
        |_dir: &str| {
            listed.set(true);
            Ok::<String, String>(String::from(LINKED))
        },
        "/home/user/feature",
    );
    assert_eq!(res, Ok(None));
    assert!(!listed.get());
}

#[test]
fn git_directory_means_no_worktree_and_no_git_call() {
    let listed = Cell::new(false);
    let res = main_worktree_root(
        |_dir: &str| Some(true),
        |_dir: &str| {
            listed.set(true);
            Ok::<String, String>(String::from(LINKED))
        },
        "/home/user/feature",
    );
    assert_eq!(res, Ok(None));
    assert!(!listed.get());
}

#[test]
fn git_file_asks_git_for_the_worktrees() {
    let asked = std::cell::RefCell::new(None);
    let res = main_worktree_root(
        |_dir: &str| Some(false),
        |dir: &str| {
            *asked.borrow_mut() = Some(String::from(dir));
            Ok::<String, String>(String::from(LINKED))
        },
        "/home/user/feature",
    );
    assert_eq!(res, Ok(Some(String::from("/home/user/main-repo"))));
    assert_eq!(asked.into_inner().as_deref(), Some("/home/user/feature"));
}

#[test]
fn git_failure_is_passed_through() {
    let res = main_worktree_root(
        |_dir: &str| Some(false),
        |_dir: &str| Err::<String, String>(String::from("git failed")),
        "/home/user/feature",
    );
    assert_eq!(res, Err(String::from("git failed")));
}

#[test]
fn a_carriage_return_without_a_line_feed_is_kept() {
    assert_eq!(
        main_worktree_from_porcelain("worktree /main\r", "/w"),
        Some(String::from("/main\r"))
    );
}
