use rsc_quickstart::command::{exec, exec_in, exec_with_optional_cwd, Config};
use rsc_quickstart::text::{contains_str, split_words, starts_with, trim};

#[test]
fn exec_splits_program_and_arguments() {
    let inv = exec("yarn install");
    assert_eq!(inv.program, "yarn");
    assert_eq!(inv.args, vec!["install".to_string()]);
    assert_eq!(inv.cwd, None);
}

#[test]
fn exec_in_keeps_the_directory() {
    let inv = exec_in("git commit -am 'Initial commit'", "/tmp/project");
    assert_eq!(inv.program, "git");
    assert_eq!(inv.args, vec!["commit", "-am", "'Initial", "commit'"]);
    assert_eq!(inv.cwd, Some("/tmp/project".to_string()));
}

#[test]
fn surrounding_whitespace_is_not_a_word() {
    let inv = exec_with_optional_cwd("  node\t--version\n", Some("x".to_string()));
    assert_eq!(inv.program, "node");
    assert_eq!(inv.args, vec!["--version".to_string()]);
    assert_eq!(inv.cwd, Some("x".to_string()));
}

#[test]
fn words_split_on_any_whitespace() {
    assert_eq!(split_words("  node\t--version \n"), vec!["node", "--version"]);
    assert_eq!(split_words("a\u{3000}b\u{a0}c"), vec!["a", "b", "c"]);
    assert_eq!(split_words("x"), vec!["x"]);
}

#[test]
fn trim_removes_outer_whitespace() {
    assert_eq!(trim("  v20.1.0\n"), "v20.1.0");
    assert_eq!(trim(" a b "), "a b");
    assert_eq!(trim(" \n "), "");
}

#[test]
fn prefix_and_substring_tests() {
    assert!(starts_with("@redwoodjs/core", "@redwoodjs/"));
    assert!(!starts_with("@redwoodjs", "@redwoodjs/"));
    assert!(contains_str("/a/corepack/b", "/corepack/"));
    assert!(!contains_str("/a/corepack", "/corepack/"));
}

#[test]
fn config_verbose_toggle() {
    let mut c = Config::new(false);
    assert!(!c.is_verbose());
    c.set_verbose(true);
    assert!(c.is_verbose());
}
