use std::io::{BufRead, Cursor};

use cnf::ini::{repo_enabled, repo_from_lines, split_lines};

#[test]
fn test_repo_enabled_true() {
    let repo_content = "[main]\nenabled=1\n";
    let repo = repo_enabled(repo_content);
    assert!(repo.enabled);
    assert_eq!(repo.name, "main");
}

#[test]
fn test_repo_enabled_false() {
    let repo_content = "[other]\nenabled=0\n";
    let repo = repo_enabled(repo_content);
    assert!(!repo.enabled);
    assert_eq!(repo.name, "other");
}

#[test]
fn test_repo_name_parsing() {
    let repo_content = "[GNOME_Next]\nenabled=1\n";
    let repo = repo_enabled(repo_content);
    assert_eq!(repo.name, "GNOME_Next");
}

fn reader_lines(content: &str) -> Vec<String> {
    Cursor::new(content).lines().map_while(Result::ok).collect()
}

#[test]
fn split_lines_agrees_with_buffered_reader() {
    let samples = [
        "",
        "\n",
        "\n\n",
        "a",
        "a\n",
        "a\nb",
        "a\nb\n",
        "a\r\nb\r\n",
        "a\r",
        "a\r\r\n",
        "\r\n",
        "x\n\ny\n",
        "[main]\nenabled=1\n",
        "ünï\ncødé\r\n",
    ];
    for s in samples.iter() {
        assert_eq!(split_lines(s), reader_lines(s), "input {:?}", s);
    }
}

#[test]
fn lines_from_reader_read_as_text() {
    let content = "# comment\n[repo-oss]\nname=Main\nenabled=1\nautorefresh=0\n";
    let from_lines = repo_from_lines(&reader_lines(content));
    let from_text = repo_enabled(content);
    assert_eq!(from_lines.enabled, from_text.enabled);
    assert_eq!(from_lines.name, from_text.name);
    assert!(from_text.enabled);
    assert_eq!(from_text.name, "repo-oss");
}

#[test]
fn no_section_is_unnamed() {
    let repo = repo_enabled("enabled=1\n");
    assert!(repo.enabled);
    assert_eq!(repo.name, "N/A");
    let repo = repo_enabled("");
    assert!(!repo.enabled);
    assert_eq!(repo.name, "N/A");
}

#[test]
fn last_header_before_enabling_line_names() {
    let repo = repo_enabled("[a]\n[b]\nenabled=1\n[c]\n");
    assert!(repo.enabled);
    assert_eq!(repo.name, "b");
}

#[test]
fn lines_after_enabling_are_ignored() {
    let repo = repo_enabled("[a]\nenabled=1\n[b]\nenabled=1\n");
    assert!(repo.enabled);
    assert_eq!(repo.name, "a");
}

#[test]
fn disabled_takes_last_header() {
    let repo = repo_enabled("[a]\nenabled=0\n[b]\nenabled=0\n");
    assert!(!repo.enabled);
    assert_eq!(repo.name, "b");
}

#[test]
fn header_brackets_are_trimmed() {
    assert_eq!(repo_enabled("[[x]]\n").name, "x");
    assert_eq!(repo_enabled("[]\n").name, "");
    assert_eq!(repo_enabled("[a]]b]\n").name, "a]]b");
    assert_eq!(repo_enabled("[a/b]\n").name, "a/b");
    // not a header: it does not end with ']'
    assert_eq!(repo_enabled("[a] \n").name, "N/A");
    assert_eq!(repo_enabled("[\n").name, "N/A");
}

#[test]
fn enabling_lines() {
    assert!(repo_enabled("enabled = 1\n").enabled);
    assert!(repo_enabled("enabled=11\n").enabled);
    assert!(repo_enabled("enabled1").enabled);
    assert!(!repo_enabled("enabled\n").enabled);
    assert!(!repo_enabled("enabled=0\n").enabled);
    assert!(!repo_enabled("Enabled=1\n").enabled);
    assert!(!repo_enabled(" enabled=1\n").enabled);
    assert!(!repo_enabled("enabled=1 \n").enabled);
}

#[test]
fn crlf_lines_are_read() {
    let repo = repo_enabled("[main]\r\nenabled=1\r\n");
    assert!(repo.enabled);
    assert_eq!(repo.name, "main");
}

#[test]
fn last_line_without_newline() {
    let repo = repo_enabled("[m]\nenabled=1");
    assert!(repo.enabled);
    assert_eq!(repo.name, "m");
}

#[test]
fn text_read_in_order() {
    // what the first part leaves is the name the second part starts with
    let repo = repo_enabled("[first]\nenabled=0\nbaseurl=x\n");
    assert_eq!(repo.name, "first");
    let repo = repo_enabled("[first]\nenabled=0\nbaseurl=x\nenabled=1\n");
    assert!(repo.enabled);
    assert_eq!(repo.name, "first");
}

#[test]
fn split_lines_have_no_newline() {
    for l in split_lines("a\nb\r\n\nc") {
        assert!(!l.contains('\n'));
    }
    assert_eq!(split_lines("a\nb\r\n\nc"), vec!["a", "b", "", "c"]);
}

#[test]
fn lines_of_joined_text() {
    let s = "[a]\r\nenabled=0\n";
    let t = "x\ny";
    let mut joined = split_lines(s);
    joined.extend(split_lines(t));
    assert_eq!(split_lines(&format!("{}{}", s, t)), joined);
}
