use mide_core::{
    git_add_args, git_delete_branch_args, git_diff_args, git_log_args, git_push_args,
    git_stash_args, git_unstage_args, git_discard_args, parse_branches, parse_log, parse_remotes,
    parse_stash_list, parse_status, parse_status_entries, GitBranch, GitCommit, GitFile,
    GitRemote, LOG_FORMAT,
};

fn file(status: &str, path: &str) -> GitFile {
    GitFile { status: status.to_string(), path: path.to_string() }
}

#[test]
fn status_entries_skip_short_and_empty() {
    let files = parse_status_entries(" M src/main.rs\0?? new.txt\0\0A\0");
    assert_eq!(files, vec![file(" M", "src/main.rs"), file("??", "new.txt")]);
    assert_eq!(parse_status_entries(""), Vec::<GitFile>::new());
}

#[test]
fn status_with_upstream_counts() {
    let s = parse_status("## main...origin/main [ahead 2]\0 M a.rs\0");
    assert_eq!(s.branch, "main");
    assert_eq!(s.ahead, 2);
    assert_eq!(s.behind, 0);
    assert_eq!(s.files, vec![file(" M", "a.rs")]);
}

#[test]
fn status_behind_only() {
    let s = parse_status("## dev...origin/dev [behind 3]\0");
    assert_eq!(s.branch, "dev");
    assert_eq!(s.ahead, 0);
    assert_eq!(s.behind, 3);
    assert!(s.files.is_empty());
}

#[test]
fn status_ahead_and_behind() {
    let s = parse_status("## dev...origin/dev [ahead 1, behind 4]\0");
    assert_eq!(s.branch, "dev");
    assert_eq!(s.ahead, 1);
    assert_eq!(s.behind, 4);
    let s = parse_status("## main...origin/main [ahead 12, behind 305]\0 M x\0");
    assert_eq!((s.ahead, s.behind), (12, 305));
    assert_eq!(s.files, vec![file(" M", "x")]);
}

#[test]
fn status_without_upstream() {
    let s = parse_status("## feature\0?? x.txt\0");
    assert_eq!(s.branch, "feature");
    assert_eq!(s.ahead, 0);
    assert_eq!(s.files, vec![file("??", "x.txt")]);
}

#[test]
fn status_without_header() {
    let s = parse_status("MM both.rs\0");
    assert_eq!(s.branch, "");
    assert_eq!(s.files, vec![file("MM", "both.rs")]);
}

#[test]
fn log_entries_are_parsed() {
    let out = "abc\0Ann\0ann@x.org\01700000000\0Fix bug\0Body text\0\0def\0Bob\0bob@x.org\0notanumber\0Second\0\0\0";
    let commits = parse_log(out);
    assert_eq!(
        commits,
        vec![
            GitCommit {
                hash: "abc".to_string(),
                author: "Ann".to_string(),
                email: "ann@x.org".to_string(),
                timestamp: 1700000000,
                message: "Fix bug".to_string(),
                body: "Body text".to_string(),
            },
            GitCommit {
                hash: "def".to_string(),
                author: "Bob".to_string(),
                email: "bob@x.org".to_string(),
                timestamp: 0,
                message: "Second".to_string(),
                body: "".to_string(),
            },
        ]
    );
    assert!(parse_log("a\0b\0c\0\0").is_empty());
}

#[test]
fn branches_are_parsed() {
    let b = parse_branches("main\0*\0origin/main\nfeature\0 \0\nbroken\n");
    assert_eq!(
        b,
        vec![
            GitBranch { name: "main".to_string(), current: true, remote: "origin/main".to_string() },
            GitBranch { name: "feature".to_string(), current: false, remote: "".to_string() },
        ]
    );
}

#[test]
fn remotes_are_deduplicated() {
    let r = parse_remotes("origin\thttps://a/x.git (fetch)\norigin\thttps://a/x.git (push)\nup  https://b/y.git (fetch)\n");
    assert_eq!(
        r,
        vec![
            GitRemote { name: "origin".to_string(), url: "https://a/x.git".to_string() },
            GitRemote { name: "up".to_string(), url: "https://b/y.git".to_string() },
        ]
    );
}

#[test]
fn stash_list_lines() {
    assert_eq!(
        parse_stash_list("stash@{0}: WIP\r\nstash@{1}: other\n"),
        vec!["stash@{0}: WIP".to_string(), "stash@{1}: other".to_string()]
    );
    assert!(parse_stash_list("").is_empty());
}

#[test]
fn git_argument_lists() {
    let files = vec!["a.rs".to_string(), "b.rs".to_string()];
    assert_eq!(git_add_args(&files), vec!["add", "a.rs", "b.rs"]);
    assert_eq!(git_unstage_args(&files), vec!["restore", "--staged", "a.rs", "b.rs"]);
    assert_eq!(git_discard_args(&files), vec!["restore", "a.rs", "b.rs"]);
    assert_eq!(git_diff_args("a.rs", true), vec!["diff", "--cached", "--", "a.rs"]);
    assert_eq!(git_diff_args("a.rs", false), vec!["diff", "--", "a.rs"]);
    assert_eq!(git_log_args(120), vec!["log", "-120", LOG_FORMAT, "-z"]);
    assert_eq!(git_log_args(0), vec!["log", "-0", LOG_FORMAT, "-z"]);
    assert_eq!(git_push_args(true, "dev"), vec!["push", "-u", "origin", "dev"]);
    assert_eq!(git_push_args(false, "dev"), vec!["push"]);
    assert_eq!(git_stash_args(Some("wip")), vec!["stash", "push", "-m", "wip"]);
    assert_eq!(git_stash_args(None), vec!["stash"]);
    assert_eq!(git_delete_branch_args("old", true), vec!["branch", "-D", "old"]);
    assert_eq!(git_delete_branch_args("old", false), vec!["branch", "-d", "old"]);
}
