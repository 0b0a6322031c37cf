use vstd::prelude::*;

use crate::formatter::args_view;
use crate::runner::{collect_output, collected, result_view, ProcessOutput};

verus! {

/// The character of decimal digit `d`.
pub open spec fn digit_char(d: nat) -> char {
    if d == 0 { '0' } else if d == 1 { '1' } else if d == 2 { '2' } else if d == 3 { '3' }
    else if d == 4 { '4' } else if d == 5 { '5' } else if d == 6 { '6' } else if d == 7 { '7' }
    else if d == 8 { '8' } else { '9' }
}

/// The decimal digits of `n`, most significant first.
pub open spec fn decimal_digits(n: nat) -> Seq<char>
    decreases n,
{
    if n < 10 {
        seq![digit_char(n)]
    } else {
        decimal_digits(n / 10).push(digit_char(n % 10))
    }
}

fn digit(d: usize) -> (c: char)
    requires
        d < 10,
    ensures
        c == digit_char(d as nat),
{
    if d == 0 { '0' } else if d == 1 { '1' } else if d == 2 { '2' } else if d == 3 { '3' }
    else if d == 4 { '4' } else if d == 5 { '5' } else if d == 6 { '6' } else if d == 7 { '7' }
    else if d == 8 { '8' } else { '9' }
}

/// `n` written in decimal.
pub fn decimal_string(n: usize) -> (r: String)
    ensures
        r@ == decimal_digits(n as nat),
    decreases n,
{
    let c = digit(n % 10);
    if n < 10 {
        let mut s = String::new();
        s.push(c);
        assert(s@ =~= decimal_digits(n as nat));
        s
    } else {
        let mut s = decimal_string(n / 10);
        s.push(c);
        s
    }
}

fn strings(items: &[&str]) -> (r: Vec<String>)
    ensures
        args_view(r@) == items@.map_values(|s: &str| s@),
{
    let mut out: Vec<String> = Vec::new();
    let mut i: usize = 0;
    while i < items.len()
        invariant
            i <= items@.len(),
            args_view(out@) == items@.take(i as int).map_values(|s: &str| s@),
        decreases items@.len() - i,
    {
        let ghost before = out@;
        out.push(String::from_str(items[i]));
        assert(args_view(out@) =~= args_view(before).push(items@[i as int]@));
        assert(items@.take(i + 1).map_values(|s: &str| s@) =~= items@.take(i as int).map_values(
            |s: &str| s@).push(items@[i as int]@));
        i = i + 1;
    }
    assert(items@.take(items@.len() as int) =~= items@);
    out
}

fn append_all(args: &mut Vec<String>, more: &Vec<String>)
    ensures
        args_view(final(args)@) == args_view(old(args)@) + args_view(more@),
{
    let mut i: usize = 0;
    let ghost start = args_view(args@);
    while i < more.len()
        invariant
            i <= more@.len(),
            start == args_view(old(args)@),
            args_view(args@) == start + args_view(more@).take(i as int),
        decreases more@.len() - i,
    {
        let ghost before = args@;
        args.push(more[i].clone());
        assert(args_view(args@) =~= args_view(before).push(more@[i as int]@));
        assert(args_view(more@).take(i + 1) =~= args_view(more@).take(i as int).push(more@[i as int]@));
        i = i + 1;
    }
    assert(args_view(more@).take(more@.len() as int) =~= args_view(more@));
}

/// Arguments of `git add` for `files`.
pub fn git_add_args(files: &Vec<String>) -> (r: Vec<String>)
    ensures
        args_view(r@) == seq!["add"@] + args_view(files@),
{
    let mut args = strings(&["add"]);
    append_all(&mut args, files);
    args
}

/// Arguments of `git restore --staged` for `files`.
pub fn git_unstage_args(files: &Vec<String>) -> (r: Vec<String>)
    ensures
        args_view(r@) == seq!["restore"@, "--staged"@] + args_view(files@),
{
    let mut args = strings(&["restore", "--staged"]);
    append_all(&mut args, files);
    args
}

/// Arguments of `git restore` for `files`.
pub fn git_discard_args(files: &Vec<String>) -> (r: Vec<String>)
    ensures
        args_view(r@) == seq!["restore"@] + args_view(files@),
{
    let mut args = strings(&["restore"]);
    append_all(&mut args, files);
    args
}

/// Arguments of `git diff` for one file, of the index if `staged`.
pub fn git_diff_args(file: &str, staged: bool) -> (r: Vec<String>)
    ensures
        staged ==> args_view(r@) == seq!["diff"@, "--cached"@, "--"@, file@],
        !staged ==> args_view(r@) == seq!["diff"@, "--"@, file@],
{
    if staged {
        strings(&["diff", "--cached", "--", file])
    } else {
        strings(&["diff", "--", file])
    }
}

/// The `git log` format: hash, author, e-mail, timestamp, subject and
/// body, each ended by `\0`.
pub const LOG_FORMAT: &'static str = "--pretty=format:%H%x00%an%x00%ae%x00%at%x00%s%x00%b%x00";

/// Arguments of `git log` for the last `limit` commits.
pub fn git_log_args(limit: usize) -> (r: Vec<String>)
    ensures
        args_view(r@) == seq!["log"@, "-"@ + decimal_digits(limit as nat), LOG_FORMAT@, "-z"@],
{
    let count = String::from_str("-").concat(decimal_string(limit).as_str());
    let mut args = strings(&["log"]);
    let ghost b = args_view(args@);
    let ghost cv = count@;
    args.push(count);
    assert(args_view(args@) =~= b.push(cv));
    let rest = strings(&[LOG_FORMAT, "-z"]);
    append_all(&mut args, &rest);
    assert(args_view(args@) =~= seq!["log"@, "-"@ + decimal_digits(limit as nat), LOG_FORMAT@, "-z"@]);
    args
}

/// Arguments of `git push`, setting `origin/branch` as upstream if asked.
pub fn git_push_args(set_upstream: bool, branch: &str) -> (r: Vec<String>)
    ensures
        set_upstream ==> args_view(r@) == seq!["push"@, "-u"@, "origin"@, branch@],
        !set_upstream ==> args_view(r@) == seq!["push"@],
{
    if set_upstream {
        strings(&["push", "-u", "origin", branch])
    } else {
        strings(&["push"])
    }
}

/// Arguments of `git stash`, with a message if one is given.
pub fn git_stash_args(message: Option<&str>) -> (r: Vec<String>)
    ensures
        message matches Some(m) ==> args_view(r@) == seq!["stash"@, "push"@, "-m"@, m@],
        message is None ==> args_view(r@) == seq!["stash"@],
{
    match message {
        Some(m) => strings(&["stash", "push", "-m", m]),
        None => strings(&["stash"]),
    }
}

/// Arguments of `git branch -d`, or `-D` when forced.
pub fn git_delete_branch_args(name: &str, force: bool) -> (r: Vec<String>)
    ensures
        args_view(r@) == seq!["branch"@, if force { "-D"@ } else { "-d"@ }, name@],
{
    if force {
        strings(&["branch", "-D", name])
    } else {
        strings(&["branch", "-d", name])
    }
}

/// Arguments of `gh repo create`, public or private.
pub fn gh_repo_create_args(name: &str, description: &str, public: bool) -> (r: Vec<String>)
    ensures
        args_view(r@) == seq!["repo"@, "create"@, name@, "--description"@, description@,
            if public { "--public"@ } else { "--private"@ }],
{
    if public {
        strings(&["repo", "create", name, "--description", description, "--public"])
    } else {
        strings(&["repo", "create", name, "--description", description, "--private"])
    }
}

/// Arguments of `gh gist create` for `files`, public if asked.
pub fn gh_gist_create_args(files: &Vec<String>, description: &str, public: bool) -> (r: Vec<String>)
    ensures
        args_view(r@) == seq!["gist"@, "create"@] + args_view(files@) + seq!["--desc"@, description@]
            + if public { seq!["--public"@] } else { Seq::empty() },
{
    let mut args = strings(&["gist", "create"]);
    append_all(&mut args, files);
    let rest = if public { strings(&["--desc", description, "--public"]) } else { strings(&["--desc", description]) };
    append_all(&mut args, &rest);
    assert(args_view(args@) =~= seq!["gist"@, "create"@] + args_view(files@) + seq!["--desc"@, description@]
        + if public { seq!["--public"@] } else { Seq::<Seq<char>>::empty() });
    args
}

/// Arguments of `gh pr review` with the review `action` flag.
pub fn gh_pr_review_args(number: &str, action: &str, body: &str) -> (r: Vec<String>)
    ensures
        args_view(r@) == seq!["pr"@, "review"@, number@, "--"@ + action@, "--body"@, body@],
{
    let flag = String::from_str("--").concat(action);
    let mut args = strings(&["pr", "review", number]);
    let ghost b = args_view(args@);
    let ghost fv = flag@;
    args.push(flag);
    assert(args_view(args@) =~= b.push(fv));
    let rest = strings(&["--body", body]);
    append_all(&mut args, &rest);
    assert(args_view(args@) =~= seq!["pr"@, "review"@, number@, "--"@ + action@, "--body"@, body@]);
    args
}

/// Arguments of `gh pr merge` with the merge `method` flag.
pub fn gh_pr_merge_args(number: &str, method: &str) -> (r: Vec<String>)
    ensures
        args_view(r@) == seq!["pr"@, "merge"@, number@, "--"@ + method@],
{
    let flag = String::from_str("--").concat(method);
    let mut args = strings(&["pr", "merge", number]);
    let ghost b = args_view(args@);
    let ghost fv = flag@;
    args.push(flag);
    assert(args_view(args@) =~= b.push(fv));
    assert(args_view(args@) =~= seq!["pr"@, "merge"@, number@, "--"@ + method@]);
    args
}

/// The result of a `gh` command, given the output of the finished command
/// or the error that kept it from starting.
pub fn gh_result(run: Result<ProcessOutput, String>) -> (r: Result<String, String>)
    ensures
        run matches Ok(o) ==> result_view(r) == collected(o.success, o.stdout@, o.stderr@),
        run matches Err(e) ==> result_view(r) == Err::<Seq<char>, Seq<char>>(
            "Failed to execute gh command: "@ + e@),
{
    match run {
        Ok(output) => collect_output(&output),
        Err(e) => Err(String::from_str("Failed to execute gh command: ").concat(e.as_str())),
    }
}

} // verus!
