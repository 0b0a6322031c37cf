use vstd::prelude::*;

use crate::text::{
    chars_of, copy_range, find, find_chars, lines, lines_of, pieces_view, str_eq, string_from,
    trim, trim_chars,
};

verus! {

/// A marker comment found in a source file.
#[derive(Debug, Clone, PartialEq, Eq)]
pub struct TodoItem {
    pub file: String,
    pub line: usize,
    pub todo_type: String,
    pub text: String,
}

/// Mathematical form of [`TodoItem`].
pub struct TodoView {
    pub file: Seq<char>,
    pub line: int,
    pub todo_type: Seq<char>,
    pub text: Seq<char>,
}

impl View for TodoItem {
    type V = TodoView;

    open spec fn view(&self) -> TodoView {
        TodoView { file: self.file@, line: self.line as int, todo_type: self.todo_type@, text: self.text@ }
    }
}

/// The views of a sequence of markers.
pub open spec fn todos_view(v: Seq<TodoItem>) -> Seq<TodoView> {
    v.map_values(|t: TodoItem| t@)
}

/// What `str::to_lowercase` makes of a string.
pub uninterp spec fn lower_of(s: Seq<char>) -> Seq<char>;

/// Relies on `str::to_lowercase`: the result depends on the characters alone.
#[verifier::external_body]
fn to_lower(s: &str) -> (r: String)
    ensures
        r@ == lower_of(s@),
{
    s.to_lowercase()
}

/// The marker kinds, in the order they are tried, each with its keywords in
/// lower case, in the order they are tried.
pub open spec fn marker_kinds() -> Seq<(Seq<char>, Seq<Seq<char>>)> {
    seq![
        ("TODO"@, seq!["todo:"@, "todo"@, "@todo"@]),
        ("FIXME"@, seq!["fixme:"@, "fixme"@, "@fixme"@]),
        ("HACK"@, seq!["hack:"@, "hack"@, "@hack"@]),
        ("BUG"@, seq!["bug:"@, "bug"@, "@bug"@]),
        ("NOTE"@, seq!["note:"@, "note"@, "@note"@]),
    ]
}

/// The trimmed text of `line` after keyword `kw`, where `kw` occurs in the
/// lower-cased line and some text follows it.
pub open spec fn keyword_text(line: Seq<char>, lower: Seq<char>, kw: Seq<char>) -> Option<Seq<char>> {
    match find(lower, kw) {
        Some(p) => {
            let from = if p + kw.len() <= line.len() { p + kw.len() } else { line.len() as int };
            let t = trim(line.subrange(from, line.len() as int));
            if t.len() > 0 { Some(t) } else { None }
        },
        None => None,
    }
}

/// The text after the first of `kws` that is followed by some text.
pub open spec fn first_text(line: Seq<char>, lower: Seq<char>, kws: Seq<Seq<char>>) -> Option<Seq<char>>
    decreases kws.len(),
{
    if kws.len() == 0 {
        None
    } else {
        match keyword_text(line, lower, kws[0]) {
            Some(t) => Some(t),
            None => first_text(line, lower, kws.drop_first()),
        }
    }
}

/// The markers of `line` (line number `n`, from 1) for the first `k` kinds.
pub open spec fn line_markers(file: Seq<char>, n: int, line: Seq<char>, k: int) -> Seq<TodoView>
    decreases k,
{
    if k <= 0 {
        Seq::empty()
    } else {
        let rest = line_markers(file, n, line, k - 1);
        match first_text(line, lower_of(line), marker_kinds()[k - 1].1) {
            Some(t) => rest.push(TodoView { file, line: n, todo_type: marker_kinds()[k - 1].0, text: t }),
            None => rest,
        }
    }
}

/// The markers of the lines `ls`, line by line.
pub open spec fn markers_of(file: Seq<char>, ls: Seq<Seq<char>>) -> Seq<TodoView>
    decreases ls.len(),
{
    if ls.len() == 0 {
        Seq::empty()
    } else {
        markers_of(file, ls.drop_last()) + line_markers(file, ls.len() as int, ls.last(), 5)
    }
}

fn keyword_table() -> (r: Vec<(String, Vec<Vec<char>>)>)
    ensures
        r@.len() == 5,
        forall|i: int| 0 <= i < 5 ==> (#[trigger] r@[i]).0@ == marker_kinds()[i].0
            && pieces_view(r@[i].1@) == marker_kinds()[i].1,
{
    let mut r: Vec<(String, Vec<Vec<char>>)> = Vec::new();
    let mut t: Vec<Vec<char>> = Vec::new();
    t.push(chars_of("todo:"));
    t.push(chars_of("todo"));
    t.push(chars_of("@todo"));
    assert(pieces_view(t@) =~= marker_kinds()[0].1);
    r.push((String::from_str("TODO"), t));
    let mut t: Vec<Vec<char>> = Vec::new();
    t.push(chars_of("fixme:"));
    t.push(chars_of("fixme"));
    t.push(chars_of("@fixme"));
    assert(pieces_view(t@) =~= marker_kinds()[1].1);
    r.push((String::from_str("FIXME"), t));
    let mut t: Vec<Vec<char>> = Vec::new();
    t.push(chars_of("hack:"));
    t.push(chars_of("hack"));
    t.push(chars_of("@hack"));
    assert(pieces_view(t@) =~= marker_kinds()[2].1);
    r.push((String::from_str("HACK"), t));
    let mut t: Vec<Vec<char>> = Vec::new();
    t.push(chars_of("bug:"));
    t.push(chars_of("bug"));
    t.push(chars_of("@bug"));
    assert(pieces_view(t@) =~= marker_kinds()[3].1);
    r.push((String::from_str("BUG"), t));
    let mut t: Vec<Vec<char>> = Vec::new();
    t.push(chars_of("note:"));
    t.push(chars_of("note"));
    t.push(chars_of("@note"));
    assert(pieces_view(t@) =~= marker_kinds()[4].1);
    r.push((String::from_str("NOTE"), t));
    r
}

fn text_after(line: &Vec<char>, lower: &Vec<char>, kw: &Vec<char>) -> (r: Option<Vec<char>>)
    ensures
        r matches Some(t) ==> keyword_text(line@, lower@, kw@) == Some(t@),
        r is None ==> keyword_text(line@, lower@, kw@) is None,
{
    match find_chars(lower, kw) {
        None => None,
        Some(p) => {
            let n = line.len();
            let from = if p <= n && kw.len() <= n - p { p + kw.len() } else { n };
            let t = trim_chars(&copy_range(line, from, n));
            if t.len() > 0 {
                Some(t)
            } else {
                None
            }
        },
    }
}

/// The markers in the text `content` of `file`: for each line, for each
/// kind in turn, the text after the first of its keywords that occurs in
/// the lower-cased line and is followed by some text.
pub fn extract_todos(file: &str, content: &str) -> (r: Vec<TodoItem>)
    ensures
        todos_view(r@) == markers_of(file@, lines(content@)),
{
    let table = keyword_table();
    let ls = lines_of(&chars_of(content));
    let n_lines = ls.len();
    let ghost lv = pieces_view(ls@);
    let mut out: Vec<TodoItem> = Vec::new();
    let mut i: usize = 0;
    while i < ls.len()
        invariant
            lv == pieces_view(ls@),
            i <= ls@.len(),
            n_lines == ls@.len(),
            table@.len() == 5,
            forall|j: int| 0 <= j < 5 ==> (#[trigger] table@[j]).0@ == marker_kinds()[j].0
                && pieces_view(table@[j].1@) == marker_kinds()[j].1,
            todos_view(out@) == markers_of(file@, lv.take(i as int)),
        decreases ls@.len() - i,
    {
        assert(lv.take(i + 1).drop_last() =~= lv.take(i as int));
        let line = &ls[i];
        let lower = chars_of(to_lower(string_from(line).as_str()).as_str());
        let ghost start = todos_view(out@);
        let mut k: usize = 0;
        while k < 5
            invariant
                lv == pieces_view(ls@),
                i < ls@.len(),
                n_lines == ls@.len(),
                line@ == lv[i as int],
                lower@ == lower_of(line@),
                table@.len() == 5,
                forall|j: int| 0 <= j < 5 ==> (#[trigger] table@[j]).0@ == marker_kinds()[j].0
                    && pieces_view(table@[j].1@) == marker_kinds()[j].1,
                k <= 5,
                todos_view(out@) == start + line_markers(file@, i + 1, line@, k as int),
            decreases 5 - k,
        {
            let kws = &table[k].1;
            let ghost kv = pieces_view(kws@);
            let mut found: Option<Vec<char>> = None;
            let mut j: usize = 0;
            assert(kv.skip(0) =~= kv);
            while j < kws.len()
                invariant
                    kv == pieces_view(kws@),
                    j <= kws@.len(),
                    found is None ==> first_text(line@, lower@, kv) == first_text(line@, lower@, kv.skip(j as int)),
                    found matches Some(t) ==> first_text(line@, lower@, kv) == Some(t@),
                decreases kws@.len() - j,
            {
                if found.is_none() {
                    assert(kv.skip(j as int).drop_first() =~= kv.skip(j + 1));
                    assert(kv.skip(j as int)[0] == kws@[j as int]@);
                    found = text_after(line, &lower, &kws[j]);
                }
                j = j + 1;
            }
            if found.is_none() {
                assert(kv.skip(kws@.len() as int).len() == 0);
            }
            match found {
                Some(t) => {
                    let item = TodoItem {
                        file: String::from_str(file),
                        line: i + 1,
                        todo_type: table[k].0.clone(),
                        text: string_from(&t),
                    };
                    let ghost before = out@;
                    out.push(item);
                    assert(todos_view(out@) =~= todos_view(before).push(item@));
                },
                None => {},
            }
            k = k + 1;
        }
        i = i + 1;
    }
    assert(lv.take(ls@.len() as int) =~= lv);
    out
}

/// The rank of a marker kind when markers are listed: FIXME and BUG first,
/// then TODO, HACK and NOTE, then anything else.
pub open spec fn priority(todo_type: Seq<char>) -> int {
    if todo_type == "FIXME"@ || todo_type == "BUG"@ {
        0
    } else if todo_type == "TODO"@ {
        1
    } else if todo_type == "HACK"@ {
        2
    } else if todo_type == "NOTE"@ {
        3
    } else {
        4
    }
}

/// The markers of rank `p`, in the order given.
pub open spec fn of_rank(s: Seq<TodoView>, p: int) -> Seq<TodoView> {
    s.filter(|t: TodoView| priority(t.todo_type) == p)
}

/// The markers ordered by rank, keeping the order given within a rank.
pub open spec fn by_priority(s: Seq<TodoView>) -> Seq<TodoView> {
    of_rank(s, 0) + of_rank(s, 1) + of_rank(s, 2) + of_rank(s, 3) + of_rank(s, 4)
}

proof fn lemma_of_rank_all(s: Seq<TodoView>, p: int)
    ensures
        forall|i: int| 0 <= i < of_rank(s, p).len() ==> priority((#[trigger] of_rank(s, p)[i]).todo_type) == p,
{
    s.filter_lemma(|t: TodoView| priority(t.todo_type) == p);
}

/// Markers come out by rank: an earlier marker never has a later rank
/// than a marker after it.
pub proof fn law_priority_order(s: Seq<TodoView>)
    ensures
        forall|i: int, j: int| 0 <= i < j < by_priority(s).len() ==>
            priority((#[trigger] by_priority(s)[i]).todo_type) <= priority((#[trigger] by_priority(s)[j]).todo_type),
{
    let b0 = of_rank(s, 0);
    let b1 = of_rank(s, 1);
    let b2 = of_rank(s, 2);
    let b3 = of_rank(s, 3);
    let b4 = of_rank(s, 4);
    lemma_of_rank_all(s, 0);
    lemma_of_rank_all(s, 1);
    lemma_of_rank_all(s, 2);
    lemma_of_rank_all(s, 3);
    lemma_of_rank_all(s, 4);
    let r = by_priority(s);
    let c1 = b0.len() as int;
    let c2 = c1 + b1.len();
    let c3 = c2 + b2.len();
    let c4 = c3 + b3.len();
    assert forall|i: int| 0 <= i < r.len() implies priority((#[trigger] r[i]).todo_type) == (if i < c1 {
        0int
    } else if i < c2 {
        1int
    } else if i < c3 {
        2int
    } else if i < c4 {
        3int
    } else {
        4int
    }) by {
        if i < c1 {
            assert(r[i] == b0[i]);
        } else if i < c2 {
            assert(r[i] == b1[i - c1]);
        } else if i < c3 {
            assert(r[i] == b2[i - c2]);
        } else if i < c4 {
            assert(r[i] == b3[i - c3]);
        } else {
            assert(r[i] == b4[i - c4]);
        }
    }
}

fn rank(todo_type: &str) -> (r: usize)
    ensures
        r == priority(todo_type@),
{
    if str_eq(todo_type, "FIXME") || str_eq(todo_type, "BUG") {
        0
    } else if str_eq(todo_type, "TODO") {
        1
    } else if str_eq(todo_type, "HACK") {
        2
    } else if str_eq(todo_type, "NOTE") {
        3
    } else {
        4
    }
}

proof fn lemma_of_rank_step(s: Seq<TodoView>, k: int, p: int)
    requires
        0 <= k < s.len(),
    ensures
        of_rank(s.take(k + 1), p) == if priority(s[k].todo_type) == p {
            of_rank(s.take(k), p).push(s[k])
        } else {
            of_rank(s.take(k), p)
        },
{
    reveal(Seq::filter);
    assert(s.take(k + 1).drop_last() =~= s.take(k));
}

/// Orders markers by rank, FIXME and BUG first; markers of one rank keep
/// their order.
pub fn sort_by_priority(items: Vec<TodoItem>) -> (r: Vec<TodoItem>)
    ensures
        todos_view(r@) == by_priority(todos_view(items@)),
{
    let ghost all = todos_view(items@);
    let mut rest = items;
    let mut rev: Vec<TodoItem> = Vec::new();
    while rest.len() > 0
        invariant
            all.len() == rest@.len() + rev@.len(),
            forall|j: int| 0 <= j < rest@.len() ==> rest@[j]@ == #[trigger] all[j],
            forall|j: int| 0 <= j < rev@.len() ==> rev@[j]@ == all[all.len() - 1 - j],
        decreases rest@.len(),
    {
        let x = rest.pop().unwrap();
        rev.push(x);
    }
    let mut b0: Vec<TodoItem> = Vec::new();
    let mut b1: Vec<TodoItem> = Vec::new();
    let mut b2: Vec<TodoItem> = Vec::new();
    let mut b3: Vec<TodoItem> = Vec::new();
    let mut b4: Vec<TodoItem> = Vec::new();
    proof {
        reveal(Seq::filter);
        assert(all.take(0) =~= Seq::<TodoView>::empty());
    }
    while rev.len() > 0
        invariant
            rev@.len() <= all.len(),
            forall|j: int| 0 <= j < rev@.len() ==> rev@[j]@ == all[all.len() - 1 - j],
            todos_view(b0@) == of_rank(all.take(all.len() - rev@.len()), 0),
            todos_view(b1@) == of_rank(all.take(all.len() - rev@.len()), 1),
            todos_view(b2@) == of_rank(all.take(all.len() - rev@.len()), 2),
            todos_view(b3@) == of_rank(all.take(all.len() - rev@.len()), 3),
            todos_view(b4@) == of_rank(all.take(all.len() - rev@.len()), 4),
        decreases rev@.len(),
    {
        let ghost k = all.len() - rev@.len();
        let x = rev.pop().unwrap();
        assert(x@ == all[k]);
        proof {
            lemma_of_rank_step(all, k, 0);
            lemma_of_rank_step(all, k, 1);
            lemma_of_rank_step(all, k, 2);
            lemma_of_rank_step(all, k, 3);
            lemma_of_rank_step(all, k, 4);
        }
        let p = rank(x.todo_type.as_str());
        let ghost xv = x@;
        if p == 0 {
            let ghost before = b0@;
            b0.push(x);
            assert(todos_view(b0@) =~= todos_view(before).push(xv));
        } else if p == 1 {
            let ghost before = b1@;
            b1.push(x);
            assert(todos_view(b1@) =~= todos_view(before).push(xv));
        } else if p == 2 {
            let ghost before = b2@;
            b2.push(x);
            assert(todos_view(b2@) =~= todos_view(before).push(xv));
        } else if p == 3 {
            let ghost before = b3@;
            b3.push(x);
            assert(todos_view(b3@) =~= todos_view(before).push(xv));
        } else {
            let ghost before = b4@;
            b4.push(x);
            assert(todos_view(b4@) =~= todos_view(before).push(xv));
        }
    }
    assert(all.take(all.len() as int) =~= all);
    let ghost v0 = todos_view(b0@);
    let ghost v1 = todos_view(b1@);
    let ghost v2 = todos_view(b2@);
    let ghost v3 = todos_view(b3@);
    let ghost v4 = todos_view(b4@);
    b0.append(&mut b1);
    b0.append(&mut b2);
    b0.append(&mut b3);
    b0.append(&mut b4);
    assert(todos_view(b0@) =~= v0 + v1 + v2 + v3 + v4);
    b0
}

/// The file extensions whose files are searched for markers, in lower case.
pub open spec fn scanned_extensions() -> Seq<Seq<char>> {
    seq![
        "rs"@, "js"@, "ts"@, "jsx"@, "tsx"@, "py"@, "go"@, "java"@, "c"@, "cpp"@, "h"@, "hpp"@,
        "cs"@, "php"@, "rb"@, "swift"@, "kt"@, "scala"@, "vue"@, "svelte"@, "css"@, "scss"@,
        "sass"@, "less"@, "html"@, "xml"@, "yaml"@, "yml"@, "toml"@, "json"@, "md"@, "txt"@,
        "sh"@, "bash"@, "zsh"@, "fish"@, "lua"@, "vim"@, "sql"@,
    ]
}

/// Whether files with extension `ext` are searched for markers; the
/// extension is compared in lower case.
pub fn is_scanned_extension(ext: &str) -> (r: bool)
    ensures
        r == scanned_extensions().contains(lower_of(ext@)),
{
    let lower = to_lower(ext);
    let e = lower.as_str();
    let names = [
        "rs", "js", "ts", "jsx", "tsx", "py", "go", "java", "c", "cpp", "h", "hpp", "cs", "php",
        "rb", "swift", "kt", "scala", "vue", "svelte", "css", "scss", "sass", "less", "html",
        "xml", "yaml", "yml", "toml", "json", "md", "txt", "sh", "bash", "zsh", "fish", "lua",
        "vim", "sql",
    ];
    assert(names@.map_values(|s: &str| s@) =~= scanned_extensions());
    let mut i: usize = 0;
    while i < names.len()
        invariant
            i <= names@.len(),
            e@ == lower_of(ext@),
            names@.map_values(|s: &str| s@) == scanned_extensions(),
            forall|j: int| 0 <= j < i ==> scanned_extensions()[j] != e@,
        decreases names@.len() - i,
    {
        if str_eq(names[i], e) {
            assert(scanned_extensions()[i as int] == e@);
            assert(scanned_extensions().contains(e@));
            return true;
        }
        i = i + 1;
    }
    false
}

/// `s` in lower case, as `str::to_lowercase` makes it.
pub fn lowercase(s: &str) -> (r: String)
    ensures
        r@ == lower_of(s@),
{
    to_lower(s)
}

} // verus!
