use vstd::prelude::*;

use crate::models::FileNode;
use crate::text::str_eq;

verus! {

/// Whether `a` comes before `b` in code-point order.
pub open spec fn name_lt(a: Seq<char>, b: Seq<char>) -> bool
    decreases a.len(),
{
    if a.len() == 0 {
        b.len() > 0
    } else if b.len() == 0 {
        false
    } else if a[0] != b[0] {
        a[0] < b[0]
    } else {
        name_lt(a.drop_first(), b.drop_first())
    }
}

/// Whether entry `a` is listed before entry `b`: folders first, then by name.
pub open spec fn node_lt(a: FileNode, b: FileNode) -> bool {
    (a.is_dir && !b.is_dir) || (a.is_dir == b.is_dir && name_lt(a.name@, b.name@))
}

/// `x` placed in the listing `s` before the first entry it precedes.
pub open spec fn insert_node(s: Seq<FileNode>, x: FileNode) -> Seq<FileNode>
    decreases s.len(),
{
    if s.len() == 0 {
        seq![x]
    } else if node_lt(x, s[0]) {
        seq![x] + s
    } else {
        seq![s[0]] + insert_node(s.drop_first(), x)
    }
}

/// The entries `s` listed folders first, then by name; entries that compare
/// equal keep their order.
pub open spec fn listing(s: Seq<FileNode>) -> Seq<FileNode>
    decreases s.len(),
{
    if s.len() == 0 {
        s
    } else {
        insert_node(listing(s.drop_last()), s.last())
    }
}

fn less_name(a: &str, b: &str) -> (r: bool)
    ensures
        r == name_lt(a@, b@),
{
    let x = crate::text::chars_of(a);
    let y = crate::text::chars_of(b);
    let mut i: usize = 0;
    assert(x@.skip(0) =~= x@);
    assert(y@.skip(0) =~= y@);
    while i < x.len() && i < y.len() && x[i] == y[i]
        invariant
            i <= x@.len(),
            i <= y@.len(),
            name_lt(a@, b@) == name_lt(x@.skip(i as int), y@.skip(i as int)),
            x@ == a@,
            y@ == b@,
        decreases x@.len() - i,
    {
        assert(x@.skip(i as int).drop_first() =~= x@.skip(i + 1));
        assert(y@.skip(i as int).drop_first() =~= y@.skip(i + 1));
        i = i + 1;
    }
    if i == x.len() {
        i < y.len()
    } else if i == y.len() {
        false
    } else {
        x[i] < y[i]
    }
}

proof fn lemma_insert_node_at(s: Seq<FileNode>, x: FileNode, pos: int)
    requires
        0 <= pos <= s.len(),
        forall|j: int| 0 <= j < pos ==> !node_lt(x, #[trigger] s[j]),
        pos == s.len() || node_lt(x, s[pos]),
    ensures
        insert_node(s, x) == s.insert(pos, x),
    decreases pos,
{
    if pos == 0 {
        if s.len() == 0 {
            assert(s.insert(0, x) =~= seq![x]);
        } else {
            assert(s.insert(0, x) =~= seq![x] + s);
        }
    } else {
        let t = s.drop_first();
        assert forall|j: int| 0 <= j < pos - 1 implies !node_lt(x, #[trigger] t[j]) by {
            assert(t[j] == s[j + 1]);
        }
        lemma_insert_node_at(t, x, pos - 1);
        assert(seq![s[0]] + t.insert(pos - 1, x) =~= s.insert(pos, x));
    }
}

/// Lists directory entries folders first, then by name.
pub fn order_entries(nodes: Vec<FileNode>) -> (r: Vec<FileNode>)
    ensures
        r@ == listing(nodes@),
{
    let ghost all = nodes@;
    let mut rest = nodes;
    let mut rev: Vec<FileNode> = Vec::new();
    while rest.len() > 0
        invariant
            all.len() == rest@.len() + rev@.len(),
            forall|j: int| 0 <= j < rest@.len() ==> rest@[j] == #[trigger] all[j],
            forall|j: int| 0 <= j < rev@.len() ==> rev@[j] == all[all.len() - 1 - j],
        decreases rest@.len(),
    {
        let x = rest.pop().unwrap();
        rev.push(x);
    }
    let mut out: Vec<FileNode> = Vec::new();
    assert(all.take(0) =~= Seq::<FileNode>::empty());
    while rev.len() > 0
        invariant
            rev@.len() <= all.len(),
            forall|j: int| 0 <= j < rev@.len() ==> rev@[j] == all[all.len() - 1 - j],
            out@ == listing(all.take(all.len() - rev@.len())),
        decreases rev@.len(),
    {
        let ghost k = all.len() - rev@.len();
        let x = rev.pop().unwrap();
        assert(x == all[k]);
        assert(all.take(k + 1).drop_last() =~= all.take(k));
        let ghost ov = out@;
        let mut pos: usize = 0;
        while pos < out.len() && !((x.is_dir && !out[pos].is_dir) || (x.is_dir == out[pos].is_dir
            && less_name(x.name.as_str(), out[pos].name.as_str())))
            invariant
                pos <= out@.len(),
                ov == out@,
                forall|j: int| 0 <= j < pos ==> !node_lt(x, #[trigger] ov[j]),
            decreases out@.len() - pos,
        {
            pos = pos + 1;
        }
        proof {
            lemma_insert_node_at(ov, x, pos as int);
        }
        out.insert(pos, x);
    }
    assert(all.take(all.len() as int) =~= all);
    out
}

/// Whether no file comes before a folder in `s`.
pub open spec fn folders_first(s: Seq<FileNode>) -> bool {
    forall|i: int, j: int| 0 <= i < j < s.len() ==> !(!(#[trigger] s[i]).is_dir && (#[trigger] s[j]).is_dir)
}

proof fn lemma_insert_node(s: Seq<FileNode>, x: FileNode)
    requires
        folders_first(s),
    ensures
        folders_first(insert_node(s, x)),
        insert_node(s, x).to_multiset() == s.to_multiset().insert(x),
    decreases s.len(),
{
    broadcast use vstd::seq_lib::group_to_multiset_ensures;
    if s.len() == 0 {
        assert(seq![x] =~= Seq::<FileNode>::empty().push(x));
    } else if node_lt(x, s[0]) {
        assert(seq![x] + s =~= s.insert(0, x));
        assert forall|i: int, j: int| 0 <= i < j < (seq![x] + s).len() implies !(!(#[trigger] (seq![x] + s)[i]).is_dir
            && (#[trigger] (seq![x] + s)[j]).is_dir) by {
            if i > 0 {
                assert((seq![x] + s)[i] == s[i - 1] && (seq![x] + s)[j] == s[j - 1]);
            } else if !x.is_dir {
                assert(!s[0].is_dir);
                assert((seq![x] + s)[j] == s[j - 1]);
                if j - 1 > 0 {
                    assert(!(!s[0].is_dir && s[j - 1].is_dir));
                }
            }
        }
    } else {
        let t = s.drop_first();
        assert(folders_first(t)) by {
            assert forall|i: int, j: int| 0 <= i < j < t.len() implies !(!(#[trigger] t[i]).is_dir && (#[trigger] t[j]).is_dir) by {
                assert(t[i] == s[i + 1] && t[j] == s[j + 1]);
            }
        }
        lemma_insert_node(t, x);
        let u = insert_node(t, x);
        let r = seq![s[0]] + u;
        assert forall|i: int, j: int| 0 <= i < j < r.len() implies !(!(#[trigger] r[i]).is_dir && (#[trigger] r[j]).is_dir) by {
            if i == 0 {
                let k = j - 1;
                assert(r[j] == u[k]);
                assert(u.to_multiset().count(u[k]) > 0);
                if u[k] != x {
                    assert(t.to_multiset().count(u[k]) > 0);
                    assert(t.contains(u[k]));
                    let m = choose|m: int| 0 <= m < t.len() && t[m] == u[k];
                    assert(s[m + 1] == t[m]);
                }
            } else {
                assert(r[i] == u[i - 1] && r[j] == u[j - 1]);
            }
        }
        assert(s =~= seq![s[0]] + t);
        vstd::seq_lib::lemma_multiset_commutative(seq![s[0]], u);
        vstd::seq_lib::lemma_multiset_commutative(seq![s[0]], t);
    }
}

/// A directory listing holds the entries it was given, each as often as
/// given, and lists every folder before every file.
pub proof fn law_listing_folders_first(s: Seq<FileNode>)
    ensures
        folders_first(listing(s)),
        listing(s).to_multiset() == s.to_multiset(),
    decreases s.len(),
{
    broadcast use vstd::seq_lib::group_to_multiset_ensures;
    if s.len() > 0 {
        law_listing_folders_first(s.drop_last());
        lemma_insert_node(listing(s.drop_last()), s.last());
        assert(s =~= s.drop_last().push(s.last()));
    }
}

/// Whether a folder is left out of the project tree: `node_modules` and `.git`.
pub fn is_heavy_folder(name: &str) -> (r: bool)
    ensures
        r == (name@ == "node_modules"@ || name@ == ".git"@),
{
    str_eq(name, "node_modules") || str_eq(name, ".git")
}

/// Whether a fuzzy file search descends into or reports the entry `name`:
/// not hidden, and none of `node_modules`, `target`, `dist`.
pub fn is_searched_entry(name: &str) -> (r: bool)
    ensures
        r == !((name@.len() > 0 && name@[0] == '.') || name@ == "node_modules"@ || name@ == "target"@
            || name@ == "dist"@),
{
    let hidden = name.unicode_len() > 0 && name.get_char(0) == '.';
    !(hidden || str_eq(name, "node_modules") || str_eq(name, "target") || str_eq(name, "dist"))
}

/// Whether a marker search descends into or reads the entry `name`: what a
/// fuzzy search would, and neither `build` nor `__pycache__`.
pub fn is_scanned_entry(name: &str) -> (r: bool)
    ensures
        r == (!((name@.len() > 0 && name@[0] == '.') || name@ == "node_modules"@ || name@ == "target"@
            || name@ == "dist"@) && name@ != "build"@ && name@ != "__pycache__"@),
{
    is_searched_entry(name) && !str_eq(name, "build") && !str_eq(name, "__pycache__")
}

} // verus!
