use fuzzy_matcher::FuzzyMatcher;
use vstd::prelude::*;

use crate::models::{hits_view, SearchResult, SearchResultView};
use crate::text::{chars_of, find, find_chars, lines, lines_of, pieces_view, string_from, trim, trim_chars};
use crate::todos::{lower_of, lowercase};

verus! {

/// A file whose path matched a fuzzy query, with the match score.
#[derive(Debug, Clone, PartialEq, Eq)]
pub struct FileResult {
    pub path: String,
    pub score: i64,
}

/// Mathematical form of [`FileResult`].
pub struct FileResultView {
    pub path: Seq<char>,
    pub score: i64,
}

impl View for FileResult {
    type V = FileResultView;

    open spec fn view(&self) -> FileResultView {
        FileResultView { path: self.path@, score: self.score }
    }
}

/// The views of a sequence of results.
pub open spec fn results_view(v: Seq<FileResult>) -> Seq<FileResultView> {
    v.map_values(|r: FileResult| r@)
}

/// The score that the skim fuzzy matcher gives `choice` for `pattern`, if it matches.
pub uninterp spec fn skim_score(choice: Seq<char>, pattern: Seq<char>) -> Option<i64>;

/// Relies on `fuzzy_matcher::skim::SkimMatcherV2` in its default
/// configuration: `fuzzy_match` depends on the two strings alone, and an
/// empty pattern matches with score 0.
#[verifier::external_body]
fn fuzzy_score(choice: &str, pattern: &str) -> (r: Option<i64>)
    ensures
        r == skim_score(choice@, pattern@),
        pattern@.len() == 0 ==> r == Some(0i64),
{
    fuzzy_matcher::skim::SkimMatcherV2::default().fuzzy_match(choice, pattern)
}

/// `s` with every non-overlapping occurrence of `pat` removed, read from the left.
pub open spec fn remove_all(s: Seq<char>, pat: Seq<char>) -> Seq<char>
    decreases s.len(),
{
    if pat.len() == 0 || s.len() < pat.len() {
        s
    } else if s.subrange(0, pat.len() as int) == pat {
        remove_all(s.subrange(pat.len() as int, s.len() as int), pat)
    } else {
        seq![s[0]] + remove_all(s.drop_first(), pat)
    }
}

/// `s` with every backslash turned into a slash.
pub open spec fn forward_slashes(s: Seq<char>) -> Seq<char> {
    s.map_values(|c: char| if c == '\\' { '/' } else { c })
}

/// `s` without its leading slashes.
pub open spec fn strip_leading_slashes(s: Seq<char>) -> Seq<char>
    decreases s.len(),
{
    if s.len() > 0 && s[0] == '/' {
        strip_leading_slashes(s.drop_first())
    } else {
        s
    }
}

/// The form of `path` that is matched against a query: the root removed
/// wherever it occurs, separators turned into slashes, no leading slash.
pub open spec fn match_form(path: Seq<char>, root: Seq<char>) -> Seq<char> {
    strip_leading_slashes(forward_slashes(remove_all(path, root)))
}

proof fn lemma_remove_all_skip(s: Seq<char>, pat: Seq<char>, i: int)
    requires
        0 <= i < s.len(),
        pat.len() > 0,
        !(i + pat.len() <= s.len() && s.subrange(i, i + pat.len()) == pat),
    ensures
        remove_all(s.skip(i), pat) == seq![s[i]] + remove_all(s.skip(i + 1), pat),
{
    assert(s.skip(i).drop_first() =~= s.skip(i + 1));
    if s.skip(i).len() >= pat.len() {
        assert(s.skip(i).subrange(0, pat.len() as int) =~= s.subrange(i, i + pat.len()));
    }
}

proof fn lemma_remove_all_match(s: Seq<char>, pat: Seq<char>, i: int)
    requires
        0 <= i,
        pat.len() > 0,
        i + pat.len() <= s.len(),
        s.subrange(i, i + pat.len()) == pat,
    ensures
        remove_all(s.skip(i), pat) == remove_all(s.skip(i + pat.len()), pat),
{
    assert(s.skip(i).subrange(0, pat.len() as int) =~= s.subrange(i, i + pat.len()));
    assert(s.skip(i).subrange(pat.len() as int, s.skip(i).len() as int) =~= s.skip(i + pat.len()));
}

fn match_here(s: &Vec<char>, pat: &Vec<char>, i: usize) -> (r: bool)
    requires
        i <= s@.len(),
    ensures
        r == (i + pat@.len() <= s@.len() && s@.subrange(i as int, i + pat@.len()) == pat@),
{
    let n = s.len();
    if pat.len() > n - i {
        return false;
    }
    let mut j: usize = 0;
    while j < pat.len()
        invariant
            i + pat@.len() <= s@.len() == n,
            j <= pat@.len(),
            forall|k: int| 0 <= k < j ==> s@[i + k] == pat@[k],
        decreases pat@.len() - j,
    {
        if s[i + j] != pat[j] {
            assert(s@.subrange(i as int, i + pat@.len())[j as int] != pat@[j as int]);
            return false;
        }
        j = j + 1;
    }
    assert(s@.subrange(i as int, i + pat@.len()) =~= pat@);
    true
}

/// The form of `path` that is matched against a query, for a walk from `root`.
pub fn match_path(path: &str, root: &str) -> (r: String)
    ensures
        r@ == match_form(path@, root@),
{
    let s = chars_of(path);
    let pat = chars_of(root);
    let mut removed: Vec<char> = Vec::new();
    if pat.len() == 0 {
        removed = s;
    } else {
        let mut i: usize = 0;
        assert(s@.skip(0) =~= s@);
        while i < s.len()
            invariant
                pat@.len() > 0,
                i <= s@.len(),
                remove_all(s@, pat@) == removed@ + remove_all(s@.skip(i as int), pat@),
            decreases s@.len() - i,
        {
            if match_here(&s, &pat, i) {
                proof {
                    lemma_remove_all_match(s@, pat@, i as int);
                }
                i = i + pat.len();
            } else {
                proof {
                    lemma_remove_all_skip(s@, pat@, i as int);
                }
                let ghost before = removed@;
                removed.push(s[i]);
                assert(removed@ + remove_all(s@.skip(i + 1), pat@) =~= before + (seq![s@[i as int]]
                    + remove_all(s@.skip(i + 1), pat@)));
                i = i + 1;
            }
        }
        assert(s@.skip(s@.len() as int) =~= Seq::<char>::empty());
        assert(removed@ + Seq::<char>::empty() =~= removed@);
    }
    let ghost rv = removed@;
    let mut k: usize = 0;
    while k < removed.len()
        invariant
            k <= removed@.len() == rv.len(),
            forall|j: int| 0 <= j < k ==> removed@[j] == forward_slashes(rv)[j],
            forall|j: int| k <= j < removed@.len() ==> removed@[j] == rv[j],
        decreases rv.len() - k,
    {
        if removed[k] == '\\' {
            removed.set(k, '/');
        }
        k = k + 1;
    }
    assert(removed@ =~= forward_slashes(rv));
    let mut lo: usize = 0;
    assert(removed@.skip(0) =~= removed@);
    while lo < removed.len() && removed[lo] == '/'
        invariant
            lo <= removed@.len(),
            strip_leading_slashes(removed@) == strip_leading_slashes(removed@.skip(lo as int)),
        decreases removed@.len() - lo,
    {
        assert(removed@.skip(lo as int).drop_first() =~= removed@.skip(lo + 1));
        lo = lo + 1;
    }
    assert(removed@.skip(lo as int) =~= removed@.subrange(lo as int, removed@.len() as int));
    crate::text::string_of(&removed, lo, removed.len())
}

/// The most results a fuzzy file search returns.
pub const MAX_FUZZY_RESULTS: usize = 50;

/// The matching paths among `paths`, in order, with their scores.
pub open spec fn scored(paths: Seq<Seq<char>>, root: Seq<char>, query: Seq<char>) -> Seq<FileResultView>
    decreases paths.len(),
{
    if paths.len() == 0 {
        Seq::empty()
    } else {
        let rest = scored(paths.drop_last(), root, query);
        match skim_score(match_form(paths.last(), root), query) {
            Some(score) => rest.push(FileResultView { path: paths.last(), score }),
            None => rest,
        }
    }
}

/// `x` placed in `s` after every result that scores at least as high.
pub open spec fn insert_desc(s: Seq<FileResultView>, x: FileResultView) -> Seq<FileResultView>
    decreases s.len(),
{
    if s.len() == 0 {
        seq![x]
    } else if s[0].score < x.score {
        seq![x] + s
    } else {
        seq![s[0]] + insert_desc(s.drop_first(), x)
    }
}

/// `s` ordered by descending score; results with equal scores keep their order.
pub open spec fn sort_desc(s: Seq<FileResultView>) -> Seq<FileResultView>
    decreases s.len(),
{
    if s.len() == 0 {
        s
    } else {
        insert_desc(sort_desc(s.drop_last()), s.last())
    }
}

/// The best `MAX_FUZZY_RESULTS` matches among `paths`, best first.
pub open spec fn top_matches(paths: Seq<Seq<char>>, root: Seq<char>, query: Seq<char>) -> Seq<FileResultView> {
    let s = sort_desc(scored(paths, root, query));
    if s.len() <= 50 {
        s
    } else {
        s.take(50)
    }
}

proof fn lemma_insert_at(s: Seq<FileResultView>, x: FileResultView, pos: int)
    requires
        0 <= pos <= s.len(),
        forall|j: int| 0 <= j < pos ==> (#[trigger] s[j]).score >= x.score,
        pos == s.len() || s[pos].score < x.score,
    ensures
        insert_desc(s, x) == s.insert(pos, x),
    decreases pos,
{
    if pos == 0 {
        if s.len() == 0 {
            assert(s.insert(0, x) =~= seq![x]);
        } else {
            assert(s.insert(0, x) =~= seq![x] + s);
        }
    } else {
        let t = s.drop_first();
        assert forall|j: int| 0 <= j < pos - 1 implies (#[trigger] t[j]).score >= x.score by {
            assert(t[j] == s[j + 1]);
        }
        lemma_insert_at(t, x, pos - 1);
        assert(seq![s[0]] + t.insert(pos - 1, x) =~= s.insert(pos, x));
    }
}

/// The best matches of `query` among the files `paths` found under `root`:
/// each path is matched in the form `match_form` gives it; results come
/// best first, equal scores in the order of `paths`, at most
/// `MAX_FUZZY_RESULTS` of them.
pub fn fuzzy_rank(root: &str, paths: &Vec<String>, query: &str) -> (r: Vec<FileResult>)
    ensures
        results_view(r@) == top_matches(paths@.map_values(|p: String| p@), root@, query@),
{
    let ghost pv = paths@.map_values(|p: String| p@);
    let ghost found: Seq<FileResultView> = Seq::empty();
    let mut out: Vec<FileResult> = Vec::new();
    let mut i: usize = 0;
    while i < paths.len()
        invariant
            pv == paths@.map_values(|p: String| p@),
            i <= paths@.len(),
            results_view(out@) == sort_desc(scored(pv.take(i as int), root@, query@)),
        decreases paths@.len() - i,
    {
        assert(pv.take(i + 1).drop_last() =~= pv.take(i as int));
        assert(pv.take(i + 1).last() == paths@[i as int]@);
        let ghost prev = scored(pv.take(i as int), root@, query@);
        let form = match_path(paths[i].as_str(), root);
        match fuzzy_score(form.as_str(), query) {
            Some(score) => {
                let x = FileResult { path: paths[i].clone(), score };
                let ghost ov = results_view(out@);
                let mut pos: usize = 0;
                while pos < out.len() && out[pos].score >= score
                    invariant
                        pos <= out@.len(),
                        ov == results_view(out@),
                        forall|j: int| 0 <= j < pos ==> (#[trigger] ov[j]).score >= score,
                    decreases out@.len() - pos,
                {
                    pos = pos + 1;
                }
                proof {
                    lemma_insert_at(ov, x@, pos as int);
                }
                let ghost xv = x@;
                out.insert(pos, x);
                assert(results_view(out@) =~= ov.insert(pos as int, xv));
                assert(scored(pv.take(i + 1), root@, query@) == prev.push(xv));
                assert(prev.push(xv).drop_last() =~= prev);
            },
            None => {},
        }
        i = i + 1;
    }
    assert(pv.take(paths@.len() as int) =~= pv);
    let ghost all = results_view(out@);
    out.truncate(MAX_FUZZY_RESULTS);
    assert(results_view(out@) =~= (if all.len() <= 50 { all } else { all.take(50) }));
    out
}

/// A content search stops as soon as it holds more results than this.
pub const SEARCH_RESULT_LIMIT: usize = 1000;

/// The lines of `ls` whose lower-cased form contains `query_lower`, as
/// results for `file` with 1-based line numbers and trimmed text.
pub open spec fn line_hits(file: Seq<char>, ls: Seq<Seq<char>>, query_lower: Seq<char>) -> Seq<SearchResultView>
    decreases ls.len(),
{
    if ls.len() == 0 {
        Seq::empty()
    } else {
        let rest = line_hits(file, ls.drop_last(), query_lower);
        if find(lower_of(ls.last()), query_lower) is Some {
            rest.push(SearchResultView { file, line: ls.len() as int, content: trim(ls.last()) })
        } else {
            rest
        }
    }
}

proof fn lemma_hits_prefix(file: Seq<char>, ls: Seq<Seq<char>>, q: Seq<char>, k: int)
    requires
        0 <= k <= ls.len(),
    ensures
        line_hits(file, ls.take(k), q).len() <= line_hits(file, ls, q).len(),
        line_hits(file, ls, q).take(line_hits(file, ls.take(k), q).len() as int) == line_hits(file, ls.take(k), q),
    decreases ls.len(),
{
    if k == ls.len() {
        assert(ls.take(k) =~= ls);
        assert(line_hits(file, ls, q).take(line_hits(file, ls, q).len() as int) =~= line_hits(file, ls, q));
    } else {
        assert(ls.drop_last().take(k) =~= ls.take(k));
        lemma_hits_prefix(file, ls.drop_last(), q, k);
        let a = line_hits(file, ls.take(k), q);
        let b = line_hits(file, ls.drop_last(), q);
        assert(line_hits(file, ls, q).take(a.len() as int) =~= b.take(a.len() as int));
    }
}

/// Adds to `results` the lines of `content` (the text of `file`) whose
/// lower-cased form contains `query_lower`, stopping as soon as `results`
/// holds more than `SEARCH_RESULT_LIMIT`; reports whether it stopped so.
pub fn search_content(file: &str, content: &str, query_lower: &str, results: &mut Vec<SearchResult>) -> (stop: bool)
    requires
        old(results)@.len() <= SEARCH_RESULT_LIMIT,
    ensures
        ({
            let hits = line_hits(file@, lines(content@), query_lower@);
            let room = SEARCH_RESULT_LIMIT + 1 - old(results)@.len();
            hits_view(final(results)@) == hits_view(old(results)@) + (if hits.len() <= room {
                hits
            } else {
                hits.take(room)
            })
        }),
        stop == (final(results)@.len() > SEARCH_RESULT_LIMIT),
{
    let ls = lines_of(&chars_of(content));
    let ghost lv = pieces_view(ls@);
    let q = chars_of(query_lower);
    let ghost start = hits_view(results@);
    let ghost room = SEARCH_RESULT_LIMIT + 1 - results@.len();
    let n = ls.len();
    let mut i: usize = 0;
    while i < n
        invariant
            lv == pieces_view(ls@),
            lv == lines(content@),
            n == ls@.len(),
            i <= n,
            q@ == query_lower@,
            results@.len() <= SEARCH_RESULT_LIMIT,
            room == SEARCH_RESULT_LIMIT + 1 - start.len(),
            start == hits_view(old(results)@),
            hits_view(results@) == start + line_hits(file@, lv.take(i as int), query_lower@),
            line_hits(file@, lv.take(i as int), query_lower@).len() < room,
        decreases n - i,
    {
        assert(lv.take(i + 1).drop_last() =~= lv.take(i as int));
        let line = &ls[i];
        let lower = chars_of(lowercase(string_from(line).as_str()).as_str());
        if find_chars(&lower, &q).is_some() {
            let hit = SearchResult {
                file: String::from_str(file),
                line: i + 1,
                content: string_from(&trim_chars(line)),
            };
            let ghost before = results@;
            results.push(hit);
            assert(hits_view(results@) =~= hits_view(before).push(hit@));
            assert(hits_view(results@) =~= start + line_hits(file@, lv.take(i + 1), query_lower@));
            if results.len() > SEARCH_RESULT_LIMIT {
                proof {
                    lemma_hits_prefix(file@, lv, query_lower@, i + 1);
                    let h = line_hits(file@, lv, query_lower@);
                    let a = line_hits(file@, lv.take(i + 1), query_lower@);
                    assert(hits_view(results@).len() == results@.len());
                    assert(a.len() == room);
                    if h.len() <= room {
                        assert(h.take(h.len() as int) =~= h);
                        assert(h == a);
                    } else {
                        assert(h.take(room) == a);
                    }
                }
                return true;
            }
        }
        i = i + 1;
    }
    assert(lv.take(n as int) =~= lv);
    false
}

/// Whether `s` is ordered by descending score.
pub open spec fn best_first(s: Seq<FileResultView>) -> bool {
    forall|i: int, j: int| 0 <= i < j < s.len() ==> (#[trigger] s[i]).score >= (#[trigger] s[j]).score
}

proof fn lemma_insert_desc(s: Seq<FileResultView>, x: FileResultView)
    requires
        best_first(s),
    ensures
        best_first(insert_desc(s, x)),
        insert_desc(s, x).len() == s.len() + 1,
        insert_desc(s, x).to_multiset() == s.to_multiset().insert(x),
    decreases s.len(),
{
    broadcast use vstd::seq_lib::group_to_multiset_ensures;
    if s.len() == 0 {
        assert(seq![x] =~= Seq::<FileResultView>::empty().push(x));
    } else if s[0].score < x.score {
        assert(seq![x] + s =~= s.insert(0, x));
        s.to_multiset_ensures();
    } else {
        let t = s.drop_first();
        assert(best_first(t)) by {
            assert forall|i: int, j: int| 0 <= i < j < t.len() implies (#[trigger] t[i]).score >= (#[trigger] t[j]).score by {
                assert(t[i] == s[i + 1] && t[j] == s[j + 1]);
            }
        }
        lemma_insert_desc(t, x);
        let u = insert_desc(t, x);
        let r = seq![s[0]] + u;
        assert forall|i: int, j: int| 0 <= i < j < r.len() implies (#[trigger] r[i]).score >= (#[trigger] r[j]).score by {
            if i == 0 {
                let k = j - 1;
                assert(r[j] == u[k]);
                assert(u.to_multiset().count(u[k]) > 0);
                assert(u[k] == x || t.to_multiset().count(u[k]) > 0);
                if u[k] != x {
                    assert(t.contains(u[k]));
                    let m = choose|m: int| 0 <= m < t.len() && t[m] == u[k];
                    assert(s[m + 1] == t[m]);
                }
            } else {
                assert(r[i] == u[i - 1] && r[j] == u[j - 1]);
            }
        }
        assert(r =~= seq![s[0]] + u);
        assert(s =~= seq![s[0]] + t);
        vstd::seq_lib::lemma_multiset_commutative(seq![s[0]], u);
        vstd::seq_lib::lemma_multiset_commutative(seq![s[0]], t);
    }
}

proof fn lemma_sort_desc(s: Seq<FileResultView>)
    ensures
        best_first(sort_desc(s)),
        sort_desc(s).to_multiset() == s.to_multiset(),
    decreases s.len(),
{
    broadcast use vstd::seq_lib::group_to_multiset_ensures;
    if s.len() > 0 {
        lemma_sort_desc(s.drop_last());
        lemma_insert_desc(sort_desc(s.drop_last()), s.last());
        assert(s =~= s.drop_last().push(s.last()));
    }
}

/// A fuzzy search lists its results best first, at most
/// `MAX_FUZZY_RESULTS` of them, and every result is a scored match of one
/// of the paths searched.
pub proof fn law_ranked_best_first(paths: Seq<Seq<char>>, root: Seq<char>, query: Seq<char>)
    ensures
        best_first(top_matches(paths, root, query)),
        top_matches(paths, root, query).len() <= MAX_FUZZY_RESULTS,
        forall|i: int| 0 <= i < top_matches(paths, root, query).len() ==>
            scored(paths, root, query).contains(#[trigger] top_matches(paths, root, query)[i]),
{
    broadcast use vstd::seq_lib::group_to_multiset_ensures;
    let all = scored(paths, root, query);
    let s = sort_desc(all);
    lemma_sort_desc(all);
    let t = top_matches(paths, root, query);
    assert forall|i: int| 0 <= i < t.len() implies all.contains(#[trigger] t[i]) by {
        assert(t[i] == s[i]);
        assert(s.to_multiset().count(s[i]) > 0);
    }
}

} // verus!
