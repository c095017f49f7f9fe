use vstd::prelude::*;

use crate::text::{contains_seq, contains_text, lower_of, lowercase};

verus! {

/// A search request: the text to look for, and whether letter case counts.
#[derive(Debug)]
pub struct Query {
    pub text: String,
    pub case_sensitive: bool,
}

impl Query {
    pub fn new(text: String, case_sensitive: bool) -> (r: Query)
        ensures
            r.text@ == text@,
            r.case_sensitive == case_sensitive,
    {
        Query { text, case_sensitive }
    }
}

/// The texts of a sequence of catalog lines.
pub open spec fn line_views(v: Seq<String>) -> Seq<Seq<char>> {
    v.map_values(|s: String| s@)
}

/// Whether a catalog line is selected by a query text: plain containment when
/// case counts, containment of the lower-case forms when it does not.
pub open spec fn entry_selected(line: Seq<char>, q: Seq<char>, case_sensitive: bool) -> bool {
    if case_sensitive {
        contains_seq(line, q)
    } else {
        contains_seq(lower_of(line), lower_of(q))
    }
}

/// The lines that a query text selects, in catalog order.
pub open spec fn selection(lines: Seq<Seq<char>>, q: Seq<char>, case_sensitive: bool) -> Seq<
    Seq<char>,
> {
    lines.filter(|l: Seq<char>| entry_selected(l, q, case_sensitive))
}

/// The result of a selection: the whole catalog without a query, the
/// matching lines with one.
pub open spec fn selected(lines: Seq<Seq<char>>, query: Option<Query>) -> Seq<Seq<char>> {
    match query {
        None => lines,
        Some(q) => selection(lines, q.text@, q.case_sensitive),
    }
}

/// Whether `line` is selected by `query`.
pub fn entry_matches(line: &str, query: &Query) -> (r: bool)
    ensures
        r == entry_selected(line@, query.text@, query.case_sensitive),
{
    if query.case_sensitive {
        contains_text(line, query.text.as_str())
    } else {
        let folded_line = lowercase(line);
        let folded_query = lowercase(query.text.as_str());
        contains_text(folded_line.as_str(), folded_query.as_str())
    }
}

/// The lines of `catalog` that contain `needle`; `folded` says that `needle`
/// is already in lower case and each line is to be lowered before the test.
fn filter_lines(catalog: &Vec<String>, needle: &str, folded: bool) -> (r: Vec<String>)
    ensures
        folded ==> line_views(r@) == line_views(catalog@).filter(
            |l: Seq<char>| contains_seq(lower_of(l), needle@),
        ),
        !folded ==> line_views(r@) == line_views(catalog@).filter(
            |l: Seq<char>| contains_seq(l, needle@),
        ),
{
    let ghost pred = if folded {
        |l: Seq<char>| contains_seq(lower_of(l), needle@)
    } else {
        |l: Seq<char>| contains_seq(l, needle@)
    };
    let mut out: Vec<String> = Vec::new();
    let n = catalog.len();
    for i in 0..n
        invariant
            n == catalog.len(),
            folded ==> pred == (|l: Seq<char>| contains_seq(lower_of(l), needle@)),
            !folded ==> pred == (|l: Seq<char>| contains_seq(l, needle@)),
            line_views(out@) == line_views(catalog@).take(i as int).filter(pred),
    {
        let line = &catalog[i];
        let hit = if folded {
            let lowered = lowercase(line.as_str());
            contains_text(lowered.as_str(), needle)
        } else {
            contains_text(line.as_str(), needle)
        };
        proof {
            let all = line_views(catalog@);
            assert(all.take(i + 1) =~= all.take(i as int).push(line@));
            all.take(i as int).lemma_filter_push(line@, pred);
        }
        if hit {
            let ghost before = out@;
            out.push(line.clone());
            assert(line_views(out@) =~= line_views(before).push(line@));
        }
    }
    assert(line_views(catalog@).take(n as int) =~= line_views(catalog@));
    out
}

/// The lines of `catalog` that `query` selects, in catalog order. When case
/// does not count, the query text is lowered once and each line before its test.
pub fn select_matching(catalog: &Vec<String>, query: &Query) -> (r: Vec<String>)
    ensures
        line_views(r@) == selection(line_views(catalog@), query.text@, query.case_sensitive),
{
    if query.case_sensitive {
        let r = filter_lines(catalog, query.text.as_str(), false);
        assert((|l: Seq<char>| entry_selected(l, query.text@, true)) =~= (|l: Seq<char>|
            contains_seq(l, query.text@)));
        r
    } else {
        let folded_query = lowercase(query.text.as_str());
        let r = filter_lines(catalog, folded_query.as_str(), true);
        assert((|l: Seq<char>| entry_selected(l, query.text@, false)) =~= (|l: Seq<char>|
            contains_seq(lower_of(l), lower_of(query.text@))));
        r
    }
}

/// Selects catalog lines: all of them, in order, when there is no query;
/// otherwise those that the query's text occurs in (after lower-casing both
/// when case does not count), in catalog order.
pub fn select(catalog: &Vec<String>, query: &Option<Query>) -> (r: Vec<String>)
    ensures
        line_views(r@) == selected(line_views(catalog@), *query),
        query is None ==> line_views(r@) == line_views(catalog@),
{
    match query {
        None => catalog.clone(),
        Some(q) => select_matching(catalog, q),
    }
}

/// `idx` places each element of `sub` at a position of `full`, with positions
/// strictly increasing: `sub` keeps `full`'s order and uses no position twice.
pub open spec fn ordered_embedding(sub: Seq<Seq<char>>, full: Seq<Seq<char>>, idx: Seq<int>) -> bool {
    &&& idx.len() == sub.len()
    &&& forall|k: int| 0 <= k < idx.len() ==> 0 <= #[trigger] idx[k] < full.len() && sub[k] == full[idx[k]]
    &&& forall|a: int, b: int| 0 <= a < b < idx.len() ==> idx[a] < idx[b]
}

/// `sub` is `full` with some elements left out, the others in their order.
pub open spec fn is_ordered_subsequence(sub: Seq<Seq<char>>, full: Seq<Seq<char>>) -> bool {
    exists|idx: Seq<int>| ordered_embedding(sub, full, idx)
}

proof fn filter_embedding(lines: Seq<Seq<char>>, pred: spec_fn(Seq<char>) -> bool) -> (idx: Seq<int>)
    ensures
        ordered_embedding(lines.filter(pred), lines, idx),
    decreases lines.len(),
{
    if lines.len() == 0 {
        reveal(Seq::filter);
        Seq::empty()
    } else {
        let init = lines.drop_last();
        let prev = filter_embedding(init, pred);
        init.lemma_filter_push(lines.last(), pred);
        assert(init.push(lines.last()) =~= lines);
        if pred(lines.last()) {
            let idx = prev.push(lines.len() - 1);
            assert forall|k: int| 0 <= k < idx.len() implies 0 <= #[trigger] idx[k] < lines.len()
                && lines.filter(pred)[k] == lines[idx[k]] by {
                if k < prev.len() {
                    assert(idx[k] == prev[k]);
                }
            }
            idx
        } else {
            prev
        }
    }
}

/// Without a query, selection gives back the catalog: every line, in order.
pub proof fn lemma_no_query_is_identity(lines: Seq<Seq<char>>)
    ensures
        selected(lines, None) == lines,
{
}

/// Every line of a selection matches the query, and a catalog line is in the
/// selection exactly when it matches: one that is left out does not match.
pub proof fn lemma_selection_exact(lines: Seq<Seq<char>>, q: Seq<char>, case_sensitive: bool)
    ensures
        forall|k: int|
            0 <= k < selection(lines, q, case_sensitive).len() ==> entry_selected(
                #[trigger] selection(lines, q, case_sensitive)[k],
                q,
                case_sensitive,
            ),
        forall|j: int|
            0 <= j < lines.len() ==> (selection(lines, q, case_sensitive).contains(#[trigger] lines[j])
                <==> entry_selected(lines[j], q, case_sensitive)),
{
    let pred = |l: Seq<char>| entry_selected(l, q, case_sensitive);
    let sel = lines.filter(pred);
    assert forall|k: int| 0 <= k < sel.len() implies entry_selected(#[trigger] sel[k], q, case_sensitive) by {
        lines.lemma_filter_pred(pred, k);
    }
    assert forall|j: int| 0 <= j < lines.len() implies (sel.contains(#[trigger] lines[j])
        <==> entry_selected(lines[j], q, case_sensitive)) by {
        if entry_selected(lines[j], q, case_sensitive) {
            lines.lemma_filter_contains(pred, j);
        }
        if sel.contains(lines[j]) {
            let k = choose|k: int| 0 <= k < sel.len() && sel[k] == lines[j];
            lines.lemma_filter_pred(pred, k);
        }
    }
}

/// A selection, with or without a query, keeps catalog order: it is the
/// catalog with some lines left out, none repeated or moved.
pub proof fn lemma_selection_keeps_order(lines: Seq<Seq<char>>, query: Option<Query>)
    ensures
        is_ordered_subsequence(selected(lines, query), lines),
{
    match query {
        None => {
            let idx = Seq::new(lines.len(), |i: int| i);
            assert(ordered_embedding(lines, lines, idx));
        },
        Some(q) => {
            let idx = filter_embedding(lines, |l: Seq<char>| entry_selected(l, q.text@, q.case_sensitive));
            assert(ordered_embedding(selected(lines, query), lines, idx));
        },
    }
}

} // verus!
