use vstd::prelude::*;
use crate::matcher::{line_matches, line_matches_spec};
use crate::source::{lines_of, texts_of};

verus! {

broadcast use vstd::seq_lib::group_to_multiset_ensures;

/// A line queued for matching, with its 1-based line number.
pub struct WorkItem {
    pub text: String,
    pub line_number: usize,
}

/// A line found to contain the query, with its 1-based line number.
pub struct MatchResult {
    pub text: String,
    pub line_number: usize,
}

/// A result seen as its line number and its text.
pub type Hit = (nat, Seq<char>);

impl View for WorkItem {
    type V = Hit;

    open spec fn view(&self) -> Hit {
        (self.line_number as nat, self.text@)
    }
}

impl View for MatchResult {
    type V = Hit;

    open spec fn view(&self) -> Hit {
        (self.line_number as nat, self.text@)
    }
}

/// The views of a list of results.
pub open spec fn hits_of(v: Seq<MatchResult>) -> Seq<Hit> {
    v.map_values(|m: MatchResult| m@)
}

/// The lines that match, each with its 1-based number, in input order.
pub open spec fn expected_hits(lines: Seq<Seq<char>>, query: Seq<char>, ignore_case: bool) -> Seq<Hit>
    decreases lines.len(),
{
    if lines.len() == 0 {
        Seq::empty()
    } else {
        let prev = expected_hits(lines.drop_last(), query, ignore_case);
        if line_matches_spec(lines.last(), query, ignore_case) {
            prev.push((lines.len(), lines.last()))
        } else {
            prev
        }
    }
}

/// Line numbers never decrease along `s`.
pub open spec fn sorted_by_line(s: Seq<Hit>) -> bool {
    forall|i: int, j: int| 0 <= i < j < s.len() ==> s[i].0 <= s[j].0
}

/// Line numbers strictly increase along `s`.
pub open spec fn strictly_sorted_by_line(s: Seq<Hit>) -> bool {
    forall|i: int, j: int| 0 <= i < j < s.len() ==> s[i].0 < s[j].0
}

/// Matches every line against the query in turn and returns the matching lines
/// with their 1-based numbers, in input order.
pub fn search(lines: &Vec<String>, query: &str, ignore_case: bool) -> (r: Vec<MatchResult>)
    requires
        lines@.len() < usize::MAX,
    ensures
        hits_of(r@) == expected_hits(texts_of(lines@), query@, ignore_case),
{
    let mut out: Vec<MatchResult> = Vec::new();
    let mut i: usize = 0;
    while i < lines.len()
        invariant
            i <= lines@.len() < usize::MAX,
            hits_of(out@) == expected_hits(texts_of(lines@.subrange(0, i as int)), query@, ignore_case),
        decreases lines@.len() - i,
    {
        let ghost before = texts_of(lines@.subrange(0, i as int));
        let ghost after = texts_of(lines@.subrange(0, i + 1));
        assert(after.drop_last() =~= before);
        assert(after.last() == lines@[i as int]@);
        if line_matches(lines[i].as_str(), query, ignore_case) {
            out.push(MatchResult { text: lines[i].clone(), line_number: i + 1 });
        }
        assert(hits_of(out@) =~= expected_hits(after, query@, ignore_case));
        i += 1;
    }
    assert(lines@.subrange(0, i as int) =~= lines@);
    out
}

/// Orders the drained results by ascending line number; the results themselves
/// are kept, each exactly once.
pub fn collect(results: Vec<MatchResult>) -> (r: Vec<MatchResult>)
    ensures
        sorted_by_line(hits_of(r@)),
        hits_of(r@).to_multiset() == hits_of(results@).to_multiset(),
{
    let ghost all = hits_of(results@);
    let mut rest = results;
    let mut out: Vec<MatchResult> = Vec::new();
    assert(hits_of(out@) =~= Seq::<Hit>::empty());
    while rest.len() > 0
        invariant
            sorted_by_line(hits_of(out@)),
            hits_of(out@).to_multiset().add(hits_of(rest@).to_multiset()) =~= all.to_multiset(),
        decreases rest@.len(),
    {
        let ghost rb = hits_of(rest@);
        let m = rest.pop().unwrap();
        assert(rb =~= hits_of(rest@).push(m@));
        let mut pos: usize = 0;
        while pos < out.len() && out[pos].line_number <= m.line_number
            invariant
                pos <= out@.len(),
                sorted_by_line(hits_of(out@)),
                forall|k: int| 0 <= k < pos ==> hits_of(out@)[k].0 <= m.line_number,
            decreases out@.len() - pos,
        {
            pos += 1;
        }
        let ghost ob = hits_of(out@);
        assert(forall|k: int| pos <= k < ob.len() ==> ob[k].0 > m.line_number) by {
            if pos < ob.len() {
                assert(ob[pos as int].0 > m.line_number);
            }
        }
        out.insert(pos, m);
        let ghost ins = ob.insert(pos as int, m@);
        assert(hits_of(out@) =~= ins);
        assert(ins.remove(pos as int) =~= ob);
        assert(ins[pos as int] == m@);
        assert(ins.to_multiset() =~= ob.to_multiset().insert(m@));
        assert(sorted_by_line(ins)) by {
            assert forall|i: int, j: int| 0 <= i < j < ins.len() implies ins[i].0 <= ins[j].0 by {
                if j < pos {
                } else if j == pos {
                } else if i < pos {
                    assert(ob[i].0 <= m.line_number);
                } else if i == pos {
                    assert(ins[j] == ob[j - 1]);
                } else {
                    assert(ins[i] == ob[i - 1] && ins[j] == ob[j - 1]);
                }
            }
        }
    }
    assert(hits_of(rest@) =~= Seq::<Hit>::empty());
    out
}

/// The expected results are exactly the matching lines, each with its 1-based
/// number, and their numbers strictly increase.
pub proof fn lemma_expected_hits(lines: Seq<Seq<char>>, query: Seq<char>, ignore_case: bool)
    ensures
        strictly_sorted_by_line(expected_hits(lines, query, ignore_case)),
        forall|h: Hit| #[trigger] expected_hits(lines, query, ignore_case).contains(h) <==> (
            1 <= h.0 <= lines.len() && h.1 == lines[h.0 - 1] && line_matches_spec(
                h.1,
                query,
                ignore_case,
            )),
    decreases lines.len(),
{
    if lines.len() > 0 {
        let prev_lines = lines.drop_last();
        let prev = expected_hits(prev_lines, query, ignore_case);
        lemma_expected_hits(prev_lines, query, ignore_case);
        let e = expected_hits(lines, query, ignore_case);
        assert forall|k: int| 0 <= k < prev.len() implies prev[k].0 < lines.len() by {
            assert(prev.contains(prev[k]));
        }
        assert forall|h: Hit| #[trigger] e.contains(h) <==> (1 <= h.0 <= lines.len() && h.1
            == lines[h.0 - 1] && line_matches_spec(h.1, query, ignore_case)) by {
            if 1 <= h.0 < lines.len() {
                assert(prev_lines[h.0 - 1] == lines[h.0 - 1]);
            }
            if line_matches_spec(lines.last(), query, ignore_case) {
                assert(e == prev.push((lines.len(), lines.last())));
                if e.contains(h) {
                    let k = choose|k: int| 0 <= k < e.len() && e[k] == h;
                    if k < prev.len() {
                        assert(prev.contains(h));
                    }
                }
                if prev.contains(h) {
                    let k = choose|k: int| 0 <= k < prev.len() && prev[k] == h;
                    assert(e[k] == h);
                }
                if h == (lines.len(), lines.last()) {
                    assert(e[prev.len() as int] == h);
                }
            }
        }
    }
}

/// Two orderings by line number of the same results, the second with no line
/// number repeated, are the same sequence.
pub proof fn lemma_sorted_permutations_equal(a: Seq<Hit>, b: Seq<Hit>)
    requires
        sorted_by_line(a),
        strictly_sorted_by_line(b),
        a.to_multiset() == b.to_multiset(),
    ensures
        a == b,
    decreases b.len(),
{
    assert(a.len() == b.len()) by {
        assert(a.len() == a.to_multiset().len());
        assert(b.len() == b.to_multiset().len());
    }
    if b.len() > 0 {
        assert(a.contains(a[0]));
        assert(a.to_multiset().count(a[0]) > 0);
        assert(b.contains(a[0]));
        let j = choose|j: int| 0 <= j < b.len() && b[j] == a[0];
        assert(b.contains(b[0]));
        assert(b.to_multiset().count(b[0]) > 0);
        assert(a.contains(b[0]));
        let i = choose|i: int| 0 <= i < a.len() && a[i] == b[0];
        if j > 0 {
            assert(a[0].0 <= a[i].0);
            assert(b[0].0 < b[j].0);
        }
        assert(a[0] == b[0]);
        assert(a.remove(0).to_multiset() == a.to_multiset().remove(a[0]));
        assert(b.remove(0).to_multiset() == b.to_multiset().remove(b[0]));
        assert(a.remove(0) =~= a.drop_first());
        assert(b.remove(0) =~= b.drop_first());
        lemma_sorted_permutations_equal(a.drop_first(), b.drop_first());
        assert(a =~= seq![a[0]] + a.drop_first());
        assert(b =~= seq![b[0]] + b.drop_first());
    } else {
        assert(a =~= b);
    }
}

/// Whatever order the workers report the matches in, ordering them by line number
/// gives the matching lines in input order.
pub proof fn lemma_collected_in_input_order(
    lines: Seq<Seq<char>>,
    query: Seq<char>,
    ignore_case: bool,
    arrived: Seq<Hit>,
    collected: Seq<Hit>,
)
    requires
        arrived.to_multiset() == expected_hits(lines, query, ignore_case).to_multiset(),
        sorted_by_line(collected),
        collected.to_multiset() == arrived.to_multiset(),
    ensures
        collected == expected_hits(lines, query, ignore_case),
{
    lemma_expected_hits(lines, query, ignore_case);
    lemma_sorted_permutations_equal(collected, expected_hits(lines, query, ignore_case));
}

/// Two runs over the same input, whose workers report the matches in different
/// orders (as with different numbers of workers), print the same list.
pub proof fn lemma_final_order_deterministic(
    lines: Seq<Seq<char>>,
    query: Seq<char>,
    ignore_case: bool,
    arrived1: Seq<Hit>,
    collected1: Seq<Hit>,
    arrived2: Seq<Hit>,
    collected2: Seq<Hit>,
)
    requires
        arrived1.to_multiset() == expected_hits(lines, query, ignore_case).to_multiset(),
        arrived2.to_multiset() == expected_hits(lines, query, ignore_case).to_multiset(),
        sorted_by_line(collected1),
        collected1.to_multiset() == arrived1.to_multiset(),
        sorted_by_line(collected2),
        collected2.to_multiset() == arrived2.to_multiset(),
    ensures
        collected1 == collected2,
{
    lemma_collected_in_input_order(lines, query, ignore_case, arrived1, collected1);
    lemma_collected_in_input_order(lines, query, ignore_case, arrived2, collected2);
}

/// An empty text has no lines, and no lines yield no results.
pub proof fn lemma_empty_input_no_hits(query: Seq<char>, ignore_case: bool)
    ensures
        lines_of(Seq::<char>::empty()).len() == 0,
        expected_hits(lines_of(Seq::<char>::empty()), query, ignore_case).len() == 0,
{
}

} // verus!
