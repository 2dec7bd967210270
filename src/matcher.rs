use vstd::prelude::*;

verus! {

/// What `str::to_lowercase` yields for a sequence of characters.
pub uninterp spec fn lower_of(s: Seq<char>) -> Seq<char>;

/// The text actually compared under a case-sensitivity policy.
pub open spec fn normalized(s: Seq<char>, ignore_case: bool) -> Seq<char> {
    if ignore_case {
        lower_of(s)
    } else {
        s
    }
}

/// `pat` occurs in `text` starting at position `i`.
pub open spec fn occurs_at(text: Seq<char>, pat: Seq<char>, i: int) -> bool {
    0 <= i && i + pat.len() <= text.len() && text.subrange(i, i + pat.len()) == pat
}

/// `pat` is a contiguous piece of `text`.
pub open spec fn contains_seq(text: Seq<char>, pat: Seq<char>) -> bool {
    exists|i: int| occurs_at(text, pat, i)
}

/// A line matches a query when its normalized text contains the normalized query.
pub open spec fn line_matches_spec(line: Seq<char>, query: Seq<char>, ignore_case: bool) -> bool {
    contains_seq(normalized(line, ignore_case), normalized(query, ignore_case))
}

/// Relies on `str::to_lowercase`: the result depends on the characters alone,
/// and the empty string stays empty.
#[verifier::external_body]
pub(crate) fn lowercase(s: &str) -> (r: String)
    ensures
        r@ == lower_of(s@),
        s@.len() == 0 ==> r@.len() == 0,
{
    s.to_lowercase()
}

/// Relies on `str::chars`: the characters of `s`, in order.
#[verifier::external_body]
pub(crate) fn chars_of(s: &str) -> (r: Vec<char>)
    ensures
        r@ == s@,
{
    s.chars().collect()
}

/// Lower-cases `s` when `ignore_case` holds, else returns it unchanged.
pub fn normalize(s: &str, ignore_case: bool) -> (r: String)
    ensures
        r@ == normalized(s@, ignore_case),
        s@.len() == 0 ==> r@.len() == 0,
{
    if ignore_case {
        lowercase(s)
    } else {
        s.to_owned()
    }
}

/// Whether `pat` occurs in `text` at position `i`, checked character by character.
fn occurs_at_exec(text: &Vec<char>, pat: &Vec<char>, i: usize) -> (r: bool)
    requires
        i + pat@.len() <= text@.len(),
    ensures
        r == occurs_at(text@, pat@, i as int),
{
    let n = text.len();
    let mut j: usize = 0;
    while j < pat.len()
        invariant
            j <= pat@.len(),
            i + pat@.len() <= text@.len(),
            text@.len() <= usize::MAX,
            forall|k: int| 0 <= k < j ==> text@[i + k] == pat@[k],
        decreases pat@.len() - j,
    {
        if text[i + j] != pat[j] {
            assert(text@.subrange(i as int, i + pat@.len())[j as int] != pat@[j as int]);
            return false;
        }
        j += 1;
    }
    assert(text@.subrange(i as int, i + pat@.len()) =~= pat@);
    true
}

/// Whether `pat` is a contiguous piece of `text`.
pub fn contains_chars(text: &Vec<char>, pat: &Vec<char>) -> (r: bool)
    ensures
        r == contains_seq(text@, pat@),
{
    if pat.len() > text.len() {
        return false;
    }
    let last: usize = text.len() - pat.len();
    let mut i: usize = 0;
    loop
        invariant
            last == text@.len() - pat@.len(),
            pat@.len() <= text@.len(),
            i <= last,
            forall|k: int| 0 <= k < i ==> !occurs_at(text@, pat@, k),
        ensures
            last == text@.len() - pat@.len(),
            forall|k: int| 0 <= k <= last ==> !occurs_at(text@, pat@, k),
        decreases last - i,
    {
        if occurs_at_exec(text, pat, i) {
            return true;
        }
        if i == last {
            break;
        }
        i += 1;
    }
    assert forall|k: int| !occurs_at(text@, pat@, k) by {
        if 0 <= k && k + pat@.len() <= text@.len() {
            assert(k <= last);
        }
    }
    false
}

/// Whether the normalized query occurs in the normalized line (the empty query
/// occurs in every line).
pub fn matches(normalized_line: &str, normalized_query: &str) -> (r: bool)
    ensures
        r == contains_seq(normalized_line@, normalized_query@),
{
    let text = chars_of(normalized_line);
    let pat = chars_of(normalized_query);
    contains_chars(&text, &pat)
}

/// Whether `line` matches `query` under the given case-sensitivity policy.
pub fn line_matches(line: &str, query: &str, ignore_case: bool) -> (r: bool)
    ensures
        r == line_matches_spec(line@, query@, ignore_case),
        query@.len() == 0 ==> r,
{
    let l = normalize(line, ignore_case);
    let q = normalize(query, ignore_case);
    let r = matches(l.as_str(), q.as_str());
    proof {
        if query@.len() == 0 {
            lemma_empty_query_matches(l@);
            assert(q@ =~= Seq::<char>::empty());
        }
    }
    r
}

/// The empty query occurs in every text.
pub proof fn lemma_empty_query_matches(text: Seq<char>)
    ensures
        contains_seq(text, Seq::<char>::empty()),
{
    assert(text.subrange(0, 0) =~= Seq::<char>::empty());
    assert(occurs_at(text, Seq::<char>::empty(), 0));
}

} // verus!
