use vstd::prelude::*;
use crate::matcher::chars_of;

verus! {

/// A line without the carriage return that ends it, if any.
pub open spec fn strip_cr(line: Seq<char>) -> Seq<char> {
    if line.len() > 0 && line.last() == '\r' {
        line.drop_last()
    } else {
        line
    }
}

/// The lines ended by a newline within the first `i` characters of `s`.
pub open spec fn ended_lines(s: Seq<char>, i: int) -> Seq<Seq<char>>
    decreases i,
{
    if i <= 0 {
        Seq::empty()
    } else if s[i - 1] == '\n' {
        ended_lines(s, i - 1).push(strip_cr(open_line(s, i - 1)))
    } else {
        ended_lines(s, i - 1)
    }
}

/// The characters after the last newline within the first `i` characters of `s`.
pub open spec fn open_line(s: Seq<char>, i: int) -> Seq<char>
    decreases i,
{
    if i <= 0 {
        Seq::empty()
    } else if s[i - 1] == '\n' {
        Seq::empty()
    } else {
        open_line(s, i - 1).push(s[i - 1])
    }
}

/// The lines of `s`: split at each newline, a carriage return before a newline
/// dropped, and no empty line after a final newline.
pub open spec fn lines_of(s: Seq<char>) -> Seq<Seq<char>> {
    let rest = open_line(s, s.len() as int);
    if rest.len() == 0 {
        ended_lines(s, s.len() as int)
    } else {
        ended_lines(s, s.len() as int).push(rest)
    }
}

/// The character sequences held by a list of strings.
pub open spec fn texts_of(v: Seq<String>) -> Seq<Seq<char>> {
    v.map_values(|t: String| t@)
}

/// Relies on `FromIterator<char>` for `String`: the string of exactly these characters.
#[verifier::external_body]
fn string_of(v: &Vec<char>) -> (r: String)
    ensures
        r@ == v@,
{
    v.iter().collect()
}

/// Splits text into its lines, in order; the first line has number 1.
pub fn split_lines(contents: &str) -> (r: Vec<String>)
    ensures
        texts_of(r@) == lines_of(contents@),
{
    let s = chars_of(contents);
    let mut out: Vec<String> = Vec::new();
    let mut cur: Vec<char> = Vec::new();
    let mut i: usize = 0;
    while i < s.len()
        invariant
            s@ == contents@,
            i <= s@.len(),
            texts_of(out@) == ended_lines(s@, i as int),
            cur@ == open_line(s@, i as int),
        decreases s@.len() - i,
    {
        let c = s[i];
        if c == '\n' {
            if cur.len() > 0 && cur[cur.len() - 1] == '\r' {
                cur.pop();
            }
            let line = string_of(&cur);
            proof {
                assert(line@ == strip_cr(open_line(s@, i as int)));
            }
            out.push(line);
            assert(texts_of(out@) =~= ended_lines(s@, i + 1));
            cur = Vec::new();
            assert(cur@ =~= open_line(s@, i + 1));
        } else {
            cur.push(c);
            assert(texts_of(out@) =~= ended_lines(s@, i + 1));
        }
        i += 1;
    }
    if cur.len() > 0 {
        let line = string_of(&cur);
        out.push(line);
        assert(texts_of(out@) =~= lines_of(contents@));
    }
    out
}

} // verus!
