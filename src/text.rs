//! Character-level text handling: splitting into lines and into blocks.

use vstd::prelude::*;

verus! {

/// The pieces of `s` between occurrences of `sep`: those of `s` without its
/// last character, after which that character either starts a new, empty
/// piece (when it is `sep`) or extends the last piece.
pub open spec fn split_chars(s: Seq<char>, sep: char) -> Seq<Seq<char>>
    decreases s.len(),
{
    if s.len() == 0 {
        seq![Seq::empty()]
    } else {
        let pieces = split_chars(s.drop_last(), sep);
        if s.last() == sep {
            pieces.push(Seq::empty())
        } else {
            pieces.update(pieces.len() - 1, pieces.last().push(s.last()))
        }
    }
}

/// The pieces of `s` between occurrences of a blank line (two consecutive
/// `'\n'`), matched from the left without overlap: a `'\n'` that follows a
/// `'\n'` of the current piece ends that piece (dropping its trailing
/// `'\n'`) and starts a new one.
pub open spec fn split_blank(s: Seq<char>) -> Seq<Seq<char>>
    decreases s.len(),
{
    if s.len() == 0 {
        seq![Seq::empty()]
    } else {
        let pieces = split_blank(s.drop_last());
        let cur = pieces.last();
        if s.last() == '\n' && cur.len() > 0 && cur.last() == '\n' {
            pieces.update(pieces.len() - 1, cur.drop_last()).push(Seq::empty())
        } else {
            pieces.update(pieces.len() - 1, cur.push(s.last()))
        }
    }
}

/// The character sequences of a sequence of character vectors.
pub open spec fn views(v: Seq<Vec<char>>) -> Seq<Seq<char>> {
    v.map_values(|l: Vec<char>| l@)
}

/// Splitting always yields at least one piece.
pub proof fn lemma_split_chars_nonempty(s: Seq<char>, sep: char)
    ensures
        split_chars(s, sep).len() >= 1,
    decreases s.len(),
{
    if s.len() > 0 {
        lemma_split_chars_nonempty(s.drop_last(), sep);
    }
}

/// Splitting on blank lines always yields at least one piece.
pub proof fn lemma_split_blank_nonempty(s: Seq<char>)
    ensures
        split_blank(s).len() >= 1,
    decreases s.len(),
{
    if s.len() > 0 {
        lemma_split_blank_nonempty(s.drop_last());
    }
}

/// Splits `s` at every `sep`; `sep` itself belongs to no piece.
pub fn split_on(s: &Vec<char>, sep: char) -> (r: Vec<Vec<char>>)
    ensures
        views(r@) == split_chars(s@, sep),
{
    let mut pieces: Vec<Vec<char>> = Vec::new();
    let mut cur: Vec<char> = Vec::new();
    let mut i: usize = 0;
    while i < s.len()
        invariant
            i <= s.len(),
            views(pieces@).push(cur@) == split_chars(s@.take(i as int), sep),
        decreases s.len() - i,
    {
        let c = s[i];
        proof {
            assert(s@.take(i + 1).drop_last() =~= s@.take(i as int));
            lemma_split_chars_nonempty(s@.take(i as int), sep);
        }
        let ghost before = views(pieces@).push(cur@);
        if c == sep {
            pieces.push(cur);
            cur = Vec::new();
            assert(views(pieces@).push(cur@) =~= before.push(Seq::empty()));
        } else {
            cur.push(c);
            assert(views(pieces@).push(cur@) =~= before.update(
                before.len() - 1,
                before.last().push(c),
            ));
        }
        i += 1;
    }
    pieces.push(cur);
    assert(s@.take(s.len() as int) =~= s@);
    pieces
}

/// Splits `s` at every blank line, as `str::split("\n\n")` does.
pub fn split_blocks(s: &Vec<char>) -> (r: Vec<Vec<char>>)
    ensures
        views(r@) == split_blank(s@),
{
    let mut pieces: Vec<Vec<char>> = Vec::new();
    let mut cur: Vec<char> = Vec::new();
    let mut i: usize = 0;
    while i < s.len()
        invariant
            i <= s.len(),
            views(pieces@).push(cur@) == split_blank(s@.take(i as int)),
        decreases s.len() - i,
    {
        let c = s[i];
        proof {
            assert(s@.take(i + 1).drop_last() =~= s@.take(i as int));
            lemma_split_blank_nonempty(s@.take(i as int));
        }
        let ghost before = views(pieces@).push(cur@);
        let n = cur.len();
        if c == '\n' && n > 0 && cur[n - 1] == '\n' {
            cur.pop();
            pieces.push(cur);
            cur = Vec::new();
            assert(views(pieces@).push(cur@) =~= before.update(
                before.len() - 1,
                before.last().drop_last(),
            ).push(Seq::empty()));
        } else {
            cur.push(c);
            assert(views(pieces@).push(cur@) =~= before.update(
                before.len() - 1,
                before.last().push(c),
            ));
        }
        i += 1;
    }
    pieces.push(cur);
    assert(s@.take(s.len() as int) =~= s@);
    pieces
}

/// Whether two character sequences are equal.
pub fn same_chars(a: &Vec<char>, b: &Vec<char>) -> (r: bool)
    ensures
        r == (a@ == b@),
{
    if a.len() != b.len() {
        return false;
    }
    let mut i: usize = 0;
    while i < a.len()
        invariant
            a@.len() == b@.len(),
            i <= a.len(),
            forall|j: int| 0 <= j < i ==> a@[j] == b@[j],
        decreases a.len() - i,
    {
        if a[i] != b[i] {
            return false;
        }
        i += 1;
    }
    assert(a@ =~= b@);
    true
}

/// Relies on `str::chars` collected into a `Vec`: the characters of `s`, in order.
#[verifier::external_body]
pub(crate) fn chars_of(s: &str) -> (r: Vec<char>)
    ensures
        r@ == s@,
{
    s.chars().collect()
}

/// Relies on `String: FromIterator<char>`: the string of the given characters, in order.
#[verifier::external_body]
pub(crate) fn string_of(v: &Vec<char>) -> (r: String)
    ensures
        r@ == v@,
{
    v.iter().collect()
}

} // verus!
