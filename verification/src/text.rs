//! Splitting a line of text into separator-delimited pieces and into
//! whitespace-delimited tokens.

use vstd::prelude::*;

verus! {

/// Index of the first occurrence of `sep` in `s`, or `s.len()` if absent.
pub open spec fn first_sep(s: Seq<char>, sep: char) -> nat
    decreases s.len(),
{
    if s.len() == 0 {
        0
    } else if s[0] == sep {
        0
    } else {
        1 + first_sep(s.subrange(1, s.len() as int), sep)
    }
}

/// `first_sep` is in range, no separator stands before it, and one
/// stands at it unless it is the length.
pub proof fn lemma_first_sep(s: Seq<char>, sep: char)
    ensures
        first_sep(s, sep) <= s.len(),
        forall|j: int| 0 <= j < first_sep(s, sep) ==> s[j] != sep,
        first_sep(s, sep) < s.len() ==> s[first_sep(s, sep) as int] == sep,
    decreases s.len(),
{
    if s.len() > 0 && s[0] != sep {
        let sub = s.subrange(1, s.len() as int);
        lemma_first_sep(sub, sep);
        assert forall|j: int| 0 <= j < first_sep(s, sep) implies s[j] != sep by {
            if j > 0 {
                assert(s[j] == sub[j - 1]);
            }
        }
    }
}

/// `first_sep` is the unique index with no separator before it and a
/// separator (or the end of the text) at it.
pub proof fn lemma_first_sep_unique(s: Seq<char>, sep: char, i: nat)
    requires
        i <= s.len(),
        forall|j: int| 0 <= j < i ==> s[j] != sep,
        i < s.len() ==> s[i as int] == sep,
    ensures
        first_sep(s, sep) == i,
{
    lemma_first_sep(s, sep);
}

/// The pieces of `s` between occurrences of `sep`, in order, empty pieces
/// kept: splitting never yields fewer than one piece.
pub open spec fn spec_split(s: Seq<char>, sep: char) -> Seq<Seq<char>>
    decreases s.len(),
{
    let i = first_sep(s, sep);
    if i >= s.len() {
        seq![s]
    } else {
        seq![s.subrange(0, i as int)] + spec_split(
            s.subrange(i as int + 1, s.len() as int),
            sep,
        )
    }
}

/// The whitespace-delimited tokens of a line: split on spaces, empty
/// pieces discarded.
pub open spec fn spec_tokens(line: Seq<char>) -> Seq<Seq<char>> {
    spec_split(line, ' ').filter(|t: Seq<char>| t.len() > 0)
}

/// Position of the first `sep` in `s`, or its length if `sep` is absent.
pub fn find_sep(s: &str, sep: char) -> (i: usize)
    ensures
        i == first_sep(s@, sep),
{
    let n = s.unicode_len();
    let mut i: usize = 0;
    while i < n
        invariant
            i <= n,
            n == s@.len(),
            forall|j: int| 0 <= j < i ==> s@[j] != sep,
        decreases n - i,
    {
        if s.get_char(i) == sep {
            proof {
                lemma_first_sep_unique(s@, sep, i as nat);
            }
            return i;
        }
        i = i + 1;
    }
    proof {
        lemma_first_sep_unique(s@, sep, n as nat);
    }
    n
}

/// The pieces of `s` between occurrences of `sep`, empty pieces kept.
pub fn split_char(s: &str, sep: char) -> (r: Vec<String>)
    ensures
        r@.map_values(|t: String| t@) == spec_split(s@, sep),
    decreases s@.len(),
{
    let n = s.unicode_len();
    let i = find_sep(s, sep);
    proof {
        lemma_first_sep(s@, sep);
    }
    if i == n {
        let mut r: Vec<String> = Vec::new();
        r.push(s.to_owned());
        proof {
            assert(r@.map_values(|t: String| t@) =~= spec_split(s@, sep));
        }
        r
    } else {
        let head = s.substring_char(0, i).to_owned();
        let rest = s.substring_char(i + 1, n);
        let mut r = split_char(rest, sep);
        r.insert(0, head);
        proof {
            assert(r@.map_values(|t: String| t@) =~= spec_split(s@, sep));
        }
        r
    }
}

/// The whitespace-delimited tokens of `line`.
pub fn tokenize(line: &str) -> (r: Vec<String>)
    ensures
        r@.map_values(|t: String| t@) == spec_tokens(line@),
{
    broadcast use vstd::seq_lib::group_filter_ensures;

    let pieces = split_char(line, ' ');
    let mut r: Vec<String> = Vec::new();
    let mut i: usize = 0;
    while i < pieces.len()
        invariant
            i <= pieces.len(),
            r@.map_values(|t: String| t@) == pieces@.subrange(0, i as int).map_values(
                |t: String| t@,
            ).filter(|t: Seq<char>| t.len() > 0),
        decreases pieces.len() - i,
    {
        let ghost prefix = pieces@.subrange(0, i as int).map_values(|t: String| t@);
        if !pieces[i].as_str().is_empty() {
            r.push(pieces[i].clone());
        }
        proof {
            assert(pieces@.subrange(0, i as int + 1) =~= pieces@.subrange(0, i as int).push(
                pieces@[i as int],
            ));
            assert(pieces@.subrange(0, i as int + 1).map_values(|t: String| t@) =~= prefix.push(
                pieces@[i as int]@,
            ));
            reveal(Seq::filter);
            assert(prefix.push(pieces@[i as int]@).drop_last() =~= prefix);
        }
        i = i + 1;
    }
    proof {
        assert(pieces@.subrange(0, pieces@.len() as int) =~= pieces@);
    }
    r
}

} // verus!
