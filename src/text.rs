//! Character-level helpers for reading command text: white space, trimming and
//! splitting, each stated over the characters of the text.
use vstd::prelude::*;

verus! {

/// The characters with the Unicode `White_Space` property.
pub open spec fn is_white_space(c: char) -> bool {
    ||| '\u{9}' <= c <= '\u{d}'
    ||| c == ' '
    ||| c == '\u{85}'
    ||| c == '\u{a0}'
    ||| c == '\u{1680}'
    ||| '\u{2000}' <= c <= '\u{200a}'
    ||| c == '\u{2028}'
    ||| c == '\u{2029}'
    ||| c == '\u{202f}'
    ||| c == '\u{205f}'
    ||| c == '\u{3000}'
}

/// Relies on `char::is_whitespace`: true exactly for the characters with the
/// Unicode `White_Space` property.
#[verifier::external_body]
pub(crate) fn is_space(c: char) -> (r: bool)
    ensures
        r == is_white_space(c),
{
    c.is_whitespace()
}

/// `s` without its leading white space.
pub open spec fn trim_start(s: Seq<char>) -> Seq<char>
    decreases s.len(),
{
    if s.len() > 0 && is_white_space(s[0]) {
        trim_start(s.drop_first())
    } else {
        s
    }
}

/// `s` without its trailing white space.
pub open spec fn trim_end(s: Seq<char>) -> Seq<char>
    decreases s.len(),
{
    if s.len() > 0 && is_white_space(s.last()) {
        trim_end(s.drop_last())
    } else {
        s
    }
}

/// `s` without leading and trailing white space.
pub open spec fn trim(s: Seq<char>) -> Seq<char> {
    trim_end(trim_start(s))
}

/// Whether `c` separates pieces: `c` equals the given separator, or, with no
/// separator given, `c` is white space.
pub open spec fn is_sep(c: char, sep: Option<char>) -> bool {
    match sep {
        Some(d) => c == d,
        None => is_white_space(c),
    }
}

/// The pieces of `s` between separators, in order; empty pieces included, so
/// that there is always one piece more than there are separators.
pub open spec fn split_by(s: Seq<char>, sep: Option<char>) -> Seq<Seq<char>>
    decreases s.len(),
{
    if s.len() == 0 {
        seq![seq![]]
    } else {
        let p = split_by(s.drop_last(), sep);
        if is_sep(s.last(), sep) {
            p.push(seq![])
        } else {
            p.update(p.len() - 1, p.last().push(s.last()))
        }
    }
}

/// The non-empty pieces of `ps`, in order.
pub open spec fn nonempty_pieces(ps: Seq<Seq<char>>) -> Seq<Seq<char>> {
    ps.filter(|w: Seq<char>| w.len() > 0)
}

/// The white-space separated words of `s`, in order.
pub open spec fn words(s: Seq<char>) -> Seq<Seq<char>> {
    nonempty_pieces(split_by(s, None))
}

/// Adding a piece at the end adds it to the non-empty pieces when it is not empty.
pub proof fn lemma_nonempty_push(ps: Seq<Seq<char>>, p: Seq<char>)
    ensures
        nonempty_pieces(ps.push(p)) == if p.len() > 0 {
            nonempty_pieces(ps).push(p)
        } else {
            nonempty_pieces(ps)
        },
{
    reveal(Seq::filter);
    assert(ps.push(p).drop_last() =~= ps);
}

/// Every split has at least one piece.
pub proof fn lemma_split_nonempty(s: Seq<char>, sep: Option<char>)
    ensures
        split_by(s, sep).len() >= 1,
    decreases s.len(),
{
    if s.len() > 0 {
        lemma_split_nonempty(s.drop_last(), sep);
    }
}

/// Whether `c` separates pieces (see `is_sep`).
fn is_separator(c: char, sep: Option<char>) -> (r: bool)
    ensures
        r == is_sep(c, sep),
{
    match sep {
        Some(d) => c == d,
        None => is_space(c),
    }
}

/// The bounds of the pieces of `cs[lo..hi]` between separators: one pair for each
/// piece of `split_by`, in order, each piece starting just after the separator that
/// ends the one before it.
pub fn split_ranges(cs: &Vec<char>, lo: usize, hi: usize, sep: Option<char>) -> (r: Vec<(usize, usize)>)
    requires
        lo <= hi <= cs@.len(),
    ensures
        r@.len() == split_by(cs@.subrange(lo as int, hi as int), sep).len(),
        r@.len() >= 1,
        r@[0].0 == lo,
        forall|k: int|
            0 <= k < r@.len() ==> lo <= #[trigger] r@[k].0 <= r@[k].1 <= hi && cs@.subrange(
                r@[k].0 as int,
                r@[k].1 as int,
            ) == split_by(cs@.subrange(lo as int, hi as int), sep)[k],
        forall|k: int| 0 < k < r@.len() ==> #[trigger] r@[k].0 == r@[k - 1].1 + 1,
{
    let mut ranges: Vec<(usize, usize)> = Vec::new();
    let mut start: usize = lo;
    let mut i: usize = lo;
    while i < hi
        invariant
            lo <= start <= i <= hi <= cs@.len(),
            ranges@.len() + 1 == split_by(cs@.subrange(lo as int, i as int), sep).len(),
            split_by(cs@.subrange(lo as int, i as int), sep).last() == cs@.subrange(start as int, i as int),
            ranges@.len() == 0 ==> start == lo,
            ranges@.len() > 0 ==> ranges@[0].0 == lo && start == ranges@.last().1 + 1,
            forall|k: int|
                0 <= k < ranges@.len() ==> lo <= #[trigger] ranges@[k].0 <= ranges@[k].1 < start
                    && cs@.subrange(ranges@[k].0 as int, ranges@[k].1 as int) == split_by(
                    cs@.subrange(lo as int, i as int),
                    sep,
                )[k],
            forall|k: int| 0 < k < ranges@.len() ==> #[trigger] ranges@[k].0 == ranges@[k - 1].1 + 1,
        decreases hi - i,
    {
        let ghost before = cs@.subrange(lo as int, i as int);
        let ghost after = cs@.subrange(lo as int, i + 1);
        proof {
            assert(after.drop_last() =~= before);
            lemma_split_nonempty(before, sep);
        }
        if is_separator(cs[i], sep) {
            ranges.push((start, i));
            start = i + 1;
            proof {
                assert(cs@.subrange(start as int, i + 1) =~= seq![]);
            }
        } else {
            proof {
                assert(cs@.subrange(start as int, i + 1) =~= cs@.subrange(start as int, i as int).push(cs@[i as int]));
            }
        }
        i += 1;
    }
    ranges.push((start, hi));
    proof {
        lemma_split_nonempty(cs@.subrange(lo as int, hi as int), sep);
    }
    ranges
}

/// The characters of `s`, in order.
pub fn chars_of(s: &str) -> (r: Vec<char>)
    ensures
        r@ == s@,
{
    let mut r: Vec<char> = Vec::new();
    for c in it: s.chars()
        invariant
            it.seq() == s@,
            r@ == it.seq().subrange(0, it.index()),
    {
        r.push(c);
    }
    r
}

/// The bounds of `cs[lo..hi]` without its leading and trailing white space.
pub fn trim_range(cs: &Vec<char>, lo: usize, hi: usize) -> (r: (usize, usize))
    requires
        lo <= hi <= cs@.len(),
    ensures
        lo <= r.0 <= r.1 <= hi,
        cs@.subrange(r.0 as int, r.1 as int) == trim(cs@.subrange(lo as int, hi as int)),
{
    let ghost whole = cs@.subrange(lo as int, hi as int);
    let mut i: usize = lo;
    while i < hi && is_space(cs[i])
        invariant
            lo <= i <= hi <= cs@.len(),
            trim_start(whole) == trim_start(cs@.subrange(i as int, hi as int)),
        decreases hi - i,
    {
        assert(cs@.subrange(i as int, hi as int).drop_first() =~= cs@.subrange(i + 1, hi as int));
        i += 1;
    }
    assert(trim_start(whole) == cs@.subrange(i as int, hi as int));
    let mut j: usize = hi;
    while j > i && is_space(cs[j - 1])
        invariant
            lo <= i <= j <= hi <= cs@.len(),
            trim_end(cs@.subrange(i as int, hi as int)) == trim_end(cs@.subrange(i as int, j as int)),
        decreases j - i,
    {
        assert(cs@.subrange(i as int, j as int).drop_last() =~= cs@.subrange(i as int, j - 1));
        j -= 1;
    }
    (i, j)
}

} // verus!
