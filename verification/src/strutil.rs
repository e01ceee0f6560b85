//! Verified string helpers: equality, prefix test, truncation and the
//! character-level spec functions the rest of the crate builds contracts on.

use vstd::prelude::*;
use vstd::string::*;
use vstd::std_specs::iter::IteratorSpec;

verus! {

broadcast use vstd::string::group_string_axioms;

/// The character views of a list of strings.
pub open spec fn string_views(strings: Seq<String>) -> Seq<Seq<char>> {
    Seq::new(strings.len(), |i: int| strings[i]@)
}

/// The character views of a list of string pairs.
pub open spec fn pair_views(pairs: Seq<(String, String)>) -> Seq<(Seq<char>, Seq<char>)> {
    Seq::new(pairs.len(), |i: int| (pairs[i].0@, pairs[i].1@))
}

/// Exact equality of two string slices, stated over their character views.
pub fn str_eq(a: &str, b: &str) -> (r: bool)
    ensures
        r == (a@ == b@),
{
    let sa = String::from_str(a);
    let sb = String::from_str(b);
    sa == sb
}

/// Does `s` start with the characters of `p`?
pub open spec fn starts_with(s: Seq<char>, p: Seq<char>) -> bool {
    s.len() >= p.len() && s.subrange(0, p.len() as int) == p
}

pub fn has_prefix(s: &str, p: &str) -> (r: bool)
    ensures
        r == starts_with(s@, p@),
{
    let n = s.unicode_len();
    let m = p.unicode_len();
    if n < m {
        return false;
    }
    let head = s.substring_char(0, m);
    str_eq(head, p)
}

/// The first `max` characters of `s`, or all of `s` when it is short enough.
pub open spec fn truncated(s: Seq<char>, max: nat) -> Seq<char> {
    if s.len() <= max {
        s
    } else {
        s.subrange(0, max as int)
    }
}

/// Truncate a captured value to at most `max` characters; short values are
/// returned unchanged.
pub fn truncate_chars(s: &str, max: usize) -> (r: String)
    ensures
        r@ == truncated(s@, max as nat),
{
    let n = s.unicode_len();
    if n <= max {
        String::from_str(s)
    } else {
        String::from_str(s.substring_char(0, max))
    }
}

/// How many newline characters a text holds.
pub open spec fn newline_count(s: Seq<char>) -> nat
    decreases s.len(),
{
    if s.len() == 0 {
        0
    } else {
        newline_count(s.drop_last()) + (if s.last() == '\n' {
            1nat
        } else {
            0nat
        })
    }
}

/// How many physical lines a text holds: newline-terminated lines, plus one
/// final line when the text does not end with a newline.  The empty text has
/// no lines.
pub open spec fn line_count(s: Seq<char>) -> nat {
    if s.len() == 0 {
        0
    } else {
        newline_count(s) + (if s.last() == '\n' {
            0nat
        } else {
            1nat
        })
    }
}

proof fn lemma_newline_count_le(s: Seq<char>)
    ensures
        newline_count(s) <= s.len(),
    decreases s.len(),
{
    if s.len() > 0 {
        lemma_newline_count_le(s.drop_last());
    }
}

proof fn lemma_newline_count_take_succ(s: Seq<char>, k: int)
    requires
        0 <= k < s.len(),
    ensures
        newline_count(s.take(k + 1)) == newline_count(s.take(k)) + (if s[k] == '\n' {
            1nat
        } else {
            0nat
        }),
{
    assert(s.take(k + 1).drop_last() =~= s.take(k));
    assert(s.take(k + 1).last() == s[k]);
}

/// Count the physical lines of a text, exactly as [`line_count`] states.
pub fn count_lines(text: &str) -> (r: usize)
    ensures
        r as nat == line_count(text@),
{
    let ghost total = text@;
    let n = text.unicode_len();
    let mut it = text.chars();
    let mut nl: usize = 0;
    let mut last_nl = false;
    let ghost mut seen: int = 0;
    loop
        invariant
            n as nat == total.len(),
            0 <= seen <= total.len(),
            it.obeys_prophetic_iter_laws(),
            it.remaining() == total.subrange(seen, total.len() as int),
            nl as nat == newline_count(total.take(seen)),
            seen > 0 ==> last_nl == (total[seen - 1] == '\n'),
            nl <= seen,
        ensures
            seen == total.len(),
            nl as nat == newline_count(total),
            seen > 0 ==> last_nl == (total[seen - 1] == '\n'),
        decreases total.len() - seen,
    {
        match it.next() {
            Some(c) => {
                proof {
                    lemma_newline_count_take_succ(total, seen);
                    assert(total.subrange(seen, total.len() as int)[0] == total[seen]);
                }
                if c == '\n' {
                    nl = nl + 1;
                    last_nl = true;
                } else {
                    last_nl = false;
                }
                proof {
                    seen = seen + 1;
                    assert(it.remaining() =~= total.subrange(seen, total.len() as int));
                }
            },
            None => {
                proof {
                    assert(total.subrange(seen, total.len() as int).len() == 0);
                    assert(total.take(seen) =~= total);
                }
                break ;
            },
        }
    }
    if n == 0 {
        0
    } else if last_nl {
        nl
    } else {
        proof {
            assert(total.drop_last().len() == total.len() - 1);
            assert(newline_count(total) == newline_count(total.drop_last()));
            lemma_newline_count_le(total.drop_last());
        }
        nl + 1
    }
}

} // verus!
