//! Text helpers shared by the rest of the crate.

use vstd::prelude::*;

verus! {

/// `c` with the ASCII capitals folded to small letters.
pub open spec fn ascii_lower_char(c: char) -> char {
    if 'A' <= c && c <= 'Z' {
        ((c as u32) + 32) as char
    } else {
        c
    }
}

/// `s` with the ASCII capitals folded to small letters.
pub open spec fn ascii_lower(s: Seq<char>) -> Seq<char> {
    s.map_values(|c: char| ascii_lower_char(c))
}

/// Whether the two texts are the same.
pub fn same_text(a: &str, b: &str) -> (same: bool)
    ensures
        same == (a@ == b@),
{
    a.to_owned() == b.to_owned()
}

/// The two texts, one after the other.
pub fn joined(a: &str, b: &str) -> (both: String)
    ensures
        both@ == a@ + b@,
{
    let mut both = a.to_owned();
    both.append(b);
    both
}

/// Whether `lower_c` is `c` with the ASCII capitals folded.
fn folds_to(c: char, lower_c: char) -> (folds: bool)
    ensures
        folds == (ascii_lower_char(c) == lower_c),
{
    if 'A' <= c && c <= 'Z' {
        c as u32 + 32 == lower_c as u32
    } else {
        c == lower_c
    }
}

/// Whether `s`, with the ASCII capitals folded, reads `lower`.
pub fn lowers_to(s: &str, lower: &str) -> (equal: bool)
    ensures
        equal == (ascii_lower(s@) == lower@),
{
    let mut left = s.chars();
    let mut right = lower.chars();
    let ghost mut k: int = 0;
    loop
        invariant
            0 <= k <= s@.len(),
            k <= lower@.len(),
            vstd::std_specs::iter::IteratorSpec::remaining(&left) == s@.skip(k),
            vstd::std_specs::iter::IteratorSpec::remaining(&right) == lower@.skip(k),
            forall|i: int| 0 <= i < k ==> ascii_lower_char(#[trigger] s@[i]) == lower@[i],
        decreases s@.len() - k,
    {
        match (left.next(), right.next()) {
            (Some(c), Some(d)) => {
                if !folds_to(c, d) {
                    assert(ascii_lower(s@)[k] != lower@[k]);
                    return false;
                }
                proof {
                    assert(s@.skip(k).drop_first() =~= s@.skip(k + 1));
                    assert(lower@.skip(k).drop_first() =~= lower@.skip(k + 1));
                    k = k + 1;
                }
            },
            (None, None) => {
                assert(ascii_lower(s@) =~= lower@);
                return true;
            },
            _ => {
                assert(ascii_lower(s@).len() != lower@.len());
                return false;
            },
        }
    }
}

} // verus!
