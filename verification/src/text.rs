//! Small verified helpers over strings.

use vstd::prelude::*;

verus! {

/// The ASCII lowercase of one character; characters outside `A..Z` are
/// unchanged.
pub open spec fn spec_ascii_lower(c: char) -> char {
    if 'A' <= c <= 'Z' {
        ((c as u8) + 32) as char
    } else {
        c
    }
}

/// A character sequence mapped to ASCII lowercase.
pub open spec fn spec_ascii_lower_seq(s: Seq<char>) -> Seq<char> {
    s.map_values(|c: char| spec_ascii_lower(c))
}

/// Whether `s`, lowered to ASCII lowercase, equals `t` character for
/// character.
pub fn eq_ignore_ascii_case(s: &str, t: &str) -> (r: bool)
    ensures
        r == (spec_ascii_lower_seq(s@) == t@),
{
    let n: usize = s.unicode_len();
    let m: usize = t.unicode_len();
    if n != m {
        proof {
            assert(spec_ascii_lower_seq(s@).len() == s@.len());
        }
        return false;
    }
    let mut i: usize = 0;
    while i < n
        invariant
            0 <= i <= n,
            n == s@.len(),
            n == t@.len(),
            forall|j: int| 0 <= j < i ==> spec_ascii_lower(s@[j]) == t@[j],
        decreases n - i,
    {
        let c: char = s.get_char(i);
        let lowered: char = if 'A' <= c && c <= 'Z' {
            proof {
                assert('A' <= c <= 'Z');
            }
            (((c as u8) + 32) as char)
        } else {
            c
        };
        if lowered != t.get_char(i) {
            proof {
                assert(spec_ascii_lower_seq(s@)[i as int] != t@[i as int]);
            }
            return false;
        }
        i = i + 1;
    }
    proof {
        assert(spec_ascii_lower_seq(s@) =~= t@);
    }
    true
}

} // verus!
