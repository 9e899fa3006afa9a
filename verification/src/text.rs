//! Character classification for the renderer: whether a terminal cell's
//! symbol is part of the fixed set of box-drawing and frame characters
//! (including the blank and the line break) that the renderer colors by
//! background rather than foreground.

use vstd::prelude::*;

verus! {

/// The frame and box-drawing characters the renderer treats specially,
/// as one string: a line break, a blank, and the border glyphs.
pub open spec fn frame_charset() -> Seq<char> {
    "\n ╭─╮│╗║╔═╝╚┌┐└┘╰┤├╯"@
}

/// Whether `needle` occurs contiguously inside `hay`.
pub open spec fn is_substring_of(needle: Seq<char>, hay: Seq<char>) -> bool {
    exists|t: int|
        0 <= t <= hay.len() - needle.len() && #[trigger] hay.subrange(t, t + needle.len())
            == needle
}

/// Whether the input occurs inside the fixed frame-character string; the
/// empty input always does.
pub fn contains_alpha_numeric_or_symbols(input: &str) -> (r: bool)
    ensures
        r == is_substring_of(input@, frame_charset()),
{
    let lit: &str = "\n ╭─╮│╗║╔═╝╚┌┐└┘╰┤├╯";
    proof {
        reveal_strlit("\n ╭─╮│╗║╔═╝╚┌┐└┘╰┤├╯");
    }
    let n = input.unicode_len();
    let l = lit.unicode_len();
    if n > l {
        return false;
    }
    let mut k: usize = 0;
    while k <= l - n
        invariant
            lit@ == frame_charset(),
            n == input@.len(),
            l == frame_charset().len(),
            l <= 20,
            n <= l,
            k <= l - n + 1,
            forall|t: int|
                0 <= t < k ==> #[trigger] frame_charset().subrange(t, t + input@.len())
                    != input@,
        decreases l - n - k + 1,
    {
        let mut j: usize = 0;
        let mut matched = true;
        while matched && j < n
            invariant
                lit@ == frame_charset(),
                n == input@.len(),
                l == frame_charset().len(),
                n <= l,
                k <= l - n,
                j <= n,
                matched ==> forall|u: int| 0 <= u < j ==> frame_charset()[k + u] == input@[u],
                !matched ==> frame_charset().subrange(k as int, k + input@.len()) != input@,
            decreases n - j + if matched {
                1int
            } else {
                0int
            },
        {
            if lit.get_char(k + j) != input.get_char(j) {
                matched = false;
                proof {
                    assert(frame_charset().subrange(k as int, k + input@.len())[j as int]
                        != input@[j as int]);
                }
            } else {
                j = j + 1;
            }
        }
        if matched {
            proof {
                assert(frame_charset().subrange(k as int, k + input@.len()) =~= input@);
            }
            return true;
        }
        k = k + 1;
    }
    false
}

} // verus!
