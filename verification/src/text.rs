use vstd::prelude::*;

verus! {

/// Whether two string slices hold the same characters.
pub fn str_eq(a: &str, b: &str) -> (r: bool)
    ensures
        r == (a@ == b@),
{
    let sa = a.to_owned();
    let sb = b.to_owned();
    sa == sb
}

/// `count` copies of `c` (none for a non-positive count).
pub open spec fn repeat_char(c: char, count: int) -> Seq<char> {
    Seq::new(
        if count <= 0 {
            0
        } else {
            count as nat
        },
        |i: int| c,
    )
}

/// `s` padded on the right with spaces to at least `width` characters;
/// longer strings stand as they are.
pub open spec fn pad_right_chars(s: Seq<char>, width: int) -> Seq<char> {
    if s.len() >= width {
        s
    } else {
        s + repeat_char(' ', width - s.len())
    }
}

/// Pads `s` on the right with spaces, as `pad_right_chars` describes.
pub fn pad_right(s: &str, width: usize) -> (r: String)
    ensures
        r@ == pad_right_chars(s@, width as int),
{
    let n = s.unicode_len();
    let mut out = s.to_owned();
    proof {
        reveal_strlit(" ");
        assert(out@ =~= s@ + repeat_char(' ', 0));
    }
    let mut k = n;
    while k < width
        invariant
            n <= k,
            k <= width || k == n,
            n == s@.len(),
            " "@ == seq![' '],
            out@ == s@ + repeat_char(' ', k - n),
        decreases width - k,
    {
        out.append(" ");
        proof {
            assert(out@ =~= s@ + repeat_char(' ', k + 1 - n));
        }
        k = k + 1;
    }
    proof {
        if n >= width {
            assert(out@ =~= s@);
        }
        assert(out@ =~= pad_right_chars(s@, width as int));
    }
    out
}

/// A run of `count` dashes.
pub fn dash_run(count: usize) -> (r: String)
    ensures
        r@ == repeat_char('-', count as int),
{
    let mut out = String::new();
    proof {
        reveal_strlit("-");
        assert(out@ =~= repeat_char('-', 0));
    }
    let mut k: usize = 0;
    while k < count
        invariant
            k <= count,
            "-"@ == seq!['-'],
            out@ == repeat_char('-', k as int),
        decreases count - k,
    {
        out.append("-");
        proof {
            assert(out@ =~= repeat_char('-', k + 1));
        }
        k = k + 1;
    }
    out
}

} // verus!
