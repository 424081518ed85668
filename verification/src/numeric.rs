use vstd::prelude::*;

verus! {

/// A decimal digit.
pub open spec fn is_digit(c: char) -> bool {
    48 <= c as int <= 57
}

/// The value of one decimal digit.
pub open spec fn digit_val(c: char) -> int {
    c as int - 48
}

/// Every character is a decimal digit.
pub open spec fn all_digits(s: Seq<char>) -> bool {
    forall|i: int| 0 <= i < s.len() ==> is_digit(#[trigger] s[i])
}

/// The value of a digit string, most significant digit first.
pub open spec fn digits_value(s: Seq<char>) -> int
    decreases s.len(),
{
    if s.len() == 0 {
        0
    } else {
        digits_value(s.drop_last()) * 10 + digit_val(s.last())
    }
}

/// The digit part of a signed decimal string: everything after a leading
/// sign, if any.
pub open spec fn i32_digits(s: Seq<char>) -> Seq<char> {
    if s.len() > 0 && (s[0] == '+' || s[0] == '-') {
        s.drop_first()
    } else {
        s
    }
}

/// Whether a signed decimal string is negative.
pub open spec fn i32_negative(s: Seq<char>) -> bool {
    s.len() > 0 && s[0] == '-'
}

/// Whether `s` is accepted as an `i32` by decimal parsing: an optional sign,
/// then at least one digit, with the signed value in range.
pub open spec fn parses_as_i32(s: Seq<char>) -> bool {
    let d = i32_digits(s);
    d.len() > 0 && all_digits(d) && (if i32_negative(s) {
        digits_value(d) <= 0x8000_0000
    } else {
        digits_value(d) <= 0x7fff_ffff
    })
}

/// Powers of ten.
pub open spec fn pow10(n: nat) -> int
    decreases n,
{
    if n == 0 {
        1
    } else {
        10 * pow10((n - 1) as nat)
    }
}

proof fn lemma_pow10_pos(n: nat)
    ensures
        pow10(n) >= 1,
    decreases n,
{
    if n > 0 {
        lemma_pow10_pos((n - 1) as nat);
    }
}

proof fn lemma_pow10_mono(m: nat, n: nat)
    requires
        m <= n,
    ensures
        pow10(m) <= pow10(n),
    decreases n,
{
    if m < n {
        lemma_pow10_mono(m, (n - 1) as nat);
        lemma_pow10_pos((n - 1) as nat);
    }
}

proof fn lemma_digits_value_nonneg(s: Seq<char>)
    requires
        all_digits(s),
    ensures
        digits_value(s) >= 0,
    decreases s.len(),
{
    if s.len() > 0 {
        assert(all_digits(s.drop_last()));
        lemma_digits_value_nonneg(s.drop_last());
    }
}

proof fn lemma_digits_value_zeros(zeros: Seq<char>)
    requires
        forall|i: int| 0 <= i < zeros.len() ==> zeros[i] == '0',
    ensures
        digits_value(zeros) == 0,
    decreases zeros.len(),
{
    if zeros.len() > 0 {
        lemma_digits_value_zeros(zeros.drop_last());
    }
}

proof fn lemma_digits_value_skip_zeros(zeros: Seq<char>, rest: Seq<char>)
    requires
        forall|i: int| 0 <= i < zeros.len() ==> zeros[i] == '0',
    ensures
        digits_value(zeros + rest) == digits_value(rest),
    decreases rest.len(),
{
    if rest.len() == 0 {
        assert(zeros + rest =~= zeros);
        lemma_digits_value_zeros(zeros);
    } else {
        assert((zeros + rest).drop_last() =~= zeros + rest.drop_last());
        lemma_digits_value_skip_zeros(zeros, rest.drop_last());
        assert((zeros + rest).last() == rest.last());
    }
}

proof fn lemma_digits_value_lower(s: Seq<char>)
    requires
        all_digits(s),
        s.len() >= 1,
        digit_val(s[0]) >= 1,
    ensures
        digits_value(s) >= pow10((s.len() - 1) as nat),
    decreases s.len(),
{
    if s.len() == 1 {
        assert(s.drop_last().len() == 0);
        assert(digits_value(s.drop_last()) == 0);
        assert(digits_value(s) == digit_val(s[0]));
        assert(pow10(0) == 1);
    } else {
        let dl = s.drop_last();
        assert(all_digits(dl));
        assert(dl[0] == s[0]);
        lemma_digits_value_lower(dl);
        assert(is_digit(s.last()));
        let p = pow10((dl.len() - 1) as nat);
        assert(pow10((s.len() - 1) as nat) == 10 * p);
        assert(digits_value(dl) * 10 >= p * 10) by (nonlinear_arith)
            requires
                digits_value(dl) >= p,
        ;
        assert(digits_value(s) == digits_value(dl) * 10 + digit_val(s.last()));
    }
}

/// The position of the first character at or after `start` that is not a
/// zero digit, or the end of the string.
fn skip_zeros(s: &str, start: usize, n: usize) -> (z: usize)
    requires
        n == s@.len(),
        start <= n,
    ensures
        start <= z <= n,
        forall|i: int| start <= i < z ==> s@[i] == '0',
        z < n ==> s@[z as int] != '0',
{
    let mut z = start;
    while z < n
        invariant
            start <= z <= n,
            n == s@.len(),
            forall|i: int| start <= i < z ==> s@[i] == '0',
        decreases n - z,
    {
        if s.get_char(z) != '0' {
            return z;
        }
        z = z + 1;
    }
    z
}

/// Whether every character of `s` between `start` and `n` is a decimal
/// digit.
fn check_all_digits(s: &str, start: usize, n: usize) -> (r: bool)
    requires
        n == s@.len(),
        start <= n,
    ensures
        r == all_digits(s@.subrange(start as int, n as int)),
{
    let mut q: usize = start;
    while q < n
        invariant
            start <= q <= n,
            n == s@.len(),
            forall|t: int| start <= t < q ==> is_digit(#[trigger] s@[t]),
        decreases n - q,
    {
        let cv = s.get_char(q) as u32;
        if cv < 48 || cv > 57 {
            proof {
                assert(!is_digit(s@.subrange(start as int, n as int)[q - start]));
            }
            return false;
        }
        q = q + 1;
    }
    proof {
        let ghost d = s@.subrange(start as int, n as int);
        assert(forall|t: int| 0 <= t < d.len() ==> d[t] == s@[start + t]);
    }
    true
}

/// The value of the digit run of `s` between `z` and `n`, at most ten
/// digits long.
fn digits_acc(s: &str, z: usize, n: usize) -> (acc: u64)
    requires
        n == s@.len(),
        z <= n,
        n - z <= 10,
        all_digits(s@.subrange(z as int, n as int)),
    ensures
        acc == digits_value(s@.subrange(z as int, n as int)),
{
    proof {
        reveal_with_fuel(pow10, 11);
        assert(pow10(9) == 1_000_000_000);
        assert(pow10(10) == 10_000_000_000);
    }
    let mut acc: u64 = 0;
    let mut i: usize = z;
    while i < n
        invariant
            z <= i <= n,
            n == s@.len(),
            n - z <= 10,
            all_digits(s@.subrange(z as int, n as int)),
            acc == digits_value(s@.subrange(z as int, i as int)),
            acc < pow10((i - z) as nat),
            pow10(9) == 1_000_000_000,
            pow10(10) == 10_000_000_000,
        decreases n - i,
    {
        let c = s.get_char(i);
        proof {
            assert(s@.subrange(z as int, n as int)[i - z] == s@[i as int]);
            assert(is_digit(s@[i as int]));
        }
        let dv: u64 = (c as u32 - 48) as u64;
        proof {
            assert(s@.subrange(z as int, i + 1).drop_last() =~= s@.subrange(z as int, i as int));
            assert(s@.subrange(z as int, i + 1).last() == s@[i as int]);
            lemma_pow10_mono((i - z) as nat, 9);
            lemma_pow10_pos((i - z) as nat);
            assert(pow10((i + 1 - z) as nat) == 10 * pow10((i - z) as nat));
        }
        acc = acc * 10 + dv;
        i = i + 1;
    }
    acc
}

/// Whether `s` parses as an `i32` in decimal, as `parses_as_i32` describes:
/// an optional sign, then at least one digit, value within range.
pub fn is_i32_string(s: &str) -> (r: bool)
    ensures
        r == parses_as_i32(s@),
{
    let n = s.unicode_len();
    if n == 0 {
        return false;
    }
    let c0 = s.get_char(0);
    let start: usize = if c0 == '+' || c0 == '-' {
        1
    } else {
        0
    };
    let neg = c0 == '-';
    if n == start {
        return false;
    }
    let ghost d = i32_digits(s@);
    proof {
        assert(d =~= s@.subrange(start as int, n as int));
    }
    // every character of the digit part must be a digit
    if !check_all_digits(s, start, n) {
        return false;
    }
    // skip leading zeros of the digit part
    let z: usize = skip_zeros(s, start, n);
    let ghost zeros = s@.subrange(start as int, z as int);
    let ghost nz = s@.subrange(z as int, n as int);
    proof {
        assert(d =~= zeros + nz);
        lemma_digits_value_skip_zeros(zeros, nz);
        assert forall|t: int| 0 <= t < nz.len() implies is_digit(#[trigger] nz[t]) by {
            assert(nz[t] == d[(z - start) + t]);
        }
    }
    // more than ten digits past the zeros puts the value out of range either
    // way: the leading digit is nonzero, so the value is at least ten to the
    // tenth
    if n - z > 10 {
        proof {
            assert(nz[0] == s@[z as int]);
            assert(digit_val(nz[0]) >= 1);
            lemma_digits_value_lower(nz);
            lemma_pow10_mono(10, (nz.len() - 1) as nat);
            reveal_with_fuel(pow10, 11);
            assert(pow10(10) == 10_000_000_000);
        }
        return false;
    }
    // accumulate the value of the remaining digits and compare to the range
    let acc = digits_acc(s, z, n);
    proof {
        assert(digits_value(d) == acc);
    }
    if neg {
        acc <= 0x8000_0000
    } else {
        acc <= 0x7fff_ffff
    }
}

/// The character of one decimal digit value.
pub open spec fn digit_char(d: int) -> char {
    if d == 0 {
        '0'
    } else if d == 1 {
        '1'
    } else if d == 2 {
        '2'
    } else if d == 3 {
        '3'
    } else if d == 4 {
        '4'
    } else if d == 5 {
        '5'
    } else if d == 6 {
        '6'
    } else if d == 7 {
        '7'
    } else if d == 8 {
        '8'
    } else {
        '9'
    }
}

/// The decimal digits of `n`, most significant first.
pub open spec fn dec_chars(n: nat) -> Seq<char>
    decreases n,
{
    if n < 10 {
        seq![digit_char(n as int)]
    } else {
        dec_chars(n / 10) + seq![digit_char((n % 10) as int)]
    }
}

/// The text of one decimal digit value.
fn digit_str(d: u32) -> (r: &'static str)
    requires
        d <= 9,
    ensures
        r@ == seq![digit_char(d as int)],
{
    proof {
        reveal_strlit("0");
        reveal_strlit("1");
        reveal_strlit("2");
        reveal_strlit("3");
        reveal_strlit("4");
        reveal_strlit("5");
        reveal_strlit("6");
        reveal_strlit("7");
        reveal_strlit("8");
        reveal_strlit("9");
    }
    let r = if d == 0 {
        "0"
    } else if d == 1 {
        "1"
    } else if d == 2 {
        "2"
    } else if d == 3 {
        "3"
    } else if d == 4 {
        "4"
    } else if d == 5 {
        "5"
    } else if d == 6 {
        "6"
    } else if d == 7 {
        "7"
    } else if d == 8 {
        "8"
    } else {
        "9"
    };
    proof {
        assert(r@ =~= seq![digit_char(d as int)]);
    }
    r
}

/// The decimal text of `n`, as `dec_chars` describes.
pub fn u32_to_string(n: u32) -> (r: String)
    ensures
        r@ == dec_chars(n as nat),
    decreases n,
{
    if n < 10 {
        digit_str(n).to_owned()
    } else {
        let mut s = u32_to_string(n / 10);
        s.append(digit_str(n % 10));
        proof {
            assert(s@ =~= dec_chars(n as nat));
        }
        s
    }
}

} // verus!
