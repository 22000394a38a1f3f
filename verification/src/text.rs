//! Text building blocks: decimal rendering of integers and string assembly.
use vstd::prelude::*;

verus! {

/// The ASCII digit for `d`, for `0 <= d < 10`.
pub open spec fn digit_char(d: nat) -> char {
    if d == 0 {
        '0'
    } else if d == 1 {
        '1'
    } else if d == 2 {
        '2'
    } else if d == 3 {
        '3'
    } else if d == 4 {
        '4'
    } else if d == 5 {
        '5'
    } else if d == 6 {
        '6'
    } else if d == 7 {
        '7'
    } else if d == 8 {
        '8'
    } else {
        '9'
    }
}

/// Decimal digits of a natural number, most significant first, no leading zeros.
pub open spec fn digits(n: nat) -> Seq<char>
    decreases n,
{
    if n < 10 {
        seq![digit_char(n)]
    } else {
        digits(n / 10).push(digit_char(n % 10))
    }
}

/// Decimal rendering of an integer, with a leading `-` for negative values.
pub open spec fn decimal(v: int) -> Seq<char> {
    if v < 0 {
        seq!['-'] + digits((-v) as nat)
    } else {
        digits(v as nat)
    }
}

/// A whole number shown with one fractional digit, as `{:.1}` shows it.
pub open spec fn one_decimal(v: int) -> Seq<char> {
    decimal(v) + seq!['.', '0']
}

/// A whole number shown with two fractional digits, as `{:.2}` shows it.
pub open spec fn two_decimals(v: int) -> Seq<char> {
    decimal(v) + seq!['.', '0', '0']
}

/// The number a decimal digit character stands for (-1 for any other character).
pub open spec fn digit_value(c: char) -> int {
    if c == '0' {
        0
    } else if c == '1' {
        1
    } else if c == '2' {
        2
    } else if c == '3' {
        3
    } else if c == '4' {
        4
    } else if c == '5' {
        5
    } else if c == '6' {
        6
    } else if c == '7' {
        7
    } else if c == '8' {
        8
    } else if c == '9' {
        9
    } else {
        -1
    }
}

/// The number a string of decimal digits reads as.
pub open spec fn digits_value(s: Seq<char>) -> int
    decreases s.len(),
{
    if s.len() == 0 {
        0
    } else {
        digits_value(s.drop_last()) * 10 + digit_value(s.last())
    }
}

proof fn lemma_digit_char_value(d: nat)
    requires
        d < 10,
    ensures
        digit_value(digit_char(d)) == d,
{
    assert(d == 0 || d == 1 || d == 2 || d == 3 || d == 4 || d == 5 || d == 6 || d == 7 || d == 8
        || d == 9);
}

/// The digits of `n` are decimal digit characters that read back as `n`.
pub proof fn lemma_digits_read_back(n: nat)
    ensures
        digits(n).len() > 0,
        digits_value(digits(n)) == n,
        forall|i: int| 0 <= i < digits(n).len() ==> 0 <= #[trigger] digit_value(digits(n)[i]) <= 9,
    decreases n,
{
    if n < 10 {
        lemma_digit_char_value(n);
        assert(digits(n).drop_last() =~= Seq::<char>::empty());
        assert(digits(n).last() == digit_char(n));
        assert(digits_value(digits(n)) == digits_value(digits(n).drop_last()) * 10 + digit_value(
            digits(n).last(),
        ));
    } else {
        lemma_digit_char_value(n % 10);
        lemma_digits_read_back(n / 10);
        vstd::arithmetic::div_mod::lemma_fundamental_div_mod(n as int, 10);
        assert(digits(n).drop_last() =~= digits(n / 10));
        assert(digits(n).last() == digit_char(n % 10));
        assert(digits_value(digits(n)) == digits_value(digits(n / 10)) * 10 + digit_value(
            digit_char(n % 10),
        ));
        assert forall|i: int| 0 <= i < digits(n).len() implies 0 <= #[trigger] digit_value(digits(n)[i])
            <= 9 by {
            if i < digits(n / 10).len() {
                assert(digits(n)[i] == digits(n / 10)[i]);
            }
        }
    }
}

/// The decimal rendering of `v` starts with `-` exactly when `v` is negative, and the
/// digits after the sign read back as the magnitude of `v`.
pub proof fn lemma_decimal_reads_back(v: int)
    ensures
        decimal(v).len() > 0,
        decimal(v)[0] == '-' <==> v < 0,
        v < 0 ==> digits_value(decimal(v).drop_first()) == -v,
        v >= 0 ==> digits_value(decimal(v)) == v,
        one_decimal(v) == decimal(v) + seq!['.', '0'],
{
    if v < 0 {
        lemma_digits_read_back((-v) as nat);
        assert(decimal(v).drop_first() =~= digits((-v) as nat));
    } else {
        lemma_digits_read_back(v as nat);
        assert(0 <= digit_value(digits(v as nat)[0]) <= 9);
    }
}

/// `String::push`: appends one character at the end of the string.
#[verifier::external_body]
pub(crate) fn push_char(s: &mut String, c: char)
    ensures
        final(s)@ == old(s)@.push(c),
{
    s.push(c);
}

fn digit_of(d: u64) -> (c: char)
    requires
        d < 10,
    ensures
        c == digit_char(d as nat),
{
    if d == 0 {
        '0'
    } else if d == 1 {
        '1'
    } else if d == 2 {
        '2'
    } else if d == 3 {
        '3'
    } else if d == 4 {
        '4'
    } else if d == 5 {
        '5'
    } else if d == 6 {
        '6'
    } else if d == 7 {
        '7'
    } else if d == 8 {
        '8'
    } else {
        '9'
    }
}

/// Appends the decimal digits of `n` to `s`.
pub fn push_digits(s: &mut String, n: u64)
    ensures
        final(s)@ == old(s)@ + digits(n as nat),
    decreases n,
{
    if n >= 10 {
        push_digits(s, n / 10);
        push_char(s, digit_of(n % 10));
        assert(final(s)@ == old(s)@ + digits(n as nat));
    } else {
        push_char(s, digit_of(n));
        assert(final(s)@ == old(s)@ + digits(n as nat));
    }
}

/// Appends the decimal rendering of `v` to `s`.
pub fn push_decimal(s: &mut String, v: i64)
    ensures
        final(s)@ == old(s)@ + decimal(v as int),
{
    if v < 0 {
        push_char(s, '-');
        let wide: i128 = v as i128;
        let magnitude: u64 = (-wide) as u64;
        push_digits(s, magnitude);
        assert(final(s)@ == old(s)@ + decimal(v as int));
    } else {
        push_digits(s, v as u64);
    }
}

/// Appends `v` followed by `.0` to `s`.
pub fn push_one_decimal(s: &mut String, v: i64)
    ensures
        final(s)@ == old(s)@ + one_decimal(v as int),
{
    push_decimal(s, v);
    push_char(s, '.');
    push_char(s, '0');
    assert(final(s)@ == old(s)@ + one_decimal(v as int));
}

/// Appends `v` followed by `.00` to `s`.
pub fn push_two_decimals(s: &mut String, v: u64)
    ensures
        final(s)@ == old(s)@ + two_decimals(v as int),
{
    push_digits(s, v);
    push_char(s, '.');
    push_char(s, '0');
    push_char(s, '0');
    assert(final(s)@ == old(s)@ + two_decimals(v as int));
}

/// `s` with each occurrence of the non-empty pattern `pat` replaced by `rep`, scanning left
/// to right without overlaps, as `str::replace` does.
pub open spec fn replace_all(s: Seq<char>, pat: Seq<char>, rep: Seq<char>) -> Seq<char>
    decreases s.len(),
{
    if pat.len() == 0 || s.len() < pat.len() {
        s
    } else if s.subrange(0, pat.len() as int) == pat {
        rep + replace_all(s.subrange(pat.len() as int, s.len() as int), pat, rep)
    } else {
        seq![s[0]] + replace_all(s.subrange(1, s.len() as int), pat, rep)
    }
}

/// The characters of `s`.
pub fn chars_of(s: &str) -> (v: Vec<char>)
    ensures
        v@ == s@,
{
    let n = s.unicode_len();
    let mut v: Vec<char> = Vec::new();
    let mut i: usize = 0;
    while i < n
        invariant
            i <= n,
            n == s@.len(),
            v@ == s@.subrange(0, i as int),
        decreases n - i,
    {
        v.push(s.get_char(i));
        i = i + 1;
        assert(v@ =~= s@.subrange(0, i as int));
    }
    assert(v@ =~= s@);
    v
}

/// Whether `pat` occurs in `s` at position `i`.
fn occurs_at(s: &Vec<char>, pat: &Vec<char>, i: usize) -> (b: bool)
    requires
        i + pat@.len() <= s@.len(),
    ensures
        b == (s@.subrange(i as int, i + pat@.len()) == pat@),
{
    let m = pat.len();
    let total = s.len();
    let mut j: usize = 0;
    while j < m
        invariant
            j <= m,
            m == pat@.len(),
            total == s@.len(),
            i + m <= s@.len(),
            forall|k: int| 0 <= k < j ==> s@[i + k] == pat@[k],
        decreases m - j,
    {
        if s[i + j] != pat[j] {
            assert(s@.subrange(i as int, i + m)[j as int] != pat@[j as int]);
            return false;
        }
        j = j + 1;
    }
    assert(s@.subrange(i as int, i + m) =~= pat@);
    true
}

/// `s` with each occurrence of `pat` replaced by `rep`.
pub fn replace_all_str(s: &str, pat: &str, rep: &str) -> (r: String)
    requires
        pat@.len() > 0,
    ensures
        r@ == replace_all(s@, pat@, rep@),
{
    let sv = chars_of(s);
    let pv = chars_of(pat);
    let n = sv.len();
    let m = pv.len();
    let mut out = String::new();
    let mut i: usize = 0;
    assert(sv@.subrange(0, n as int) =~= sv@);
    while i < n
        invariant
            i <= n,
            n == sv@.len(),
            m == pv@.len(),
            m > 0,
            out@ + replace_all(sv@.subrange(i as int, n as int), pv@, rep@) == replace_all(sv@, pv@, rep@),
        decreases n - i,
    {
        let ghost rest = sv@.subrange(i as int, n as int);
        if m <= n - i && occurs_at(&sv, &pv, i) {
            let ghost before = out@;
            out.append(rep);
            assert(rest.subrange(0, m as int) =~= sv@.subrange(i as int, i + m));
            assert(rest.subrange(m as int, rest.len() as int) =~= sv@.subrange(i + m, n as int));
            assert(before + replace_all(rest, pv@, rep@) =~= out@ + replace_all(
                sv@.subrange(i + m, n as int),
                pv@,
                rep@,
            ));
            i = i + m;
        } else {
            let ghost before = out@;
            push_char(&mut out, sv[i]);
            if m <= n - i {
                assert(rest.subrange(0, m as int) =~= sv@.subrange(i as int, i + m));
                assert(rest.subrange(1, rest.len() as int) =~= sv@.subrange(i + 1, n as int));
                assert(before + replace_all(rest, pv@, rep@) =~= out@ + replace_all(
                    sv@.subrange(i + 1, n as int),
                    pv@,
                    rep@,
                ));
            } else {
                assert(rest.subrange(1, rest.len() as int) =~= sv@.subrange(i + 1, n as int));
                assert(before + rest =~= out@ + sv@.subrange(i + 1, n as int));
            }
            i = i + 1;
        }
    }
    assert(sv@.subrange(n as int, n as int) =~= Seq::<char>::empty());
    assert(out@ + Seq::<char>::empty() =~= out@);
    out
}

} // verus!
