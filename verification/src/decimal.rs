//! Unsigned decimal numerals: how the crate writes them (optionally padded
//! with leading zeros) and how it reads them back.
use vstd::prelude::*;

verus! {

/// The character of a decimal digit `d < 10`.
pub open spec fn digit_char(d: nat) -> char {
    if d == 0 {
        '0'
    } else if d == 1 {
        '1'
    } else if d == 2 {
        '2'
    } else if d == 3 {
        '3'
    } else if d == 4 {
        '4'
    } else if d == 5 {
        '5'
    } else if d == 6 {
        '6'
    } else if d == 7 {
        '7'
    } else if d == 8 {
        '8'
    } else {
        '9'
    }
}

/// `c` is one of the ASCII digits `0`..`9`.
pub open spec fn is_digit(c: char) -> bool {
    '0' <= c && c <= '9'
}

/// The value of the ASCII digit `c`.
pub open spec fn digit_value(c: char) -> nat {
    ((c as int) - ('0' as int)) as nat
}

/// Every character of `s` is an ASCII digit.
pub open spec fn all_digits(s: Seq<char>) -> bool {
    forall|i: int| 0 <= i < s.len() ==> is_digit(#[trigger] s[i])
}

/// The value of a string of digits, most significant first (0 for the empty string).
pub open spec fn digits_value(s: Seq<char>) -> nat
    decreases s.len(),
{
    if s.len() == 0 {
        0
    } else {
        digits_value(s.drop_last()) * 10 + digit_value(s.last())
    }
}

/// The shortest decimal numeral of `n`.
pub open spec fn decimal(n: nat) -> Seq<char>
    decreases n,
{
    if n < 10 {
        seq![digit_char(n)]
    } else {
        decimal(n / 10).push(digit_char(n % 10))
    }
}

/// `n` zero characters.
pub open spec fn zeros(n: nat) -> Seq<char> {
    Seq::new(n, |i: int| '0')
}

/// `s` preceded by as many `0` as it takes to make it `width` characters long.
pub open spec fn zero_pad(s: Seq<char>, width: nat) -> Seq<char> {
    if s.len() >= width {
        s
    } else {
        zeros((width - s.len()) as nat) + s
    }
}

/// What reading `s` as an unsigned decimal no greater than `max` gives: an
/// optional `+`, then one or more ASCII digits, whose value must not exceed
/// `max`. Any other string is refused.
pub open spec fn spec_parse_uint(s: Seq<char>, max: nat) -> Option<nat> {
    let d = if s.len() > 0 && s[0] == '+' {
        s.drop_first()
    } else {
        s
    };
    if d.len() > 0 && all_digits(d) && digits_value(d) <= max {
        Some(digits_value(d))
    } else {
        None
    }
}

proof fn lemma_digit_char(d: nat)
    requires
        d < 10,
    ensures
        is_digit(digit_char(d)),
        digit_value(digit_char(d)) == d,
        digit_char(d) != '-',
        digit_char(d) != '+',
{
}

/// The numeral of `n` is made of digits, is not empty, and reads back as `n`.
pub proof fn lemma_decimal(n: nat)
    ensures
        decimal(n).len() >= 1,
        all_digits(decimal(n)),
        digits_value(decimal(n)) == n,
    decreases n,
{
    if n < 10 {
        lemma_digit_char(n);
        assert(decimal(n).drop_last() =~= Seq::<char>::empty());
        assert(digits_value(Seq::<char>::empty()) == 0);
        assert(decimal(n).last() == digit_char(n));
    } else {
        lemma_decimal(n / 10);
        lemma_digit_char(n % 10);
        assert(n == (n / 10) * 10 + n % 10);
        let s = decimal(n);
        assert(s.drop_last() =~= decimal(n / 10));
        assert forall|i: int| 0 <= i < s.len() implies is_digit(#[trigger] s[i]) by {
            if i < s.len() - 1 {
                assert(s[i] == decimal(n / 10)[i]);
            }
        }
    }
}

/// Leading zeros do not change the value of a numeral.
pub proof fn lemma_digits_value_zeros(k: nat, s: Seq<char>)
    ensures
        digits_value(zeros(k) + s) == digits_value(s),
    decreases s.len(),
{
    if s.len() == 0 {
        lemma_zeros_value(k);
        assert(zeros(k) + s =~= zeros(k));
    } else {
        lemma_digits_value_zeros(k, s.drop_last());
        assert((zeros(k) + s).drop_last() =~= zeros(k) + s.drop_last());
    }
}

proof fn lemma_zeros_value(k: nat)
    ensures
        digits_value(zeros(k)) == 0,
    decreases k,
{
    if k > 0 {
        lemma_zeros_value((k - 1) as nat);
        assert(zeros(k).drop_last() =~= zeros((k - 1) as nat));
    }
}

/// A numeral padded with zeros is made of digits, starts with a digit, and
/// reads back as the number it was written for.
pub proof fn lemma_zero_pad(n: nat, width: nat)
    ensures
        zero_pad(decimal(n), width).len() >= 1,
        zero_pad(decimal(n), width).len() >= width,
        all_digits(zero_pad(decimal(n), width)),
        digits_value(zero_pad(decimal(n), width)) == n,
{
    lemma_decimal(n);
    let s = decimal(n);
    if s.len() < width {
        let k = (width - s.len()) as nat;
        lemma_digits_value_zeros(k, s);
        let p = zeros(k) + s;
        assert forall|i: int| 0 <= i < p.len() implies is_digit(#[trigger] p[i]) by {
            if i >= k {
                assert(p[i] == s[i - k]);
            }
        }
    }
}

/// Reading back a padded numeral of a number no greater than `max` gives the number.
pub proof fn lemma_parse_zero_pad(n: nat, width: nat, max: nat)
    requires
        n <= max,
    ensures
        spec_parse_uint(zero_pad(decimal(n), width), max) == Some(n),
{
    lemma_zero_pad(n, width);
    let s = zero_pad(decimal(n), width);
    assert(is_digit(s[0]));
}

/// `s` is the numeral of `v` written at least `width` characters wide: only
/// digits, worth `v`, at least `width` long, and with no leading zero beyond
/// those the width asks for.
pub open spec fn is_padded_numeral(s: Seq<char>, v: nat, width: nat) -> bool {
    &&& s.len() >= 1
    &&& s.len() >= width
    &&& all_digits(s)
    &&& digits_value(s) == v
    &&& s.len() > width ==> s[0] != '0'
}

proof fn lemma_decimal_leading(n: nat)
    ensures
        n >= 1 ==> decimal(n)[0] != '0',
        decimal(n).len() >= 2 ==> n >= 10,
    decreases n,
{
    lemma_decimal(n);
    if n >= 10 {
        lemma_decimal_leading(n / 10);
        lemma_decimal(n / 10);
        assert(decimal(n)[0] == decimal(n / 10)[0]);
    }
}

/// The numeral that the crate writes for `n` is the usual one: only digits,
/// worth `n`, and without a leading zero (so `0` is written `0`, and every
/// other number starts with a non-zero digit).
pub proof fn lemma_decimal_canonical(n: nat)
    ensures
        is_padded_numeral(decimal(n), n, 1),
{
    lemma_decimal(n);
    lemma_decimal_leading(n);
}

/// A numeral padded to `width` is exactly `width` long when the number has
/// fewer digits, and is the plain numeral otherwise.
pub proof fn lemma_zero_pad_canonical(n: nat, width: nat)
    requires
        width >= 1,
    ensures
        is_padded_numeral(zero_pad(decimal(n), width), n, width),
{
    lemma_zero_pad(n, width);
    lemma_decimal_leading(n);
}

/// Any string of one or more digits reads as its value, when that value is
/// no greater than `max`, leading zeros or not.
pub proof fn lemma_parse_digits(s: Seq<char>, max: nat)
    requires
        s.len() >= 1,
        all_digits(s),
        digits_value(s) <= max,
    ensures
        spec_parse_uint(s, max) == Some(digits_value(s)),
{
    assert(is_digit(s[0]));
}

/// Appending digits to a numeral never makes its value smaller.
proof fn lemma_digits_value_prefix(s: Seq<char>, j: int, k: int)
    requires
        0 <= j <= k <= s.len(),
    ensures
        digits_value(s.take(j)) <= digits_value(s.take(k)),
    decreases k - j,
{
    if j < k {
        lemma_digits_value_prefix(s, j, k - 1);
        assert(s.take(k).drop_last() =~= s.take(k - 1));
    }
}

/// Reads `s[lo..hi]` as an unsigned decimal no greater than `max`, the way
/// `str::parse` reads an unsigned integer type whose largest value is `max`.
pub fn parse_uint(s: &Vec<char>, lo: usize, hi: usize, max: u32) -> (r: Option<u32>)
    requires
        lo <= hi <= s@.len(),
    ensures
        r == (match spec_parse_uint(s@.subrange(lo as int, hi as int), max as nat) {
            Some(v) => Some(v as u32),
            None => None,
        }),
{
    let ghost whole = s@.subrange(lo as int, hi as int);
    let mut start = lo;
    if lo < hi && s[lo] == '+' {
        start = lo + 1;
    }
    let ghost d = s@.subrange(start as int, hi as int);
    assert(d =~= if whole.len() > 0 && whole[0] == '+' {
        whole.drop_first()
    } else {
        whole
    });
    if start == hi {
        return None;
    }
    let mut acc: u64 = 0;
    let mut i = start;
    while i < hi
        invariant
            start <= i <= hi <= s@.len(),
            d == s@.subrange(start as int, hi as int),
            whole == s@.subrange(lo as int, hi as int),
            d == (if whole.len() > 0 && whole[0] == '+' {
                whole.drop_first()
            } else {
                whole
            }),
            acc as nat == digits_value(d.take(i - start)),
            acc <= max,
            forall|k: int| 0 <= k < i - start ==> is_digit(#[trigger] d[k]),
        decreases hi - i,
    {
        let c = s[i];
        if c < '0' || c > '9' {
            assert(!is_digit(d[i - start]));
            assert(!all_digits(d));
            return None;
        }
        let v: u64 = (c as u64) - ('0' as u64);
        assert(d.take(i - start + 1).drop_last() =~= d.take(i - start));
        assert(d[i - start] == c);
        acc = acc * 10 + v;
        i = i + 1;
        if acc > max as u64 {
            proof {
                if all_digits(d) {
                    lemma_digits_value_prefix(d, i - start, d.len() as int);
                    assert(d.take(d.len() as int) =~= d);
                }
            }
            return None;
        }
    }
    assert(d.take(i - start) =~= d);
    Some(acc as u32)
}

/// A single decimal digit as a one-character string.
fn digit_str(d: u32) -> (r: &'static str)
    requires
        d < 10,
    ensures
        r@ == seq![digit_char(d as nat)],
{
    if d == 0 {
        proof { reveal_strlit("0"); }
        "0"
    } else if d == 1 {
        proof { reveal_strlit("1"); }
        "1"
    } else if d == 2 {
        proof { reveal_strlit("2"); }
        "2"
    } else if d == 3 {
        proof { reveal_strlit("3"); }
        "3"
    } else if d == 4 {
        proof { reveal_strlit("4"); }
        "4"
    } else if d == 5 {
        proof { reveal_strlit("5"); }
        "5"
    } else if d == 6 {
        proof { reveal_strlit("6"); }
        "6"
    } else if d == 7 {
        proof { reveal_strlit("7"); }
        "7"
    } else if d == 8 {
        proof { reveal_strlit("8"); }
        "8"
    } else {
        proof { reveal_strlit("9"); }
        "9"
    }
}

/// Appends the decimal numeral of `n` to `out`.
pub fn push_decimal(out: &mut String, n: u32)
    ensures
        final(out)@ == old(out)@ + decimal(n as nat),
        is_padded_numeral(final(out)@.skip(old(out)@.len() as int), n as nat, 1),
    decreases n,
{
    proof { lemma_decimal_canonical(n as nat); }
    if n >= 10 {
        push_decimal(out, n / 10);
    }
    out.append(digit_str(n % 10));
    assert(old(out)@ + decimal(n as nat) =~= if n >= 10 {
        old(out)@ + decimal((n / 10) as nat) + seq![digit_char((n % 10) as nat)]
    } else {
        old(out)@ + seq![digit_char((n % 10) as nat)]
    });
    assert(out@.skip(old(out)@.len() as int) =~= decimal(n as nat));
}

/// The number of digits of the decimal numeral of `n`.
fn decimal_len(n: u32) -> (r: u64)
    ensures
        r == decimal(n as nat).len(),
        1 <= r <= n as int + 1,
    decreases n,
{
    if n < 10 {
        1
    } else {
        decimal_len(n / 10) + 1
    }
}

/// Appends the decimal numeral of `n` to `out`, with leading zeros to make it
/// at least `width` characters long.
pub fn push_zero_padded(out: &mut String, n: u32, width: usize)
    ensures
        final(out)@ == old(out)@ + zero_pad(decimal(n as nat), width as nat),
        width >= 1 ==> is_padded_numeral(
            final(out)@.skip(old(out)@.len() as int),
            n as nat,
            width as nat,
        ),
{
    proof {
        if width >= 1 {
            lemma_zero_pad_canonical(n as nat, width as nat);
        }
    }
    let len = decimal_len(n);
    let mut k = len;
    while k < width as u64
        invariant
            len == decimal(n as nat).len(),
            len <= k,
            k <= width || k == len,
            out@ == old(out)@ + zeros((k - len) as nat),
        decreases width - k,
    {
        proof { reveal_strlit("0"); }
        out.append("0");
        assert(zeros((k + 1 - len) as nat) =~= zeros((k - len) as nat).push('0'));
        k = k + 1;
    }
    push_decimal(out, n);
    proof {
        if len >= width {
            assert(k == len);
            assert(zeros(0) =~= Seq::<char>::empty());
        } else {
            assert(k == width);
        }
        assert(old(out)@ + zeros((k - len) as nat) + decimal(n as nat) =~= old(out)@ + zero_pad(
            decimal(n as nat),
            width as nat,
        ));
        assert(out@.skip(old(out)@.len() as int) =~= zero_pad(decimal(n as nat), width as nat));
    }
}

/// The decimal numeral of `n`, as `n.to_string()` writes it.
pub fn u32_to_string(n: u32) -> (r: String)
    ensures
        r@ == decimal(n as nat),
        is_padded_numeral(r@, n as nat, 1),
{
    proof { lemma_decimal_canonical(n as nat); }
    let mut s = String::new();
    push_decimal(&mut s, n);
    assert(Seq::<char>::empty() + decimal(n as nat) =~= decimal(n as nat));
    s
}

/// The characters of `s`, one by one.
pub fn chars_of(s: &str) -> (r: Vec<char>)
    ensures
        r@ == s@,
{
    let n = s.unicode_len();
    let mut v: Vec<char> = Vec::new();
    let mut i: usize = 0;
    while i < n
        invariant
            n == s@.len(),
            i <= n,
            v@ == s@.take(i as int),
        decreases n - i,
    {
        let c = s.get_char(i);
        v.push(c);
        assert(s@.take(i + 1) =~= s@.take(i as int).push(c));
        i = i + 1;
    }
    assert(s@.take(n as int) =~= s@);
    v
}

/// Reads `s` as a `u32` the way `s.parse::<u32>()` does.
pub fn parse_u32(s: &str) -> (r: Option<u32>)
    ensures
        r == (match spec_parse_uint(s@, u32::MAX as nat) {
            Some(v) => Some(v as u32),
            None => None,
        }),
{
    let cs = chars_of(s);
    assert(cs@.subrange(0, cs@.len() as int) =~= s@);
    parse_uint(&cs, 0, cs.len(), u32::MAX)
}

} // verus!
