//! Decimal integers as text: reading (`str::parse::<i64>`) and writing.
use vstd::prelude::*;

use crate::text::is_ascii_digit;

verus! {

/// The value of an ASCII digit.
pub open spec fn digit_val(c: char) -> nat {
    ((c as u32) - 48) as nat
}

/// The ASCII digit of `d < 10`.
pub open spec fn digit_char(d: nat) -> char {
    ((48 + d) as u32) as char
}

/// Every character of `ds` is an ASCII digit.
pub open spec fn all_digits(ds: Seq<char>) -> bool {
    forall|i: int| 0 <= i < ds.len() ==> is_ascii_digit(#[trigger] ds[i])
}

/// The value of a run of decimal digits, most significant first.
pub open spec fn digits_value(ds: Seq<char>) -> nat
    decreases ds.len(),
{
    if ds.len() == 0 {
        0
    } else {
        digits_value(ds.drop_last()) * 10 + digit_val(ds.last())
    }
}

/// The integer that `s` denotes: an optional `+` or `-`, then one or more
/// ASCII digits and nothing else.
pub open spec fn parse_int_spec(s: Seq<char>) -> Option<int> {
    let signed = s.len() > 0 && (s[0] == '-' || s[0] == '+');
    let ds = if signed { s.drop_first() } else { s };
    if ds.len() == 0 || !all_digits(ds) {
        None
    } else if s[0] == '-' {
        Some(-(digits_value(ds) as int))
    } else {
        Some(digits_value(ds) as int)
    }
}

/// What `s.parse::<i64>()` gives: the denoted integer when it fits.
pub open spec fn parse_i64_spec(s: Seq<char>) -> Option<i64> {
    match parse_int_spec(s) {
        Some(v) => if i64::MIN <= v <= i64::MAX {
            Some(v as i64)
        } else {
            None
        },
        None => None,
    }
}

/// The decimal digits of `m`, most significant first, without leading zeros.
pub open spec fn digits_of(m: nat) -> Seq<char>
    decreases m,
{
    if m < 10 {
        seq![digit_char(m)]
    } else {
        digits_of(m / 10).push(digit_char(m % 10))
    }
}

/// The decimal text of `n`, as `format!("{n}")` writes it.
pub open spec fn decimal_of(n: int) -> Seq<char> {
    if n < 0 {
        seq!['-'] + digits_of((-n) as nat)
    } else {
        digits_of(n as nat)
    }
}

proof fn lemma_prefix_value_le(ds: Seq<char>, i: int)
    requires
        0 <= i <= ds.len(),
    ensures
        digits_value(ds.take(i)) <= digits_value(ds),
    decreases ds.len() - i,
{
    if i < ds.len() {
        lemma_prefix_value_le(ds, i + 1);
        assert(ds.take(i + 1).drop_last() =~= ds.take(i));
    } else {
        assert(ds.take(i) =~= ds);
    }
}

proof fn lemma_digit_char(d: nat)
    requires
        d < 10,
    ensures
        digit_val(digit_char(d)) == d,
        is_ascii_digit(digit_char(d)),
{
    assert(((48 + d) as u32) as char as u32 == (48 + d) as u32);
}

proof fn lemma_digits_of(m: nat)
    ensures
        digits_of(m).len() > 0,
        all_digits(digits_of(m)),
        digits_value(digits_of(m)) == m,
        digits_of(m)[0] != '-' && digits_of(m)[0] != '+',
    decreases m,
{
    lemma_digit_char(m % 10);
    if m < 10 {
        lemma_digit_char(m);
        assert(digits_of(m).drop_last() =~= Seq::<char>::empty());
        assert(digits_of(m).last() == digit_char(m));
        assert(digits_value(Seq::<char>::empty()) == 0);
    } else {
        lemma_digits_of(m / 10);
        let d = digits_of(m);
        assert(d.drop_last() =~= digits_of(m / 10));
        assert(d.last() == digit_char(m % 10));
        assert(m == (m / 10) * 10 + m % 10);
        assert(digits_value(d) == digits_value(digits_of(m / 10)) * 10 + m % 10);
        assert(d.drop_last() =~= digits_of(m / 10));
        assert(all_digits(d)) by {
            assert forall|i: int| 0 <= i < d.len() implies is_ascii_digit(#[trigger] d[i]) by {
                if i < d.len() - 1 {
                    assert(d[i] == digits_of(m / 10)[i]);
                }
            }
        }
    }
}

/// Reading the decimal text of any `i64` gives it back.
pub proof fn lemma_parse_decimal(n: i64)
    ensures
        parse_i64_spec(decimal_of(n as int)) == Some(n),
{
    if n < 0 {
        let m = (-(n as int)) as nat;
        lemma_digits_of(m);
        let s = decimal_of(n as int);
        assert(s.drop_first() =~= digits_of(m));
    } else {
        lemma_digits_of(n as nat);
    }
}

/// `s.parse::<i64>()`.
pub fn parse_i64(s: &[char]) -> (r: Option<i64>)
    ensures
        r == parse_i64_spec(s@),
{
    let n = s.len();
    if n == 0 {
        return None;
    }
    let neg = s[0] == '-';
    let start: usize = if s[0] == '-' || s[0] == '+' { 1 } else { 0 };
    if start == n {
        return None;
    }
    let ghost ds = s@.skip(start as int);
    proof {
        if start == 1 {
            assert(ds =~= s@.drop_first());
        } else {
            assert(ds =~= s@);
        }
    }
    let mut acc: u64 = 0;
    let mut i: usize = start;
    while i < n
        invariant
            start <= i <= n,
            n == s@.len(),
            start < n,
            ds == s@.skip(start as int),
            start == 1 ==> ds == s@.drop_first(),
            start == 0 ==> ds == s@,
            (start == 1) == (s@[0] == '-' || s@[0] == '+'),
            start <= 1,
            neg == (s@[0] == '-'),
            all_digits(ds.take(i - start)),
            acc == digits_value(ds.take(i - start)),
            acc <= 0x8000_0000_0000_0000u64,
        decreases n - i,
    {
        let c = s[i];
        if !('0' <= c && c <= '9') {
            proof {
                assert(ds[i - start] == c);
                assert(!is_ascii_digit(ds[i - start]));
            }
            return None;
        }
        let d = (c as u32 - 48) as u64;
        let next: u128 = (acc as u128) * 10 + (d as u128);
        proof {
            assert(ds.take(i - start + 1).drop_last() =~= ds.take(i - start));
            assert(ds.take(i - start + 1).last() == c);
            assert(all_digits(ds.take(i - start + 1))) by {
                assert forall|j: int| 0 <= j < i - start + 1 implies is_ascii_digit(
                    #[trigger] ds.take(i - start + 1)[j],
                ) by {
                    if j < i - start {
                        assert(ds.take(i - start + 1)[j] == ds.take(i - start)[j]);
                    }
                }
            }
        }
        if next > 0x8000_0000_0000_0000u128 {
            proof {
                let rest = ds;
                let k = i - start + 1;
                assert forall|j: int| 0 <= j < k implies is_ascii_digit(#[trigger] rest[j]) by {
                    assert(rest[j] == ds.take(k)[j]);
                }
                if all_digits(rest) {
                    lemma_prefix_value_le(rest, k);
                }
            }
            return None;
        }
        acc = next as u64;
        i += 1;
    }
    proof {
        assert(ds.take(n - start) =~= ds);
    }
    if neg {
        if acc == 0x8000_0000_0000_0000u64 {
            Some(i64::MIN)
        } else {
            Some(-(acc as i64))
        }
    } else {
        if acc > 0x7FFF_FFFF_FFFF_FFFFu64 {
            None
        } else {
            Some(acc as i64)
        }
    }
}

fn digits_vec(m: u64) -> (v: Vec<char>)
    ensures
        v@ == digits_of(m as nat),
    decreases m,
{
    if m < 10 {
        let c = ((48 + m) as u8) as char;
        vec![c]
    } else {
        let mut v = digits_vec(m / 10);
        let c = ((48 + m % 10) as u8) as char;
        v.push(c);
        v
    }
}

/// The decimal text of `n` (`n.to_string()`).
pub fn format_u64(n: u64) -> (r: String)
    ensures
        r@ == digits_of(n as nat),
{
    let ds = digits_vec(n);
    crate::text::string_of(ds.as_slice())
}

/// The decimal text of `n` (`n.to_string()`).
pub fn format_i64(n: i64) -> (r: String)
    ensures
        r@ == decimal_of(n as int),
{
    if n < 0 {
        let m: u64 = (0i128 - n as i128) as u64;
        let ds = digits_vec(m);
        let mut out: Vec<char> = vec!['-'];
        let mut i: usize = 0;
        while i < ds.len()
            invariant
                i <= ds@.len(),
                out@ == seq!['-'] + ds@.take(i as int),
            decreases ds@.len() - i,
        {
            out.push(ds[i]);
            assert(ds@.take(i + 1) =~= ds@.take(i as int).push(ds@[i as int]));
            i += 1;
        }
        assert(ds@.take(ds@.len() as int) =~= ds@);
        crate::text::string_of(out.as_slice())
    } else {
        let ds = digits_vec(n as u64);
        crate::text::string_of(ds.as_slice())
    }
}

} // verus!
