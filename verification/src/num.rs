//! Decimal formatting and parsing of integers, with the lemmas that make the
//! two directions inverse to each other.  The snapshot wire codec and the
//! agent's probe-output parsing are built on these.

use vstd::prelude::*;
use vstd::string::StrSliceExecFns;

verus! {

/// Largest magnitude the digit parser accepts; everything a temperature
/// field can hold fits well below it.
pub const PARSE_BOUND: u64 = 0xFFFF_FFFF;

pub open spec fn is_digit(c: char) -> bool {
    '0' <= c && c <= '9'
}

pub open spec fn digit_val(c: char) -> int {
    c as int - 48
}

pub open spec fn digit_char(d: int) -> char {
    if d == 0 {
        '0'
    } else if d == 1 {
        '1'
    } else if d == 2 {
        '2'
    } else if d == 3 {
        '3'
    } else if d == 4 {
        '4'
    } else if d == 5 {
        '5'
    } else if d == 6 {
        '6'
    } else if d == 7 {
        '7'
    } else if d == 8 {
        '8'
    } else {
        '9'
    }
}

/// Decimal digits of `n`, most significant first.
pub open spec fn spec_fmt_nat(n: nat) -> Seq<char>
    decreases n,
{
    if n < 10 {
        seq![digit_char(n as int)]
    } else {
        spec_fmt_nat(n / 10).push(digit_char((n % 10) as int))
    }
}

/// Decimal rendering of a signed integer: a minus sign before the digits of
/// the magnitude.
pub open spec fn spec_fmt_int(n: int) -> Seq<char> {
    if n < 0 {
        seq!['-'] + spec_fmt_nat((-n) as nat)
    } else {
        spec_fmt_nat(n as nat)
    }
}

/// Value of a digit sequence read as a decimal number.
pub open spec fn digits_val(ds: Seq<char>) -> int
    decreases ds.len(),
{
    if ds.len() == 0 {
        0
    } else {
        digits_val(ds.drop_last()) * 10 + digit_val(ds.last())
    }
}

/// How many digit characters stand in `t` from position `i` on.
pub open spec fn run_len(t: Seq<char>, i: int) -> nat
    decreases t.len() - i,
{
    if i < 0 || i >= t.len() || !is_digit(t.index(i)) {
        0
    } else {
        (1 + run_len(t, i + 1)) as nat
    }
}

/// Parse an unsigned decimal number at position `i`: the value and the
/// position after it, or nothing when no digit stands there or the value
/// does not fit the parser's bound.
pub open spec fn spec_parse_uint(t: Seq<char>, i: int) -> Option<(int, int)> {
    let n = run_len(t, i);
    if n == 0 {
        None
    } else if digits_val(t.subrange(i, i + n)) > PARSE_BOUND {
        None
    } else {
        Some((digits_val(t.subrange(i, i + n)), i + n))
    }
}

/// Parse an optionally minus-signed decimal number whose value fits an
/// `i32`.
pub open spec fn spec_parse_int(t: Seq<char>, i: int) -> Option<(int, int)> {
    if 0 <= i < t.len() && t.index(i) == '-' {
        match spec_parse_uint(t, i + 1) {
            Some((v, j)) => if -v >= i32::MIN {
                Some((-v, j))
            } else {
                None
            },
            None => None,
        }
    } else {
        match spec_parse_uint(t, i) {
            Some((v, j)) => if v <= i32::MAX {
                Some((v, j))
            } else {
                None
            },
            None => None,
        }
    }
}

pub proof fn lemma_fmt_nat_all_digits(n: nat)
    ensures
        spec_fmt_nat(n).len() >= 1,
        forall|k: int| 0 <= k < spec_fmt_nat(n).len() ==> is_digit(#[trigger] spec_fmt_nat(n).index(k)),
    decreases n,
{
    if n >= 10 {
        lemma_fmt_nat_all_digits(n / 10);
    }
}

pub proof fn lemma_digit_char_val(d: int)
    requires
        0 <= d < 10,
    ensures
        digit_val(digit_char(d)) == d,
        is_digit(digit_char(d)),
{
}

pub proof fn lemma_fmt_nat_val(n: nat)
    ensures
        digits_val(spec_fmt_nat(n)) == n,
    decreases n,
{
    if n < 10 {
        lemma_digit_char_val(n as int);
        assert(digits_val(Seq::<char>::empty()) == 0);
        assert(spec_fmt_nat(n).drop_last() =~= Seq::<char>::empty());
        assert(spec_fmt_nat(n).last() == digit_char(n as int));
    } else {
        lemma_fmt_nat_val(n / 10);
        lemma_digit_char_val((n % 10) as int);
        assert(spec_fmt_nat(n).drop_last() =~= spec_fmt_nat(n / 10));
        assert(spec_fmt_nat(n).last() == digit_char((n % 10) as int));
        assert(digits_val(spec_fmt_nat(n)) == (n / 10) * 10 + n % 10);
        vstd::arithmetic::div_mod::lemma_fundamental_div_mod(n as int, 10);
    }
}

pub proof fn lemma_digits_val_nonneg(ds: Seq<char>)
    requires
        forall|k: int| 0 <= k < ds.len() ==> is_digit(#[trigger] ds.index(k)),
    ensures
        digits_val(ds) >= 0,
    decreases ds.len(),
{
    if ds.len() > 0 {
        lemma_digits_val_nonneg(ds.drop_last());
    }
}

/// Reading more digits never shrinks the value.
pub proof fn lemma_digits_val_monotone(t: Seq<char>, i: int, a: int, b: int)
    requires
        0 <= i <= a <= b <= t.len(),
        forall|k: int| i <= k < b ==> is_digit(#[trigger] t.index(k)),
    ensures
        digits_val(t.subrange(i, a)) <= digits_val(t.subrange(i, b)),
    decreases b - a,
{
    if a < b {
        lemma_digits_val_monotone(t, i, a, b - 1);
        let shorter = t.subrange(i, b - 1);
        let longer = t.subrange(i, b);
        assert(longer.drop_last() =~= shorter);
        assert forall|k: int| 0 <= k < shorter.len() implies is_digit(#[trigger] shorter.index(k)) by {
            assert(shorter.index(k) == t.index(i + k));
        }
        lemma_digits_val_nonneg(shorter);
        assert(is_digit(longer.last()));
        assert(digits_val(longer) == digits_val(shorter) * 10 + digit_val(longer.last()));
    }
}

/// The digit run at `i` ends exactly where the digits end.
pub proof fn lemma_run_len_exact(t: Seq<char>, i: int, e: int)
    requires
        0 <= i <= e <= t.len(),
        forall|k: int| i <= k < e ==> is_digit(#[trigger] t.index(k)),
        e == t.len() || !is_digit(t.index(e)),
    ensures
        i + run_len(t, i) == e,
    decreases e - i,
{
    if i < e {
        lemma_run_len_exact(t, i + 1, e);
    }
}

fn digit_ch(d: u8) -> (c: char)
    requires
        d < 10,
    ensures
        c == digit_char(d as int),
{
    if d == 0 {
        '0'
    } else if d == 1 {
        '1'
    } else if d == 2 {
        '2'
    } else if d == 3 {
        '3'
    } else if d == 4 {
        '4'
    } else if d == 5 {
        '5'
    } else if d == 6 {
        '6'
    } else if d == 7 {
        '7'
    } else if d == 8 {
        '8'
    } else {
        '9'
    }
}

/// Decimal rendering of an unsigned value.
pub fn fmt_u64(n: u64) -> (r: String)
    ensures
        r@ == spec_fmt_nat(n as nat),
    decreases n,
{
    if n < 10 {
        let mut s = String::new();
        crate::strutil::push_char(&mut s, digit_ch(n as u8));
        proof {
            assert(s@ =~= spec_fmt_nat(n as nat));
        }
        s
    } else {
        let mut s = fmt_u64(n / 10);
        crate::strutil::push_char(&mut s, digit_ch((n % 10) as u8));
        s
    }
}

/// Decimal rendering of a signed value.
pub fn fmt_i64(n: i64) -> (r: String)
    ensures
        r@ == spec_fmt_int(n as int),
{
    if n >= 0 {
        fmt_u64(n as u64)
    } else {
        let mut s = String::new();
        crate::strutil::push_char(&mut s, '-');
        let mag: u64 = (-(n as i128)) as u64;
        let digits = fmt_u64(mag);
        s.append(digits.as_str());
        proof {
            assert(s@ =~= spec_fmt_int(n as int));
        }
        s
    }
}

fn is_digit_ch(c: char) -> (r: bool)
    ensures
        r == is_digit(c),
{
    c >= '0' && c <= '9'
}

/// Parse an unsigned decimal number at character position `i` of `s`,
/// matching `spec_parse_uint`.
pub fn parse_uint(s: &str, i: usize) -> (r: Option<(u64, usize)>)
    requires
        i <= s@.len(),
    ensures
        match spec_parse_uint(s@, i as int) {
            None => r is None,
            Some((v, j)) => r matches Some((rv, rj)) && rv as int == v && rj as int == j && rj
                <= s@.len(),
        },
{
    let n = s.unicode_len();
    let ghost t = s@;
    let mut k = i;
    let mut acc: u64 = 0;
    loop
        invariant
            i <= k <= n,
            n == t.len(),
            t == s@,
            forall|m: int| i <= m < k ==> is_digit(#[trigger] t.index(m)),
            acc as int == digits_val(t.subrange(i as int, k as int)),
            acc <= PARSE_BOUND,
        ensures
            i <= k <= n,
            forall|m: int| i <= m < k ==> is_digit(#[trigger] t.index(m)),
            acc as int == digits_val(t.subrange(i as int, k as int)),
            acc <= PARSE_BOUND,
            k == n || !is_digit(t.index(k as int)),
        decreases t.len() - k,
    {
        if k >= n {
            break ;
        }
        let c = s.get_char(k);
        if !is_digit_ch(c) {
            break ;
        }
        let d: u64 = (c as u32 - 48) as u64;
        proof {
            let sub = t.subrange(i as int, k + 1int);
            assert(sub.drop_last() =~= t.subrange(i as int, k as int));
            assert(sub.last() == c);
        }
        acc = acc * 10 + d;
        k = k + 1;
        if acc > PARSE_BOUND {
            proof {
                let e = i + run_len(t, i as int);
                lemma_run_len_exact_any(t, i as int, k as int);
                lemma_digits_val_monotone(t, i as int, k as int, e);
            }
            return None;
        }
    }
    proof {
        lemma_run_len_exact(t, i as int, k as int);
    }
    if k == i {
        None
    } else {
        Some((acc, k))
    }
}

/// Every position of the digit run at `i` is a digit, and the run reaches at
/// least past any all-digit prefix.
proof fn lemma_run_len_exact_any(t: Seq<char>, i: int, a: int)
    requires
        0 <= i <= a <= t.len(),
        forall|k: int| i <= k < a ==> is_digit(#[trigger] t.index(k)),
    ensures
        a <= i + run_len(t, i),
        i + run_len(t, i) <= t.len(),
        forall|k: int| i <= k < i + run_len(t, i) ==> is_digit(#[trigger] t.index(k)),
    decreases t.len() - i,
{
    if i < t.len() && is_digit(t.index(i)) {
        if a > i {
            lemma_run_len_exact_any(t, i + 1, a);
        } else {
            lemma_run_len_exact_any(t, i + 1, i + 1);
        }
        assert forall|k: int| i <= k < i + run_len(t, i) implies is_digit(#[trigger] t.index(k)) by {
            if k > i {
                assert(is_digit(t.index(k)));
            }
        }
    }
}

/// Parse an optionally minus-signed decimal number at position `i`,
/// matching `spec_parse_int`.
pub fn parse_int(s: &str, i: usize) -> (r: Option<(i64, usize)>)
    requires
        i <= s@.len(),
    ensures
        match spec_parse_int(s@, i as int) {
            None => r is None,
            Some((v, j)) => r matches Some((rv, rj)) && rv as int == v && rj as int == j && rj
                <= s@.len(),
        },
        r matches Some((rv, rj)) ==> i32::MIN as int <= rv as int <= i32::MAX as int,
{
    let n = s.unicode_len();
    if i < n && s.get_char(i) == '-' {
        match parse_uint(s, i + 1) {
            Some((v, j)) => if v <= 0x8000_0000u64 {
                Some((-(v as i64), j))
            } else {
                None
            },
            None => None,
        }
    } else {
        match parse_uint(s, i) {
            Some((v, j)) => if v <= 0x7FFF_FFFFu64 {
                Some((v as i64, j))
            } else {
                None
            },
            None => None,
        }
    }
}

} // verus!
