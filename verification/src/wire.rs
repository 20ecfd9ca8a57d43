//! The snapshot wire codec.
//!
//! The agent answers `GET /` with the snapshot rendered in the same
//! key-value text form the configuration file uses: one `key = value` line
//! per field, the hostname as a quoted string with quote and backslash
//! escaped, the temperatures as a bracketed comma-separated list, the flags
//! as bare `true`/`false`.  The supervisor parses exactly that shape back.
//! Serializing and then parsing yields the record unchanged, and that round
//! trip is proved below.

use vstd::prelude::*;
use vstd::string::StrSliceExecFns;
use vstd::string::StringExecFns;
use vstd::string::group_string_axioms;
use crate::agent::{CheckResult, CheckV};
use crate::num::{
    is_digit, lemma_fmt_nat_all_digits, lemma_fmt_nat_val, lemma_run_len_exact, parse_int,
    spec_fmt_int, spec_fmt_nat, spec_parse_int, spec_parse_uint, PARSE_BOUND,
};
use crate::strutil::push_char;

verus! {

broadcast use group_string_axioms;

/// A character as it stands inside the quoted hostname: quote and
/// backslash get a backslash before them.
pub open spec fn spec_esc_char(c: char) -> Seq<char> {
    if c == '"' || c == '\\' {
        seq!['\\', c]
    } else {
        seq![c]
    }
}

/// The hostname with its quote-delimiter-relevant characters escaped.
pub open spec fn spec_esc(h: Seq<char>) -> Seq<char>
    decreases h.len(),
{
    if h.len() == 0 {
        Seq::empty()
    } else {
        spec_esc_char(h.index(0)) + spec_esc(h.skip(1))
    }
}

pub open spec fn spec_fmt_bool(b: bool) -> Seq<char> {
    if b {
        "true"@
    } else {
        "false"@
    }
}

/// The temperature list body: decimal values joined by comma-space.
pub open spec fn spec_fmt_int_list(ts: Seq<int>) -> Seq<char>
    decreases ts.len(),
{
    if ts.len() == 0 {
        Seq::empty()
    } else if ts.len() == 1 {
        spec_fmt_int(ts.index(0))
    } else {
        spec_fmt_int_list(ts.drop_last()) + ", "@ + spec_fmt_int(ts.last())
    }
}

/// The whole serialized snapshot.
pub open spec fn spec_ser_check(v: CheckV) -> Seq<char> {
    "hostname = \""@ + spec_esc(v.hostname) + "\""@ + "\ntemp = ["@ + spec_fmt_int_list(v.temp)
        + "]"@ + "\nservice = "@ + spec_fmt_bool(v.service) + "\nhw_errors = "@ + spec_fmt_bool(
        v.hw_errors,
    ) + "\n"@
}

proof fn lemma_esc_push(h: Seq<char>, c: char)
    ensures
        spec_esc(h.push(c)) == spec_esc(h) + spec_esc_char(c),
    decreases h.len(),
{
    if h.len() == 0 {
        assert(h.push(c).skip(1) =~= Seq::<char>::empty());
        assert(spec_esc(Seq::<char>::empty()) == Seq::<char>::empty());
        assert(h.push(c).index(0) == c);
        assert(spec_esc(h.push(c)) == spec_esc_char(c) + Seq::<char>::empty());
        assert(spec_esc(h.push(c)) =~= spec_esc(h) + spec_esc_char(c));
    } else {
        assert(h.push(c).skip(1) =~= h.skip(1).push(c));
        lemma_esc_push(h.skip(1), c);
        assert(spec_esc(h.push(c)) == spec_esc_char(h.index(0)) + (spec_esc(h.skip(1))
            + spec_esc_char(c)));
        assert(spec_esc_char(h.index(0)) + (spec_esc(h.skip(1)) + spec_esc_char(c)) =~= (
        spec_esc_char(h.index(0)) + spec_esc(h.skip(1))) + spec_esc_char(c));
    }
}

fn append_escaped(out: &mut String, h: &str)
    ensures
        final(out)@ == old(out)@ + spec_esc(h@),
{
    let ghost base = out@;
    let n = h.unicode_len();
    let mut i: usize = 0;
    while i < n
        invariant
            0 <= i <= n,
            n == h@.len(),
            out@ == base + spec_esc(h@.take(i as int)),
        decreases n - i,
    {
        let c = h.get_char(i);
        proof {
            assert(h@.take(i + 1int) =~= h@.take(i as int).push(c));
            lemma_esc_push(h@.take(i as int), c);
        }
        if c == '"' || c == '\\' {
            push_char(out, '\\');
            push_char(out, c);
            proof {
                assert(out@ =~= base + spec_esc(h@.take(i + 1int)));
            }
        } else {
            push_char(out, c);
            proof {
                assert(out@ =~= base + spec_esc(h@.take(i + 1int)));
            }
        }
        i = i + 1;
    }
    proof {
        assert(h@.take(n as int) =~= h@);
    }
}

fn append_int_list(out: &mut String, ts: &Vec<i32>)
    ensures
        final(out)@ == old(out)@ + spec_fmt_int_list(ts@.map_values(|v: i32| v as int)),
{
    let ghost base = out@;
    let ghost m = ts@.map_values(|v: i32| v as int);
    let mut i: usize = 0;
    while i < ts.len()
        invariant
            0 <= i <= ts@.len(),
            m == ts@.map_values(|v: i32| v as int),
            out@ == base + spec_fmt_int_list(m.take(i as int)),
        decreases ts@.len() - i,
    {
        proof {
            assert(m.take(i + 1int).drop_last() =~= m.take(i as int));
            assert(m.take(i + 1int).last() == ts@.index(i as int) as int);
        }
        if i > 0 {
            out.append(", ");
        }
        let d = crate::num::fmt_i64(ts[i] as i64);
        out.append(d.as_str());
        proof {
            if i == 0 {
                assert(spec_fmt_int_list(m.take(1)) == spec_fmt_int(m.index(0)));
                assert(out@ =~= base + spec_fmt_int_list(m.take(i + 1int)));
            } else {
                assert(out@ =~= base + spec_fmt_int_list(m.take(i + 1int)));
            }
        }
        i = i + 1;
    }
    proof {
        assert(m.take(m.len() as int) =~= m);
    }
}

/// A literal expected at position `i`: the position after it, or nothing.
pub open spec fn spec_expect(t: Seq<char>, i: int, lit: Seq<char>) -> Option<int> {
    if 0 <= i && i + lit.len() <= t.len() && t.subrange(i, i + lit.len()) == lit {
        Some(i + lit.len())
    } else {
        None
    }
}

/// Scan a quoted-string body from `i`: unescape backslash pairs, stop at
/// the closing quote and consume it.
pub open spec fn spec_unquote(t: Seq<char>, i: int) -> Option<(Seq<char>, int)>
    decreases t.len() - i,
{
    if i < 0 || i >= t.len() {
        None
    } else if t.index(i) == '"' {
        Some((Seq::empty(), i + 1))
    } else if t.index(i) == '\\' {
        if i + 1 >= t.len() {
            None
        } else {
            match spec_unquote(t, i + 2) {
                None => None,
                Some((c, j)) => Some((seq![t.index(i + 1)] + c, j)),
            }
        }
    } else {
        match spec_unquote(t, i + 1) {
            None => None,
            Some((c, j)) => Some((seq![t.index(i)] + c, j)),
        }
    }
}

/// Parse the temperature list body from `i` up to and including the
/// closing bracket.
pub open spec fn spec_parse_list(t: Seq<char>, i: int) -> Option<(Seq<int>, int)>
    decreases t.len() - i,
{
    if 0 <= i < t.len() && t.index(i) == ']' {
        Some((Seq::empty(), i + 1))
    } else {
        match spec_parse_int(t, i) {
            None => None,
            Some((v, j)) => if j < t.len() && t.index(j) == ']' {
                Some((seq![v], j + 1))
            } else if j + 2 <= t.len() && t.subrange(j, j + 2) == ", "@ {
                match spec_parse_list(t, j + 2) {
                    None => None,
                    Some((rest, k)) => Some((seq![v] + rest, k)),
                }
            } else {
                None
            },
        }
    }
}

pub open spec fn spec_parse_bool(t: Seq<char>, i: int) -> Option<(bool, int)> {
    match spec_expect(t, i, "true"@) {
        Some(j) => Some((true, j)),
        None => match spec_expect(t, i, "false"@) {
            Some(j) => Some((false, j)),
            None => None,
        },
    }
}

/// The whole wire record: the four fields in their fixed order, with
/// nothing after the final newline.
pub open spec fn spec_parse_check(t: Seq<char>) -> Option<CheckV> {
    match spec_expect(t, 0, "hostname = \""@) {
        None => None,
        Some(i1) => match spec_unquote(t, i1) {
            None => None,
            Some((host, i2)) => match spec_expect(t, i2, "\ntemp = ["@) {
                None => None,
                Some(i3) => match spec_parse_list(t, i3) {
                    None => None,
                    Some((temps, i4)) => match spec_expect(t, i4, "\nservice = "@) {
                        None => None,
                        Some(i5) => match spec_parse_bool(t, i5) {
                            None => None,
                            Some((sv, i6)) => match spec_expect(t, i6, "\nhw_errors = "@) {
                                None => None,
                                Some(i7) => match spec_parse_bool(t, i7) {
                                    None => None,
                                    Some((hw, i8)) => match spec_expect(t, i8, "\n"@) {
                                        None => None,
                                        Some(i9) => if i9 == t.len() {
                                            Some(
                                                CheckV {
                                                    hostname: host,
                                                    temp: temps,
                                                    service: sv,
                                                    hw_errors: hw,
                                                },
                                            )
                                        } else {
                                            None
                                        },
                                    },
                                },
                            },
                        },
                    },
                },
            },
        },
    }
}

fn expect_lit(s: &str, i: usize, lit: &str) -> (r: Option<usize>)
    requires
        i <= s@.len(),
    ensures
        match spec_expect(s@, i as int, lit@) {
            None => r is None,
            Some(j) => r matches Some(rj) && rj as int == j && rj <= s@.len(),
        },
{
    let n = s.unicode_len();
    let m = lit.unicode_len();
    if m > n - i {
        return None;
    }
    let mut k: usize = 0;
    while k < m
        invariant
            0 <= k <= m,
            i + m <= n,
            n == s@.len(),
            m == lit@.len(),
            forall|q: int| 0 <= q < k ==> s@.index(i + q) == lit@.index(q),
        decreases m - k,
    {
        if s.get_char(i + k) != lit.get_char(k) {
            proof {
                assert(s@.subrange(i as int, i + lit@.len()).index(k as int) != lit@.index(
                    k as int,
                ));
            }
            return None;
        }
        k = k + 1;
    }
    proof {
        assert(s@.subrange(i as int, i + lit@.len()) =~= lit@);
    }
    Some(i + m)
}

fn parse_quoted(s: &str, i: usize) -> (r: Option<(String, usize)>)
    requires
        i <= s@.len(),
    ensures
        match spec_unquote(s@, i as int) {
            None => r is None,
            Some((h, j)) => r matches Some((rh, rj)) && rh@ == h && rj as int == j && rj
                <= s@.len(),
        },
{
    let ghost t = s@;
    let n = s.unicode_len();
    let mut acc = String::new();
    let mut k = i;
    loop
        invariant
            i <= k <= n,
            n == t.len(),
            t == s@,
            match spec_unquote(t, k as int) {
                None => spec_unquote(t, i as int) is None,
                Some((c, j)) => spec_unquote(t, i as int) matches Some((c0, j0)) && c0 == acc@ + c
                    && j0 == j,
            },
        decreases t.len() - k,
    {
        if k >= n {
            return None;
        }
        let c = s.get_char(k);
        if c == '"' {
            proof {
                assert(spec_unquote(t, k as int) == Some((Seq::<char>::empty(), k + 1int)));
                assert(acc@ + Seq::<char>::empty() =~= acc@);
            }
            return Some((acc, k + 1));
        }
        if c == '\\' {
            if k + 1 >= n {
                proof {
                    assert(spec_unquote(t, k as int) is None);
                }
                return None;
            }
            let d = s.get_char(k + 1);
            let ghost acc0 = acc@;
            let ghost k0 = k as int;
            push_char(&mut acc, d);
            k = k + 2;
            proof {
                assert(acc@ =~= acc0 + seq![d]);
                match spec_unquote(t, k as int) {
                    None => {
                        assert(spec_unquote(t, k0) is None);
                    },
                    Some((c2, j2)) => {
                        assert(spec_unquote(t, k0) == Some((seq![t.index(k0 + 1)] + c2, j2)));
                        assert(acc0 + (seq![d] + c2) =~= (acc0 + seq![d]) + c2);
                    },
                }
            }
        } else {
            let ghost acc0 = acc@;
            let ghost k0 = k as int;
            push_char(&mut acc, c);
            k = k + 1;
            proof {
                assert(acc@ =~= acc0 + seq![c]);
                match spec_unquote(t, k as int) {
                    None => {
                        assert(spec_unquote(t, k0) is None);
                    },
                    Some((c2, j2)) => {
                        assert(spec_unquote(t, k0) == Some((seq![t.index(k0)] + c2, j2)));
                        assert(acc0 + (seq![c] + c2) =~= (acc0 + seq![c]) + c2);
                    },
                }
            }
        }
    }
}

fn parse_list(s: &str, i: usize) -> (r: Option<(Vec<i32>, usize)>)
    requires
        i <= s@.len(),
    ensures
        match spec_parse_list(s@, i as int) {
            None => r is None,
            Some((vs, j)) => r matches Some((rv, rj)) && rv@.map_values(|x: i32| x as int) == vs
                && rj as int == j && rj <= s@.len(),
        },
{
    let ghost t = s@;
    let n = s.unicode_len();
    let mut acc: Vec<i32> = Vec::new();
    let mut k = i;
    loop
        invariant
            i <= k <= n,
            n == t.len(),
            t == s@,
            match spec_parse_list(t, k as int) {
                None => spec_parse_list(t, i as int) is None,
                Some((rest, j)) => spec_parse_list(t, i as int) matches Some((vs0, j0)) && vs0
                    == acc@.map_values(|x: i32| x as int) + rest && j0 == j,
            },
        decreases t.len() - k,
    {
        if k < n && s.get_char(k) == ']' {
            proof {
                assert(spec_parse_list(t, k as int) == Some((Seq::<int>::empty(), k + 1int)));
                assert(acc@.map_values(|x: i32| x as int) + Seq::<int>::empty()
                    =~= acc@.map_values(|x: i32| x as int));
            }
            return Some((acc, k + 1));
        }
        match parse_int(s, k) {
            None => {
                return None;
            },
            Some((v, j)) => {
                let ghost acc0 = acc@.map_values(|x: i32| x as int);
                let ghost k0 = k as int;
                if j < n && s.get_char(j) == ']' {
                    acc.push(v as i32);
                    proof {
                        assert(spec_parse_list(t, k0) == Some((seq![v as int], j + 1int)));
                        assert(acc@.map_values(|x: i32| x as int) =~= acc0 + seq![v as int]);
                    }
                    return Some((acc, j + 1));
                }
                let comma_ok = if j < n && s.get_char(j) == ',' {
                    if j + 1 < n {
                        s.get_char(j + 1) == ' '
                    } else {
                        false
                    }
                } else {
                    false
                };
                if comma_ok {
                    acc.push(v as i32);
                    k = j + 2;
                    proof {
                        reveal_strlit(", ");
                        assert(t.subrange(j as int, j + 2int) =~= ", "@);
                        assert(acc@.map_values(|x: i32| x as int) =~= acc0 + seq![v as int]);
                        match spec_parse_list(t, k as int) {
                            None => {
                                assert(spec_parse_list(t, k0) is None);
                            },
                            Some((rest, j2)) => {
                                assert(spec_parse_list(t, k0) == Some(
                                    (seq![v as int] + rest, j2),
                                ));
                                assert(acc0 + (seq![v as int] + rest) =~= (acc0 + seq![v as int])
                                    + rest);
                            },
                        }
                    }
                } else {
                    proof {
                        reveal_strlit(", ");
                        if j + 2 <= t.len() && t.subrange(j as int, j + 2int) == ", "@ {
                            assert(t.subrange(j as int, j + 2int).index(0) == t.index(j as int));
                            assert(t.subrange(j as int, j + 2int).index(1) == t.index(j + 1int));
                            assert(", "@.index(0) == ',');
                            assert(", "@.index(1) == ' ');
                            assert(false);
                        }
                    }
                    return None;
                }
            },
        }
    }
}

fn parse_bool(s: &str, i: usize) -> (r: Option<(bool, usize)>)
    requires
        i <= s@.len(),
    ensures
        match spec_parse_bool(s@, i as int) {
            None => r is None,
            Some((b, j)) => r matches Some((rb, rj)) && rb == b && rj as int == j && rj
                <= s@.len(),
        },
{
    match expect_lit(s, i, "true") {
        Some(j) => Some((true, j)),
        None => match expect_lit(s, i, "false") {
            Some(j) => Some((false, j)),
            None => None,
        },
    }
}

/// Parse a wire record.  The result is exactly what the functional parser
/// specification yields on the input's characters.
pub fn parse_check(s: &str) -> (r: Option<CheckResult>)
    ensures
        match spec_parse_check(s@) {
            None => r is None,
            Some(v) => r matches Some(c) && c@ == v,
        },
{
    let n = s.unicode_len();
    let i1 = match expect_lit(s, 0, "hostname = \"") {
        None => {
            return None;
        },
        Some(j) => j,
    };
    let (host, i2) = match parse_quoted(s, i1) {
        None => {
            return None;
        },
        Some(p) => p,
    };
    let i3 = match expect_lit(s, i2, "\ntemp = [") {
        None => {
            return None;
        },
        Some(j) => j,
    };
    let (temps, i4) = match parse_list(s, i3) {
        None => {
            return None;
        },
        Some(p) => p,
    };
    let i5 = match expect_lit(s, i4, "\nservice = ") {
        None => {
            return None;
        },
        Some(j) => j,
    };
    let (sv, i6) = match parse_bool(s, i5) {
        None => {
            return None;
        },
        Some(p) => p,
    };
    let i7 = match expect_lit(s, i6, "\nhw_errors = ") {
        None => {
            return None;
        },
        Some(j) => j,
    };
    let (hw, i8) = match parse_bool(s, i7) {
        None => {
            return None;
        },
        Some(p) => p,
    };
    let i9 = match expect_lit(s, i8, "\n") {
        None => {
            return None;
        },
        Some(j) => j,
    };
    if i9 != n {
        return None;
    }
    let c = CheckResult { hostname: host, temp: temps, service: sv, hw_errors: hw };
    proof {
        let v = spec_parse_check(s@)->Some_0;
        assert(c@.hostname == v.hostname);
        assert(c@.temp == v.temp);
        assert(c@ =~= v);
    }
    Some(c)
}

proof fn lemma_unquote_esc(t: Seq<char>, i: int, h: Seq<char>)
    requires
        0 <= i,
        i + spec_esc(h).len() + 1 <= t.len(),
        t.subrange(i, i + spec_esc(h).len()) == spec_esc(h),
        t.index(i + spec_esc(h).len()) == '"',
    ensures
        spec_unquote(t, i) == Some((h, i + spec_esc(h).len() + 1)),
    decreases h.len(),
{
    let e = spec_esc(h);
    assert forall|q: int| 0 <= q < e.len() implies t.index(i + q) == e.index(q) by {
        assert(t.subrange(i, i + e.len()).index(q) == t.index(i + q));
    }
    if h.len() == 0 {
        assert(e.len() == 0);
        assert(t.index(i) == '"');
        assert(h =~= Seq::<char>::empty());
    } else {
        let c = h.index(0);
        let p = spec_esc_char(c);
        let rest = spec_esc(h.skip(1));
        assert(e == p + rest);
        if c == '"' || c == '\\' {
            assert(e.index(0) == '\\');
            assert(e.index(1) == c);
            assert(t.index(i) == '\\');
            assert(t.index(i + 1) == c);
            assert(t.subrange(i + 2, i + 2 + rest.len()) =~= rest) by {
                assert forall|q: int| 0 <= q < rest.len() implies t.subrange(
                    i + 2,
                    i + 2 + rest.len(),
                ).index(q) == rest.index(q) by {
                    assert(t.subrange(i + 2, i + 2 + rest.len()).index(q) == t.index(i + 2 + q));
                    assert(t.index(i + 2 + q) == e.index(2 + q));
                    assert(e.index(2 + q) == rest.index(q));
                }
            }
            assert(t.index(i + 2 + rest.len()) == '"');
            lemma_unquote_esc(t, i + 2, h.skip(1));
            assert(spec_unquote(t, i) == Some(
                (seq![t.index(i + 1)] + h.skip(1), i + 2 + rest.len() + 1),
            ));
            assert(seq![c] + h.skip(1) =~= h);
        } else {
            assert(e.index(0) == c);
            assert(t.index(i) == c);
            assert(t.subrange(i + 1, i + 1 + rest.len()) =~= rest) by {
                assert forall|q: int| 0 <= q < rest.len() implies t.subrange(
                    i + 1,
                    i + 1 + rest.len(),
                ).index(q) == rest.index(q) by {
                    assert(t.subrange(i + 1, i + 1 + rest.len()).index(q) == t.index(i + 1 + q));
                    assert(t.index(i + 1 + q) == e.index(1 + q));
                    assert(e.index(1 + q) == rest.index(q));
                }
            }
            assert(t.index(i + 1 + rest.len()) == '"');
            lemma_unquote_esc(t, i + 1, h.skip(1));
            assert(spec_unquote(t, i) == Some(
                (seq![t.index(i)] + h.skip(1), i + 1 + rest.len() + 1),
            ));
            assert(seq![c] + h.skip(1) =~= h);
        }
    }
}

proof fn lemma_fmt_int_first(v: int)
    ensures
        spec_fmt_int(v).len() >= 1,
        v >= 0 ==> is_digit(spec_fmt_int(v).index(0)),
        v < 0 ==> spec_fmt_int(v).index(0) == '-',
{
    if v >= 0 {
        lemma_fmt_nat_all_digits(v as nat);
    } else {
        lemma_fmt_nat_all_digits((-v) as nat);
    }
}

proof fn lemma_parse_int_fmt(t: Seq<char>, i: int, v: int)
    requires
        0 <= i,
        i32::MIN <= v <= i32::MAX,
        i + spec_fmt_int(v).len() <= t.len(),
        t.subrange(i, i + spec_fmt_int(v).len()) == spec_fmt_int(v),
        i + spec_fmt_int(v).len() == t.len() || !is_digit(t.index(i + spec_fmt_int(v).len())),
    ensures
        spec_parse_int(t, i) == Some((v, i + spec_fmt_int(v).len())),
{
    let f = spec_fmt_int(v);
    assert forall|q: int| 0 <= q < f.len() implies t.index(i + q) == f.index(q) by {
        assert(t.subrange(i, i + f.len()).index(q) == t.index(i + q));
    }
    lemma_fmt_int_first(v);
    if v >= 0 {
        let d = spec_fmt_nat(v as nat);
        assert(f == d);
        lemma_fmt_nat_all_digits(v as nat);
        assert forall|q: int| i <= q < i + d.len() implies is_digit(#[trigger] t.index(q)) by {
            assert(t.index(q) == d.index(q - i));
        }
        lemma_run_len_exact(t, i, i + d.len());
        assert(t.subrange(i, i + d.len()) == d);
        lemma_fmt_nat_val(v as nat);
        assert(v <= PARSE_BOUND as int);
        assert(spec_parse_uint(t, i) == Some((v, i + d.len())));
        assert(!(t.index(i) == '-'));
    } else {
        let m = (-v) as nat;
        let d = spec_fmt_nat(m);
        assert(f == seq!['-'] + d);
        assert(t.index(i) == '-');
        lemma_fmt_nat_all_digits(m);
        assert forall|q: int| i + 1 <= q < i + 1 + d.len() implies is_digit(
            #[trigger] t.index(q),
        ) by {
            assert(t.index(q) == f.index(q - i));
            assert(f.index(q - i) == d.index(q - i - 1));
        }
        lemma_run_len_exact(t, i + 1, i + 1 + d.len());
        assert(t.subrange(i + 1, i + 1 + d.len()) =~= d) by {
            assert forall|q: int| 0 <= q < d.len() implies t.subrange(
                i + 1,
                i + 1 + d.len(),
            ).index(q) == d.index(q) by {
                assert(t.subrange(i + 1, i + 1 + d.len()).index(q) == t.index(i + 1 + q));
                assert(t.index(i + 1 + q) == f.index(1 + q));
                assert(f.index(1 + q) == d.index(q));
            }
        }
        lemma_fmt_nat_val(m);
        assert(m <= PARSE_BOUND as int);
        assert(spec_parse_uint(t, i + 1) == Some((m as int, i + 1 + d.len())));
        assert(-(m as int) >= i32::MIN);
        assert(spec_parse_int(t, i) == Some((v, i + 1 + d.len())));
    }
}

proof fn lemma_fmt_list_front(ts: Seq<int>)
    requires
        ts.len() >= 1,
    ensures
        ts.len() == 1 ==> spec_fmt_int_list(ts) == spec_fmt_int(ts.index(0)),
        ts.len() >= 2 ==> spec_fmt_int_list(ts) == spec_fmt_int(ts.index(0)) + ", "@
            + spec_fmt_int_list(ts.skip(1)),
    decreases ts.len(),
{
    if ts.len() == 2 {
        assert(ts.drop_last() =~= seq![ts.index(0)]);
        assert(ts.skip(1) =~= seq![ts.index(1)]);
        assert(spec_fmt_int_list(ts.drop_last()) == spec_fmt_int(ts.index(0)));
        assert(spec_fmt_int_list(ts.skip(1)) == spec_fmt_int(ts.index(1)));
    } else if ts.len() > 2 {
        lemma_fmt_list_front(ts.drop_last());
        assert(ts.drop_last().index(0) == ts.index(0));
        assert(ts.drop_last().skip(1) =~= ts.skip(1).drop_last());
        assert(ts.skip(1).len() >= 2);
        assert(ts.skip(1).last() == ts.last());
        assert(spec_fmt_int_list(ts.skip(1)) == spec_fmt_int_list(ts.skip(1).drop_last()) + ", "@
            + spec_fmt_int(ts.last()));
        assert(spec_fmt_int_list(ts) == spec_fmt_int_list(ts.drop_last()) + ", "@ + spec_fmt_int(
            ts.last(),
        ));
        assert(spec_fmt_int_list(ts.drop_last()) == spec_fmt_int(ts.index(0)) + ", "@
            + spec_fmt_int_list(ts.skip(1).drop_last()));
        assert((spec_fmt_int(ts.index(0)) + ", "@ + spec_fmt_int_list(ts.skip(1).drop_last()))
            + ", "@ + spec_fmt_int(ts.last()) =~= spec_fmt_int(ts.index(0)) + ", "@ + (
        spec_fmt_int_list(ts.skip(1).drop_last()) + ", "@ + spec_fmt_int(ts.last())));
    }
}

proof fn lemma_parse_list_fmt(t: Seq<char>, i: int, ts: Seq<int>)
    requires
        0 <= i,
        forall|k: int| 0 <= k < ts.len() ==> i32::MIN <= #[trigger] ts.index(k) <= i32::MAX,
        i + spec_fmt_int_list(ts).len() < t.len(),
        t.subrange(i, i + spec_fmt_int_list(ts).len()) == spec_fmt_int_list(ts),
        t.index(i + spec_fmt_int_list(ts).len()) == ']',
    ensures
        spec_parse_list(t, i) == Some((ts, i + spec_fmt_int_list(ts).len() + 1)),
    decreases ts.len(),
{
    let fl = spec_fmt_int_list(ts);
    assert forall|q: int| 0 <= q < fl.len() implies t.index(i + q) == fl.index(q) by {
        assert(t.subrange(i, i + fl.len()).index(q) == t.index(i + q));
    }
    if ts.len() == 0 {
        assert(fl.len() == 0);
        assert(t.index(i) == ']');
        assert(ts =~= Seq::<int>::empty());
    } else {
        lemma_fmt_list_front(ts);
        let v0 = ts.index(0);
        let f0 = spec_fmt_int(v0);
        lemma_fmt_int_first(v0);
        if ts.len() == 1 {
            assert(fl == f0);
            assert(t.index(i + f0.len()) == ']');
            assert(!is_digit(']'));
            lemma_parse_int_fmt(t, i, v0);
            assert(t.index(i) != ']');
            assert(spec_parse_list(t, i) == Some((seq![v0], i + f0.len() + 1)));
            assert(seq![v0] =~= ts);
        } else {
            reveal_strlit(", ");
            let rest = spec_fmt_int_list(ts.skip(1));
            assert(fl == f0 + ", "@ + rest);
            assert(fl.len() == f0.len() + 2 + rest.len());
            let j = i + f0.len();
            assert(t.index(j) == fl.index(f0.len() as int));
            assert(fl.index(f0.len() as int) == ',');
            assert(t.index(j + 1) == fl.index(f0.len() as int + 1));
            assert(fl.index(f0.len() as int + 1) == ' ');
            assert(!is_digit(','));
            assert(t.subrange(i, i + f0.len()) =~= f0) by {
                assert forall|q: int| 0 <= q < f0.len() implies t.subrange(i, i + f0.len()).index(
                    q,
                ) == f0.index(q) by {
                    assert(t.subrange(i, i + f0.len()).index(q) == t.index(i + q));
                    assert(t.index(i + q) == fl.index(q));
                    assert(fl.index(q) == f0.index(q));
                }
            }
            lemma_parse_int_fmt(t, i, v0);
            assert(t.index(i) != ']');
            assert(t.index(j) != ']');
            assert(t.subrange(j, j + 2) =~= ", "@) by {
                assert(t.subrange(j, j + 2).index(0) == t.index(j));
                assert(t.subrange(j, j + 2).index(1) == t.index(j + 1));
                assert((", "@).index(0) == ',');
                assert((", "@).index(1) == ' ');
            }
            assert(t.subrange(j + 2, j + 2 + rest.len()) =~= rest) by {
                assert forall|q: int| 0 <= q < rest.len() implies t.subrange(
                    j + 2,
                    j + 2 + rest.len(),
                ).index(q) == rest.index(q) by {
                    assert(t.subrange(j + 2, j + 2 + rest.len()).index(q) == t.index(j + 2 + q));
                    assert(t.index(j + 2 + q) == fl.index(f0.len() as int + 2 + q));
                    assert(fl.index(f0.len() as int + 2 + q) == rest.index(q));
                }
            }
            assert forall|k: int| 0 <= k < ts.skip(1).len() implies i32::MIN <= #[trigger] ts.skip(
                1,
            ).index(k) <= i32::MAX by {
                assert(ts.skip(1).index(k) == ts.index(k + 1));
            }
            assert(t.index(j + 2 + rest.len()) == ']');
            lemma_parse_list_fmt(t, j + 2, ts.skip(1));
            assert(spec_parse_list(t, i) == Some(
                (seq![v0] + ts.skip(1), j + 2 + rest.len() + 1),
            ));
            assert(seq![v0] + ts.skip(1) =~= ts);
        }
    }
}

proof fn lemma_parse_bool_fmt(t: Seq<char>, i: int, b: bool)
    requires
        0 <= i,
        i + spec_fmt_bool(b).len() <= t.len(),
        t.subrange(i, i + spec_fmt_bool(b).len()) == spec_fmt_bool(b),
    ensures
        spec_parse_bool(t, i) == Some((b, i + spec_fmt_bool(b).len())),
{
    reveal_strlit("true");
    reveal_strlit("false");
    if b {
        assert(spec_expect(t, i, "true"@) == Some(i + 4));
    } else {
        if i + 4 <= t.len() && t.subrange(i, i + 4) == "true"@ {
            assert(t.subrange(i, i + 4).index(0) == t.index(i));
            assert(t.subrange(i, i + spec_fmt_bool(b).len()).index(0) == t.index(i));
            assert(("true"@).index(0) == 't');
            assert(("false"@).index(0) == 'f');
            assert(false);
        }
        assert(spec_expect(t, i, "true"@) is None);
        assert(spec_expect(t, i, "false"@) == Some(i + 5));
    }
}

proof fn lemma_rt_head(v: CheckV)
    ensures
        spec_expect(spec_ser_check(v), 0, "hostname = \""@) == Some(12int),
        spec_unquote(spec_ser_check(v), 12) == Some(
            (v.hostname, 13 + spec_esc(v.hostname).len() as int),
        ),
        spec_ser_check(v).len() == 48 + spec_esc(v.hostname).len() + spec_fmt_int_list(
            v.temp,
        ).len() + spec_fmt_bool(v.service).len() + spec_fmt_bool(v.hw_errors).len(),
{
    let t = spec_ser_check(v);
    reveal_strlit("hostname = \"");
    reveal_strlit("\"");
    reveal_strlit("\ntemp = [");
    reveal_strlit("]");
    reveal_strlit("\nservice = ");
    reveal_strlit("\nhw_errors = ");
    reveal_strlit("\n");
    let l1 = "hostname = \""@;
    let e = spec_esc(v.hostname);
    assert(l1.len() == 12);
    assert(t.subrange(0, 12) =~= l1);
    assert(spec_expect(t, 0, l1) == Some(12int));
    assert(t.subrange(12, 12 + e.len() as int) =~= e);
    assert(t.index(12 + e.len() as int) == ("\""@).index(0));
    assert(("\""@).index(0) == '"');
    lemma_unquote_esc(t, 12, v.hostname);
}

proof fn lemma_rt_list(v: CheckV)
    requires
        forall|k: int| 0 <= k < v.temp.len() ==> i32::MIN <= #[trigger] v.temp.index(k)
            <= i32::MAX,
    ensures
        spec_expect(spec_ser_check(v), 13 + spec_esc(v.hostname).len() as int, "\ntemp = ["@)
            == Some(22 + spec_esc(v.hostname).len() as int),
        spec_parse_list(spec_ser_check(v), 22 + spec_esc(v.hostname).len() as int) == Some(
            (
                v.temp,
                23 + spec_esc(v.hostname).len() as int + spec_fmt_int_list(v.temp).len() as int,
            ),
        ),
{
    let t = spec_ser_check(v);
    reveal_strlit("hostname = \"");
    reveal_strlit("\"");
    reveal_strlit("\ntemp = [");
    reveal_strlit("]");
    reveal_strlit("\nservice = ");
    reveal_strlit("\nhw_errors = ");
    reveal_strlit("\n");
    let l2 = "\ntemp = ["@;
    let e = spec_esc(v.hostname);
    let fl = spec_fmt_int_list(v.temp);
    let p3 = 13 + e.len() as int;
    assert(l2.len() == 9);
    assert(t.subrange(p3, p3 + 9) =~= l2);
    assert(spec_expect(t, p3, l2) == Some(p3 + 9));
    assert(t.subrange(p3 + 9, p3 + 9 + fl.len()) =~= fl);
    assert(t.index(p3 + 9 + fl.len()) == ("]"@).index(0));
    assert(("]"@).index(0) == ']');
    lemma_parse_list_fmt(t, p3 + 9, v.temp);
}

proof fn lemma_rt_tail(v: CheckV)
    ensures
        ({
            let e = spec_esc(v.hostname);
            let fl = spec_fmt_int_list(v.temp);
            let b1 = spec_fmt_bool(v.service);
            let b2 = spec_fmt_bool(v.hw_errors);
            let p6 = 23 + e.len() as int + fl.len() as int;
            &&& spec_expect(spec_ser_check(v), p6, "\nservice = "@) == Some(p6 + 11)
            &&& spec_parse_bool(spec_ser_check(v), p6 + 11) == Some((v.service, p6 + 11 + b1.len() as int))
            &&& spec_expect(spec_ser_check(v), p6 + 11 + b1.len() as int, "\nhw_errors = "@)
                == Some(p6 + 24 + b1.len() as int)
            &&& spec_parse_bool(spec_ser_check(v), p6 + 24 + b1.len() as int) == Some(
                (v.hw_errors, p6 + 24 + b1.len() as int + b2.len() as int),
            )
            &&& spec_expect(spec_ser_check(v), p6 + 24 + b1.len() as int + b2.len() as int, "\n"@)
                == Some(p6 + 25 + b1.len() as int + b2.len() as int)
            &&& spec_ser_check(v).len() == p6 + 25 + b1.len() as int + b2.len() as int
        }),
{
    let t = spec_ser_check(v);
    reveal_strlit("hostname = \"");
    reveal_strlit("\"");
    reveal_strlit("\ntemp = [");
    reveal_strlit("]");
    reveal_strlit("\nservice = ");
    reveal_strlit("\nhw_errors = ");
    reveal_strlit("\n");
    let l3 = "\nservice = "@;
    let l4 = "\nhw_errors = "@;
    let nl = "\n"@;
    let e = spec_esc(v.hostname);
    let fl = spec_fmt_int_list(v.temp);
    let b1 = spec_fmt_bool(v.service);
    let b2 = spec_fmt_bool(v.hw_errors);
    let p6 = 23 + e.len() as int + fl.len() as int;
    assert(l3.len() == 11);
    assert(l4.len() == 13);
    assert(nl.len() == 1);
    let p7 = p6 + 11;
    let p8 = p7 + b1.len() as int;
    let p9 = p8 + 13;
    let p10 = p9 + b2.len() as int;
    assert(t.len() == p10 + 1);
    assert(t.subrange(p6, p7) =~= l3);
    assert(spec_expect(t, p6, l3) == Some(p7));
    assert(t.subrange(p7, p8) =~= b1);
    lemma_parse_bool_fmt(t, p7, v.service);
    assert(t.subrange(p8, p9) =~= l4);
    assert(spec_expect(t, p8, l4) == Some(p9));
    assert(t.subrange(p9, p10) =~= b2);
    lemma_parse_bool_fmt(t, p9, v.hw_errors);
    assert(t.subrange(p10, p10 + 1) =~= nl);
    assert(spec_expect(t, p10, nl) == Some(p10 + 1));
}

/// Serializing a snapshot and parsing it back yields an equal record: the
/// functional parser inverts the wire rendering on every snapshot whose
/// temperatures fit the wire's integer width.
pub proof fn lemma_wire_round_trip(v: CheckV)
    requires
        forall|k: int| 0 <= k < v.temp.len() ==> i32::MIN <= #[trigger] v.temp.index(k)
            <= i32::MAX,
    ensures
        spec_parse_check(spec_ser_check(v)) == Some(v),
{
    let t = spec_ser_check(v);
    lemma_rt_head(v);
    lemma_rt_list(v);
    lemma_rt_tail(v);
    assert(spec_parse_check(t) == Some(
        CheckV { hostname: v.hostname, temp: v.temp, service: v.service, hw_errors: v.hw_errors },
    ));
    assert(CheckV {
        hostname: v.hostname,
        temp: v.temp,
        service: v.service,
        hw_errors: v.hw_errors,
    } =~= v);
}

/// Render a snapshot in the wire form.
pub fn serialize_check(c: &CheckResult) -> (r: String)
    ensures
        r@ == spec_ser_check(c@),
{
    let mut out = String::new();
    out.append("hostname = \"");
    append_escaped(&mut out, c.hostname.as_str());
    out.append("\"");
    out.append("\ntemp = [");
    append_int_list(&mut out, &c.temp);
    out.append("]");
    out.append("\nservice = ");
    if c.service {
        out.append("true");
    } else {
        out.append("false");
    }
    out.append("\nhw_errors = ");
    if c.hw_errors {
        out.append("true");
    } else {
        out.append("false");
    }
    out.append("\n");
    proof {
        assert(out@ =~= spec_ser_check(c@));
    }
    out
}

} // verus!
