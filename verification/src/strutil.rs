//! Small verified text utilities: pushing a character, trimming whitespace,
//! character-wise string equality and byte-level substring search.

use vstd::prelude::*;
use vstd::string::StrSliceExecFns;

verus! {

/// Relies on `String::push` of std: appends exactly the one character to the
/// end of the string.
pub assume_specification[ String::push ](s: &mut String, ch: char)
    ensures
        final(s)@ == old(s)@.push(ch),
;

/// Append one character; the view grows by exactly that character.
pub fn push_char(s: &mut String, ch: char)
    ensures
        final(s)@ == old(s)@.push(ch),
{
    s.push(ch);
}

pub open spec fn is_ws(c: char) -> bool {
    c == ' ' || c == '\t' || c == '\n' || c == '\r'
}

/// Count of leading whitespace characters.
pub open spec fn lead_ws(t: Seq<char>) -> nat
    decreases t.len(),
{
    if t.len() == 0 || !is_ws(t.index(0)) {
        0
    } else {
        (1 + lead_ws(t.skip(1))) as nat
    }
}

/// Count of trailing whitespace characters.
pub open spec fn trail_ws(t: Seq<char>) -> nat
    decreases t.len(),
{
    if t.len() == 0 || !is_ws(t.last()) {
        0
    } else {
        (1 + trail_ws(t.drop_last())) as nat
    }
}

/// `t` with leading and trailing whitespace removed.
pub open spec fn spec_trim(t: Seq<char>) -> Seq<char> {
    if lead_ws(t) == t.len() {
        Seq::empty()
    } else {
        t.subrange(lead_ws(t) as int, t.len() - trail_ws(t))
    }
}

proof fn lemma_lead_ws_exact(t: Seq<char>, a: int)
    requires
        0 <= a <= t.len(),
        forall|k: int| 0 <= k < a ==> is_ws(#[trigger] t.index(k)),
        a == t.len() || !is_ws(t.index(a)),
    ensures
        lead_ws(t) == a,
    decreases t.len(),
{
    if t.len() > 0 && is_ws(t.index(0)) {
        let u = t.skip(1);
        assert forall|k: int| 0 <= k < a - 1 implies is_ws(#[trigger] u.index(k)) by {
            assert(u.index(k) == t.index(k + 1));
        }
        assert(a >= 1);
        if a - 1 < u.len() {
            assert(u.index(a - 1) == t.index(a));
        }
        lemma_lead_ws_exact(u, a - 1);
    }
}

proof fn lemma_trail_ws_exact(t: Seq<char>, b: int)
    requires
        0 <= b <= t.len(),
        forall|k: int| b <= k < t.len() ==> is_ws(#[trigger] t.index(k)),
        b == 0 || !is_ws(t.index(b - 1)),
    ensures
        trail_ws(t) == t.len() - b,
    decreases t.len(),
{
    if t.len() > 0 && is_ws(t.last()) {
        let u = t.drop_last();
        assert(b < t.len());
        assert forall|k: int| b <= k < u.len() implies is_ws(#[trigger] u.index(k)) by {
            assert(u.index(k) == t.index(k));
        }
        lemma_trail_ws_exact(u, b);
    }
}

/// Remove leading and trailing whitespace (space, tab, newline, carriage
/// return), as the probe-output readers need.
pub fn trim_str<'a>(s: &'a str) -> (r: &'a str)
    ensures
        r@ == spec_trim(s@),
{
    let n = s.unicode_len();
    let ghost t = s@;
    let mut a: usize = 0;
    loop
        invariant
            0 <= a <= n,
            n == t.len(),
            t == s@,
            forall|k: int| 0 <= k < a ==> is_ws(#[trigger] t.index(k)),
        ensures
            0 <= a <= n,
            forall|k: int| 0 <= k < a ==> is_ws(#[trigger] t.index(k)),
            a == n || !is_ws(t.index(a as int)),
        decreases t.len() - a,
    {
        if a >= n {
            break ;
        }
        let c = s.get_char(a);
        if !(c == ' ' || c == '\t' || c == '\n' || c == '\r') {
            break ;
        }
        a = a + 1;
    }
    proof {
        lemma_lead_ws_exact(t, a as int);
    }
    if a == n {
        let r = s.substring_char(n, n);
        proof {
            assert(r@ =~= spec_trim(t));
        }
        return r;
    }
    let mut b: usize = n;
    loop
        invariant
            a < b <= n,
            a < n,
            n == t.len(),
            t == s@,
            !is_ws(t.index(a as int)),
            forall|k: int| b <= k < n ==> is_ws(#[trigger] t.index(k)),
        ensures
            a < b <= n,
            forall|k: int| b <= k < n ==> is_ws(#[trigger] t.index(k)),
            !is_ws(t.index(b - 1)),
        decreases b,
    {
        let c = s.get_char(b - 1);
        if !(c == ' ' || c == '\t' || c == '\n' || c == '\r') {
            break ;
        }
        if b - 1 == a {
            break ;
        }
        b = b - 1;
    }
    proof {
        lemma_trail_ws_exact(t, b as int);
    }
    let r = s.substring_char(a, b);
    proof {
        assert(r@ =~= spec_trim(t));
    }
    r
}

/// Character-wise equality of two string slices.
pub fn str_eq(a: &str, b: &str) -> (r: bool)
    ensures
        r == (a@ == b@),
{
    let na = a.unicode_len();
    let nb = b.unicode_len();
    if na != nb {
        proof {
            assert(a@ != b@);
        }
        return false;
    }
    let mut i: usize = 0;
    while i < na
        invariant
            0 <= i <= na,
            na == a@.len(),
            nb == b@.len(),
            na == nb,
            forall|k: int| 0 <= k < i ==> a@.index(k) == b@.index(k),
        decreases na - i,
    {
        if a.get_char(i) != b.get_char(i) {
            return false;
        }
        i = i + 1;
    }
    proof {
        assert(a@ =~= b@);
    }
    true
}

/// `pat` occurs somewhere in `hay`.
pub open spec fn is_sub_bytes(hay: Seq<u8>, pat: Seq<u8>) -> bool {
    exists|i: int|
        0 <= i && i + pat.len() <= hay.len() && #[trigger] hay.subrange(i, i + pat.len()) == pat
}

/// Byte-level substring search.
pub fn contains_bytes(hay: &[u8], pat: &[u8]) -> (r: bool)
    ensures
        r == is_sub_bytes(hay@, pat@),
{
    let m = pat.len();
    let n = hay.len();
    if m > n {
        proof {
            assert(!is_sub_bytes(hay@, pat@));
        }
        return false;
    }
    let mut i: usize = 0;
    while i <= n - m
        invariant
            0 <= i <= n - m + 1,
            m <= n,
            m == pat@.len(),
            n == hay@.len(),
            forall|p: int| 0 <= p < i ==> #[trigger] hay@.subrange(p, p + pat@.len()) != pat@,
        decreases n - i,
    {
        let mut j: usize = 0;
        let mut matched = true;
        while j < m
            invariant_except_break
                0 <= j <= m,
                i + m <= n,
                m == pat@.len(),
                n == hay@.len(),
                matched,
                forall|q: int| 0 <= q < j ==> hay@.index(i + q) == pat@.index(q),
            ensures
                matched ==> forall|q: int| 0 <= q < m ==> hay@.index(i + q) == pat@.index(q),
                !matched ==> exists|q: int|
                    0 <= q < pat@.len() && hay@.index(i + q) != pat@.index(q),
            decreases m - j,
        {
            if hay[i + j] != pat[j] {
                matched = false;
                break ;
            }
            j = j + 1;
        }
        if matched {
            proof {
                assert(hay@.subrange(i as int, i + pat@.len()) =~= pat@);
            }
            return true;
        }
        proof {
            assert(hay@.subrange(i as int, i + pat@.len()) != pat@) by {
                let q = choose|q: int| 0 <= q < pat@.len() && hay@.index(i + q) != pat@.index(q);
                assert(hay@.subrange(i as int, i + pat@.len()).index(q) != pat@.index(q));
            }
        }
        i = i + 1;
    }
    proof {
        assert forall|p: int| 0 <= p && p + pat@.len() <= hay@.len() implies #[trigger] hay@
            .subrange(p, p + pat@.len()) != pat@ by {
            assert(p < i);
        }
    }
    false
}

} // verus!
