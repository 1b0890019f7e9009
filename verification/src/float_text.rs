//! The texts that `str::parse::<f64>` accepts, as its documentation writes
//! them down.

use vstd::prelude::*;
use crate::numbers::{all_digits, is_digit};
use crate::text::chars_of;

verus! {

pub open spec fn ascii_lower(c: char) -> char {
    if 'A' <= c && c <= 'Z' {
        ((c as u8) + 32) as char
    } else {
        c
    }
}

/// `s` with its ASCII capitals made small. No other character lowercases to
/// one of the letters the grammar uses.
pub open spec fn lowered(s: Seq<char>) -> Seq<char> {
    s.map_values(|c: char| ascii_lower(c))
}

/// `t` without one leading `+` or `-`.
pub open spec fn unsigned_part(t: Seq<char>) -> Seq<char> {
    if t.len() > 0 && (t[0] == '+' || t[0] == '-') {
        t.drop_first()
    } else {
        t
    }
}

/// `Digit+ | Digit+ '.' Digit* | Digit* '.' Digit+`
pub open spec fn is_mantissa(x: Seq<char>) -> bool {
    ||| x.len() > 0 && all_digits(x)
    ||| x.len() > 1 && exists|p: int|
        0 <= p < x.len() && x[p] == '.' && all_digits(#[trigger] x.take(p)) && all_digits(x.skip(p + 1))
}

/// `'e' Sign? Digit+`
pub open spec fn is_exponent(y: Seq<char>) -> bool {
    &&& y.len() > 0
    &&& y[0] == 'e'
    &&& unsigned_part(y.drop_first()).len() > 0
    &&& all_digits(unsigned_part(y.drop_first()))
}

/// `Mantissa Exp?`
pub open spec fn is_number(b: Seq<char>) -> bool {
    exists|m: int|
        0 <= m <= b.len() && is_mantissa(#[trigger] b.take(m)) && (m == b.len() || is_exponent(b.skip(m)))
}

/// A text that `str::parse::<f64>` turns into a number: once lowercased, an
/// optional sign, then `inf`, `infinity`, `nan`, or digits with at most one
/// point and an optional exponent. No whitespace is allowed.
pub open spec fn is_float_text(s: Seq<char>) -> bool {
    let b = unsigned_part(lowered(s));
    ||| b == "inf"@
    ||| b == "infinity"@
    ||| b == "nan"@
    ||| is_number(b)
}

fn lower_char(c: char) -> (r: char)
    ensures
        r == ascii_lower(c),
{
    if 'A' <= c && c <= 'Z' {
        ((c as u8) + 32) as char
    } else {
        c
    }
}

fn same_text(a: &Vec<char>, b: &str) -> (r: bool)
    ensures
        r == (a@ == b@),
{
    let bs = chars_of(b);
    if a.len() != bs.len() {
        return false;
    }
    let mut i: usize = 0;
    while i < a.len()
        invariant
            a@.len() == bs@.len(),
            bs@ == b@,
            i <= a@.len(),
            forall|k: int| 0 <= k < i ==> a@[k] == bs@[k],
        decreases a@.len() - i,
    {
        if a[i] != bs[i] {
            return false;
        }
        i = i + 1;
    }
    assert(a@ =~= bs@);
    true
}

fn is_digit_char(c: char) -> (r: bool)
    ensures
        r == is_digit(c),
{
    '0' <= c && c <= '9'
}

/// Whether `b` is a number of the grammar: a mantissa and an optional exponent.
fn number_accepted(b: &Vec<char>) -> (ok: bool)
    ensures
        ok == is_number(b@),
{
    let n = b.len();
    let mut i: usize = 0;
    let mut dot: Option<usize> = None;
    let mut seen_digit = false;
    while i < n && (is_digit_char(b[i]) || (b[i] == '.' && dot.is_none()))
        invariant
            n == b@.len(),
            i <= n,
            forall|k: int| 0 <= k < i ==> is_digit(#[trigger] b@[k]) || b@[k] == '.',
            match dot {
                Some(p) => p < i && b@[p as int] == '.' && forall|k: int|
                    0 <= k < i && k != p ==> #[trigger] b@[k] != '.',
                None => forall|k: int| 0 <= k < i ==> #[trigger] b@[k] != '.',
            },
            seen_digit == exists|k: int| 0 <= k < i && is_digit(#[trigger] b@[k]),
        decreases n - i,
    {
        if b[i] == '.' {
            dot = Some(i);
        } else {
            seen_digit = true;
        }
        i = i + 1;
    }
    let m = i;
    // The mantissa ends exactly where the scan stopped.
    proof {
        lemma_mantissa_end(b@, m as int, dot, seen_digit);
    }
    if !seen_digit {
        return false;
    }
    if m == n {
        proof {
            assert(b@.take(m as int) =~= b@);
        }
        return true;
    }
    if b[m] != 'e' {
        return false;
    }
    let signed = m + 1 < n && (b[m + 1] == '+' || b[m + 1] == '-');
    let start: usize = if signed { m + 2 } else { m + 1 };
    let ghost d = unsigned_part(b@.skip(m as int).drop_first());
    proof {
        assert(b@.skip(m as int).drop_first() =~= b@.skip(m + 1));
        assert(d =~= b@.skip(start as int));
    }
    if start == n {
        assert(d.len() == 0);
        return false;
    }
    let mut j: usize = start;
    while j < n
        invariant
            m < start <= j <= n,
            n == b@.len(),
            d =~= b@.skip(start as int),
            d == unsigned_part(b@.skip(m as int).drop_first()),
            m < n,
            is_number(b@) ==> is_exponent(b@.skip(m as int)),
            is_mantissa(b@.take(m as int)),
            forall|k: int| start <= k < j ==> is_digit(#[trigger] b@[k]),
        decreases n - j,
    {
        if !is_digit_char(b[j]) {
            proof {
                assert(d[j - start] == b@[j as int]);
                assert(!is_digit(d[j - start]));
                assert(!all_digits(d));
                assert(!is_exponent(b@.skip(m as int)));
            }
            return false;
        }
        j = j + 1;
    }
    proof {
        assert(all_digits(d)) by {
            assert forall|k: int| 0 <= k < d.len() implies is_digit(#[trigger] d[k]) by {
                assert(d[k] == b@[start + k]);
            }
        }
        assert(is_exponent(b@.skip(m as int)));
    }
    true
}

/// Where the scan over digits and one point stops, the only possible end of
/// a mantissa lies.
proof fn lemma_mantissa_end(b: Seq<char>, m: int, dot: Option<usize>, seen_digit: bool)
    requires
        0 <= m <= b.len(),
        forall|k: int| 0 <= k < m ==> is_digit(#[trigger] b[k]) || b[k] == '.',
        match dot {
            Some(p) => p < m && b[p as int] == '.' && forall|k: int| 0 <= k < m && k != p ==> #[trigger] b[k] != '.',
            None => forall|k: int| 0 <= k < m ==> #[trigger] b[k] != '.',
        },
        seen_digit == exists|k: int| 0 <= k < m && is_digit(#[trigger] b[k]),
        m == b.len() || !(is_digit(b[m]) || (b[m] == '.' && dot is None)),
    ensures
        seen_digit ==> is_mantissa(b.take(m)),
        is_number(b) ==> (seen_digit && (m == b.len() || is_exponent(b.skip(m)))),
{
    let x = b.take(m);
    if seen_digit {
        match dot {
            None => {
                assert(all_digits(x)) by {
                    assert forall|k: int| 0 <= k < x.len() implies is_digit(#[trigger] x[k]) by {
                        assert(x[k] == b[k]);
                        assert(b[k] != '.');
                    }
                }
                let w = choose|k: int| 0 <= k < m && is_digit(#[trigger] b[k]);
                assert(x.len() > 0);
            },
            Some(p) => {
                let w = choose|k: int| 0 <= k < m && is_digit(#[trigger] b[k]);
                assert(w != p);
                assert(x.len() > 1);
                assert(x[p as int] == '.');
                assert(all_digits(x.take(p as int))) by {
                    assert forall|k: int| 0 <= k < x.take(p as int).len() implies is_digit(
                        #[trigger] x.take(p as int)[k],
                    ) by {
                        assert(x.take(p as int)[k] == b[k]);
                        assert(b[k] != '.');
                    }
                }
                assert(all_digits(x.skip(p + 1))) by {
                    assert forall|k: int| 0 <= k < x.skip(p + 1).len() implies is_digit(
                        #[trigger] x.skip(p + 1)[k],
                    ) by {
                        assert(x.skip(p + 1)[k] == b[p + 1 + k]);
                        assert(b[p + 1 + k] != '.');
                    }
                }
            },
        }
    }
    if is_number(b) {
        let mm = choose|mm: int|
            0 <= mm <= b.len() && is_mantissa(#[trigger] b.take(mm)) && (mm == b.len() || is_exponent(
                b.skip(mm),
            ));
        let y = b.take(mm);
        // Every character of a mantissa is a digit or its one point.
        assert forall|k: int| 0 <= k < mm implies (is_digit(#[trigger] b[k]) || b[k] == '.') by {
            assert(y[k] == b[k]);
            if !(y.len() > 0 && all_digits(y)) {
                let p = choose|p: int|
                    0 <= p < y.len() && y[p] == '.' && all_digits(#[trigger] y.take(p)) && all_digits(
                        y.skip(p + 1),
                    );
                if k < p {
                    assert(y.take(p)[k] == y[k]);
                } else if k > p {
                    assert(y.skip(p + 1)[k - p - 1] == y[k]);
                }
            }
        }
        // The scan does not stop inside the mantissa.
        assert(mm <= m) by {
            if m < mm {
                assert(y[m] == b[m]);
                if y.len() > 0 && all_digits(y) {
                    assert(is_digit(y[m]));
                } else {
                    let p = choose|p: int|
                        0 <= p < y.len() && y[p] == '.' && all_digits(#[trigger] y.take(p)) && all_digits(
                            y.skip(p + 1),
                        );
                    if m < p {
                        assert(y.take(p)[m] == y[m]);
                    } else if m > p {
                        assert(y.skip(p + 1)[m - p - 1] == y[m]);
                    }
                    // b[m] is the mantissa's point, so the scan saw another one before it.
                    assert(b[m] == '.' && dot is Some);
                    let q = dot->0;
                    assert(b[q as int] == '.');
                    assert(y[q as int] == '.');
                    if (q as int) < p {
                        assert(y.take(p)[q as int] == y[q as int]);
                    } else if (q as int) > p {
                        assert(y.skip(p + 1)[q - p - 1] == y[q as int]);
                    }
                }
            }
        }
        // Nor does it run past it: an exponent starts with `e`.
        assert(mm == m) by {
            if mm < m {
                assert(b.skip(mm)[0] == b[mm]);
            }
        }
        // A mantissa holds a digit.
        assert(seen_digit) by {
            if y.len() > 0 && all_digits(y) {
                assert(y[0] == b[0]);
                assert(is_digit(b[0]));
            } else {
                let p = choose|p: int|
                    0 <= p < y.len() && y[p] == '.' && all_digits(#[trigger] y.take(p)) && all_digits(
                        y.skip(p + 1),
                    );
                if p > 0 {
                    assert(y.take(p)[0] == y[0]);
                    assert(y[0] == b[0]);
                    assert(is_digit(b[0]));
                } else {
                    assert(y.skip(p + 1)[0] == y[1]);
                    assert(y[1] == b[1]);
                    assert(is_digit(b[1]));
                }
            }
        }
    }
}

/// Whether `str::parse::<f64>` accepts `s`, by the grammar its documentation
/// gives (`is_float_text`).
pub fn float_text_accepted(s: &str) -> (ok: bool)
    ensures
        ok == is_float_text(s@),
{
    let raw = chars_of(s);
    let mut t: Vec<char> = Vec::new();
    let mut i: usize = 0;
    while i < raw.len()
        invariant
            i <= raw@.len(),
            raw@ == s@,
            t@ == lowered(raw@.take(i as int)),
        decreases raw@.len() - i,
    {
        t.push(lower_char(raw[i]));
        i = i + 1;
        assert(t@ =~= lowered(raw@.take(i as int)));
    }
    assert(raw@.take(raw@.len() as int) =~= raw@);
    let signed = t.len() > 0 && (t[0] == '+' || t[0] == '-');
    let mut b: Vec<char> = Vec::new();
    let mut k: usize = if signed { 1 } else { 0 };
    let from = k;
    while k < t.len()
        invariant
            from <= k <= t@.len(),
            b@ == t@.subrange(from as int, k as int),
        decreases t@.len() - k,
    {
        b.push(t[k]);
        k = k + 1;
        assert(b@ =~= t@.subrange(from as int, k as int));
    }
    assert(b@ =~= unsigned_part(lowered(s@)));
    if same_text(&b, "inf") || same_text(&b, "infinity") || same_text(&b, "nan") {
        return true;
    }
    number_accepted(&b)
}

} // verus!
