//! Field syntax: point identifiers and decimal floating-point text.

use vstd::prelude::*;

verus! {

/// The value of `c` as a digit in `radix` (10 or 16), if it is one.
pub open spec fn digit_of(c: char, radix: nat) -> Option<nat> {
    if '0' <= c && c <= '9' {
        Some((c as nat - '0' as nat) as nat)
    } else if radix == 16 && 'a' <= c && c <= 'f' {
        Some((c as nat - 'a' as nat + 10) as nat)
    } else if radix == 16 && 'A' <= c && c <= 'F' {
        Some((c as nat - 'A' as nat + 10) as nat)
    } else {
        None
    }
}

/// The value of a run of digits, most significant first (0 when empty).
pub open spec fn digits_value(s: Seq<char>, radix: nat) -> Option<nat>
    decreases s.len(),
{
    if s.len() == 0 {
        Some(0)
    } else {
        match (digits_value(s.drop_last(), radix), digit_of(s.last(), radix)) {
            (Some(v), Some(d)) => Some(v * radix + d),
            _ => None,
        }
    }
}

/// An unsigned number: an optional `+`, then at least one digit.
pub open spec fn unsigned_value(s: Seq<char>, radix: nat) -> Option<nat> {
    let body = if s.len() > 0 && s[0] == '+' { s.skip(1) } else { s };
    if body.len() == 0 {
        None
    } else {
        digits_value(body, radix)
    }
}

/// A point identifier: decimal, or hexadecimal after `0x`, that fits in 16 bits.
pub open spec fn point_id_of(s: Seq<char>) -> Option<u16> {
    let v = if s.len() >= 2 && s[0] == '0' && s[1] == 'x' {
        unsigned_value(s.skip(2), 16)
    } else {
        unsigned_value(s, 10)
    };
    match v {
        Some(n) => if n <= u16::MAX { Some(n as u16) } else { None },
        None => None,
    }
}

proof fn lemma_prefix_value(s: Seq<char>, k: int, radix: nat)
    requires
        digits_value(s, radix) is Some,
        0 <= k <= s.len(),
        radix > 0,
    ensures
        digits_value(s.take(k), radix) is Some,
        digits_value(s.take(k), radix)->0 <= digits_value(s, radix)->0,
    decreases s.len(),
{
    if k == s.len() {
        assert(s.take(k) =~= s);
    } else {
        lemma_prefix_value(s.drop_last(), k, radix);
        assert(s.drop_last().take(k) =~= s.take(k));
        let v = digits_value(s.drop_last(), radix)->0;
        let d = digit_of(s.last(), radix)->0;
        assert(v <= v * radix + d) by (nonlinear_arith)
            requires radix > 0;
    }
}

fn digit_exec(c: char, radix: u32) -> (r: Option<u32>)
    requires
        radix == 10 || radix == 16,
    ensures
        r is Some <==> digit_of(c, radix as nat) is Some,
        r is Some ==> r->0 as nat == digit_of(c, radix as nat)->0 && r->0 < radix,
{
    if '0' <= c && c <= '9' {
        Some(c as u32 - '0' as u32)
    } else if radix == 16 && 'a' <= c && c <= 'f' {
        Some(c as u32 - 'a' as u32 + 10)
    } else if radix == 16 && 'A' <= c && c <= 'F' {
        Some(c as u32 - 'A' as u32 + 10)
    } else {
        None
    }
}

/// Parses a point identifier: an unsigned 16-bit integer written in
/// decimal, or in hexadecimal after a `0x` prefix, with an optional `+`.
pub fn parse_point_id(text: &str) -> (r: Option<u16>)
    ensures
        r == point_id_of(text@),
{
    let n = text.unicode_len();
    let hex = n >= 2 && text.get_char(0) == '0' && text.get_char(1) == 'x';
    let radix: u32 = if hex { 16 } else { 10 };
    let start: usize = if hex { 2 } else { 0 };
    let ghost s = text@.skip(start as int);
    let mut i: usize = start;
    if i < n && text.get_char(i) == '+' {
        i = i + 1;
    }
    let first = i;
    let ghost body = text@.subrange(first as int, n as int);
    proof {
        if hex {
            assert(s =~= text@.subrange(2, n as int));
        } else {
            assert(s =~= text@);
        }
        if s.len() > 0 && s[0] == '+' {
            assert(s.skip(1) =~= body);
        } else {
            assert(s =~= body);
        }
    }
    if i == n {
        return None;
    }
    assert(point_id_of(text@) == match digits_value(body, radix as nat) {
        Some(v) => if v <= u16::MAX { Some(v as u16) } else { None },
        None => None,
    });
    let mut acc: u32 = 0;
    while i < n
        invariant
            first <= i <= n,
            n == text@.len(),
            radix == 10 || radix == 16,
            body == text@.subrange(first as int, n as int),
            digits_value(text@.subrange(first as int, i as int), radix as nat) == Some(acc as nat),
            acc <= u16::MAX,
            point_id_of(text@) == match digits_value(body, radix as nat) {
                Some(v) => if v <= u16::MAX { Some(v as u16) } else { None },
                None => None,
            },
        decreases n - i,
    {
        let c = text.get_char(i);
        let ghost pre = text@.subrange(first as int, i as int + 1);
        assert(pre.drop_last() =~= text@.subrange(first as int, i as int));
        assert(body.take(i - first + 1) =~= pre);
        match digit_exec(c, radix) {
            None => {
                proof {
                    if digits_value(body, radix as nat) is Some {
                        lemma_prefix_value(body, i - first + 1, radix as nat);
                    }
                }
                return None;
            },
            Some(d) => {
                assert(acc as u64 * radix as u64 <= 65535 * 16) by (nonlinear_arith)
                    requires acc <= 65535, radix <= 16;
                let next: u64 = acc as u64 * radix as u64 + d as u64;
                if next > u16::MAX as u64 {
                    proof {
                        if digits_value(body, radix as nat) is Some {
                            lemma_prefix_value(body, i - first + 1, radix as nat);
                        }
                    }
                    return None;
                }
                acc = next as u32;
                i = i + 1;
            },
        }
    }
    assert(text@.subrange(first as int, n as int) =~= body);
    Some(acc as u16)
}


pub open spec fn is_digit(c: char) -> bool {
    '0' <= c && c <= '9'
}

pub open spec fn all_digits(s: Seq<char>) -> bool {
    forall|i: int| 0 <= i < s.len() ==> is_digit(#[trigger] s[i])
}

pub open spec fn is_sign(c: char) -> bool {
    c == '+' || c == '-'
}

/// `s` without one leading sign, if it has one.
pub open spec fn unsigned_part(s: Seq<char>) -> Seq<char> {
    if s.len() > 0 && is_sign(s[0]) { s.skip(1) } else { s }
}

/// `Digit+ | Digit+ '.' Digit* | Digit* '.' Digit+`
pub open spec fn is_decimal(s: Seq<char>) -> bool {
    ||| s.len() > 0 && all_digits(s)
    ||| exists|k: int|
        0 <= k < s.len() && #[trigger] s[k] == '.' && s.len() >= 2 && all_digits(s.take(k))
            && all_digits(s.skip(k + 1))
}

pub open spec fn is_exp_mark(c: char) -> bool {
    c == 'e' || c == 'E'
}

/// `('e' | 'E') Sign? Digit+`
pub open spec fn is_exponent(s: Seq<char>) -> bool {
    &&& s.len() > 0
    &&& is_exp_mark(s[0])
    &&& unsigned_part(s.skip(1)).len() > 0
    &&& all_digits(unsigned_part(s.skip(1)))
}

/// A decimal mantissa with an optional exponent.
pub open spec fn is_number(s: Seq<char>) -> bool {
    exists|j: int|
        0 <= j <= s.len() && is_decimal(#[trigger] s.take(j)) && (j == s.len() || is_exponent(
            s.skip(j),
        ))
}

/// `c` is the lower-case ASCII letter `l` in either case.
pub open spec fn letter_matches(c: char, l: char) -> bool {
    c == l || c as u32 + 32 == l as u32
}

/// `s` spells the lower-case word `w`, ignoring ASCII case.
pub open spec fn spells(s: Seq<char>, w: Seq<char>) -> bool {
    s.len() == w.len() && forall|i: int| 0 <= i < s.len() ==> letter_matches(#[trigger] s[i], w[i])
}

pub open spec fn is_special(s: Seq<char>) -> bool {
    spells(s, "inf"@) || spells(s, "infinity"@) || spells(s, "nan"@)
}

/// The text of a 64-bit floating-point number as the standard library
/// reads it: an optional sign, then `inf`, `infinity`, `nan` (in any case)
/// or a decimal number with an optional exponent.
pub open spec fn is_float_text(s: Seq<char>) -> bool {
    is_special(unsigned_part(s)) || is_number(unsigned_part(s))
}

proof fn lemma_not_decimal(s: Seq<char>, p: int, q: int)
    requires
        0 <= p < s.len(),
        0 <= q < s.len(),
        !is_digit(s[p]),
        !is_digit(s[q]),
        p != q || s[p] != '.',
    ensures
        !is_decimal(s),
{
    assert(!all_digits(s));
    assert forall|k: int|
        0 <= k < s.len() && #[trigger] s[k] == '.' && all_digits(s.take(k)) implies !all_digits(
            s.skip(k + 1),
        ) by {
        let r = if p != k { p } else { q };
        assert(r != k);
        if r < k {
            assert(s.take(k)[r] == s[r]);
        } else {
            assert(s.skip(k + 1)[r - k - 1] == s[r]);
        }
    }
}

proof fn lemma_decimal_has_no_exp_mark(s: Seq<char>, p: int)
    requires
        is_decimal(s),
        0 <= p < s.len(),
    ensures
        !is_exp_mark(s[p]),
{
    if !all_digits(s) || s.len() == 0 {
        let k = choose|k: int|
            0 <= k < s.len() && #[trigger] s[k] == '.' && s.len() >= 2 && all_digits(s.take(k))
                && all_digits(s.skip(k + 1));
        if p < k {
            assert(s.take(k)[p] == s[p]);
        } else if p > k {
            assert(s.skip(k + 1)[p - k - 1] == s[p]);
        }
    }
}

/// Whether every character of `text[lo..hi]` is a decimal digit.
fn digits_between(text: &str, lo: usize, hi: usize) -> (r: bool)
    requires
        lo <= hi <= text@.len(),
    ensures
        r == all_digits(text@.subrange(lo as int, hi as int)),
{
    let mut i = lo;
    while i < hi
        invariant
            lo <= i <= hi <= text@.len(),
            all_digits(text@.subrange(lo as int, i as int)),
        decreases hi - i,
    {
        let c = text.get_char(i);
        if !('0' <= c && c <= '9') {
            assert(text@.subrange(lo as int, hi as int)[i - lo] == c);
            return false;
        }
        assert forall|k: int| 0 <= k < i + 1 - lo implies is_digit(
            #[trigger] text@.subrange(lo as int, i + 1)[k],
        ) by {
            if k < i - lo {
                assert(text@.subrange(lo as int, i as int)[k] == text@.subrange(lo as int, i + 1)[k]);
            }
        }
        i = i + 1;
    }
    true
}

/// Whether `text[lo..hi]` spells `word`, ignoring ASCII case.
fn spells_between(text: &str, lo: usize, hi: usize, word: &str) -> (r: bool)
    requires
        lo <= hi <= text@.len(),
    ensures
        r == spells(text@.subrange(lo as int, hi as int), word@),
{
    let ghost s = text@.subrange(lo as int, hi as int);
    if hi - lo != word.unicode_len() {
        return false;
    }
    let mut i: usize = 0;
    while i < hi - lo
        invariant
            lo <= hi <= text@.len(),
            s == text@.subrange(lo as int, hi as int),
            s.len() == word@.len(),
            0 <= i <= s.len(),
            forall|k: int| 0 <= k < i ==> letter_matches(#[trigger] s[k], word@[k]),
        decreases s.len() - i,
    {
        let c = text.get_char(lo + i);
        let l = word.get_char(i);
        if !(c == l || c as u32 + 32 == l as u32) {
            assert(s[i as int] == c);
            return false;
        }
        i = i + 1;
    }
    true
}

/// Whether `text[lo..hi]` is a decimal mantissa.
fn decimal_between(text: &str, lo: usize, hi: usize) -> (r: bool)
    requires
        lo <= hi <= text@.len(),
    ensures
        r == is_decimal(text@.subrange(lo as int, hi as int)),
{
    let ghost s = text@.subrange(lo as int, hi as int);
    let mut dot: Option<usize> = None;
    let mut i = lo;
    while i < hi
        invariant
            lo <= i <= hi <= text@.len(),
            s == text@.subrange(lo as int, hi as int),
            dot is None ==> forall|k: int| 0 <= k < i - lo ==> is_digit(#[trigger] s[k]),
            dot is Some ==> {
                let d = dot->0 - lo;
                &&& 0 <= d < i - lo
                &&& s[d] == '.'
                &&& forall|k: int| 0 <= k < i - lo && k != d ==> is_digit(#[trigger] s[k])
            },
        decreases hi - i,
    {
        let c = text.get_char(i);
        assert(s[i - lo] == c);
        if c == '.' {
            if let Some(d) = dot {
                proof {
                    lemma_not_decimal(s, d - lo, i - lo);
                }
                return false;
            }
            dot = Some(i);
        } else if !('0' <= c && c <= '9') {
            proof {
                lemma_not_decimal(s, i - lo, i - lo);
            }
            return false;
        }
        i = i + 1;
    }
    match dot {
        None => {
            assert(all_digits(s) || s.len() == 0);
            if hi == lo {
                return false;
            }
            true
        },
        Some(d) => {
            let ghost k = d - lo;
            assert(all_digits(s.take(k)) && all_digits(s.skip(k + 1))) by {
                assert forall|m: int| 0 <= m < k implies is_digit(#[trigger] s.take(k)[m]) by {
                    assert(s.take(k)[m] == s[m]);
                }
                assert forall|m: int| 0 <= m < s.len() - k - 1 implies is_digit(
                    #[trigger] s.skip(k + 1)[m],
                ) by {
                    assert(s.skip(k + 1)[m] == s[m + k + 1]);
                }
            }
            if hi - lo < 2 {
                proof {
                    if s.len() > 0 {
                        assert(!is_digit(s[0]));
                    }
                }
                return false;
            }
            true
        },
    }
}

fn is_exp_char(c: char) -> (r: bool)
    ensures
        r == is_exp_mark(c),
{
    c == 'e' || c == 'E'
}

/// Whether `text` is the text of a 64-bit floating-point number.
pub fn is_float_literal(text: &str) -> (r: bool)
    ensures
        r == is_float_text(text@),
{
    let n = text.unicode_len();
    let lo: usize = if n > 0 && (text.get_char(0) == '+' || text.get_char(0) == '-') {
        1
    } else {
        0
    };
    let ghost u = unsigned_part(text@);
    assert(u =~= text@.subrange(lo as int, n as int));
    if spells_between(text, lo, n, "inf") || spells_between(text, lo, n, "infinity")
        || spells_between(text, lo, n, "nan") {
        return true;
    }
    let mut j = lo;
    while j < n && !is_exp_char(text.get_char(j))
        invariant
            lo <= j <= n == text@.len(),
            forall|k: int| lo <= k < j ==> !is_exp_mark(#[trigger] text@[k]),
        decreases n - j,
    {
        j = j + 1;
    }
    let ghost jj = j - lo;
    assert(u.take(jj) =~= text@.subrange(lo as int, j as int));
    assert(u.skip(jj) =~= text@.subrange(j as int, n as int));
    let mantissa = decimal_between(text, lo, j);
    let exponent = if j == n {
        true
    } else {
        let mut m = j + 1;
        if m < n && (text.get_char(m) == '+' || text.get_char(m) == '-') {
            m = m + 1;
        }
        let ghost e = u.skip(jj);
        assert(unsigned_part(e.skip(1)) =~= text@.subrange(m as int, n as int));
        m < n && digits_between(text, m, n)
    };
    proof {
        if mantissa && exponent {
            assert(is_decimal(u.take(jj)));
        }
        if is_number(u) {
            let w = choose|w: int|
                0 <= w <= u.len() && is_decimal(#[trigger] u.take(w)) && (w == u.len()
                    || is_exponent(u.skip(w)));
            if w > jj {
                lemma_decimal_has_no_exp_mark(u.take(w), jj);
                assert(u.take(w)[jj] == text@[j as int]);
            } else if w < jj {
                assert(u.skip(w)[0] == text@[lo + w]);
            }
        }
    }
    mantissa && exponent
}

} // verus!
