//! Decimal digit strings: their numeric value, and a verified `u64` parser
//! with the same grammar as `u64::from_str` (an optional leading `+`, then
//! one or more ASCII digits, rejecting overflow).

use vstd::prelude::*;

verus! {

pub open spec fn is_digit(c: char) -> bool {
    '0' <= c && c <= '9'
}

/// The numeric value of a single decimal digit.
pub open spec fn digit_val(c: char) -> nat {
    (c as int - '0' as int) as nat
}

pub open spec fn all_digits(s: Seq<char>) -> bool {
    forall|i: int| 0 <= i < s.len() ==> is_digit(#[trigger] s[i])
}

pub open spec fn pow10(n: nat) -> nat
    decreases n,
{
    if n == 0 {
        1
    } else {
        10 * pow10((n - 1) as nat)
    }
}

/// The value of a digit string read as a decimal number.
pub open spec fn dec_val(s: Seq<char>) -> nat
    decreases s.len(),
{
    if s.len() == 0 {
        0
    } else {
        digit_val(s[0]) * pow10((s.len() - 1) as nat) + dec_val(s.skip(1))
    }
}

pub proof fn lemma_pow10_pos(n: nat)
    ensures
        pow10(n) >= 1,
    decreases n,
{
    if n > 0 {
        lemma_pow10_pos((n - 1) as nat);
    }
}

pub proof fn lemma_pow10_mono(m: nat, n: nat)
    requires
        m <= n,
    ensures
        pow10(m) <= pow10(n),
    decreases n,
{
    if m < n {
        lemma_pow10_mono(m, (n - 1) as nat);
    }
}

/// Appending a digit multiplies the value by ten and adds the digit.
pub proof fn lemma_dec_val_push(s: Seq<char>, c: char)
    ensures
        dec_val(s.push(c)) == dec_val(s) * 10 + digit_val(c),
    decreases s.len(),
{
    if s.len() == 0 {
        assert(s.push(c) =~= seq![c]);
        assert(dec_val(seq![c].skip(1)) == 0) by {
            assert(seq![c].skip(1) =~= Seq::<char>::empty());
        }
        assert(pow10((seq![c].len() - 1) as nat) == 1);
        assert(dec_val(seq![c]) == digit_val(c) * 1 + 0);
        assert(dec_val(s) == 0);
        assert(dec_val(s.push(c)) == dec_val(s) * 10 + digit_val(c));
    } else {
        lemma_dec_val_push(s.skip(1), c);
        assert(s.push(c).skip(1) =~= s.skip(1).push(c));
        assert(s.push(c)[0] == s[0]);
        let d0 = digit_val(s[0]);
        let r = dec_val(s.skip(1));
        let p = pow10((s.len() - 1) as nat);
        assert(pow10((s.push(c).len() - 1) as nat) == 10 * p);
        assert(dec_val(s.push(c)) == d0 * (10 * p) + (r * 10 + digit_val(c)));
        assert(dec_val(s) == d0 * p + r);
        assert(d0 * (10 * p) + (r * 10 + digit_val(c)) == (d0 * p + r) * 10 + digit_val(c))
            by (nonlinear_arith);
        assert(dec_val(s.push(c)) == dec_val(s) * 10 + digit_val(c));
    }
}

/// A digit string of length `n` has value below `pow10(n)`.
pub proof fn lemma_dec_val_upper(s: Seq<char>)
    requires
        all_digits(s),
    ensures
        dec_val(s) < pow10(s.len()),
    decreases s.len(),
{
    if s.len() == 0 {
    } else {
        assert(all_digits(s.skip(1))) by {
            assert(forall|i: int|
                0 <= i < s.skip(1).len() ==> #[trigger] s.skip(1)[i] == s[i + 1]);
        }
        lemma_dec_val_upper(s.skip(1));
        let p = pow10((s.len() - 1) as nat);
        assert(is_digit(s[0]));
        assert(digit_val(s[0]) <= 9);
        assert(digit_val(s[0]) * p <= 9 * p) by (nonlinear_arith)
            requires digit_val(s[0]) <= 9, p >= 0;
        assert(dec_val(s) <= 9 * p + dec_val(s.skip(1)));
        assert(dec_val(s) < 10 * p);
    }
}

/// A digit string that does not start with '0' has value at least
/// `pow10(len - 1)`.
pub proof fn lemma_dec_val_lower(s: Seq<char>)
    requires
        all_digits(s),
        s.len() > 0,
        s[0] != '0',
    ensures
        dec_val(s) >= pow10((s.len() - 1) as nat),
{
    assert(digit_val(s[0]) >= 1);
    let p = pow10((s.len() - 1) as nat);
    assert(digit_val(s[0]) * p >= 1 * p) by (nonlinear_arith)
        requires digit_val(s[0]) >= 1, p >= 0;
}

/// Of two digit strings without leading zeros, the shorter has the
/// smaller value.
pub proof fn lemma_dec_val_shorter(a: Seq<char>, b: Seq<char>)
    requires
        all_digits(a),
        all_digits(b),
        a.len() < b.len(),
        b.len() > 0,
        b[0] != '0',
    ensures
        dec_val(a) < dec_val(b),
{
    lemma_dec_val_upper(a);
    lemma_pow10_mono(a.len(), (b.len() - 1) as nat);
    lemma_dec_val_lower(b);
}

/// Splitting a digit string: the whole value from the value of a prefix
/// and the rest.
pub proof fn lemma_dec_val_take(s: Seq<char>, i: int)
    requires
        0 <= i <= s.len(),
    ensures
        dec_val(s) == dec_val(s.take(i)) * pow10((s.len() - i) as nat) + dec_val(s.skip(i)),
    decreases i,
{
    if i == 0 {
        assert(s.take(0) =~= Seq::<char>::empty());
        assert(s.skip(0) =~= s);
        assert(dec_val(s.take(0)) == 0);
        assert(dec_val(s) == 0 * pow10((s.len() - 0) as nat) + dec_val(s.skip(0)));
    } else {
        lemma_dec_val_take(s, i - 1);
        let t = s.take(i - 1);
        assert(s.take(i) =~= t.push(s[i - 1]));
        lemma_dec_val_push(t, s[i - 1]);
        let q = pow10((s.len() - i) as nat);
        let dv = digit_val(s[i - 1]);
        assert(pow10((s.len() - (i - 1)) as nat) == 10 * q);
        assert(s.skip(i - 1).len() == s.len() - i + 1);
        assert(s.skip(i - 1)[0] == s[i - 1]);
        assert(s.skip(i - 1).skip(1) =~= s.skip(i));
        assert(dec_val(s.skip(i - 1)) == dv * q + dec_val(s.skip(i)));
        assert(dec_val(s) == dec_val(t) * (10 * q) + (dv * q + dec_val(s.skip(i))));
        assert(dec_val(s.take(i)) == dec_val(t) * 10 + dv);
        assert(dec_val(t) * (10 * q) + (dv * q + dec_val(s.skip(i))) == (dec_val(t) * 10 + dv) * q
            + dec_val(s.skip(i))) by (nonlinear_arith);
        assert(dec_val(s) == dec_val(s.take(i)) * pow10((s.len() - i) as nat) + dec_val(
            s.skip(i),
        ));
    }
}

/// The digit part of a decimal numeral: everything after an optional
/// leading `+`.
pub open spec fn numeral_digits(s: Seq<char>) -> Seq<char> {
    if s.len() > 0 && s[0] == '+' {
        s.skip(1)
    } else {
        s
    }
}

/// What `u64::from_str` returns on `s`: the decimal value when `s` is an
/// optional `+` followed by one or more digits and the value fits in a
/// `u64`, and nothing otherwise.
pub open spec fn spec_parse_u64(s: Seq<char>) -> Option<u64> {
    let d = numeral_digits(s);
    if d.len() > 0 && all_digits(d) && dec_val(d) <= u64::MAX {
        Some(dec_val(d) as u64)
    } else {
        None
    }
}

/// Parses a decimal `u64`, accepting exactly what `u64::from_str` accepts.
pub fn parse_u64(s: &str) -> (r: Option<u64>)
    ensures
        r == spec_parse_u64(s@),
{
    let len: usize = s.unicode_len();
    let mut start: usize = 0;
    if len > 0 && s.get_char(0) == '+' {
        start = 1;
    }
    let ghost d = numeral_digits(s@);
    proof {
        assert(d =~= s@.skip(start as int));
    }
    if start >= len {
        return None;
    }
    let mut acc: u64 = 0;
    let mut i: usize = start;
    while i < len
        invariant
            start <= i <= len,
            len == s@.len(),
            start < len,
            d == numeral_digits(s@),
            d == s@.skip(start as int),
            all_digits(d.take(i - start)),
            acc == dec_val(d.take(i - start)),
        decreases len - i,
    {
        let c = s.get_char(i);
        if c < '0' || c > '9' {
            proof {
                assert(d[i - start] == s@[i as int]);
                assert(!is_digit(d[i - start]));
            }
            return None;
        }
        let dv: u64 = (c as u32 as u64) - 48;
        proof {
            assert(d[i - start] == s@[i as int]);
            assert(dv == digit_val(s@[i as int]));
        }
        if acc > (u64::MAX - dv) / 10 {
            proof {
                let t = d.take(i - start + 1);
                assert(t =~= d.take(i - start).push(d[i - start]));
                lemma_dec_val_push(d.take(i - start), d[i - start]);
                assert(dec_val(t) > u64::MAX);
                lemma_dec_val_take(d, i - start + 1);
                lemma_pow10_pos((d.len() - (i - start + 1)) as nat);
                assert(dec_val(t) * pow10((d.len() - (i - start + 1)) as nat) >= dec_val(t) * 1)
                    by (nonlinear_arith)
                    requires pow10((d.len() - (i - start + 1)) as nat) >= 1;
                assert(dec_val(d) > u64::MAX);
            }
            return None;
        }
        proof {
            let t = d.take(i - start + 1);
            assert(t =~= d.take(i - start).push(d[i - start]));
            lemma_dec_val_push(d.take(i - start), d[i - start]);
        }
        acc = acc * 10 + dv;
        i = i + 1;
    }
    proof {
        assert(d.take((len - start) as int) =~= d);
    }
    Some(acc)
}

} // verus!
