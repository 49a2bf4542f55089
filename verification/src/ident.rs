//! Pre-release identifiers of a semantic version: which identifiers are
//! valid, and the precedence order between two identifiers (numeric
//! identifiers compare by value, alphanumeric ones in ASCII order, and a
//! numeric identifier always precedes an alphanumeric one).

use vstd::prelude::*;
use crate::numeric::{all_digits, dec_val, digit_val, is_digit, lemma_dec_val_shorter,
    lemma_dec_val_upper, pow10};

verus! {

/// Outcome of a three-way comparison.
#[derive(Clone, Copy, Debug, PartialEq, Eq, Structural)]
pub enum Rel {
    Lt,
    Eq,
    Gt,
}

/// A character allowed in a pre-release or build identifier.
pub open spec fn is_ident_char(c: char) -> bool {
    is_digit(c) || ('a' <= c && c <= 'z') || ('A' <= c && c <= 'Z') || c == '-'
}

/// A numeric identifier: one or more digits and nothing else.
pub open spec fn is_numeric_ident(s: Seq<char>) -> bool {
    s.len() > 0 && all_digits(s)
}

/// A valid pre-release identifier: nonempty, only ASCII alphanumerics and
/// hyphens, and no leading zero when numeric.
pub open spec fn valid_pre_ident(s: Seq<char>) -> bool {
    &&& s.len() > 0
    &&& forall|i: int| 0 <= i < s.len() ==> is_ident_char(#[trigger] s[i])
    &&& (is_numeric_ident(s) && s.len() > 1 ==> s[0] != '0')
}

/// ASCII-lexicographic order on character sequences.
pub open spec fn lex_lt(a: Seq<char>, b: Seq<char>) -> bool
    decreases a.len(),
{
    if b.len() == 0 {
        false
    } else if a.len() == 0 {
        true
    } else if a[0] != b[0] {
        (a[0] as int) < (b[0] as int)
    } else {
        lex_lt(a.skip(1), b.skip(1))
    }
}

/// The precedence order between two valid identifiers.
pub open spec fn ident_lt(a: Seq<char>, b: Seq<char>) -> bool {
    if is_numeric_ident(a) && is_numeric_ident(b) {
        dec_val(a) < dec_val(b)
    } else if is_numeric_ident(a) {
        true
    } else if is_numeric_ident(b) {
        false
    } else {
        lex_lt(a, b)
    }
}

/// Equal prefixes do not affect the lexicographic comparison.
proof fn lemma_lex_skip(a: Seq<char>, b: Seq<char>, i: int)
    requires
        0 <= i <= a.len(),
        i <= b.len(),
        forall|j: int| 0 <= j < i ==> a[j] == b[j],
    ensures
        lex_lt(a, b) == lex_lt(a.skip(i), b.skip(i)),
    decreases i,
{
    if i == 0 {
        assert(a.skip(0) =~= a);
        assert(b.skip(0) =~= b);
    } else {
        assert(a[0] == b[0]);
        assert(forall|j: int|
            0 <= j < i - 1 ==> #[trigger] a.skip(1)[j] == a[j + 1] && b.skip(1)[j] == b[j + 1]);
        lemma_lex_skip(a.skip(1), b.skip(1), i - 1);
        assert(a.skip(1).skip(i - 1) =~= a.skip(i));
        assert(b.skip(1).skip(i - 1) =~= b.skip(i));
    }
}

/// On digit strings of equal length the lexicographic order is the
/// numeric order.
proof fn lemma_lex_lt_dec_val(a: Seq<char>, b: Seq<char>)
    requires
        all_digits(a),
        all_digits(b),
        a.len() == b.len(),
        lex_lt(a, b),
    ensures
        dec_val(a) < dec_val(b),
    decreases a.len(),
{
    assert(b.len() > 0);
    assert(a.len() > 0);
    assert(all_digits(a.skip(1)) && all_digits(b.skip(1))) by {
        assert(forall|j: int| 0 <= j < a.skip(1).len() ==> #[trigger] a.skip(1)[j] == a[j + 1]);
        assert(forall|j: int| 0 <= j < b.skip(1).len() ==> #[trigger] b.skip(1)[j] == b[j + 1]);
    }
    let p = pow10((a.len() - 1) as nat);
    if a[0] != b[0] {
        assert(is_digit(a[0]) && is_digit(b[0]));
        assert(digit_val(a[0]) + 1 <= digit_val(b[0]));
        lemma_dec_val_upper(a.skip(1));
        assert(digit_val(a[0]) * p + p <= digit_val(b[0]) * p) by (nonlinear_arith)
            requires digit_val(a[0]) + 1 <= digit_val(b[0]), p >= 0;
        assert(dec_val(a) < digit_val(a[0]) * p + p);
        assert(dec_val(b) >= digit_val(b[0]) * p);
    } else {
        lemma_lex_lt_dec_val(a.skip(1), b.skip(1));
    }
}

/// Whether the string is a numeric identifier.
pub fn is_numeric(s: &str) -> (r: bool)
    ensures
        r == is_numeric_ident(s@),
{
    let len: usize = s.unicode_len();
    if len == 0 {
        return false;
    }
    let mut i: usize = 0;
    while i < len
        invariant
            0 <= i <= len,
            len == s@.len(),
            forall|j: int| 0 <= j < i ==> is_digit(#[trigger] s@[j]),
        decreases len - i,
    {
        let c = s.get_char(i);
        if c < '0' || c > '9' {
            assert(!is_digit(s@[i as int]));
            return false;
        }
        i = i + 1;
    }
    true
}

/// Whether the string is a valid pre-release identifier.
pub fn check_pre_ident(s: &str) -> (r: bool)
    ensures
        r == valid_pre_ident(s@),
{
    let len: usize = s.unicode_len();
    if len == 0 {
        return false;
    }
    let mut i: usize = 0;
    let mut numeric: bool = true;
    while i < len
        invariant
            0 <= i <= len,
            len == s@.len(),
            forall|j: int| 0 <= j < i ==> is_ident_char(#[trigger] s@[j]),
            numeric == (forall|j: int| 0 <= j < i ==> is_digit(#[trigger] s@[j])),
        decreases len - i,
    {
        let c = s.get_char(i);
        let dig = '0' <= c && c <= '9';
        if !(dig || ('a' <= c && c <= 'z') || ('A' <= c && c <= 'Z') || c == '-') {
            assert(!is_ident_char(s@[i as int]));
            return false;
        }
        if !dig {
            assert(!is_digit(s@[i as int]));
            numeric = false;
        }
        i = i + 1;
    }
    if numeric && len > 1 && s.get_char(0) == '0' {
        return false;
    }
    true
}

/// Three-way ASCII-lexicographic comparison.
pub fn lex_cmp(a: &str, b: &str) -> (r: Rel)
    ensures
        (r == Rel::Lt) == lex_lt(a@, b@),
        (r == Rel::Eq) == (a@ == b@),
        (r == Rel::Gt) == lex_lt(b@, a@),
{
    let alen: usize = a.unicode_len();
    let blen: usize = b.unicode_len();
    let min: usize = if alen < blen {
        alen
    } else {
        blen
    };
    let mut i: usize = 0;
    while i < min
        invariant
            0 <= i <= min,
            min == if alen < blen { alen as int } else { blen as int },
            alen == a@.len(),
            blen == b@.len(),
            forall|j: int| 0 <= j < i ==> a@[j] == b@[j],
        decreases min - i,
    {
        let ca = a.get_char(i);
        let cb = b.get_char(i);
        if (ca as u32) < (cb as u32) {
            proof {
                lemma_lex_skip(a@, b@, i as int);
                lemma_lex_skip(b@, a@, i as int);
            }
            return Rel::Lt;
        }
        if (cb as u32) < (ca as u32) {
            proof {
                lemma_lex_skip(a@, b@, i as int);
                lemma_lex_skip(b@, a@, i as int);
            }
            return Rel::Gt;
        }
        assert(a@[i as int] == b@[i as int]);
        i = i + 1;
    }
    proof {
        lemma_lex_skip(a@, b@, i as int);
        lemma_lex_skip(b@, a@, i as int);
    }
    if alen == blen {
        proof {
            assert(a@ =~= b@);
        }
        Rel::Eq
    } else if alen < blen {
        Rel::Lt
    } else {
        Rel::Gt
    }
}

/// Three-way precedence comparison of two valid identifiers.
pub fn ident_cmp(a: &str, b: &str) -> (r: Rel)
    requires
        valid_pre_ident(a@),
        valid_pre_ident(b@),
    ensures
        (r == Rel::Lt) == ident_lt(a@, b@),
        (r == Rel::Eq) == (a@ == b@),
        (r == Rel::Gt) == ident_lt(b@, a@),
{
    let na = is_numeric(a);
    let nb = is_numeric(b);
    if na && nb {
        let alen: usize = a.unicode_len();
        let blen: usize = b.unicode_len();
        if alen < blen {
            proof {
                lemma_dec_val_shorter(a@, b@);
            }
            return Rel::Lt;
        }
        if blen < alen {
            proof {
                lemma_dec_val_shorter(b@, a@);
            }
            return Rel::Gt;
        }
        let r = lex_cmp(a, b);
        proof {
            if lex_lt(a@, b@) {
                lemma_lex_lt_dec_val(a@, b@);
            }
            if lex_lt(b@, a@) {
                lemma_lex_lt_dec_val(b@, a@);
            }
        }
        r
    } else if na {
        Rel::Lt
    } else if nb {
        Rel::Gt
    } else {
        lex_cmp(a, b)
    }
}

} // verus!
