//! Semantic versions: the data model, the standard precedence order as a
//! specification, and a verified three-way comparison. Build metadata is
//! carried but never affects the order.

use vstd::prelude::*;
use crate::ident::{ident_cmp, ident_lt, valid_pre_ident, Rel};

verus! {

/// A semantic version: `major.minor.patch`, optional pre-release
/// identifiers, and optional build metadata (empty when absent).
#[derive(Clone, Debug)]
pub struct SemVer {
    pub major: u64,
    pub minor: u64,
    pub patch: u64,
    /// The pre-release identifiers, in order; empty for a full release.
    pub pre: Vec<String>,
    /// The build metadata after `+`, without the `+`; empty when absent.
    /// Never consulted by the precedence order.
    pub build: String,
}

impl SemVer {
    /// The pre-release identifiers as character sequences.
    pub open spec fn pre_ids(self) -> Seq<Seq<char>> {
        self.pre.deep_view()
    }

    /// Well-formed: every pre-release identifier is valid.
    pub open spec fn wf(self) -> bool {
        forall|i: int| 0 <= i < self.pre_ids().len() ==> valid_pre_ident(#[trigger] self.pre_ids()[i])
    }

    /// A release version without pre-release identifiers or build metadata.
    pub fn new(major: u64, minor: u64, patch: u64) -> (v: SemVer)
        ensures
            v.major == major,
            v.minor == minor,
            v.patch == patch,
            v.pre_ids() =~= Seq::<Seq<char>>::empty(),
            v.build@ =~= Seq::<char>::empty(),
            v.wf(),
    {
        SemVer { major, minor, patch, pre: Vec::new(), build: String::new() }
    }

    /// Three-way comparison by semantic-version precedence.
    pub fn cmp_precedence(&self, other: &SemVer) -> (r: Rel)
        requires
            self.wf(),
            other.wf(),
        ensures
            (r == Rel::Lt) == version_lt(*self, *other),
            (r == Rel::Eq) == version_eq(*self, *other),
            (r == Rel::Gt) == version_lt(*other, *self),
    {
        if self.major != other.major {
            if self.major < other.major {
                return Rel::Lt;
            }
            return Rel::Gt;
        }
        if self.minor != other.minor {
            if self.minor < other.minor {
                return Rel::Lt;
            }
            return Rel::Gt;
        }
        if self.patch != other.patch {
            if self.patch < other.patch {
                return Rel::Lt;
            }
            return Rel::Gt;
        }
        if self.pre.len() == 0 {
            if other.pre.len() == 0 {
                proof {
                    assert(self.pre_ids() =~= other.pre_ids());
                }
                return Rel::Eq;
            }
            return Rel::Gt;
        }
        if other.pre.len() == 0 {
            return Rel::Lt;
        }
        pre_cmp(&self.pre, &other.pre)
    }

    /// Whether `self` precedes `other` (`self < other`).
    pub fn precedes(&self, other: &SemVer) -> (r: bool)
        requires
            self.wf(),
            other.wf(),
        ensures
            r == version_lt(*self, *other),
    {
        match self.cmp_precedence(other) {
            Rel::Lt => true,
            _ => false,
        }
    }

    /// Whether `self` precedes or equals `other` (`self <= other`).
    pub fn precedes_or_eq(&self, other: &SemVer) -> (r: bool)
        requires
            self.wf(),
            other.wf(),
        ensures
            r == version_le(*self, *other),
    {
        match self.cmp_precedence(other) {
            Rel::Gt => false,
            _ => true,
        }
    }
}

/// Precedence between sequences of pre-release identifiers: compared
/// identifier by identifier; a strict prefix precedes.
pub open spec fn pre_lt(a: Seq<Seq<char>>, b: Seq<Seq<char>>) -> bool
    decreases a.len(),
{
    if b.len() == 0 {
        false
    } else if a.len() == 0 {
        true
    } else if a[0] == b[0] {
        pre_lt(a.skip(1), b.skip(1))
    } else {
        ident_lt(a[0], b[0])
    }
}

/// Standard semantic-version precedence: numeric triple first, then a
/// pre-release sorts below the release with the same triple, then the
/// pre-release identifiers decide. Build metadata is ignored.
pub open spec fn version_lt(a: SemVer, b: SemVer) -> bool {
    if a.major != b.major {
        a.major < b.major
    } else if a.minor != b.minor {
        a.minor < b.minor
    } else if a.patch != b.patch {
        a.patch < b.patch
    } else if a.pre_ids().len() == 0 {
        false
    } else if b.pre_ids().len() == 0 {
        true
    } else {
        pre_lt(a.pre_ids(), b.pre_ids())
    }
}

/// Equal precedence: the same triple and the same pre-release
/// identifiers. Build metadata is ignored.
pub open spec fn version_eq(a: SemVer, b: SemVer) -> bool {
    a.major == b.major && a.minor == b.minor && a.patch == b.patch && a.pre_ids() == b.pre_ids()
}

/// `a <= b` in the precedence order.
pub open spec fn version_le(a: SemVer, b: SemVer) -> bool {
    version_lt(a, b) || version_eq(a, b)
}

/// Equal prefixes do not affect the identifier-sequence comparison.
proof fn lemma_pre_skip(a: Seq<Seq<char>>, b: Seq<Seq<char>>, i: int)
    requires
        0 <= i <= a.len(),
        i <= b.len(),
        forall|j: int| 0 <= j < i ==> a[j] == b[j],
    ensures
        pre_lt(a, b) == pre_lt(a.skip(i), b.skip(i)),
    decreases i,
{
    if i == 0 {
        assert(a.skip(0) =~= a);
        assert(b.skip(0) =~= b);
    } else {
        assert(a[0] == b[0]);
        assert(forall|j: int|
            0 <= j < i - 1 ==> #[trigger] a.skip(1)[j] == a[j + 1] && b.skip(1)[j] == b[j + 1]);
        lemma_pre_skip(a.skip(1), b.skip(1), i - 1);
        assert(a.skip(1).skip(i - 1) =~= a.skip(i));
        assert(b.skip(1).skip(i - 1) =~= b.skip(i));
    }
}

/// No sequence of identifiers precedes itself.
pub proof fn lemma_pre_lt_irrefl(a: Seq<Seq<char>>)
    ensures
        !pre_lt(a, a),
    decreases a.len(),
{
    if a.len() > 0 {
        lemma_pre_lt_irrefl(a.skip(1));
    }
}

/// Versions of equal precedence are not ordered.
pub proof fn lemma_version_eq_not_lt(a: SemVer, b: SemVer)
    requires
        version_eq(a, b),
    ensures
        !version_lt(a, b),
        !version_lt(b, a),
{
    lemma_pre_lt_irrefl(a.pre_ids());
}

/// Build metadata never affects the precedence order: two pairs of
/// versions that agree on everything but their build metadata compare
/// alike.
pub proof fn lemma_build_metadata_ignored(a1: SemVer, b1: SemVer, a2: SemVer, b2: SemVer)
    requires
        a1.major == a2.major,
        a1.minor == a2.minor,
        a1.patch == a2.patch,
        a1.pre_ids() == a2.pre_ids(),
        b1.major == b2.major,
        b1.minor == b2.minor,
        b1.patch == b2.patch,
        b1.pre_ids() == b2.pre_ids(),
    ensures
        version_lt(a1, b1) == version_lt(a2, b2),
        version_eq(a1, b1) == version_eq(a2, b2),
{
}

/// Three-way comparison of two nonempty lists of valid identifiers.
fn pre_cmp(a: &Vec<String>, b: &Vec<String>) -> (r: Rel)
    requires
        forall|i: int| 0 <= i < a.deep_view().len() ==> valid_pre_ident(#[trigger] a.deep_view()[i]),
        forall|i: int| 0 <= i < b.deep_view().len() ==> valid_pre_ident(#[trigger] b.deep_view()[i]),
    ensures
        (r == Rel::Lt) == pre_lt(a.deep_view(), b.deep_view()),
        (r == Rel::Eq) == (a.deep_view() == b.deep_view()),
        (r == Rel::Gt) == pre_lt(b.deep_view(), a.deep_view()),
{
    let ghost av = a.deep_view();
    let ghost bv = b.deep_view();
    let alen: usize = a.len();
    let blen: usize = b.len();
    let min: usize = if alen < blen {
        alen
    } else {
        blen
    };
    let mut i: usize = 0;
    while i < min
        invariant
            0 <= i <= min,
            min == if alen < blen { alen as int } else { blen as int },
            av == a.deep_view(),
            bv == b.deep_view(),
            alen == av.len(),
            blen == bv.len(),
            alen == a@.len(),
            blen == b@.len(),
            forall|i0: int| 0 <= i0 < av.len() ==> valid_pre_ident(#[trigger] av[i0]),
            forall|i0: int| 0 <= i0 < bv.len() ==> valid_pre_ident(#[trigger] bv[i0]),
            forall|j: int| 0 <= j < i ==> av[j] == bv[j],
        decreases min - i,
    {
        proof {
            assert(av[i as int] == a@[i as int]@);
            assert(bv[i as int] == b@[i as int]@);
        }
        let r = ident_cmp(a[i].as_str(), b[i].as_str());
        match r {
            Rel::Eq => {
                i = i + 1;
            },
            Rel::Lt => {
                proof {
                    lemma_pre_skip(av, bv, i as int);
                    lemma_pre_skip(bv, av, i as int);
                }
                return Rel::Lt;
            },
            Rel::Gt => {
                proof {
                    lemma_pre_skip(av, bv, i as int);
                    lemma_pre_skip(bv, av, i as int);
                }
                return Rel::Gt;
            },
        }
    }
    proof {
        lemma_pre_skip(av, bv, i as int);
        lemma_pre_skip(bv, av, i as int);
    }
    if alen == blen {
        proof {
            assert(av =~= bv);
        }
        Rel::Eq
    } else if alen < blen {
        Rel::Lt
    } else {
        Rel::Gt
    }
}

} // verus!
