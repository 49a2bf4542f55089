//! Parsing versions out of the feeds: the release-feed tag (`v` followed
//! by a version), the package-feed version string (a version, a comma,
//! and an ignored build identifier), and the split of a pre-release part
//! into its identifiers. The semantic-version grammar itself is handled
//! by the `semver` crate behind one trusted wrapper.

use vstd::prelude::*;
use crate::ident::{check_pre_ident, valid_pre_ident};
use crate::version::SemVer;

verus! {

/// Why a version string was rejected.
#[derive(Clone, Copy, Debug, PartialEq, Eq, Structural)]
pub enum ParseError {
    /// Malformed semantic version.
    InvalidVersion,
    /// The release tag does not start with `v`.
    NoLeadingV,
    /// The package-feed version string has no comma before its build part.
    MissingComma,
}

/// Index of the first occurrence of `c` in `s`, or -1.
pub open spec fn find_char(s: Seq<char>, c: char) -> int
    decreases s.len(),
{
    if s.len() == 0 {
        -1
    } else if s[0] == c {
        0
    } else if find_char(s.skip(1), c) < 0 {
        -1
    } else {
        find_char(s.skip(1), c) + 1
    }
}

/// `find_char` finds exactly the first occurrence.
pub proof fn lemma_find_char(s: Seq<char>, c: char, j: int)
    requires
        0 <= j <= s.len(),
        forall|k: int| 0 <= k < j ==> s[k] != c,
        j == s.len() || s[j] == c,
    ensures
        find_char(s, c) == if j == s.len() {
            -1int
        } else {
            j
        },
    decreases j,
{
    if j == 0 {
        if s.len() > 0 && s[0] != c {
            lemma_find_char_none(s, c);
        }
    } else {
        assert(s[0] != c);
        assert(forall|k: int| 0 <= k < j - 1 ==> #[trigger] s.skip(1)[k] == s[k + 1]);
        if j < s.len() {
            assert(s.skip(1)[j - 1] == s[j]);
        }
        lemma_find_char(s.skip(1), c, j - 1);
    }
}

/// When the sought character never appears after an absent prefix.
proof fn lemma_find_char_none(s: Seq<char>, c: char)
    requires
        forall|k: int| 0 <= k < s.len() ==> s[k] != c,
    ensures
        find_char(s, c) == -1,
    decreases s.len(),
{
    if s.len() > 0 {
        assert(forall|k: int| 0 <= k < s.skip(1).len() ==> #[trigger] s.skip(1)[k] == s[k + 1]);
        lemma_find_char_none(s.skip(1), c);
    }
}

/// The first occurrence lies within the sequence.
pub proof fn lemma_find_char_bound(s: Seq<char>, c: char)
    ensures
        -1 <= find_char(s, c) < s.len(),
    decreases s.len(),
{
    if s.len() > 0 && s[0] != c {
        lemma_find_char_bound(s.skip(1), c);
    }
}

/// The segments of `s` between its dots, as `str::split('.')` yields
/// them; the empty string splits into one empty segment.
pub open spec fn split_dots(s: Seq<char>) -> Seq<Seq<char>>
    decreases s.len(),
    via split_dots_decreases
{
    let i = find_char(s, '.');
    if i < 0 {
        seq![s]
    } else {
        seq![s.take(i)] + split_dots(s.skip(i + 1))
    }
}

#[via_fn]
proof fn split_dots_decreases(s: Seq<char>) {
    lemma_find_char_bound(s, '.');
}

/// A usable pre-release part: nonempty, and every dot-separated segment
/// is a valid identifier.
pub open spec fn valid_pre_str(s: Seq<char>) -> bool {
    s.len() > 0 && forall|k: int|
        0 <= k < split_dots(s).len() ==> valid_pre_ident(#[trigger] split_dots(s)[k])
}

/// The pre-release identifiers that a pre-release part stands for.
pub open spec fn spec_pre_ids(pre: Seq<char>) -> Seq<Seq<char>> {
    if pre.len() == 0 {
        Seq::empty()
    } else {
        split_dots(pre)
    }
}

/// A parsed version agrees with the components `(major, minor, patch,
/// pre-release part, build part)` up to views, and is well formed.
pub open spec fn components_match(v: SemVer, c: (u64, u64, u64, Seq<char>, Seq<char>)) -> bool {
    &&& v.major == c.0
    &&& v.minor == c.1
    &&& v.patch == c.2
    &&& v.pre_ids() == spec_pre_ids(c.3)
    &&& v.build@ == c.4
    &&& v.wf()
}

/// What `semver::Version::parse` returns on a given string: the
/// components `(major, minor, patch, pre-release part, build part)`,
/// or nothing on malformed input.
pub uninterp spec fn semver_parse(s: Seq<char>) -> Option<(u64, u64, u64, Seq<char>, Seq<char>)>;

/// Relies on `semver::Version::parse` (crate `semver`): it parses
/// `major.minor.patch` with an optional `-` pre-release part and an
/// optional `+` build part, and its parser only accepts a pre-release
/// part that is a dot-separated list of valid identifiers.
#[verifier::external_body]
fn semver_parse_raw(s: &str) -> (r: Option<(u64, u64, u64, String, String)>)
    ensures
        r is Some <==> semver_parse(s@) is Some,
        r matches Some(c) ==> semver_parse(s@) matches Some(sc) && c.0 == sc.0 && c.1 == sc.1
            && c.2 == sc.2 && c.3@ == sc.3 && c.4@ == sc.4 && (c.3@.len() > 0 ==> valid_pre_str(
            c.3@,
        )),
{
    match semver::Version::parse(s) {
        Ok(v) => Some((
            v.major,
            v.minor,
            v.patch,
            v.pre.as_str().to_string(),
            v.build.as_str().to_string(),
        )),
        Err(_) => None,
    }
}

/// Splits a nonempty pre-release part into its identifiers, rejecting
/// it when any segment is not a valid identifier.
fn split_pre(s: &str) -> (r: Option<Vec<String>>)
    ensures
        match r {
            Some(ids) => valid_pre_str(s@) && ids.deep_view() == split_dots(s@),
            None => !valid_pre_str(s@),
        },
{
    let len: usize = s.unicode_len();
    if len == 0 {
        return None;
    }
    let mut out: Vec<String> = Vec::new();
    let mut start: usize = 0;
    proof {
        assert(out.deep_view() =~= Seq::<Seq<char>>::empty());
        assert(s@.skip(0) =~= s@);
        assert(split_dots(s@) =~= out.deep_view() + split_dots(s@.skip(0)));
    }
    loop
        invariant
            0 <= start <= len,
            len == s@.len(),
            len > 0,
            split_dots(s@) =~= out.deep_view() + split_dots(s@.skip(start as int)),
            forall|k: int| 0 <= k < out.deep_view().len() ==> valid_pre_ident(
                #[trigger] out.deep_view()[k],
            ),
        decreases len - start,
    {
        let mut i: usize = start;
        while i < len
            invariant
                start <= i <= len,
                len == s@.len(),
                forall|k: int| start <= k < i ==> s@[k] != '.',
            ensures
                start <= i <= len,
                forall|k: int| start <= k < i ==> s@[k] != '.',
                i == len || s@[i as int] == '.',
            decreases len - i,
        {
            if s.get_char(i) == '.' {
                break ;
            }
            i = i + 1;
        }
        let ghost tail = s@.skip(start as int);
        proof {
            assert(forall|k: int| 0 <= k < i - start ==> #[trigger] tail[k] == s@[k + start]);
            if i < len {
                assert(tail[i - start] == s@[i as int]);
            }
            lemma_find_char(tail, '.', i - start);
        }
        let seg = s.substring_char(start, i);
        proof {
            assert(seg@ =~= tail.take(i - start));
        }
        if !check_pre_ident(seg) {
            proof {
                if i - start == tail.len() {
                    assert(split_dots(tail) == seq![tail]);
                    assert(tail.take(i - start) =~= tail);
                    assert(split_dots(s@)[out.deep_view().len() as int] == seg@);
                } else {
                    assert(split_dots(tail) == seq![tail.take(i - start)] + split_dots(
                        tail.skip(i - start + 1),
                    ));
                    assert(split_dots(s@)[out.deep_view().len() as int] == seg@);
                }
            }
            return None;
        }
        let ghost prev = out.deep_view();
        let owned: String = seg.to_owned();
        out.push(owned);
        proof {
            assert(out.deep_view() =~= prev.push(seg@));
        }
        if i == len {
            proof {
                assert(split_dots(tail) == seq![tail]);
                assert(tail.take(i - start) =~= tail);
                assert(out.deep_view() =~= split_dots(s@));
            }
            return Some(out);
        }
        proof {
            assert(split_dots(tail) == seq![tail.take(i - start)] + split_dots(
                tail.skip(i - start + 1),
            ));
            assert(tail.skip(i - start + 1) =~= s@.skip(i + 1));
            assert(split_dots(s@) =~= out.deep_view() + split_dots(s@.skip(i + 1)));
        }
        start = i + 1;
    }
}

/// Parses a semantic version, accepting exactly what
/// `semver::Version::parse` accepts.
pub fn parse_version(s: &str) -> (r: Result<SemVer, ParseError>)
    ensures
        match r {
            Ok(v) => semver_parse(s@) matches Some(c) && components_match(v, c),
            Err(e) => e == ParseError::InvalidVersion && semver_parse(s@) is None,
        },
{
    match semver_parse_raw(s) {
        None => Err(ParseError::InvalidVersion),
        Some((major, minor, patch, pre, build)) => {
            if pre.as_str().unicode_len() == 0 {
                let empty_pre: Vec<String> = Vec::new();
                proof {
                    assert(empty_pre.deep_view() =~= Seq::<Seq<char>>::empty());
                }
                Ok(SemVer { major, minor, patch, pre: empty_pre, build })
            } else {
                match split_pre(pre.as_str()) {
                    Some(ids) => Ok(SemVer { major, minor, patch, pre: ids, build }),
                    None => Err(ParseError::InvalidVersion),
                }
            }
        },
    }
}

/// Parses a release tag: a literal `v` followed by a semantic version.
/// A tag without the leading `v` is rejected, never coerced.
pub fn parse_release_tag(tag: &str) -> (r: Result<SemVer, ParseError>)
    ensures
        match r {
            Ok(v) => tag@.len() > 0 && tag@[0] == 'v' && (semver_parse(tag@.skip(1))
                matches Some(c) && components_match(v, c)),
            Err(e) => {
                if tag@.len() == 0 || tag@[0] != 'v' {
                    e == ParseError::NoLeadingV
                } else {
                    e == ParseError::InvalidVersion && semver_parse(tag@.skip(1)) is None
                }
            },
        },
{
    let len: usize = tag.unicode_len();
    if len == 0 || tag.get_char(0) != 'v' {
        return Err(ParseError::NoLeadingV);
    }
    let rest = tag.substring_char(1, len);
    proof {
        assert(rest@ =~= tag@.skip(1));
    }
    parse_version(rest)
}

/// Parses a package-feed version string: a semantic version before the
/// first comma; everything after the comma is a build identifier and is
/// discarded. A string without a comma is rejected.
pub fn parse_feed_version(s: &str) -> (r: Result<SemVer, ParseError>)
    ensures
        match r {
            Ok(v) => find_char(s@, ',') >= 0 && (semver_parse(s@.take(find_char(s@, ',')))
                matches Some(c) && components_match(v, c)),
            Err(e) => {
                if find_char(s@, ',') < 0 {
                    e == ParseError::MissingComma
                } else {
                    e == ParseError::InvalidVersion && semver_parse(
                        s@.take(find_char(s@, ',')),
                    ) is None
                }
            },
        },
{
    let len: usize = s.unicode_len();
    let mut i: usize = 0;
    while i < len
        invariant
            0 <= i <= len,
            len == s@.len(),
            forall|k: int| 0 <= k < i ==> s@[k] != ',',
        ensures
            0 <= i <= len,
            forall|k: int| 0 <= k < i ==> s@[k] != ',',
            i == len || s@[i as int] == ',',
        decreases len - i,
    {
        if s.get_char(i) == ',' {
            break ;
        }
        i = i + 1;
    }
    proof {
        lemma_find_char(s@, ',', i as int);
    }
    if i == len {
        return Err(ParseError::MissingComma);
    }
    let head = s.substring_char(0, i);
    proof {
        assert(head@ =~= s@.take(i as int));
    }
    parse_version(head)
}

} // verus!
