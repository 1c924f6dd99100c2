//! The semantic version value type: ordering, text and tag forms, parsing,
//! and the version calculator that applies a bump level.
use vstd::prelude::*;

use crate::Bump;

verus! {

/// A semantic version `major.minor.patch`. A new `Version` is produced by
/// every increment operation; a value is never mutated in place.
#[derive(Clone, Copy, Debug, PartialEq, Eq, Structural)]
pub struct Version {
    pub major: u64,
    pub minor: u64,
    pub patch: u64,
}

// ---------------------------------------------------------------------------
// Decimal numerals
// ---------------------------------------------------------------------------
/// Is `c` a decimal digit?
pub open spec fn is_digit(c: char) -> bool {
    '0' <= c && c <= '9'
}

/// Value of one digit character.
pub open spec fn digit_val(c: char) -> nat
    recommends
        is_digit(c),
{
    (c as nat - '0' as nat) as nat
}

/// The digit character for `d`.
pub open spec fn dec_digit(d: nat) -> char
    recommends
        d < 10,
{
    if d == 0 {
        '0'
    } else if d == 1 {
        '1'
    } else if d == 2 {
        '2'
    } else if d == 3 {
        '3'
    } else if d == 4 {
        '4'
    } else if d == 5 {
        '5'
    } else if d == 6 {
        '6'
    } else if d == 7 {
        '7'
    } else if d == 8 {
        '8'
    } else {
        '9'
    }
}

/// Canonical decimal representation of `n` (no leading zeros).
pub open spec fn dec_str(n: nat) -> Seq<char>
    decreases n,
{
    if n < 10 {
        seq![dec_digit(n)]
    } else {
        dec_str(n / 10).push(dec_digit(n % 10))
    }
}

/// Value of a digit string, most significant digit first.
pub open spec fn dec_val(s: Seq<char>) -> nat
    decreases s.len(),
{
    if s.len() == 0 {
        0
    } else {
        dec_val(s.drop_last()) * 10 + digit_val(s.last())
    }
}

/// Every character of `s` is a decimal digit.
pub open spec fn all_digits(s: Seq<char>) -> bool {
    forall|i: int| 0 <= i < s.len() ==> is_digit(#[trigger] s[i])
}

/// A canonical decimal numeral that fits in a `u64`: non-empty, digits only,
/// no leading zero.
pub open spec fn is_numeral(s: Seq<char>) -> bool {
    &&& s.len() > 0
    &&& all_digits(s)
    &&& (s[0] == '0' ==> s.len() == 1)
    &&& dec_val(s) <= u64::MAX as nat
}

/// One-character string for the digit `d`.
fn digit_to_str(d: u64) -> (s: &'static str)
    requires
        d < 10,
    ensures
        s@ == seq![dec_digit(d as nat)],
{
    let s: &'static str = if d == 0 {
        "0"
    } else if d == 1 {
        "1"
    } else if d == 2 {
        "2"
    } else if d == 3 {
        "3"
    } else if d == 4 {
        "4"
    } else if d == 5 {
        "5"
    } else if d == 6 {
        "6"
    } else if d == 7 {
        "7"
    } else if d == 8 {
        "8"
    } else {
        "9"
    };
    proof {
        reveal_strlit("0");
        reveal_strlit("1");
        reveal_strlit("2");
        reveal_strlit("3");
        reveal_strlit("4");
        reveal_strlit("5");
        reveal_strlit("6");
        reveal_strlit("7");
        reveal_strlit("8");
        reveal_strlit("9");
        assert(s@ =~= seq![dec_digit(d as nat)]);
    }
    s
}

/// The canonical decimal text of `n`.
pub fn u64_string(n: u64) -> (s: String)
    ensures
        s@ == dec_str(n as nat),
    decreases n,
{
    if n < 10 {
        let s = String::from_str(digit_to_str(n));
        proof {
            assert(s@ =~= dec_str(n as nat));
        }
        s
    } else {
        let mut s = u64_string(n / 10);
        s.append(digit_to_str(n % 10));
        proof {
            assert(s@ =~= dec_str(n as nat));
        }
        s
    }
}

// ---------------------------------------------------------------------------
// Text and tag forms
// ---------------------------------------------------------------------------
/// The text form `"major.minor.patch"`.
pub open spec fn version_str(v: Version) -> Seq<char> {
    dec_str(v.major as nat) + seq!['.'] + dec_str(v.minor as nat) + seq!['.'] + dec_str(
        v.patch as nat,
    )
}

/// The tag form `"vmajor.minor.patch"`.
pub open spec fn tag_str(v: Version) -> Seq<char> {
    seq!['v'] + version_str(v)
}

/// Strict lexicographic order on (major, minor, patch).
pub open spec fn version_lt(a: Version, b: Version) -> bool {
    ||| a.major < b.major
    ||| (a.major == b.major && a.minor < b.minor)
    ||| (a.major == b.major && a.minor == b.minor && a.patch < b.patch)
}

impl Version {
    /// A version from its three components.
    pub fn new(major: u64, minor: u64, patch: u64) -> (v: Version)
        ensures
            v == (Version { major, minor, patch }),
    {
        Version { major, minor, patch }
    }

    /// The text form `"major.minor.patch"`.
    pub fn to_text(&self) -> (s: String)
        ensures
            s@ == version_str(*self),
    {
        let mut s = u64_string(self.major);
        s.append(".");
        let minor = u64_string(self.minor);
        s.append(minor.as_str());
        s.append(".");
        let patch = u64_string(self.patch);
        s.append(patch.as_str());
        proof {
            reveal_strlit(".");
            assert(s@ =~= version_str(*self));
        }
        s
    }

    /// The tag form `"vmajor.minor.patch"`.
    pub fn to_tag(&self) -> (s: String)
        ensures
            s@ == tag_str(*self),
    {
        let mut s = String::from_str("v");
        let text = self.to_text();
        s.append(text.as_str());
        proof {
            reveal_strlit("v");
            assert(s@ =~= tag_str(*self));
        }
        s
    }

    /// Does `self` come strictly before `other` in version order?
    pub fn lt(&self, other: &Version) -> (r: bool)
        ensures
            r == version_lt(*self, *other),
    {
        self.major < other.major || (self.major == other.major && (self.minor < other.minor || (
        self.minor == other.minor && self.patch < other.patch)))
    }
}

// ---------------------------------------------------------------------------
// Version calculator
// ---------------------------------------------------------------------------
/// The next version after applying `b` to `v`. Incrementing a component
/// zeroes every component of lower significance. A `Major` bump on a
/// zero-major version increments the minor component instead (the zero-major
/// convention). `Prerelease` and `Nothing` leave the version unchanged.
pub open spec fn next_version_spec(v: Version, b: Bump) -> Version {
    match b {
        Bump::Major => if v.major == 0 {
            Version { major: v.major, minor: (v.minor + 1) as u64, patch: 0 }
        } else {
            Version { major: (v.major + 1) as u64, minor: 0, patch: 0 }
        },
        Bump::Minor => Version { major: v.major, minor: (v.minor + 1) as u64, patch: 0 },
        Bump::Patch => Version { major: v.major, minor: v.minor, patch: (v.patch + 1) as u64 },
        Bump::Prerelease => v,
        Bump::Nothing => v,
    }
}

/// The incremented component stays within `u64` (a machine limit, not a rule
/// of the version scheme).
pub open spec fn bump_fits(v: Version, b: Bump) -> bool {
    match b {
        Bump::Major => if v.major == 0 {
            v.minor < u64::MAX
        } else {
            v.major < u64::MAX
        },
        Bump::Minor => v.minor < u64::MAX,
        Bump::Patch => v.patch < u64::MAX,
        Bump::Prerelease => true,
        Bump::Nothing => true,
    }
}

/// Apply a bump level to a version, producing the proposed next version.
pub fn next_version(v: &Version, b: Bump) -> (r: Version)
    requires
        bump_fits(*v, b),
    ensures
        r == next_version_spec(*v, b),
{
    match b {
        Bump::Major => if v.major == 0 {
            Version { major: v.major, minor: v.minor + 1, patch: 0 }
        } else {
            Version { major: v.major + 1, minor: 0, patch: 0 }
        },
        Bump::Minor => Version { major: v.major, minor: v.minor + 1, patch: 0 },
        Bump::Patch => Version { major: v.major, minor: v.minor, patch: v.patch + 1 },
        Bump::Prerelease => *v,
        Bump::Nothing => *v,
    }
}

/// Law: a `Nothing` bump leaves every version unchanged, so a history
/// without qualifying commits never moves the version.
pub proof fn lemma_next_version_none(v: Version)
    ensures
        next_version_spec(v, Bump::Nothing) == v,
{
}

// ---------------------------------------------------------------------------
// Parsing
// ---------------------------------------------------------------------------
/// Index of the first `'.'` in `s` at or after `from`, or -1 if there is
/// none.
pub open spec fn find_dot(s: Seq<char>, from: int) -> int
    decreases s.len() - from,
    when 0 <= from <= s.len()
{
    if from >= s.len() {
        -1
    } else if s[from] == '.' {
        from
    } else {
        find_dot(s, from + 1)
    }
}

/// Skipping a dot-free stretch does not change the first dot found.
proof fn lemma_find_dot_step(s: Seq<char>, from: int, k: int)
    requires
        0 <= from <= k <= s.len(),
        forall|m: int| from <= m < k ==> s[m] != '.',
    ensures
        find_dot(s, from) == find_dot(s, k),
    decreases k - from,
{
    if from < k {
        lemma_find_dot_step(s, from + 1, k);
    }
}

/// The value of a canonical numeral, if `t` is one.
pub open spec fn numeral_u64(t: Seq<char>) -> Option<u64> {
    if is_numeral(t) {
        Some(dec_val(t) as u64)
    } else {
        None
    }
}

/// The version denoted by `s`, if `s` has the exact form
/// `"major.minor.patch"` with three canonical numerals that fit in `u64`.
pub open spec fn parse_version_spec(s: Seq<char>) -> Option<Version> {
    let i = find_dot(s, 0);
    if i < 0 {
        None
    } else {
        let j = find_dot(s, i + 1);
        if j < 0 {
            None
        } else {
            match (numeral_u64(s.subrange(0, i)), numeral_u64(s.subrange(i + 1, j)), numeral_u64(
                s.subrange(j + 1, s.len() as int),
            )) {
                (Some(major), Some(minor), Some(patch)) => Some(Version { major, minor, patch }),
                _ => None,
            }
        }
    }
}

/// The version denoted by a release tag name `"vmajor.minor.patch"`.
pub open spec fn parse_tag_spec(s: Seq<char>) -> Option<Version> {
    if s.len() > 0 && s[0] == 'v' {
        parse_version_spec(s.skip(1))
    } else {
        None
    }
}

/// A prefix of a digit string never exceeds the whole string's value.
proof fn lemma_dec_val_prefix_le(t: Seq<char>, k: int)
    requires
        0 <= k <= t.len(),
    ensures
        dec_val(t.subrange(0, k)) <= dec_val(t),
    decreases t.len() - k,
{
    if k < t.len() {
        lemma_dec_val_prefix_le(t.drop_last(), k);
        assert(t.drop_last().subrange(0, k) =~= t.subrange(0, k));
    } else {
        assert(t.subrange(0, k) =~= t);
    }
}

/// Read the numeral in `s[lo..hi]`, if that stretch is a canonical numeral
/// whose value fits in a `u64`.
fn parse_numeral(s: &str, lo: usize, hi: usize) -> (r: Option<u64>)
    requires
        lo <= hi <= s@.len(),
    ensures
        r == numeral_u64(s@.subrange(lo as int, hi as int)),
{
    let ghost t = s@.subrange(lo as int, hi as int);
    if lo == hi {
        return None;
    }
    let c0 = s.get_char(lo);
    if c0 == '0' && hi - lo > 1 {
        assert(t[0] == '0' && t.len() > 1);
        return None;
    }
    let mut acc: u64 = 0;
    let mut k: usize = lo;
    while k < hi
        invariant
            lo <= k <= hi <= s@.len(),
            t == s@.subrange(lo as int, hi as int),
            all_digits(t.subrange(0, k - lo)),
            acc as nat == dec_val(t.subrange(0, k - lo)),
        decreases hi - k,
    {
        let c = s.get_char(k);
        let ghost u = t.subrange(0, k - lo);
        assert(t[k - lo] == c);
        if !('0' <= c && c <= '9') {
            assert(!all_digits(t));
            return None;
        }
        let d: u64 = (c as u32 - 48) as u64;
        assert(d == digit_val(c) && d < 10);
        if acc > (u64::MAX - d) / 10 {
            proof {
                let q = (u64::MAX - d) as nat / 10;
                vstd::arithmetic::div_mod::lemma_fundamental_div_mod((u64::MAX - d) as int, 10);
                assert(acc as nat * 10 >= (q + 1) * 10) by (nonlinear_arith)
                    requires
                        acc as nat >= q + 1,
                ;
                assert(dec_val(t.subrange(0, k - lo + 1)) > u64::MAX as nat) by {
                    assert(t.subrange(0, k - lo + 1).drop_last() =~= u);
                    assert(t.subrange(0, k - lo + 1).last() == c);
                };
                lemma_dec_val_prefix_le(t, k - lo + 1);
            }
            return None;
        }
        proof {
            assert(acc as nat * 10 + d as nat <= u64::MAX as nat) by (nonlinear_arith)
                requires
                    acc as nat <= (u64::MAX - d) as nat / 10,
                    d < 10,
            ;
            assert(t.subrange(0, k - lo + 1).drop_last() =~= u);
            assert(t.subrange(0, k - lo + 1).last() == c);
        }
        acc = acc * 10 + d;
        k = k + 1;
    }
    proof {
        assert(t.subrange(0, (hi - lo) as int) =~= t);
        assert(t[0] == c0);
        assert(is_numeral(t));
    }
    Some(acc)
}

/// Parse the exact text form `"major.minor.patch"`. Returns `None` on any
/// other input: a missing or extra component, a non-digit, a leading zero,
/// or a component that does not fit in a `u64`.
pub fn parse_version(s: &str) -> (r: Option<Version>)
    ensures
        r == parse_version_spec(s@),
{
    let n = s.unicode_len();
    let mut i: usize = 0;
    while i < n && s.get_char(i) != '.'
        invariant
            0 <= i <= n,
            n == s@.len(),
            forall|m: int| 0 <= m < i ==> s@[m] != '.',
        decreases n - i,
    {
        i = i + 1;
    }
    proof {
        lemma_find_dot_step(s@, 0, i as int);
    }
    if i == n {
        return None;
    }
    let mut j: usize = i + 1;
    while j < n && s.get_char(j) != '.'
        invariant
            i + 1 <= j <= n,
            n == s@.len(),
            forall|m: int| i + 1 <= m < j ==> s@[m] != '.',
        decreases n - j,
    {
        j = j + 1;
    }
    proof {
        lemma_find_dot_step(s@, i as int + 1, j as int);
    }
    if j == n {
        return None;
    }
    let major = parse_numeral(s, 0, i);
    let minor = parse_numeral(s, i + 1, j);
    let patch = parse_numeral(s, j + 1, n);
    match (major, minor, patch) {
        (Some(major), Some(minor), Some(patch)) => Some(Version { major, minor, patch }),
        _ => None,
    }
}

/// The fixed message of the version-bump commit a release creates.
pub open spec fn release_message(v: Version) -> Seq<char> {
    "build: version bump to "@ + tag_str(v) + " [skip ci]"@
}

/// Parse a release tag name `"vmajor.minor.patch"`.
pub fn parse_tag(s: &str) -> (r: Option<Version>)
    ensures
        r == parse_tag_spec(s@),
{
    let n = s.unicode_len();
    if n == 0 {
        return None;
    }
    if s.get_char(0) != 'v' {
        return None;
    }
    let rest = s.substring_char(1, n);
    let r = parse_version(rest);
    proof {
        assert(rest@ =~= s@.skip(1));
    }
    r
}

} // verus!
