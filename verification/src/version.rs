//! Versions of the Git executable, and the features that depend on them.

use vstd::prelude::*;
use crate::text::{
    digits, free_of, lemma_digits_chars, lemma_split_either_after, lemma_split_either_plain,
    split_at_either, trim, trim_chars, trim_end, trim_start,
};

verus! {

/// A version of Git: major, minor and patch numbers.
#[derive(Clone, Copy, Debug, PartialEq, Eq)]
pub struct GitVersion(pub isize, pub isize, pub isize);

/// `a <= b` in the order of versions: by major number, then minor, then patch.
pub open spec fn version_le(a: GitVersion, b: GitVersion) -> bool {
    ||| a.0 < b.0
    ||| a.0 == b.0 && a.1 < b.1
    ||| a.0 == b.0 && a.1 == b.1 && a.2 <= b.2
}

/// The first version of Git with the features that the test helpers probe for.
pub open spec fn feature_version() -> GitVersion {
    GitVersion(2, 29, 0)
}

impl GitVersion {
    /// Whether `self >= other` in the order of versions.
    pub fn is_at_least(&self, other: &GitVersion) -> (b: bool)
        ensures
            b == version_le(*other, *self),
    {
        if self.0 != other.0 {
            self.0 > other.0
        } else if self.1 != other.1 {
            self.1 > other.1
        } else {
            self.2 >= other.2
        }
    }
}

/// Whether Git at `version` has the features introduced in version 2.29.0
/// (the `reference-transaction` hook, and `--committer-date-is-author-date`
/// for merge-based rebases).
pub(crate) fn supports_features_of_2_29(version: &GitVersion) -> (b: bool)
    ensures
        b == version_le(feature_version(), *version),
{
    version.is_at_least(&GitVersion(2, 29, 0))
}

/// The order of versions is reflexive.
pub proof fn lemma_version_le_reflexive(a: GitVersion)
    ensures
        version_le(a, a),
{
}

/// The order of versions is transitive.
pub proof fn lemma_version_le_transitive(a: GitVersion, b: GitVersion, c: GitVersion)
    requires
        version_le(a, b),
        version_le(b, c),
    ensures
        version_le(a, c),
{
}

/// The order of versions is antisymmetric.
pub proof fn lemma_version_le_antisymmetric(a: GitVersion, b: GitVersion)
    requires
        version_le(a, b),
        version_le(b, a),
    ensures
        a == b,
{
}

/// Any two versions are ordered one way or the other.
pub proof fn lemma_version_le_total(a: GitVersion, b: GitVersion)
    ensures
        version_le(a, b) || version_le(b, a),
{
}

} // verus!

verus! {

/// A later version keeps the features of an earlier one.
pub proof fn law_features_kept_by_later_versions(v: GitVersion, w: GitVersion)
    requires
        version_le(feature_version(), v),
        version_le(v, w),
    ensures
        version_le(feature_version(), w),
{
}

} // verus!

verus! {

/// Whether `c` is a decimal digit.
pub open spec fn is_digit(c: char) -> bool {
    '0' <= c <= '9'
}

/// The value of the decimal digits `s`, most significant first.
pub open spec fn digits_value(s: Seq<char>) -> int
    decreases s.len(),
{
    if s.len() == 0 {
        0
    } else {
        digits_value(s.drop_last()) * 10 + (s.last() as int - '0' as int)
    }
}

/// `s` without a leading `+` or `-`.
pub open spec fn unsigned_part(s: Seq<char>) -> Seq<char> {
    if s.len() > 0 && (s[0] == '-' || s[0] == '+') { s.drop_first() } else { s }
}

/// What `s.parse::<isize>()` gives: an optional `+` or `-`, then one or more
/// decimal digits, whose value must fit in an `isize`.
pub open spec fn parse_isize(s: Seq<char>) -> Option<int> {
    let negative = s.len() > 0 && s[0] == '-';
    let body = unsigned_part(s);
    if body.len() == 0 || !(forall|i: int| 0 <= i < body.len() ==> is_digit(#[trigger] body[i])) {
        None
    } else {
        let v = if negative { -digits_value(body) } else { digits_value(body) };
        if isize::MIN <= v <= isize::MAX { Some(v) } else { None }
    }
}

proof fn lemma_digits_value_grows(s: Seq<char>, i: int)
    requires
        0 <= i <= s.len(),
        forall|j: int| 0 <= j < s.len() ==> is_digit(#[trigger] s[j]),
    ensures
        0 <= digits_value(s.take(i)) <= digits_value(s),
    decreases s.len(),
{
    if i == s.len() {
        assert(s.take(i) =~= s);
        lemma_digits_value_nonneg(s);
    } else {
        let t = s.drop_last();
        assert forall|j: int| 0 <= j < t.len() implies is_digit(#[trigger] t[j]) by {
            assert(t[j] == s[j]);
        }
        lemma_digits_value_grows(t, i);
        assert(t.take(i) =~= s.take(i));
        lemma_digits_value_nonneg(t);
        assert(is_digit(s[s.len() - 1]));
    }
}

proof fn lemma_digits_value_nonneg(s: Seq<char>)
    requires
        forall|j: int| 0 <= j < s.len() ==> is_digit(#[trigger] s[j]),
    ensures
        digits_value(s) >= 0,
    decreases s.len(),
{
    if s.len() > 0 {
        let t = s.drop_last();
        assert forall|j: int| 0 <= j < t.len() implies is_digit(#[trigger] t[j]) by {
            assert(t[j] == s[j]);
        }
        lemma_digits_value_nonneg(t);
        assert(is_digit(s[s.len() - 1]));
    }
}

/// Parses an `isize` as `str::parse` does.
pub fn parse_isize_chars(s: &Vec<char>) -> (r: Option<isize>)
    ensures
        match r {
            Some(v) => parse_isize(s@) == Some(v as int),
            None => parse_isize(s@) is None,
        },
{
    let n = s.len();
    let negative = n > 0 && s[0] == '-';
    let start: usize = if n > 0 && (s[0] == '-' || s[0] == '+') { 1 } else { 0 };
    let ghost body = unsigned_part(s@);
    assert(body =~= s@.skip(start as int));
    if start == n {
        return None;
    }
    let limit: u128 = (isize::MAX as u128) + 1;
    let mut acc: u128 = 0;
    let mut k: usize = start;
    assert(body.take(0) =~= Seq::<char>::empty());
    while k < n
        invariant
            n == s@.len(),
            start <= k <= n,
            body == s@.skip(start as int),
            body == unsigned_part(s@),
            negative == (s@.len() > 0 && s@[0] == '-'),
            body.len() > 0,
            limit == isize::MAX + 1,
            acc <= limit,
            forall|j: int| 0 <= j < k - start ==> is_digit(#[trigger] body[j]),
            acc == digits_value(body.take(k - start)),
        decreases n - k,
    {
        let c = s[k];
        assert(body[k - start] == c);
        if !('0' <= c && c <= '9') {
            assert(parse_isize(s@) is None) by {
                assert(!is_digit(body[k - start]));
                assert(!(forall|i: int| 0 <= i < body.len() ==> is_digit(#[trigger] body[i])));
            }
            return None;
        }
        let d = (c as u32 - '0' as u32) as u128;
        assert(body.take(k - start + 1).drop_last() =~= body.take(k - start));
        acc = acc * 10 + d;
        k += 1;
        assert(body.take(k - start).last() == c);
        assert(acc == digits_value(body.take(k - start)));
        if acc > limit {
            assert(parse_isize(s@) is None) by {
                if forall|j: int| 0 <= j < body.len() ==> is_digit(#[trigger] body[j]) {
                    lemma_digits_value_grows(body, k - start);
                }
            }
            return None;
        }
    }
    assert(body.take(n - start) =~= body);
    if negative {
        Some((0i128 - (acc as i128)) as isize)
    } else if acc <= isize::MAX as u128 {
        Some(acc as isize)
    } else {
        None
    }
}

/// Why the output of `git version` could not be read.
#[derive(Debug, PartialEq, Eq)]
pub enum GitVersionParseError {
    /// The output has fewer than three words.
    Output,
    /// The version word has fewer than three parts.
    VersionString,
    /// The major or minor number is not a number that fits.
    Number,
}

/// The version that `git version` printed in `output`: the third word of the
/// trimmed output (words being cut at spaces and `-`), cut at `.` into at least
/// three parts, the first two of which must parse as numbers; a third part that
/// is not a number (as in `2.33.GIT`) counts as 0.
pub open spec fn version_of_output(output: Seq<char>) -> Result<GitVersion, GitVersionParseError> {
    let words = crate::text::split_at_either(trim(output), ' ', '-');
    if words.len() < 3 {
        Err(GitVersionParseError::Output)
    } else {
        let parts = crate::text::split_at_either(words[2], '.', '.');
        if parts.len() < 3 {
            Err(GitVersionParseError::VersionString)
        } else {
            match (parse_isize(parts[0]), parse_isize(parts[1])) {
                (Some(major), Some(minor)) => Ok(GitVersion(
                    major as isize,
                    minor as isize,
                    match parse_isize(parts[2]) {
                        Some(patch) => patch as isize,
                        None => 0isize,
                    },
                )),
                _ => Err(GitVersionParseError::Number),
            }
        }
    }
}

impl GitVersion {
    /// Reads the version from the output of `git version`.
    pub fn parse(output: &str) -> (r: Result<GitVersion, GitVersionParseError>)
        ensures
            r == version_of_output(output@),
    {
        let trimmed = trim_chars(output);
        let words = crate::text::split_chars_at_either(&trimmed, ' ', '-');
        if words.len() < 3 {
            return Err(GitVersionParseError::Output);
        }
        let parts = crate::text::split_chars_at_either(&words[2], '.', '.');
        if parts.len() < 3 {
            return Err(GitVersionParseError::VersionString);
        }
        let major = match parse_isize_chars(&parts[0]) {
            Some(v) => v,
            None => return Err(GitVersionParseError::Number),
        };
        let minor = match parse_isize_chars(&parts[1]) {
            Some(v) => v,
            None => return Err(GitVersionParseError::Number),
        };
        let patch = match parse_isize_chars(&parts[2]) {
            Some(v) => v,
            None => 0,
        };
        Ok(GitVersion(major, minor, patch))
    }
}

} // verus!

verus! {

proof fn lemma_digit_char_value(k: nat)
    requires
        k < 10,
    ensures
        crate::text::digit_char(k) as int - '0' as int == k,
{
}

proof fn lemma_digits_value_of_digits(n: nat)
    ensures
        digits_value(crate::text::digits(n)) == n,
    decreases n,
{
    let d = crate::text::digits(n);
    if n >= 10 {
        lemma_digits_value_of_digits(n / 10);
        assert(d.drop_last() =~= crate::text::digits(n / 10));
        assert(d.last() == crate::text::digit_char(n % 10));
        lemma_digit_char_value(n % 10);
        assert(n == (n / 10) * 10 + n % 10) by (nonlinear_arith);
        assert(digits_value(d) == digits_value(d.drop_last()) * 10 + (d.last() as int - '0' as int));
    } else {
        assert(d.drop_last() =~= Seq::<char>::empty());
        assert(d.last() == crate::text::digit_char(n));
        lemma_digit_char_value(n);
        assert(digits_value(d) == digits_value(d.drop_last()) * 10 + (d.last() as int - '0' as int));
        assert(digits_value(Seq::<char>::empty()) == 0);
    }
}

proof fn lemma_parse_digits(n: nat)
    requires
        n <= isize::MAX,
    ensures
        parse_isize(crate::text::digits(n)) == Some(n as int),
{
    let d = crate::text::digits(n);
    crate::text::lemma_digits_chars(n);
    lemma_digits_value_of_digits(n);
    assert(d.len() >= 1) by {
        if n >= 10 {} else {}
    }
    assert('0' <= d[0] <= '9');
    assert(unsigned_part(d) == d);
    assert(forall|i: int| 0 <= i < d.len() ==> is_digit(#[trigger] d[i]));
    assert(!(d.len() > 0 && d[0] == '-'));
    let body = unsigned_part(d);
    assert(forall|i: int| 0 <= i < body.len() ==> is_digit(#[trigger] body[i]));
    assert(isize::MIN <= digits_value(body) <= isize::MAX);
    assert(body.len() != 0);
    assert(parse_isize(d) is Some);
    assert(parse_isize(d) == Some(digits_value(body)));
}

/// Reading back what `git version` prints for a version gives that version: for
/// every major, minor and patch number (from 0 up to the largest `isize`), the
/// line `git version <major>.<minor>.<patch>` reads as exactly those numbers.
pub proof fn law_version_round_trip(major: nat, minor: nat, patch: nat)
    requires
        major <= isize::MAX,
        minor <= isize::MAX,
        patch <= isize::MAX,
    ensures
        version_of_output(
            "git version "@ + crate::text::decimal(major as int) + "."@ + crate::text::decimal(minor as int)
                + "."@ + crate::text::decimal(patch as int) + seq!['\n'],
        ) == Ok::<GitVersion, GitVersionParseError>(GitVersion(major as isize, minor as isize, patch as isize)),
{
    reveal_strlit("git version ");
    reveal_strlit(".");
    let dx = digits(major);
    let dy = digits(minor);
    let dz = digits(patch);
    lemma_digits_chars(major);
    lemma_digits_chars(minor);
    lemma_digits_chars(patch);
    assert(dz.len() >= 1) by {
        if patch >= 10 {} else {}
    }
    let v = dx + seq!['.'] + dy + seq!['.'] + dz;
    let git = seq!['g', 'i', 't'];
    let version = seq!['v', 'e', 'r', 's', 'i', 'o', 'n'];
    let core = git + seq![' '] + version + seq![' '] + v;
    let output = "git version "@ + crate::text::decimal(major as int) + "."@ + crate::text::decimal(minor as int)
        + "."@ + crate::text::decimal(patch as int) + seq!['\n'];
    assert(output =~= core + seq!['\n']);
    // Trimming removes only the final line break.
    assert(trim_start(output) == output) by {
        assert(output[0] == 'g');
    }
    assert(output.drop_last() =~= core);
    assert(core.last() == dz[dz.len() - 1]);
    assert(trim_end(core) == core);
    // The words are `git`, `version` and the version string.
    assert(free_of(v, ' ', '-')) by {
        assert forall|i: int| 0 <= i < v.len() implies #[trigger] v[i] != ' ' && v[i] != '-' by {
            if i < dx.len() {
                assert(v[i] == dx[i]);
            } else if i == dx.len() {
            } else if i < dx.len() + 1 + dy.len() {
                assert(v[i] == dy[i - dx.len() - 1]);
            } else if i == dx.len() + 1 + dy.len() {
            } else {
                assert(v[i] == dz[i - dx.len() - 2 - dy.len()]);
            }
        }
    }
    assert(free_of(git, ' ', '-'));
    assert(free_of(version, ' ', '-'));
    lemma_split_either_plain(git, ' ', '-');
    lemma_split_either_after(git, ' ', version, ' ', '-');
    lemma_split_either_after(git + seq![' '] + version, ' ', v, ' ', '-');
    let words = split_at_either(core, ' ', '-');
    assert(words == seq![git, version, v]);
    // The version string has the three numbers as its parts.
    assert(free_of(dx, '.', '.'));
    assert(free_of(dy, '.', '.'));
    assert(free_of(dz, '.', '.'));
    lemma_split_either_plain(dx, '.', '.');
    lemma_split_either_after(dx, '.', dy, '.', '.');
    lemma_split_either_after(dx + seq!['.'] + dy, '.', dz, '.', '.');
    let parts = split_at_either(v, '.', '.');
    assert(parts == seq![dx, dy, dz]);
    lemma_parse_digits(major);
    lemma_parse_digits(minor);
    lemma_parse_digits(patch);
}

} // verus!
