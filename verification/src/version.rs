//! Version tags: validation, parsing, and build-strategy selection.
//!
//! A version tag is an opaque release identifier such as `v25.0`.  Before a
//! tag is interpolated into any shell command it must pass
//! [`validate_version_tag`], which admits exactly the characters
//! `A`-`Z`, `a`-`z`, `0`-`9`, `.`, `-` and `_`.

use vstd::prelude::*;

use crate::errors::Failure;

verus! {

/// The characters a version tag may contain.
pub open spec fn is_tag_char(c: char) -> bool {
    ||| 'A' <= c && c <= 'Z'
    ||| 'a' <= c && c <= 'z'
    ||| '0' <= c && c <= '9'
    ||| c == '.'
    ||| c == '-'
    ||| c == '_'
}

/// A tag is valid when every character is a tag character.
pub open spec fn tag_ok(s: Seq<char>) -> bool {
    forall|i: int| 0 <= i < s.len() ==> is_tag_char(#[trigger] s[i])
}

/// An ASCII decimal digit.
pub open spec fn is_digit(c: char) -> bool {
    '0' <= c && c <= '9'
}

/// The numeric value of a digit character.
pub open spec fn digit_val(c: char) -> int {
    c as int - '0' as int
}

/// Every character of `s` is a decimal digit.
pub open spec fn all_digits(s: Seq<char>) -> bool {
    forall|i: int| 0 <= i < s.len() ==> is_digit(#[trigger] s[i])
}

/// The number denoted by a string of decimal digits (most significant first).
pub open spec fn digits_value(s: Seq<char>) -> int
    decreases s.len(),
{
    if s.len() == 0 {
        0
    } else {
        digits_value(s.drop_last()) * 10 + digit_val(s.last())
    }
}

/// A sequence denotes a `u32` when it is a non-empty string of digits whose
/// value fits.
pub open spec fn parses_as_u32(s: Seq<char>) -> bool {
    s.len() > 0 && all_digits(s) && digits_value(s) <= u32::MAX
}

/// The value of a digit string never shrinks as the string grows to the right.
proof fn lemma_digits_value_take_le(s: Seq<char>, i: int)
    requires
        0 <= i <= s.len(),
        all_digits(s),
    ensures
        0 <= digits_value(s.take(i)) <= digits_value(s),
    decreases s.len() - i,
{
    lemma_digits_value_nonneg(s.take(i));
    if i < s.len() {
        assert(s.take(i + 1).drop_last() =~= s.take(i));
        assert(s.take(i + 1).last() == s[i]);
        assert(digits_value(s.take(i + 1)) == digits_value(s.take(i)) * 10 + digit_val(s[i]));
        lemma_digits_value_nonneg(s.take(i));
        lemma_digits_value_take_le(s, i + 1);
    } else {
        assert(s.take(i) =~= s);
    }
}

/// A digit string's value is never negative.
proof fn lemma_digits_value_nonneg(s: Seq<char>)
    requires
        all_digits(s),
    ensures
        digits_value(s) >= 0,
    decreases s.len(),
{
    if s.len() > 0 {
        assert(all_digits(s.drop_last())) by {
            assert(forall|i: int| 0 <= i < s.len() - 1 ==> s.drop_last()[i] == s[i]);
        }
        lemma_digits_value_nonneg(s.drop_last());
    }
}

/// Read `s` as a decimal `u32`.  Returns the value exactly when `s` is a
/// non-empty all-digit string whose value fits in a `u32`.
pub fn parse_decimal(s: &str) -> (r: Option<u32>)
    ensures
        r is Some <==> parses_as_u32(s@),
        r is Some ==> r->0 as int == digits_value(s@),
{
    let n = s.unicode_len();
    if n == 0 {
        return None;
    }
    let mut acc: u64 = 0;
    let mut i: usize = 0;
    while i < n
        invariant
            n == s@.len(),
            0 < n,
            i <= n,
            all_digits(s@.take(i as int)),
            acc as int == digits_value(s@.take(i as int)),
            acc <= u32::MAX,
        decreases n - i,
    {
        let c = s.get_char(i);
        if !('0' <= c && c <= '9') {
            return None;
        }
        let d: u64 = (c as u32 - '0' as u32) as u64;
        proof {
            assert(s@.take(i + 1).drop_last() =~= s@.take(i as int));
            assert(s@.take(i + 1).last() == s@[i as int]);
        }
        acc = acc * 10 + d;
        i = i + 1;
        if acc > u32::MAX as u64 {
            proof {
                if all_digits(s@) {
                    lemma_digits_value_take_le(s@, i as int);
                }
            }
            return None;
        }
    }
    proof {
        assert(s@.take(n as int) =~= s@);
    }
    Some(acc as u32)
}

/// `s` with every leading `v` removed.
pub open spec fn strip_v(s: Seq<char>) -> Seq<char>
    decreases s.len(),
{
    if s.len() > 0 && s[0] == 'v' {
        strip_v(s.drop_first())
    } else {
        s
    }
}

/// The length of the longest all-digit prefix of `s`.
pub open spec fn digits_prefix_len(s: Seq<char>) -> int
    decreases s.len(),
{
    if s.len() == 0 || !is_digit(s[0]) {
        0
    } else {
        1 + digits_prefix_len(s.drop_first())
    }
}

/// The index of the first `.` at or after `from`, or the length of `s` when
/// there is none.
pub open spec fn dot_or_end(s: Seq<char>, from: int) -> int
    decreases s.len() - from,
{
    if from < 0 || from >= s.len() {
        s.len() as int
    } else if s[from] == '.' {
        from
    } else {
        dot_or_end(s, from + 1)
    }
}

/// A scan that saw only `v` up to `p` pins down `strip_v`.
pub proof fn lemma_strip_v_at(s: Seq<char>, p: int)
    requires
        0 <= p <= s.len(),
        forall|j: int| 0 <= j < p ==> #[trigger] s[j] == 'v',
        p == s.len() || s[p] != 'v',
    ensures
        strip_v(s) == s.skip(p),
    decreases p,
{
    if p == 0 {
        assert(s.skip(0) =~= s);
    } else {
        let t = s.drop_first();
        assert(forall|j: int| 0 <= j < p - 1 ==> #[trigger] t[j] == s[j + 1]);
        lemma_strip_v_at(t, p - 1);
        assert(t.skip(p - 1) =~= s.skip(p));
    }
}

/// A scan that saw only digits up to `p` pins down `digits_prefix_len`.
proof fn lemma_digits_prefix_len_at(s: Seq<char>, p: int)
    requires
        0 <= p <= s.len(),
        forall|j: int| 0 <= j < p ==> is_digit(#[trigger] s[j]),
        p == s.len() || !is_digit(s[p]),
    ensures
        digits_prefix_len(s) == p,
    decreases p,
{
    if p > 0 {
        let t = s.drop_first();
        assert(forall|j: int| 0 <= j < p - 1 ==> #[trigger] t[j] == s[j + 1]);
        lemma_digits_prefix_len_at(t, p - 1);
    }
}

/// A scan that saw no `.` in `[from, p)` pins down `dot_or_end`.
proof fn lemma_dot_or_end_at(s: Seq<char>, from: int, p: int)
    requires
        0 <= from <= p <= s.len(),
        forall|j: int| from <= j < p ==> #[trigger] s[j] != '.',
        p == s.len() || s[p] == '.',
    ensures
        dot_or_end(s, from) == p,
    decreases p - from,
{
    if from < p {
        lemma_dot_or_end_at(s, from + 1, p);
    }
}

/// What a version tag denotes as a `(major, minor)` pair: after leading `v`s
/// are stripped, a run of digits, a `.`, and a second run of digits, each run
/// fitting in a `u32`.  Anything else denotes `(0, 0)`.
pub open spec fn spec_parse_version(s: Seq<char>) -> (int, int) {
    let t = strip_v(s);
    let a = digits_prefix_len(t);
    if a == 0 || a == t.len() || t[a] != '.' {
        (0, 0)
    } else {
        let rest = t.skip(a + 1);
        let b = digits_prefix_len(rest);
        if b == 0 {
            (0, 0)
        } else {
            let major = digits_value(t.take(a));
            let minor = digits_value(rest.take(b));
            if major <= u32::MAX && minor <= u32::MAX {
                (major, minor)
            } else {
                (0, 0)
            }
        }
    }
}

/// Validate that a version tag contains only safe characters; any other
/// character is a validation failure, not a sanitization attempt.
pub fn validate_version_tag(tag: &str) -> (r: Result<(), Failure>)
    ensures
        r is Ok <==> tag_ok(tag@),
        r is Err ==> r->Err_0.message@ == "Version tag contains unexpected characters: "@ + tag@,
{
    let n = tag.unicode_len();
    let mut i: usize = 0;
    while i < n
        invariant
            n == tag@.len(),
            i <= n,
            forall|j: int| 0 <= j < i ==> is_tag_char(#[trigger] tag@[j]),
        decreases n - i,
    {
        let c = tag.get_char(i);
        let ok = ('A' <= c && c <= 'Z') || ('a' <= c && c <= 'z') || ('0' <= c && c <= '9')
            || c == '.' || c == '-' || c == '_';
        if !ok {
            let msg = String::from_str("Version tag contains unexpected characters: ").concat(tag);
            return Err(Failure { message: msg });
        }
        i = i + 1;
    }
    Ok(())
}

/// Parse a version tag into `(major, minor)`.  Strips any leading `v`s, then
/// expects digits, a `.`, and digits; anything else yields `(0, 0)`.
pub fn parse_version(tag: &str) -> (r: (u32, u32))
    ensures
        (r.0 as int, r.1 as int) == spec_parse_version(tag@),
{
    let n = tag.unicode_len();
    let mut v0: usize = 0;
    while v0 < n && tag.get_char(v0) == 'v'
        invariant
            n == tag@.len(),
            v0 <= n,
            forall|j: int| 0 <= j < v0 ==> #[trigger] tag@[j] == 'v',
        decreases n - v0,
    {
        v0 = v0 + 1;
    }
    proof {
        lemma_strip_v_at(tag@, v0 as int);
    }
    let t = tag.substring_char(v0, n);
    proof {
        assert(t@ =~= tag@.skip(v0 as int));
    }
    let m = n - v0;
    let mut a: usize = 0;
    while a < m && '0' <= t.get_char(a) && t.get_char(a) <= '9'
        invariant
            m == t@.len(),
            a <= m,
            forall|j: int| 0 <= j < a ==> is_digit(#[trigger] t@[j]),
        decreases m - a,
    {
        a = a + 1;
    }
    proof {
        lemma_digits_prefix_len_at(t@, a as int);
    }
    if a == 0 || a == m {
        return (0, 0);
    }
    if t.get_char(a) != '.' {
        return (0, 0);
    }
    let rest = t.substring_char(a + 1, m);
    proof {
        assert(rest@ =~= t@.skip(a + 1));
    }
    let k = m - (a + 1);
    let mut b: usize = 0;
    while b < k && '0' <= rest.get_char(b) && rest.get_char(b) <= '9'
        invariant
            k == rest@.len(),
            b <= k,
            forall|j: int| 0 <= j < b ==> is_digit(#[trigger] rest@[j]),
        decreases k - b,
    {
        b = b + 1;
    }
    proof {
        lemma_digits_prefix_len_at(rest@, b as int);
    }
    if b == 0 {
        return (0, 0);
    }
    let major = parse_decimal(t.substring_char(0, a));
    let minor = parse_decimal(rest.substring_char(0, b));
    proof {
        assert(t@.subrange(0, a as int) =~= t@.take(a as int));
        assert(rest@.subrange(0, b as int) =~= rest@.take(b as int));
    }
    match (major, minor) {
        (Some(x), Some(y)) => (x, y),
        _ => (0, 0),
    }
}

/// The value a `.`-separated field contributes to a semver triple: its
/// decimal value when it is one, otherwise 0.
pub open spec fn field_value(s: Seq<char>) -> int {
    if parses_as_u32(s) {
        digits_value(s)
    } else {
        0
    }
}

/// What a tag denotes as a `(major, minor, patch)` triple for ordering
/// releases: leading `v`s are stripped, the first three `.`-separated fields
/// are read as numbers, and a missing or malformed field counts as 0.
pub open spec fn spec_parse_semver(s: Seq<char>) -> (int, int, int) {
    let t = strip_v(s);
    let p1 = dot_or_end(t, 0);
    let f1 = t.take(p1);
    let f2 = if p1 < t.len() {
        t.subrange(p1 + 1, dot_or_end(t, p1 + 1))
    } else {
        Seq::<char>::empty()
    };
    let p2 = dot_or_end(t, p1 + 1);
    let f3 = if p1 < t.len() && p2 < t.len() {
        t.subrange(p2 + 1, dot_or_end(t, p2 + 1))
    } else {
        Seq::<char>::empty()
    };
    (field_value(f1), field_value(f2), field_value(f3))
}

/// Scan for the first `.` at or after `from`; returns its index, or `n` when
/// there is none.
fn find_dot(t: &str, from: usize, n: usize) -> (p: usize)
    requires
        n == t@.len(),
        from <= n,
    ensures
        p as int == dot_or_end(t@, from as int),
        from <= p <= n,
        p < n ==> t@[p as int] == '.',
{
    let mut p: usize = from;
    while p < n && t.get_char(p) != '.'
        invariant
            n == t@.len(),
            from <= p <= n,
            forall|j: int| from <= j < p ==> #[trigger] t@[j] != '.',
        decreases n - p,
    {
        p = p + 1;
    }
    proof {
        lemma_dot_or_end_at(t@, from as int, p as int);
    }
    p
}

/// Read a field of `t` as a number, 0 when it is not one.
fn field_of(t: &str, from: usize, to: usize) -> (r: u32)
    requires
        from <= to <= t@.len(),
    ensures
        r as int == field_value(t@.subrange(from as int, to as int)),
{
    match parse_decimal(t.substring_char(from, to)) {
        Some(x) => x,
        None => 0,
    }
}

/// Parse a version tag into a `(major, minor, patch)` triple for sorting.
/// Strips any leading `v`; missing or malformed fields count as 0.
pub fn parse_semver(tag: &str) -> (r: (u32, u32, u32))
    ensures
        (r.0 as int, r.1 as int, r.2 as int) == spec_parse_semver(tag@),
{
    let n = tag.unicode_len();
    let mut v0: usize = 0;
    while v0 < n && tag.get_char(v0) == 'v'
        invariant
            n == tag@.len(),
            v0 <= n,
            forall|j: int| 0 <= j < v0 ==> #[trigger] tag@[j] == 'v',
        decreases n - v0,
    {
        v0 = v0 + 1;
    }
    proof {
        lemma_strip_v_at(tag@, v0 as int);
    }
    let t = tag.substring_char(v0, n);
    proof {
        assert(t@ =~= tag@.skip(v0 as int));
    }
    let m = n - v0;
    let p1 = find_dot(t, 0, m);
    proof {
        assert(t@.subrange(0, p1 as int) =~= t@.take(p1 as int));
    }
    let major = field_of(t, 0, p1);
    if p1 == m {
        return (major, 0, 0);
    }
    let p2 = find_dot(t, p1 + 1, m);
    let minor = field_of(t, p1 + 1, p2);
    if p2 == m {
        return (major, minor, 0);
    }
    let p3 = find_dot(t, p2 + 1, m);
    let patch = field_of(t, p2 + 1, p3);
    (major, minor, patch)
}

/// `true` when the tag's major version selects the newer build toolchain.
pub fn use_cmake(version: &str) -> (r: bool)
    ensures
        r == (spec_parse_version(version@).0 >= 25),
{
    let (major, _minor) = parse_version(version);
    major >= 25
}

/// The two build toolchains a target project may be driven with.
#[derive(Clone, Copy, Debug, PartialEq, Eq, Structural)]
pub enum BuildStrategy {
    /// Bootstrap, configure, compile: the older toolchain.
    Legacy,
    /// A single configure step producing a build directory, then a build
    /// driver over it: the newer toolchain.
    Modern,
}

/// The strategy a version tag selects: a major version of at least 25 selects
/// the modern toolchain, everything else (unparsable tags included) the
/// legacy one.
pub open spec fn spec_strategy(s: Seq<char>) -> BuildStrategy {
    if spec_parse_version(s).0 >= 25 {
        BuildStrategy::Modern
    } else {
        BuildStrategy::Legacy
    }
}

/// Select the build strategy purely from the version tag's major number.
pub fn select_strategy(version: &str) -> (r: BuildStrategy)
    ensures
        r == spec_strategy(version@),
{
    if use_cmake(version) {
        BuildStrategy::Modern
    } else {
        BuildStrategy::Legacy
    }
}

} // verus!

