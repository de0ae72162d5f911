//! Version strings: their numeric key, the order of precedence it induces,
//! and the shape that routing accepts.
use vstd::prelude::*;
use crate::text::{chars_of, split_on};

verus! {

/// A decimal digit `0`..`9`.
pub open spec fn is_digit(c: char) -> bool {
    '0' <= c && c <= '9'
}

pub open spec fn all_digits(d: Seq<char>) -> bool {
    forall|i: int| 0 <= i < d.len() ==> is_digit(#[trigger] d[i])
}

/// The number written by the decimal digits `d` (most significant first).
pub open spec fn digits_value(d: Seq<char>) -> nat
    decreases d.len(),
{
    if d.len() == 0 {
        0
    } else {
        digits_value(d.drop_last()) * 10 + ((d.last() as u32 - '0' as u32) as nat)
    }
}

/// The digits of a number, past an optional leading `+`.
pub open spec fn unsigned_digits(t: Seq<char>) -> Seq<char> {
    if t.len() > 0 && t[0] == '+' {
        t.drop_first()
    } else {
        t
    }
}

/// What `str::parse::<u32>` yields: an optional `+`, then at least one
/// digit, and a value that fits in 32 bits.
pub open spec fn parse_u32(t: Seq<char>) -> Option<u32> {
    let d = unsigned_digits(t);
    if d.len() > 0 && all_digits(d) && digits_value(d) <= u32::MAX {
        Some(digits_value(d) as u32)
    } else {
        None
    }
}

/// A version component's number; zero where the text is no number.
pub open spec fn component_value(t: Seq<char>) -> u32 {
    match parse_u32(t) {
        Some(v) => v,
        None => 0,
    }
}

/// The (major, minor, patch) key of a version string; `(0, 0, 0)` unless
/// the string has exactly three dot-separated components.
pub open spec fn version_key(s: Seq<char>) -> (u32, u32, u32) {
    let p = split_on(s, '.');
    if p.len() == 3 {
        (component_value(p[0]), component_value(p[1]), component_value(p[2]))
    } else {
        (0, 0, 0)
    }
}

/// Strict precedence of keys: compared component by component, numerically.
pub open spec fn key_lt(a: (u32, u32, u32), b: (u32, u32, u32)) -> bool {
    a.0 < b.0 || (a.0 == b.0 && (a.1 < b.1 || (a.1 == b.1 && a.2 < b.2)))
}

proof fn lemma_digits_value_grows(d: Seq<char>, k: int)
    requires
        0 <= k <= d.len(),
        all_digits(d),
    ensures
        digits_value(d.take(k)) <= digits_value(d),
    decreases d.len() - k,
{
    if k < d.len() {
        lemma_digits_value_grows(d, k + 1);
        assert(d.take(k + 1).drop_last() == d.take(k));
    } else {
        assert(d.take(k) == d);
    }
}

pub open spec fn views_of(v: Seq<Vec<char>>) -> Seq<Seq<char>> {
    v.map_values(|x: Vec<char>| x@)
}

/// The number that one version component stands for.
fn component_number(t: &Vec<char>) -> (r: u32)
    ensures
        r == component_value(t@),
{
    let n = t.len();
    let start: usize = if n > 0 && t[0] == '+' {
        1
    } else {
        0
    };
    let ghost d = unsigned_digits(t@);
    assert(d == t@.subrange(start as int, n as int));
    if start == n {
        return 0;
    }
    let mut val: u64 = 0;
    let mut i: usize = start;
    while i < n
        invariant
            start <= i <= n,
            n == t.len(),
            d == unsigned_digits(t@),
            d == t@.subrange(start as int, n as int),
            all_digits(d.take(i - start)),
            val == digits_value(d.take(i - start)),
            val <= u32::MAX,
        decreases n - i,
    {
        let c = t[i];
        if !('0' <= c && c <= '9') {
            assert(!all_digits(d)) by {
                assert(d[i - start] == c);
            }
            assert(parse_u32(t@) is None);
            return 0;
        }
        let next: u64 = val * 10 + (c as u32 - '0' as u32) as u64;
        proof {
            assert(d.take(i - start + 1).drop_last() == d.take(i - start));
            assert(d.take(i - start + 1).last() == c);
            assert forall|k: int| 0 <= k < d.take(i - start + 1).len() implies is_digit(
                #[trigger] d.take(i - start + 1)[k],
            ) by {
                if k < i - start {
                    assert(d.take(i - start + 1)[k] == d.take(i - start)[k]);
                }
            }
        }
        if next > u32::MAX as u64 {
            proof {
                assert(digits_value(d.take(i - start + 1)) == next);
                if all_digits(d) {
                    lemma_digits_value_grows(d, i - start + 1);
                }
                assert(parse_u32(t@) is None);
            }
            return 0;
        }
        val = next;
        i = i + 1;
    }
    assert(d.take(n - start) == d);
    val as u32
}

/// The numeric (major, minor, patch) key of a version string.
pub fn parse_version(s: &str) -> (r: (u32, u32, u32))
    ensures
        r == version_key(s@),
{
    let cs = chars_of(s);
    let mut done: Vec<Vec<char>> = Vec::new();
    let mut cur: Vec<char> = Vec::new();
    let mut i: usize = 0;
    while i < cs.len()
        invariant
            i <= cs.len(),
            cs@ == s@,
            split_on(cs@.take(i as int), '.') == views_of(done@).push(cur@),
        decreases cs.len() - i,
    {
        let c = cs[i];
        proof {
            let p = cs@.take(i + 1);
            assert(p.drop_last() == cs@.take(i as int));
            assert(p.last() == c);
        }
        if c == '.' {
            let ghost old_done = done@;
            let finished = cur;
            done.push(finished);
            cur = Vec::new();
            proof {
                assert(views_of(done@) == views_of(old_done).push(finished@));
            }
        } else {
            cur.push(c);
        }
        i = i + 1;
    }
    proof {
        assert(cs@.take(cs.len() as int) == s@);
    }
    if done.len() == 2 {
        assert(views_of(done@)[0] == done@[0]@);
        assert(views_of(done@)[1] == done@[1]@);
        (component_number(&done[0]), component_number(&done[1]), component_number(&cur))
    } else {
        (0, 0, 0)
    }
}

/// Whether `a` ranks strictly below `b` in version precedence.
pub fn version_key_less(a: (u32, u32, u32), b: (u32, u32, u32)) -> (r: bool)
    ensures
        r == key_lt(a, b),
{
    a.0 < b.0 || (a.0 == b.0 && (a.1 < b.1 || (a.1 == b.1 && a.2 < b.2)))
}

/// The pattern a version path segment must match.
pub const VERSION_PATTERN: &'static str = r"^[0-9]\.[0-9]{1,2}\.[0-9]{1,2}$";

/// The longest version path segment accepted, in bytes.
pub const MAX_VERSION_LEN: usize = 7;

/// One or two decimal digits.
pub open spec fn short_number(t: Seq<char>) -> bool {
    1 <= t.len() <= 2 && all_digits(t)
}

/// The strings that `VERSION_PATTERN` matches as a whole: one digit, a dot,
/// one or two digits, a dot, one or two digits.
pub open spec fn matches_version_pattern(s: Seq<char>) -> bool {
    s.len() >= 2 && is_digit(s[0]) && s[1] == '.' && {
        let rest = s.skip(2);
        ||| (rest.len() >= 2 && rest[1] == '.' && short_number(rest.take(1)) && short_number(
            rest.skip(2),
        ))
        ||| (rest.len() >= 3 && rest[2] == '.' && short_number(rest.take(2)) && short_number(
            rest.skip(3),
        ))
    }
}

/// Relies on `regex::Regex::new` and `Regex::is_match`: compiled from
/// `VERSION_PATTERN`, the regex (anchored by `^` and `$`, with `[0-9]` the
/// ASCII digits) matches exactly the strings of `matches_version_pattern`.
#[verifier::external_body]
fn version_regex_matches(pattern: &str, text: &str) -> (r: bool)
    requires
        pattern@ == VERSION_PATTERN@,
    ensures
        r == matches_version_pattern(text@),
{
    match regex::Regex::new(pattern) {
        Ok(re) => re.is_match(text),
        Err(_) => false,
    }
}

/// Whether `version` is a well-formed version path segment: at most seven
/// bytes long and matching `VERSION_PATTERN`.
pub fn is_valid_version(version: &str) -> (r: bool)
    ensures
        r == matches_version_pattern(version@),
        r ==> version@.len() <= MAX_VERSION_LEN,
{
    proof {
        if matches_version_pattern(version@) {
            assert(vstd::string::is_ascii(version)) by {
                assert forall|i: int| 0 <= i < version@.len() implies '\0' <= #[trigger] version@[i]
                    <= '\u{7f}' by {
                    if i >= 2 {
                        assert(version@[i] == version@.skip(2)[i - 2]);
                        if version@.skip(2).len() >= 2 && version@.skip(2)[1] == '.' {
                            if i >= 4 {
                                assert(version@.skip(2)[i - 2] == version@.skip(2).skip(2)[i - 4]);
                            } else if i == 2 {
                                assert(version@.skip(2)[0] == version@.skip(2).take(1)[0]);
                            }
                        }
                        if version@.skip(2).len() >= 3 && version@.skip(2)[2] == '.' {
                            if i >= 5 {
                                assert(version@.skip(2)[i - 2] == version@.skip(2).skip(3)[i - 5]);
                            } else if i <= 3 {
                                assert(version@.skip(2)[i - 2] == version@.skip(2).take(2)[i - 2]);
                            }
                        }
                    }
                }
            }
            vstd::string::is_ascii_spec_bytes(version);
        }
    }
    if version.len() > MAX_VERSION_LEN {
        return false;
    }
    version_regex_matches(VERSION_PATTERN, version)
}

} // verus!
