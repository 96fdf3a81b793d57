//! Versions, and how the name of an archive file encodes one.

use vstd::prelude::*;
use std::cmp::Ordering;
use crate::text::{
    base36_digit, base36_value, chars_of, decimal_digit, digit_value, is_alnum, is_digit,
};

verus! {

/// A version: major, minor and editorial number, ordered in that order.
#[derive(Debug, Clone, Copy, PartialEq, Eq, Ord, Structural)]
pub struct Version {
    pub major: u32,
    pub minor: u32,
    pub editorial: u32,
}

impl Version {
    /// `self` is the earlier version: the major numbers decide, then the
    /// minor numbers, then the editorial numbers.
    pub open spec fn precedes(self, other: Version) -> bool {
        ||| self.major < other.major
        ||| self.major == other.major && self.minor < other.minor
        ||| self.major == other.major && self.minor == other.minor && self.editorial
            < other.editorial
    }
}

impl PartialOrd for Version {
    fn partial_cmp(&self, other: &Version) -> (r: Option<Ordering>) {
        if self.major != other.major {
            if self.major < other.major {
                Some(Ordering::Less)
            } else {
                Some(Ordering::Greater)
            }
        } else if self.minor != other.minor {
            if self.minor < other.minor {
                Some(Ordering::Less)
            } else {
                Some(Ordering::Greater)
            }
        } else if self.editorial != other.editorial {
            if self.editorial < other.editorial {
                Some(Ordering::Less)
            } else {
                Some(Ordering::Greater)
            }
        } else {
            Some(Ordering::Equal)
        }
    }
}

impl vstd::std_specs::cmp::PartialOrdSpecImpl for Version {
    open spec fn obeys_partial_cmp_spec() -> bool {
        true
    }

    open spec fn partial_cmp_spec(&self, other: &Version) -> Option<Ordering> {
        if self.precedes(*other) {
            Some(Ordering::Less)
        } else if other.precedes(*self) {
            Some(Ordering::Greater)
        } else {
            Some(Ordering::Equal)
        }
    }
}

/// The order of versions is a strict total order: of two versions one
/// precedes the other or they are the same, never both, and a version that
/// precedes a second precedes all that the second precedes.
pub proof fn lemma_versions_are_ordered(a: Version, b: Version, c: Version)
    ensures
        a.precedes(b) || b.precedes(a) || a == b,
        !(a.precedes(b) && b.precedes(a)),
        !a.precedes(a),
        a.precedes(b) && b.precedes(c) ==> a.precedes(c),
{
}

/// Where the part of `s` behind its last `sep` starts: 0 where `s` holds no `sep`.
pub open spec fn start_after_last(s: Seq<char>, sep: char) -> int
    decreases s.len(),
{
    if s.len() == 0 || s.last() == sep {
        s.len() as int
    } else {
        start_after_last(s.drop_last(), sep)
    }
}

/// The part of `s` behind its last `sep`; all of `s` where it holds no `sep`.
pub open spec fn after_last(s: Seq<char>, sep: char) -> Seq<char> {
    s.subrange(start_after_last(s, sep), s.len() as int)
}

/// The part behind the last `sep` holds no `sep`, and it starts `s` or stands behind a `sep`.
pub proof fn lemma_after_last(s: Seq<char>, sep: char)
    ensures
        0 <= start_after_last(s, sep) <= s.len(),
        forall|i: int| start_after_last(s, sep) <= i < s.len() ==> #[trigger] s[i] != sep,
        start_after_last(s, sep) > 0 ==> s[start_after_last(s, sep) - 1] == sep,
    decreases s.len(),
{
    if s.len() > 0 && s.last() != sep {
        let front = s.drop_last();
        lemma_after_last(front, sep);
        assert forall|i: int| start_after_last(s, sep) <= i < s.len() implies #[trigger] s[i]
            != sep by {
            if i < s.len() - 1 {
                assert(s[i] == front[i]);
            }
        }
        if start_after_last(s, sep) > 0 {
            assert(s[start_after_last(s, sep) - 1] == front[start_after_last(front, sep) - 1]);
        }
    }
}

/// Whether `s` ends in `.zip`, in lower case.
pub open spec fn has_zip_suffix(s: Seq<char>) -> bool {
    &&& s.len() >= 4
    &&& s[s.len() - 4] == '.'
    &&& s[s.len() - 3] == 'z'
    &&& s[s.len() - 2] == 'i'
    &&& s[s.len() - 1] == 'p'
}

/// `s` without one trailing `.zip`.
pub open spec fn without_zip(s: Seq<char>) -> Seq<char> {
    if has_zip_suffix(s) {
        s.subrange(0, s.len() - 4)
    } else {
        s
    }
}

/// The version token of a file name: the name without the directories in
/// front of it and without one trailing `.zip`, and of that the part behind
/// the last hyphen.
pub open spec fn version_token(filename: Seq<char>) -> Seq<char> {
    after_last(without_zip(after_last(filename, '/')), '-')
}

/// Two decimal digits as a number.
pub open spec fn pair_value(hi: char, lo: char) -> int {
    digit_value(hi) * 10 + digit_value(lo)
}

/// The version that a token encodes. Three characters are three base-36
/// digits; six characters are three pairs of decimal digits. A token of
/// another length, or with another character in it, encodes none.
pub open spec fn token_version(t: Seq<char>) -> Option<Version> {
    if t.len() == 3 && is_alnum(t[0]) && is_alnum(t[1]) && is_alnum(t[2]) {
        Some(
            Version {
                major: base36_value(t[0]) as u32,
                minor: base36_value(t[1]) as u32,
                editorial: base36_value(t[2]) as u32,
            },
        )
    } else if t.len() == 6 && is_digit(t[0]) && is_digit(t[1]) && is_digit(t[2]) && is_digit(t[3])
        && is_digit(t[4]) && is_digit(t[5]) {
        Some(
            Version {
                major: pair_value(t[0], t[1]) as u32,
                minor: pair_value(t[2], t[3]) as u32,
                editorial: pair_value(t[4], t[5]) as u32,
            },
        )
    } else {
        None
    }
}

/// The version that a file name encodes, if any.
pub open spec fn filename_version(filename: Seq<char>) -> Option<Version> {
    token_version(version_token(filename))
}

/// A token of another length than three or six encodes no version.
pub proof fn lemma_other_lengths_encode_nothing(token: Seq<char>)
    requires
        token.len() != 3,
        token.len() != 6,
    ensures
        token_version(token).is_none(),
{
}

/// Within `chars[lo..hi]`, the index in `chars` at which the part behind the
/// last `sep` starts.
fn find_start_after_last(chars: &Vec<char>, lo: usize, hi: usize, sep: char) -> (k: usize)
    requires
        lo <= hi <= chars.len(),
    ensures
        lo <= k <= hi,
        k == lo + start_after_last(chars@.subrange(lo as int, hi as int), sep),
{
    let ghost part = chars@.subrange(lo as int, hi as int);
    let mut k: usize = hi;
    assert(part.subrange(0, hi - lo) =~= part);
    while k > lo && chars[k - 1] != sep
        invariant
            lo <= k <= hi <= chars.len(),
            part == chars@.subrange(lo as int, hi as int),
            start_after_last(part, sep) == start_after_last(part.subrange(0, k - lo), sep),
        decreases k,
    {
        proof {
            let head = part.subrange(0, k - lo);
            assert(head.last() == chars@[k - 1]);
            assert(head.drop_last() =~= part.subrange(0, k - lo - 1));
        }
        k -= 1;
    }
    proof {
        let head = part.subrange(0, k - lo);
        if k > lo {
            assert(head.last() == chars@[k - 1]);
        }
    }
    k
}

/// Two decimal digits as a number, if both are digits.
fn decimal_pair(hi: char, lo: char) -> (r: Option<u32>)
    ensures
        r.is_some() == (is_digit(hi) && is_digit(lo)),
        r matches Some(v) ==> v == pair_value(hi, lo),
{
    match (decimal_digit(hi), decimal_digit(lo)) {
        (Some(h), Some(l)) => Some(h * 10 + l),
        _ => None,
    }
}

/// The version that the token `chars[from..to]` encodes, if any.
fn decode_token(chars: &Vec<char>, from: usize, to: usize) -> (r: Option<Version>)
    requires
        from <= to <= chars.len(),
    ensures
        r == token_version(chars@.subrange(from as int, to as int)),
{
    let ghost t = chars@.subrange(from as int, to as int);
    if to - from == 3 {
        assert(t[0] == chars@[from as int] && t[1] == chars@[from + 1] && t[2] == chars@[from
            + 2]);
        match (
            base36_digit(chars[from]),
            base36_digit(chars[from + 1]),
            base36_digit(chars[from + 2]),
        ) {
            (Some(major), Some(minor), Some(editorial)) => Some(
                Version { major, minor, editorial },
            ),
            _ => None,
        }
    } else if to - from == 6 {
        assert(t[0] == chars@[from as int] && t[1] == chars@[from + 1] && t[2] == chars@[from
            + 2]);
        assert(t[3] == chars@[from + 3] && t[4] == chars@[from + 4] && t[5] == chars@[from + 5]);
        match (
            decimal_pair(chars[from], chars[from + 1]),
            decimal_pair(chars[from + 2], chars[from + 3]),
            decimal_pair(chars[from + 4], chars[from + 5]),
        ) {
            (Some(major), Some(minor), Some(editorial)) => Some(
                Version { major, minor, editorial },
            ),
            _ => None,
        }
    } else {
        None
    }
}

/// The version that the name of an archive file encodes. The directories in
/// front of the name and one trailing `.zip` do not count; the token is what
/// stands behind the last hyphen. `None` where the token encodes no version.
pub fn parse_version(filename: &str) -> (r: Option<Version>)
    ensures
        r == filename_version(filename@),
{
    let chars = chars_of(filename);
    let n: usize = chars.len();
    let base: usize = find_start_after_last(&chars, 0, n, '/');
    let ghost name = chars@.subrange(base as int, n as int);
    assert(chars@.subrange(0, n as int) =~= chars@);
    let end: usize = if n - base >= 4 && chars[n - 4] == '.' && chars[n - 3] == 'z' && chars[n
        - 2] == 'i' && chars[n - 1] == 'p' {
        n - 4
    } else {
        n
    };
    assert(chars@.subrange(base as int, end as int) =~= without_zip(name));
    let from: usize = find_start_after_last(&chars, base, end, '-');
    assert(chars@.subrange(from as int, end as int) =~= version_token(filename@));
    decode_token(&chars, from, end)
}

} // verus!
