//! Characters and character sequences: the classes the grammars are built
//! from, digit values, and surrounding white space.

use vstd::prelude::*;

verus! {

/// An ASCII decimal digit.
pub open spec fn is_digit(c: char) -> bool {
    '0' <= c <= '9'
}

/// An ASCII letter or decimal digit.
pub open spec fn is_alnum(c: char) -> bool {
    is_digit(c) || ('a' <= c <= 'z') || ('A' <= c <= 'Z')
}

/// The value of a decimal digit.
pub open spec fn digit_value(c: char) -> int
    recommends
        is_digit(c),
{
    c as int - '0' as int
}

/// The value of a base-36 digit: `0`-`9`, then the letters in either case for 10 to 35.
pub open spec fn base36_value(c: char) -> int
    recommends
        is_alnum(c),
{
    if is_digit(c) {
        c as int - '0' as int
    } else if 'a' <= c <= 'z' {
        c as int - 'a' as int + 10
    } else {
        c as int - 'A' as int + 10
    }
}

/// Every character is an ASCII letter or decimal digit.
pub open spec fn all_alnum(s: Seq<char>) -> bool {
    forall|i: int| 0 <= i < s.len() ==> is_alnum(#[trigger] s[i])
}

/// The characters of a string, one by one.
pub fn chars_of(s: &str) -> (r: Vec<char>)
    ensures
        r@ == s@,
{
    let mut v: Vec<char> = Vec::new();
    for c in it: s.chars()
        invariant
            it.seq() == s@,
            v@ == it.seq().take(it.index()),
    {
        v.push(c);
    }
    assert(v@ =~= s@);
    v
}

/// Whether `c` is an ASCII decimal digit.
pub fn char_is_digit(c: char) -> (r: bool)
    ensures
        r == is_digit(c),
{
    '0' <= c && c <= '9'
}

/// Whether `c` is an ASCII letter or decimal digit.
pub fn char_is_alnum(c: char) -> (r: bool)
    ensures
        r == is_alnum(c),
{
    char_is_digit(c) || ('a' <= c && c <= 'z') || ('A' <= c && c <= 'Z')
}

/// Whether the characters from `from` on are all letters or digits.
pub(crate) fn all_alnum_from(chars: &Vec<char>, from: usize) -> (r: bool)
    requires
        from <= chars.len(),
    ensures
        r == all_alnum(chars@.subrange(from as int, chars.len() as int)),
{
    let ghost tail = chars@.subrange(from as int, chars.len() as int);
    let mut i: usize = from;
    while i < chars.len()
        invariant
            from <= i <= chars.len(),
            tail == chars@.subrange(from as int, chars.len() as int),
            forall|j: int| 0 <= j < i - from ==> is_alnum(#[trigger] tail[j]),
        decreases chars.len() - i,
    {
        if !char_is_alnum(chars[i]) {
            assert(!is_alnum(tail[i - from]));
            return false;
        }
        i += 1;
    }
    true
}

/// The value of `c` as a decimal digit, if it is one.
pub fn decimal_digit(c: char) -> (r: Option<u32>)
    ensures
        r.is_some() == is_digit(c),
        r matches Some(v) ==> v == digit_value(c),
{
    if char_is_digit(c) {
        Some(c as u32 - '0' as u32)
    } else {
        None
    }
}

/// The value of `c` as a base-36 digit, if it is one.
pub fn base36_digit(c: char) -> (r: Option<u32>)
    ensures
        r.is_some() == is_alnum(c),
        r matches Some(v) ==> v == base36_value(c),
{
    if char_is_digit(c) {
        Some(c as u32 - '0' as u32)
    } else if 'a' <= c && c <= 'z' {
        Some(c as u32 - 'a' as u32 + 10)
    } else if 'A' <= c && c <= 'Z' {
        Some(c as u32 - 'A' as u32 + 10)
    } else {
        None
    }
}

/// A white-space character: one with the Unicode property `White_Space`.
pub open spec fn is_space(c: char) -> bool {
    ||| '\u{9}' <= c <= '\u{D}'
    ||| c == ' '
    ||| c == '\u{85}'
    ||| c == '\u{A0}'
    ||| c == '\u{1680}'
    ||| '\u{2000}' <= c <= '\u{200A}'
    ||| c == '\u{2028}'
    ||| c == '\u{2029}'
    ||| c == '\u{202F}'
    ||| c == '\u{205F}'
    ||| c == '\u{3000}'
}

/// How many white-space characters `s` starts with.
pub open spec fn leading_spaces(s: Seq<char>) -> int
    decreases s.len(),
{
    if s.len() > 0 && is_space(s[0]) {
        1 + leading_spaces(s.drop_first())
    } else {
        0
    }
}

/// How many white-space characters `s` ends with.
pub open spec fn trailing_spaces(s: Seq<char>) -> int
    decreases s.len(),
{
    if s.len() > 0 && is_space(s.last()) {
        1 + trailing_spaces(s.drop_last())
    } else {
        0
    }
}

/// `s` without the white space in front of it.
pub open spec fn trimmed_start(s: Seq<char>) -> Seq<char> {
    s.subrange(leading_spaces(s), s.len() as int)
}

/// `s` without the white space around it.
pub open spec fn trimmed(s: Seq<char>) -> Seq<char> {
    let rest = trimmed_start(s);
    rest.subrange(0, rest.len() - trailing_spaces(rest))
}

/// The white space in front of `s` lies within `s`, holds white space only,
/// and ends at the first other character.
pub proof fn lemma_leading_spaces(s: Seq<char>)
    ensures
        0 <= leading_spaces(s) <= s.len(),
        forall|i: int| 0 <= i < leading_spaces(s) ==> is_space(#[trigger] s[i]),
        leading_spaces(s) < s.len() ==> !is_space(s[leading_spaces(s)]),
    decreases s.len(),
{
    if s.len() > 0 && is_space(s[0]) {
        let rest = s.drop_first();
        lemma_leading_spaces(rest);
        assert forall|i: int| 0 <= i < leading_spaces(s) implies is_space(#[trigger] s[i]) by {
            if i > 0 {
                assert(s[i] == rest[i - 1]);
            }
        }
        if leading_spaces(s) < s.len() {
            assert(s[leading_spaces(s)] == rest[leading_spaces(rest)]);
        }
    }
}

/// The white space behind `s` lies within `s`, holds white space only, and
/// starts behind the last other character.
pub proof fn lemma_trailing_spaces(s: Seq<char>)
    ensures
        0 <= trailing_spaces(s) <= s.len(),
        forall|i: int| s.len() - trailing_spaces(s) <= i < s.len() ==> is_space(#[trigger] s[i]),
        trailing_spaces(s) < s.len() ==> !is_space(s[s.len() - trailing_spaces(s) - 1]),
    decreases s.len(),
{
    if s.len() > 0 && is_space(s.last()) {
        let rest = s.drop_last();
        lemma_trailing_spaces(rest);
        assert forall|i: int| s.len() - trailing_spaces(s) <= i < s.len() implies is_space(
            #[trigger] s[i],
        ) by {
            if i < s.len() - 1 {
                assert(s[i] == rest[i]);
            }
        }
        if trailing_spaces(s) < s.len() {
            assert(s[s.len() - trailing_spaces(s) - 1] == rest[rest.len() - trailing_spaces(rest)
                - 1]);
        }
    }
}

/// Trimming takes white space away, in front and behind, and nothing else:
/// what is left is a stretch of `s` with only white space before and after
/// it, and it neither starts nor ends with white space.
pub proof fn lemma_trimmed(s: Seq<char>)
    ensures
        ({
            let from = leading_spaces(s);
            let to = s.len() - trailing_spaces(trimmed_start(s));
            &&& 0 <= from <= to <= s.len()
            &&& trimmed(s) == s.subrange(from, to)
            &&& forall|i: int| 0 <= i < from ==> is_space(#[trigger] s[i])
            &&& forall|i: int| to <= i < s.len() ==> is_space(#[trigger] s[i])
        }),
        trimmed(s).len() > 0 ==> !is_space(trimmed(s).first()) && !is_space(trimmed(s).last()),
{
    let from = leading_spaces(s);
    let rest = trimmed_start(s);
    lemma_leading_spaces(s);
    lemma_trailing_spaces(rest);
    let to = s.len() - trailing_spaces(rest);
    assert(trimmed(s) =~= s.subrange(from, to));
    assert forall|i: int| to <= i < s.len() implies is_space(#[trigger] s[i]) by {
        assert(s[i] == rest[i - from]);
    }
    if trimmed(s).len() > 0 {
        assert(trimmed(s).first() == s[from]);
        assert(trimmed(s).last() == rest[rest.len() - trailing_spaces(rest) - 1]);
    }
}

/// Whether `c` is a white-space character.
pub fn char_is_space(c: char) -> (r: bool)
    ensures
        r == is_space(c),
{
    ('\u{9}' <= c && c <= '\u{D}') || c == ' ' || c == '\u{85}' || c == '\u{A0}' || c
        == '\u{1680}' || ('\u{2000}' <= c && c <= '\u{200A}') || c == '\u{2028}' || c
        == '\u{2029}' || c == '\u{202F}' || c == '\u{205F}' || c == '\u{3000}'
}

/// The bounds of `chars` without the white space around it.
pub fn trim_range(chars: &Vec<char>) -> (r: (usize, usize))
    ensures
        r.0 <= r.1 <= chars.len(),
        chars@.subrange(r.0 as int, r.1 as int) == trimmed(chars@),
{
    let n: usize = chars.len();
    let mut from: usize = 0;
    assert(chars@.subrange(0, n as int) =~= chars@);
    while from < n && char_is_space(chars[from])
        invariant
            from <= n == chars.len(),
            leading_spaces(chars@) == from + leading_spaces(chars@.subrange(from as int, n as int)),
        decreases n - from,
    {
        assert(chars@.subrange(from as int, n as int).drop_first() =~= chars@.subrange(
            from + 1,
            n as int,
        ));
        from += 1;
    }
    let ghost rest = chars@.subrange(from as int, n as int);
    assert(leading_spaces(rest) == 0);
    assert(rest == trimmed_start(chars@));
    let mut to: usize = n;
    assert(rest.subrange(0, n - from) =~= rest);
    while to > from && char_is_space(chars[to - 1])
        invariant
            from <= to <= n == chars.len(),
            rest == chars@.subrange(from as int, n as int),
            trailing_spaces(rest) == (n - to) + trailing_spaces(rest.subrange(0, to - from)),
        decreases to,
    {
        assert(rest.subrange(0, to - from).drop_last() =~= rest.subrange(0, to - from - 1));
        to -= 1;
    }
    assert(trailing_spaces(rest.subrange(0, to - from)) == 0) by {
        if to > from {
            assert(rest.subrange(0, to - from).last() == chars@[to - 1]);
        }
    }
    assert(chars@.subrange(from as int, to as int) =~= rest.subrange(0, to - from));
    (from, to)
}

/// `c` is `w`, or the upper-case ASCII letter of which `w` is the lower case.
pub open spec fn folds_to(c: char, w: char) -> bool {
    c == w || ('A' <= c <= 'Z' && c as int + 32 == w as int)
}

/// Whether `c` is `w` but for the case of an ASCII letter.
pub fn char_folds_to(c: char, w: char) -> (r: bool)
    ensures
        r == folds_to(c, w),
{
    c == w || ('A' <= c && c <= 'Z' && 'a' <= w && w <= 'z' && c as u32 + 32 == w as u32)
}

/// `word` stands in `text` at the position `at`, whatever the case of the ASCII letters of `text`.
pub open spec fn matches_at(text: Seq<char>, word: Seq<char>, at: int) -> bool {
    &&& 0 <= at
    &&& at + word.len() <= text.len()
    &&& forall|j: int| 0 <= j < word.len() ==> folds_to(text[at + j], #[trigger] word[j])
}

/// `word`, which is in lower case, stands somewhere in `text`, whatever the
/// case of the ASCII letters of `text`.
pub open spec fn mentions(text: Seq<char>, word: Seq<char>) -> bool {
    exists|at: int| matches_at(text, word, at)
}

/// Whether `word` stands in `text` at the position `at`.
fn matches_here(text: &Vec<char>, word: &Vec<char>, at: usize) -> (r: bool)
    requires
        at + word.len() <= text.len(),
    ensures
        r == matches_at(text@, word@, at as int),
{
    let mut j: usize = 0;
    while j < word.len()
        invariant
            j <= word.len(),
            at + word.len() <= text.len(),
            forall|k: int| 0 <= k < j ==> folds_to(text@[at + k], #[trigger] word@[k]),
        decreases word.len() - j,
    {
        if !char_folds_to(text[at + j], word[j]) {
            assert(!folds_to(text@[at + j], word@[j as int]));
            return false;
        }
        j += 1;
    }
    true
}

/// Whether `word` stands somewhere in `text`, whatever the case of the ASCII letters of `text`.
pub fn mentions_word(text: &Vec<char>, word: &Vec<char>) -> (r: bool)
    ensures
        r == mentions(text@, word@),
{
    if word.len() > text.len() {
        return false;
    }
    let last: usize = text.len() - word.len();
    let mut at: usize = 0;
    while at <= last
        invariant
            at <= last + 1,
            last == text.len() - word.len(),
            forall|k: int| 0 <= k < at ==> !matches_at(text@, word@, k),
        decreases last + 1 - at,
    {
        if matches_here(text, word, at) {
            return true;
        }
        at += 1;
    }
    false
}

/// Whether `text` starts with `prefix`.
pub fn starts_with(text: &Vec<char>, prefix: &Vec<char>) -> (r: bool)
    ensures
        r == prefix@.is_prefix_of(text@),
{
    if prefix.len() > text.len() {
        return false;
    }
    let ghost head = text@.subrange(0, prefix.len() as int);
    let mut i: usize = 0;
    while i < prefix.len()
        invariant
            i <= prefix.len() <= text.len(),
            head == text@.subrange(0, prefix.len() as int),
            forall|k: int| 0 <= k < i ==> prefix@[k] == head[k],
        decreases prefix.len() - i,
    {
        if text[i] != prefix[i] {
            assert(prefix@[i as int] != head[i as int]);
            return false;
        }
        i += 1;
    }
    assert(prefix@ =~= head);
    true
}

} // verus!
