//! Character classes and small string helpers shared by the handlers.
//!
//! The classes are those of the message patterns the bot reacts to: `\s` is the
//! Unicode `White_Space` property and `\d` the Unicode decimal digits
//! (general category `Nd`), both as of Unicode 16.0.

use vstd::prelude::*;

verus! {

/// A character with the Unicode `White_Space` property.
pub open spec fn white_space(c: char) -> bool {
    let u = c as u32;
    ||| 0x9 <= u <= 0xD
    ||| u == 0x20
    ||| u == 0x85
    ||| u == 0xA0
    ||| u == 0x1680
    ||| 0x2000 <= u <= 0x200A
    ||| u == 0x2028
    ||| u == 0x2029
    ||| u == 0x202F
    ||| u == 0x205F
    ||| u == 0x3000
}

/// Tests `white_space`.
pub fn is_white_space(c: char) -> (r: bool)
    ensures
        r == white_space(c),
{
    let u = c as u32;
    (0x9 <= u && u <= 0xD) || u == 0x20 || u == 0x85 || u == 0xA0 || u == 0x1680 || (0x2000 <= u
        && u <= 0x200A) || u == 0x2028 || u == 0x2029 || u == 0x202F || u == 0x205F || u == 0x3000
}

/// A Unicode decimal digit (general category `Nd`).
pub open spec fn decimal_digit(c: char) -> bool {
    let u = c as u32;
    ||| 0x30 <= u <= 0x39
    ||| 0x660 <= u <= 0x669
    ||| 0x6F0 <= u <= 0x6F9
    ||| 0x7C0 <= u <= 0x7C9
    ||| 0x966 <= u <= 0x96F
    ||| 0x9E6 <= u <= 0x9EF
    ||| 0xA66 <= u <= 0xA6F
    ||| 0xAE6 <= u <= 0xAEF
    ||| 0xB66 <= u <= 0xB6F
    ||| 0xBE6 <= u <= 0xBEF
    ||| 0xC66 <= u <= 0xC6F
    ||| 0xCE6 <= u <= 0xCEF
    ||| 0xD66 <= u <= 0xD6F
    ||| 0xDE6 <= u <= 0xDEF
    ||| 0xE50 <= u <= 0xE59
    ||| 0xED0 <= u <= 0xED9
    ||| 0xF20 <= u <= 0xF29
    ||| 0x1040 <= u <= 0x1049
    ||| 0x1090 <= u <= 0x1099
    ||| 0x17E0 <= u <= 0x17E9
    ||| 0x1810 <= u <= 0x1819
    ||| 0x1946 <= u <= 0x194F
    ||| 0x19D0 <= u <= 0x19D9
    ||| 0x1A80 <= u <= 0x1A89
    ||| 0x1A90 <= u <= 0x1A99
    ||| 0x1B50 <= u <= 0x1B59
    ||| 0x1BB0 <= u <= 0x1BB9
    ||| 0x1C40 <= u <= 0x1C49
    ||| 0x1C50 <= u <= 0x1C59
    ||| 0xA620 <= u <= 0xA629
    ||| 0xA8D0 <= u <= 0xA8D9
    ||| 0xA900 <= u <= 0xA909
    ||| 0xA9D0 <= u <= 0xA9D9
    ||| 0xA9F0 <= u <= 0xA9F9
    ||| 0xAA50 <= u <= 0xAA59
    ||| 0xABF0 <= u <= 0xABF9
    ||| 0xFF10 <= u <= 0xFF19
    ||| 0x104A0 <= u <= 0x104A9
    ||| 0x10D30 <= u <= 0x10D39
    ||| 0x10D40 <= u <= 0x10D49
    ||| 0x11066 <= u <= 0x1106F
    ||| 0x110F0 <= u <= 0x110F9
    ||| 0x11136 <= u <= 0x1113F
    ||| 0x111D0 <= u <= 0x111D9
    ||| 0x112F0 <= u <= 0x112F9
    ||| 0x11450 <= u <= 0x11459
    ||| 0x114D0 <= u <= 0x114D9
    ||| 0x11650 <= u <= 0x11659
    ||| 0x116C0 <= u <= 0x116C9
    ||| 0x116D0 <= u <= 0x116E3
    ||| 0x11730 <= u <= 0x11739
    ||| 0x118E0 <= u <= 0x118E9
    ||| 0x11950 <= u <= 0x11959
    ||| 0x11BF0 <= u <= 0x11BF9
    ||| 0x11C50 <= u <= 0x11C59
    ||| 0x11D50 <= u <= 0x11D59
    ||| 0x11DA0 <= u <= 0x11DA9
    ||| 0x11F50 <= u <= 0x11F59
    ||| 0x16130 <= u <= 0x16139
    ||| 0x16A60 <= u <= 0x16A69
    ||| 0x16AC0 <= u <= 0x16AC9
    ||| 0x16B50 <= u <= 0x16B59
    ||| 0x16D70 <= u <= 0x16D79
    ||| 0x1CCF0 <= u <= 0x1CCF9
    ||| 0x1D7CE <= u <= 0x1D7FF
    ||| 0x1E140 <= u <= 0x1E149
    ||| 0x1E2F0 <= u <= 0x1E2F9
    ||| 0x1E4F0 <= u <= 0x1E4F9
    ||| 0x1E5F1 <= u <= 0x1E5FA
    ||| 0x1E950 <= u <= 0x1E959
    ||| 0x1FBF0 <= u <= 0x1FBF9
}

/// Tests `decimal_digit`.
pub fn is_decimal_digit(c: char) -> (r: bool)
    ensures
        r == decimal_digit(c),
{
    let u = c as u32;
    (0x30 <= u && u <= 0x39) ||
    (0x660 <= u && u <= 0x669) ||
    (0x6F0 <= u && u <= 0x6F9) ||
    (0x7C0 <= u && u <= 0x7C9) ||
    (0x966 <= u && u <= 0x96F) ||
    (0x9E6 <= u && u <= 0x9EF) ||
    (0xA66 <= u && u <= 0xA6F) ||
    (0xAE6 <= u && u <= 0xAEF) ||
    (0xB66 <= u && u <= 0xB6F) ||
    (0xBE6 <= u && u <= 0xBEF) ||
    (0xC66 <= u && u <= 0xC6F) ||
    (0xCE6 <= u && u <= 0xCEF) ||
    (0xD66 <= u && u <= 0xD6F) ||
    (0xDE6 <= u && u <= 0xDEF) ||
    (0xE50 <= u && u <= 0xE59) ||
    (0xED0 <= u && u <= 0xED9) ||
    (0xF20 <= u && u <= 0xF29) ||
    (0x1040 <= u && u <= 0x1049) ||
    (0x1090 <= u && u <= 0x1099) ||
    (0x17E0 <= u && u <= 0x17E9) ||
    (0x1810 <= u && u <= 0x1819) ||
    (0x1946 <= u && u <= 0x194F) ||
    (0x19D0 <= u && u <= 0x19D9) ||
    (0x1A80 <= u && u <= 0x1A89) ||
    (0x1A90 <= u && u <= 0x1A99) ||
    (0x1B50 <= u && u <= 0x1B59) ||
    (0x1BB0 <= u && u <= 0x1BB9) ||
    (0x1C40 <= u && u <= 0x1C49) ||
    (0x1C50 <= u && u <= 0x1C59) ||
    (0xA620 <= u && u <= 0xA629) ||
    (0xA8D0 <= u && u <= 0xA8D9) ||
    (0xA900 <= u && u <= 0xA909) ||
    (0xA9D0 <= u && u <= 0xA9D9) ||
    (0xA9F0 <= u && u <= 0xA9F9) ||
    (0xAA50 <= u && u <= 0xAA59) ||
    (0xABF0 <= u && u <= 0xABF9) ||
    (0xFF10 <= u && u <= 0xFF19) ||
    (0x104A0 <= u && u <= 0x104A9) ||
    (0x10D30 <= u && u <= 0x10D39) ||
    (0x10D40 <= u && u <= 0x10D49) ||
    (0x11066 <= u && u <= 0x1106F) ||
    (0x110F0 <= u && u <= 0x110F9) ||
    (0x11136 <= u && u <= 0x1113F) ||
    (0x111D0 <= u && u <= 0x111D9) ||
    (0x112F0 <= u && u <= 0x112F9) ||
    (0x11450 <= u && u <= 0x11459) ||
    (0x114D0 <= u && u <= 0x114D9) ||
    (0x11650 <= u && u <= 0x11659) ||
    (0x116C0 <= u && u <= 0x116C9) ||
    (0x116D0 <= u && u <= 0x116E3) ||
    (0x11730 <= u && u <= 0x11739) ||
    (0x118E0 <= u && u <= 0x118E9) ||
    (0x11950 <= u && u <= 0x11959) ||
    (0x11BF0 <= u && u <= 0x11BF9) ||
    (0x11C50 <= u && u <= 0x11C59) ||
    (0x11D50 <= u && u <= 0x11D59) ||
    (0x11DA0 <= u && u <= 0x11DA9) ||
    (0x11F50 <= u && u <= 0x11F59) ||
    (0x16130 <= u && u <= 0x16139) ||
    (0x16A60 <= u && u <= 0x16A69) ||
    (0x16AC0 <= u && u <= 0x16AC9) ||
    (0x16B50 <= u && u <= 0x16B59) ||
    (0x16D70 <= u && u <= 0x16D79) ||
    (0x1CCF0 <= u && u <= 0x1CCF9) ||
    (0x1D7CE <= u && u <= 0x1D7FF) ||
    (0x1E140 <= u && u <= 0x1E149) ||
    (0x1E2F0 <= u && u <= 0x1E2F9) ||
    (0x1E4F0 <= u && u <= 0x1E4F9) ||
    (0x1E5F1 <= u && u <= 0x1E5FA) ||
    (0x1E950 <= u && u <= 0x1E959) ||
    (0x1FBF0 <= u && u <= 0x1FBF9)
}

/// An ASCII digit `0` to `9`.
pub open spec fn ascii_digit(c: char) -> bool {
    '0' <= c <= '9'
}

/// The value of an ASCII digit.
pub open spec fn digit_value(c: char) -> int {
    (c as u32) - ('0' as u32)
}

/// The characters of `s`, in order.
pub fn chars_of(s: &str) -> (v: Vec<char>)
    ensures
        v@ == s@,
{
    let mut v: Vec<char> = Vec::new();
    for c in it: s.chars()
        invariant
            v@ == it.seq().take(it.index() as int),
            it.seq() == s@,
    {
        v.push(c);
    }
    v
}

/// `w` occurs in `s` starting at index `i`.
pub open spec fn occurs_at(s: Seq<char>, w: Seq<char>, i: int) -> bool {
    0 <= i && i + w.len() <= s.len() && s.subrange(i, i + w.len()) == w
}

/// `w` occurs somewhere in `s`.
pub open spec fn occurs_in(s: Seq<char>, w: Seq<char>) -> bool {
    exists|i: int| occurs_at(s, w, i)
}

/// Tests `occurs_at`.
pub fn occurs_at_index(s: &Vec<char>, w: &Vec<char>, i: usize) -> (r: bool)
    ensures
        r == occurs_at(s@, w@, i as int),
{
    if i > s.len() || w.len() > s.len() - i {
        return false;
    }
    let mut k: usize = 0;
    while k < w.len()
        invariant
            i + w.len() <= s.len(),
            k <= w.len(),
            forall|j: int| 0 <= j < k ==> s@[i + j] == w@[j],
        decreases w.len() - k,
    {
        if s[i + k] != w[k] {
            assert(s@.subrange(i as int, i + w.len())[k as int] != w@[k as int]);
            return false;
        }
        k = k + 1;
    }
    assert(s@.subrange(i as int, i + w.len()) =~= w@);
    true
}

/// Tests `occurs_in`: `str::contains` on character sequences.
pub fn contains_chars(s: &Vec<char>, w: &Vec<char>) -> (r: bool)
    ensures
        r == occurs_in(s@, w@),
{
    if w.len() == 0 {
        assert(s@.subrange(0, 0) =~= w@);
        assert(occurs_at(s@, w@, 0));
        return true;
    }
    let mut i: usize = 0;
    while i < s.len()
        invariant
            w.len() > 0,
            forall|j: int| 0 <= j < i ==> !occurs_at(s@, w@, j),
        decreases s.len() - i,
    {
        if occurs_at_index(s, w, i) {
            return true;
        }
        i = i + 1;
    }
    false
}

/// Whether `s` contains the text `w`.
pub fn str_contains(s: &str, w: &str) -> (r: bool)
    ensures
        r == occurs_in(s@, w@),
{
    let sc = chars_of(s);
    let wc = chars_of(w);
    contains_chars(&sc, &wc)
}

/// `String::push`: appends one character.
#[verifier::external_body]
pub fn push_char(s: &mut String, c: char)
    ensures
        final(s)@ == old(s)@.push(c),
{
    s.push(c);
}

/// Appends `s[from..to]`.
pub fn push_range(out: &mut String, s: &Vec<char>, from: usize, to: usize)
    requires
        from <= to <= s.len(),
    ensures
        final(out)@ == old(out)@ + s@.subrange(from as int, to as int),
{
    let mut i = from;
    while i < to
        invariant
            from <= i <= to <= s.len(),
            out@ == old(out)@ + s@.subrange(from as int, i as int),
        decreases to - i,
    {
        push_char(out, s[i]);
        i = i + 1;
        assert(s@.subrange(from as int, i as int) =~= s@.subrange(from as int, (i - 1) as int).push(
            s@[i - 1],
        ));
    }
}

/// The index of the first `c` at index `i` or later.
pub open spec fn first_index_of(s: Seq<char>, c: char, i: int) -> Option<int>
    decreases s.len() - i,
{
    if 0 <= i < s.len() {
        if s[i] == c {
            Some(i)
        } else {
            first_index_of(s, c, i + 1)
        }
    } else {
        None
    }
}

/// No `c` lies between `j` and `k`.
pub proof fn lemma_no_char_before(s: Seq<char>, c: char, j: int, k: int)
    requires
        0 <= j <= k <= s.len(),
        forall|m: int| j <= m < k ==> s[m] != c,
    ensures
        first_index_of(s, c, j) == first_index_of(s, c, k),
    decreases k - j,
{
    if j < k {
        lemma_no_char_before(s, c, j + 1, k);
    }
}

/// Occurrence does not depend on position: whatever stands before and after
/// `w`, the text holds `w`.
pub proof fn law_occurs_anywhere(u: Seq<char>, w: Seq<char>, v: Seq<char>)
    ensures
        occurs_in(u + w + v, w),
{
    let s = u + w + v;
    assert(s.subrange(u.len() as int, (u.len() + w.len()) as int) =~= w);
    assert(occurs_at(s, w, u.len() as int));
}

} // verus!
