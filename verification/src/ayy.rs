//! Answers "ayy" with "lmao".
//!
//! A message matches where a word made of `a`/`A` and one or more `y`/`Y` stands at
//! the start of the text or after a white-space character, and is followed by the
//! end of the text or a white-space character: the pattern `(^|\s)[Aa][Yy]+($|\s)`.
//! Matches are found left to right and do not overlap, so the white space that ends
//! one match cannot begin the next.  The reply is the message with every match
//! replaced by its "lmao" form.

use vstd::prelude::*;
use crate::text::{white_space, is_white_space, chars_of, push_char, push_range};

verus! {

pub open spec fn is_a(c: char) -> bool {
    c == 'a' || c == 'A'
}

pub open spec fn is_y(c: char) -> bool {
    c == 'y' || c == 'Y'
}

/// The index just past the run of `y`/`Y` that starts at `i`.
pub open spec fn y_run_end(s: Seq<char>, i: int) -> int
    decreases s.len() - i,
{
    if 0 <= i < s.len() && is_y(s[i]) {
        y_run_end(s, i + 1)
    } else {
        i
    }
}

/// Where the match that starts at `p` ends, if a match starts at `p`.
///
/// At the start of the text the word may follow `^` directly; elsewhere, and at the
/// start when the text begins with white space, the match begins with one
/// white-space character.  It takes the whole run of `y`, then the end of the text
/// or one more white-space character.
pub open spec fn ayy_match_end(s: Seq<char>, p: int) -> Option<int> {
    if 0 <= p < s.len() {
        let a = if p == 0 && is_a(s[0]) {
            0
        } else if white_space(s[p]) {
            p + 1
        } else {
            -1
        };
        if 0 <= a && a + 1 < s.len() && is_a(s[a]) && is_y(s[a + 1]) {
            let j = y_run_end(s, a + 1);
            if j == s.len() {
                Some(j)
            } else if white_space(s[j]) {
                Some(j + 1)
            } else {
                None
            }
        } else {
            None
        }
    } else {
        None
    }
}

pub proof fn lemma_y_run_end(s: Seq<char>, i: int)
    requires
        0 <= i <= s.len(),
    ensures
        i <= y_run_end(s, i) <= s.len(),
        y_run_end(s, i) < s.len() ==> !is_y(s[y_run_end(s, i)]),
        forall|k: int| i <= k < y_run_end(s, i) ==> is_y(#[trigger] s[k]),
    decreases s.len() - i,
{
    if i < s.len() && is_y(s[i]) {
        lemma_y_run_end(s, i + 1);
    }
}

pub proof fn lemma_match_end_bounds(s: Seq<char>, p: int)
    ensures
        ayy_match_end(s, p) matches Some(e) ==> p + 2 <= e <= s.len(),
{
    if 0 <= p < s.len() {
        let a = if p == 0 && is_a(s[0]) {
            0
        } else if white_space(s[p]) {
            p + 1
        } else {
            -1
        };
        if 0 <= a && a + 1 < s.len() {
            lemma_y_run_end(s, a + 1);
        }
    }
}

/// The matches found by a left-to-right search that begins at `start`, as
/// `(start, end)` pairs.
pub open spec fn ayy_matches_from(s: Seq<char>, start: int) -> Seq<(int, int)>
    decreases s.len() - start,
{
    if 0 <= start < s.len() {
        match ayy_match_end(s, start) {
            Some(e) => {
                proof {
                    lemma_match_end_bounds(s, start);
                }
                seq![(start, e)] + ayy_matches_from(s, e)
            },
            None => ayy_matches_from(s, start + 1),
        }
    } else {
        Seq::empty()
    }
}

/// All matches in `s`.
pub open spec fn ayy_matches(s: Seq<char>) -> Seq<(int, int)> {
    ayy_matches_from(s, 0)
}

/// Lowercase as `char::is_lowercase` says, on the characters a match can hold:
/// `a`, `A`, `y`, `Y` and white space, of which only `a` and `y` are lowercase.
pub open spec fn lower(c: char) -> bool {
    c == 'a' || c == 'y'
}

/// Every character after the first becomes `o` or `O` by its case; a space is
/// kept and ends the word.
pub open spec fn o_tail(cs: Seq<char>) -> Seq<char>
    decreases cs.len(),
{
    if cs.len() == 0 {
        Seq::empty()
    } else if cs[0] == ' ' {
        seq![' ']
    } else {
        seq![if lower(cs[0]) { 'o' } else { 'O' }] + o_tail(cs.drop_first())
    }
}

/// The "lmao" form of one match: a leading space is kept, the first character
/// after it becomes `lma` or `LMA` by its case, the rest as `o_tail` says.
pub open spec fn lmao_word(m: Seq<char>) -> Seq<char> {
    let spaced = m.len() > 0 && m[0] == ' ';
    let lead = if spaced { seq![' '] } else { Seq::empty() };
    let body = if spaced { m.drop_first() } else { m };
    lead + (if lower(body[0]) { seq!['l', 'm', 'a'] } else { seq!['L', 'M', 'A'] }) + o_tail(
        body.drop_first(),
    )
}

/// The text from `from` on, with the matches `ms` (which lie after `from`, in
/// order) replaced by their "lmao" forms.
pub open spec fn ayy_splice(s: Seq<char>, ms: Seq<(int, int)>, from: int) -> Seq<char>
    decreases ms.len(),
{
    if ms.len() == 0 {
        s.subrange(from, s.len() as int)
    } else {
        s.subrange(from, ms[0].0) + lmao_word(s.subrange(ms[0].0, ms[0].1)) + ayy_splice(
            s,
            ms.drop_first(),
            ms[0].1,
        )
    }
}

/// The reply to a message with text `s`.
pub open spec fn ayy_reply(s: Seq<char>) -> Seq<char> {
    ayy_splice(s, ayy_matches(s), 0)
}

/// Answers every "ayy" in a message.
pub struct AyyHandler;

/// Where the match that starts at `p` ends, if one starts there.
fn match_end(s: &Vec<char>, p: usize) -> (r: Option<usize>)
    requires
        p < s.len(),
    ensures
        match r {
            Some(e) => ayy_match_end(s@, p as int) == Some(e as int),
            None => ayy_match_end(s@, p as int) is None,
        },
{
    let len = s.len();
    let a: usize;
    if p == 0 && (s[0] == 'a' || s[0] == 'A') {
        a = 0;
    } else if is_white_space(s[p]) {
        a = p + 1;
    } else {
        return None;
    }
    if a >= len - 1 {
        return None;
    }
    if !((s[a] == 'a' || s[a] == 'A') && (s[a + 1] == 'y' || s[a + 1] == 'Y')) {
        return None;
    }
    let mut j = a + 1;
    while j < len && (s[j] == 'y' || s[j] == 'Y')
        invariant
            len == s.len(),
            a + 1 <= j <= len,
            y_run_end(s@, a + 1) == y_run_end(s@, j as int),
        decreases len - j,
    {
        j = j + 1;
    }
    if j == len {
        Some(j)
    } else if is_white_space(s[j]) {
        Some(j + 1)
    } else {
        None
    }
}

/// Appends the "lmao" form of the match `s[start..end]`.
fn push_lmao_word(out: &mut String, s: &Vec<char>, start: usize, end: usize)
    requires
        ayy_match_end(s@, start as int) == Some(end as int),
    ensures
        final(out)@ == old(out)@ + lmao_word(s@.subrange(start as int, end as int)),
{
    proof {
        lemma_match_end_bounds(s@, start as int);
    }
    let ghost m = s@.subrange(start as int, end as int);
    let ghost target = old(out)@ + lmao_word(m);
    let mut i = start;
    if s[i] == ' ' {
        push_char(out, ' ');
        i = i + 1;
    }
    // a match holds a character after its leading space
    assert(i < end);
    let first = s[i];
    if first == 'a' || first == 'y' {
        push_char(out, 'l');
        push_char(out, 'm');
        push_char(out, 'a');
    } else {
        push_char(out, 'L');
        push_char(out, 'M');
        push_char(out, 'A');
    }
    i = i + 1;
    assert(s@.subrange(i as int, end as int) =~= (if m[0] == ' ' {
        m.drop_first()
    } else {
        m
    }).drop_first());
    while i < end
        invariant
            start < i <= end <= s.len(),
            out@ + o_tail(s@.subrange(i as int, end as int)) == target,
        decreases end - i,
    {
        let c = s[i];
        let ghost rest = s@.subrange(i as int, end as int);
        assert(rest[0] == c);
        if c == ' ' {
            push_char(out, ' ');
            i = end;
            assert(s@.subrange(i as int, end as int) =~= Seq::<char>::empty());
        } else {
            if c == 'a' || c == 'y' {
                push_char(out, 'o');
            } else {
                push_char(out, 'O');
            }
            i = i + 1;
            assert(rest.drop_first() =~= s@.subrange(i as int, end as int));
        }
    }
    assert(s@.subrange(i as int, end as int) =~= Seq::<char>::empty());
}

impl AyyHandler {
    /// The reply to a message, if it gets one: a message from a bot gets none, nor
    /// does one without a match; any other gets `ayy_reply` of its text.
    pub fn message(&self, author_is_bot: bool, content: &str) -> (reply: Option<String>)
        ensures
            reply is Some <==> !author_is_bot && ayy_matches(content@).len() > 0,
            reply matches Some(text) ==> text@ == ayy_reply(content@),
    {
        if author_is_bot {
            return None;
        }
        let s = chars_of(content);
        let len = s.len();
        let mut out = String::new();
        let mut found = false;
        let mut i: usize = 0;
        let mut last: usize = 0;
        while i < len
            invariant
                len == s.len(),
                s@ == content@,
                last <= i <= len,
                out@ + ayy_splice(s@, ayy_matches_from(s@, i as int), last as int) == ayy_reply(
                    s@,
                ),
                (ayy_matches(s@).len() > 0) == (found || ayy_matches_from(s@, i as int).len()
                    > 0),
            decreases len - i,
        {
            match match_end(&s, i) {
                Some(e) => {
                    proof {
                        lemma_match_end_bounds(s@, i as int);
                        let ms = ayy_matches_from(s@, i as int);
                        assert(ms == seq![(i as int, e as int)] + ayy_matches_from(s@, e as int));
                        assert(ms[0] == (i as int, e as int));
                        assert(ms.drop_first() =~= ayy_matches_from(s@, e as int));
                    }
                    push_range(&mut out, &s, last, i);
                    push_lmao_word(&mut out, &s, i, e);
                    found = true;
                    last = e;
                    i = e;
                },
                None => {
                    i = i + 1;
                },
            }
        }
        if !found {
            return None;
        }
        push_range(&mut out, &s, last, len);
        Some(out)
    }
}

/// `k` copies of `c`.
pub open spec fn repeat(c: char, k: nat) -> Seq<char> {
    Seq::new(k, |i: int| c)
}

proof fn lemma_y_run_to_end(s: Seq<char>, i: int)
    requires
        0 <= i <= s.len(),
        forall|m: int| i <= m < s.len() ==> is_y(#[trigger] s[m]),
    ensures
        y_run_end(s, i) == s.len(),
    decreases s.len() - i,
{
    if i < s.len() {
        lemma_y_run_to_end(s, i + 1);
    }
}

proof fn lemma_o_tail_of_ys(k: nat)
    ensures
        o_tail(repeat('y', k)) == repeat('o', k),
    decreases k,
{
    if k > 0 {
        lemma_o_tail_of_ys((k - 1) as nat);
        assert(repeat('y', k).drop_first() =~= repeat('y', (k - 1) as nat));
        assert(repeat('o', k) =~= seq!['o'] + repeat('o', (k - 1) as nat));
    }
}

/// A message that is just `a` followed by one or more `y` is answered with `lma`
/// followed by as many `o`: "ayy" becomes "lmaoo".
pub proof fn law_lone_ayy(k: nat)
    requires
        k >= 1,
    ensures
        ayy_matches(seq!['a'] + repeat('y', k)) == seq![(0int, (k + 1) as int)],
        ayy_reply(seq!['a'] + repeat('y', k)) == seq!['l', 'm', 'a'] + repeat('o', k),
{
    let s = seq!['a'] + repeat('y', k);
    assert(s[1] == 'y');
    assert forall|m: int| 1 <= m < s.len() implies is_y(#[trigger] s[m]) by {
        assert(s[m] == repeat('y', k)[m - 1]);
    }
    lemma_y_run_to_end(s, 1);
    assert(ayy_match_end(s, 0) == Some(s.len() as int));
    assert(ayy_matches_from(s, s.len() as int) == Seq::<(int, int)>::empty());
    assert(ayy_matches(s) =~= seq![(0int, (k + 1) as int)]);
    let ms = ayy_matches(s);
    assert(ms.drop_first() =~= Seq::<(int, int)>::empty());
    assert(s.subrange(0, (k + 1) as int) =~= s);
    assert(s.drop_first() =~= repeat('y', k));
    lemma_o_tail_of_ys(k);
    assert(s.subrange(0, 0) =~= Seq::<char>::empty());
    assert(s.subrange((k + 1) as int, s.len() as int) =~= Seq::<char>::empty());
    assert(ayy_splice(s, ms.drop_first(), (k + 1) as int) == s.subrange((k + 1) as int, s.len() as int));
    assert(ayy_reply(s) =~= seq!['l', 'm', 'a'] + repeat('o', k));
}

/// `b` written `m` times.
pub open spec fn rep(b: Seq<char>, m: nat) -> Seq<char>
    decreases m,
{
    if m == 0 {
        Seq::empty()
    } else {
        b + rep(b, (m - 1) as nat)
    }
}

/// "ayy" followed by `m` more "ayy", each after two spaces.
pub open spec fn ayy_words(m: nat) -> Seq<char> {
    seq!['a', 'y', 'y'] + rep(seq![' ', ' ', 'a', 'y', 'y'], m)
}

/// "lmaoo" followed by `m` more "lmaoo", each after two spaces.
pub open spec fn lmaoo_words(m: nat) -> Seq<char> {
    seq!['l', 'm', 'a', 'o', 'o'] + rep(seq![' ', ' ', 'l', 'm', 'a', 'o', 'o'], m)
}

proof fn lemma_rep(b: Seq<char>, m: nat, j: int, c: int)
    requires
        b.len() == 5,
        0 <= j < m,
        0 <= c < 5,
    ensures
        rep(b, m).len() == 5 * m,
        rep(b, m)[5 * j + c] == b[c],
    decreases m,
{
    lemma_rep_len(b, m);
    lemma_rep_len(b, (m - 1) as nat);
    assert(rep(b, m) == b + rep(b, (m - 1) as nat));
    if j > 0 {
        lemma_rep(b, (m - 1) as nat, j - 1, c);
    }
}

proof fn lemma_rep_len(b: Seq<char>, m: nat)
    requires
        b.len() == 5,
    ensures
        rep(b, m).len() == 5 * m,
    decreases m,
{
    if m > 0 {
        lemma_rep_len(b, (m - 1) as nat);
    }
}

/// The characters of `ayy_words(m)`.
proof fn lemma_ayy_words(m: nat, j: int)
    requires
        0 <= j < m,
    ensures
        ayy_words(m).len() == 3 + 5 * m,
        ayy_words(m)[3 + 5 * j] == ' ',
        ayy_words(m)[4 + 5 * j] == ' ',
        ayy_words(m)[5 + 5 * j] == 'a',
        ayy_words(m)[6 + 5 * j] == 'y',
        ayy_words(m)[7 + 5 * j] == 'y',
{
    let b = seq![' ', ' ', 'a', 'y', 'y'];
    lemma_rep(b, m, j, 0);
    lemma_rep(b, m, j, 1);
    lemma_rep(b, m, j, 2);
    lemma_rep(b, m, j, 3);
    lemma_rep(b, m, j, 4);
}

proof fn lemma_lmao_words()
    ensures
        lmao_word(seq!['a', 'y', 'y']) == seq!['l', 'm', 'a', 'o', 'o'],
        lmao_word(seq!['a', 'y', 'y', ' ']) == seq!['l', 'm', 'a', 'o', 'o', ' '],
        lmao_word(seq![' ', 'a', 'y', 'y']) == seq![' ', 'l', 'm', 'a', 'o', 'o'],
        lmao_word(seq![' ', 'a', 'y', 'y', ' ']) == seq![' ', 'l', 'm', 'a', 'o', 'o', ' '],
{
    let t0 = seq!['y', 'y'];
    let t1 = seq!['y', 'y', ' '];
    assert(t0.drop_first() =~= seq!['y']);
    assert(seq!['y'].drop_first() =~= Seq::<char>::empty());
    assert(o_tail(Seq::<char>::empty()) == Seq::<char>::empty());
    assert(seq![' '].drop_first() =~= Seq::<char>::empty());
    assert(o_tail(seq!['y']) =~= seq!['o']);
    assert(o_tail(t0) =~= seq!['o', 'o']);
    assert(t1.drop_first() =~= seq!['y', ' ']);
    assert(seq!['y', ' '].drop_first() =~= seq![' ']);
    assert(o_tail(seq![' ']) =~= seq![' ']);
    assert(o_tail(seq!['y', ' ']) =~= seq!['o', ' ']);
    assert(o_tail(t1) =~= seq!['o', 'o', ' ']);
    assert(seq!['a', 'y', 'y'].drop_first() =~= t0);
    assert(seq!['a', 'y', 'y', ' '].drop_first() =~= t1);
    assert(seq![' ', 'a', 'y', 'y'].drop_first() =~= seq!['a', 'y', 'y']);
    assert(seq![' ', 'a', 'y', 'y', ' '].drop_first() =~= seq!['a', 'y', 'y', ' ']);
    assert(lmao_word(seq!['a', 'y', 'y']) =~= seq!['l', 'm', 'a', 'o', 'o']);
    assert(lmao_word(seq!['a', 'y', 'y', ' ']) =~= seq!['l', 'm', 'a', 'o', 'o', ' ']);
    assert(lmao_word(seq![' ', 'a', 'y', 'y']) =~= seq![' ', 'l', 'm', 'a', 'o', 'o']);
    assert(lmao_word(seq![' ', 'a', 'y', 'y', ' ']) =~= seq![' ', 'l', 'm', 'a', 'o', 'o', ' ']);
}

/// From the second space before word `j + 1` on, the search finds every word
/// left and the reply of that part is " lmaoo" followed by the rest.
proof fn lemma_ayy_words_from(m: nat, j: int)
    requires
        0 <= j < m,
    ensures
        ayy_matches_from(ayy_words(m), 5 * j + 4).len() == m - j,
        ayy_splice(ayy_words(m), ayy_matches_from(ayy_words(m), 5 * j + 4), 5 * j + 4) == seq![
            ' ',
            'l',
            'm',
            'a',
            'o',
            'o',
        ] + rep(seq![' ', ' ', 'l', 'm', 'a', 'o', 'o'], (m - 1 - j) as nat),
    decreases m - j,
{
    let s = ayy_words(m);
    let q = 5 * j + 4;
    let lb = seq![' ', ' ', 'l', 'm', 'a', 'o', 'o'];
    lemma_ayy_words(m, j);
    lemma_lmao_words();
    assert(white_space(s[q]));
    assert(y_run_end(s, q + 4) == q + 4) by {
        if j + 1 < m {
            lemma_ayy_words(m, j + 1);
        }
    }
    assert(y_run_end(s, q + 3) == q + 4);
    assert(y_run_end(s, q + 2) == q + 4);
    let ms = ayy_matches_from(s, q);
    if j + 1 == m {
        assert(ayy_match_end(s, q) == Some(q + 4));
        assert(ayy_matches_from(s, q + 4) == Seq::<(int, int)>::empty());
        assert(ms =~= seq![(q, q + 4)]);
        assert(ms.drop_first() =~= Seq::<(int, int)>::empty());
        assert(s.subrange(q, q + 4) =~= seq![' ', 'a', 'y', 'y']);
        assert(s.subrange(q, q) =~= Seq::<char>::empty());
        assert(s.subrange(q + 4, s.len() as int) =~= Seq::<char>::empty());
        assert(rep(lb, 0) =~= Seq::<char>::empty());
        assert(ms[0] == (q, q + 4));
        assert(ayy_splice(s, ms.drop_first(), q + 4) == s.subrange(q + 4, s.len() as int));
        assert(ayy_splice(s, ms, q) == s.subrange(q, q) + lmao_word(s.subrange(q, q + 4))
            + ayy_splice(s, ms.drop_first(), q + 4));
        assert(ayy_splice(s, ms, q) =~= seq![' ', 'l', 'm', 'a', 'o', 'o'] + rep(lb, 0));
    } else {
        lemma_ayy_words(m, j + 1);
        assert(ayy_match_end(s, q) == Some(q + 5));
        lemma_ayy_words_from(m, j + 1);
        assert(5 * (j + 1) + 4 == q + 5);
        assert(ms == seq![(q, q + 5)] + ayy_matches_from(s, q + 5));
        assert(ms.drop_first() =~= ayy_matches_from(s, q + 5));
        assert(s.subrange(q, q + 5) =~= seq![' ', 'a', 'y', 'y', ' ']);
        assert(s.subrange(q, q) =~= Seq::<char>::empty());
        let rest = rep(lb, (m - 2 - j) as nat);
        assert(rep(lb, (m - 1 - j) as nat) == lb + rest);
        assert(ayy_splice(s, ms, q) =~= seq![' ', 'l', 'm', 'a', 'o', 'o'] + (lb + rest));
    }
}

/// Every "ayy" that the search reaches is answered, however many there are: a
/// message of `m + 1` words "ayy" separated by two spaces has `m + 1` matches
/// and is answered with `m + 1` words "lmaoo" separated by two spaces.
pub proof fn law_every_ayy_answered(m: nat)
    ensures
        ayy_matches(ayy_words(m)).len() == m + 1,
        ayy_reply(ayy_words(m)) == lmaoo_words(m),
{
    let s = ayy_words(m);
    let lb = seq![' ', ' ', 'l', 'm', 'a', 'o', 'o'];
    lemma_lmao_words();
    lemma_rep_len(seq![' ', ' ', 'a', 'y', 'y'], m);
    assert(s[0] == 'a' && s[1] == 'y' && s[2] == 'y');
    let ms = ayy_matches(s);
    assert(s.subrange(0, 0) =~= Seq::<char>::empty());
    if m == 0 {
        assert(y_run_end(s, 3) == 3);
        assert(y_run_end(s, 2) == 3);
        assert(y_run_end(s, 1) == 3);
        assert(ayy_match_end(s, 0) == Some(3int));
        assert(ayy_matches_from(s, 3) == Seq::<(int, int)>::empty());
        assert(ms =~= seq![(0int, 3int)]);
        assert(ms.drop_first() =~= Seq::<(int, int)>::empty());
        assert(s.subrange(0, 3) =~= seq!['a', 'y', 'y']);
        assert(s.subrange(3, 3) =~= Seq::<char>::empty());
        assert(rep(lb, 0) =~= Seq::<char>::empty());
        assert(ms[0] == (0int, 3int));
        assert(ayy_splice(s, ms.drop_first(), 3) == s.subrange(3, s.len() as int));
        assert(ayy_reply(s) == s.subrange(0, 0) + lmao_word(s.subrange(0, 3)) + ayy_splice(
            s,
            ms.drop_first(),
            3,
        ));
        assert(ayy_reply(s) =~= lmaoo_words(m));
    } else {
        lemma_ayy_words(m, 0);
        assert(y_run_end(s, 3) == 3);
        assert(y_run_end(s, 2) == 3);
        assert(y_run_end(s, 1) == 3);
        assert(ayy_match_end(s, 0) == Some(4int));
        lemma_ayy_words_from(m, 0);
        assert(ms == seq![(0int, 4int)] + ayy_matches_from(s, 4));
        assert(ms.drop_first() =~= ayy_matches_from(s, 4));
        assert(s.subrange(0, 4) =~= seq!['a', 'y', 'y', ' ']);
        let rest = rep(lb, (m - 1) as nat);
        assert(rep(lb, m) == lb + rest);
        assert(ayy_reply(s) =~= lmaoo_words(m));
    }
}

} // verus!

