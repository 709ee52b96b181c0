//! The `/process-fest-in-fax-machine` command: announces a Splatfest from the
//! festival data file.
//!
//! The file is a BYAML document.  Its root dictionary holds `Teams`, an array of
//! team dictionaries (each with a `Color` of comma-separated numbers and a `Name`
//! dictionary whose `EUen` entry is the English name), and `Time`, a dictionary
//! whose `Start` and `End` are RFC 3339 times.  The announcement names the first
//! two teams and shows when the fest starts and ends.

use vstd::prelude::*;
use crate::text::{
    ascii_digit, chars_of, push_char, push_range, first_index_of, lemma_no_char_before,
};
use crate::message::{
    CommandRegistration, CommandSpec, CommandOption, EmbedField, registered, options_view,
    fields_view, embed_field, push_field,
};

verus! {

// ---------------------------------------------------------------------------
// The document
// ---------------------------------------------------------------------------
/// A node of a BYAML document, as far as the announcement reads it.
pub enum FestNode {
    /// A dictionary, its entries in the document's order.
    Dictionary(Vec<(String, FestNode)>),
    /// An array; an item that could not be read is `None`.
    Array(Vec<Option<FestNode>>),
    /// A string.
    Text(String),
    /// Any other kind of node.
    Other,
}

/// The value of the first entry named `key`.
pub open spec fn dict_find(entries: Seq<(String, FestNode)>, key: Seq<char>) -> Option<FestNode>
    decreases entries.len(),
{
    if entries.len() == 0 {
        None
    } else if entries[0].0@ == key {
        Some(entries[0].1)
    } else {
        dict_find(entries.drop_first(), key)
    }
}

/// The text of a string node.
pub open spec fn text_of(node: Option<FestNode>) -> Option<Seq<char>> {
    match node {
        Some(FestNode::Text(t)) => Some(t@),
        _ => None,
    }
}

/// The items of an array that could be read, in order.
pub open spec fn present(items: Seq<Option<FestNode>>) -> Seq<FestNode>
    decreases items.len(),
{
    if items.len() == 0 {
        Seq::empty()
    } else {
        match items[0] {
            Some(n) => seq![n] + present(items.drop_first()),
            None => present(items.drop_first()),
        }
    }
}

/// The value of the first entry named `key`.
fn find_entry<'a>(entries: &'a Vec<(String, FestNode)>, key: &str) -> (r: Option<&'a FestNode>)
    ensures
        match r {
            Some(n) => dict_find(entries@, key@) == Some(*n),
            None => dict_find(entries@, key@) is None,
        },
{
    let k = chars_of(key);
    let mut i: usize = 0;
    assert(entries@.skip(0) =~= entries@);
    while i < entries.len()
        invariant
            i <= entries@.len(),
            k@ == key@,
            dict_find(entries@, key@) == dict_find(entries@.skip(i as int), key@),
        decreases entries.len() - i,
    {
        assert(entries@.skip(i as int).drop_first() =~= entries@.skip(i + 1));
        let name = chars_of(entries[i].0.as_str());
        if same_chars(&name, &k) {
            return Some(&entries[i].1);
        }
        i = i + 1;
    }
    assert(entries@.skip(i as int) =~= Seq::<(String, FestNode)>::empty());
    None
}

/// Whether two character sequences are equal.
fn same_chars(a: &Vec<char>, b: &Vec<char>) -> (r: bool)
    ensures
        r == (a@ == b@),
{
    if a.len() != b.len() {
        return false;
    }
    let mut i: usize = 0;
    while i < a.len()
        invariant
            a.len() == b.len(),
            i <= a.len(),
            forall|j: int| 0 <= j < i ==> a@[j] == b@[j],
        decreases a.len() - i,
    {
        if a[i] != b[i] {
            return false;
        }
        i = i + 1;
    }
    assert(a@ =~= b@);
    true
}

// ---------------------------------------------------------------------------
// Numbers as `f32::from_str` reads them
// ---------------------------------------------------------------------------
/// The parts of `s` between the characters `c`, as `str::split` gives them.
pub open spec fn split_on(s: Seq<char>, c: char) -> Seq<Seq<char>>
    decreases s.len(),
{
    match first_index_of(s, c, 0) {
        Some(i) => {
            proof {
                lemma_first_index_bounds(s, c, 0);
            }
            seq![s.take(i)] + split_on(s.skip(i + 1), c)
        },
        None => seq![s],
    }
}

pub proof fn lemma_first_index_bounds(s: Seq<char>, c: char, i: int)
    requires
        0 <= i,
    ensures
        first_index_of(s, c, i) matches Some(k) ==> i <= k < s.len() && s[k] == c && forall|m: int|
            i <= m < k ==> s[m] != c,
        first_index_of(s, c, i) is None ==> forall|m: int| i <= m < s.len() ==> s[m] != c,
    decreases s.len() - i,
{
    if i < s.len() && s[i] != c {
        lemma_first_index_bounds(s, c, i + 1);
    }
}

/// The index just past the run of ASCII digits that starts at `i`.
pub open spec fn digit_run_end(s: Seq<char>, i: int) -> int
    decreases s.len() - i,
{
    if 0 <= i < s.len() && ascii_digit(s[i]) {
        digit_run_end(s, i + 1)
    } else {
        i
    }
}

/// `s` is `lower` or `upper` letter by letter, which gives its case-insensitive
/// spelling.
pub open spec fn spelled(s: Seq<char>, lower: Seq<char>, upper: Seq<char>) -> bool {
    &&& s.len() == lower.len()
    &&& upper.len() == lower.len()
    &&& forall|i: int| 0 <= i < s.len() ==> s[i] == lower[i] || s[i] == upper[i]
}

/// The length of the sign that `s` begins with.
pub open spec fn sign_len(s: Seq<char>, i: int) -> int {
    if 0 <= i < s.len() && (s[i] == '+' || s[i] == '-') {
        1
    } else {
        0
    }
}

/// The exponent `e`, an optional sign and one or more digits runs from `i` to
/// the end of `s`.
pub open spec fn exponent_at(s: Seq<char>, i: int) -> bool {
    let k = i + 1 + sign_len(s, i + 1);
    &&& 0 <= i < s.len()
    &&& (s[i] == 'e' || s[i] == 'E')
    &&& k < s.len()
    &&& digit_run_end(s, k) == s.len()
}

/// From `st` to the end, `s` is a decimal number: digits, a point and digits
/// (with at least one digit on either side of the point, or digits alone), and
/// an optional exponent.
pub open spec fn number_at(s: Seq<char>, st: int) -> bool {
    let i1 = digit_run_end(s, st);
    let point = i1 < s.len() && s[i1] == '.';
    let i2 = if point {
        digit_run_end(s, i1 + 1)
    } else {
        i1
    };
    &&& (i1 > st || (point && i2 > i1 + 1))
    &&& (i2 == s.len() || exponent_at(s, i2))
}

/// `s` is read as a number by `f32::from_str`: an optional sign followed by
/// `inf`, `infinity` or `nan` in any case, or by a decimal number.
pub open spec fn float_text(s: Seq<char>) -> bool {
    let st = sign_len(s, 0);
    let b = s.skip(st);
    ||| spelled(b, "inf"@, "INF"@)
    ||| spelled(b, "infinity"@, "INFINITY"@)
    ||| spelled(b, "nan"@, "NAN"@)
    ||| number_at(s, st)
}

/// The parts that read as numbers, in order.
pub open spec fn float_parts(parts: Seq<Seq<char>>) -> Seq<Seq<char>>
    decreases parts.len(),
{
    if parts.len() == 0 {
        Seq::empty()
    } else if float_text(parts[0]) {
        seq![parts[0]] + float_parts(parts.drop_first())
    } else {
        float_parts(parts.drop_first())
    }
}

fn is_ascii_digit(c: char) -> (r: bool)
    ensures
        r == ascii_digit(c),
{
    '0' <= c && c <= '9'
}

/// The end of the digit run at `i`.
fn digit_run(s: &Vec<char>, i: usize) -> (r: usize)
    requires
        i <= s.len(),
    ensures
        r == digit_run_end(s@, i as int),
        i <= r <= s.len(),
{
    let mut j = i;
    while j < s.len() && is_ascii_digit(s[j])
        invariant
            i <= j <= s.len(),
            digit_run_end(s@, i as int) == digit_run_end(s@, j as int),
        decreases s.len() - j,
    {
        j = j + 1;
    }
    j
}

/// Tests `spelled` on `s[from..]`.
fn spelled_from(s: &Vec<char>, from: usize, lower: &str, upper: &str) -> (r: bool)
    requires
        from <= s.len(),
    ensures
        r == spelled(s@.skip(from as int), lower@, upper@),
{
    let lo = chars_of(lower);
    let up = chars_of(upper);
    let ghost b = s@.skip(from as int);
    if s.len() - from != lo.len() || up.len() != lo.len() {
        return false;
    }
    let mut i: usize = 0;
    while i < lo.len()
        invariant
            i <= lo.len(),
            s.len() - from == lo.len(),
            up.len() == lo.len(),
            lo@ == lower@,
            up@ == upper@,
            b == s@.skip(from as int),
            forall|j: int| 0 <= j < i ==> b[j] == lo@[j] || b[j] == up@[j],
        decreases lo.len() - i,
    {
        let c = s[from + i];
        if c != lo[i] && c != up[i] {
            assert(b[i as int] == c);
            return false;
        }
        i = i + 1;
    }
    true
}

/// Tests `float_text`.
pub fn is_float_text(s: &Vec<char>) -> (r: bool)
    ensures
        r == float_text(s@),
{
    let n = s.len();
    let st: usize = if n > 0 && (s[0] == '+' || s[0] == '-') {
        1
    } else {
        0
    };
    if spelled_from(s, st, "inf", "INF") || spelled_from(s, st, "infinity", "INFINITY")
        || spelled_from(s, st, "nan", "NAN") {
        return true;
    }
    let i1 = digit_run(s, st);
    let point = i1 < n && s[i1] == '.';
    let i2 = if point {
        digit_run(s, i1 + 1)
    } else {
        i1
    };
    if !(i1 > st || (point && i2 > i1 + 1)) {
        return false;
    }
    if i2 == n {
        return true;
    }
    if !(s[i2] == 'e' || s[i2] == 'E') {
        return false;
    }
    let k = if i2 + 1 < n && (s[i2 + 1] == '+' || s[i2 + 1] == '-') {
        i2 + 2
    } else {
        i2 + 1
    };
    if k >= n {
        return false;
    }
    digit_run(s, k) == n
}

/// A list of strings, each by its view.
pub open spec fn strings_view(v: Seq<String>) -> Seq<Seq<char>> {
    v.map_values(|s: String| s@)
}

/// A list of character vectors, each by its view.
pub open spec fn char_vecs_view(v: Seq<Vec<char>>) -> Seq<Seq<char>> {
    v.map_values(|s: Vec<char>| s@)
}

/// Copies `s[from..to]`.
fn slice_chars(s: &Vec<char>, from: usize, to: usize) -> (r: Vec<char>)
    requires
        from <= to <= s.len(),
    ensures
        r@ == s@.subrange(from as int, to as int),
{
    let mut r: Vec<char> = Vec::new();
    let mut i = from;
    while i < to
        invariant
            from <= i <= to <= s.len(),
            r@ == s@.subrange(from as int, i as int),
        decreases to - i,
    {
        r.push(s[i]);
        i = i + 1;
        assert(r@ =~= s@.subrange(from as int, i as int));
    }
    r
}

/// The parts of `s` between commas.
fn split_commas(s: &Vec<char>) -> (r: Vec<Vec<char>>)
    ensures
        char_vecs_view(r@) == split_on(s@, ','),
{
    let mut parts: Vec<Vec<char>> = Vec::new();
    let mut start: usize = 0;
    let mut j: usize = 0;
    assert(s@.skip(0) =~= s@);
    assert(char_vecs_view(parts@) =~= Seq::<Seq<char>>::empty());
    while j < s.len()
        invariant
            start <= j <= s.len(),
            char_vecs_view(parts@) + split_on(s@.skip(start as int), ',') == split_on(s@, ','),
            forall|m: int| start <= m < j ==> s@[m] != ',',
        decreases s.len() - j,
    {
        if s[j] == ',' {
            let ghost t = s@.skip(start as int);
            proof {
                assert forall|m: int| 0 <= m < j - start implies t[m] != ',' by {
                    assert(t[m] == s@[start + m]);
                }
                lemma_no_char_before(t, ',', 0, j - start);
                assert(t[j - start] == ',');
                assert(first_index_of(t, ',', 0) == Some((j - start) as int));
                assert(t.take(j - start) =~= s@.subrange(start as int, j as int));
                assert(t.skip(j - start + 1) =~= s@.skip(j + 1));
            }
            let part = slice_chars(s, start, j);
            let ghost before = char_vecs_view(parts@);
            parts.push(part);
            assert(char_vecs_view(parts@) =~= before.push(s@.subrange(start as int, j as int)));
            start = j + 1;
        }
        j = j + 1;
    }
    let ghost t = s@.skip(start as int);
    proof {
        assert forall|m: int| 0 <= m < t.len() implies t[m] != ',' by {
            assert(t[m] == s@[start + m]);
        }
        lemma_no_char_before(t, ',', 0, t.len() as int);
        assert(split_on(t, ',') == seq![t]);
    }
    let part = slice_chars(s, start, s.len());
    assert(part@ =~= t);
    let ghost before = char_vecs_view(parts@);
    parts.push(part);
    assert(char_vecs_view(parts@) =~= before.push(t));
    parts
}

/// The parts of `s` between commas that read as numbers.
fn float_components(s: &Vec<char>) -> (r: Vec<String>)
    ensures
        strings_view(r@) == float_parts(split_on(s@, ',')),
{
    let parts = split_commas(s);
    let ghost pv = char_vecs_view(parts@);
    let mut out: Vec<String> = Vec::new();
    let mut i: usize = 0;
    assert(pv.skip(0) =~= pv);
    assert(strings_view(out@) =~= Seq::<Seq<char>>::empty());
    while i < parts.len()
        invariant
            i <= parts@.len(),
            pv == char_vecs_view(parts@),
            pv == split_on(s@, ','),
            strings_view(out@) + float_parts(pv.skip(i as int)) == float_parts(pv),
        decreases parts.len() - i,
    {
        assert(pv.skip(i as int).drop_first() =~= pv.skip(i + 1));
        assert(pv.skip(i as int)[0] == parts@[i as int]@);
        if is_float_text(&parts[i]) {
            let mut text = String::new();
            push_range(&mut text, &parts[i], 0, parts[i].len());
            assert(parts@[i as int]@.subrange(0, parts@[i as int]@.len() as int) =~= parts@[i as int]@);
            let ghost before = strings_view(out@);
            out.push(text);
            assert(strings_view(out@) =~= before.push(pv[i as int]));
        }
        i = i + 1;
    }
    assert(pv.skip(i as int) =~= Seq::<Seq<char>>::empty());
    out
}

// ---------------------------------------------------------------------------
// Teams
// ---------------------------------------------------------------------------
/// What the announcement knows of a team: its English name, and the parts of its
/// colour that read as numbers (four of them).
pub struct TeamData {
    pub name: String,
    pub color: Vec<String>,
}

/// The team a node describes, as its name and its colour parts: the node is a
/// dictionary whose `Color` is a string of which exactly four comma-separated
/// parts read as numbers, and whose `Name` is a dictionary with a string `EUen`.
pub open spec fn team_data(node: FestNode) -> Option<(Seq<char>, Seq<Seq<char>>)> {
    match node {
        FestNode::Dictionary(d) => match dict_find(d@, "Color"@) {
            Some(FestNode::Text(color)) => {
                let parts = float_parts(split_on(color@, ','));
                if parts.len() == 4 {
                    match dict_find(d@, "Name"@) {
                        Some(FestNode::Dictionary(names)) => match text_of(
                            dict_find(names@, "EUen"@),
                        ) {
                            Some(name) => Some((name, parts)),
                            None => None,
                        },
                        _ => None,
                    }
                } else {
                    None
                }
            },
            _ => None,
        },
        _ => None,
    }
}

/// Reads the team a node describes, as `team_data` says.
pub fn read_team_data(node: &FestNode) -> (r: Option<TeamData>)
    ensures
        match r {
            Some(t) => team_data(*node) == Some((t.name@, strings_view(t.color@))),
            None => team_data(*node) is None,
        },
{
    let d = match node {
        FestNode::Dictionary(d) => d,
        _ => {
            return None;
        },
    };
    let color = match find_entry(d, "Color") {
        Some(FestNode::Text(c)) => c,
        _ => {
            return None;
        },
    };
    let color_chars = chars_of(color.as_str());
    let parts = float_components(&color_chars);
    if parts.len() != 4 {
        return None;
    }
    let names = match find_entry(d, "Name") {
        Some(FestNode::Dictionary(n)) => n,
        _ => {
            return None;
        },
    };
    let name = match find_entry(names, "EUen") {
        Some(FestNode::Text(n)) => n,
        _ => {
            return None;
        },
    };
    Some(TeamData { name: name.clone(), color: parts })
}

// ---------------------------------------------------------------------------
// Times and numbers
// ---------------------------------------------------------------------------
/// The Unix time, in seconds, of the RFC 3339 date and time `s`, as chrono reads
/// it; none where chrono refuses `s`.
pub uninterp spec fn rfc3339_seconds(s: Seq<char>) -> Option<i64>;

/// `chrono::DateTime::parse_from_rfc3339`, then `DateTime::timestamp` on what it
/// gives.  The contract claims only that the result depends on `s` alone: it is
/// named, not described.
#[verifier::external_body]
fn parse_rfc3339_seconds(s: &str) -> (r: Option<i64>)
    ensures
        r == rfc3339_seconds(s@),
{
    match chrono::DateTime::parse_from_rfc3339(s) {
        Ok(t) => Some(t.timestamp()),
        Err(_) => None,
    }
}

/// The character of a digit.
pub open spec fn digit_char(d: int) -> char {
    if d == 0 {
        '0'
    } else if d == 1 {
        '1'
    } else if d == 2 {
        '2'
    } else if d == 3 {
        '3'
    } else if d == 4 {
        '4'
    } else if d == 5 {
        '5'
    } else if d == 6 {
        '6'
    } else if d == 7 {
        '7'
    } else if d == 8 {
        '8'
    } else {
        '9'
    }
}

/// The decimal digits of `n`, without leading zeros.
pub open spec fn decimal_nat(n: nat) -> Seq<char>
    decreases n,
{
    if n < 10 {
        seq![digit_char(n as int)]
    } else {
        decimal_nat(n / 10) + seq![digit_char((n % 10) as int)]
    }
}

/// `n` in decimal, with a `-` before a negative number, as `{}` prints it.
pub open spec fn decimal(n: int) -> Seq<char> {
    if n < 0 {
        seq!['-'] + decimal_nat((-n) as nat)
    } else {
        decimal_nat(n as nat)
    }
}

fn digit_of(d: u64) -> (c: char)
    requires
        d < 10,
    ensures
        c == digit_char(d as int),
{
    if d == 0 {
        '0'
    } else if d == 1 {
        '1'
    } else if d == 2 {
        '2'
    } else if d == 3 {
        '3'
    } else if d == 4 {
        '4'
    } else if d == 5 {
        '5'
    } else if d == 6 {
        '6'
    } else if d == 7 {
        '7'
    } else if d == 8 {
        '8'
    } else {
        '9'
    }
}

fn push_decimal_nat(out: &mut String, n: u64)
    ensures
        final(out)@ == old(out)@ + decimal_nat(n as nat),
    decreases n,
{
    if n >= 10 {
        push_decimal_nat(out, n / 10);
    }
    push_char(out, digit_of(n % 10));
}

/// Appends `n` in decimal.
pub fn push_decimal(out: &mut String, n: i64)
    ensures
        final(out)@ == old(out)@ + decimal(n as int),
{
    if n < 0 {
        push_char(out, '-');
        let m: u64 = (0 - (n as i128)) as u64;
        push_decimal_nat(out, m);
        assert(old(out)@ + decimal(n as int) =~= old(out)@.push('-') + decimal_nat(m as nat));
    } else {
        push_decimal_nat(out, n as u64);
    }
}

// ---------------------------------------------------------------------------
// The announcement
// ---------------------------------------------------------------------------
/// An option given with the command: its name, and its text where its value is a
/// string.
pub struct CommandValue {
    pub name: String,
    pub text: Option<String>,
}

/// The text of the first option named `name`, where its value is a string.
pub open spec fn first_option_text(options: Seq<CommandValue>, name: Seq<char>) -> Option<
    Seq<char>,
>
    decreases options.len(),
{
    if options.len() == 0 {
        None
    } else if options[0].name@ == name {
        match options[0].text {
            Some(t) => Some(t@),
            None => None,
        }
    } else {
        first_option_text(options.drop_first(), name)
    }
}

/// The announcement of a fest: an embed with an image and fields.
pub struct FestAnnouncement {
    pub image: String,
    pub fields: Vec<EmbedField>,
}

/// An announcement by its parts.
pub struct FestView {
    pub image: Seq<char>,
    pub fields: Seq<(Seq<char>, Seq<char>, bool)>,
}

impl View for FestAnnouncement {
    type V = FestView;

    open spec fn view(&self) -> FestView {
        FestView { image: self.image@, fields: fields_view(self.fields@) }
    }
}

/// The announcement of a fest between teams `alpha` and `bravo` from `start` to
/// `end` (Unix times, shown by Discord as a relative and a full time), with its
/// image and details.
pub open spec fn fest_view(
    alpha: Seq<char>,
    bravo: Seq<char>,
    start: i64,
    end: i64,
    image: Seq<char>,
    details: Seq<char>,
) -> FestView {
    FestView {
        image,
        fields: seq![
            ("Theme"@, alpha + " vs "@ + bravo, false),
            ("Starts"@, "<t:"@ + decimal(start as int) + ":R>"@, false),
            ("End"@, "<t:"@ + decimal(end as int) + ":f>"@, true),
            ("Details"@, details, true),
        ],
    }
}

/// The announcement the document `root` and the command's options give: none
/// unless the root is a dictionary whose `Teams` array has two readable items
/// that both describe teams, whose `Time` dictionary has `Start` and `End`
/// strings that chrono reads, and unless the first `fes_tex_url` and the first
/// `details` options are strings.
pub open spec fn announcement(root: FestNode, options: Seq<CommandValue>) -> Option<FestView> {
    match root {
        FestNode::Dictionary(d) => match dict_find(d@, "Teams"@) {
            Some(FestNode::Array(items)) => {
                let teams = present(items@);
                if teams.len() >= 2 {
                    match (team_data(teams[0]), team_data(teams[1])) {
                        (Some(alpha), Some(bravo)) => match dict_find(d@, "Time"@) {
                            Some(FestNode::Dictionary(times)) => match (
                                text_of(dict_find(times@, "Start"@)),
                                text_of(dict_find(times@, "End"@)),
                            ) {
                                (Some(start), Some(end)) => match (
                                    rfc3339_seconds(start),
                                    rfc3339_seconds(end),
                                ) {
                                    (Some(s), Some(e)) => match (
                                        first_option_text(options, "fes_tex_url"@),
                                        first_option_text(options, "details"@),
                                    ) {
                                        (Some(image), Some(details)) => Some(
                                            fest_view(alpha.0, bravo.0, s, e, image, details),
                                        ),
                                        _ => None,
                                    },
                                    _ => None,
                                },
                                _ => None,
                            },
                            _ => None,
                        },
                        _ => None,
                    }
                } else {
                    None
                }
            },
            _ => None,
        },
        _ => None,
    }
}

/// Makes the announcement of a fest, as `fest_view` says.
pub fn fest_announcement(
    alpha: &str,
    bravo: &str,
    start: i64,
    end: i64,
    image: &str,
    details: &str,
) -> (a: FestAnnouncement)
    ensures
        a@ == fest_view(alpha@, bravo@, start, end, image@, details@),
{
    let mut theme = String::from_str(alpha);
    theme.append(" vs ");
    theme.append(bravo);
    let mut starts = String::from_str("<t:");
    push_decimal(&mut starts, start);
    starts.append(":R>");
    let mut ends = String::from_str("<t:");
    push_decimal(&mut ends, end);
    ends.append(":f>");
    let mut fields: Vec<EmbedField> = Vec::new();
    push_field(&mut fields, embed_field("Theme", theme, false));
    push_field(&mut fields, embed_field("Starts", starts, false));
    push_field(&mut fields, embed_field("End", ends, true));
    push_field(&mut fields, embed_field("Details", String::from_str(details), true));
    let a = FestAnnouncement { image: String::from_str(image), fields };
    assert(a@.fields =~= fest_view(alpha@, bravo@, start, end, image@, details@).fields);
    a
}

/// The text of the first option named `name`, where its value is a string.
fn option_text<'a>(options: &'a Vec<CommandValue>, name: &str) -> (r: Option<&'a String>)
    ensures
        match r {
            Some(t) => first_option_text(options@, name@) == Some(t@),
            None => first_option_text(options@, name@) is None,
        },
{
    let k = chars_of(name);
    let mut i: usize = 0;
    assert(options@.skip(0) =~= options@);
    while i < options.len()
        invariant
            i <= options@.len(),
            k@ == name@,
            first_option_text(options@, name@) == first_option_text(options@.skip(i as int), name@),
        decreases options.len() - i,
    {
        assert(options@.skip(i as int).drop_first() =~= options@.skip(i + 1));
        let n = chars_of(options[i].name.as_str());
        if same_chars(&n, &k) {
            return match &options[i].text {
                Some(t) => Some(t),
                None => None,
            };
        }
        i = i + 1;
    }
    assert(options@.skip(i as int) =~= Seq::<CommandValue>::empty());
    None
}

/// The first two items of an array that could be read.
fn first_two_present<'a>(items: &'a Vec<Option<FestNode>>) -> (r: Option<(&'a FestNode, &'a FestNode)>)
    ensures
        match r {
            Some((a, b)) => present(items@).len() >= 2 && present(items@)[0] == *a && present(
                items@,
            )[1] == *b,
            None => present(items@).len() < 2,
        },
{
    let mut first: Option<&FestNode> = None;
    let mut i: usize = 0;
    assert(items@.skip(0) =~= items@);
    while i < items.len()
        invariant
            i <= items@.len(),
            match first {
                None => present(items@) == present(items@.skip(i as int)),
                Some(a) => present(items@) == seq![*a] + present(items@.skip(i as int)),
            },
        decreases items.len() - i,
    {
        assert(items@.skip(i as int).drop_first() =~= items@.skip(i + 1));
        match &items[i] {
            Some(n) => {
                match first {
                    Some(a) => {
                        return Some((a, n));
                    },
                    None => {
                        first = Some(n);
                    },
                }
            },
            None => {},
        }
        i = i + 1;
    }
    assert(items@.skip(i as int) =~= Seq::<Option<FestNode>>::empty());
    None
}

/// The Splatfest announcer.
pub struct FestFaxHandler {
    registration: CommandRegistration,
}

/// The only user allowed to announce fests.
pub const FEST_ANNOUNCER: u64 = 400291421799710720;

/// The address of the festival data file.
pub open spec fn festival_url() -> Seq<char> {
    "https://dl.app.spfn.cc/p01/data/1/Festival.byaml"@
}

/// The answer to anyone else who tries.
pub open spec fn refusal() -> Seq<char> {
    "nuh uh(cnd still isnt up so im using this to test for perms lol)"@
}

/// What to do with a command interaction.
pub enum FestGate {
    /// It is not this handler's command.
    Ignore,
    /// Answer with this text and stop.
    Refuse(String),
    /// Fetch the festival data from this address and announce it.
    Fetch(String),
}

impl FestFaxHandler {
    /// The id of the registered command, once there is one.
    pub closed spec fn command_id(self) -> Option<u64> {
        self.registration.command_id
    }

    /// A handler whose command is not registered yet.
    pub fn new() -> (h: Self)
        ensures
            h.command_id() is None,
    {
        FestFaxHandler { registration: CommandRegistration::new() }
    }

    /// The command to register when the bot is ready: it takes a texture address
    /// and details, both required.
    pub fn command(&self) -> (c: CommandSpec)
        ensures
            c.name@ == "process-fest-in-fax-machine"@,
            c.description@ == "Announce a fest!"@,
            options_view(c.options@) == seq![
                ("fes_tex_url"@, "Texture url"@, true),
                ("details"@, "Details"@, true),
            ],
    {
        let mut options: Vec<CommandOption> = Vec::new();
        options.push(
            CommandOption {
                name: String::from_str("fes_tex_url"),
                description: String::from_str("Texture url"),
                required: true,
            },
        );
        options.push(
            CommandOption {
                name: String::from_str("details"),
                description: String::from_str("Details"),
                required: true,
            },
        );
        let c = CommandSpec {
            name: String::from_str("process-fest-in-fax-machine"),
            description: String::from_str("Announce a fest!"),
            options,
        };
        assert(options_view(c.options@) =~= seq![
            ("fes_tex_url"@, "Texture url"@, true),
            ("details"@, "Details"@, true),
        ]);
        c
    }

    /// Records the id Discord gave the registered command; the first id stays.
    pub fn ready(&mut self, command_id: u64)
        ensures
            final(self).command_id() == registered(old(self).command_id(), command_id),
    {
        self.registration.set(command_id);
    }

    /// What to do with a command interaction with id `command_id` from user
    /// `user_id`: ignore it unless it is this handler's command; refuse anyone but
    /// the announcer; otherwise fetch the festival data.
    pub fn interaction_create(&self, command_id: u64, user_id: u64) -> (g: FestGate)
        ensures
            self.command_id() != Some(command_id) ==> g is Ignore,
            self.command_id() == Some(command_id) && user_id != FEST_ANNOUNCER ==> (g matches FestGate::Refuse(t)
                && t@ == refusal()),
            self.command_id() == Some(command_id) && user_id == FEST_ANNOUNCER ==> (g matches FestGate::Fetch(url)
                && url@ == festival_url()),
    {
        if !self.registration.is_command(command_id) {
            return FestGate::Ignore;
        }
        if user_id != FEST_ANNOUNCER {
            return FestGate::Refuse(
                String::from_str("nuh uh(cnd still isnt up so im using this to test for perms lol)"),
            );
        }
        FestGate::Fetch(String::from_str("https://dl.app.spfn.cc/p01/data/1/Festival.byaml"))
    }

    /// The answer where the festival data could not be read, `error` being what
    /// the reader said.
    pub fn byaml_error_reply(&self, error: &str) -> (s: String)
        ensures
            s@ == "an error ocurred whilest reading the byaml: "@ + error@,
    {
        let mut s = String::from_str("an error ocurred whilest reading the byaml: ");
        s.append(error);
        s
    }

    /// The announcement of the fest that `root` describes, as `announcement`
    /// says.
    pub fn announce(&self, root: &FestNode, options: &Vec<CommandValue>) -> (r: Option<
        FestAnnouncement,
    >)
        ensures
            match r {
                Some(a) => announcement(*root, options@) == Some(a@),
                None => announcement(*root, options@) is None,
            },
    {
        let d = match root {
            FestNode::Dictionary(d) => d,
            _ => {
                return None;
            },
        };
        let items = match find_entry(d, "Teams") {
            Some(FestNode::Array(items)) => items,
            _ => {
                return None;
            },
        };
        let (a, b) = match first_two_present(items) {
            Some(p) => p,
            None => {
                return None;
            },
        };
        let alpha = match read_team_data(a) {
            Some(t) => t,
            None => {
                return None;
            },
        };
        let bravo = match read_team_data(b) {
            Some(t) => t,
            None => {
                return None;
            },
        };
        let times = match find_entry(d, "Time") {
            Some(FestNode::Dictionary(t)) => t,
            _ => {
                return None;
            },
        };
        let start_text = match find_entry(times, "Start") {
            Some(FestNode::Text(s)) => s,
            _ => {
                return None;
            },
        };
        let start = match parse_rfc3339_seconds(start_text.as_str()) {
            Some(s) => s,
            None => {
                return None;
            },
        };
        let end_text = match find_entry(times, "End") {
            Some(FestNode::Text(e)) => e,
            _ => {
                return None;
            },
        };
        let end = match parse_rfc3339_seconds(end_text.as_str()) {
            Some(e) => e,
            None => {
                return None;
            },
        };
        let image = match option_text(options, "fes_tex_url") {
            Some(t) => t,
            None => {
                return None;
            },
        };
        let details = match option_text(options, "details") {
            Some(t) => t,
            None => {
                return None;
            },
        };
        Some(
            fest_announcement(
                alpha.name.as_str(),
                bravo.name.as_str(),
                start,
                end,
                image.as_str(),
                details.as_str(),
            ),
        )
    }
}

/// Every character of `d` is an ASCII digit, and there is at least one.
pub open spec fn digit_string(d: Seq<char>) -> bool {
    d.len() > 0 && forall|i: int| 0 <= i < d.len() ==> ascii_digit(#[trigger] d[i])
}

proof fn lemma_digit_run_to(s: Seq<char>, i: int, j: int)
    requires
        0 <= i <= j <= s.len(),
        forall|m: int| i <= m < j ==> ascii_digit(#[trigger] s[m]),
        j == s.len() || !ascii_digit(s[j]),
    ensures
        digit_run_end(s, i) == j,
    decreases j - i,
{
    if i < j {
        lemma_digit_run_to(s, i + 1, j);
    }
}

/// A numeral of digits, a point and digits reads as a number, however many
/// digits stand on either side of the point.
pub proof fn law_decimal_numeral_is_float(a: Seq<char>, b: Seq<char>)
    requires
        digit_string(a),
        digit_string(b),
    ensures
        float_text(a + seq!['.'] + b),
{
    let s = a + seq!['.'] + b;
    assert(ascii_digit(s[0]));
    assert(sign_len(s, 0) == 0);
    assert forall|m: int| 0 <= m < a.len() implies ascii_digit(#[trigger] s[m]) by {
        assert(s[m] == a[m]);
    }
    lemma_digit_run_to(s, 0, a.len() as int);
    assert forall|m: int| a.len() + 1 <= m < s.len() implies ascii_digit(#[trigger] s[m]) by {
        assert(s[m] == b[m - a.len() - 1]);
    }
    lemma_digit_run_to(s, (a.len() + 1) as int, s.len() as int);
    assert(number_at(s, 0));
}

/// A part without commas splits into itself alone.
pub proof fn law_split_single(x: Seq<char>)
    requires
        forall|m: int| 0 <= m < x.len() ==> x[m] != ',',
    ensures
        split_on(x, ',') == seq![x],
{
    lemma_no_char_before(x, ',', 0, x.len() as int);
}

/// Splitting at commas takes off the comma-free part before the first comma.
pub proof fn law_split_first(x: Seq<char>, y: Seq<char>)
    requires
        forall|m: int| 0 <= m < x.len() ==> x[m] != ',',
    ensures
        split_on(x + seq![','] + y, ',') == seq![x] + split_on(y, ','),
{
    let s = x + seq![','] + y;
    assert forall|m: int| 0 <= m < x.len() implies s[m] != ',' by {
        assert(s[m] == x[m]);
    }
    lemma_no_char_before(s, ',', 0, x.len() as int);
    assert(first_index_of(s, ',', 0) == Some(x.len() as int));
    assert(s.take(x.len() as int) =~= x);
    assert(s.skip((x.len() + 1) as int) =~= y);
}

/// Parts that all read as numbers are all kept.
pub proof fn law_float_parts_keep_numbers(parts: Seq<Seq<char>>)
    requires
        forall|i: int| 0 <= i < parts.len() ==> float_text(#[trigger] parts[i]),
    ensures
        float_parts(parts) == parts,
    decreases parts.len(),
{
    if parts.len() > 0 {
        assert(float_text(parts[0]));
        law_float_parts_keep_numbers(parts.drop_first());
        assert(seq![parts[0]] + parts.drop_first() =~= parts);
    }
}

/// The numeral of `a`, a point and `b`.
pub open spec fn numeral(a: Seq<char>, b: Seq<char>) -> Seq<char> {
    a + seq!['.'] + b
}

proof fn lemma_numeral_comma_free(a: Seq<char>, b: Seq<char>)
    requires
        digit_string(a),
        digit_string(b),
    ensures
        forall|m: int| 0 <= m < numeral(a, b).len() ==> numeral(a, b)[m] != ',',
{
    assert forall|m: int| 0 <= m < numeral(a, b).len() implies numeral(a, b)[m] != ',' by {
        if m < a.len() {
            assert(numeral(a, b)[m] == a[m]);
        } else if m > a.len() {
            assert(numeral(a, b)[m] == b[m - a.len() - 1]);
        }
    }
}

/// A colour written as four decimal numerals joined by commas, such as
/// `0.972549,0.478431,0.156863,1.000000`, has all four as its number parts.
pub proof fn law_colour_of_four_numerals(
    a1: Seq<char>,
    b1: Seq<char>,
    a2: Seq<char>,
    b2: Seq<char>,
    a3: Seq<char>,
    b3: Seq<char>,
    a4: Seq<char>,
    b4: Seq<char>,
)
    requires
        digit_string(a1),
        digit_string(b1),
        digit_string(a2),
        digit_string(b2),
        digit_string(a3),
        digit_string(b3),
        digit_string(a4),
        digit_string(b4),
    ensures
        ({
            let (n1, n2, n3, n4) = (numeral(a1, b1), numeral(a2, b2), numeral(a3, b3), numeral(a4, b4));
            float_parts(
                split_on(n1 + seq![','] + n2 + seq![','] + n3 + seq![','] + n4, ','),
            ) == seq![n1, n2, n3, n4]
        }),
{
    let (n1, n2, n3, n4) = (numeral(a1, b1), numeral(a2, b2), numeral(a3, b3), numeral(a4, b4));
    lemma_numeral_comma_free(a1, b1);
    lemma_numeral_comma_free(a2, b2);
    lemma_numeral_comma_free(a3, b3);
    lemma_numeral_comma_free(a4, b4);
    let t4 = n4;
    let t3 = n3 + seq![','] + t4;
    let t2 = n2 + seq![','] + t3;
    let t1 = n1 + seq![','] + t2;
    assert(n1 + seq![','] + n2 + seq![','] + n3 + seq![','] + n4 =~= t1);
    law_split_single(t4);
    law_split_first(n3, t4);
    law_split_first(n2, t3);
    law_split_first(n1, t2);
    let parts = seq![n1, n2, n3, n4];
    assert(split_on(t1, ',') =~= parts);
    law_decimal_numeral_is_float(a1, b1);
    law_decimal_numeral_is_float(a2, b2);
    law_decimal_numeral_is_float(a3, b3);
    law_decimal_numeral_is_float(a4, b4);
    assert forall|i: int| 0 <= i < parts.len() implies float_text(#[trigger] parts[i]) by {
        if i == 0 {
        } else if i == 1 {
        } else if i == 2 {
        } else {
        }
    }
    law_float_parts_keep_numbers(parts);
}

} // verus!


