//! Explains console error codes such as `151-0204`.
//!
//! A message holds a code where the pattern `\d\d\d-\d\d\d\d` matches: three
//! decimal digits, a hyphen and four decimal digits.  The first such code is
//! explained: its first three bytes name a category and what follows the fourth
//! byte names an error in it, both read as 16-bit numbers.  The explanation lists
//! what the catalog knows of the category and of the error, and carries a button
//! that expands it again once it has been collapsed.

use vstd::prelude::*;
use crate::text::{
    decimal_digit, is_decimal_digit, ascii_digit, digit_value, chars_of, push_range,
    occurs_at, occurs_at_index, first_index_of, lemma_no_char_before,
};
use crate::message::{EmbedField, fields_view, embed_field, push_field};

verus! {

// ---------------------------------------------------------------------------
// Finding a code in a message
// ---------------------------------------------------------------------------
/// A code starts at index `p` of `s`.
pub open spec fn code_at(s: Seq<char>, p: int) -> bool {
    &&& 0 <= p
    &&& p + 8 <= s.len()
    &&& decimal_digit(s[p])
    &&& decimal_digit(s[p + 1])
    &&& decimal_digit(s[p + 2])
    &&& s[p + 3] == '-'
    &&& decimal_digit(s[p + 4])
    &&& decimal_digit(s[p + 5])
    &&& decimal_digit(s[p + 6])
    &&& decimal_digit(s[p + 7])
}

/// Where the first code at index `i` or later starts.
pub open spec fn first_code_from(s: Seq<char>, i: int) -> Option<int>
    decreases s.len() - i,
{
    if 0 <= i && i + 8 <= s.len() {
        if code_at(s, i) {
            Some(i)
        } else {
            first_code_from(s, i + 1)
        }
    } else {
        None
    }
}

/// The first code in a message, as its text.
pub open spec fn first_code(s: Seq<char>) -> Option<Seq<char>> {
    match first_code_from(s, 0) {
        Some(p) => Some(s.subrange(p, p + 8)),
        None => None,
    }
}

pub proof fn lemma_first_code_from(s: Seq<char>, i: int)
    requires
        0 <= i,
    ensures
        first_code_from(s, i) matches Some(p) ==> i <= p && code_at(s, p) && forall|q: int|
            i <= q < p ==> !code_at(s, q),
        first_code_from(s, i) is None ==> forall|q: int| i <= q ==> !code_at(s, q),
    decreases s.len() - i,
{
    if i + 8 <= s.len() && !code_at(s, i) {
        lemma_first_code_from(s, i + 1);
    }
}

fn code_at_index(s: &Vec<char>, p: usize) -> (r: bool)
    ensures
        r == code_at(s@, p as int),
{
    if s.len() < 8 || p > s.len() - 8 {
        return false;
    }
    is_decimal_digit(s[p]) && is_decimal_digit(s[p + 1]) && is_decimal_digit(s[p + 2]) && s[p
        + 3] == '-' && is_decimal_digit(s[p + 4]) && is_decimal_digit(s[p + 5])
        && is_decimal_digit(s[p + 6]) && is_decimal_digit(s[p + 7])
}

/// The first code in a message, if it holds one.
pub fn find_error_code(content: &str) -> (r: Option<String>)
    ensures
        match r {
            Some(code) => first_code(content@) == Some(code@),
            None => first_code(content@) is None,
        },
{
    let s = chars_of(content);
    let mut i: usize = 0;
    while i < s.len()
        invariant
            s@ == content@,
            first_code_from(s@, 0) == first_code_from(s@, i as int),
        decreases s.len() - i,
    {
        if code_at_index(&s, i) {
            let mut code = String::new();
            push_range(&mut code, &s, i, i + 8);
            return Some(code);
        }
        i = i + 1;
    }
    None
}

// ---------------------------------------------------------------------------
// Reading the category and the error number
// ---------------------------------------------------------------------------
/// The number of bytes that `c` takes in UTF-8.
pub open spec fn utf8_width(c: char) -> int {
    if (c as u32) < 0x80 {
        1
    } else if (c as u32) < 0x800 {
        2
    } else if (c as u32) < 0x10000 {
        3
    } else {
        4
    }
}

/// The number of bytes that `s` takes in UTF-8.
pub open spec fn byte_len(s: Seq<char>) -> int
    decreases s.len(),
{
    if s.len() == 0 {
        0
    } else {
        byte_len(s.drop_last()) + utf8_width(s.last())
    }
}

/// Byte `b` of `s` is where one character ends and the next begins (or the end).
pub open spec fn is_boundary(s: Seq<char>, b: int) -> bool {
    exists|k: int| 0 <= k <= s.len() && #[trigger] byte_len(s.take(k)) == b
}

/// The number of characters in the first `b` bytes of `s`, where `b` is a boundary.
pub open spec fn chars_before(s: Seq<char>, b: int) -> int {
    choose|k: int| 0 <= k <= s.len() && #[trigger] byte_len(s.take(k)) == b
}

pub proof fn lemma_byte_len_step(s: Seq<char>, k: int)
    requires
        0 <= k < s.len(),
    ensures
        byte_len(s.take(k + 1)) == byte_len(s.take(k)) + utf8_width(s[k]),
{
    assert(s.take(k + 1).drop_last() =~= s.take(k));
}

pub proof fn lemma_byte_len_grows(s: Seq<char>, k1: int, k2: int)
    requires
        0 <= k1 <= k2 <= s.len(),
    ensures
        byte_len(s.take(k1)) + (k2 - k1) <= byte_len(s.take(k2)),
    decreases k2 - k1,
{
    if k1 < k2 {
        lemma_byte_len_grows(s, k1, k2 - 1);
        lemma_byte_len_step(s, k2 - 1);
    }
}

/// How many characters make up the first `b` bytes of `s`, or `None` where byte
/// `b` falls inside a character or past the end.
fn chars_in_first_bytes(s: &Vec<char>, b: usize) -> (r: Option<usize>)
    requires
        b <= 16,
    ensures
        match r {
            Some(k) => is_boundary(s@, b as int) && chars_before(s@, b as int) == k,
            None => !is_boundary(s@, b as int),
        },
{
    let mut k: usize = 0;
    let mut acc: usize = 0;
    assert(s@.take(0) =~= Seq::<char>::empty());
    while k < s.len() && acc < b
        invariant
            k <= s.len(),
            acc == byte_len(s@.take(k as int)),
            acc <= b + 4,
            b <= 16,
            k > 0 ==> byte_len(s@.take(k - 1)) < b,
        decreases s.len() - k,
    {
        let u = s[k] as u32;
        let w: usize = if u < 0x80 {
            1
        } else if u < 0x800 {
            2
        } else if u < 0x10000 {
            3
        } else {
            4
        };
        proof {
            lemma_byte_len_step(s@, k as int);
        }
        acc = acc + w;
        k = k + 1;
    }
    if acc == b {
        assert(byte_len(s@.take(k as int)) == b);
        proof {
            assert forall|k2: int|
                0 <= k2 <= s@.len() && #[trigger] byte_len(s@.take(k2)) == b implies k2
                == k by {
                if k2 < k {
                    lemma_byte_len_grows(s@, k2, k as int);
                } else if k2 > k {
                    lemma_byte_len_grows(s@, k as int, k2);
                }
            }
        }
        Some(k)
    } else {
        proof {
            assert forall|k2: int| 0 <= k2 <= s@.len() implies #[trigger] byte_len(s@.take(k2))
                != b by {
                if k2 < k {
                    if k > 0 {
                        lemma_byte_len_grows(s@, k2, k - 1);
                    }
                } else if k2 > k {
                    lemma_byte_len_grows(s@, k as int, k2);
                }
            }
        }
        None
    }
}

/// The value of a sequence of ASCII digits.
pub open spec fn digits_value(d: Seq<char>) -> int
    decreases d.len(),
{
    if d.len() == 0 {
        0
    } else {
        digits_value(d.drop_last()) * 10 + digit_value(d.last())
    }
}

/// Every character of `d` is an ASCII digit.
pub open spec fn all_ascii_digits(d: Seq<char>) -> bool {
    forall|i: int| 0 <= i < d.len() ==> ascii_digit(#[trigger] d[i])
}

/// `s` without a leading `+`.
pub open spec fn unsigned_part(s: Seq<char>) -> Seq<char> {
    if s.len() > 0 && s[0] == '+' {
        s.drop_first()
    } else {
        s
    }
}

/// What `str::parse::<u16>` gives: an optional `+` followed by one or more ASCII
/// digits whose value is below 65536.
pub open spec fn parse_u16(s: Seq<char>) -> Option<u16> {
    let d = unsigned_part(s);
    if d.len() > 0 && all_ascii_digits(d) && digits_value(d) < 65536 {
        Some(digits_value(d) as u16)
    } else {
        None
    }
}

pub proof fn lemma_digits_value_nonneg(d: Seq<char>)
    requires
        all_ascii_digits(d),
    ensures
        digits_value(d) >= 0,
    decreases d.len(),
{
    if d.len() > 0 {
        lemma_digits_value_nonneg(d.drop_last());
    }
}

/// `parse_u16` of `s[from..to]`.
fn parse_u16_range(s: &Vec<char>, from: usize, to: usize) -> (r: Option<u16>)
    requires
        from <= to <= s.len(),
    ensures
        r == parse_u16(s@.subrange(from as int, to as int)),
{
    let ghost t = s@.subrange(from as int, to as int);
    let start = if from < to && s[from] == '+' {
        from + 1
    } else {
        from
    };
    let ghost d = s@.subrange(start as int, to as int);
    assert(d =~= unsigned_part(t));
    if start == to {
        return None;
    }
    // the value so far, held at 65536 once it reaches that
    let mut v: u32 = 0;
    let mut i = start;
    assert(s@.subrange(start as int, start as int) =~= Seq::<char>::empty());
    while i < to
        invariant
            from <= start <= i <= to <= s.len(),
            d == s@.subrange(start as int, to as int),
            t == s@.subrange(from as int, to as int),
            d == unsigned_part(t),
            forall|j: int| start <= j < i ==> ascii_digit(#[trigger] s@[j]),
            v as int == if digits_value(s@.subrange(start as int, i as int)) < 65536 {
                digits_value(s@.subrange(start as int, i as int))
            } else {
                65536
            },
        decreases to - i,
    {
        let c = s[i];
        if !('0' <= c && c <= '9') {
            assert(d[i - start] == c);
            assert(!ascii_digit(d[i - start]));
            return None;
        }
        let ghost prev = s@.subrange(start as int, i as int);
        proof {
            assert(s@.subrange(start as int, i + 1).drop_last() =~= prev);
            assert forall|j: int| 0 <= j < prev.len() implies ascii_digit(#[trigger] prev[j]) by {
                assert(prev[j] == s@[start + j]);
            }
            lemma_digits_value_nonneg(prev);
        }
        let dv = (c as u32) - ('0' as u32);
        let next = v * 10 + dv;
        v = if next < 65536 {
            next
        } else {
            65536
        };
        i = i + 1;
    }
    assert forall|j: int| 0 <= j < d.len() implies ascii_digit(#[trigger] d[j]) by {
        assert(d[j] == s@[start + j]);
    }
    if v < 65536 {
        Some(v as u16)
    } else {
        None
    }
}

// ---------------------------------------------------------------------------
// The catalog of categories and errors
// ---------------------------------------------------------------------------
/// What the catalog knows of a category.
pub struct CategoryInfo {
    pub name: String,
    pub description: String,
    pub system: String,
}

/// What the catalog knows of an error.
pub struct ErrorInfo {
    pub name: String,
    pub message: String,
    pub short_description: String,
    pub long_description: String,
    pub short_solution: String,
    pub long_solution: String,
    pub support_link: String,
}

/// The category shown where the catalog has none: every part reads "unknown".
pub open spec fn unknown_category(c: CategoryInfo) -> bool {
    &&& c.name@ == "unknown"@
    &&& c.description@ == "unknown"@
    &&& c.system@ == "unknown"@
}

/// The error shown where the catalog has none: every part reads "unknown".
pub open spec fn unknown_error(e: ErrorInfo) -> bool {
    &&& e.name@ == "unknown"@
    &&& e.message@ == "unknown"@
    &&& e.short_description@ == "unknown"@
    &&& e.long_description@ == "unknown"@
    &&& e.short_solution@ == "unknown"@
    &&& e.long_solution@ == "unknown"@
    &&& e.support_link@ == "unknown"@
}

impl View for CategoryInfo {
    /// Name, description and system.
    type V = (Seq<char>, Seq<char>, Seq<char>);

    open spec fn view(&self) -> (Seq<char>, Seq<char>, Seq<char>) {
        (self.name@, self.description@, self.system@)
    }
}

impl View for ErrorInfo {
    /// Name, message, short and long description, short and long solution, and
    /// support link.
    type V = (Seq<char>, Seq<char>, Seq<char>, Seq<char>, Seq<char>, Seq<char>, Seq<char>);

    open spec fn view(&self) -> (
        Seq<char>,
        Seq<char>,
        Seq<char>,
        Seq<char>,
        Seq<char>,
        Seq<char>,
        Seq<char>,
    ) {
        (
            self.name@,
            self.message@,
            self.short_description@,
            self.long_description@,
            self.short_solution@,
            self.long_solution@,
            self.support_link@,
        )
    }
}

impl Default for CategoryInfo {
    fn default() -> (c: Self)
        ensures
            unknown_category(c),
    {
        CategoryInfo {
            name: String::from_str("unknown"),
            description: String::from_str("unknown"),
            system: String::from_str("unknown"),
        }
    }
}

impl Default for ErrorInfo {
    fn default() -> (e: Self)
        ensures
            unknown_error(e),
    {
        ErrorInfo {
            name: String::from_str("unknown"),
            message: String::from_str("unknown"),
            long_description: String::from_str("unknown"),
            long_solution: String::from_str("unknown"),
            short_description: String::from_str("unknown"),
            short_solution: String::from_str("unknown"),
            support_link: String::from_str("unknown"),
        }
    }
}

impl CategoryInfo {
    /// A copy with the same text.
    pub fn duplicate(&self) -> (c: Self)
        ensures
            c == *self,
    {
        CategoryInfo {
            name: self.name.clone(),
            description: self.description.clone(),
            system: self.system.clone(),
        }
    }
}

impl ErrorInfo {
    /// A copy with the same text.
    pub fn duplicate(&self) -> (e: Self)
        ensures
            e == *self,
    {
        ErrorInfo {
            name: self.name.clone(),
            message: self.message.clone(),
            short_description: self.short_description.clone(),
            long_description: self.long_description.clone(),
            short_solution: self.short_solution.clone(),
            long_solution: self.long_solution.clone(),
            support_link: self.support_link.clone(),
        }
    }
}

/// The first entry for category `c`.
pub open spec fn find_category(entries: Seq<(u16, CategoryInfo)>, c: u16) -> Option<CategoryInfo>
    decreases entries.len(),
{
    if entries.len() == 0 {
        None
    } else if entries[0].0 == c {
        Some(entries[0].1)
    } else {
        find_category(entries.drop_first(), c)
    }
}

/// The first entry for error `e` of category `c`.
pub open spec fn find_error(entries: Seq<(u16, u16, ErrorInfo)>, c: u16, e: u16) -> Option<
    ErrorInfo,
>
    decreases entries.len(),
{
    if entries.len() == 0 {
        None
    } else if entries[0].0 == c && entries[0].1 == e {
        Some(entries[0].2)
    } else {
        find_error(entries.drop_first(), c, e)
    }
}

/// The categories and errors the bot can explain.  Where two entries share a key,
/// the earlier one is the one found.
pub struct ErrorCatalog {
    categories: Vec<(u16, CategoryInfo)>,
    errors: Vec<(u16, u16, ErrorInfo)>,
}

/// The category lookup gives `found` for category `c`: the first entry for it, or
/// the unknown category.
pub open spec fn category_lookup(catalog: ErrorCatalog, c: u16, found: CategoryInfo) -> bool {
    match find_category(catalog.category_entries(), c) {
        Some(info) => found == info,
        None => unknown_category(found),
    }
}

/// The error lookup gives `found` for error `e` of category `c`: the first entry
/// for it, or the unknown error.
pub open spec fn error_lookup(catalog: ErrorCatalog, c: u16, e: u16, found: ErrorInfo) -> bool {
    match find_error(catalog.error_entries(), c, e) {
        Some(info) => found == info,
        None => unknown_error(found),
    }
}

/// What the catalog shows of category `c`.
pub open spec fn known_category(catalog: ErrorCatalog, c: u16) -> (Seq<char>, Seq<char>, Seq<char>) {
    match find_category(catalog.category_entries(), c) {
        Some(info) => info@,
        None => ("unknown"@, "unknown"@, "unknown"@),
    }
}

/// What the catalog shows of error `e` of category `c`.
pub open spec fn known_error(catalog: ErrorCatalog, c: u16, e: u16) -> (
    Seq<char>,
    Seq<char>,
    Seq<char>,
    Seq<char>,
    Seq<char>,
    Seq<char>,
    Seq<char>,
) {
    match find_error(catalog.error_entries(), c, e) {
        Some(info) => info@,
        None => (
            "unknown"@,
            "unknown"@,
            "unknown"@,
            "unknown"@,
            "unknown"@,
            "unknown"@,
            "unknown"@,
        ),
    }
}

impl ErrorCatalog {
    pub closed spec fn category_entries(self) -> Seq<(u16, CategoryInfo)> {
        self.categories@
    }

    pub closed spec fn error_entries(self) -> Seq<(u16, u16, ErrorInfo)> {
        self.errors@
    }

    /// An empty catalog.
    pub fn new() -> (r: Self)
        ensures
            r.category_entries() == Seq::<(u16, CategoryInfo)>::empty(),
            r.error_entries() == Seq::<(u16, u16, ErrorInfo)>::empty(),
    {
        ErrorCatalog { categories: Vec::new(), errors: Vec::new() }
    }

    /// Adds an entry for category `category` after those already there.
    pub fn add_category(&mut self, category: u16, info: CategoryInfo)
        ensures
            final(self).category_entries() == old(self).category_entries().push((category, info)),
            final(self).error_entries() == old(self).error_entries(),
    {
        self.categories.push((category, info));
    }

    /// Adds an entry for error `code` of category `category` after those already
    /// there.
    pub fn add_error(&mut self, category: u16, code: u16, info: ErrorInfo)
        ensures
            final(self).error_entries() == old(self).error_entries().push((category, code, info)),
            final(self).category_entries() == old(self).category_entries(),
    {
        self.errors.push((category, code, info));
    }

    /// What the catalog knows of category `category`.
    fn category_info(&self, category: u16) -> (r: CategoryInfo)
        ensures
            category_lookup(*self, category, r),
    {
        let mut i: usize = 0;
        assert(self.categories@.skip(0) =~= self.categories@);
        while i < self.categories.len()
            invariant
                i <= self.categories@.len(),
                find_category(self.categories@, category) == find_category(
                    self.categories@.skip(i as int),
                    category,
                ),
            decreases self.categories.len() - i,
        {
            assert(self.categories@.skip(i as int).drop_first() =~= self.categories@.skip(
                i + 1,
            ));
            if self.categories[i].0 == category {
                return self.categories[i].1.duplicate();
            }
            i = i + 1;
        }
        assert(self.categories@.skip(i as int) =~= Seq::<(u16, CategoryInfo)>::empty());
        CategoryInfo::default()
    }

    /// What the catalog knows of error `code` of category `category`.
    fn error_info(&self, category: u16, code: u16) -> (r: ErrorInfo)
        ensures
            error_lookup(*self, category, code, r),
    {
        let mut j: usize = 0;
        assert(self.errors@.skip(0) =~= self.errors@);
        while j < self.errors.len()
            invariant
                j <= self.errors@.len(),
                find_error(self.errors@, category, code) == find_error(
                    self.errors@.skip(j as int),
                    category,
                    code,
                ),
            decreases self.errors.len() - j,
        {
            assert(self.errors@.skip(j as int).drop_first() =~= self.errors@.skip(j + 1));
            if self.errors[j].0 == category && self.errors[j].1 == code {
                return self.errors[j].2.duplicate();
            }
            j = j + 1;
        }
        assert(self.errors@.skip(j as int) =~= Seq::<(u16, u16, ErrorInfo)>::empty());
        ErrorInfo::default()
    }

    /// What the catalog knows of category `category` and of its error `code`.
    pub fn get_error_code_and_category(&self, category: u16, code: u16) -> (r: (
        CategoryInfo,
        ErrorInfo,
    ))
        ensures
            category_lookup(*self, category, r.0),
            error_lookup(*self, category, code, r.1),
            r.0@ == known_category(*self, category),
            r.1@ == known_error(*self, category, code),
    {
        (self.category_info(category), self.error_info(category, code))
    }
}

// ---------------------------------------------------------------------------
// The explanation
// ---------------------------------------------------------------------------
/// The id of the button on an explanation of `code`.
pub open spec fn button_id(code: Seq<char>) -> Seq<char> {
    "ERROR_EXPLAIN:"@ + code
}

/// Reading the numbers of `code` would cut a character: the category is read from
/// its first three bytes, and, where that gives a number, the error from what
/// follows its fourth byte.
pub open spec fn explain_panics(code: Seq<char>) -> bool {
    ||| !is_boundary(code, 3)
    ||| (parse_u16(code.take(chars_before(code, 3))) is Some && !is_boundary(code, 4))
}

/// The category and error numbers of `code`, where both read as numbers.
pub open spec fn code_keys(code: Seq<char>) -> Option<(u16, u16)> {
    match parse_u16(code.take(chars_before(code, 3))) {
        Some(c) => match parse_u16(code.skip(chars_before(code, 4))) {
            Some(e) => Some((c, e)),
            None => None,
        },
        None => None,
    }
}

/// The fields of an expanded explanation.
pub open spec fn expanded_fields(
    c: (Seq<char>, Seq<char>, Seq<char>),
    e: (Seq<char>, Seq<char>, Seq<char>, Seq<char>, Seq<char>, Seq<char>, Seq<char>),
) -> Seq<(Seq<char>, Seq<char>, bool)> {
    seq![
        ("Module"@, c.0, true),
        ("System"@, c.2, true),
        ("Module Description"@, c.1, true),
        ("Name"@, e.0, false),
        ("Explanation"@, "```"@ + e.1 + "```"@, true),
        ("Description"@, e.3, true),
        ("Solution"@, e.5, true),
    ]
}

/// The fields of a collapsed explanation.
pub open spec fn collapsed_fields(
    e: (Seq<char>, Seq<char>, Seq<char>, Seq<char>, Seq<char>, Seq<char>, Seq<char>),
) -> Seq<(Seq<char>, Seq<char>, bool)> {
    seq![("Name"@, e.0, true), ("Description"@, e.2, true), ("Solution"@, e.4, true)]
}

/// An explanation of an error code: an embed with a title and fields, and a
/// button that expands it.
pub struct ExplainMessage {
    pub title: String,
    pub fields: Vec<EmbedField>,
    pub button_id: String,
    pub button_label: String,
    pub button_disabled: bool,
    /// The text of the message beside the embed.
    pub content: String,
}

/// An explanation by its parts.
pub struct ExplainView {
    pub title: Seq<char>,
    pub fields: Seq<(Seq<char>, Seq<char>, bool)>,
    pub button_id: Seq<char>,
    pub button_label: Seq<char>,
    pub button_disabled: bool,
    pub content: Seq<char>,
}

impl View for ExplainMessage {
    type V = ExplainView;

    open spec fn view(&self) -> ExplainView {
        ExplainView {
            title: self.title@,
            fields: fields_view(self.fields@),
            button_id: self.button_id@,
            button_label: self.button_label@,
            button_disabled: self.button_disabled,
            content: self.content@,
        }
    }
}

/// The explanation of `code` from `catalog`, expanded or not; none where the code
/// does not read as two numbers.  The embed is titled with the code and its
/// button, labelled "Expand", is disabled while the explanation is expanded.
pub open spec fn explanation(catalog: ErrorCatalog, code: Seq<char>, expanded: bool) -> Option<
    ExplainView,
> {
    match code_keys(code) {
        Some((c, e)) => Some(
            ExplainView {
                title: code,
                fields: if expanded {
                    expanded_fields(known_category(catalog, c), known_error(catalog, c, e))
                } else {
                    collapsed_fields(known_error(catalog, c, e))
                },
                button_id: button_id(code),
                button_label: "Expand"@,
                button_disabled: expanded,
                content: Seq::empty(),
            },
        ),
        None => None,
    }
}

/// The code a click on a button with id `id` asks to explain: the buttons of
/// explanations have ids that begin with `ERROR_EXPLAIN`, and the code is what
/// follows the first `:`.
pub open spec fn clicked_code(id: Seq<char>) -> Option<Seq<char>> {
    if occurs_at(id, "ERROR_EXPLAIN"@, 0) {
        match first_index_of(id, ':', 0) {
            Some(i) => Some(id.skip(i + 1)),
            None => None,
        }
    } else {
        None
    }
}

/// What the bot sends when a message holds an error code: a reply that reads
/// "loading", which is then replaced by the expanded explanation.
pub struct ErrorCodeReply {
    pub code: String,
    pub loading: String,
    pub explanation: ExplainMessage,
}

/// What the bot does when an explanation's button is clicked: the message is
/// replaced by the expanded explanation of `code`.
pub struct ExplainUpdate {
    pub code: String,
    pub explanation: ExplainMessage,
}

/// Explains the error codes that messages hold.
pub struct ErrorCodeHandler {
    catalog: ErrorCatalog,
}

/// The message with text `content` from a bot or not would make the bot cut a
/// character while reading its error code.
pub open spec fn message_panics(author_is_bot: bool, content: Seq<char>) -> bool {
    !author_is_bot && (first_code(content) matches Some(code) && explain_panics(code))
}

/// A click on the button with id `id` would make the bot cut a character while
/// reading the code.
pub open spec fn click_panics(id: Seq<char>) -> bool {
    clicked_code(id) matches Some(code) && explain_panics(code)
}

/// Whether reading `code` for an explanation cuts a character.
pub fn explain_would_panic(code: &str) -> (r: bool)
    ensures
        r == explain_panics(code@),
{
    let s = chars_of(code);
    match chars_in_first_bytes(&s, 3) {
        None => true,
        Some(k3) => {
            assert(s@.take(k3 as int) =~= s@.subrange(0, k3 as int));
            match parse_u16_range(&s, 0, k3) {
                None => false,
                Some(_) => chars_in_first_bytes(&s, 4).is_none(),
            }
        },
    }
}

/// Makes a string of `s` followed by `t[from..]`.
fn joined(s: &str, t: &Vec<char>, from: usize) -> (r: String)
    requires
        from <= t.len(),
    ensures
        r@ == s@ + t@.subrange(from as int, t@.len() as int),
{
    let mut r = String::from_str(s);
    push_range(&mut r, t, from, t.len());
    r
}

impl ErrorCodeHandler {
    pub closed spec fn catalog(self) -> ErrorCatalog {
        self.catalog
    }

    /// A handler that explains codes from `catalog`.
    pub fn new(catalog: ErrorCatalog) -> (h: Self)
        ensures
            h.catalog() == catalog,
    {
        ErrorCodeHandler { catalog }
    }

    /// The explanation of `str_code`, expanded or collapsed, as `explanation` says.
    pub fn create_error_explain_message(&self, str_code: &str, expanded: bool) -> (r: Option<
        ExplainMessage,
    >)
        requires
            !explain_panics(str_code@),
        ensures
            match r {
                Some(m) => explanation(self.catalog(), str_code@, expanded) == Some(m@),
                None => explanation(self.catalog(), str_code@, expanded) is None,
            },
    {
        let s = chars_of(str_code);
        let k3 = match chars_in_first_bytes(&s, 3) {
            Some(k) => k,
            None => {
                return None;
            },
        };
        assert(s@.take(k3 as int) =~= s@.subrange(0, k3 as int));
        let category = match parse_u16_range(&s, 0, k3) {
            Some(c) => c,
            None => {
                return None;
            },
        };
        let k4 = match chars_in_first_bytes(&s, 4) {
            Some(k) => k,
            None => {
                return None;
            },
        };
        proof {
            // the fourth byte lies within the text
            let k = chars_before(s@, 4);
            assert(0 <= k <= s@.len());
        }
        assert(s@.skip(k4 as int) =~= s@.subrange(k4 as int, s@.len() as int));
        let error = match parse_u16_range(&s, k4, s.len()) {
            Some(e) => e,
            None => {
                return None;
            },
        };
        let (category_info, error_info) = self.catalog.get_error_code_and_category(
            category,
            error,
        );
        let mut fields: Vec<EmbedField> = Vec::new();
        if expanded {
            let mut explained = String::from_str("```");
            explained.append(error_info.message.as_str());
            explained.append("```");
            push_field(&mut fields, embed_field("Module", category_info.name, true));
            push_field(&mut fields, embed_field("System", category_info.system, true));
            push_field(
                &mut fields,
                embed_field("Module Description", category_info.description, true),
            );
            push_field(&mut fields, embed_field("Name", error_info.name, false));
            push_field(&mut fields, embed_field("Explanation", explained, true));
            push_field(&mut fields, embed_field("Description", error_info.long_description, true));
            push_field(&mut fields, embed_field("Solution", error_info.long_solution, true));
        } else {
            push_field(&mut fields, embed_field("Name", error_info.name, true));
            push_field(
                &mut fields,
                embed_field("Description", error_info.short_description, true),
            );
            push_field(&mut fields, embed_field("Solution", error_info.short_solution, true));
        }
        let m = ExplainMessage {
            title: String::from_str(str_code),
            fields,
            button_id: joined("ERROR_EXPLAIN:", &s, 0),
            button_label: String::from_str("Expand"),
            button_disabled: expanded,
            content: String::new(),
        };
        assert(s@.subrange(0, s@.len() as int) =~= s@);
        assert(m@.fields =~= explanation(self.catalog(), str_code@, expanded).unwrap().fields);
        Some(m)
    }

    /// The reply to a message: none for a message from a bot or one without an
    /// error code; otherwise, where the first code in it has an explanation, a
    /// "loading" reply to be replaced by that explanation, expanded.
    pub fn message(&self, author_is_bot: bool, content: &str) -> (r: Option<ErrorCodeReply>)
        requires
            !message_panics(author_is_bot, content@),
        ensures
            r is Some <==> !author_is_bot && (first_code(content@) matches Some(code)
                && explanation(self.catalog(), code, true) is Some),
            r matches Some(reply) ==> {
                &&& first_code(content@) == Some(reply.code@)
                &&& reply.loading@ == "loading"@
                &&& explanation(self.catalog(), reply.code@, true) == Some(reply.explanation@)
            },
    {
        if author_is_bot {
            return None;
        }
        let code = match find_error_code(content) {
            Some(c) => c,
            None => {
                return None;
            },
        };
        match self.create_error_explain_message(code.as_str(), true) {
            Some(explanation) => Some(
                ErrorCodeReply { code, loading: String::from_str("loading"), explanation },
            ),
            None => None,
        }
    }

    /// What a click on the button with id `custom_id` does: where the id names a
    /// code that has an explanation, the message becomes that explanation,
    /// expanded; otherwise nothing happens.
    pub fn interaction_create(&self, custom_id: &str) -> (r: Option<ExplainUpdate>)
        requires
            !click_panics(custom_id@),
        ensures
            r is Some <==> (clicked_code(custom_id@) matches Some(code) && explanation(
                self.catalog(),
                code,
                true,
            ) is Some),
            r matches Some(u) ==> {
                &&& clicked_code(custom_id@) == Some(u.code@)
                &&& explanation(self.catalog(), u.code@, true) == Some(u.explanation@)
            },
    {
        let code = match button_code(custom_id) {
            Some(c) => c,
            None => {
                return None;
            },
        };
        match self.create_error_explain_message(code.as_str(), true) {
            Some(explanation) => Some(ExplainUpdate { code, explanation }),
            None => None,
        }
    }
}

/// The code a click on the button with id `custom_id` asks to explain.
pub fn button_code(custom_id: &str) -> (r: Option<String>)
    ensures
        match r {
            Some(code) => clicked_code(custom_id@) == Some(code@),
            None => clicked_code(custom_id@) is None,
        },
{
    let id = chars_of(custom_id);
    let prefix = chars_of("ERROR_EXPLAIN");
    if !occurs_at_index(&id, &prefix, 0) {
        return None;
    }
    let mut i: usize = 0;
    while i < id.len()
        invariant
            i <= id.len(),
            id@ == custom_id@,
            occurs_at(id@, "ERROR_EXPLAIN"@, 0),
            first_index_of(id@, ':', 0) == first_index_of(id@, ':', i as int),
        decreases id.len() - i,
    {
        if id[i] == ':' {
            let mut code = String::new();
            push_range(&mut code, &id, i + 1, id.len());
            assert(id@.skip(i + 1) =~= id@.subrange(i + 1, id@.len() as int));
            return Some(code);
        }
        i = i + 1;
    }
    None
}

/// Whether the message would make the bot cut a character, as `message_panics`
/// says.
pub fn message_would_panic(author_is_bot: bool, content: &str) -> (r: bool)
    ensures
        r == message_panics(author_is_bot, content@),
{
    if author_is_bot {
        return false;
    }
    match find_error_code(content) {
        Some(code) => explain_would_panic(code.as_str()),
        None => false,
    }
}

/// Whether a click on the button with id `custom_id` would make the bot cut a
/// character, as `click_panics` says.
pub fn click_would_panic(custom_id: &str) -> (r: bool)
    ensures
        r == click_panics(custom_id@),
{
    match button_code(custom_id) {
        Some(code) => explain_would_panic(code.as_str()),
        None => false,
    }
}

// ---------------------------------------------------------------------------
// Laws
// ---------------------------------------------------------------------------
/// A click on the button of an explanation of `code` asks to explain `code`.
pub proof fn law_button_names_its_code(code: Seq<char>)
    ensures
        clicked_code(button_id(code)) == Some(code),
{
    let id = button_id(code);
    reveal_strlit("ERROR_EXPLAIN:");
    reveal_strlit("ERROR_EXPLAIN");
    assert(id.subrange(0, 13) =~= "ERROR_EXPLAIN"@);
    assert(occurs_at(id, "ERROR_EXPLAIN"@, 0));
    assert forall|m: int| 0 <= m < 13 implies id[m] != ':' by {
        assert(id[m] == "ERROR_EXPLAIN"@[m]);
    }
    lemma_no_char_before(id, ':', 0, 13);
    assert(first_index_of(id, ':', 13) == Some(13int));
    assert(id.skip(14) =~= code);
}

/// A click on the button of an explanation brings back the expanded explanation
/// of the same code.
pub proof fn law_button_expands_same_code(catalog: ErrorCatalog, code: Seq<char>, expanded: bool)
    requires
        explanation(catalog, code, expanded) is Some,
    ensures
        clicked_code(explanation(catalog, code, expanded).unwrap().button_id) == Some(code),
        explanation(catalog, code, true) is Some,
        explanation(catalog, code, true).unwrap().title == code,
{
    law_button_names_its_code(code);
}

/// A code has an expanded explanation exactly when it has a collapsed one; the
/// two share title and button, whose button is disabled only when expanded, and
/// the collapsed one shows the name, short description and short solution of the
/// error.
pub proof fn law_collapse_keeps_code(catalog: ErrorCatalog, code: Seq<char>)
    ensures
        explanation(catalog, code, true) is Some <==> explanation(catalog, code, false) is Some,
        explanation(catalog, code, true) matches Some(x) ==> ({
            let y = explanation(catalog, code, false).unwrap();
            &&& x.title == y.title
            &&& x.button_id == y.button_id
            &&& x.button_disabled && !y.button_disabled
            &&& x.fields.len() == 7 && y.fields.len() == 3
            &&& y.fields[0].1 == x.fields[3].1
        }),
{
}

/// The powers of ten.
pub open spec fn pow10(n: nat) -> int
    decreases n,
{
    if n == 0 {
        1
    } else {
        10 * pow10((n - 1) as nat)
    }
}

pub proof fn lemma_digits_value_bound(d: Seq<char>)
    requires
        all_ascii_digits(d),
    ensures
        0 <= digits_value(d) < pow10(d.len()),
    decreases d.len(),
{
    if d.len() > 0 {
        let p = d.drop_last();
        assert(all_ascii_digits(p)) by {
            assert forall|i: int| 0 <= i < p.len() implies ascii_digit(#[trigger] p[i]) by {
                assert(p[i] == d[i]);
            }
        }
        lemma_digits_value_bound(p);
        assert(ascii_digit(d[d.len() - 1]));
    }
}

/// A code written with ASCII digits is read without cutting a character, and
/// always has an explanation: the catalog's, or the unknown one.
pub proof fn law_ascii_code_explained(catalog: ErrorCatalog, code: Seq<char>)
    requires
        code.len() == 8,
        ascii_digit(code[0]),
        ascii_digit(code[1]),
        ascii_digit(code[2]),
        code[3] == '-',
        ascii_digit(code[4]),
        ascii_digit(code[5]),
        ascii_digit(code[6]),
        ascii_digit(code[7]),
    ensures
        !explain_panics(code),
        explanation(catalog, code, true) is Some,
        explanation(catalog, code, false) is Some,
{
    assert(code.take(0) =~= Seq::<char>::empty());
    lemma_byte_len_step(code, 0);
    lemma_byte_len_step(code, 1);
    lemma_byte_len_step(code, 2);
    lemma_byte_len_step(code, 3);
    assert(byte_len(code.take(3)) == 3);
    assert(byte_len(code.take(4)) == 4);
    assert(is_boundary(code, 3));
    assert(is_boundary(code, 4));
    let k3 = chars_before(code, 3);
    let k4 = chars_before(code, 4);
    if k3 < 3 {
        lemma_byte_len_grows(code, k3, 3);
    } else if k3 > 3 {
        lemma_byte_len_grows(code, 3, k3);
    }
    if k4 < 4 {
        lemma_byte_len_grows(code, k4, 4);
    } else if k4 > 4 {
        lemma_byte_len_grows(code, 4, k4);
    }
    assert(k3 == 3 && k4 == 4);
    let c = code.take(3);
    let e = code.skip(4);
    assert(unsigned_part(c) == c);
    assert(unsigned_part(e) == e);
    assert(all_ascii_digits(c)) by {
        assert forall|i: int| 0 <= i < c.len() implies ascii_digit(#[trigger] c[i]) by {
            assert(c[i] == code[i]);
        }
    }
    assert(all_ascii_digits(e)) by {
        assert forall|i: int| 0 <= i < e.len() implies ascii_digit(#[trigger] e[i]) by {
            assert(e[i] == code[i + 4]);
        }
    }
    lemma_digits_value_bound(c);
    lemma_digits_value_bound(e);
    reveal_with_fuel(pow10, 5);
}

proof fn lemma_digits_value_step(d: Seq<char>, k: int)
    requires
        0 <= k < d.len(),
    ensures
        digits_value(d.take(k + 1)) == digits_value(d.take(k)) * 10 + digit_value(d[k]),
{
    assert(d.take(k + 1).drop_last() =~= d.take(k));
}

/// The value of an ASCII digit, as its code point less that of `0`.
pub open spec fn digit_of(c: char) -> int {
    (c as int) - 48
}

/// A code of three ASCII digits, a hyphen and four ASCII digits names the
/// category and the error that its digits spell in decimal, all four digits of
/// the error counting; its explanation shows what the catalog holds for exactly
/// that pair.
pub proof fn law_code_keys_are_its_numbers(catalog: ErrorCatalog, code: Seq<char>)
    requires
        code.len() == 8,
        ascii_digit(code[0]),
        ascii_digit(code[1]),
        ascii_digit(code[2]),
        code[3] == '-',
        ascii_digit(code[4]),
        ascii_digit(code[5]),
        ascii_digit(code[6]),
        ascii_digit(code[7]),
    ensures
        ({
            let c = 100 * digit_of(code[0]) + 10 * digit_of(code[1]) + digit_of(code[2]);
            let e = 1000 * digit_of(code[4]) + 100 * digit_of(code[5]) + 10 * digit_of(code[6])
                + digit_of(code[7]);
            &&& code_keys(code) == Some((c as u16, e as u16))
            &&& explanation(catalog, code, true) is Some
            &&& (find_error(catalog.error_entries(), c as u16, e as u16) matches Some(info) ==> {
                let x = explanation(catalog, code, true).unwrap();
                &&& x.fields[3] == ("Name"@, info.name@, false)
                &&& x.fields[4] == ("Explanation"@, "```"@ + info.message@ + "```"@, true)
                &&& x.fields[5] == ("Description"@, info.long_description@, true)
                &&& x.fields[6] == ("Solution"@, info.long_solution@, true)
            })
            &&& (find_category(catalog.category_entries(), c as u16) matches Some(info) ==> {
                let x = explanation(catalog, code, true).unwrap();
                &&& x.fields[0] == ("Module"@, info.name@, true)
                &&& x.fields[1] == ("System"@, info.system@, true)
                &&& x.fields[2] == ("Module Description"@, info.description@, true)
            })
        }),
{
    law_ascii_code_explained(catalog, code);
    assert(code.take(0) =~= Seq::<char>::empty());
    lemma_byte_len_step(code, 0);
    lemma_byte_len_step(code, 1);
    lemma_byte_len_step(code, 2);
    lemma_byte_len_step(code, 3);
    let k3 = chars_before(code, 3);
    let k4 = chars_before(code, 4);
    if k3 < 3 {
        lemma_byte_len_grows(code, k3, 3);
    } else if k3 > 3 {
        lemma_byte_len_grows(code, 3, k3);
    }
    if k4 < 4 {
        lemma_byte_len_grows(code, k4, 4);
    } else if k4 > 4 {
        lemma_byte_len_grows(code, 4, k4);
    }
    let d = code.take(3);
    lemma_digits_value_step(d, 0);
    lemma_digits_value_step(d, 1);
    lemma_digits_value_step(d, 2);
    assert(d.take(0) =~= Seq::<char>::empty());
    assert(d.take(3) =~= d);
    let f = code.skip(4);
    lemma_digits_value_step(f, 0);
    lemma_digits_value_step(f, 1);
    lemma_digits_value_step(f, 2);
    lemma_digits_value_step(f, 3);
    assert(f.take(0) =~= Seq::<char>::empty());
    assert(f.take(4) =~= f);
    assert(unsigned_part(d) == d);
    assert(unsigned_part(f) == f);
}

/// A message not from a bot whose first error code is written with ASCII digits
/// is read without cutting a character and gets an explanation.
pub proof fn law_ascii_code_in_message_answered(catalog: ErrorCatalog, content: Seq<char>, p: int)
    requires
        first_code_from(content, 0) == Some(p),
        ascii_digit(content[p]),
        ascii_digit(content[p + 1]),
        ascii_digit(content[p + 2]),
        ascii_digit(content[p + 4]),
        ascii_digit(content[p + 5]),
        ascii_digit(content[p + 6]),
        ascii_digit(content[p + 7]),
    ensures
        !message_panics(false, content),
        first_code(content) matches Some(code) && explanation(catalog, code, true) is Some,
{
    lemma_first_code_from(content, 0);
    let code = content.subrange(p, p + 8);
    law_ascii_code_explained(catalog, code);
}

/// The catalog finds the first entry for a key: adding an entry for a category
/// it has no entry for makes that entry the one found, adding one for a category
/// it has an entry for changes nothing, and the other categories are found as
/// before.
pub proof fn law_category_added(
    entries: Seq<(u16, CategoryInfo)>,
    c: u16,
    info: CategoryInfo,
    other: u16,
)
    ensures
        find_category(entries.push((c, info)), c) == (match find_category(entries, c) {
            Some(first) => Some(first),
            None => Some(info),
        }),
        other != c ==> find_category(entries.push((c, info)), other) == find_category(
            entries,
            other,
        ),
    decreases entries.len(),
{
    if entries.len() > 0 {
        assert(entries.push((c, info)).drop_first() =~= entries.drop_first().push((c, info)));
        law_category_added(entries.drop_first(), c, info, other);
    } else {
        assert(entries.push((c, info)).drop_first() =~= entries);
    }
}

/// The same for errors, keyed by category and error number.
pub proof fn law_error_added(
    entries: Seq<(u16, u16, ErrorInfo)>,
    c: u16,
    e: u16,
    info: ErrorInfo,
    other_c: u16,
    other_e: u16,
)
    ensures
        find_error(entries.push((c, e, info)), c, e) == (match find_error(entries, c, e) {
            Some(first) => Some(first),
            None => Some(info),
        }),
        (other_c, other_e) != (c, e) ==> find_error(entries.push((c, e, info)), other_c, other_e)
            == find_error(entries, other_c, other_e),
    decreases entries.len(),
{
    if entries.len() > 0 {
        assert(entries.push((c, e, info)).drop_first() =~= entries.drop_first().push(
            (c, e, info),
        ));
        law_error_added(entries.drop_first(), c, e, info, other_c, other_e);
    } else {
        assert(entries.push((c, e, info)).drop_first() =~= entries);
    }
}

/// A code the catalog has no entries for is explained as unknown.
pub proof fn law_unknown_code(catalog: ErrorCatalog, code: Seq<char>, c: u16, e: u16)
    requires
        code_keys(code) == Some((c, e)),
        find_category(catalog.category_entries(), c) is None,
        find_error(catalog.error_entries(), c, e) is None,
    ensures
        explanation(catalog, code, false) matches Some(x) && x.fields == seq![
            ("Name"@, "unknown"@, true),
            ("Description"@, "unknown"@, true),
            ("Solution"@, "unknown"@, true),
        ],
{
}

} // verus!


