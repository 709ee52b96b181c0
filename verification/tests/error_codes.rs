use professor::error_codes::{
    explain_would_panic, find_error_code, CategoryInfo, ErrorCatalog, ErrorCodeHandler, ErrorInfo,
    ExplainMessage,
};
use regex::Regex;

fn s(t: &str) -> String {
    t.to_string()
}

fn category(name: &str) -> CategoryInfo {
    CategoryInfo { name: s(name), description: s("the shop"), system: s("Wii U") }
}

fn error(name: &str) -> ErrorInfo {
    ErrorInfo {
        name: s(name),
        message: s("Could not connect."),
        short_description: s("short description"),
        long_description: s("long description"),
        short_solution: s("short solution"),
        long_solution: s("long solution"),
        support_link: s("https://example.org"),
    }
}

fn handler() -> ErrorCodeHandler {
    let mut catalog = ErrorCatalog::new();
    catalog.add_category(151, category("eShop"));
    catalog.add_error(151, 204, error("Too big"));
    ErrorCodeHandler::new(catalog)
}

fn fields(m: &ExplainMessage) -> Vec<(String, String, bool)> {
    m.fields.iter().map(|f| (f.name.clone(), f.value.clone(), f.inline)).collect()
}

#[test]
fn unknown_defaults() {
    let c = CategoryInfo::default();
    assert_eq!((c.name.as_str(), c.description.as_str(), c.system.as_str()), ("unknown", "unknown", "unknown"));
    let e = ErrorInfo::default();
    for t in [&e.name, &e.message, &e.short_description, &e.long_description, &e.short_solution, &e.long_solution, &e.support_link] {
        assert_eq!(t, "unknown");
    }
}

#[test]
fn finds_the_first_code() {
    assert_eq!(find_error_code("got 151-0204 and 123-4567"), Some(s("151-0204")));
    assert_eq!(find_error_code("1151-02045"), Some(s("151-0204")));
    assert_eq!(find_error_code("151-020"), None);
    assert_eq!(find_error_code("151 0204"), None);
    assert_eq!(find_error_code(""), None);
}

#[test]
fn finds_codes_in_other_scripts_as_the_regex_does() {
    let re = Regex::new("\\d\\d\\d-\\d\\d\\d\\d").unwrap();
    let texts = [
        "١٢٣-٤٥٦٧", "x ０１２-３４５６ 151-0204", "𝟏𝟓𝟏-𝟎𝟐𝟎𝟒", "12-34567", "abc 999-99999",
        "٠1٢-0000", "15١-0204", "1٢٣-4567",
    ];
    for t in texts {
        assert_eq!(find_error_code(t), re.find(t).map(|m| m.as_str().to_string()), "{:?}", t);
    }
}

#[test]
fn expanded_explanation_of_a_known_code() {
    let h = handler();
    let m = h.create_error_explain_message("151-0204", true).unwrap();
    assert_eq!(m.title, "151-0204");
    assert_eq!(
        fields(&m),
        vec![
            (s("Module"), s("eShop"), true),
            (s("System"), s("Wii U"), true),
            (s("Module Description"), s("the shop"), true),
            (s("Name"), s("Too big"), false),
            (s("Explanation"), s("```Could not connect.```"), true),
            (s("Description"), s("long description"), true),
            (s("Solution"), s("long solution"), true),
        ]
    );
    assert_eq!(m.button_id, "ERROR_EXPLAIN:151-0204");
    assert_eq!(m.button_label, "Expand");
    assert!(m.button_disabled);
    assert_eq!(m.content, "");
}

#[test]
fn collapsed_explanation_of_a_known_code() {
    let m = handler().create_error_explain_message("151-0204", false).unwrap();
    assert_eq!(
        fields(&m),
        vec![
            (s("Name"), s("Too big"), true),
            (s("Description"), s("short description"), true),
            (s("Solution"), s("short solution"), true),
        ]
    );
    assert!(!m.button_disabled);
}

#[test]
fn unknown_code_is_explained_as_unknown() {
    let m = handler().create_error_explain_message("999-9999", false).unwrap();
    assert_eq!(
        fields(&m),
        vec![
            (s("Name"), s("unknown"), true),
            (s("Description"), s("unknown"), true),
            (s("Solution"), s("unknown"), true),
        ]
    );
    let m = handler().create_error_explain_message("151-9999", true).unwrap();
    assert_eq!(fields(&m)[0], (s("Module"), s("eShop"), true));
    assert_eq!(fields(&m)[3], (s("Name"), s("unknown"), false));
}

#[test]
fn numbers_are_read_as_u16() {
    let h = handler();
    // a leading plus is read, leading zeros are kept out of the value
    assert_eq!(fields(&h.create_error_explain_message("+15-0204", true).unwrap())[1].1, "unknown");
    assert!(h.create_error_explain_message("151-+204", false).is_some());
    assert!(h.create_error_explain_message("151-65535", false).is_some());
    assert!(h.create_error_explain_message("151-65536", false).is_none());
    assert!(h.create_error_explain_message("1a1-0204", false).is_none());
    assert!(h.create_error_explain_message("151-", false).is_none());
    assert!(h.create_error_explain_message("151-02 4", false).is_none());
    // the error number is what follows the fourth byte, whatever that byte is
    assert_eq!(fields(&h.create_error_explain_message("151x0204", true).unwrap())[3].1, "Too big");
}

#[test]
fn codes_that_would_cut_a_character() {
    // the third byte falls inside a two-byte digit
    assert!(explain_would_panic("١٢٣-٤٥٦٧"));
    assert!(explain_would_panic("12"));
    // the category does not read as a number: no cut happens after it
    assert!(!explain_would_panic("١2-4567"));
    assert!(handler().create_error_explain_message("١2-4567", true).is_none());
    // the category reads, but the fourth byte is inside a character
    assert!(explain_would_panic("123é4567"));
    assert!(!explain_would_panic("151-0204"));
}

#[test]
fn message_with_a_code_gets_loading_then_explanation() {
    let h = handler();
    let r = h.message(false, "help, I got 151-0204 again").unwrap();
    assert_eq!(r.code, "151-0204");
    assert_eq!(r.loading, "loading");
    assert_eq!(r.explanation.title, "151-0204");
    assert!(r.explanation.button_disabled);
    assert_eq!(fields(&r.explanation).len(), 7);
}

#[test]
fn messages_without_codes_or_from_bots_get_nothing() {
    let h = handler();
    assert!(h.message(true, "151-0204").is_none());
    assert!(h.message(false, "no code here").is_none());
    // the first code is not ASCII and does not read as numbers
    assert!(h.message(false, "０１２-３４５６ 151-0204").is_none());
}

#[test]
fn button_click_expands_again() {
    let h = handler();
    let collapsed = h.create_error_explain_message("151-0204", false).unwrap();
    let u = h.interaction_create(&collapsed.button_id).unwrap();
    assert_eq!(u.code, "151-0204");
    assert_eq!(fields(&u.explanation), fields(&h.create_error_explain_message("151-0204", true).unwrap()));
    assert!(u.explanation.button_disabled);
}

#[test]
fn other_buttons_do_nothing() {
    let h = handler();
    assert!(h.interaction_create("SOMETHING:151-0204").is_none());
    assert!(h.interaction_create("ERROR_EXPLAIN").is_none());
    assert!(h.interaction_create("ERROR_EXPLAIN:nope").is_none());
    // the prefix is all that is checked before the first colon
    let u = h.interaction_create("ERROR_EXPLAINED:151-0204").unwrap();
    assert_eq!(u.code, "151-0204");
    // what follows the first colon is the code, colons included
    assert!(h.interaction_create("ERROR_EXPLAIN::151-0204").is_none());
}

#[test]
fn earlier_catalog_entries_win() {
    let mut catalog = ErrorCatalog::new();
    catalog.add_category(1, category("first"));
    catalog.add_category(1, category("second"));
    catalog.add_error(1, 2, error("first error"));
    catalog.add_error(1, 2, error("second error"));
    let (c, e) = catalog.get_error_code_and_category(1, 2);
    assert_eq!(c.name, "first");
    assert_eq!(e.name, "first error");
    let (c, e) = catalog.get_error_code_and_category(2, 1);
    assert_eq!(c.name, "unknown");
    assert_eq!(e.name, "unknown");
}

#[test]
fn decimal_digits_are_those_of_the_regex() {
    let re = Regex::new("\\d\\d\\d-\\d\\d\\d\\d").unwrap();
    for u in 0u32..0x20000 {
        if let Some(c) = char::from_u32(u) {
            let t = format!("{c}{c}{c}-{c}{c}{c}{c}");
            assert_eq!(find_error_code(&t).is_some(), re.is_match(&t), "U+{:X}", u);
        }
    }
}

#[test]
fn numbers_parse_as_std_parses_u16() {
    let h = handler();
    let alphabet = ['0', '9', '+', '-', 'a'];
    for a in alphabet {
        for b in alphabet {
            for c in alphabet {
                let category = format!("{a}{b}{c}");
                let code = format!("{category}-204");
                let expected = category.parse::<u16>().is_ok();
                assert_eq!(h.create_error_explain_message(&code, false).is_some(), expected, "{:?}", code);
            }
        }
    }
    let alphabet = ['0', '5', '6', '+', '-'];
    let mut errors: Vec<String> = vec![String::new()];
    for _ in 0..6 {
        let mut next = Vec::new();
        for e in &errors {
            let code = format!("151-{e}");
            assert_eq!(
                h.create_error_explain_message(&code, false).is_some(),
                e.parse::<u16>().is_ok(),
                "{:?}",
                code
            );
            for c in alphabet {
                next.push(format!("{e}{c}"));
            }
        }
        errors = next;
    }
}
