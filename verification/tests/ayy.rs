use professor::ayy::AyyHandler;
use regex::Regex;

/// The reply the handler is meant to give, computed with the `regex` crate the
/// way the bot has always computed it.
fn reference_reply(re: &Regex, content: &str) -> Option<String> {
    if !re.is_match(content) {
        return None;
    }
    let mut output = String::new();
    let mut lastpos = 0;
    for ay in re.find_iter(content) {
        output += &content[lastpos..ay.start()];
        lastpos = ay.end();
        let mut s = ay.as_str();
        if s.starts_with(' ') {
            s = &s[1..];
            output.push(' ');
        }
        let mut chars = s.chars();
        let first = chars.next()?;
        if first.is_lowercase() {
            output.push_str("lma");
        } else {
            output.push_str("LMA");
        }
        for c in chars {
            if c == ' ' {
                output.push(' ');
                break;
            }
            if c.is_lowercase() {
                output.push('o');
            } else {
                output.push('O');
            }
        }
    }
    output += &content[lastpos..];
    Some(output)
}

fn pattern() -> Regex {
    Regex::new("(^|\\s)[Aa][Yy]+($|\\s)").unwrap()
}

fn reply(content: &str) -> Option<String> {
    AyyHandler.message(false, content)
}

#[test]
fn ayy_becomes_lmao() {
    assert_eq!(reply("ay"), Some("lmao".to_string()));
    assert_eq!(reply("ayy"), Some("lmaoo".to_string()));
}

#[test]
fn capital_ayy_becomes_capital_lmao() {
    assert_eq!(reply("AYY"), Some("LMAOO".to_string()));
    assert_eq!(reply("Ayy"), Some("LMAoo".to_string()));
    assert_eq!(reply("aYyY"), Some("lmaOoO".to_string()));
}

#[test]
fn ayy_inside_a_sentence() {
    assert_eq!(reply("hey ayy there"), Some("hey lmaoo there".to_string()));
    assert_eq!(reply("well ayyyyy"), Some("well lmaooooo".to_string()));
}

#[test]
fn second_ayy_after_shared_space_is_left() {
    // the space that ends the first match cannot start the second
    assert_eq!(reply("ayy ayy"), Some("lmaoo ayy".to_string()));
    assert_eq!(reply("ayy  ayy"), Some("lmaoo  lmaoo".to_string()));
}

#[test]
fn other_white_space_is_folded_into_the_word() {
    assert_eq!(reply("ayy\nok"), Some("lmaooOok".to_string()));
    assert_eq!(reply("x\tayy"), Some("xLMAooo".to_string()));
}

#[test]
fn no_reply_without_a_word() {
    assert_eq!(reply("ayyx"), None);
    assert_eq!(reply("xayy"), None);
    assert_eq!(reply("a"), None);
    assert_eq!(reply(""), None);
    assert_eq!(reply("hello there"), None);
    assert_eq!(reply("aay"), None);
}

#[test]
fn bots_get_no_reply() {
    assert_eq!(AyyHandler.message(true, "ayy"), None);
}

#[test]
fn agrees_with_the_regex_on_listed_texts() {
    let re = pattern();
    let texts = [
        "ayy", " ayy", "ayy ", " ayy ", "ayy ayy ayy", "a ayy", "ayy lmao", "AyY\u{3000}ayy",
        "\u{3000}ayy", "ayy\u{85}", "é ayy é", "ayy\u{a0}x", "🦀 ayy 🦀", "Ayy\r\nAyy",
        "ay yy", "yy", "ayyy y", "  ayy  ", "ayy\t\tayy",
    ];
    for t in texts {
        assert_eq!(reply(t), reference_reply(&re, t), "text {:?}", t);
    }
}

#[test]
fn agrees_with_the_regex_on_all_short_texts() {
    let re = pattern();
    let alphabet = ['a', 'A', 'y', 'Y', ' ', '\t', 'x', '\u{2003}'];
    let mut texts: Vec<String> = vec![String::new()];
    for _ in 0..4 {
        let mut next = Vec::new();
        for t in &texts {
            for c in alphabet {
                let mut u = t.clone();
                u.push(c);
                next.push(u);
            }
        }
        for t in &next {
            assert_eq!(reply(t), reference_reply(&re, t), "text {:?}", t);
        }
        texts = next;
    }
}

#[test]
fn white_space_is_that_of_the_regex() {
    let re = pattern();
    for u in 0u32..0x3100 {
        if let Some(c) = char::from_u32(u) {
            let t = format!("x{c}ay");
            assert_eq!(reply(&t), reference_reply(&re, &t), "U+{:X}", u);
        }
    }
}
