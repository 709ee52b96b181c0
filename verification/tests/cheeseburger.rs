use professor::cheeseburger::CheeseburgerHandler;
use regex::Regex;

const REPLY: &str = "currently scratching the FUCK out of my bum bum idgaf";

#[test]
fn cheeseburger_gets_the_reply() {
    let h = CheeseburgerHandler;
    assert_eq!(h.message(false, "i want a cheeseburger"), Some(REPLY.to_string()));
    assert_eq!(h.message(false, "Cheeseburgers!"), Some(REPLY.to_string()));
    assert_eq!(h.message(false, "doublecheeseburger"), Some(REPLY.to_string()));
}

#[test]
fn other_spellings_get_nothing() {
    let h = CheeseburgerHandler;
    assert_eq!(h.message(false, "CHEESEBURGER"), None);
    assert_eq!(h.message(false, "cheese burger"), None);
    assert_eq!(h.message(false, "cheeseburge"), None);
    assert_eq!(h.message(false, ""), None);
}

#[test]
fn bots_get_no_cheeseburger_reply() {
    assert_eq!(CheeseburgerHandler.message(true, "cheeseburger"), None);
}

#[test]
fn agrees_with_the_regex() {
    let re = Regex::new("[Cc]heeseburger(s)?").unwrap();
    let texts = [
        "cheeseburger", "Cheeseburger", "cCheeseburger", "heeseburger", "xcheeseburgers",
        "chéeseburger", "Cheeseburge r", "🍔 Cheeseburger 🍔", "cheeseburgercheeseburger",
    ];
    for t in texts {
        assert_eq!(CheeseburgerHandler.message(false, t).is_some(), re.is_match(t), "{:?}", t);
    }
}
