use professor::fest_fax::{
    fest_announcement, is_float_text, push_decimal, read_team_data, CommandValue, FestFaxHandler,
    FestGate, FestNode,
};
use professor::text::chars_of;

fn s(t: &str) -> String {
    t.to_string()
}

fn text(t: &str) -> FestNode {
    FestNode::Text(s(t))
}

fn dict(entries: Vec<(&str, FestNode)>) -> FestNode {
    FestNode::Dictionary(entries.into_iter().map(|(k, v)| (s(k), v)).collect())
}

fn team(name: &str, color: &str) -> FestNode {
    dict(vec![("Color", text(color)), ("Name", dict(vec![("JPja", text("x")), ("EUen", text(name))]))])
}

fn festival(start: &str, end: &str) -> FestNode {
    dict(vec![
        (
            "Teams",
            FestNode::Array(vec![
                None,
                Some(team("Pancakes", "0.1,0.2,0.3,1.0")),
                None,
                Some(team("Waffles", "1,0,0,1")),
                Some(FestNode::Other),
            ]),
        ),
        ("Time", dict(vec![("Start", text(start)), ("End", text(end))])),
    ])
}

fn options() -> Vec<CommandValue> {
    vec![
        CommandValue { name: s("details"), text: Some(s("Breakfast battle")) },
        CommandValue { name: s("fes_tex_url"), text: Some(s("https://example.org/fest.png")) },
    ]
}

fn float(t: &str) -> bool {
    is_float_text(&chars_of(t))
}

#[test]
fn float_grammar_agrees_with_f32_parsing() {
    let texts = [
        "0", "1", "-1", "+1", "1.", ".5", ".", "1.5", "1e5", "1E5", "1e", "1e+", "1e-3", "e5",
        "inf", "-inf", "+INF", "Infinity", "infinity", "infinit", "nan", "NaN", "-nan", "nana",
        " 1", "1 ", "", "+", "-", "1.2.3", "1e5.5", "0x10", "1_000", "١", "12345678901234567890",
        "1e999", "  ", "+.5", "-.e1", "5.e2", "0.0001E-10",
    ];
    for t in texts {
        assert_eq!(float(t), t.parse::<f32>().is_ok(), "{:?}", t);
    }
    let alphabet = ['1', '.', 'e', '-', '+', 'x'];
    let mut all: Vec<String> = vec![String::new()];
    for _ in 0..5 {
        let mut next = Vec::new();
        for t in &all {
            for c in alphabet {
                let mut u = t.clone();
                u.push(c);
                assert_eq!(float(&u), u.parse::<f32>().is_ok(), "{:?}", u);
                next.push(u);
            }
        }
        all = next;
    }
}

#[test]
fn decimal_agrees_with_formatting() {
    for n in [0i64, 7, 10, 42, 1704067200, -1, -10, -987654321, i64::MAX, i64::MIN] {
        let mut out = String::new();
        push_decimal(&mut out, n);
        assert_eq!(out, format!("{}", n));
    }
}

#[test]
fn team_data_is_read() {
    let t = read_team_data(&team("Pancakes", "0.1,0.2,0.3,1.0")).unwrap();
    assert_eq!(t.name, "Pancakes");
    assert_eq!(t.color, vec![s("0.1"), s("0.2"), s("0.3"), s("1.0")]);
    // parts that are not numbers are skipped, and four must remain
    let t = read_team_data(&team("X", "1,oops,2,3,4")).unwrap();
    assert_eq!(t.color, vec![s("1"), s("2"), s("3"), s("4")]);
    assert!(read_team_data(&team("X", "1,2,3")).is_none());
    assert!(read_team_data(&team("X", "1,2,3,4,5")).is_none());
    assert!(read_team_data(&team("X", "1, 2,3,4")).is_none());
    assert!(read_team_data(&text("team")).is_none());
    assert!(read_team_data(&dict(vec![("Color", text("1,2,3,4"))])).is_none());
    assert!(read_team_data(&dict(vec![("Color", text("1,2,3,4")), ("Name", text("x"))])).is_none());
}

#[test]
fn announcement_of_a_fest() {
    let h = FestFaxHandler::new();
    let a = h
        .announce(&festival("2024-01-01T00:00:00Z", "2024-01-03T01:00:00+01:00"), &options())
        .unwrap();
    assert_eq!(a.image, "https://example.org/fest.png");
    let fields: Vec<(String, String, bool)> =
        a.fields.iter().map(|f| (f.name.clone(), f.value.clone(), f.inline)).collect();
    assert_eq!(
        fields,
        vec![
            (s("Theme"), s("Pancakes vs Waffles"), false),
            (s("Starts"), s("<t:1704067200:R>"), false),
            (s("End"), s("<t:1704240000:f>"), true),
            (s("Details"), s("Breakfast battle"), true),
        ]
    );
}

#[test]
fn no_announcement_without_the_parts() {
    let h = FestFaxHandler::new();
    // a time chrono does not read
    assert!(h.announce(&festival("tomorrow", "2024-01-03T00:00:00Z"), &options()).is_none());
    assert!(h.announce(&festival("2024-01-01T00:00:00Z", "2024-01-03"), &options()).is_none());
    // a missing option, or one that is not a string
    let mut o = options();
    o.pop();
    assert!(h.announce(&festival("2024-01-01T00:00:00Z", "2024-01-03T00:00:00Z"), &o).is_none());
    let mut o = options();
    o.insert(0, CommandValue { name: s("fes_tex_url"), text: None });
    assert!(h.announce(&festival("2024-01-01T00:00:00Z", "2024-01-03T00:00:00Z"), &o).is_none());
    // only one readable team
    let one = dict(vec![
        ("Teams", FestNode::Array(vec![Some(team("A", "1,2,3,4")), None])),
        ("Time", dict(vec![("Start", text("2024-01-01T00:00:00Z")), ("End", text("2024-01-01T00:00:00Z"))])),
    ]);
    assert!(h.announce(&one, &options()).is_none());
    // the second readable item is not a team
    let other = dict(vec![
        ("Teams", FestNode::Array(vec![Some(team("A", "1,2,3,4")), Some(FestNode::Other), Some(team("B", "1,2,3,4"))])),
        ("Time", dict(vec![("Start", text("2024-01-01T00:00:00Z")), ("End", text("2024-01-01T00:00:00Z"))])),
    ]);
    assert!(h.announce(&other, &options()).is_none());
    assert!(h.announce(&text("root"), &options()).is_none());
}

#[test]
fn announcement_fields_are_formatted() {
    let a = fest_announcement("A", "B", -5, 0, "img", "d");
    assert_eq!(a.fields[0].value, "A vs B");
    assert_eq!(a.fields[1].value, "<t:-5:R>");
    assert_eq!(a.fields[2].value, "<t:0:f>");
    assert_eq!(a.image, "img");
}

#[test]
fn only_the_announcer_may_announce() {
    let mut h = FestFaxHandler::new();
    assert!(matches!(h.interaction_create(7, 400291421799710720), FestGate::Ignore));
    h.ready(7);
    h.ready(8);
    assert!(matches!(h.interaction_create(8, 400291421799710720), FestGate::Ignore));
    match h.interaction_create(7, 1) {
        FestGate::Refuse(t) => {
            assert_eq!(t, "nuh uh(cnd still isnt up so im using this to test for perms lol)")
        }
        _ => panic!("expected a refusal"),
    }
    match h.interaction_create(7, 400291421799710720) {
        FestGate::Fetch(url) => assert_eq!(url, "https://dl.app.spfn.cc/p01/data/1/Festival.byaml"),
        _ => panic!("expected a fetch"),
    }
}

#[test]
fn fest_command_and_error_reply() {
    let h = FestFaxHandler::new();
    let c = h.command();
    assert_eq!(c.name, "process-fest-in-fax-machine");
    assert_eq!(c.description, "Announce a fest!");
    let o: Vec<(String, String, bool)> =
        c.options.iter().map(|o| (o.name.clone(), o.description.clone(), o.required)).collect();
    assert_eq!(o, vec![(s("fes_tex_url"), s("Texture url"), true), (s("details"), s("Details"), true)]);
    assert_eq!(h.byaml_error_reply("bad magic"), "an error ocurred whilest reading the byaml: bad magic");
}
