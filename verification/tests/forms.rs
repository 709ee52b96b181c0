use professor::emergency_report::{EmergencyReportHandler, EMERGENCY_CHANNEL, EMERGENCY_COLOUR};
use professor::message::CommandRegistration;
use professor::miiverse_mod_application::{
    MiiverseModApplicationHandler, APPLICATION_CHANNEL, APPLICATION_COLOUR,
};
use professor::too_fat::TooFatHandler;
use professor::error_codes::{ErrorCatalog, ErrorCodeHandler};

fn s(t: &str) -> String {
    t.to_string()
}

#[test]
fn first_registration_wins() {
    let mut r = CommandRegistration::new();
    assert!(!r.is_command(1));
    r.set(1);
    r.set(2);
    assert!(r.is_command(1));
    assert!(!r.is_command(2));
}

#[test]
fn emergency_form_only_for_its_command() {
    let mut h = EmergencyReportHandler::new();
    assert!(h.interaction_create(5).is_none());
    h.ready(5);
    assert!(h.interaction_create(6).is_none());
    let form = h.interaction_create(5).unwrap();
    assert_eq!(form.title, "Emergency Report Form");
    assert_eq!(form.inputs.len(), 1);
    let i = &form.inputs[0];
    assert!(i.paragraph);
    assert_eq!(i.label, "What is happening");
    assert!(i.required);
    assert_eq!(i.min_length, Some(10));
}

#[test]
fn emergency_report_goes_to_the_admins() {
    let h = EmergencyReportHandler::new();
    assert_eq!(h.command().name, "emergency-report");
    assert_eq!(h.acknowledgement(), "report has been sent to the admins");
    let p = h.report(&vec![s("the server is down for everyone")]);
    assert_eq!(p.channel_id, EMERGENCY_CHANNEL);
    assert_eq!(p.channel_id, 1379768148420591666);
    assert_eq!(p.content, Some(s("@everyone")));
    assert_eq!(p.title, "AN EMERGENCY HAS BEEN REPORTED");
    assert_eq!(p.description, Some(s("the server is down for everyone")));
    assert!(p.fields.is_empty());
    assert_eq!(p.colour, EMERGENCY_COLOUR);
    assert_eq!(p.colour, 0xE74C3C);
}

#[test]
fn miiverse_application_form_and_post() {
    let mut h = MiiverseModApplicationHandler::new();
    assert_eq!(h.command().name, "miivserse-mod-application");
    assert_eq!(h.command().description, "Apply for miiverse moderator");
    h.ready(9);
    let form = h.interaction_create(9).unwrap();
    assert_eq!(form.title, "Miiverse Moderator Application Form");
    let inputs: Vec<(bool, String)> = form.inputs.iter().map(|i| (i.paragraph, i.label.clone())).collect();
    assert_eq!(
        inputs,
        vec![
            (false, s("Whats your timezone?")),
            (false, s("How long are you usually availible every day?")),
            (true, s("Why should we pick you?")),
        ]
    );
    assert_eq!(h.acknowledgement(), "application has been sent");
    let p = h.report(&vec![s("UTC"), s("2 hours"), s("I like Miiverse")]);
    assert_eq!(p.channel_id, APPLICATION_CHANNEL);
    assert_eq!(p.channel_id, 1324479126991802528);
    assert_eq!(p.content, None);
    assert_eq!(p.title, "New Miiverse application");
    let fields: Vec<(String, String, bool)> =
        p.fields.iter().map(|f| (f.name.clone(), f.value.clone(), f.inline)).collect();
    assert_eq!(
        fields,
        vec![
            (s("Whats your timezone?"), s("UTC"), false),
            (s("How long are you usually availible every day?"), s("2 hours"), false),
            (s("Why should we pick you?"), s("I like Miiverse"), false),
        ]
    );
    assert_eq!(p.colour, APPLICATION_COLOUR);
    assert_eq!(p.colour, 0x1F8B4C);
}

#[test]
fn too_fat_follows_the_code() {
    let h = TooFatHandler;
    assert_eq!(h.message("error 151-0204 again"), Some(s("in other words your too fat")));
    assert_eq!(h.message("151-0205"), None);
    assert_eq!(h.message("1510204"), None);
}

#[test]
fn the_code_151_0204_gets_both_answers() {
    let content = "I keep getting 151-0204";
    assert!(TooFatHandler.message(content).is_some());
    assert!(ErrorCodeHandler::new(ErrorCatalog::new()).message(false, content).is_some());
}
