//! The `/emergency-report` command: a form whose answer is posted, with a
//! mention of everyone, in the admins' channel.

use vstd::prelude::*;
use crate::message::{
    CommandRegistration, CommandSpec, ModalForm, TextInput, ChannelPost, registered, inputs_view,
    text_input, modal_form, plain_command,
};

verus! {

/// The channel that reports go to.
pub const EMERGENCY_CHANNEL: u64 = 1379768148420591666;

/// The colour of a report (red).
pub const EMERGENCY_COLOUR: u32 = 0xE74C3C;

/// Handles the `/emergency-report` command.
pub struct EmergencyReportHandler {
    registration: CommandRegistration,
}

impl EmergencyReportHandler {
    /// The id of the registered command, once there is one.
    pub closed spec fn command_id(self) -> Option<u64> {
        self.registration.command_id
    }

    /// A handler whose command is not registered yet.
    pub fn new() -> (h: Self)
        ensures
            h.command_id() is None,
    {
        EmergencyReportHandler { registration: CommandRegistration::new() }
    }

    /// The command to register when the bot is ready.
    pub fn command(&self) -> (c: CommandSpec)
        ensures
            c.name@ == "emergency-report"@,
            c.description@
                == "Report an emergency (e.g. server down) ONLY if its happening for everyone not if its just for you."@,
            c.options@.len() == 0,
    {
        plain_command(
            "emergency-report",
            "Report an emergency (e.g. server down) ONLY if its happening for everyone not if its just for you.",
        )
    }

    /// Records the id Discord gave the registered command; the first id stays.
    pub fn ready(&mut self, command_id: u64)
        ensures
            final(self).command_id() == registered(old(self).command_id(), command_id),
    {
        self.registration.set(command_id);
    }

    /// The form to show for a command interaction with id `command_id`: the
    /// report form when it is this handler's command, none otherwise.
    pub fn interaction_create(&self, command_id: u64) -> (r: Option<ModalForm>)
        ensures
            r is Some <==> self.command_id() == Some(command_id),
            r matches Some(form) ==> {
                &&& form.title@ == "Emergency Report Form"@
                &&& inputs_view(form.inputs@) == seq![
                    (true, "What is happening"@, true, Some(10u16)),
                ]
            },
    {
        if !self.registration.is_command(command_id) {
            return None;
        }
        let mut inputs: Vec<TextInput> = Vec::new();
        inputs.push(text_input(true, "What is happening", true, Some(10)));
        let form = modal_form("Emergency Report Form", inputs);
        assert(inputs_view(form.inputs@) =~= seq![(true, "What is happening"@, true, Some(10u16))]);
        Some(form)
    }

    /// The private answer to the one who sent the form.
    pub fn acknowledgement(&self) -> (s: String)
        ensures
            s@ == "report has been sent to the admins"@,
    {
        String::from_str("report has been sent to the admins")
    }

    /// The report posted for the answers `inputs` of the form: in the emergency
    /// channel, mentioning everyone, with the first answer as its description.
    pub fn report(&self, inputs: &Vec<String>) -> (p: ChannelPost)
        requires
            inputs@.len() >= 1,
        ensures
            p.channel_id == EMERGENCY_CHANNEL,
            p.content matches Some(c) && c@ == "@everyone"@,
            p.title@ == "AN EMERGENCY HAS BEEN REPORTED"@,
            p.description matches Some(d) && d@ == inputs@[0]@,
            p.fields@.len() == 0,
            p.colour == EMERGENCY_COLOUR,
    {
        ChannelPost {
            channel_id: EMERGENCY_CHANNEL,
            content: Some(String::from_str("@everyone")),
            title: String::from_str("AN EMERGENCY HAS BEEN REPORTED"),
            description: Some(inputs[0].clone()),
            fields: Vec::new(),
            colour: EMERGENCY_COLOUR,
        }
    }
}

} // verus!
