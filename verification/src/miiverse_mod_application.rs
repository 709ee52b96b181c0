//! The `/miivserse-mod-application` command: a form of three questions whose
//! answers are posted in the moderators' channel.

use vstd::prelude::*;
use crate::message::{
    CommandRegistration, CommandSpec, ModalForm, TextInput, ChannelPost, EmbedField, registered,
    inputs_view, text_input, modal_form, plain_command, fields_view, embed_field, push_field,
};

verus! {

/// The channel that applications go to.
pub const APPLICATION_CHANNEL: u64 = 1324479126991802528;

/// The colour of an application (dark green).
pub const APPLICATION_COLOUR: u32 = 0x1F8B4C;

/// The first question of the form.
pub open spec fn timezone_question() -> Seq<char> {
    "Whats your timezone?"@
}

/// The second question of the form.
pub open spec fn availability_question() -> Seq<char> {
    "How long are you usually availible every day?"@
}

/// The third question of the form.
pub open spec fn motivation_question() -> Seq<char> {
    "Why should we pick you?"@
}

/// Handles the `/miivserse-mod-application` command.
pub struct MiiverseModApplicationHandler {
    registration: CommandRegistration,
}

impl MiiverseModApplicationHandler {
    /// The id of the registered command, once there is one.
    pub closed spec fn command_id(self) -> Option<u64> {
        self.registration.command_id
    }

    /// A handler whose command is not registered yet.
    pub fn new() -> (h: Self)
        ensures
            h.command_id() is None,
    {
        MiiverseModApplicationHandler { registration: CommandRegistration::new() }
    }

    /// The command to register when the bot is ready.
    pub fn command(&self) -> (c: CommandSpec)
        ensures
            c.name@ == "miivserse-mod-application"@,
            c.description@ == "Apply for miiverse moderator"@,
            c.options@.len() == 0,
    {
        plain_command("miivserse-mod-application", "Apply for miiverse moderator")
    }

    /// Records the id Discord gave the registered command; the first id stays.
    pub fn ready(&mut self, command_id: u64)
        ensures
            final(self).command_id() == registered(old(self).command_id(), command_id),
    {
        self.registration.set(command_id);
    }

    /// The form to show for a command interaction with id `command_id`: the
    /// application form when it is this handler's command, none otherwise.
    pub fn interaction_create(&self, command_id: u64) -> (r: Option<ModalForm>)
        ensures
            r is Some <==> self.command_id() == Some(command_id),
            r matches Some(form) ==> {
                &&& form.title@ == "Miiverse Moderator Application Form"@
                &&& inputs_view(form.inputs@) == seq![
                    (false, timezone_question(), true, None::<u16>),
                    (false, availability_question(), true, None::<u16>),
                    (true, motivation_question(), true, None::<u16>),
                ]
            },
    {
        if !self.registration.is_command(command_id) {
            return None;
        }
        let mut inputs: Vec<TextInput> = Vec::new();
        inputs.push(text_input(false, "Whats your timezone?", true, None));
        inputs.push(text_input(false, "How long are you usually availible every day?", true, None));
        inputs.push(text_input(true, "Why should we pick you?", true, None));
        let form = modal_form("Miiverse Moderator Application Form", inputs);
        assert(inputs_view(form.inputs@) =~= seq![
            (false, timezone_question(), true, None::<u16>),
            (false, availability_question(), true, None::<u16>),
            (true, motivation_question(), true, None::<u16>),
        ]);
        Some(form)
    }

    /// The private answer to the one who sent the form.
    pub fn acknowledgement(&self) -> (s: String)
        ensures
            s@ == "application has been sent"@,
    {
        String::from_str("application has been sent")
    }

    /// The application posted for the answers `inputs` of the form: in the
    /// moderators' channel, each question a field with its answer.
    pub fn report(&self, inputs: &Vec<String>) -> (p: ChannelPost)
        requires
            inputs@.len() >= 3,
        ensures
            p.channel_id == APPLICATION_CHANNEL,
            p.content is None,
            p.title@ == "New Miiverse application"@,
            p.description is None,
            fields_view(p.fields@) == seq![
                (timezone_question(), inputs@[0]@, false),
                (availability_question(), inputs@[1]@, false),
                (motivation_question(), inputs@[2]@, false),
            ],
            p.colour == APPLICATION_COLOUR,
    {
        let mut fields: Vec<EmbedField> = Vec::new();
        push_field(&mut fields, embed_field("Whats your timezone?", inputs[0].clone(), false));
        push_field(
            &mut fields,
            embed_field("How long are you usually availible every day?", inputs[1].clone(), false),
        );
        push_field(&mut fields, embed_field("Why should we pick you?", inputs[2].clone(), false));
        ChannelPost {
            channel_id: APPLICATION_CHANNEL,
            content: None,
            title: String::from_str("New Miiverse application"),
            description: None,
            fields,
            colour: APPLICATION_COLOUR,
        }
    }
}

} // verus!
