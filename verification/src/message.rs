//! Plain descriptions of what the bot sends: embed fields, slash commands and
//! modal forms.  The program that talks to Discord turns them into requests.

use vstd::prelude::*;

verus! {

/// One field of an embed.
pub struct EmbedField {
    pub name: String,
    pub value: String,
    pub inline: bool,
}

impl View for EmbedField {
    type V = (Seq<char>, Seq<char>, bool);

    open spec fn view(&self) -> (Seq<char>, Seq<char>, bool) {
        (self.name@, self.value@, self.inline)
    }
}

/// The fields of an embed, each by its view.
pub open spec fn fields_view(fields: Seq<EmbedField>) -> Seq<(Seq<char>, Seq<char>, bool)> {
    fields.map_values(|f: EmbedField| f@)
}

/// Makes an embed field.
pub fn embed_field(name: &str, value: String, inline: bool) -> (f: EmbedField)
    ensures
        f@ == (name@, value@, inline),
{
    EmbedField { name: String::from_str(name), value, inline }
}

/// Appends a field to a list of fields.
pub fn push_field(fields: &mut Vec<EmbedField>, f: EmbedField)
    ensures
        fields_view(final(fields)@) == fields_view(old(fields)@).push(f@),
{
    fields.push(f);
    assert(fields_view(fields@) =~= fields_view(old(fields)@).push(f@));
}

/// An option of a slash command; every option the bot declares takes a string.
pub struct CommandOption {
    pub name: String,
    pub description: String,
    pub required: bool,
}

impl View for CommandOption {
    type V = (Seq<char>, Seq<char>, bool);

    open spec fn view(&self) -> (Seq<char>, Seq<char>, bool) {
        (self.name@, self.description@, self.required)
    }
}

/// A slash command to register.
pub struct CommandSpec {
    pub name: String,
    pub description: String,
    pub options: Vec<CommandOption>,
}

/// The options of a command, each by its view.
pub open spec fn options_view(options: Seq<CommandOption>) -> Seq<(Seq<char>, Seq<char>, bool)> {
    options.map_values(|o: CommandOption| o@)
}

/// One text input of a modal form.  Discord fills in the custom id of the
/// inputs of a quick modal itself, so these carry none.
pub struct TextInput {
    /// A multi-line input rather than a single line.
    pub paragraph: bool,
    pub label: String,
    pub required: bool,
    pub min_length: Option<u16>,
}

impl View for TextInput {
    type V = (bool, Seq<char>, bool, Option<u16>);

    open spec fn view(&self) -> (bool, Seq<char>, bool, Option<u16>) {
        (self.paragraph, self.label@, self.required, self.min_length)
    }
}

/// A modal form shown in answer to a command.
pub struct ModalForm {
    pub title: String,
    pub inputs: Vec<TextInput>,
}

/// The inputs of a form, each by its view.
pub open spec fn inputs_view(inputs: Seq<TextInput>) -> Seq<(bool, Seq<char>, bool, Option<u16>)> {
    inputs.map_values(|i: TextInput| i@)
}

/// Makes a text input.
pub fn text_input(paragraph: bool, label: &str, required: bool, min_length: Option<u16>) -> (i:
    TextInput)
    ensures
        i@ == (paragraph, label@, required, min_length),
{
    TextInput { paragraph, label: String::from_str(label), required, min_length }
}

/// Makes a form of the given inputs.
pub fn modal_form(title: &str, inputs: Vec<TextInput>) -> (f: ModalForm)
    ensures
        f.title@ == title@,
        f.inputs@ == inputs@,
{
    ModalForm { title: String::from_str(title), inputs }
}

/// A message the bot posts in a channel: optional text and an embed with a
/// title, an optional description, fields and a colour.  The embed also shows
/// who it is about and when it was posted, which the sender adds.
pub struct ChannelPost {
    pub channel_id: u64,
    pub content: Option<String>,
    pub title: String,
    pub description: Option<String>,
    pub fields: Vec<EmbedField>,
    pub colour: u32,
}

/// Makes a command without options.
pub fn plain_command(name: &str, description: &str) -> (c: CommandSpec)
    ensures
        c.name@ == name@,
        c.description@ == description@,
        c.options@.len() == 0,
{
    CommandSpec {
        name: String::from_str(name),
        description: String::from_str(description),
        options: Vec::new(),
    }
}

/// The recorded id after registering a command with id `id`: the first id
/// recorded stays.
pub open spec fn registered(recorded: Option<u64>, id: u64) -> Option<u64> {
    match recorded {
        Some(first) => Some(first),
        None => Some(id),
    }
}

/// The record a slash command remembers of itself: the id Discord gave it when
/// it was registered.  It is set once; a later registration does not change it.
pub struct CommandRegistration {
    pub command_id: Option<u64>,
}

impl CommandRegistration {
    /// No command registered yet.
    pub fn new() -> (r: Self)
        ensures
            r.command_id is None,
    {
        CommandRegistration { command_id: None }
    }

    /// Records the id of the registered command, unless one is recorded already.
    pub fn set(&mut self, id: u64)
        ensures
            final(self).command_id == registered(old(self).command_id, id),
    {
        if self.command_id.is_none() {
            self.command_id = Some(id);
        }
    }

    /// Whether a command interaction with id `id` is the registered command: it is
    /// when an id is recorded and equals `id`.
    pub fn is_command(&self, id: u64) -> (r: bool)
        ensures
            r == (self.command_id == Some(id)),
    {
        match self.command_id {
            Some(known) => known == id,
            None => false,
        }
    }
}

/// Once an id is recorded, registering again keeps it: after two registrations,
/// the command answers to the first id and not to a different second one.
pub proof fn law_first_registration_wins(a: u64, b: u64)
    ensures
        registered(registered(None, a), b) == Some(a),
        a != b ==> registered(registered(None, a), b) != Some(b),
{
}

} // verus!
