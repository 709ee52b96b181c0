//! Answers the error code `151-0204` a second time, in other words.

use vstd::prelude::*;
use crate::text::{occurs_in, str_contains, law_occurs_anywhere};

verus! {

/// The fixed reply.
pub open spec fn too_fat_reply() -> Seq<char> {
    "in other words your too fat"@
}

/// Answers any message that holds `151-0204`, from bots too; the reply is meant
/// to be sent a second after the message.
pub struct TooFatHandler;

impl TooFatHandler {
    /// The reply to a message, if it gets one: any message whose text holds
    /// `151-0204` gets the fixed reply, any other none.
    pub fn message(&self, content: &str) -> (reply: Option<String>)
        ensures
            reply is Some <==> occurs_in(content@, "151-0204"@),
            reply matches Some(text) ==> text@ == too_fat_reply(),
    {
        if str_contains(content, "151-0204") {
            Some(String::from_str("in other words your too fat"))
        } else {
            None
        }
    }
}

/// Whatever precedes and follows it, however long, a message holding
/// `151-0204` is one the handler answers.
pub proof fn law_code_anywhere(u: Seq<char>, v: Seq<char>)
    ensures
        occurs_in(u + "151-0204"@ + v, "151-0204"@),
{
    law_occurs_anywhere(u, "151-0204"@, v);
}

} // verus!
