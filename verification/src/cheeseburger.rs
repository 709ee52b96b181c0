//! Answers any mention of a cheeseburger.
//!
//! A message mentions one where the pattern `[Cc]heeseburger(s)?` matches, that
//! is where "cheeseburger" or "Cheeseburger" occurs in it.

use vstd::prelude::*;
use crate::text::{occurs_in, str_contains, law_occurs_anywhere};

verus! {

/// The text mentions a cheeseburger.
pub open spec fn mentions_cheeseburger(s: Seq<char>) -> bool {
    occurs_in(s, "cheeseburger"@) || occurs_in(s, "Cheeseburger"@)
}

/// The fixed reply.
pub open spec fn cheeseburger_reply() -> Seq<char> {
    "currently scratching the FUCK out of my bum bum idgaf"@
}

/// Answers any mention of a cheeseburger.
pub struct CheeseburgerHandler;

impl CheeseburgerHandler {
    /// The reply to a message, if it gets one: one that is not from a bot and
    /// mentions a cheeseburger gets the fixed reply, any other none.
    pub fn message(&self, author_is_bot: bool, content: &str) -> (reply: Option<String>)
        ensures
            reply is Some <==> !author_is_bot && mentions_cheeseburger(content@),
            reply matches Some(text) ==> text@ == cheeseburger_reply(),
    {
        if author_is_bot {
            return None;
        }
        if str_contains(content, "cheeseburger") || str_contains(content, "Cheeseburger") {
            Some(String::from_str("currently scratching the FUCK out of my bum bum idgaf"))
        } else {
            None
        }
    }
}

/// Whatever precedes and follows it, newlines included, a "cheeseburger" or a
/// "Cheeseburger" in a message is a mention.
pub proof fn law_mention_anywhere(u: Seq<char>, v: Seq<char>)
    ensures
        mentions_cheeseburger(u + "cheeseburger"@ + v),
        mentions_cheeseburger(u + "Cheeseburger"@ + v),
{
    law_occurs_anywhere(u, "cheeseburger"@, v);
    law_occurs_anywhere(u, "Cheeseburger"@, v);
}

} // verus!
