//! Chat session history.
use vstd::prelude::*;

use crate::text::is_prefix_of;

verus! {

/// The history after one more turn.
pub open spec fn history_after(history: Seq<char>, user: Seq<char>, assistant: Seq<char>) -> Seq<char> {
    history + "\nUser: "@ + user + "\nAssistant: "@ + assistant + "\n"@
}

/// Appends one turn to a chat history.
pub fn append_turn_history(history: &str, user: &str, assistant: &str) -> (r: String)
    ensures
        r@ == history_after(history@, user@, assistant@),
{
    let mut r = String::from_str(history);
    r.append("\nUser: ");
    r.append(user);
    r.append("\nAssistant: ");
    r.append(assistant);
    r.append("\n");
    r
}

/// A chat history only grows: the old history is a prefix of the new one.
pub proof fn law_history_grows(history: Seq<char>, user: Seq<char>, assistant: Seq<char>)
    ensures
        is_prefix_of(history, history_after(history, user, assistant)),
{
    assert(history_after(history, user, assistant).subrange(0, history.len() as int) =~= history);
}

} // verus!
