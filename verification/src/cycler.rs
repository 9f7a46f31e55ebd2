use vstd::prelude::*;

verus! {

broadcast use vstd::string::to_string_from_display_ensures_for_str;

/// Number of display messages in the cycle.
pub const MESSAGE_COUNT: usize = 3;

/// Frames between message transitions.
pub const MESSAGE_DELAY: u64 = 80;

/// The text shown at each position of the message cycle; positions at or
/// past the last one give the last text.
pub open spec fn message_text(i: int) -> Seq<char> {
    if i == 0 {
        "Be yourself."@
    } else if i == 1 {
        "Stay true to yourself."@
    } else {
        "Embrace your uniqueness."@
    }
}

/// The cycle position after one transition.
pub open spec fn next_index(i: int) -> int {
    if i + 1 < MESSAGE_COUNT {
        i + 1
    } else {
        0
    }
}

/// An immutable display text; the cycler replaces it wholesale on each
/// transition.
#[derive(Debug)]
pub struct Message {
    pub text: String,
}

impl Message {
    pub fn new(text: String) -> (m: Message)
        ensures
            m.text == text,
    {
        Message { text }
    }
}

/// The message at cycle position `i`.
pub fn message_for(i: usize) -> (m: Message)
    ensures
        m.text@ == message_text(i as int),
{
    let s: &str = if i == 0 {
        "Be yourself."
    } else if i == 1 {
        "Stay true to yourself."
    } else {
        "Embrace your uniqueness."
    };
    Message::new(s.to_string())
}

/// The message cycle has period three: three transitions return any
/// position to itself.
pub proof fn lemma_message_cycle(i: int)
    requires
        0 <= i < MESSAGE_COUNT,
    ensures
        next_index(next_index(next_index(i))) == i,
{
}

} // verus!
