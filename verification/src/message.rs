//! Lines of text that the core hands to the external console collaborator.
//! The core only produces these values; displaying them is out of scope.

use vstd::prelude::*;

verus! {

/// Colour tag for a console line; rendering decides the actual colour.
#[derive(Clone, Copy, Debug, PartialEq, Eq, Structural)]
pub enum MessageColor {
    White,
    Yellow,
    Green,
    Cyan,
}

/// One line of operator-facing text with its colour tag.
#[derive(Debug)]
pub struct Message {
    pub text: String,
    pub color: MessageColor,
}

/// The view of a message list: each line as its text characters and
/// colour tag.
pub open spec fn msgs_view(msgs: Seq<Message>) -> Seq<(Seq<char>, MessageColor)> {
    msgs.map_values(|m: Message| (m.text@, m.color))
}

impl Message {
    /// Builds a message from a string slice.
    pub fn new(text: &str, color: MessageColor) -> (m: Message)
        ensures
            m.text@ == text@,
            m.color == color,
    {
        Message { text: text.to_owned(), color }
    }
}

} // verus!
