//! Chat text.

use vstd::prelude::*;

verus! {

/// A piece of chat text. On the wire and in a status answer it travels as a
/// JSON object with the one member `text`.
#[derive(Debug, Clone, PartialEq, Eq)]
pub struct Text {
    pub text: String,
}

/// A chat text as plain values.
pub struct TextView {
    pub text: Seq<char>,
}

impl View for Text {
    type V = TextView;

    open spec fn view(&self) -> TextView {
        TextView { text: self.text@ }
    }
}

} // verus!
