//! A multi-line text input that reports each edit and, where asked to, the
//! submit chord.

use vstd::prelude::*;

verus! {

/// The key code of the Enter key.
pub const ENTER_KEY: u32 = 13;

/// Whether a key press is the submit chord: Enter together with Meta or
/// Control.
pub open spec fn submit_chord(key_code: u32, meta_key: bool, ctrl_key: bool) -> bool {
    key_code == ENTER_KEY && (meta_key || ctrl_key)
}

/// Decides whether a key press is the submit chord.
pub fn is_submit_chord(key_code: u32, meta_key: bool, ctrl_key: bool) -> (chord: bool)
    ensures
        chord == submit_chord(key_code, meta_key, ctrl_key),
{
    key_code == ENTER_KEY && (meta_key || ctrl_key)
}

/// A text area: its placeholder, its current value, the function that turns
/// an edited text into a message, and the message of the submit chord.
pub struct TextArea<Message, F> {
    placeholder: String,
    value: String,
    on_change: F,
    on_submit: Option<Message>,
}

impl<Message, F: Fn(String) -> Message> TextArea<Message, F> {
    /// The value of the `placeholder` attribute.
    pub closed spec fn placeholder_text(&self) -> Seq<char> {
        self.placeholder@
    }

    /// The value of the `value` attribute.
    pub closed spec fn value_text(&self) -> Seq<char> {
        self.value@
    }

    /// The function that makes the message of an edit.
    pub closed spec fn change_handler(&self) -> F {
        self.on_change
    }

    /// The message of the submit chord, if the chord is listened for.
    pub closed spec fn submit_message(&self) -> Option<Message> {
        self.on_submit
    }

    /// A text area that does not listen for the submit chord.
    pub fn new(placeholder: &str, value: &str, on_change: F) -> (area: Self)
        ensures
            area.placeholder_text() == placeholder@,
            area.value_text() == value@,
            area.change_handler() == on_change,
            area.submit_message() is None,
    {
        TextArea {
            placeholder: placeholder.to_owned(),
            value: value.to_owned(),
            on_change,
            on_submit: None,
        }
    }

    /// The same text area, now publishing `message` on the submit chord.
    pub fn on_submit(self, message: Message) -> (area: Self)
        ensures
            area.placeholder_text() == self.placeholder_text(),
            area.value_text() == self.value_text(),
            area.change_handler() == self.change_handler(),
            area.submit_message() == Some(message),
    {
        let mut area = self;
        area.on_submit = Some(message);
        area
    }

    /// The value of the `placeholder` attribute.
    pub fn placeholder(&self) -> (text: &str)
        ensures
            text@ == self.placeholder_text(),
    {
        self.placeholder.as_str()
    }

    /// The value of the `value` attribute.
    pub fn value(&self) -> (text: &str)
        ensures
            text@ == self.value_text(),
    {
        self.value.as_str()
    }

    /// Whether the text area listens for key presses at all.
    pub fn listens_for_submit(&self) -> (listens: bool)
        ensures
            listens == (self.submit_message() is Some),
    {
        self.on_submit.is_some()
    }

    /// The message to publish when the text was edited to `text`: whatever
    /// the change handler makes of it.
    pub fn input_message(&self, text: String) -> (message: Message)
        requires
            call_requires(self.change_handler(), (text,)),
        ensures
            call_ensures(self.change_handler(), (text,), message),
    {
        (self.on_change)(text)
    }

    /// The message to publish on a key press: the submit message on the
    /// submit chord, where one was set, and nothing on any other key.
    pub fn keydown_message(&self, key_code: u32, meta_key: bool, ctrl_key: bool) -> (message: Option<
        &Message,
    >)
        ensures
            message is Some <==> submit_chord(key_code, meta_key, ctrl_key) && self.submit_message() is Some,
            message matches Some(m) ==> self.submit_message() == Some(*m),
    {
        if is_submit_chord(key_code, meta_key, ctrl_key) {
            self.on_submit.as_ref()
        } else {
            None
        }
    }
}

} // verus!
