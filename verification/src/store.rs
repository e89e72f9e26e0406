//! The local store: a durable map from the three keys the playground uses
//! to encoded payloads, with typed writes and reads.

use vstd::prelude::*;
use crate::json::{
    decode_flag, decode_mode, decode_text, decoded_flag, decoded_mode, decoded_text, encode_flag,
    encode_mode, encode_text, encoded_flag, encoded_mode, encoded_text, flag_round_trip,
    mode_round_trip, text_round_trip,
};
use crate::mode::ParseMode;
use crate::text::same_text;

verus! {

/// A key of the local store. The playground uses these three and no other.
#[derive(Clone, Copy, Debug, PartialEq, Eq, Structural)]
pub enum Key {
    /// `type`: the parse mode.
    Type,
    /// `value`: the input text.
    Value,
    /// `dark`: the theme flag.
    Dark,
}

/// The name of a key in the store and in links.
pub open spec fn key_name(key: Key) -> Seq<char> {
    match key {
        Key::Type => "type"@,
        Key::Value => "value"@,
        Key::Dark => "dark"@,
    }
}

/// The key that a name stands for, if any.
pub open spec fn key_named(name: Seq<char>) -> Option<Key> {
    if name == "type"@ {
        Some(Key::Type)
    } else if name == "value"@ {
        Some(Key::Value)
    } else if name == "dark"@ {
        Some(Key::Dark)
    } else {
        None
    }
}

/// The three key names differ, so each one reads back as its key.
pub proof fn key_name_round_trip(key: Key)
    ensures
        key_named(key_name(key)) == Some(key),
{
    reveal_strlit("type");
    reveal_strlit("value");
    reveal_strlit("dark");
    assert("type"@[0] == 't' && "dark"@[0] == 'd');
    assert("type"@.len() == 4 && "value"@.len() == 5 && "dark"@.len() == 4);
}

impl Key {
    /// The name of this key.
    pub fn name(&self) -> (name: &'static str)
        ensures
            name@ == key_name(*self),
    {
        match self {
            Key::Type => "type",
            Key::Value => "value",
            Key::Dark => "dark",
        }
    }

    /// The key with the given name, if it is one of the three.
    pub fn from_name(name: &str) -> (key: Option<Key>)
        ensures
            key == key_named(name@),
    {
        if same_text(name, "type") {
            Some(Key::Type)
        } else if same_text(name, "value") {
            Some(Key::Value)
        } else if same_text(name, "dark") {
            Some(Key::Dark)
        } else {
            None
        }
    }
}

/// The mode that a store holds under `type`, if it holds one that decodes.
pub open spec fn stored_mode(entries: Map<Key, Seq<char>>) -> Option<ParseMode> {
    if entries.contains_key(Key::Type) {
        decoded_mode(entries[Key::Type])
    } else {
        None
    }
}

/// The text that a store holds under `value`, if it holds one that decodes.
pub open spec fn stored_value(entries: Map<Key, Seq<char>>) -> Option<Seq<char>> {
    if entries.contains_key(Key::Value) {
        decoded_text(entries[Key::Value])
    } else {
        None
    }
}

/// The flag that a store holds under `dark`, if it holds one that decodes.
pub open spec fn stored_dark(entries: Map<Key, Seq<char>>) -> Option<bool> {
    if entries.contains_key(Key::Dark) {
        decoded_flag(entries[Key::Dark])
    } else {
        None
    }
}

/// The payloads of the local store, by key.
#[derive(Debug)]
pub struct LocalStore {
    kind: Option<String>,
    value: Option<String>,
    dark: Option<String>,
}

impl View for LocalStore {
    type V = Map<Key, Seq<char>>;

    closed spec fn view(&self) -> Map<Key, Seq<char>> {
        let none = Map::<Key, Seq<char>>::empty();
        let kind = match self.kind {
            Some(payload) => none.insert(Key::Type, payload@),
            None => none,
        };
        let value = match self.value {
            Some(payload) => kind.insert(Key::Value, payload@),
            None => kind,
        };
        match self.dark {
            Some(payload) => value.insert(Key::Dark, payload@),
            None => value,
        }
    }
}

impl Clone for LocalStore {
    fn clone(&self) -> (copy: LocalStore)
        ensures
            copy@ == self@,
    {
        let copy = LocalStore { kind: self.kind.clone(), value: self.value.clone(), dark: self.dark.clone() };
        assert(copy@ =~= self@);
        copy
    }
}

impl LocalStore {
    /// A store that holds nothing, as on a first visit or where the browser
    /// offers no storage.
    pub fn new() -> (store: LocalStore)
        ensures
            store@ == Map::<Key, Seq<char>>::empty(),
    {
        let store = LocalStore { kind: None, value: None, dark: None };
        assert(store@ =~= Map::<Key, Seq<char>>::empty());
        store
    }

    /// The payload under `key`, as it was written.
    pub fn raw(&self, key: Key) -> (payload: Option<&str>)
        ensures
            match payload {
                Some(p) => self@.contains_key(key) && self@[key] == p@,
                None => !self@.contains_key(key),
            },
    {
        let slot = match key {
            Key::Type => &self.kind,
            Key::Value => &self.value,
            Key::Dark => &self.dark,
        };
        match slot {
            Some(p) => Some(p.as_str()),
            None => None,
        }
    }

    /// Writes a payload under `key`, replacing what was there.
    pub fn set_raw(&mut self, key: Key, payload: String)
        ensures
            final(self)@ == old(self)@.insert(key, payload@),
    {
        match key {
            Key::Type => {
                self.kind = Some(payload);
            },
            Key::Value => {
                self.value = Some(payload);
            },
            Key::Dark => {
                self.dark = Some(payload);
            },
        }
        assert(self@ =~= old(self)@.insert(key, payload@));
    }

    /// Writes the mode under `type`.
    pub fn store_mode(&mut self, mode: ParseMode)
        ensures
            final(self)@ == old(self)@.insert(Key::Type, encoded_mode(mode)),
            stored_mode(final(self)@) == Some(mode),
    {
        proof {
            mode_round_trip(mode);
        }
        self.set_raw(Key::Type, encode_mode(mode));
    }

    /// Writes the input text under `value`.
    pub fn store_value(&mut self, text: &str)
        ensures
            final(self)@ == old(self)@.insert(Key::Value, encoded_text(text@)),
            stored_value(final(self)@) == Some(text@),
    {
        proof {
            text_round_trip(text@);
        }
        self.set_raw(Key::Value, encode_text(text));
    }

    /// Writes the theme flag under `dark`.
    pub fn store_dark(&mut self, dark: bool)
        ensures
            final(self)@ == old(self)@.insert(Key::Dark, encoded_flag(dark)),
            stored_dark(final(self)@) == Some(dark),
    {
        proof {
            flag_round_trip(dark);
        }
        self.set_raw(Key::Dark, encode_flag(dark));
    }

    /// The mode under `type`; none where the key is missing or its payload
    /// does not decode to a mode.
    pub fn load_mode(&self) -> (mode: Option<ParseMode>)
        ensures
            mode == stored_mode(self@),
    {
        match self.raw(Key::Type) {
            Some(payload) => decode_mode(payload),
            None => None,
        }
    }

    /// The text under `value`; none where the key is missing or its payload
    /// does not decode to a text.
    pub fn load_value(&self) -> (text: Option<String>)
        ensures
            match text {
                Some(t) => stored_value(self@) == Some(t@),
                None => stored_value(self@) is None,
            },
    {
        match self.raw(Key::Value) {
            Some(payload) => decode_text(payload),
            None => None,
        }
    }

    /// The flag under `dark`; none where the key is missing or its payload
    /// does not decode to a flag.
    pub fn load_dark(&self) -> (dark: Option<bool>)
        ensures
            dark == stored_dark(self@),
    {
        match self.raw(Key::Dark) {
            Some(payload) => decode_flag(payload),
            None => None,
        }
    }
}

/// A write under one key leaves what the other keys hold as it was.
pub proof fn write_keeps_other_keys(entries: Map<Key, Seq<char>>, key: Key, payload: Seq<char>)
    ensures
        key != Key::Type ==> stored_mode(entries.insert(key, payload)) == stored_mode(entries),
        key != Key::Value ==> stored_value(entries.insert(key, payload)) == stored_value(entries),
        key != Key::Dark ==> stored_dark(entries.insert(key, payload)) == stored_dark(entries),
{
}

} // verus!
