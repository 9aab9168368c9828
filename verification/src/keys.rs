//! Keys that the user presses.

use vstd::prelude::*;

use crate::text::same_text;

verus! {

/// The modifiers held down with a key.
#[derive(Clone, Copy, PartialEq, Eq, Structural, Debug)]
pub struct Modifiers {
    pub control: bool,
    pub alt: bool,
    pub shift: bool,
    pub platform: bool,
    pub function: bool,
}

impl Modifiers {
    /// Any modifier is held.
    pub open spec fn any(&self) -> bool {
        self.control || self.alt || self.shift || self.platform || self.function
    }

    /// Whether any modifier is held.
    pub fn modified(&self) -> (r: bool)
        ensures
            r == self.any(),
    {
        self.control || self.alt || self.shift || self.platform || self.function
    }

    pub fn none() -> (r: Self)
        ensures
            !r.any(),
    {
        Modifiers { control: false, alt: false, shift: false, platform: false, function: false }
    }
}

/// A key, the modifiers held with it, and the text that it types.
#[derive(PartialEq, Eq, Debug)]
pub struct Keystroke {
    pub key: String,
    pub key_char: Option<String>,
    pub modifiers: Modifiers,
}

impl Keystroke {
    /// It is the named key with no modifier.
    pub open spec fn is_plain(&self, key: Seq<char>) -> bool {
        self.key@ == key && !self.modifiers.any()
    }

    /// Whether it is the named key with no modifier.
    pub fn plain(&self, key: &str) -> (r: bool)
        ensures
            r == self.is_plain(key@),
    {
        same_text(self.key.as_str(), key) && !self.modifiers.modified()
    }

    /// Whether it is the named key, with whatever modifiers.
    pub fn named(&self, key: &str) -> (r: bool)
        ensures
            r == (self.key@ == key@),
    {
        same_text(self.key.as_str(), key)
    }

    /// It pastes.
    pub open spec fn is_paste(&self) -> bool {
        self.modifiers.platform && self.key@ == "v"@
    }

    /// Whether it pastes.
    pub fn pastes(&self) -> (r: bool)
        ensures
            r == self.is_paste(),
    {
        self.modifiers.platform && same_text(self.key.as_str(), "v")
    }
}

/// What a key does in a dialog with one field.
#[derive(PartialEq, Eq, Debug)]
pub enum FieldKey {
    /// The dialog is submitted.
    Submit,
    /// The field now holds this text.
    Edited(String),
    /// The key is for someone else.
    Unused,
}

/// What a key does in a dialog with one field: enter submits, and otherwise the field takes it.
/// `typed` is what the field holds once it took the key, or what was pasted; nothing where it did
/// not.
pub fn field_key(stroke: &Keystroke, typed: Option<String>) -> (r: FieldKey)
    ensures
        r == if stroke.is_plain("enter"@) {
            FieldKey::Submit
        } else {
            match typed {
                Some(text) => FieldKey::Edited(text),
                None => FieldKey::Unused,
            }
        },
{
    if stroke.plain("enter") {
        return FieldKey::Submit;
    }
    match typed {
        Some(text) => FieldKey::Edited(text),
        None => FieldKey::Unused,
    }
}

}
