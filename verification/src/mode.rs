//! The three parse modes, their names on the wire, and the radio group that
//! shows which one is selected.

use vstd::prelude::*;
use crate::text::same_text;

verus! {

/// How the input text is to be read.
#[derive(Clone, Copy, Debug, PartialEq, Eq, Structural)]
pub enum ParseMode {
    /// Hex first, diagnostic notation if that fails.
    Auto,
    /// A hexadecimal byte sequence.
    Hex,
    /// CBOR diagnostic notation.
    Diag,
}

/// The lowercase name under which a mode is stored and put into links.
pub open spec fn name_of(mode: ParseMode) -> Seq<char> {
    match mode {
        ParseMode::Auto => "auto"@,
        ParseMode::Hex => "hex"@,
        ParseMode::Diag => "diag"@,
    }
}

/// The mode that a name stands for; an unknown name stands for none.
pub open spec fn mode_named(name: Seq<char>) -> Option<ParseMode> {
    if name == "auto"@ {
        Some(ParseMode::Auto)
    } else if name == "hex"@ {
        Some(ParseMode::Hex)
    } else if name == "diag"@ {
        Some(ParseMode::Diag)
    } else {
        None
    }
}

/// Reading back the name of a mode gives that mode.
pub proof fn name_round_trip(mode: ParseMode)
    ensures
        mode_named(name_of(mode)) == Some(mode),
{
    reveal_strlit("auto");
    reveal_strlit("hex");
    reveal_strlit("diag");
    assert("auto"@[0] == 'a' && "diag"@[0] == 'd');
    assert("hex"@.len() == 3 && "auto"@.len() == 4 && "diag"@.len() == 4);
}

/// A name is read as a mode only if it is exactly that mode's name.
pub proof fn named_mode_has_that_name(name: Seq<char>)
    ensures
        mode_named(name) matches Some(mode) ==> name_of(mode) == name,
{
}

impl Default for ParseMode {
    fn default() -> (mode: ParseMode)
        ensures
            mode == ParseMode::Auto,
    {
        ParseMode::Auto
    }
}

impl ParseMode {
    /// The name of this mode: `auto`, `hex` or `diag`.
    pub fn name(&self) -> (name: &'static str)
        ensures
            name@ == name_of(*self),
    {
        match self {
            ParseMode::Auto => "auto",
            ParseMode::Hex => "hex",
            ParseMode::Diag => "diag",
        }
    }

    /// Reads a mode from its name. Anything else, differing even in case, is
    /// no mode at all; it is not taken for `Auto`.
    pub fn from_name(name: &str) -> (mode: Option<ParseMode>)
        ensures
            mode == mode_named(name@),
    {
        if same_text(name, "auto") {
            Some(ParseMode::Auto)
        } else if same_text(name, "hex") {
            Some(ParseMode::Hex)
        } else if same_text(name, "diag") {
            Some(ParseMode::Diag)
        } else {
            None
        }
    }
}

/// The group of three radio inputs named `type`, one per mode, in the order
/// in which the page shows them.
#[derive(Clone, Copy, Debug, PartialEq, Eq, Structural)]
pub struct ModeRegistry {
    /// Whether the radio with value `auto` is checked.
    pub auto: bool,
    /// Whether the radio with value `hex` is checked.
    pub hex: bool,
    /// Whether the radio with value `diag` is checked.
    pub diag: bool,
}

impl ModeRegistry {
    /// Exactly one radio is checked.
    pub open spec fn one_selected(self) -> bool {
        (self.auto && !self.hex && !self.diag) || (!self.auto && self.hex && !self.diag) || (
        !self.auto && !self.hex && self.diag)
    }

    /// Whether the radio of the given mode is checked.
    pub open spec fn checked(self, mode: ParseMode) -> bool {
        match mode {
            ParseMode::Auto => self.auto,
            ParseMode::Hex => self.hex,
            ParseMode::Diag => self.diag,
        }
    }

    /// The mode of the first checked radio, and `Auto` where none is checked.
    pub open spec fn selected(self) -> ParseMode {
        if self.auto {
            ParseMode::Auto
        } else if self.hex {
            ParseMode::Hex
        } else if self.diag {
            ParseMode::Diag
        } else {
            ParseMode::Auto
        }
    }

    /// The group with only the radio of `mode` checked.
    pub open spec fn showing(mode: ParseMode) -> ModeRegistry {
        ModeRegistry {
            auto: mode == ParseMode::Auto,
            hex: mode == ParseMode::Hex,
            diag: mode == ParseMode::Diag,
        }
    }

    /// A group with the radio of `mode` checked.
    pub fn new(mode: ParseMode) -> (group: ModeRegistry)
        ensures
            group == Self::showing(mode),
    {
        let mut group = ModeRegistry { auto: false, hex: false, diag: false };
        group.set_mode(mode);
        group
    }

    /// The mode of whichever radio is checked. A group with no radio checked
    /// reads as `Auto`.
    pub fn current_mode(&self) -> (mode: ParseMode)
        ensures
            mode == self.selected(),
            self.one_selected() ==> self.checked(mode),
    {
        if self.auto {
            ParseMode::Auto
        } else if self.hex {
            ParseMode::Hex
        } else if self.diag {
            ParseMode::Diag
        } else {
            ParseMode::Auto
        }
    }

    /// Checks the radio of `mode`; as in any radio group, the others are then
    /// unchecked.
    pub fn set_mode(&mut self, mode: ParseMode)
        ensures
            *final(self) == Self::showing(mode),
    {
        self.auto = matches!(mode, ParseMode::Auto);
        self.hex = matches!(mode, ParseMode::Hex);
        self.diag = matches!(mode, ParseMode::Diag);
    }
}

/// After a mode was set, the group has exactly one radio checked and reads as
/// that mode.
pub proof fn set_then_current(mode: ParseMode)
    ensures
        ModeRegistry::showing(mode).one_selected(),
        ModeRegistry::showing(mode).selected() == mode,
{
}

} // verus!
