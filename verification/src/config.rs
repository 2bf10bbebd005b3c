//! Host-facing configuration values: which key layout to use, how large to
//! render the screen, how chatty the host should be, and where the program
//! image comes from.  The types are plain data; reading the command line and
//! mapping physical keys belong to the host.

use vstd::prelude::*;

verus! {

/// The physical keyboard layout whose keys the host maps onto the keypad.
#[derive(Clone, Copy, Debug, PartialEq, Eq, Structural)]
pub enum Keymap {
    Colemak,
    Qwerty,
}

/// The rendering size of the host window.
#[derive(Clone, Copy, Debug, PartialEq, Eq, Structural)]
pub enum Size {
    Small,
    Normal,
    Large,
}

impl Size {
    /// The side length in host pixels of one screen cell at this size.
    pub fn scale(&self) -> (s: u32)
        ensures
            s == self.spec_scale(),
            1 <= s <= 16,
    {
        match self {
            Size::Small => 4,
            Size::Normal => 8,
            Size::Large => 16,
        }
    }

    /// The scale factor each size stands for.
    pub open spec fn spec_scale(self) -> u32 {
        match self {
            Size::Small => 4,
            Size::Normal => 8,
            Size::Large => 16,
        }
    }
}

/// What the machine was asked to run: a key layout, a window size, a
/// verbosity level, and the path of the program image.
#[derive(Clone, Debug)]
pub struct Config {
    pub keymap: Keymap,
    pub size: Size,
    pub verbose: u8,
    pub program: String,
}

/// What the host's event source asks of the run loop.
#[derive(Clone, Copy, Debug, PartialEq, Eq, Structural)]
pub enum Action {
    Continue,
    Quit,
}

} // verus!
