//! What the policy does with its verdict.

use crate::text::same;
use vstd::prelude::*;

verus! {

/// How far the policy reaches into the traffic.
#[derive(Clone, Copy, Debug, PartialEq, Eq, Structural)]
pub enum Mode {
    /// Classify, set the upstream header, reject the listed verdicts.
    Enforce,
    /// Classify and record only.
    Shadow,
    /// Let everything pass.
    Off,
}

/// The mode that a configuration names. An unknown name is the safe one, `shadow`.
pub open spec fn mode_of(name: Seq<char>) -> Mode {
    if name == "enforce"@ {
        Mode::Enforce
    } else if name == "off"@ {
        Mode::Off
    } else {
        Mode::Shadow
    }
}

impl Mode {
    /// The mode that a configuration names.
    pub fn parse(s: &str) -> (r: Mode)
        ensures
            r == mode_of(s@),
    {
        if same(s, "enforce") {
            Mode::Enforce
        } else if same(s, "off") {
            Mode::Off
        } else {
            Mode::Shadow
        }
    }

    /// Whether the mode lets the policy change or reject a request.
    pub fn mutates(self) -> (r: bool)
        ensures
            r == (self == Mode::Enforce),
    {
        match self {
            Mode::Enforce => true,
            _ => false,
        }
    }
}

} // verus!
