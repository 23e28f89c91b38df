//! Owned views of pointer input state: which buttons are held and which
//! keyboard modifiers accompany an event. The host converts its raw events
//! into these before handing them to the editor core.

use vstd::prelude::*;

verus! {

/// A set of mouse buttons, in the conventional bit layout: bit 0 is the
/// primary button, bit 1 the secondary.
#[derive(Clone, Copy, PartialEq, Eq, Structural, Debug)]
pub struct MouseButtons(pub u16);

impl MouseButtons {
    /// Whether the primary button is held.
    pub open spec fn spec_left(&self) -> bool {
        self.0 & 1 > 0
    }

    /// Whether the secondary button is held.
    pub open spec fn spec_right(&self) -> bool {
        self.0 & 2 > 0
    }

    /// Gets the state of the primary mouse button.
    #[verifier::when_used_as_spec(spec_left)]
    pub fn left(&self) -> (r: bool)
        ensures
            r == self.spec_left(),
    {
        self.0 & 1 > 0
    }

    /// Gets the state of the secondary mouse button.
    #[verifier::when_used_as_spec(spec_right)]
    pub fn right(&self) -> (r: bool)
        ensures
            r == self.spec_right(),
    {
        self.0 & 2 > 0
    }
}

/// A set of keyboard modifiers, bit 0 holding shift.
#[derive(Clone, Copy, PartialEq, Eq, Structural, Debug)]
pub struct MouseModifiers(pub u8);

impl MouseModifiers {
    /// Builds the modifier set from the shift key state alone.
    pub fn from_shift(shift: bool) -> (r: MouseModifiers)
        ensures
            r.spec_shift() == shift,
    {
        proof {
            assert((255u8 & 1) & 1 > 0) by (bit_vector);
            assert(((0u8 & 1) & 1) == 0) by (bit_vector);
        }
        MouseModifiers(boolean(shift) & 1)
    }

    /// Whether shift is held.
    pub open spec fn spec_shift(&self) -> bool {
        self.0 & 1 > 0
    }

    /// Gets the state of the shift modifier.
    #[verifier::when_used_as_spec(spec_shift)]
    pub fn shift(&self) -> (r: bool)
        ensures
            r == self.spec_shift(),
    {
        self.0 & 1 > 0
    }
}

/// Spreads a flag over a full byte mask.
pub fn boolean(b: bool) -> (r: u8)
    ensures
        b ==> r == u8::MAX,
        !b ==> r == u8::MIN,
{
    if b { u8::MAX } else { u8::MIN }
}

} // verus!
