//! Canonical representation of evdev keys, modifier flags, key actions, and
//! raw input events.

use vstd::prelude::*;

verus! {

/// Event type codes of the evdev wire format.
pub const EV_SYN: u16 = 0;

pub const EV_KEY: u16 = 1;

pub const EV_REL: u16 = 2;

pub const EV_ABS: u16 = 3;

/// Code of the group-terminator event within type `EV_SYN`.
pub const SYN_REPORT_CODE: u16 = 0;

/// Key edge values.
pub const TYPE_UP: i32 = 0;

pub const TYPE_DOWN: i32 = 1;

pub const TYPE_REPEAT: i32 = 2;

/// An evdev key: an event type together with a 16-bit code.
/// Equality is on the (type, code) pair.
#[derive(PartialEq, Eq, Structural, Clone, Copy, Debug, Hash)]
pub struct Key {
    pub event_type: u16,
    pub code: u16,
}

impl Key {
    pub fn new(event_type: u16, code: u16) -> (r: Key)
        ensures
            r == (Key { event_type, code }),
    {
        Key { event_type, code }
    }
}

/// The four independent modifier booleans, combined with bitwise union.
#[derive(PartialEq, Eq, Structural, Clone, Copy, Debug, Hash)]
pub struct KeyModifierFlags {
    pub shift: bool,
    pub ctrl: bool,
    pub alt: bool,
    pub meta: bool,
}

impl KeyModifierFlags {
    pub fn new() -> (r: KeyModifierFlags)
        ensures
            r == (KeyModifierFlags { shift: false, ctrl: false, alt: false, meta: false }),
    {
        KeyModifierFlags { shift: false, ctrl: false, alt: false, meta: false }
    }

    pub fn shift(&mut self)
        ensures
            *final(self) == (KeyModifierFlags { shift: true, ..*old(self) }),
    {
        self.shift = true;
    }

    pub fn ctrl(&mut self)
        ensures
            *final(self) == (KeyModifierFlags { ctrl: true, ..*old(self) }),
    {
        self.ctrl = true;
    }

    pub fn alt(&mut self)
        ensures
            *final(self) == (KeyModifierFlags { alt: true, ..*old(self) }),
    {
        self.alt = true;
    }

    pub fn meta(&mut self)
        ensures
            *final(self) == (KeyModifierFlags { meta: true, ..*old(self) }),
    {
        self.meta = true;
    }

    /// The bitwise union of two flag sets.
    pub open spec fn union(self, other: KeyModifierFlags) -> KeyModifierFlags {
        KeyModifierFlags {
            shift: self.shift || other.shift,
            ctrl: self.ctrl || other.ctrl,
            alt: self.alt || other.alt,
            meta: self.meta || other.meta,
        }
    }

    /// Merge another flag set into this one.
    pub fn apply_from(&mut self, other: &KeyModifierFlags)
        ensures
            *final(self) == old(self).union(*other),
    {
        if other.shift {
            self.shift = true;
        }
        if other.ctrl {
            self.ctrl = true;
        }
        if other.alt {
            self.alt = true;
        }
        if other.meta {
            self.meta = true;
        }
    }

    /// True when every flag set here is also set in `other`.
    pub open spec fn subset_of(self, other: KeyModifierFlags) -> bool {
        &&& (self.shift ==> other.shift)
        &&& (self.ctrl ==> other.ctrl)
        &&& (self.alt ==> other.alt)
        &&& (self.meta ==> other.meta)
    }
}

/// A single key edge: a key together with an UP/DOWN/REPEAT value.
#[derive(PartialEq, Eq, Structural, Clone, Copy, Debug, Hash)]
pub struct KeyAction {
    pub key: Key,
    pub value: i32,
}

impl KeyAction {
    pub fn new(key: Key, value: i32) -> (r: KeyAction)
        ensures
            r == (KeyAction { key, value }),
    {
        KeyAction { key, value }
    }

    /// The wire record this edge stands for.
    pub fn to_input_ev(&self) -> (r: InputEvent)
        ensures
            r == input_ev_of(*self),
    {
        InputEvent { event_type: self.key.event_type, code: self.key.code, value: self.value }
    }
}

/// The wire record of a key edge.
pub open spec fn input_ev_of(a: KeyAction) -> InputEvent {
    InputEvent { event_type: a.key.event_type, code: a.key.code, value: a.value }
}

/// A single key edge that assumes the given modifiers are pressed.
#[derive(PartialEq, Eq, Structural, Clone, Copy, Debug, Hash)]
pub struct KeyActionWithMods {
    pub key: Key,
    pub value: i32,
    pub modifiers: KeyModifierFlags,
}

impl KeyActionWithMods {
    pub fn new(key: Key, value: i32, modifiers: KeyModifierFlags) -> (r: KeyActionWithMods)
        ensures
            r == (KeyActionWithMods { key, value, modifiers }),
    {
        KeyActionWithMods { key, value, modifiers }
    }
}

/// A full DOWN/UP pair under the given modifiers.
#[derive(PartialEq, Eq, Structural, Clone, Copy, Debug, Hash)]
pub struct KeyClickActionWithMods {
    pub key: Key,
    pub modifiers: KeyModifierFlags,
}

impl KeyClickActionWithMods {
    pub fn new_with_mods(key: Key, modifiers: KeyModifierFlags) -> (r: KeyClickActionWithMods)
        ensures
            r == (KeyClickActionWithMods { key, modifiers }),
    {
        KeyClickActionWithMods { key, modifiers }
    }
}

/// An evdev wire record. The timestamp of the original record plays no part
/// in any decision the core makes, so it is not carried here.
#[derive(PartialEq, Eq, Structural, Clone, Copy, Debug, Hash)]
pub struct InputEvent {
    pub event_type: u16,
    pub code: u16,
    pub value: i32,
}

impl InputEvent {
    /// True for the group terminator `SYN_REPORT`.
    pub open spec fn spec_is_syn(self) -> bool {
        self.event_type == EV_SYN && self.code == SYN_REPORT_CODE
    }

    #[verifier::when_used_as_spec(spec_is_syn)]
    pub fn is_syn(self) -> (r: bool)
        ensures
            r == self.spec_is_syn(),
    {
        self.event_type == EV_SYN && self.code == SYN_REPORT_CODE
    }

    /// The key edge an `EV_KEY` record projects onto.
    pub open spec fn spec_to_key_action(self) -> KeyAction {
        KeyAction {
            key: Key { event_type: self.event_type, code: self.code },
            value: self.value,
        }
    }

    #[verifier::when_used_as_spec(spec_to_key_action)]
    pub fn to_key_action(self) -> (r: KeyAction)
        ensures
            r == self.spec_to_key_action(),
    {
        KeyAction {
            key: Key { event_type: self.event_type, code: self.code },
            value: self.value,
        }
    }
}

/// The terminator record emitted after every logical group.
pub open spec fn spec_syn_report() -> InputEvent {
    InputEvent { event_type: EV_SYN, code: SYN_REPORT_CODE, value: 0 }
}

#[verifier::when_used_as_spec(spec_syn_report)]
pub fn syn_report() -> (r: InputEvent)
    ensures
        r == spec_syn_report(),
{
    InputEvent { event_type: EV_SYN, code: SYN_REPORT_CODE, value: 0 }
}

} // verus!
