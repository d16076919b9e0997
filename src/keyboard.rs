//! Tri-state buttons: held, just pressed, just released.

use vstd::prelude::*;

verus! {

/// One logical button. `state` is held across frames until a release;
/// the two triggers are one-frame pulses cleared by `Keyboard::reset_triggers`.
#[derive(Debug, Clone, Copy, PartialEq, Eq, Structural)]
pub struct Key {
    pub state: bool,
    pub trigger_pressed: bool,
    pub trigger_release: bool,
}

/// Whether a key event is a press or a release.
#[derive(Debug, Clone, Copy, PartialEq, Eq, Structural)]
pub enum KeyAction {
    Pressed,
    Released,
}

/// The buttons that the keyboard tracks, one per field of `Keyboard`.
#[derive(Debug, Clone, Copy, PartialEq, Eq, Structural)]
pub enum KeyName {
    Down,
    Left,
    Right,
    Up,
    W,
    S,
    A,
    D,
    Escape,
}

impl Key {
    /// The key after an event: a press holds it and raises the press pulse,
    /// a release lets it go and raises the release pulse.
    pub open spec fn after(self, action: KeyAction) -> Key {
        match action {
            KeyAction::Pressed => Key { state: true, trigger_pressed: true, ..self },
            KeyAction::Released => Key { state: false, trigger_release: true, ..self },
        }
    }

    /// The key with both pulses cleared and its held state kept.
    pub open spec fn without_pulses(self) -> Key {
        Key { trigger_pressed: false, trigger_release: false, ..self }
    }

    pub fn new() -> (r: Key)
        ensures
            !r.state,
            !r.trigger_pressed,
            !r.trigger_release,
    {
        Key { state: false, trigger_pressed: false, trigger_release: false }
    }

    pub fn pressed(&mut self)
        ensures
            *final(self) == old(self).after(KeyAction::Pressed),
    {
        self.state = true;
        self.trigger_pressed = true;
    }

    pub fn release(&mut self)
        ensures
            *final(self) == old(self).after(KeyAction::Released),
    {
        self.state = false;
        self.trigger_release = true;
    }

    fn clear_pulses(&mut self)
        ensures
            *final(self) == old(self).without_pulses(),
    {
        self.trigger_pressed = false;
        self.trigger_release = false;
    }
}

/// The state of every tracked button.
#[derive(Debug, Clone, Copy, PartialEq, Eq, Structural)]
pub struct Keyboard {
    pub down: Key,
    pub left: Key,
    pub right: Key,
    pub up: Key,
    pub w: Key,
    pub s: Key,
    pub a: Key,
    pub d: Key,
    pub escape: Key,
}

impl Keyboard {
    /// The record of one button.
    pub open spec fn key(self, name: KeyName) -> Key {
        match name {
            KeyName::Down => self.down,
            KeyName::Left => self.left,
            KeyName::Right => self.right,
            KeyName::Up => self.up,
            KeyName::W => self.w,
            KeyName::S => self.s,
            KeyName::A => self.a,
            KeyName::D => self.d,
            KeyName::Escape => self.escape,
        }
    }

    /// The keyboard with the record of one button replaced.
    pub open spec fn with_key(self, name: KeyName, k: Key) -> Keyboard {
        match name {
            KeyName::Down => Keyboard { down: k, ..self },
            KeyName::Left => Keyboard { left: k, ..self },
            KeyName::Right => Keyboard { right: k, ..self },
            KeyName::Up => Keyboard { up: k, ..self },
            KeyName::W => Keyboard { w: k, ..self },
            KeyName::S => Keyboard { s: k, ..self },
            KeyName::A => Keyboard { a: k, ..self },
            KeyName::D => Keyboard { d: k, ..self },
            KeyName::Escape => Keyboard { escape: k, ..self },
        }
    }

    /// Every button released, with no pulse raised.
    pub open spec fn idle() -> Keyboard {
        let k = Key { state: false, trigger_pressed: false, trigger_release: false };
        Keyboard { down: k, left: k, right: k, up: k, w: k, s: k, a: k, d: k, escape: k }
    }

    /// Every button with its pulses cleared and its held state kept.
    pub open spec fn without_pulses(self) -> Keyboard {
        Keyboard {
            down: self.down.without_pulses(),
            left: self.left.without_pulses(),
            right: self.right.without_pulses(),
            up: self.up.without_pulses(),
            w: self.w.without_pulses(),
            s: self.s.without_pulses(),
            a: self.a.without_pulses(),
            d: self.d.without_pulses(),
            escape: self.escape.without_pulses(),
        }
    }

    pub fn new() -> (r: Keyboard)
        ensures
            r == Keyboard::idle(),
    {
        Keyboard {
            down: Key::new(),
            left: Key::new(),
            right: Key::new(),
            up: Key::new(),
            w: Key::new(),
            s: Key::new(),
            a: Key::new(),
            d: Key::new(),
            escape: Key::new(),
        }
    }

    /// Clears the one-frame pulses of every button; held states stay.
    pub fn reset_triggers(&mut self)
        ensures
            *final(self) == old(self).without_pulses(),
    {
        self.down.clear_pulses();
        self.left.clear_pulses();
        self.right.clear_pulses();
        self.up.clear_pulses();
        self.w.clear_pulses();
        self.s.clear_pulses();
        self.a.clear_pulses();
        self.d.clear_pulses();
        self.escape.clear_pulses();
    }

    /// Applies one key event. A key that the keyboard does not track (`None`)
    /// leaves it unchanged.
    pub fn key_input(&mut self, name: Option<KeyName>, action: KeyAction)
        ensures
            *final(self) == match name {
                Some(n) => old(self).with_key(n, old(self).key(n).after(action)),
                None => *old(self),
            },
    {
        match name {
            Some(n) => {
                let k = match n {
                    KeyName::Down => &mut self.down,
                    KeyName::Left => &mut self.left,
                    KeyName::Right => &mut self.right,
                    KeyName::Up => &mut self.up,
                    KeyName::W => &mut self.w,
                    KeyName::S => &mut self.s,
                    KeyName::A => &mut self.a,
                    KeyName::D => &mut self.d,
                    KeyName::Escape => &mut self.escape,
                };
                match action {
                    KeyAction::Pressed => k.pressed(),
                    KeyAction::Released => k.release(),
                }
            },
            None => {},
        }
    }
}

} // verus!
