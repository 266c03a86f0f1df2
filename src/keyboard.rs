//! The keypad: a queue of timestamped key presses, a "held" view of the
//! sixteen logical keys, and the quit and pause-toggle controls.

use vstd::prelude::*;

verus! {

/// Number of logical keys.
pub const NUM_KEYS: usize = 16;

/// How long, in milliseconds, a key counts as held after its last press.
pub const KEY_PRESS_TTL_MS: u64 = 100;

/// The character that flips the pause toggle.
pub const PAUSE_KEY: char = ' ';

/// A raw key as the input source reports it.
#[derive(Clone, Copy, Debug, PartialEq, Eq, Structural)]
pub enum KeyInput {
    /// A character key.
    Char(char),
    /// The quit key.
    Esc,
}

/// A key press with its capture time in milliseconds.
#[derive(Clone, Copy, Debug, PartialEq, Eq, Structural)]
pub struct KeyEvent {
    pub key: KeyInput,
    pub timestamp: u64,
}

/// The logical key that a character stands for, if any.
pub open spec fn spec_key_value(ch: char) -> Option<u8> {
    if ch == '1' { Some(0x1u8) }
    else if ch == '2' { Some(0x2u8) }
    else if ch == '3' { Some(0x3u8) }
    else if ch == '4' { Some(0xCu8) }
    else if ch == 'q' { Some(0x4u8) }
    else if ch == 'w' { Some(0x5u8) }
    else if ch == 'e' { Some(0x6u8) }
    else if ch == 'r' { Some(0xDu8) }
    else if ch == 'a' { Some(0x7u8) }
    else if ch == 's' { Some(0x8u8) }
    else if ch == 'd' { Some(0x9u8) }
    else if ch == 'f' { Some(0xEu8) }
    else if ch == 'z' { Some(0xAu8) }
    else if ch == 'x' { Some(0x0u8) }
    else if ch == 'c' { Some(0xBu8) }
    else if ch == 'v' { Some(0xFu8) }
    else { None }
}

/// Every mapped character stands for one of the sixteen keys, and the pause
/// key stands for none.
pub proof fn lemma_key_value_range(ch: char)
    ensures
        spec_key_value(ch) matches Some(k) ==> k < NUM_KEYS,
        spec_key_value(PAUSE_KEY) is None,
{
}

/// Looks up the logical key of a character.
pub fn key_value(ch: char) -> (r: Option<u8>)
    ensures
        r == spec_key_value(ch),
{
    match ch {
        '1' => Some(0x1),
        '2' => Some(0x2),
        '3' => Some(0x3),
        '4' => Some(0xC),
        'q' => Some(0x4),
        'w' => Some(0x5),
        'e' => Some(0x6),
        'r' => Some(0xD),
        'a' => Some(0x7),
        's' => Some(0x8),
        'd' => Some(0x9),
        'f' => Some(0xE),
        'z' => Some(0xA),
        'x' => Some(0x0),
        'c' => Some(0xB),
        'v' => Some(0xF),
        _ => None,
    }
}

/// The abstract state of the keypad.
pub ghost struct KeyboardView {
    /// Presses that arrived and were not drained yet, oldest first.
    pub pending: Seq<KeyEvent>,
    /// For each logical key, the time of its last recorded press.
    pub pressed: Seq<Option<u64>>,
    pub esc_pressed: bool,
    pub pause_toggle_on: bool,
}

impl KeyboardView {
    pub open spec fn wf(self) -> bool {
        self.pressed.len() == NUM_KEYS
    }

    /// The same state with its oldest pending press removed.
    pub open spec fn pop_front(self) -> KeyboardView {
        KeyboardView { pending: self.pending.drop_first(), ..self }
    }

    /// Key `key_val` counts as held at time `now`.
    pub open spec fn held(self, key_val: u8, now: u64) -> bool {
        key_val < NUM_KEYS && match self.pressed[key_val as int] {
            Some(t) => now < t + KEY_PRESS_TTL_MS,
            None => false,
        }
    }
}

/// The state after draining pending presses into the held view: a mapped
/// character records its time, the pause key flips the toggle and stops the
/// drain, the quit key sets the quit flag and stops the drain, any other
/// character is dropped.
pub open spec fn drain_pressed(s: KeyboardView) -> KeyboardView
    decreases s.pending.len(),
{
    if s.pending.len() == 0 {
        s
    } else {
        let ev = s.pending[0];
        let rest = s.pop_front();
        match ev.key {
            KeyInput::Esc => KeyboardView { esc_pressed: true, ..rest },
            KeyInput::Char(c) => {
                if c == PAUSE_KEY {
                    KeyboardView { pause_toggle_on: !s.pause_toggle_on, ..rest }
                } else {
                    match spec_key_value(c) {
                        Some(k) => drain_pressed(
                            KeyboardView { pressed: rest.pressed.update(k as int, Some(ev.timestamp)), ..rest },
                        ),
                        None => drain_pressed(rest),
                    }
                }
            },
        }
    }
}

/// The state after looking for the first mapped character pressed at or
/// after `valid_after`, and the key found: earlier characters and unmapped
/// ones are dropped; the pause key flips the toggle and ends the search with
/// no key; the quit key sets the quit flag and ends it with no key.
pub open spec fn next_key(s: KeyboardView, valid_after: u64) -> (KeyboardView, Option<u8>)
    decreases s.pending.len(),
{
    if s.pending.len() == 0 {
        (s, None)
    } else {
        let ev = s.pending[0];
        let rest = s.pop_front();
        match ev.key {
            KeyInput::Esc => (KeyboardView { esc_pressed: true, ..rest }, None),
            KeyInput::Char(c) => {
                if ev.timestamp < valid_after {
                    next_key(rest, valid_after)
                } else {
                    match spec_key_value(c) {
                        Some(k) => (rest, Some(k)),
                        None => if c == PAUSE_KEY {
                            (KeyboardView { pause_toggle_on: !s.pause_toggle_on, ..rest }, None)
                        } else {
                            next_key(rest, valid_after)
                        },
                    }
                }
            },
        }
    }
}

/// The keypad's state.
pub struct Keyboard {
    pending: Vec<KeyEvent>,
    pressed_keys: Vec<Option<u64>>,
    esc_pressed: bool,
    pause_toggle_on: bool,
}

impl View for Keyboard {
    type V = KeyboardView;

    closed spec fn view(&self) -> KeyboardView {
        KeyboardView {
            pending: self.pending@,
            pressed: self.pressed_keys@,
            esc_pressed: self.esc_pressed,
            pause_toggle_on: self.pause_toggle_on,
        }
    }
}

impl Keyboard {
    pub open spec fn wf(&self) -> bool {
        self@.wf()
    }

    /// A keypad with nothing pending, no key ever pressed and both controls off.
    pub fn new() -> (r: Keyboard)
        ensures
            r.wf(),
            r@.pending.len() == 0,
            forall|k: int| 0 <= k < NUM_KEYS ==> #[trigger] r@.pressed[k] is None,
            !r@.esc_pressed,
            !r@.pause_toggle_on,
    {
        let mut pressed_keys: Vec<Option<u64>> = Vec::new();
        let mut k: usize = 0;
        while k < NUM_KEYS
            invariant
                k <= NUM_KEYS,
                pressed_keys@.len() == k,
                forall|j: int| 0 <= j < k ==> #[trigger] pressed_keys@[j] is None,
            decreases NUM_KEYS - k,
        {
            pressed_keys.push(None);
            k = k + 1;
        }
        Keyboard { pending: Vec::new(), pressed_keys, esc_pressed: false, pause_toggle_on: false }
    }

    /// Whether the quit key was seen.
    pub fn esc_pressed(&self) -> (r: bool)
        ensures
            r == self@.esc_pressed,
    {
        self.esc_pressed
    }

    /// Whether the pause toggle is on.
    pub fn pause_toggle_on(&self) -> (r: bool)
        ensures
            r == self@.pause_toggle_on,
    {
        self.pause_toggle_on
    }

    /// Queues a press that the input source delivered.
    pub fn push_event(&mut self, ev: KeyEvent)
        requires
            old(self).wf(),
        ensures
            final(self)@ == (KeyboardView { pending: old(self)@.pending.push(ev), ..old(self)@ }),
    {
        self.pending.push(ev);
    }

    /// Removes the first `n` pending presses.
    fn consume(&mut self, n: usize)
        requires
            n <= old(self)@.pending.len(),
        ensures
            final(self)@ == (KeyboardView {
                pending: old(self)@.pending.subrange(n as int, old(self)@.pending.len() as int),
                ..old(self)@
            }),
    {
        let rest = self.pending.split_off(n);
        self.pending = rest;
    }

    /// Drains pending presses into the held view, as `drain_pressed` says.
    pub fn process_pressed_keys(&mut self)
        requires
            old(self).wf(),
        ensures
            final(self)@ == drain_pressed(old(self)@),
            final(self).wf(),
    {
        let ghost goal = drain_pressed(self@);
        let len = self.pending.len();
        let mut i: usize = 0;
        assert(self@.pending.subrange(0, len as int) =~= self@.pending);
        while i < len
            invariant
                len == self@.pending.len(),
                i <= len,
                self.wf(),
                goal == drain_pressed(old(self)@),
                goal == drain_pressed(KeyboardView {
                    pending: self@.pending.subrange(i as int, len as int),
                    ..self@
                }),
            decreases len - i,
        {
            let ghost cur = KeyboardView { pending: self@.pending.subrange(i as int, len as int), ..self@ };
            assert(cur.pending.drop_first() =~= self@.pending.subrange(i + 1, len as int));
            let ev = self.pending[i];
            assert(cur.pending[0] == ev);
            match ev.key {
                KeyInput::Char(ch) => {
                    if ch == PAUSE_KEY {
                        self.pause_toggle_on = !self.pause_toggle_on;
                        self.consume(i + 1);
                        return;
                    } else {
                        match key_value(ch) {
                            Some(k) => {
                                proof { lemma_key_value_range(ch); }
                                self.pressed_keys.set(k as usize, Some(ev.timestamp));
                            },
                            None => {},
                        }
                    }
                },
                KeyInput::Esc => {
                    self.esc_pressed = true;
                    self.consume(i + 1);
                    return;
                },
            }
            i = i + 1;
        }
        self.consume(len);
    }

    /// Looks for the key that ends a wait begun at `valid_after`, as
    /// `next_key` says.
    pub fn get_next_key(&mut self, valid_after: u64) -> (r: Option<u8>)
        requires
            old(self).wf(),
        ensures
            (final(self)@, r) == next_key(old(self)@, valid_after),
            final(self).wf(),
    {
        let ghost goal = next_key(self@, valid_after);
        let len = self.pending.len();
        let mut i: usize = 0;
        assert(self@.pending.subrange(0, len as int) =~= self@.pending);
        while i < len
            invariant
                len == self@.pending.len(),
                i <= len,
                self.wf(),
                goal == next_key(old(self)@, valid_after),
                goal == next_key(KeyboardView {
                    pending: self@.pending.subrange(i as int, len as int),
                    ..self@
                }, valid_after),
            decreases len - i,
        {
            let ghost cur = KeyboardView { pending: self@.pending.subrange(i as int, len as int), ..self@ };
            assert(cur.pending.drop_first() =~= self@.pending.subrange(i + 1, len as int));
            let ev = self.pending[i];
            assert(cur.pending[0] == ev);
            match ev.key {
                KeyInput::Char(ch) => {
                    if ev.timestamp >= valid_after {
                        match key_value(ch) {
                            Some(k) => {
                                self.consume(i + 1);
                                return Some(k);
                            },
                            None => {
                                if ch == PAUSE_KEY {
                                    self.pause_toggle_on = !self.pause_toggle_on;
                                    self.consume(i + 1);
                                    return None;
                                }
                            },
                        }
                    }
                },
                KeyInput::Esc => {
                    self.esc_pressed = true;
                    self.consume(i + 1);
                    return None;
                },
            }
            i = i + 1;
        }
        self.consume(len);
        None
    }

    /// Whether key `key_val` was pressed less than the hold window before `now`.
    pub fn is_key_pressed(&self, key_val: u8, now: u64) -> (r: bool)
        requires
            self.wf(),
        ensures
            r == self@.held(key_val, now),
    {
        if (key_val as usize) < NUM_KEYS {
            match self.pressed_keys[key_val as usize] {
                Some(last_press) => now <= last_press || now - last_press < KEY_PRESS_TTL_MS,
                None => false,
            }
        } else {
            false
        }
    }
}

} // verus!
