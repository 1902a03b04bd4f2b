//! Input events and the state of the input devices that they drive.

use std::collections::VecDeque;
use vstd::prelude::*;

verus! {

/// Why an input operation did not succeed.
#[derive(Debug, Clone, Copy, PartialEq, Eq, Structural)]
pub enum InputError {
    BufferFull,
    InvalidDevice,
    UnsupportedEvent,
}

/// The kinds of input events.
#[derive(Debug, Clone, Copy, PartialEq, Eq, Structural)]
pub enum InputEventType {
    KeyPress,
    KeyRelease,
    MouseMove,
    MouseButtonPress,
    MouseButtonRelease,
    MouseWheel,
    Touch,
}

/// One input event.
#[derive(Debug, Clone, Copy, PartialEq, Eq, Structural)]
pub struct InputEvent {
    pub event_type: InputEventType,
    pub timestamp: u64,
    pub device_id: u32,
    pub code: u32,
    pub value: i32,
    pub x: i32,
    pub y: i32,
}

impl InputEvent {
    /// An event of the first device at the origin, stamped with the time
    /// `timestamp`.
    pub fn new(event_type: InputEventType, code: u32, value: i32, timestamp: u64) -> (event:
        InputEvent)
        ensures
            event == (InputEvent { event_type, timestamp, device_id: 0, code, value, x: 0, y: 0 }),
    {
        InputEvent { event_type, timestamp, device_id: 0, code, value, x: 0, y: 0 }
    }

    /// The same event at the position (`x`, `y`).
    pub fn with_position(self, x: i32, y: i32) -> (event: InputEvent)
        ensures
            event == (InputEvent { x, y, ..self }),
    {
        InputEvent { x, y, ..self }
    }

    /// The same event from the device `device_id`.
    pub fn with_device(self, device_id: u32) -> (event: InputEvent)
        ensures
            event == (InputEvent { device_id, ..self }),
    {
        InputEvent { device_id, ..self }
    }
}

/// The keys of the keyboard.
#[derive(Debug, Clone, Copy, PartialEq, Eq, Structural)]
pub enum KeyCode {
    Unknown,
    Escape,
    Num1,
    Num2,
    Num3,
    Num4,
    Num5,
    Num6,
    Num7,
    Num8,
    Num9,
    Num0,
    Q,
    W,
    E,
    R,
    T,
    Y,
    U,
    I,
    O,
    P,
    A,
    S,
    D,
    F,
    G,
    H,
    J,
    K,
    L,
    Z,
    X,
    C,
    V,
    B,
    N,
    M,
    Space,
    Enter,
    Backspace,
    Tab,
    LeftShift,
    RightShift,
    LeftCtrl,
    RightCtrl,
    LeftAlt,
    RightAlt,
}

impl KeyCode {
    /// The scan code of the key.
    pub open spec fn spec_code(self) -> u32 {
        match self {
            KeyCode::Unknown => 0,
            KeyCode::Escape => 1,
            KeyCode::Num1 => 2,
            KeyCode::Num2 => 3,
            KeyCode::Num3 => 4,
            KeyCode::Num4 => 5,
            KeyCode::Num5 => 6,
            KeyCode::Num6 => 7,
            KeyCode::Num7 => 8,
            KeyCode::Num8 => 9,
            KeyCode::Num9 => 10,
            KeyCode::Num0 => 11,
            KeyCode::Q => 16,
            KeyCode::W => 17,
            KeyCode::E => 18,
            KeyCode::R => 19,
            KeyCode::T => 20,
            KeyCode::Y => 21,
            KeyCode::U => 22,
            KeyCode::I => 23,
            KeyCode::O => 24,
            KeyCode::P => 25,
            KeyCode::A => 30,
            KeyCode::S => 31,
            KeyCode::D => 32,
            KeyCode::F => 33,
            KeyCode::G => 34,
            KeyCode::H => 35,
            KeyCode::J => 36,
            KeyCode::K => 37,
            KeyCode::L => 38,
            KeyCode::Z => 44,
            KeyCode::X => 45,
            KeyCode::C => 46,
            KeyCode::V => 47,
            KeyCode::B => 48,
            KeyCode::N => 49,
            KeyCode::M => 50,
            KeyCode::Space => 57,
            KeyCode::Enter => 28,
            KeyCode::Backspace => 14,
            KeyCode::Tab => 15,
            KeyCode::LeftShift => 42,
            KeyCode::RightShift => 54,
            KeyCode::LeftCtrl => 29,
            KeyCode::RightCtrl => 97,
            KeyCode::LeftAlt => 56,
            KeyCode::RightAlt => 100,
        }
    }

    /// The scan code of the key.
    pub fn code(self) -> (code: u32)
        ensures
            code == self.spec_code(),
            code < 256,
    {
        match self {
            KeyCode::Unknown => 0,
            KeyCode::Escape => 1,
            KeyCode::Num1 => 2,
            KeyCode::Num2 => 3,
            KeyCode::Num3 => 4,
            KeyCode::Num4 => 5,
            KeyCode::Num5 => 6,
            KeyCode::Num6 => 7,
            KeyCode::Num7 => 8,
            KeyCode::Num8 => 9,
            KeyCode::Num9 => 10,
            KeyCode::Num0 => 11,
            KeyCode::Q => 16,
            KeyCode::W => 17,
            KeyCode::E => 18,
            KeyCode::R => 19,
            KeyCode::T => 20,
            KeyCode::Y => 21,
            KeyCode::U => 22,
            KeyCode::I => 23,
            KeyCode::O => 24,
            KeyCode::P => 25,
            KeyCode::A => 30,
            KeyCode::S => 31,
            KeyCode::D => 32,
            KeyCode::F => 33,
            KeyCode::G => 34,
            KeyCode::H => 35,
            KeyCode::J => 36,
            KeyCode::K => 37,
            KeyCode::L => 38,
            KeyCode::Z => 44,
            KeyCode::X => 45,
            KeyCode::C => 46,
            KeyCode::V => 47,
            KeyCode::B => 48,
            KeyCode::N => 49,
            KeyCode::M => 50,
            KeyCode::Space => 57,
            KeyCode::Enter => 28,
            KeyCode::Backspace => 14,
            KeyCode::Tab => 15,
            KeyCode::LeftShift => 42,
            KeyCode::RightShift => 54,
            KeyCode::LeftCtrl => 29,
            KeyCode::RightCtrl => 97,
            KeyCode::LeftAlt => 56,
            KeyCode::RightAlt => 100,
        }
    }

    /// The key that events with the scan code `value` stand for. Only a
    /// few scan codes are taken from events.
    pub open spec fn spec_from_u32(value: u32) -> Option<KeyCode> {
        if value == 1 {
            Some(KeyCode::Escape)
        } else if value == 2 {
            Some(KeyCode::Num1)
        } else if value == 3 {
            Some(KeyCode::Num2)
        } else if value == 16 {
            Some(KeyCode::Q)
        } else if value == 17 {
            Some(KeyCode::W)
        } else if value == 18 {
            Some(KeyCode::E)
        } else if value == 19 {
            Some(KeyCode::R)
        } else if value == 28 {
            Some(KeyCode::Enter)
        } else if value == 57 {
            Some(KeyCode::Space)
        } else {
            None
        }
    }

    /// The key that events with the scan code `value` stand for.
    pub fn from_u32(value: u32) -> (key: Option<KeyCode>)
        ensures
            key == Self::spec_from_u32(value),
            key is Some ==> key->Some_0.spec_code() == value,
    {
        match value {
            1 => Some(KeyCode::Escape),
            2 => Some(KeyCode::Num1),
            3 => Some(KeyCode::Num2),
            16 => Some(KeyCode::Q),
            17 => Some(KeyCode::W),
            18 => Some(KeyCode::E),
            19 => Some(KeyCode::R),
            28 => Some(KeyCode::Enter),
            57 => Some(KeyCode::Space),
            _ => None,
        }
    }
}

/// The buttons of the mouse.
#[derive(Debug, Clone, Copy, PartialEq, Eq, Structural)]
pub enum MouseButton {
    Left,
    Right,
    Middle,
    Side,
    Extra,
}

impl MouseButton {
    /// The number of the button.
    pub open spec fn spec_code(self) -> u32 {
        match self {
            MouseButton::Left => 0,
            MouseButton::Right => 1,
            MouseButton::Middle => 2,
            MouseButton::Side => 3,
            MouseButton::Extra => 4,
        }
    }

    /// The number of the button.
    pub fn code(self) -> (code: u32)
        ensures
            code == self.spec_code(),
            code < 8,
    {
        match self {
            MouseButton::Left => 0,
            MouseButton::Right => 1,
            MouseButton::Middle => 2,
            MouseButton::Side => 3,
            MouseButton::Extra => 4,
        }
    }

    /// The button that events with the number `value` stand for. The
    /// side buttons are not taken from events.
    pub open spec fn spec_from_u32(value: u32) -> Option<MouseButton> {
        if value == 0 {
            Some(MouseButton::Left)
        } else if value == 1 {
            Some(MouseButton::Right)
        } else if value == 2 {
            Some(MouseButton::Middle)
        } else {
            None
        }
    }

    /// The button that events with the number `value` stand for.
    pub fn from_u32(value: u32) -> (button: Option<MouseButton>)
        ensures
            button == Self::spec_from_u32(value),
            button is Some ==> button->Some_0.spec_code() == value,
    {
        match value {
            0 => Some(MouseButton::Left),
            1 => Some(MouseButton::Right),
            2 => Some(MouseButton::Middle),
            _ => None,
        }
    }
}

/// The modifier keys and the lock keys.
#[derive(Debug, Clone, Copy, PartialEq, Eq, Structural)]
pub struct KeyModifiers {
    pub shift: bool,
    pub ctrl: bool,
    pub alt: bool,
    pub super_key: bool,
    pub caps_lock: bool,
    pub num_lock: bool,
    pub scroll_lock: bool,
}

impl KeyModifiers {
    /// No modifier.
    pub open spec fn none() -> KeyModifiers {
        KeyModifiers {
            shift: false,
            ctrl: false,
            alt: false,
            super_key: false,
            caps_lock: false,
            num_lock: false,
            scroll_lock: false,
        }
    }

    /// The modifiers after the key `key` went down or up: the two shift
    /// keys drive shift, the control keys control, the alt keys alt.
    pub open spec fn after_key(self, key: KeyCode, pressed: bool) -> KeyModifiers {
        match key {
            KeyCode::LeftShift => KeyModifiers { shift: pressed, ..self },
            KeyCode::RightShift => KeyModifiers { shift: pressed, ..self },
            KeyCode::LeftCtrl => KeyModifiers { ctrl: pressed, ..self },
            KeyCode::RightCtrl => KeyModifiers { ctrl: pressed, ..self },
            KeyCode::LeftAlt => KeyModifiers { alt: pressed, ..self },
            KeyCode::RightAlt => KeyModifiers { alt: pressed, ..self },
            _ => self,
        }
    }

    /// No modifier.
    pub fn new() -> (modifiers: KeyModifiers)
        ensures
            modifiers == KeyModifiers::none(),
    {
        KeyModifiers {
            shift: false,
            ctrl: false,
            alt: false,
            super_key: false,
            caps_lock: false,
            num_lock: false,
            scroll_lock: false,
        }
    }

    /// Releases every modifier.
    pub fn clear(&mut self)
        ensures
            *final(self) == KeyModifiers::none(),
    {
        *self = Self::new();
    }
}

/// How many scan codes the keyboard state tracks.
pub const KEY_COUNT: usize = 256;

/// How many buttons the mouse state tracks.
pub const BUTTON_COUNT: usize = 8;

/// Which keys are down.
#[derive(Debug)]
pub struct KeyboardState {
    pub pressed_keys: [bool; 256],
    pub modifiers: KeyModifiers,
}

impl KeyboardState {
    /// Whether `after` is the keyboard `self` after the key `key` went
    /// down or up.
    pub open spec fn key_changed(self, after: KeyboardState, key: KeyCode, pressed: bool) -> bool {
        &&& after.pressed_keys@ == self.pressed_keys@.update(key.spec_code() as int, pressed)
        &&& after.modifiers == self.modifiers.after_key(key, pressed)
    }

    /// Whether no key and no modifier is down.
    pub open spec fn is_idle(self) -> bool {
        &&& self.modifiers == KeyModifiers::none()
        &&& forall|i: int| 0 <= i < KEY_COUNT ==> !self.pressed_keys@[i]
    }

    /// A keyboard with no key down.
    pub fn new() -> (keyboard: KeyboardState)
        ensures
            keyboard.is_idle(),
    {
        KeyboardState { pressed_keys: [false;256], modifiers: KeyModifiers::new() }
    }

    /// Whether the key `key` is down.
    pub fn is_key_pressed(&self, key: KeyCode) -> (pressed: bool)
        ensures
            pressed == self.pressed_keys@[key.spec_code() as int],
    {
        self.pressed_keys[key.code() as usize]
    }

    /// Records that the key `key` went down.
    pub fn press_key(&mut self, key: KeyCode)
        ensures
            old(self).key_changed(*final(self), key, true),
    {
        self.pressed_keys[key.code() as usize] = true;
        self.update_modifiers(key, true);
    }

    /// Records that the key `key` went up.
    pub fn release_key(&mut self, key: KeyCode)
        ensures
            old(self).key_changed(*final(self), key, false),
    {
        self.pressed_keys[key.code() as usize] = false;
        self.update_modifiers(key, false);
    }

    fn update_modifiers(&mut self, key: KeyCode, pressed: bool)
        ensures
            final(self).modifiers == old(self).modifiers.after_key(key, pressed),
            final(self).pressed_keys == old(self).pressed_keys,
    {
        match key {
            KeyCode::LeftShift => {
                self.modifiers.shift = pressed;
            },
            KeyCode::RightShift => {
                self.modifiers.shift = pressed;
            },
            KeyCode::LeftCtrl => {
                self.modifiers.ctrl = pressed;
            },
            KeyCode::RightCtrl => {
                self.modifiers.ctrl = pressed;
            },
            KeyCode::LeftAlt => {
                self.modifiers.alt = pressed;
            },
            KeyCode::RightAlt => {
                self.modifiers.alt = pressed;
            },
            _ => {},
        }
    }

    /// Releases every key and every modifier.
    pub fn clear(&mut self)
        ensures
            final(self).is_idle(),
    {
        self.pressed_keys = [false;256];
        self.modifiers.clear();
    }
}

/// Where the pointer is and which buttons are down.
#[derive(Debug)]
pub struct MouseState {
    pub x: i32,
    pub y: i32,
    pub buttons: [bool; 8],
    /// The last wheel movement.
    pub wheel_delta: i32,
}

impl MouseState {
    /// Whether `after` is the mouse `self` after the button `button` went
    /// down or up.
    pub open spec fn button_changed(self, after: MouseState, button: MouseButton, pressed: bool) -> bool {
        &&& after.buttons@ == self.buttons@.update(button.spec_code() as int, pressed)
        &&& after.x == self.x
        &&& after.y == self.y
        &&& after.wheel_delta == self.wheel_delta
    }

    /// Whether the mouse rests at the origin with no button down.
    pub open spec fn is_idle(self) -> bool {
        &&& self.x == 0
        &&& self.y == 0
        &&& self.wheel_delta == 0
        &&& forall|i: int| 0 <= i < BUTTON_COUNT ==> !self.buttons@[i]
    }

    /// A mouse at the origin with no button down.
    pub fn new() -> (mouse: MouseState)
        ensures
            mouse.is_idle(),
    {
        MouseState { x: 0, y: 0, buttons: [false;8], wheel_delta: 0 }
    }

    /// Whether the button `button` is down.
    pub fn is_button_pressed(&self, button: MouseButton) -> (pressed: bool)
        ensures
            pressed == self.buttons@[button.spec_code() as int],
    {
        self.buttons[button.code() as usize]
    }

    /// Records that the button `button` went down.
    pub fn press_button(&mut self, button: MouseButton)
        ensures
            old(self).button_changed(*final(self), button, true),
    {
        self.buttons[button.code() as usize] = true;
    }

    /// Records that the button `button` went up.
    pub fn release_button(&mut self, button: MouseButton)
        ensures
            old(self).button_changed(*final(self), button, false),
    {
        self.buttons[button.code() as usize] = false;
    }

    /// Records that the pointer moved to (`x`, `y`).
    pub fn move_to(&mut self, x: i32, y: i32)
        ensures
            *final(self) == (MouseState { x, y, ..*old(self) }),
    {
        self.x = x;
        self.y = y;
    }

    /// Where the pointer is.
    pub fn get_position(&self) -> (position: (i32, i32))
        ensures
            position == (self.x, self.y),
    {
        (self.x, self.y)
    }

    /// Records a wheel movement, which replaces the last one.
    pub fn scroll(&mut self, delta: i32)
        ensures
            *final(self) == (MouseState { wheel_delta: delta, ..*old(self) }),
    {
        self.wheel_delta = delta;
    }
}

/// The size that a touch point gets from an event, in thousandths.
pub const DEFAULT_TOUCH_SIZE: u32 = 10000;

/// How many touch points the input manager follows.
pub const MAX_TOUCHES: u32 = 10;

/// One finger on the screen. Pressure and size are kept in thousandths:
/// a pressure of 1000 is full pressure.
#[derive(Debug, Clone, Copy, PartialEq, Eq, Structural)]
pub struct TouchPoint {
    pub id: u32,
    pub x: i32,
    pub y: i32,
    pub pressure: i32,
    pub size: u32,
}

/// The test that lets every touch point pass but those with the id `id`.
pub open spec fn touch_other_than(id: u32) -> spec_fn(TouchPoint) -> bool {
    |touch: TouchPoint| touch.id != id
}

/// The touch points after the first one with the id `id`, if there is
/// one, was moved and pressed anew.
pub open spec fn touches_updated(
    touches: Seq<TouchPoint>,
    id: u32,
    x: i32,
    y: i32,
    pressure: i32,
    size: u32,
) -> Seq<TouchPoint>
    decreases touches.len(),
{
    if touches.len() == 0 {
        touches
    } else if touches[0].id == id {
        touches.update(0, TouchPoint { id, x, y, pressure, size })
    } else {
        seq![touches[0]] + touches_updated(touches.skip(1), id, x, y, pressure, size)
    }
}

/// The fingers on the screen.
#[derive(Debug)]
pub struct TouchState {
    pub active_touches: Vec<TouchPoint>,
    pub max_touches: u32,
}

impl TouchState {
    /// No finger on the screen.
    pub fn new(max_touches: u32) -> (touch: TouchState)
        ensures
            touch.active_touches@ == Seq::<TouchPoint>::empty(),
            touch.max_touches == max_touches,
    {
        TouchState { active_touches: Vec::new(), max_touches }
    }

    /// Adds a touch point, unless the most that are followed are there.
    pub fn add_touch(&mut self, touch: TouchPoint) -> (r: Result<(), InputError>)
        ensures
            final(self).max_touches == old(self).max_touches,
            r == if old(self).active_touches@.len() >= old(self).max_touches {
                Err::<(), InputError>(InputError::BufferFull)
            } else {
                Ok::<(), InputError>(())
            },
            final(self).active_touches@ == if r is Ok {
                old(self).active_touches@.push(touch)
            } else {
                old(self).active_touches@
            },
    {
        if self.active_touches.len() >= self.max_touches as usize {
            return Err(InputError::BufferFull);
        }
        self.active_touches.push(touch);
        Ok(())
    }

    /// Removes every touch point with the id `id`.
    pub fn remove_touch(&mut self, id: u32)
        ensures
            final(self).max_touches == old(self).max_touches,
            final(self).active_touches@ == old(self).active_touches@.filter(touch_other_than(id)),
    {
        let mut kept: Vec<TouchPoint> = Vec::new();
        let mut i: usize = 0;
        let ghost all = self.active_touches@;
        assert(all.take(0) =~= Seq::<TouchPoint>::empty());
        while i < self.active_touches.len()
            invariant
                i <= all.len(),
                all == self.active_touches@,
                self.max_touches == old(self).max_touches,
                kept@ == all.take(i as int).filter(touch_other_than(id)),
            decreases all.len() - i,
        {
            let touch = self.active_touches[i];
            proof {
                assert(all.take(i + 1) =~= all.take(i as int).push(touch));
                all.take(i as int).lemma_filter_push(touch, touch_other_than(id));
            }
            if touch.id != id {
                kept.push(touch);
            }
            i += 1;
        }
        assert(all.take(i as int) =~= all);
        self.active_touches = kept;
    }

    /// Moves and presses anew the first touch point with the id `id`.
    pub fn update_touch(&mut self, id: u32, x: i32, y: i32, pressure: i32, size: u32)
        ensures
            final(self).max_touches == old(self).max_touches,
            final(self).active_touches@ == touches_updated(
                old(self).active_touches@,
                id,
                x,
                y,
                pressure,
                size,
            ),
    {
        let ghost all = self.active_touches@;
        let mut i: usize = 0;
        assert(all.skip(0) =~= all);
        assert(all.take(0) + touches_updated(all.skip(0), id, x, y, pressure, size)
            =~= touches_updated(all, id, x, y, pressure, size));
        while i < self.active_touches.len()
            invariant
                i <= all.len(),
                all == self.active_touches@,
                all == old(self).active_touches@,
                self.max_touches == old(self).max_touches,
                touches_updated(all, id, x, y, pressure, size) == all.take(i as int)
                    + touches_updated(all.skip(i as int), id, x, y, pressure, size),
            decreases all.len() - i,
        {
            let ghost rest = all.skip(i as int);
            assert(rest[0] == all[i as int]);
            if self.active_touches[i].id == id {
                self.active_touches[i] = TouchPoint { id, x, y, pressure, size };
                assert(rest.len() > 0 && rest[0].id == id);
                assert(touches_updated(rest, id, x, y, pressure, size) == rest.update(
                    0,
                    TouchPoint { id, x, y, pressure, size },
                ));
                assert(self.active_touches@ =~= all.take(i as int) + rest.update(
                    0,
                    TouchPoint { id, x, y, pressure, size },
                ));
                return ;
            }
            proof {
                assert(rest.skip(1) =~= all.skip(i + 1));
                assert(all.take(i + 1) =~= all.take(i as int) + seq![rest[0]]);
                assert(all.take(i as int) + (seq![rest[0]] + touches_updated(
                    rest.skip(1),
                    id,
                    x,
                    y,
                    pressure,
                    size,
                )) =~= all.take(i + 1) + touches_updated(all.skip(i + 1), id, x, y, pressure, size));
            }
            i += 1;
        }
        assert(all.take(i as int) =~= all);
        assert(all.skip(i as int) =~= Seq::<TouchPoint>::empty());
        assert(all + Seq::<TouchPoint>::empty() =~= all);
    }

    /// How many fingers are on the screen.
    pub fn get_touch_count(&self) -> (count: usize)
        ensures
            count == self.active_touches@.len(),
    {
        self.active_touches.len()
    }
}

/// How many events the queue holds before the oldest is dropped.
pub const MAX_EVENTS: usize = 1024;

/// The abstract state of the input manager.
pub struct InputState {
    /// The events that wait to be taken, oldest first.
    pub events: Seq<InputEvent>,
    pub pressed_keys: Seq<bool>,
    pub modifiers: KeyModifiers,
    pub mouse_x: i32,
    pub mouse_y: i32,
    pub buttons: Seq<bool>,
    pub wheel_delta: i32,
    pub touches: Seq<TouchPoint>,
    pub max_touches: u32,
    pub focus_window: Option<u32>,
}

impl InputState {
    /// The touch point that a touch event stands for.
    pub open spec fn touch_of(event: InputEvent) -> TouchPoint {
        TouchPoint {
            id: event.code,
            x: event.x,
            y: event.y,
            pressure: event.value,
            size: DEFAULT_TOUCH_SIZE,
        }
    }

    /// The devices after the event `event` was applied to them. A key or
    /// button event with a code that stands for nothing changes nothing.
    /// A touch event with a positive value adds a touch point, if there
    /// is room; any other touch event removes the touch points of its id.
    pub open spec fn after_event(self, event: InputEvent) -> InputState {
        match event.event_type {
            InputEventType::KeyPress => match KeyCode::spec_from_u32(event.code) {
                Some(key) => InputState {
                    pressed_keys: self.pressed_keys.update(key.spec_code() as int, true),
                    modifiers: self.modifiers.after_key(key, true),
                    ..self
                },
                None => self,
            },
            InputEventType::KeyRelease => match KeyCode::spec_from_u32(event.code) {
                Some(key) => InputState {
                    pressed_keys: self.pressed_keys.update(key.spec_code() as int, false),
                    modifiers: self.modifiers.after_key(key, false),
                    ..self
                },
                None => self,
            },
            InputEventType::MouseMove => InputState {
                mouse_x: event.x,
                mouse_y: event.y,
                ..self
            },
            InputEventType::MouseButtonPress => match MouseButton::spec_from_u32(event.code) {
                Some(button) => InputState {
                    buttons: self.buttons.update(button.spec_code() as int, true),
                    ..self
                },
                None => self,
            },
            InputEventType::MouseButtonRelease => match MouseButton::spec_from_u32(event.code) {
                Some(button) => InputState {
                    buttons: self.buttons.update(button.spec_code() as int, false),
                    ..self
                },
                None => self,
            },
            InputEventType::MouseWheel => InputState { wheel_delta: event.value, ..self },
            InputEventType::Touch => if event.value > 0 {
                if self.touches.len() >= self.max_touches {
                    self
                } else {
                    InputState { touches: self.touches.push(Self::touch_of(event)), ..self }
                }
            } else {
                InputState {
                    touches: self.touches.filter(touch_other_than(event.code)),
                    ..self
                }
            },
        }
    }

    /// The events that wait after `event` was queued: where the queue was
    /// full, its oldest event made room.
    pub open spec fn queued(self, event: InputEvent) -> Seq<InputEvent> {
        if self.events.len() >= MAX_EVENTS {
            self.events.skip(1).push(event)
        } else {
            self.events.push(event)
        }
    }

    /// The manager after `push_event`.
    pub open spec fn after_push(self, event: InputEvent) -> InputState {
        InputState { events: self.queued(event), ..self }.after_event(event)
    }

    /// The manager at start-up: no event waits, no key and no button is
    /// down, the pointer rests at the origin, no finger is on the screen,
    /// and no window has the focus.
    pub open spec fn initial() -> InputState {
        InputState {
            events: Seq::empty(),
            pressed_keys: Seq::new(KEY_COUNT as nat, |i: int| false),
            modifiers: KeyModifiers::none(),
            mouse_x: 0,
            mouse_y: 0,
            buttons: Seq::new(BUTTON_COUNT as nat, |i: int| false),
            wheel_delta: 0,
            touches: Seq::empty(),
            max_touches: MAX_TOUCHES,
            focus_window: None,
        }
    }
}

/// Collects the input events and keeps the state of the devices.
#[derive(Debug)]
pub struct InputManager {
    event_queue: VecDeque<InputEvent>,
    keyboard: KeyboardState,
    mouse: MouseState,
    touch: TouchState,
    next_event_id: u64,
    focus_window: Option<u32>,
}

impl View for InputManager {
    type V = InputState;

    closed spec fn view(&self) -> InputState {
        InputState {
            events: self.event_queue@,
            pressed_keys: self.keyboard.pressed_keys@,
            modifiers: self.keyboard.modifiers,
            mouse_x: self.mouse.x,
            mouse_y: self.mouse.y,
            buttons: self.mouse.buttons@,
            wheel_delta: self.mouse.wheel_delta,
            touches: self.touch.active_touches@,
            max_touches: self.touch.max_touches,
            focus_window: self.focus_window,
        }
    }
}

impl InputManager {
    /// The keyboard as the manager sees it.
    pub closed spec fn keyboard(&self) -> KeyboardState {
        self.keyboard
    }

    /// The mouse as the manager sees it.
    pub closed spec fn mouse(&self) -> MouseState {
        self.mouse
    }

    /// The fingers as the manager sees them.
    pub closed spec fn touch(&self) -> TouchState {
        self.touch
    }

    /// A manager with no event and idle devices.
    pub fn new() -> (manager: InputManager)
        ensures
            manager@ == InputState::initial(),
    {
        let manager = InputManager {
            event_queue: VecDeque::new(),
            keyboard: KeyboardState::new(),
            mouse: MouseState::new(),
            touch: TouchState::new(MAX_TOUCHES),
            next_event_id: 0,
            focus_window: None,
        };
        assert(manager@.pressed_keys =~= InputState::initial().pressed_keys);
        assert(manager@.buttons =~= InputState::initial().buttons);
        manager
    }

    /// Queues the event and applies it to the devices. Where the queue is
    /// full, its oldest event is dropped.
    pub fn push_event(&mut self, event: InputEvent) -> (r: Result<(), InputError>)
        ensures
            r == Ok::<(), InputError>(()),
            final(self)@ == old(self)@.after_push(event),
    {
        if self.event_queue.len() >= MAX_EVENTS {
            self.event_queue.pop_front();
        }
        self.event_queue.push_back(event);
        assert(self.event_queue@ =~= old(self)@.queued(event));
        self.process_event(&event);
        Ok(())
    }

    /// Takes the oldest event.
    pub fn pop_event(&mut self) -> (event: Option<InputEvent>)
        ensures
            event == if old(self)@.events.len() > 0 {
                Some(old(self)@.events[0])
            } else {
                None
            },
            final(self)@ == (InputState {
                events: if old(self)@.events.len() > 0 {
                    old(self)@.events.skip(1)
                } else {
                    old(self)@.events
                },
                ..old(self)@
            }),
    {
        let event = self.event_queue.pop_front();
        assert(self.event_queue@ =~= if old(self)@.events.len() > 0 {
            old(self)@.events.skip(1)
        } else {
            old(self)@.events
        });
        event
    }

    /// The oldest event, which stays in the queue.
    pub fn peek_event(&self) -> (event: Option<InputEvent>)
        ensures
            event == if self@.events.len() > 0 {
                Some(self@.events[0])
            } else {
                None
            },
    {
        if self.event_queue.len() > 0 {
            Some(self.event_queue[0])
        } else {
            None
        }
    }

    /// Whether an event waits.
    pub fn has_events(&self) -> (waiting: bool)
        ensures
            waiting == (self@.events.len() > 0),
    {
        self.event_queue.len() > 0
    }

    /// Drops every waiting event.
    pub fn clear_events(&mut self)
        ensures
            final(self)@ == (InputState { events: Seq::empty(), ..old(self)@ }),
    {
        self.event_queue.clear();
    }

    /// Applies the event to the devices.
    fn process_event(&mut self, event: &InputEvent)
        ensures
            final(self)@ == old(self)@.after_event(*event),
    {
        match event.event_type {
            InputEventType::KeyPress => {
                if let Some(key) = KeyCode::from_u32(event.code) {
                    self.keyboard.press_key(key);
                }
            },
            InputEventType::KeyRelease => {
                if let Some(key) = KeyCode::from_u32(event.code) {
                    self.keyboard.release_key(key);
                }
            },
            InputEventType::MouseMove => {
                self.mouse.move_to(event.x, event.y);
            },
            InputEventType::MouseButtonPress => {
                if let Some(button) = MouseButton::from_u32(event.code) {
                    self.mouse.press_button(button);
                }
            },
            InputEventType::MouseButtonRelease => {
                if let Some(button) = MouseButton::from_u32(event.code) {
                    self.mouse.release_button(button);
                }
            },
            InputEventType::MouseWheel => {
                self.mouse.scroll(event.value);
            },
            InputEventType::Touch => {
                let touch_point = TouchPoint {
                    id: event.code,
                    x: event.x,
                    y: event.y,
                    pressure: event.value,
                    size: DEFAULT_TOUCH_SIZE,
                };
                if event.value > 0 {
                    let _ = self.touch.add_touch(touch_point);
                } else {
                    self.touch.remove_touch(event.code);
                }
            },
        }
    }

    /// Records which window has the input focus.
    pub fn set_focus_window(&mut self, window_id: Option<u32>)
        ensures
            final(self)@ == (InputState { focus_window: window_id, ..old(self)@ }),
    {
        self.focus_window = window_id;
    }

    /// The window that has the input focus.
    pub fn get_focus_window(&self) -> (window_id: Option<u32>)
        ensures
            window_id == self@.focus_window,
    {
        self.focus_window
    }

    /// The state of the keyboard.
    pub fn get_keyboard_state(&self) -> (keyboard: &KeyboardState)
        ensures
            keyboard.pressed_keys@ == self@.pressed_keys,
            keyboard.modifiers == self@.modifiers,
    {
        &self.keyboard
    }

    /// The state of the mouse.
    pub fn get_mouse_state(&self) -> (mouse: &MouseState)
        ensures
            mouse.x == self@.mouse_x,
            mouse.y == self@.mouse_y,
            mouse.buttons@ == self@.buttons,
            mouse.wheel_delta == self@.wheel_delta,
    {
        &self.mouse
    }

    /// The fingers on the screen.
    pub fn get_touch_state(&self) -> (touch: &TouchState)
        ensures
            touch.active_touches@ == self@.touches,
            touch.max_touches == self@.max_touches,
    {
        &self.touch
    }

    /// The event that stands for the key `key` going down or up.
    pub open spec fn key_event(key: KeyCode, pressed: bool, timestamp: u64) -> InputEvent {
        InputEvent {
            event_type: if pressed {
                InputEventType::KeyPress
            } else {
                InputEventType::KeyRelease
            },
            timestamp,
            device_id: 0,
            code: key.spec_code(),
            value: if pressed {
                1
            } else {
                0
            },
            x: 0,
            y: 0,
        }
    }

    /// The event that stands for the button `button` going down or up.
    pub open spec fn button_event(button: MouseButton, pressed: bool, timestamp: u64) -> InputEvent {
        InputEvent {
            event_type: if pressed {
                InputEventType::MouseButtonPress
            } else {
                InputEventType::MouseButtonRelease
            },
            timestamp,
            device_id: 0,
            code: button.spec_code(),
            value: if pressed {
                1
            } else {
                0
            },
            x: 0,
            y: 0,
        }
    }

    /// Queues and applies the event of the key `key` going down or up.
    pub fn inject_key_event(&mut self, key: KeyCode, pressed: bool, timestamp: u64) -> (r: Result<
        (),
        InputError,
    >)
        ensures
            r == Ok::<(), InputError>(()),
            final(self)@ == old(self)@.after_push(Self::key_event(key, pressed, timestamp)),
    {
        let event_type = if pressed {
            InputEventType::KeyPress
        } else {
            InputEventType::KeyRelease
        };
        let event = InputEvent::new(
            event_type,
            key.code(),
            if pressed {
                1
            } else {
                0
            },
            timestamp,
        );
        self.push_event(event)
    }

    /// Queues and applies the event of the pointer moving to (`x`, `y`).
    pub fn inject_mouse_move(&mut self, x: i32, y: i32, timestamp: u64) -> (r: Result<
        (),
        InputError,
    >)
        ensures
            r == Ok::<(), InputError>(()),
            final(self)@ == old(self)@.after_push(
                InputEvent {
                    event_type: InputEventType::MouseMove,
                    timestamp,
                    device_id: 0,
                    code: 0,
                    value: 0,
                    x,
                    y,
                },
            ),
    {
        let event = InputEvent::new(InputEventType::MouseMove, 0, 0, timestamp).with_position(
            x,
            y,
        );
        self.push_event(event)
    }

    /// Queues and applies the event of the button `button` going down or up.
    pub fn inject_mouse_button(&mut self, button: MouseButton, pressed: bool, timestamp: u64) -> (r:
        Result<(), InputError>)
        ensures
            r == Ok::<(), InputError>(()),
            final(self)@ == old(self)@.after_push(Self::button_event(button, pressed, timestamp)),
    {
        let event_type = if pressed {
            InputEventType::MouseButtonPress
        } else {
            InputEventType::MouseButtonRelease
        };
        let event = InputEvent::new(
            event_type,
            button.code(),
            if pressed {
                1
            } else {
                0
            },
            timestamp,
        );
        self.push_event(event)
    }
}

/// Counts the ticks of the clock.
pub struct TickCounter {
    ticks: u64,
}

impl View for TickCounter {
    type V = u64;

    /// The ticks counted.
    closed spec fn view(&self) -> u64 {
        self.ticks
    }
}

impl TickCounter {
    /// A counter at zero.
    pub fn new() -> (counter: TickCounter)
        ensures
            counter@ == 0,
    {
        TickCounter { ticks: 0 }
    }

    /// The ticks counted.
    pub fn get_ticks(&self) -> (ticks: u64)
        ensures
            ticks == self@,
    {
        self.ticks
    }

    /// Counts one more tick. The counter stops at the largest value.
    pub fn increment_ticks(&mut self)
        ensures
            final(self)@ == if old(self)@ < u64::MAX {
                (old(self)@ + 1) as u64
            } else {
                old(self)@
            },
    {
        if self.ticks < u64::MAX {
            self.ticks += 1;
        }
    }
}

/// The state of a place that holds the input manager once it is set up.
pub open spec fn slot_state(slot: Option<InputManager>) -> Option<InputState> {
    match slot {
        Some(manager) => Some(manager@),
        None => None,
    }
}

/// Sets the input manager up. A second set-up is refused.
pub fn input_init(slot: &mut Option<InputManager>) -> (r: Result<(), InputError>)
    ensures
        r == if *old(slot) is Some {
            Err::<(), InputError>(InputError::InvalidDevice)
        } else {
            Ok::<(), InputError>(())
        },
        slot_state(*final(slot)) == if *old(slot) is Some {
            slot_state(*old(slot))
        } else {
            Some(InputState::initial())
        },
{
    if slot.is_some() {
        return Err(InputError::InvalidDevice);
    }
    *slot = Some(InputManager::new());
    Ok(())
}

/// The input manager, if it is set up.
pub fn input_get_manager(slot: &mut Option<InputManager>) -> (found: Option<&mut InputManager>)
    ensures
        found is Some <==> *old(slot) is Some,
        found is Some ==> *found->Some_0 == old(slot)->Some_0 && *final(slot) == Some(
            *final(found->Some_0),
        ),
        found is None ==> *final(slot) == *old(slot),
{
    slot.as_mut()
}

/// Queues and applies an event.
pub fn input_push_event(slot: &mut Option<InputManager>, event: InputEvent) -> (r: Result<
    (),
    InputError,
>)
    ensures
        match slot_state(*old(slot)) {
            Some(before) => r == Ok::<(), InputError>(()) && slot_state(*final(slot)) == Some(
                before.after_push(event),
            ),
            None => r == Err::<(), InputError>(InputError::InvalidDevice) && *final(slot) is None,
        },
{
    match slot {
        Some(manager) => manager.push_event(event),
        None => Err(InputError::InvalidDevice),
    }
}

/// Takes the oldest event; there is none before the set-up.
pub fn input_pop_event(slot: &mut Option<InputManager>) -> (event: Option<InputEvent>)
    ensures
        match slot_state(*old(slot)) {
            Some(before) => event == if before.events.len() > 0 {
                Some(before.events[0])
            } else {
                None
            } && slot_state(*final(slot)) == Some(
                InputState {
                    events: if before.events.len() > 0 {
                        before.events.skip(1)
                    } else {
                        before.events
                    },
                    ..before
                },
            ),
            None => event is None && *final(slot) is None,
        },
{
    match slot {
        Some(manager) => manager.pop_event(),
        None => None,
    }
}

/// Whether an event waits; none does before the set-up.
pub fn input_has_events(slot: &Option<InputManager>) -> (waiting: bool)
    ensures
        waiting == match slot_state(*slot) {
            Some(state) => state.events.len() > 0,
            None => false,
        },
{
    match slot {
        Some(manager) => manager.has_events(),
        None => false,
    }
}

/// Records which window has the input focus.
pub fn input_set_focus_window(slot: &mut Option<InputManager>, window_id: Option<u32>) -> (r:
    Result<(), InputError>)
    ensures
        match slot_state(*old(slot)) {
            Some(before) => r == Ok::<(), InputError>(()) && slot_state(*final(slot)) == Some(
                InputState { focus_window: window_id, ..before },
            ),
            None => r == Err::<(), InputError>(InputError::InvalidDevice) && *final(slot) is None,
        },
{
    match slot {
        Some(manager) => {
            manager.set_focus_window(window_id);
            Ok(())
        },
        None => Err(InputError::InvalidDevice),
    }
}

/// The state of the keyboard, once the manager is set up.
pub fn input_get_keyboard_state(slot: &Option<InputManager>) -> (keyboard: Option<&KeyboardState>)
    ensures
        keyboard is Some <==> *slot is Some,
        keyboard is Some ==> keyboard->Some_0.pressed_keys@ == slot->Some_0@.pressed_keys
            && keyboard->Some_0.modifiers == slot->Some_0@.modifiers,
{
    match slot {
        Some(manager) => Some(manager.get_keyboard_state()),
        None => None,
    }
}

/// The state of the mouse, once the manager is set up.
pub fn input_get_mouse_state(slot: &Option<InputManager>) -> (mouse: Option<&MouseState>)
    ensures
        mouse is Some <==> *slot is Some,
        mouse is Some ==> mouse->Some_0.x == slot->Some_0@.mouse_x && mouse->Some_0.y
            == slot->Some_0@.mouse_y && mouse->Some_0.buttons@ == slot->Some_0@.buttons
            && mouse->Some_0.wheel_delta == slot->Some_0@.wheel_delta,
{
    match slot {
        Some(manager) => Some(manager.get_mouse_state()),
        None => None,
    }
}

} // verus!
