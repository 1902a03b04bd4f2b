use rustos::input::{
    input_get_keyboard_state, input_get_manager, input_get_mouse_state, input_has_events,
    input_init, input_pop_event, input_push_event, input_set_focus_window, InputError, InputEvent,
    InputEventType, InputManager, KeyCode, KeyModifiers, KeyboardState, MouseButton, MouseState,
    TickCounter, TouchPoint, TouchState,
};

#[test]
fn events_are_built_step_by_step() {
    let event = InputEvent::new(InputEventType::MouseMove, 3, -4, 99);
    assert_eq!(
        event,
        InputEvent {
            event_type: InputEventType::MouseMove,
            timestamp: 99,
            device_id: 0,
            code: 3,
            value: -4,
            x: 0,
            y: 0
        }
    );
    let event = event.with_position(10, -20).with_device(7);
    assert_eq!((event.x, event.y, event.device_id), (10, -20, 7));
    assert_eq!((event.code, event.value, event.timestamp), (3, -4, 99));
}

#[test]
fn key_codes() {
    assert_eq!(KeyCode::Unknown.code(), 0);
    assert_eq!(KeyCode::Escape.code(), 1);
    assert_eq!(KeyCode::Num1.code(), 2);
    assert_eq!(KeyCode::Num0.code(), 11);
    assert_eq!(KeyCode::Q.code(), 16);
    assert_eq!(KeyCode::P.code(), 25);
    assert_eq!(KeyCode::A.code(), 30);
    assert_eq!(KeyCode::L.code(), 38);
    assert_eq!(KeyCode::Z.code(), 44);
    assert_eq!(KeyCode::M.code(), 50);
    assert_eq!(KeyCode::Space.code(), 57);
    assert_eq!(KeyCode::Enter.code(), 28);
    assert_eq!(KeyCode::Backspace.code(), 14);
    assert_eq!(KeyCode::Tab.code(), 15);
    assert_eq!(KeyCode::LeftShift.code(), 42);
    assert_eq!(KeyCode::RightShift.code(), 54);
    assert_eq!(KeyCode::LeftCtrl.code(), 29);
    assert_eq!(KeyCode::RightCtrl.code(), 97);
    assert_eq!(KeyCode::LeftAlt.code(), 56);
    assert_eq!(KeyCode::RightAlt.code(), 100);
}

#[test]
fn only_some_scan_codes_are_taken_from_events() {
    assert_eq!(KeyCode::from_u32(1), Some(KeyCode::Escape));
    assert_eq!(KeyCode::from_u32(2), Some(KeyCode::Num1));
    assert_eq!(KeyCode::from_u32(3), Some(KeyCode::Num2));
    assert_eq!(KeyCode::from_u32(16), Some(KeyCode::Q));
    assert_eq!(KeyCode::from_u32(17), Some(KeyCode::W));
    assert_eq!(KeyCode::from_u32(18), Some(KeyCode::E));
    assert_eq!(KeyCode::from_u32(19), Some(KeyCode::R));
    assert_eq!(KeyCode::from_u32(28), Some(KeyCode::Enter));
    assert_eq!(KeyCode::from_u32(57), Some(KeyCode::Space));
    for code in [0u32, 4, 11, 20, 30, 42, 100, 255, 256, u32::MAX] {
        assert_eq!(KeyCode::from_u32(code), None);
    }
    assert_eq!(MouseButton::from_u32(0), Some(MouseButton::Left));
    assert_eq!(MouseButton::from_u32(1), Some(MouseButton::Right));
    assert_eq!(MouseButton::from_u32(2), Some(MouseButton::Middle));
    assert_eq!(MouseButton::from_u32(3), None);
    assert_eq!(MouseButton::from_u32(4), None);
    assert_eq!(MouseButton::Side.code(), 3);
    assert_eq!(MouseButton::Extra.code(), 4);
}

#[test]
fn the_keyboard_follows_keys_and_modifiers() {
    let mut keyboard = KeyboardState::new();
    assert!(!keyboard.is_key_pressed(KeyCode::A));
    keyboard.press_key(KeyCode::A);
    keyboard.press_key(KeyCode::LeftShift);
    keyboard.press_key(KeyCode::RightCtrl);
    keyboard.press_key(KeyCode::LeftAlt);
    assert!(keyboard.is_key_pressed(KeyCode::A));
    assert!(keyboard.is_key_pressed(KeyCode::LeftShift));
    assert!(!keyboard.is_key_pressed(KeyCode::RightShift));
    assert!(keyboard.modifiers.shift && keyboard.modifiers.ctrl && keyboard.modifiers.alt);
    assert!(!keyboard.modifiers.super_key);
    keyboard.release_key(KeyCode::RightShift);
    assert!(!keyboard.modifiers.shift);
    assert!(keyboard.is_key_pressed(KeyCode::LeftShift));
    keyboard.release_key(KeyCode::A);
    assert!(!keyboard.is_key_pressed(KeyCode::A));
    keyboard.modifiers.caps_lock = true;
    keyboard.clear();
    assert_eq!(keyboard.pressed_keys, [false; 256]);
    assert_eq!(keyboard.modifiers, KeyModifiers::new());
    let mut modifiers = KeyModifiers::new();
    modifiers.num_lock = true;
    modifiers.clear();
    assert!(!modifiers.num_lock);
}

#[test]
fn the_mouse_follows_buttons_and_moves() {
    let mut mouse = MouseState::new();
    assert_eq!(mouse.get_position(), (0, 0));
    mouse.press_button(MouseButton::Left);
    mouse.press_button(MouseButton::Extra);
    assert!(mouse.is_button_pressed(MouseButton::Left));
    assert!(mouse.is_button_pressed(MouseButton::Extra));
    assert!(!mouse.is_button_pressed(MouseButton::Right));
    mouse.release_button(MouseButton::Left);
    assert!(!mouse.is_button_pressed(MouseButton::Left));
    assert_eq!(mouse.buttons, [false, false, false, false, true, false, false, false]);
    mouse.move_to(-3, 900);
    assert_eq!(mouse.get_position(), (-3, 900));
    mouse.scroll(5);
    mouse.scroll(-2);
    assert_eq!(mouse.wheel_delta, -2);
}

fn touch(id: u32) -> TouchPoint {
    TouchPoint { id, x: id as i32, y: 0, pressure: 500, size: 10000 }
}

#[test]
fn touch_points() {
    let mut state = TouchState::new(3);
    assert_eq!(state.add_touch(touch(1)), Ok(()));
    assert_eq!(state.add_touch(touch(2)), Ok(()));
    assert_eq!(state.add_touch(touch(1)), Ok(()));
    assert_eq!(state.add_touch(touch(4)), Err(InputError::BufferFull));
    assert_eq!(state.get_touch_count(), 3);
    state.update_touch(1, 50, 60, 900, 7);
    assert_eq!(
        state.active_touches,
        vec![TouchPoint { id: 1, x: 50, y: 60, pressure: 900, size: 7 }, touch(2), touch(1)]
    );
    state.update_touch(9, 1, 1, 1, 1);
    assert_eq!(state.get_touch_count(), 3);
    state.remove_touch(1);
    assert_eq!(state.active_touches, vec![touch(2)]);
    state.remove_touch(7);
    assert_eq!(state.get_touch_count(), 1);
    let mut none = TouchState::new(0);
    assert_eq!(none.add_touch(touch(1)), Err(InputError::BufferFull));
}

#[test]
fn test_input_system() {
    let mut slot: Option<InputManager> = None;
    assert!(!input_has_events(&slot));
    assert!(input_pop_event(&mut slot).is_none());
    assert!(input_get_keyboard_state(&slot).is_none());
    assert!(input_get_mouse_state(&slot).is_none());
    let probe = InputEvent::new(InputEventType::MouseWheel, 0, 1, 0);
    assert_eq!(input_push_event(&mut slot, probe), Err(InputError::InvalidDevice));
    assert_eq!(input_set_focus_window(&mut slot, Some(1)), Err(InputError::InvalidDevice));

    assert_eq!(input_init(&mut slot), Ok(()));
    assert_eq!(input_init(&mut slot), Err(InputError::InvalidDevice));
    assert!(input_get_manager(&mut slot).is_some());

    let manager = input_get_manager(&mut slot).unwrap();
    manager.inject_key_event(KeyCode::Space, true, 1).expect("key press");
    manager.inject_key_event(KeyCode::Space, false, 2).expect("key release");
    manager.inject_mouse_move(100, 200, 3).expect("mouse move");
    manager.inject_mouse_button(MouseButton::Left, true, 4).expect("mouse click");

    assert!(input_has_events(&slot));
    assert!(!input_get_keyboard_state(&slot).unwrap().is_key_pressed(KeyCode::Space));
    assert_eq!(input_get_mouse_state(&slot).unwrap().get_position(), (100, 200));
    assert!(input_get_mouse_state(&slot).unwrap().is_button_pressed(MouseButton::Left));

    let mut event_count = 0;
    let mut stamps = Vec::new();
    while let Some(event) = input_pop_event(&mut slot) {
        stamps.push(event.timestamp);
        event_count += 1;
    }
    assert_eq!(event_count, 4);
    assert_eq!(stamps, vec![1, 2, 3, 4]);
    assert!(!input_has_events(&slot));
    assert_eq!(input_set_focus_window(&mut slot, Some(5)), Ok(()));
    assert_eq!(slot.as_ref().unwrap().get_focus_window(), Some(5));
}

#[test]
fn events_drive_the_devices() {
    let mut manager = InputManager::new();
    let key = |t, code| InputEvent::new(t, code, 1, 0);
    manager.push_event(key(InputEventType::KeyPress, 16)).unwrap();
    manager.push_event(key(InputEventType::KeyPress, 42)).unwrap();
    manager.push_event(key(InputEventType::KeyPress, 28)).unwrap();
    manager.push_event(key(InputEventType::KeyRelease, 28)).unwrap();
    let keyboard = manager.get_keyboard_state();
    assert!(keyboard.is_key_pressed(KeyCode::Q));
    assert!(!keyboard.is_key_pressed(KeyCode::Enter));
    assert!(!keyboard.is_key_pressed(KeyCode::LeftShift));
    assert!(!keyboard.modifiers.shift);
    manager.push_event(key(InputEventType::MouseButtonPress, 1)).unwrap();
    manager.push_event(key(InputEventType::MouseButtonPress, 2)).unwrap();
    manager.push_event(key(InputEventType::MouseButtonPress, 3)).unwrap();
    manager.push_event(key(InputEventType::MouseButtonRelease, 2)).unwrap();
    manager
        .push_event(InputEvent::new(InputEventType::MouseWheel, 0, -3, 0))
        .unwrap();
    manager
        .push_event(InputEvent::new(InputEventType::MouseMove, 0, 0, 0).with_position(7, 8))
        .unwrap();
    let mouse = manager.get_mouse_state();
    assert_eq!(mouse.buttons, [false, true, false, false, false, false, false, false]);
    assert_eq!(mouse.wheel_delta, -3);
    assert_eq!(mouse.get_position(), (7, 8));
    assert_eq!(manager.peek_event().unwrap().code, 16);
    assert!(manager.has_events());
    manager.clear_events();
    assert!(!manager.has_events());
    assert!(manager.peek_event().is_none());
    assert!(manager.pop_event().is_none());
    assert!(manager.get_keyboard_state().is_key_pressed(KeyCode::Q));
}

#[test]
fn touch_events_add_and_remove_touch_points() {
    let mut manager = InputManager::new();
    for id in 0..12u32 {
        let event = InputEvent::new(InputEventType::Touch, id, 250, 0).with_position(3, 4);
        assert_eq!(manager.push_event(event), Ok(()));
    }
    let touches = manager.get_touch_state();
    assert_eq!(touches.get_touch_count(), 10);
    assert_eq!(touches.max_touches, 10);
    assert_eq!(
        touches.active_touches[9],
        TouchPoint { id: 9, x: 3, y: 4, pressure: 250, size: 10000 }
    );
    manager.push_event(InputEvent::new(InputEventType::Touch, 4, 0, 0)).unwrap();
    manager.push_event(InputEvent::new(InputEventType::Touch, 5, -1, 0)).unwrap();
    let ids: Vec<u32> = manager.get_touch_state().active_touches.iter().map(|t| t.id).collect();
    assert_eq!(ids, vec![0, 1, 2, 3, 6, 7, 8, 9]);
}

#[test]
fn a_full_queue_drops_its_oldest_event() {
    let mut manager = InputManager::new();
    for i in 0..1030u64 {
        manager.push_event(InputEvent::new(InputEventType::MouseWheel, 0, 0, i)).unwrap();
    }
    let mut count = 0;
    let mut first = None;
    let mut last = None;
    while let Some(event) = manager.pop_event() {
        if first.is_none() {
            first = Some(event.timestamp);
        }
        last = Some(event.timestamp);
        count += 1;
    }
    assert_eq!(count, 1024);
    assert_eq!(first, Some(6));
    assert_eq!(last, Some(1029));
}

#[test]
fn the_tick_counter_counts() {
    let mut ticks = TickCounter::new();
    assert_eq!(ticks.get_ticks(), 0);
    ticks.increment_ticks();
    ticks.increment_ticks();
    assert_eq!(ticks.get_ticks(), 2);
}
