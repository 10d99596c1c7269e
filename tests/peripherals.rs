use chip8::{keypad_index_for_keycode, Keypad, Video, KEY_COUNT};

#[test]
fn keycodes_map_to_keypad() {
    assert_eq!(keypad_index_for_keycode('1' as i32), Some(0x1));
    assert_eq!(keypad_index_for_keycode('4' as i32), Some(0xC));
    assert_eq!(keypad_index_for_keycode('q' as i32), Some(0x4));
    assert_eq!(keypad_index_for_keycode('x' as i32), Some(0x0));
    assert_eq!(keypad_index_for_keycode('v' as i32), Some(0xF));
    assert_eq!(keypad_index_for_keycode('p' as i32), None);
    assert_eq!(keypad_index_for_keycode(-1), None);
}

#[test]
fn keypad_follows_held_keycodes() {
    let mut k = Keypad::new();
    assert_eq!(k.get_keypad_len(), KEY_COUNT);
    k.set_key(3, true);
    k.update_from_keycodes(&vec!['q' as i32, 'p' as i32, 'v' as i32]);
    for i in 0..KEY_COUNT {
        assert_eq!(k.is_key_pressed(i), i == 4 || i == 0xF);
    }
    assert_eq!(k.first_pressed(), Some(4));
    k.clear_keyboard();
    assert_eq!(k.first_pressed(), None);
}

#[test]
fn pixels_wrap_and_toggle() {
    let mut v = Video::new();
    assert!(!v.is_drawflag_set());
    v.set_screen_pixel_state(64 + 3, 32 + 1, true);
    assert!(v.get_screen_pixel_state(3, 1));
    v.set_screen_pixel_state(3, 1, false);
    assert!(v.get_screen_pixel_state(3, 1));
    v.set_screen_pixel_state(3, 1, true);
    assert!(!v.get_screen_pixel_state(3, 1));
    v.set_drawflag(true);
    assert!(v.is_drawflag_set());
    v.set_screen_pixel_state(0, 0, true);
    v.clear_screen();
    assert!(!v.get_screen_pixel_state(0, 0));
    assert!(v.is_drawflag_set());
}

#[test]
fn coordinates_of_an_index() {
    assert_eq!(Video::calculate_coordinates(130), (2, 2));
    assert_eq!(Video::calculate_coordinates(2047), (63, 31));
    assert_eq!(Video::calculate_coordinates(0), (0, 0));
}
