//! Tests of the framebuffer, the keypad, and the host-facing
//! configuration types.

use chirp::{Action, Framebuffer, Keymap, Keypad, Size};

#[test]
fn fresh_screen_is_blank_and_dirty() {
    let fb = Framebuffer::new();
    assert!(fb.needs_presenting());
    for x in 0..64 {
        for y in 0..32 {
            assert!(!fb.pixel(x, y));
        }
    }
}

#[test]
fn draw_sprite_sets_bits_msb_first() {
    let mut fb = Framebuffer::new();
    let toggled = fb.draw_sprite(&vec![0b1010_0001], 0, 0);
    assert!(!toggled);
    assert!(fb.pixel(0, 0));
    assert!(!fb.pixel(1, 0));
    assert!(fb.pixel(2, 0));
    assert!(!fb.pixel(3, 0));
    assert!(fb.pixel(7, 0));
    assert!(!fb.pixel(0, 1));
}

#[test]
fn draw_sprite_twice_restores_screen() {
    let mut fb = Framebuffer::new();
    let sprite = vec![0xF0, 0x90, 0x90, 0x90, 0xF0];
    let first = fb.draw_sprite(&sprite, 10, 5);
    assert!(!first);
    assert!(fb.pixel(10, 5));
    let second = fb.draw_sprite(&sprite, 10, 5);
    assert!(second);
    for x in 0..64 {
        for y in 0..32 {
            assert!(!fb.pixel(x, y));
        }
    }
}

#[test]
fn overlapping_draw_toggles_off_only_shared_pixels() {
    let mut fb = Framebuffer::new();
    fb.draw_sprite(&vec![0b1100_0000], 0, 0);
    let toggled = fb.draw_sprite(&vec![0b0110_0000], 0, 0);
    assert!(toggled);
    assert!(fb.pixel(0, 0));
    assert!(!fb.pixel(1, 0));
    assert!(fb.pixel(2, 0));
}

#[test]
fn draw_wraps_at_screen_edges() {
    let mut fb = Framebuffer::new();
    // A single bit drawn at x = 62 puts the rest of the row on the left
    // edge; a row at y = 31 followed by one more row wraps to the top.
    fb.draw_sprite(&vec![0b1110_0000], 62, 31);
    assert!(fb.pixel(62, 31));
    assert!(fb.pixel(63, 31));
    assert!(fb.pixel(0, 31));
    fb.draw_sprite(&vec![0b1000_0000, 0b1000_0000], 5, 31);
    assert!(fb.pixel(5, 31));
    assert!(fb.pixel(5, 0));
}

#[test]
fn draw_accepts_coordinates_above_screen_size() {
    let mut fb = Framebuffer::new();
    fb.draw_sprite(&vec![0b1000_0000], 70, 40);
    assert!(fb.pixel(6, 8));
}

#[test]
fn clear_screen_resets_pixels() {
    let mut fb = Framebuffer::new();
    fb.draw_sprite(&vec![0xFF], 0, 0);
    fb.mark_presented();
    assert!(!fb.needs_presenting());
    fb.clear_screen();
    assert!(fb.needs_presenting());
    for x in 0..8 {
        assert!(!fb.pixel(x, 0));
    }
}

#[test]
fn empty_sprite_draws_nothing() {
    let mut fb = Framebuffer::new();
    let toggled = fb.draw_sprite(&vec![], 3, 3);
    assert!(!toggled);
    for x in 0..64 {
        for y in 0..32 {
            assert!(!fb.pixel(x, y));
        }
    }
}

#[test]
fn keypad_tracks_presses_and_releases() {
    let mut kp = Keypad::new();
    for k in 0..16 {
        assert!(!kp.is_key_pressed(k));
    }
    kp.key_down(0xA);
    assert!(kp.is_key_pressed(0xA));
    assert!(!kp.is_key_pressed(0xB));
    kp.key_up(0xA);
    assert!(!kp.is_key_pressed(0xA));
}

#[test]
fn keypad_latch_holds_last_press() {
    let mut kp = Keypad::new();
    assert_eq!(kp.last_key(), None);
    kp.key_down(3);
    kp.key_down(7);
    assert_eq!(kp.last_key(), Some(7));
    kp.key_up(7);
    assert_eq!(kp.last_key(), Some(7));
    kp.clear_last_key();
    assert_eq!(kp.last_key(), None);
}

#[test]
fn keypad_quit_flag() {
    let mut kp = Keypad::new();
    assert!(!kp.quit_requested());
    kp.set_quit();
    assert!(kp.quit_requested());
}

#[test]
fn size_scale_factors() {
    assert_eq!(Size::Small.scale(), 4);
    assert_eq!(Size::Normal.scale(), 8);
    assert_eq!(Size::Large.scale(), 16);
}

#[test]
fn config_enums_compare() {
    assert_eq!(Keymap::Qwerty, Keymap::Qwerty);
    assert_ne!(Keymap::Qwerty, Keymap::Colemak);
    assert_eq!(Action::Continue, Action::Continue);
    assert_ne!(Action::Continue, Action::Quit);
}
