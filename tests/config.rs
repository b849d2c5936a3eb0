use yoinkctl::config::{compose_hotkey, Config, HotkeyModifiers};

fn with_hotkey(h: &str) -> Config {
    Config { hotkey: h.to_string(), ..Config::default() }
}

#[test]
fn default_config() {
    let c = Config::default();
    assert_eq!(c.hotkey, "Super+Shift+A");
    assert!(c.show_hex && c.show_rgb && c.show_hsl);
    assert_eq!(c.preview_size, 120);
}

#[test]
fn modifiers_found_anywhere_in_text() {
    let m = Config::default().get_modifiers();
    assert_eq!(m, HotkeyModifiers { super_key: true, shift: true, ctrl: false, alt: false });
    let m = with_hotkey("Ctrl+Alt+K").get_modifiers();
    assert_eq!(m, HotkeyModifiers { super_key: false, shift: false, ctrl: true, alt: true });
    assert!(with_hotkey("K").get_modifiers().is_empty());
    assert!(with_hotkey("").get_modifiers().is_empty());
}

#[test]
fn key_code_is_last_part() {
    assert_eq!(Config::default().get_key_code(), 'A');
    assert_eq!(with_hotkey("Ctrl+Alt+K").get_key_code(), 'K');
    assert_eq!(with_hotkey("Ctrl+Alt+ Z ").get_key_code(), 'Z');
    assert_eq!(with_hotkey("Q").get_key_code(), 'Q');
    assert_eq!(with_hotkey("Alt+\u{A0}Q").get_key_code(), 'Q');
    assert_eq!(with_hotkey("Alt+Q\u{2003}").get_key_code(), 'Q');
}

#[test]
fn key_code_falls_back_to_a() {
    assert_eq!(with_hotkey("Ctrl+z").get_key_code(), 'A');
    assert_eq!(with_hotkey("Shift+F5").get_key_code(), 'A');
    assert_eq!(with_hotkey("Super+").get_key_code(), 'A');
    assert_eq!(with_hotkey("").get_key_code(), 'A');
}

#[test]
fn validate_needs_a_modifier() {
    assert!(Config::default().validate_hotkey().is_ok());
    assert!(with_hotkey("Alt+X").validate_hotkey().is_ok());
    let err = with_hotkey("X").validate_hotkey().unwrap_err();
    assert_eq!(err, "Hotkey must have at least one modifier (Super, Shift, Ctrl, or Alt)");
}

#[test]
fn key_part_keeps_the_raw_key() {
    assert_eq!(with_hotkey("Ctrl+ F5 ").key_part(), "F5");
    assert_eq!(with_hotkey("Alt+\u{A0}Q").key_part(), "Q");
    assert_eq!(with_hotkey("Super+").key_part(), "");
    assert_eq!(Config::default().key_part(), "A");
}

#[test]
fn compose_hotkey_joins_in_fixed_order() {
    let all = HotkeyModifiers { super_key: true, shift: true, ctrl: true, alt: true };
    assert_eq!(compose_hotkey(all, "K"), "Super+Shift+Ctrl+Alt+K");
    let some = HotkeyModifiers { super_key: false, shift: true, ctrl: false, alt: true };
    assert_eq!(compose_hotkey(some, "F5"), "Shift+Alt+F5");
    let none = HotkeyModifiers { super_key: false, shift: false, ctrl: false, alt: false };
    assert_eq!(compose_hotkey(none, "Z"), "Z");
    let c = Config::default();
    assert_eq!(compose_hotkey(c.get_modifiers(), &c.key_part()), "Super+Shift+A");
}
