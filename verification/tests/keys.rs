use cosmic_ext_applet_cheatsheet::keys::{key_name, pretty_keys};

#[test]
fn key_names_are_pretty() {
    assert_eq!(key_name("Left"), "←");
    assert_eq!(key_name("Right"), "→");
    assert_eq!(key_name("Up"), "↑");
    assert_eq!(key_name("Down"), "↓");
    assert_eq!(key_name("Escape"), "Esc");
    assert_eq!(key_name("Return"), "Enter");
    assert_eq!(key_name("grave"), "`");
    assert_eq!(key_name("space"), "Space");
    assert_eq!(key_name("plus"), "+");
    assert_eq!(key_name("Minus"), "−");
    assert_eq!(key_name("q"), "Q");
    assert_eq!(key_name("ß"), "SS");
    assert_eq!(key_name("Super"), "Super");
    assert_eq!(key_name("F11"), "F11");
}

#[test]
fn pretty_keys_splits_trims_and_renames() {
    assert_eq!(pretty_keys("Super+Shift+Left"), "Super + Shift + ←");
    assert_eq!(pretty_keys("Super + q"), "Super + Q");
    assert_eq!(pretty_keys("Print"), "Print");
    assert_eq!(pretty_keys(""), "");
    assert_eq!(pretty_keys("Super+Escape"), "Super + Esc");
}

