use cosmic_ext_applet_cheatsheet::config::CustomShortcut;

fn custom(command: Option<&str>, section: Option<&str>) -> CustomShortcut {
    CustomShortcut {
        label: "My screenshot tool".to_string(),
        keys: "Super + Shift + M".to_string(),
        command: command.map(str::to_string),
        section: section.map(str::to_string),
    }
}

#[test]
fn argv_splits_the_command() {
    assert_eq!(custom(Some("my-tool --flag"), None).argv(), vec!["my-tool", "--flag"]);
    assert!(custom(None, None).argv().is_empty());
    assert!(custom(Some("   "), None).argv().is_empty());
}

#[test]
fn section_defaults_to_custom() {
    assert_eq!(custom(None, None).section_or_default(), "Custom");
    assert_eq!(custom(None, Some("My tools")).section_or_default(), "My tools");
}
