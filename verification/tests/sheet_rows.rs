use std::borrow::Cow;

use cosmic_ext_applet_cheatsheet::describe::{
    describe, launcher_icon, launcher_label, program_of, split_command, Action, Binding, Direction, FocusDirection, LabelText,
    ResizeDirection, System,
};
use cosmic_ext_applet_cheatsheet::shortcuts::{
    for_display, from_bindings, localize, sort_shortcuts, Shortcut, SECTION_ORDER,
};
use i18n_embed::fluent::FluentLanguageLoader;
use i18n_embed::{I18nAssets, LanguageLoader};

fn empty_loader() -> FluentLanguageLoader {
    FluentLanguageLoader::new("cheatsheet", "en".parse().unwrap())
}

struct Ftl(&'static str);

impl I18nAssets for Ftl {
    fn get_files(&self, file_path: &str) -> Vec<Cow<'_, [u8]>> {
        if file_path == "en/cheatsheet.ftl" {
            vec![Cow::Borrowed(self.0.as_bytes())]
        } else {
            Vec::new()
        }
    }

    fn filenames_iter(&self) -> Box<dyn Iterator<Item = String> + '_> {
        Box::new(vec!["en/cheatsheet.ftl".to_string()].into_iter())
    }
}

fn loaded(ftl: &'static str) -> FluentLanguageLoader {
    let loader = empty_loader();
    loader.load_fallback_language(&Ftl(ftl)).unwrap();
    loader
}

fn b(keys: &str) -> Binding {
    Binding { keys: keys.to_string(), description: None }
}

fn rows(list: &[Shortcut]) -> Vec<(String, String, &'static str)> {
    list.iter().map(|s| (s.keys.clone(), s.label.clone(), s.section)).collect()
}

fn sample() -> Vec<(Binding, Action)> {
    let mut v = vec![
        (b("Super+Left"), Action::Focus(FocusDirection::Left)),
        (b("Super+Right"), Action::Focus(FocusDirection::Right)),
        (b("Super+Up"), Action::Focus(FocusDirection::Up)),
        (b("Super+Down"), Action::Focus(FocusDirection::Down)),
        (b("Super+h"), Action::Focus(FocusDirection::Left)),
        (b("XF86AudioRaiseVolume"), Action::System(System::VolumeRaise)),
        (b("Super+t"), Action::Spawn("cosmic-term".to_string())),
        (b("Super+q"), Action::Close),
        (b("Super+c"), Action::Spawn("cosmic-ext-applet-cheatsheet --window".to_string())),
        (b(""), Action::Maximize),
        (b("Super+Shift+x"), Action::Disable),
    ];
    for n in 1..=9 {
        v.push((b(&format!("Super+{n}")), Action::Workspace(n as u8)));
    }
    v
}

#[test]
fn bindings_become_sorted_rows() {
    let list = from_bindings(&empty_loader(), &sample());
    let r = rows(&list);
    assert_eq!(r.len(), 17);
    assert_eq!(r[0], ("Super + T".to_string(), "Terminal".to_string(), "sec.apps"));
    assert_eq!(r[1], ("XF86AudioRaiseVolume".to_string(), "Volume up".to_string(), "sec.system"));
    assert_eq!(r[2], ("Super + Q".to_string(), "Close window".to_string(), "sec.window"));
    let focus: Vec<_> = r[3..8].iter().map(|x| (x.0.as_str(), x.1.as_str())).collect();
    assert_eq!(
        focus,
        vec![
            ("Super + H", "Focus left"),
            ("Super + ←", "Focus left"),
            ("Super + ↑", "Focus up"),
            ("Super + →", "Focus right"),
            ("Super + ↓", "Focus down"),
        ]
    );
    assert_eq!(r[8], ("Super + 1".to_string(), "Go to workspace 1–9".to_string(), "sec.ws"));
    assert_eq!(r[16].0, "Super + 9");
    assert_eq!(list[0].command, Some(vec!["cosmic-term".to_string()]));
    assert_eq!(list[0].icon, Some("utilities-terminal-symbolic"));
    assert_eq!(list[2].command, None);
}

#[test]
fn compact_overview_merges_and_hides() {
    let full = from_bindings(&empty_loader(), &sample());
    let list = for_display(&full, &empty_loader(), true);
    let r = rows(&list);
    assert_eq!(
        r,
        vec![
            ("Super + T".to_string(), "Terminal".to_string(), "sec.apps"),
            ("Super + Q".to_string(), "Close window".to_string(), "sec.window"),
            ("Super + ←↓↑→".to_string(), "Move focus between windows".to_string(), "sec.focus"),
            ("Super + 1 … 9".to_string(), "Go to workspace 1–9".to_string(), "sec.ws"),
        ]
    );
    assert_eq!(list[2].icon, Some("focus-windows-symbolic"));
    assert_eq!(list[3].icon, Some("preferences-workspaces-symbolic"));
    assert_eq!(list[1].icon, Some("window-close-symbolic"));
}

#[test]
fn full_display_keeps_every_row() {
    let full = from_bindings(&empty_loader(), &sample());
    let list = for_display(&full, &empty_loader(), false);
    assert_eq!(rows(&list), rows(&full));
}

#[test]
fn letters_merge_when_there_are_no_arrows() {
    let entries = vec![
        (b("Super+Shift+l"), Action::Move(Direction::Right)),
        (b("Super+Shift+h"), Action::Move(Direction::Left)),
        (b("Super+Shift+k"), Action::Move(Direction::Up)),
        (b("Super+Shift+j"), Action::Move(Direction::Down)),
    ];
    let full = from_bindings(&empty_loader(), &entries);
    let list = for_display(&full, &empty_loader(), true);
    assert_eq!(list.len(), 1);
    assert_eq!(list[0].keys, "Super + Shift + H J K L");
    assert_eq!(list[0].label, "Move window (builds corners)");
}

#[test]
fn other_groups_join_distinct_keys() {
    let entries = vec![
        (b("Super+equal"), Action::ZoomIn),
        (b("Super+minus"), Action::ZoomOut),
        (b("Super+equal"), Action::ZoomIn),
        (b("Super+Ctrl+1"), Action::Resizing(ResizeDirection::Outwards)),
        (b("Super+Ctrl+3"), Action::Resizing(ResizeDirection::Inwards)),
    ];
    let full = from_bindings(&empty_loader(), &entries);
    let list = for_display(&full, &empty_loader(), true);
    let r = rows(&list);
    assert_eq!(
        r,
        vec![
            ("Super + Ctrl + 1  /  Super + Ctrl + 3".to_string(), "Resize out / in".to_string(), "sec.window"),
            ("Super + equal  /  Super + −".to_string(), "Zoom in / out".to_string(), "sec.zoom"),
        ]
    );
}

#[test]
fn clipboard_slots_form_clickable_groups() {
    let entries = vec![
        (b("Super+Ctrl+1"), Action::Spawn("cosmic-clip-slot save 1".to_string())),
        (b("Super+Ctrl+2"), Action::Spawn("cosmic-clip-slot save 2".to_string())),
        (b("Super+Alt+1"), Action::Spawn("cosmic-clip-slot paste 1".to_string())),
    ];
    let full = from_bindings(&empty_loader(), &entries);
    assert_eq!(full[0].label, "Paste from slot 1–9");
    assert_eq!(full[0].icon, Some("edit-paste-symbolic"));
    let list = for_display(&full, &empty_loader(), true);
    let r = rows(&list);
    assert_eq!(
        r,
        vec![
            ("Super + Alt + 1".to_string(), "Paste from slot 1–9".to_string(), "sec.apps"),
            ("Super + Ctrl + 1 … 2".to_string(), "Save to slot 1–9".to_string(), "sec.apps"),
        ]
    );
    assert_eq!(
        list[1].command,
        Some(vec!["cosmic-clip-slot".to_string(), "save".to_string(), "1".to_string()])
    );
    assert_eq!(list[1].icon, Some("edit-copy-symbolic"));
}

#[test]
fn spawn_rows_use_description_or_program() {
    let entries = vec![
        (
            Binding { keys: "Super+e".into(), description: Some("My editor".into()) },
            Action::Spawn("/usr/bin/gedit --new".into()),
        ),
        (
            Binding { keys: "Super+b".into(), description: Some("   ".into()) },
            Action::Spawn("/opt/firefox/firefox".into()),
        ),
        (b("Super+x"), Action::Spawn("'unbalanced".into())),
    ];
    let list = from_bindings(&empty_loader(), &entries);
    let r = rows(&list);
    assert_eq!(r[0], ("Super + B".to_string(), "firefox".to_string(), "sec.apps"));
    assert_eq!(list[0].icon, Some("web-browser-symbolic"));
    assert_eq!(r[1], ("Super + E".to_string(), "My editor".to_string(), "sec.apps"));
    assert_eq!(list[1].icon, None);
    assert_eq!(list[1].command, Some(vec!["/usr/bin/gedit".to_string(), "--new".to_string()]));
    assert_eq!(r[2].1, "'unbalanced");
    assert_eq!(list[2].command, Some(vec!["'unbalanced".to_string()]));
}

#[test]
fn split_command_respects_quotes() {
    assert_eq!(split_command("xdg-open 'http://a b'"), vec!["xdg-open", "http://a b"]);
    assert_eq!(split_command("\"broken"), vec!["\"broken"]);
}

#[test]
fn describe_hides_disabled_and_self() {
    assert!(describe(&Action::Disable, None).is_none());
    assert!(describe(&Action::Debug, None).is_none());
    assert!(describe(&Action::Spawn("COSMIC-EXT-APPLET-CHEATSHEET".into()), None).is_none());
    let d = describe(&Action::Other("Rotate".into()), None).unwrap();
    assert_eq!(d.section, "sec.other");
    assert!(d.compact_hide);
    let m = describe(&Action::System(System::Mute), None).unwrap();
    assert!(m.compact_hide);
    assert_eq!(m.icon, Some("audio-volume-muted-symbolic"));
    let l = describe(&Action::System(System::LockScreen), None).unwrap();
    assert!(!l.compact_hide);
    match l.label {
        LabelText::Message(k, en) => {
            assert_eq!(k, "act.lock");
            assert_eq!(en, "Lock screen");
        }
        _ => panic!("expected a message label"),
    }
}

#[test]
fn translations_replace_english_labels() {
    let loader = loaded("d-close = Lukk vindu\ndir-left = venstre\n");
    let list = from_bindings(
        &loader,
        &vec![(b("Super+q"), Action::Close), (b("Super+Left"), Action::Focus(FocusDirection::Left))],
    );
    assert_eq!(list[0].label, "Lukk vindu");
    assert_eq!(list[1].label, "Focus venstre");
    assert_eq!(localize(&loader, &LabelText::Message("no.such", "Fallback")), "Fallback");
    assert_eq!(localize(&loader, &LabelText::Plain("as is".into())), "as is");
}

#[test]
fn sorting_orders_sections_keys_labels() {
    let mut list = from_bindings(
        &empty_loader(),
        &vec![
            (b("Super+z"), Action::ZoomIn),
            (b("Super+a"), Action::System(System::AppLibrary)),
            (b("Super+m"), Action::Maximize),
            (b("Super+f"), Action::Fullscreen),
        ],
    );
    let sections: Vec<_> = list.iter().map(|s| s.section).collect();
    assert_eq!(sections, vec!["sec.system", "sec.window", "sec.window", "sec.zoom"]);
    assert_eq!(list[1].keys, "Super + F");
    let before = rows(&list);
    sort_shortcuts(&mut list);
    assert_eq!(rows(&list), before);
    assert_eq!(SECTION_ORDER.len(), 8);
}

#[test]
fn compact_overview_is_determined() {
    let full = from_bindings(&empty_loader(), &sample());
    let a = for_display(&full, &empty_loader(), true);
    let b = for_display(&full, &empty_loader(), true);
    assert_eq!(rows(&a), rows(&b));
    let again = for_display(&a, &empty_loader(), false);
    assert_eq!(rows(&again), rows(&a));
}

#[test]
fn compacting_a_compact_list_changes_nothing() {
    let full = from_bindings(&empty_loader(), &sample());
    let once = for_display(&full, &empty_loader(), true);
    let twice = for_display(&once, &empty_loader(), true);
    assert_eq!(rows(&twice), rows(&once));
    let icons_once: Vec<_> = once.iter().map(|s| (s.icon, s.command.clone())).collect();
    let icons_twice: Vec<_> = twice.iter().map(|s| (s.icon, s.command.clone())).collect();
    assert_eq!(icons_twice, icons_once);
}

#[test]
fn launcher_rows_from_given_words() {
    let words = vec!["/usr/bin/cosmic-clip-slot".to_string(), "paste".to_string(), "3".to_string()];
    assert_eq!(program_of(&words, "ignored"), "cosmic-clip-slot");
    assert_eq!(launcher_icon(&words, "ignored"), Some("edit-paste-symbolic"));
    match launcher_label(&words, "ignored", None) {
        LabelText::Message(k, en) => {
            assert_eq!(k, "d.paste_slot");
            assert_eq!(en, "Paste from slot 1–9");
        }
        _ => panic!("expected a message label"),
    }
    assert_eq!(program_of(&Vec::new(), "raw cmd"), "raw cmd");
    assert_eq!(launcher_icon(&vec!["firefox".to_string()], "firefox"), Some("web-browser-symbolic"));
    match launcher_label(&vec!["my-tool".to_string()], "my-tool", Some("  ")) {
        LabelText::Plain(t) => assert_eq!(t, "my-tool"),
        _ => panic!("expected the program name"),
    }
}
