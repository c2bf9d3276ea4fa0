use cosmic_ext_applet_cheatsheet::config::CustomShortcut;
use cosmic_ext_applet_cheatsheet::describe::{Action, Binding, FocusDirection};
use cosmic_ext_applet_cheatsheet::i18n::lang_choice;
use cosmic_ext_applet_cheatsheet::listing::{list_rows, ListItem};
use cosmic_ext_applet_cheatsheet::sheet::{
    custom_from_form, delete_custom, is_listed, set_search, toggle_learned, nav_commands, nav_down, nav_up, non_empty, CloseFinish,
    CloseStart, SheetState, ToggleStep,
};
use cosmic_ext_applet_cheatsheet::shortcuts::from_bindings;
use i18n_embed::fluent::FluentLanguageLoader;

fn loader() -> FluentLanguageLoader {
    FluentLanguageLoader::new("cheatsheet", "en".parse().unwrap())
}

fn b(keys: &str) -> Binding {
    Binding { keys: keys.to_string(), description: None }
}

fn c(label: &str, keys: &str, command: Option<&str>, section: Option<&str>) -> CustomShortcut {
    CustomShortcut {
        label: label.into(),
        keys: keys.into(),
        command: command.map(str::to_string),
        section: section.map(str::to_string),
    }
}

#[test]
fn search_matches_label_or_keys() {
    assert!(cosmic_ext_applet_cheatsheet::sheet::matches("", "Terminal", "Super + T"));
    assert!(cosmic_ext_applet_cheatsheet::sheet::matches("term", "Terminal", "Super + T"));
    assert!(cosmic_ext_applet_cheatsheet::sheet::matches("super + t", "Terminal", "Super + T"));
    assert!(!cosmic_ext_applet_cheatsheet::sheet::matches("files", "Terminal", "Super + T"));
}

#[test]
fn non_empty_trims() {
    assert_eq!(non_empty("  x  "), Some("x".to_string()));
    assert_eq!(non_empty("   "), None);
}

#[test]
fn the_add_form_builds_entries() {
    let e = custom_from_form(" Shot ", " Super + M ", " tool -x ", "", false).unwrap();
    assert_eq!(e.label, "Shot");
    assert_eq!(e.keys, "Super + M");
    assert_eq!(e.command, Some("tool -x".to_string()));
    assert_eq!(e.section, None);
    let note = custom_from_form("Note", "remember this", "ignored", " Notes ", true).unwrap();
    assert_eq!(note.command, None);
    assert_eq!(note.section, Some("Notes".to_string()));
    assert!(custom_from_form("  ", "keys", "", "", false).is_none());
    assert!(custom_from_form("label", "", "", "", false).is_none());
}

#[test]
fn clickable_rows_in_render_order() {
    let visible = from_bindings(
        &loader(),
        &vec![
            (b("Super+f"), Action::Spawn("cosmic-files".into())),
            (b("Super+t"), Action::Spawn("cosmic-term".into())),
            (b("Super+Left"), Action::Focus(FocusDirection::Left)),
        ],
    );
    let custom = vec![
        c("Shot", "Super + M", Some("shot --area"), Some("Tools")),
        c("Note", "read me", None, None),
        c("Edit", "Super + E", Some("gedit"), None),
        c("Grab", "Super + G", Some("grab"), Some("Tools")),
    ];
    let all = nav_commands(&visible, &custom, "", &Vec::new(), false);
    assert_eq!(
        all,
        vec![
            vec!["cosmic-files".to_string()],
            vec!["cosmic-term".to_string()],
            vec!["shot".to_string(), "--area".to_string()],
            vec!["grab".to_string()],
            vec!["gedit".to_string()],
        ]
    );
    let learned = vec!["Super + F".to_string(), "Super + G".to_string()];
    let hidden = nav_commands(&visible, &custom, "", &learned, false);
    assert_eq!(hidden.len(), 3);
    let shown = nav_commands(&visible, &custom, "", &learned, true);
    assert_eq!(shown.len(), 5);
    let found = nav_commands(&visible, &custom, "term", &Vec::new(), false);
    assert_eq!(found, vec![vec!["cosmic-term".to_string()]]);
}

#[test]
fn selection_stays_in_range() {
    assert_eq!(nav_down(0, 3), 1);
    assert_eq!(nav_down(2, 3), 2);
    assert_eq!(nav_down(5, 0), 5);
    assert_eq!(nav_up(0), 0);
    assert_eq!(nav_up(4), 3);
}

#[test]
fn sheet_opens_and_closes() {
    let mut s = SheetState::new(false);
    assert!(!s.sheet_is_open());
    assert_eq!(s.toggle_step(false), ToggleStep::Open);
    assert_eq!(s.toggle_step(true), ToggleStep::CloseEverything);
    assert!(!s.open_sheet(false));
    assert!(!s.sheet_is_open());
    assert!(s.open_sheet(true));
    assert!(s.sheet_is_open());
    assert_eq!(s.begin_close(), CloseStart::FinishNow);
    assert_eq!(s.finish_close(), CloseFinish { destroy_surface: false, exit: false });
    assert!(!s.sheet_is_open());
    assert!(s.open_sheet(true));
    s.surface_ready();
    assert_eq!(s.toggle_step(false), ToggleStep::BeginClose);
    assert!(s.poll_close(true));
    assert!(!s.poll_open(true));
    assert_eq!(s.begin_close(), CloseStart::Animate);
    assert_eq!(s.toggle_step(false), ToggleStep::Ignore);
    assert!(!s.poll_close(true));
    assert_eq!(s.finish_close(), CloseFinish { destroy_surface: true, exit: false });
    assert_eq!(s.begin_close(), CloseStart::Nothing);
    let mut w = SheetState::new(true);
    assert!(w.close_wanted());
    assert_eq!(w.begin_close(), CloseStart::Exit);
}

#[test]
fn learned_rows_hidden_unless_learning() {
    let learned = vec!["Super + T".to_string()];
    assert!(!is_listed("", &learned, false, "Terminal", "Super + T"));
    assert!(!is_listed("term", &learned, false, "Terminal", "Super + T"));
    assert!(is_listed("term", &learned, true, "Terminal", "Super + T"));
    assert!(!is_listed("files", &learned, true, "Terminal", "Super + T"));
    assert!(is_listed("", &learned, false, "Files", "Super + F"));
}

#[test]
fn toggling_cycles_the_sheet() {
    let mut s = SheetState::new(false);
    assert_eq!(s.toggle_step(false), ToggleStep::Open);
    assert!(s.open_sheet(true));
    s.surface_ready();
    assert_eq!(s.toggle_step(false), ToggleStep::BeginClose);
    assert_eq!(s.begin_close(), CloseStart::Animate);
    assert_eq!(s.toggle_step(false), ToggleStep::Ignore);
    s.finish_close();
    assert!(!s.sheet_is_open());
    assert_eq!(s.toggle_step(false), ToggleStep::Open);
    assert_eq!(s.toggle_step(true), ToggleStep::CloseEverything);
}

fn describe_items(items: &[ListItem]) -> Vec<String> {
    items
        .iter()
        .map(|it| match it {
            ListItem::Heading(t) => format!("# {t}"),
            ListItem::Row { label, keys, argv, selected, learned, .. } => format!(
                "{label} [{keys}]{}{}{}",
                if argv.is_some() { " click" } else { "" },
                if *selected { " selected" } else { "" },
                if *learned { " learned" } else { "" },
            ),
        })
        .collect()
}

#[test]
fn the_list_marks_the_row_enter_launches() {
    let visible = from_bindings(
        &loader(),
        &vec![
            (b("Super+f"), Action::Spawn("cosmic-files".into())),
            (b("Super+t"), Action::Spawn("cosmic-term".into())),
            (b("Super+Left"), Action::Focus(FocusDirection::Left)),
        ],
    );
    let custom = vec![
        c("Shot", "Super + M", Some("shot --area"), Some("Tools")),
        c("Note", "read me", None, None),
        c("Grab", "Super + G", Some("grab"), Some("Tools")),
    ];
    let learned = vec!["Super + T".to_string()];
    let items = list_rows(&loader(), &visible, &custom, "", &learned, true, 3);
    assert_eq!(
        describe_items(&items),
        vec![
            "# sec.apps",
            "Files [Super + F] click",
            "Terminal [Super + T] click learned",
            "# sec.focus",
            "Focus left [Super + ←]",
            "# Tools",
            "Shot [Super + M] click",
            "Grab [Super + G] click selected",
            "# Custom",
            "Note [read me]",
        ]
    );
    let nav = nav_commands(&visible, &custom, "", &learned, true);
    let clicks: Vec<Vec<String>> = items
        .iter()
        .filter_map(|it| match it {
            ListItem::Row { argv: Some(a), .. } => Some(a.clone()),
            _ => None,
        })
        .collect();
    assert_eq!(clicks, nav);
    assert_eq!(nav[3], vec!["grab".to_string()]);
    let hidden = list_rows(&loader(), &visible, &custom, "", &learned, false, 0);
    assert_eq!(
        describe_items(&hidden)[..3],
        ["# sec.apps".to_string(), "Files [Super + F] click selected".to_string(), "# sec.focus".to_string()]
    );
    let none = list_rows(&loader(), &visible, &custom, "zzz", &learned, false, 0);
    assert!(none.is_empty());
}

#[test]
fn window_updates_are_verified_steps() {
    let mut search = String::from("old");
    let mut selected = 4usize;
    set_search(&mut search, "term".to_string(), &mut selected);
    assert_eq!((search.as_str(), selected), ("term", 0));

    let mut learned = vec!["A".to_string()];
    selected = 2;
    toggle_learned(&mut learned, "B", true, &mut selected);
    toggle_learned(&mut learned, "B", true, &mut selected);
    assert_eq!(learned, vec!["A".to_string(), "B".to_string()]);
    assert_eq!(selected, 0);
    toggle_learned(&mut learned, "A", false, &mut selected);
    assert_eq!(learned, vec!["B".to_string()]);

    let mut custom = vec![c("One", "1", None, None), c("Two", "2", None, None)];
    assert!(!delete_custom(&mut custom, 2));
    assert_eq!(custom.len(), 2);
    assert!(delete_custom(&mut custom, 0));
    assert_eq!(custom[0].label, "Two");

    assert_eq!(lang_choice(1, "nor"), Some("eng"));
    assert_eq!(lang_choice(1, "eng"), None);
    assert_eq!(lang_choice(9, "eng"), None);
}
