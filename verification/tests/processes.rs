use cosmic_ext_applet_cheatsheet::ipc::{
    anything_open, applet_is_registered, applet_pid_path, claim_step, claimed_after_race,
    close_request_path, cmdline, is_our_applet, is_our_binary, is_our_window, names_pid,
    open_marker_alive, open_marker_path, open_owner, open_request_path, parse_pid,
    proc_entry_pid, release_removes, runtime_dir, ClaimStep, ProcessProbe,
};

#[test]
fn paths_join_like_path_join() {
    assert_eq!(runtime_dir(None), "/tmp");
    assert_eq!(runtime_dir(Some("/run/user/1000")), "/run/user/1000");
    assert_eq!(applet_pid_path("/run/user/1000"), "/run/user/1000/cosmic-ext-cheatsheet-applet.pid");
    assert_eq!(open_request_path("/tmp/"), "/tmp/cosmic-ext-cheatsheet.request.open");
    assert_eq!(close_request_path("/tmp"), "/tmp/cosmic-ext-cheatsheet.request.close");
    assert_eq!(open_marker_path(""), "cosmic-ext-cheatsheet.open");
    let joined = std::path::Path::new("/run/user/1000").join("cosmic-ext-cheatsheet.open");
    assert_eq!(open_marker_path("/run/user/1000"), joined.to_str().unwrap());
}

#[test]
fn pid_files_are_trimmed_numbers() {
    assert_eq!(parse_pid("1234\n"), Some(1234));
    assert_eq!(parse_pid(" 42 "), Some(42));
    assert_eq!(parse_pid("abc"), None);
    assert_eq!(parse_pid(""), None);
    assert!(names_pid("77\n", 77));
    assert!(!names_pid("78", 77));
}

#[test]
fn command_lines_identify_our_processes() {
    let c = cmdline("/usr/bin/cosmic-ext-applet-cheatsheet\0--window\0");
    assert_eq!(c, "/usr/bin/cosmic-ext-applet-cheatsheet --window ");
    assert!(is_our_binary(Some(&c)));
    assert!(is_our_window(Some(&c)));
    assert!(!is_our_applet(Some(&c)));
    let applet = "cosmic-ext-applet-cheatsheet";
    assert!(is_our_applet(Some(applet)));
    assert!(!is_our_window(Some(applet)));
    assert!(!is_our_binary(Some("cosmic-term")));
    assert!(!is_our_binary(None));
}

fn probe(pid: u32, alive: bool, cmd: Option<&str>) -> ProcessProbe {
    ProcessProbe { pid, alive, cmdline: cmd.map(str::to_string) }
}

#[test]
fn marker_owner_must_be_live_and_ours() {
    let live = probe(10, true, Some("cosmic-ext-applet-cheatsheet"));
    let dead = probe(11, false, Some("cosmic-ext-applet-cheatsheet"));
    let other = probe(12, true, Some("bash"));
    assert_eq!(open_owner(Some(&live)), Some(10));
    assert_eq!(open_owner(Some(&dead)), None);
    assert_eq!(open_owner(Some(&other)), None);
    assert_eq!(open_owner(None), None);
    assert!(open_marker_alive(Some(&live)));
    assert!(!open_marker_alive(Some(&other)));
    assert!(anything_open(false, true));
    assert!(!anything_open(false, false));
}

#[test]
fn applets_are_registered_only_when_live() {
    assert!(applet_is_registered(Some(&probe(5, true, Some("cosmic-ext-applet-cheatsheet")))));
    assert!(!applet_is_registered(Some(&probe(5, true, Some("cosmic-ext-applet-cheatsheet --window")))));
    assert!(!applet_is_registered(Some(&probe(5, false, Some("cosmic-ext-applet-cheatsheet")))));
    assert!(!applet_is_registered(None));
}

#[test]
fn claiming_respects_a_live_owner() {
    assert!(matches!(claim_step(Some(7), 7), ClaimStep::Decided(true)));
    assert!(matches!(claim_step(Some(8), 7), ClaimStep::Decided(false)));
    assert!(matches!(claim_step(None, 7), ClaimStep::Create));
    assert!(claimed_after_race(Some(7), 7));
    assert!(!claimed_after_race(None, 7));
    assert!(release_removes("7", 7, Some(9)));
    assert!(release_removes("9", 7, None));
    assert!(!release_removes("9", 7, Some(9)));
}

#[test]
fn proc_entries_skip_self_and_non_numbers() {
    assert_eq!(proc_entry_pid("123", 7), Some(123));
    assert_eq!(proc_entry_pid("7", 7), None);
    assert_eq!(proc_entry_pid("self", 7), None);
}

#[test]
fn only_the_owner_holds_the_claim() {
    let owner = Some(41);
    let granted: Vec<u32> = (1..100)
        .filter(|p| matches!(claim_step(owner, *p), ClaimStep::Decided(true)))
        .collect();
    assert_eq!(granted, vec![41]);
}
