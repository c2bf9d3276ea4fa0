//! What a COSMIC key binding means on the sheet: a model of the bound
//! action, and the label, section, icon, command and compact-mode group of
//! its row.

use vstd::prelude::*;
use vstd::string::*;

use crate::text::{
    ascii_lower, contains, contains_seq, is_whitespace, split, split_spec, str_eq,
    to_ascii_lowercase, trim, trim_spec, views,
};

verus! {

broadcast use vstd::seq_lib::group_seq_properties;

/// A direction for moving windows and outputs.
#[derive(Clone, Copy, Debug, PartialEq, Eq)]
pub enum Direction {
    Left,
    Right,
    Up,
    Down,
}

/// A direction for moving the focus.
#[derive(Clone, Copy, Debug, PartialEq, Eq)]
pub enum FocusDirection {
    Left,
    Right,
    Up,
    Down,
    In,
    Out,
}

/// A direction for resizing a window.
#[derive(Clone, Copy, Debug, PartialEq, Eq)]
pub enum ResizeDirection {
    Inwards,
    Outwards,
}

/// A system action of the compositor.
#[derive(Clone, Copy, Debug, PartialEq, Eq)]
pub enum System {
    AppLibrary,
    BrightnessDown,
    BrightnessUp,
    DisplayToggle,
    HomeFolder,
    InputSourceSwitch,
    KeyboardBrightnessDown,
    KeyboardBrightnessUp,
    Launcher,
    LockScreen,
    LogOut,
    Mute,
    MuteMic,
    PlayNext,
    PlayPause,
    PlayPrev,
    PowerOff,
    ScreenReader,
    Screenshot,
    Suspend,
    Terminal,
    TouchpadToggle,
    VolumeLower,
    VolumeRaise,
    WebBrowser,
    WindowSwitcher,
    WindowSwitcherPrevious,
    WorkspaceOverview,
}

/// The action a binding triggers, as the compositor's shortcut
/// configuration names it. `Other` stands for the remaining (deprecated or
/// rare) actions and carries their debug text.
pub enum Action {
    Disable,
    Debug,
    Spawn(String),
    Close,
    Terminate,
    Maximize,
    Fullscreen,
    Minimize,
    ToggleWindowFloating,
    ToggleTiling,
    ToggleStacking,
    ToggleOrientation,
    ToggleSticky,
    SwapWindow,
    Resizing(ResizeDirection),
    Focus(FocusDirection),
    Move(Direction),
    Workspace(u8),
    MoveToWorkspace(u8),
    SendToWorkspace(u8),
    LastWorkspace,
    MoveToLastWorkspace,
    SendToLastWorkspace,
    NextWorkspace,
    PreviousWorkspace,
    MoveToNextWorkspace,
    SendToNextWorkspace,
    MoveToPreviousWorkspace,
    SendToPreviousWorkspace,
    SwitchOutput(Direction),
    MoveToOutput(Direction),
    SendToOutput(Direction),
    MigrateWorkspaceToOutput(Direction),
    ZoomIn,
    ZoomOut,
    System(System),
    Other(String),
}

/// A key binding: its text form (e.g. "Super+Shift+Left") and the optional
/// description the user gave it.
pub struct Binding {
    pub keys: String,
    pub description: Option<String>,
}

/// How a row's label is made: literal text, a message with its English
/// text, or a message whose "{}" is filled with a translated word.
pub enum LabelText {
    Plain(String),
    Message(&'static str, &'static str),
    WithArg(&'static str, &'static str, &'static str, &'static str),
}

pub enum LabelView {
    Plain(Seq<char>),
    Message(Seq<char>, Seq<char>),
    WithArg(Seq<char>, Seq<char>, Seq<char>, Seq<char>),
}

impl View for LabelText {
    type V = LabelView;

    open spec fn view(&self) -> LabelView {
        match self {
            LabelText::Plain(s) => LabelView::Plain(s@),
            LabelText::Message(k, e) => LabelView::Message(k@, e@),
            LabelText::WithArg(k, e, wk, we) => LabelView::WithArg(k@, e@, wk@, we@),
        }
    }
}

/// The metadata of a row before it is localized.
pub struct Described {
    pub label: LabelText,
    pub section: &'static str,
    pub command: Option<Vec<String>>,
    pub icon: Option<&'static str>,
    pub compact_key: Option<&'static str>,
    pub compact_hide: bool,
}

pub struct DescribedView {
    pub label: LabelView,
    pub section: Seq<char>,
    pub command: Option<Seq<Seq<char>>>,
    pub icon: Option<Seq<char>>,
    pub compact_key: Option<Seq<char>>,
    pub compact_hide: bool,
}

pub open spec fn opt_view(o: Option<&'static str>) -> Option<Seq<char>> {
    match o {
        Some(s) => Some(s@),
        None => None,
    }
}

impl View for Described {
    type V = DescribedView;

    open spec fn view(&self) -> DescribedView {
        DescribedView {
            label: self.label@,
            section: self.section@,
            command: match self.command {
                Some(v) => Some(views(v@)),
                None => None,
            },
            icon: opt_view(self.icon),
            compact_key: opt_view(self.compact_key),
            compact_hide: self.compact_hide,
        }
    }
}

/// The words a shell would split a command into (`shlex::split`), or
/// `None` for unbalanced quoting.
pub uninterp spec fn shell_words(cmd: Seq<char>) -> Option<Seq<Seq<char>>>;

/// `shlex::split`; the splitting itself is named, not restated.
#[verifier::external_body]
fn shlex_split(cmd: &str) -> (r: Option<Vec<String>>)
    ensures
        match r {
            Some(v) => shell_words(cmd@) == Some(views(v@)),
            None => shell_words(cmd@) is None,
        },
{
    shlex::split(cmd)
}

/// A spawn command as argv: the shell words, or the whole command as one
/// word when its quoting does not parse.
pub open spec fn split_command_spec(cmd: Seq<char>) -> Seq<Seq<char>> {
    match shell_words(cmd) {
        Some(w) => w,
        None => seq![cmd],
    }
}

/// Split a spawn command into argv, respecting quotes.
pub fn split_command(cmd: &str) -> (r: Vec<String>)
    ensures
        views(r@) == split_command_spec(cmd@),
{
    match shlex_split(cmd) {
        Some(v) => v,
        None => {
            let mut v: Vec<String> = Vec::new();
            v.push(String::from_str(cmd));
            assert(views(v@) =~= seq![cmd@]);
            v
        },
    }
}

/// The last component of a path (`Path::file_name`): the last part between
/// slashes that is neither empty nor ".", unless that part is "..".
pub open spec fn file_name_spec(p: Seq<char>) -> Option<Seq<char>> {
    let parts = split_spec(p, "/"@).filter(|x: Seq<char>| x.len() > 0 && x != "."@);
    if parts.len() == 0 || parts.last() == ".."@ {
        None
    } else {
        Some(parts.last())
    }
}

fn file_name(p: &str) -> (r: Option<String>)
    ensures
        match r {
            Some(s) => file_name_spec(p@) == Some(s@),
            None => file_name_spec(p@) is None,
        },
{
    proof {
        reveal_strlit("/");
    }
    let parts = split(p, "/");
    let ghost pred = |x: Seq<char>| x.len() > 0 && x != "."@;
    let mut last: Option<String> = None;
    let n = parts.len();
    let mut i: usize = 0;
    while i < n
        invariant
            n == parts@.len(),
            i <= n,
            pred == (|x: Seq<char>| x.len() > 0 && x != "."@),
            match last {
                Some(s) => views(parts@).take(i as int).filter(pred).len() > 0 && views(
                    parts@,
                ).take(i as int).filter(pred).last() == s@,
                None => views(parts@).take(i as int).filter(pred).len() == 0,
            },
        decreases n - i,
    {
        assert(views(parts@).take(i + 1).drop_last() =~= views(parts@).take(i as int));
        assert(views(parts@).take(i + 1).last() == parts@[i as int]@);
        reveal(Seq::filter);
        let part = parts[i].as_str();
        if part.unicode_len() > 0 && !str_eq(part, ".") {
            last = Some(parts[i].clone());
        }
        i = i + 1;
    }
    assert(views(parts@).take(n as int) =~= views(parts@));
    match last {
        Some(s) => {
            if str_eq(s.as_str(), "..") {
                None
            } else {
                Some(s)
            }
        },
        None => None,
    }
}

/// The program a spawn command runs, given its words `args`: the file name
/// of its first word (the command itself when it has no words).
pub open spec fn program_spec(args: Seq<Seq<char>>, cmd: Seq<char>) -> Seq<char> {
    if args.len() == 0 {
        cmd
    } else {
        match file_name_spec(args[0]) {
            Some(f) => f,
            None => args[0],
        }
    }
}

/// The program a spawn command runs: the file name of its first word.
pub open spec fn spawn_bin_spec(cmd: Seq<char>) -> Seq<char> {
    program_spec(split_command_spec(cmd), cmd)
}

/// The program a spawn command runs, given the command's words.
pub fn program_of(args: &Vec<String>, cmd: &str) -> (r: String)
    ensures
        r@ == program_spec(views(args@), cmd@),
{
    if args.len() == 0 {
        return String::from_str(cmd);
    }
    assert(views(args@)[0] == args@[0]@);
    match file_name(args[0].as_str()) {
        Some(f) => f,
        None => args[0].clone(),
    }
}

/// Binding to this cheat sheet itself (hidden from the sheet).
pub open spec fn is_self_cheatsheet_spec(cmd: Seq<char>) -> bool {
    contains_seq(ascii_lower(cmd), "cosmic-ext-applet-cheatsheet"@)
}

fn is_self_cheatsheet(cmd: &str) -> (r: bool)
    ensures
        r == is_self_cheatsheet_spec(cmd@),
{
    let lower = to_ascii_lowercase(cmd);
    contains(lower.as_str(), "cosmic-ext-applet-cheatsheet")
}

fn any_arg_is(args: &Vec<String>, word: &str) -> (r: bool)
    ensures
        r == views(args@).contains(word@),
{
    let n = args.len();
    let mut i: usize = 0;
    while i < n
        invariant
            n == args@.len(),
            i <= n,
            forall|k: int| 0 <= k < i ==> views(args@)[k] != word@,
        decreases n - i,
    {
        if str_eq(args[i].as_str(), word) {
            assert(views(args@)[i as int] == word@);
            return true;
        }
        i = i + 1;
    }
    false
}

/// Icon of a launcher row, by the program it starts, given the command's
/// words `args`.
pub open spec fn launcher_icon_spec(args: Seq<Seq<char>>, cmd: Seq<char>) -> Option<Seq<char>> {
    let bin = program_spec(args, cmd);
    if bin == "cosmic-term"@ {
        Some("utilities-terminal-symbolic"@)
    } else if bin == "cosmic-files"@ {
        Some("system-file-manager-symbolic"@)
    } else if bin == "cosmic-edit"@ {
        Some("accessories-text-editor-symbolic"@)
    } else if bin == "cosmic-screenshot"@ {
        Some("accessories-screenshot-symbolic"@)
    } else if bin == "cosmic-shot-clip"@ {
        Some("edit-cut-symbolic"@)
    } else if bin == "cosmic-ocr-clip"@ {
        Some("edit-select-all-symbolic"@)
    } else if bin == "cosmic-ocr-settings"@ {
        Some("preferences-desktop-locale-symbolic"@)
    } else if bin == "cosmic-settings"@ {
        Some("preferences-system-symbolic"@)
    } else if bin == "cosmic-app-library"@ {
        Some("preferences-applications-symbolic"@)
    } else if bin == "cosmic-workspaces"@ {
        Some("preferences-workspaces-symbolic"@)
    } else if bin == "cosmic-clip-history"@ {
        Some("edit-paste-symbolic"@)
    } else if bin == "cosmic-clip-slot"@ {
        if args.contains("save"@) {
            Some("edit-copy-symbolic"@)
        } else if args.contains("paste"@) {
            Some("edit-paste-symbolic"@)
        } else {
            Some("edit-copy-symbolic"@)
        }
    } else if bin == "cosmic-panel-reset"@ {
        Some("preferences-panel-symbolic"@)
    } else if bin == "cosmic-annotate"@ {
        Some("edit-symbolic"@)
    } else if bin == "cosmic-cheatsheet-toggle"@ || bin == "cosmic-cheatsheet"@ {
        Some("input-keyboard-symbolic"@)
    } else if contains_seq(bin, "firefox"@) || contains_seq(bin, "chrome"@) || contains_seq(
        bin,
        "browser"@,
    ) {
        Some("web-browser-symbolic"@)
    } else {
        None
    }
}

/// Icon of a launcher row, by the program it starts.
pub open spec fn spawn_icon_spec(cmd: Seq<char>) -> Option<Seq<char>> {
    launcher_icon_spec(split_command_spec(cmd), cmd)
}

/// Icon of a launcher row, given the command's words.
pub fn launcher_icon(args: &Vec<String>, cmd: &str) -> (r: Option<&'static str>)
    ensures
        opt_view(r) == launcher_icon_spec(views(args@), cmd@),
{
    let bin = program_of(args, cmd);
    let b = bin.as_str();
    if str_eq(b, "cosmic-term") {
        Some("utilities-terminal-symbolic")
    } else if str_eq(b, "cosmic-files") {
        Some("system-file-manager-symbolic")
    } else if str_eq(b, "cosmic-edit") {
        Some("accessories-text-editor-symbolic")
    } else if str_eq(b, "cosmic-screenshot") {
        Some("accessories-screenshot-symbolic")
    } else if str_eq(b, "cosmic-shot-clip") {
        Some("edit-cut-symbolic")
    } else if str_eq(b, "cosmic-ocr-clip") {
        Some("edit-select-all-symbolic")
    } else if str_eq(b, "cosmic-ocr-settings") {
        Some("preferences-desktop-locale-symbolic")
    } else if str_eq(b, "cosmic-settings") {
        Some("preferences-system-symbolic")
    } else if str_eq(b, "cosmic-app-library") {
        Some("preferences-applications-symbolic")
    } else if str_eq(b, "cosmic-workspaces") {
        Some("preferences-workspaces-symbolic")
    } else if str_eq(b, "cosmic-clip-history") {
        Some("edit-paste-symbolic")
    } else if str_eq(b, "cosmic-clip-slot") {
        if any_arg_is(args, "save") {
            Some("edit-copy-symbolic")
        } else if any_arg_is(args, "paste") {
            Some("edit-paste-symbolic")
        } else {
            Some("edit-copy-symbolic")
        }
    } else if str_eq(b, "cosmic-panel-reset") {
        Some("preferences-panel-symbolic")
    } else if str_eq(b, "cosmic-annotate") {
        Some("edit-symbolic")
    } else if str_eq(b, "cosmic-cheatsheet-toggle") || str_eq(b, "cosmic-cheatsheet") {
        Some("input-keyboard-symbolic")
    } else if contains(b, "firefox") || contains(b, "chrome") || contains(b, "browser") {
        Some("web-browser-symbolic")
    } else {
        None
    }
}

/// Label of a launcher row, given the command's words `args`: the
/// binding's description when it has text, else a name for the program it
/// starts.
pub open spec fn launcher_label_spec(
    args: Seq<Seq<char>>,
    cmd: Seq<char>,
    description: Option<Seq<char>>,
) -> LabelView {
    let bin = program_spec(args, cmd);
    if description is Some && trim_spec(description.unwrap()).len() > 0 {
        LabelView::Plain(description.unwrap())
    } else if bin == "cosmic-files"@ {
        LabelView::Message("act.files"@, "Files"@)
    } else if bin == "cosmic-term"@ {
        LabelView::Message("act.terminal"@, "Terminal"@)
    } else if bin == "cosmic-edit"@ {
        LabelView::Message("act.editor"@, "Editor"@)
    } else if bin == "cosmic-settings"@ {
        LabelView::Message("act.settings"@, "Settings"@)
    } else if bin == "cosmic-app-library"@ {
        LabelView::Message("act.app_lib"@, "App library"@)
    } else if bin == "cosmic-workspaces"@ {
        LabelView::Message("act.workspaces"@, "Workspaces"@)
    } else if bin == "cosmic-screenshot"@ {
        LabelView::Message("act.shot_file"@, "Screenshot → file"@)
    } else if bin == "cosmic-shot-clip"@ {
        LabelView::Message("act.shot_clip"@, "Screenshot → clipboard"@)
    } else if bin == "cosmic-ocr-clip"@ {
        LabelView::Message("act.ocr"@, "Text from image (OCR)"@)
    } else if bin == "cosmic-ocr-settings"@ {
        LabelView::Message("act.ocr_lang"@, "OCR language (setting)"@)
    } else if bin == "cosmic-clip-history"@ {
        LabelView::Message("act.clip_history"@, "Clipboard history"@)
    } else if bin == "cosmic-panel-reset"@ {
        LabelView::Message("act.panel_reset"@, "Reset panel/dock"@)
    } else if bin == "cosmic-annotate"@ {
        LabelView::Message("act.annotate"@, "Annotate"@)
    } else if bin == "cosmic-cheatsheet-toggle"@ || bin == "cosmic-cheatsheet"@ {
        LabelView::Message("act.cheat_gtk"@, "Cheat sheet (GTK)"@)
    } else if bin == "cosmic-clip-slot"@ {
        if args.contains("save"@) {
            LabelView::Message("d.save_slot"@, "Save to slot 1–9"@)
        } else if args.contains("paste"@) {
            LabelView::Message("d.paste_slot"@, "Paste from slot 1–9"@)
        } else {
            LabelView::Message("act.clip_history"@, "Clipboard history"@)
        }
    } else {
        LabelView::Plain(bin)
    }
}

fn has_text(description: Option<&str>) -> (r: bool)
    ensures
        r == (description is Some && trim_spec(description.unwrap()@).len() > 0),
{
    match description {
        Some(d) => trim(d).unicode_len() > 0,
        None => false,
    }
}

/// Label of a launcher row: the binding's description when it has text,
/// else a name for the program it starts.
pub open spec fn spawn_label_spec(cmd: Seq<char>, description: Option<Seq<char>>) -> LabelView {
    launcher_label_spec(split_command_spec(cmd), cmd, description)
}

/// Label of a launcher row, given the command's words.
pub fn launcher_label(args: &Vec<String>, cmd: &str, description: Option<&str>) -> (r: LabelText)
    ensures
        r@ == launcher_label_spec(
            views(args@),
            cmd@,
            match description {
                Some(d) => Some(d@),
                None => None,
            },
        ),
{
    if has_text(description) {
        return LabelText::Plain(String::from_str(description.unwrap()));
    }
    let bin = program_of(args, cmd);
    let b = bin.as_str();
    if str_eq(b, "cosmic-files") {
        LabelText::Message("act.files", "Files")
    } else if str_eq(b, "cosmic-term") {
        LabelText::Message("act.terminal", "Terminal")
    } else if str_eq(b, "cosmic-edit") {
        LabelText::Message("act.editor", "Editor")
    } else if str_eq(b, "cosmic-settings") {
        LabelText::Message("act.settings", "Settings")
    } else if str_eq(b, "cosmic-app-library") {
        LabelText::Message("act.app_lib", "App library")
    } else if str_eq(b, "cosmic-workspaces") {
        LabelText::Message("act.workspaces", "Workspaces")
    } else if str_eq(b, "cosmic-screenshot") {
        LabelText::Message("act.shot_file", "Screenshot → file")
    } else if str_eq(b, "cosmic-shot-clip") {
        LabelText::Message("act.shot_clip", "Screenshot → clipboard")
    } else if str_eq(b, "cosmic-ocr-clip") {
        LabelText::Message("act.ocr", "Text from image (OCR)")
    } else if str_eq(b, "cosmic-ocr-settings") {
        LabelText::Message("act.ocr_lang", "OCR language (setting)")
    } else if str_eq(b, "cosmic-clip-history") {
        LabelText::Message("act.clip_history", "Clipboard history")
    } else if str_eq(b, "cosmic-panel-reset") {
        LabelText::Message("act.panel_reset", "Reset panel/dock")
    } else if str_eq(b, "cosmic-annotate") {
        LabelText::Message("act.annotate", "Annotate")
    } else if str_eq(b, "cosmic-cheatsheet-toggle") || str_eq(b, "cosmic-cheatsheet") {
        LabelText::Message("act.cheat_gtk", "Cheat sheet (GTK)")
    } else if str_eq(b, "cosmic-clip-slot") {
        if any_arg_is(args, "save") {
            LabelText::Message("d.save_slot", "Save to slot 1–9")
        } else if any_arg_is(args, "paste") {
            LabelText::Message("d.paste_slot", "Paste from slot 1–9")
        } else {
            LabelText::Message("act.clip_history", "Clipboard history")
        }
    } else {
        LabelText::Plain(bin)
    }
}

/// Compact-mode group of a launcher row: clipboard-slot save and paste
/// commands each form a group.
pub open spec fn spawn_compact_spec(cmd: Seq<char>) -> Option<Seq<char>> {
    let lower = ascii_lower(cmd);
    if contains_seq(lower, "cosmic-clip-slot"@) && contains_seq(lower, "save"@) {
        Some("clip_save"@)
    } else if contains_seq(lower, "cosmic-clip-slot"@) && contains_seq(lower, "paste"@) {
        Some("clip_paste"@)
    } else {
        None
    }
}

fn spawn_compact(cmd: &str) -> (r: (Option<&'static str>, bool))
    ensures
        opt_view(r.0) == spawn_compact_spec(cmd@),
        !r.1,
{
    let lower = to_ascii_lowercase(cmd);
    let l = lower.as_str();
    if contains(l, "cosmic-clip-slot") && contains(l, "save") {
        return (Some("clip_save"), false);
    }
    if contains(l, "cosmic-clip-slot") && contains(l, "paste") {
        return (Some("clip_paste"), false);
    }
    (None, false)
}

/// Icon of a system action.
pub open spec fn system_icon_spec(sys: System) -> Seq<char> {
    match sys {
        System::Terminal => "utilities-terminal-symbolic"@,
        System::HomeFolder => "user-home-symbolic"@,
        System::WebBrowser => "web-browser-symbolic"@,
        System::Screenshot => "accessories-screenshot-symbolic"@,
        System::AppLibrary => "preferences-applications-symbolic"@,
        System::WorkspaceOverview => "preferences-workspaces-symbolic"@,
        System::LockScreen => "system-lock-screen-symbolic"@,
        System::LogOut => "system-log-out-symbolic"@,
        System::Launcher => "system-search-symbolic"@,
        System::WindowSwitcher | System::WindowSwitcherPrevious => "focus-windows-symbolic"@,
        System::ScreenReader => "preferences-desktop-accessibility-symbolic"@,
        System::InputSourceSwitch => "input-keyboard-symbolic"@,
        System::VolumeRaise => "audio-volume-high-symbolic"@,
        System::VolumeLower => "audio-volume-low-symbolic"@,
        System::Mute => "audio-volume-muted-symbolic"@,
        System::MuteMic => "microphone-sensitivity-muted-symbolic"@,
        System::PlayPause => "media-playback-start-symbolic"@,
        System::PlayNext => "media-skip-forward-symbolic"@,
        System::PlayPrev => "media-skip-backward-symbolic"@,
        System::BrightnessUp => "display-brightness-high-symbolic"@,
        System::BrightnessDown => "display-brightness-low-symbolic"@,
        System::KeyboardBrightnessUp | System::KeyboardBrightnessDown => "keyboard-brightness-symbolic"@,
        System::DisplayToggle => "video-display-symbolic"@,
        System::TouchpadToggle => "input-touchpad-symbolic"@,
        System::Suspend => "system-suspend-symbolic"@,
        System::PowerOff => "system-shutdown-symbolic"@,
    }
}

fn system_icon(sys: System) -> (r: &'static str)
    ensures
        r@ == system_icon_spec(sys),
{
    match sys {
        System::Terminal => "utilities-terminal-symbolic",
        System::HomeFolder => "user-home-symbolic",
        System::WebBrowser => "web-browser-symbolic",
        System::Screenshot => "accessories-screenshot-symbolic",
        System::AppLibrary => "preferences-applications-symbolic",
        System::WorkspaceOverview => "preferences-workspaces-symbolic",
        System::LockScreen => "system-lock-screen-symbolic",
        System::LogOut => "system-log-out-symbolic",
        System::Launcher => "system-search-symbolic",
        System::WindowSwitcher | System::WindowSwitcherPrevious => "focus-windows-symbolic",
        System::ScreenReader => "preferences-desktop-accessibility-symbolic",
        System::InputSourceSwitch => "input-keyboard-symbolic",
        System::VolumeRaise => "audio-volume-high-symbolic",
        System::VolumeLower => "audio-volume-low-symbolic",
        System::Mute => "audio-volume-muted-symbolic",
        System::MuteMic => "microphone-sensitivity-muted-symbolic",
        System::PlayPause => "media-playback-start-symbolic",
        System::PlayNext => "media-skip-forward-symbolic",
        System::PlayPrev => "media-skip-backward-symbolic",
        System::BrightnessUp => "display-brightness-high-symbolic",
        System::BrightnessDown => "display-brightness-low-symbolic",
        System::KeyboardBrightnessUp | System::KeyboardBrightnessDown => "keyboard-brightness-symbolic",
        System::DisplayToggle => "video-display-symbolic",
        System::TouchpadToggle => "input-touchpad-symbolic",
        System::Suspend => "system-suspend-symbolic",
        System::PowerOff => "system-shutdown-symbolic",
    }
}

/// Volume, media and brightness keys (hidden in the compact overview).
pub open spec fn is_media_spec(sys: System) -> bool {
    match sys {
        System::VolumeRaise | System::VolumeLower | System::Mute | System::MuteMic
        | System::PlayPause | System::PlayNext | System::PlayPrev | System::BrightnessUp
        | System::BrightnessDown | System::KeyboardBrightnessUp
        | System::KeyboardBrightnessDown => true,
        _ => false,
    }
}

fn is_media_system(sys: System) -> (r: bool)
    ensures
        r == is_media_spec(sys),
{
    match sys {
        System::VolumeRaise | System::VolumeLower | System::Mute | System::MuteMic
        | System::PlayPause | System::PlayNext | System::PlayPrev | System::BrightnessUp
        | System::BrightnessDown | System::KeyboardBrightnessUp
        | System::KeyboardBrightnessDown => true,
        _ => false,
    }
}

/// Message id and English label of a system action.
pub open spec fn system_label_spec(sys: System) -> (Seq<char>, Seq<char>) {
    match sys {
        System::Launcher => ("d.launcher"@, "Launcher (search / start app)"@),
        System::LockScreen => ("act.lock"@, "Lock screen"@),
        System::LogOut => ("d.logout"@, "Log out"@),
        System::Terminal => ("act.terminal"@, "Terminal"@),
        System::WebBrowser => ("act.browser"@, "Browser"@),
        System::HomeFolder => ("act.files"@, "Files"@),
        System::Screenshot => ("act.shot_file"@, "Screenshot → file"@),
        System::AppLibrary => ("act.app_lib"@, "App library"@),
        System::WorkspaceOverview => ("act.workspaces"@, "Workspaces"@),
        System::WindowSwitcher => ("d.switch_window"@, "Switch window"@),
        System::WindowSwitcherPrevious => ("act.switch_window_prev"@, "Switch window (previous)"@),
        System::VolumeRaise => ("act.vol_up"@, "Volume up"@),
        System::VolumeLower => ("act.vol_down"@, "Volume down"@),
        System::Mute => ("act.mute"@, "Mute"@),
        System::MuteMic => ("act.mute_mic"@, "Mute microphone"@),
        System::PlayPause => ("act.play_pause"@, "Play / pause"@),
        System::PlayNext => ("act.play_next"@, "Next track"@),
        System::PlayPrev => ("act.play_prev"@, "Previous track"@),
        System::BrightnessUp => ("act.brightness_up"@, "Brightness up"@),
        System::BrightnessDown => ("act.brightness_down"@, "Brightness down"@),
        System::KeyboardBrightnessUp => ("act.kb_brightness_up"@, "Keyboard brightness up"@),
        System::KeyboardBrightnessDown => ("act.kb_brightness_down"@, "Keyboard brightness down"@),
        System::ScreenReader => ("d.screenreader"@, "Screen reader"@),
        System::InputSourceSwitch => ("d.kb_lang"@, "Switch keyboard language"@),
        System::DisplayToggle => ("act.display_toggle"@, "Toggle display"@),
        System::TouchpadToggle => ("act.touchpad_toggle"@, "Toggle touchpad"@),
        System::Suspend => ("act.suspend"@, "Suspend"@),
        System::PowerOff => ("act.power_off"@, "Power off"@),
    }
}

fn system_label(sys: System) -> (r: (&'static str, &'static str))
    ensures
        (r.0@, r.1@) == system_label_spec(sys),
{
    match sys {
        System::Launcher => ("d.launcher", "Launcher (search / start app)"),
        System::LockScreen => ("act.lock", "Lock screen"),
        System::LogOut => ("d.logout", "Log out"),
        System::Terminal => ("act.terminal", "Terminal"),
        System::WebBrowser => ("act.browser", "Browser"),
        System::HomeFolder => ("act.files", "Files"),
        System::Screenshot => ("act.shot_file", "Screenshot → file"),
        System::AppLibrary => ("act.app_lib", "App library"),
        System::WorkspaceOverview => ("act.workspaces", "Workspaces"),
        System::WindowSwitcher => ("d.switch_window", "Switch window"),
        System::WindowSwitcherPrevious => ("act.switch_window_prev", "Switch window (previous)"),
        System::VolumeRaise => ("act.vol_up", "Volume up"),
        System::VolumeLower => ("act.vol_down", "Volume down"),
        System::Mute => ("act.mute", "Mute"),
        System::MuteMic => ("act.mute_mic", "Mute microphone"),
        System::PlayPause => ("act.play_pause", "Play / pause"),
        System::PlayNext => ("act.play_next", "Next track"),
        System::PlayPrev => ("act.play_prev", "Previous track"),
        System::BrightnessUp => ("act.brightness_up", "Brightness up"),
        System::BrightnessDown => ("act.brightness_down", "Brightness down"),
        System::KeyboardBrightnessUp => ("act.kb_brightness_up", "Keyboard brightness up"),
        System::KeyboardBrightnessDown => ("act.kb_brightness_down", "Keyboard brightness down"),
        System::ScreenReader => ("d.screenreader", "Screen reader"),
        System::InputSourceSwitch => ("d.kb_lang", "Switch keyboard language"),
        System::DisplayToggle => ("act.display_toggle", "Toggle display"),
        System::TouchpadToggle => ("act.touchpad_toggle", "Toggle touchpad"),
        System::Suspend => ("act.suspend", "Suspend"),
        System::PowerOff => ("act.power_off", "Power off"),
    }
}

/// Icon of a compact-mode group, or the icon of its first row.
pub open spec fn compact_icon_spec(key: Seq<char>, fallback: Option<Seq<char>>) -> Option<
    Seq<char>,
> {
    if key == "focus_cardinal"@ {
        Some("focus-windows-symbolic"@)
    } else if key == "focus_stack"@ {
        Some("window-stack-symbolic"@)
    } else if key == "move_cardinal"@ {
        Some("preferences-window-management-symbolic"@)
    } else if key == "workspace_num"@ || key == "ws_next_prev"@ || key == "migrate_ws"@ {
        Some("preferences-workspaces-symbolic"@)
    } else if key == "move_to_ws_num"@ || key == "move_ws_next_prev"@ {
        Some("go-jump-symbolic"@)
    } else if key == "switch_output"@ || key == "move_to_output"@ {
        Some("video-display-symbolic"@)
    } else if key == "resize"@ {
        Some("view-fullscreen-symbolic"@)
    } else if key == "zoom"@ {
        Some("zoom-in-symbolic"@)
    } else if key == "close"@ {
        Some("window-close-symbolic"@)
    } else if key == "clip_save"@ {
        Some("edit-copy-symbolic"@)
    } else if key == "clip_paste"@ {
        Some("edit-paste-symbolic"@)
    } else {
        fallback
    }
}

pub fn compact_icon(key: &str, fallback: Option<&'static str>) -> (r: Option<&'static str>)
    ensures
        opt_view(r) == compact_icon_spec(key@, opt_view(fallback)),
{
    if str_eq(key, "focus_cardinal") {
        Some("focus-windows-symbolic")
    } else if str_eq(key, "focus_stack") {
        Some("window-stack-symbolic")
    } else if str_eq(key, "move_cardinal") {
        Some("preferences-window-management-symbolic")
    } else if str_eq(key, "workspace_num") || str_eq(key, "ws_next_prev") || str_eq(
        key,
        "migrate_ws",
    ) {
        Some("preferences-workspaces-symbolic")
    } else if str_eq(key, "move_to_ws_num") || str_eq(key, "move_ws_next_prev") {
        Some("go-jump-symbolic")
    } else if str_eq(key, "switch_output") || str_eq(key, "move_to_output") {
        Some("video-display-symbolic")
    } else if str_eq(key, "resize") {
        Some("view-fullscreen-symbolic")
    } else if str_eq(key, "zoom") {
        Some("zoom-in-symbolic")
    } else if str_eq(key, "close") {
        Some("window-close-symbolic")
    } else if str_eq(key, "clip_save") {
        Some("edit-copy-symbolic")
    } else if str_eq(key, "clip_paste") {
        Some("edit-paste-symbolic")
    } else {
        fallback
    }
}

/// Label of a compact-mode group, or the label of its first row.
pub open spec fn compact_label_spec(key: Seq<char>, fallback: Seq<char>) -> LabelView {
    if key == "focus_cardinal"@ {
        LabelView::Message("d.move_focus"@, "Move focus between windows"@)
    } else if key == "focus_stack"@ {
        LabelView::Message("d.in_out_stack"@, "Into / out of stack"@)
    } else if key == "move_cardinal"@ {
        LabelView::Message("d.move_window"@, "Move window (builds corners)"@)
    } else if key == "workspace_num"@ {
        LabelView::Message("d.goto_ws"@, "Go to workspace 1–9"@)
    } else if key == "move_to_ws_num"@ {
        LabelView::Message("d.move_win_num"@, "Move window to no."@)
    } else if key == "ws_next_prev"@ {
        LabelView::Message("d.prev_next_ws"@, "Previous / next workspace"@)
    } else if key == "move_ws_next_prev"@ {
        LabelView::Message("d.move_prev_next"@, "Move to previous/next"@)
    } else if key == "switch_output"@ {
        LabelView::Message("act.switch_output_any"@, "Switch monitor"@)
    } else if key == "move_to_output"@ {
        LabelView::Message("d.to_monitor"@, "To another monitor"@)
    } else if key == "migrate_ws"@ {
        LabelView::Message("act.migrate_ws_any"@, "Workspace to another monitor"@)
    } else if key == "resize"@ {
        LabelView::Message("d.resize"@, "Resize out / in"@)
    } else if key == "zoom"@ {
        LabelView::Message("d.zoom"@, "Zoom in / out"@)
    } else if key == "close"@ {
        LabelView::Message("d.close"@, "Close window"@)
    } else if key == "clip_save"@ {
        LabelView::Message("d.save_slot"@, "Save to slot 1–9"@)
    } else if key == "clip_paste"@ {
        LabelView::Message("d.paste_slot"@, "Paste from slot 1–9"@)
    } else {
        LabelView::Plain(fallback)
    }
}

pub fn compact_label(key: &str, fallback: &str) -> (r: LabelText)
    ensures
        r@ == compact_label_spec(key@, fallback@),
{
    if str_eq(key, "focus_cardinal") {
        LabelText::Message("d.move_focus", "Move focus between windows")
    } else if str_eq(key, "focus_stack") {
        LabelText::Message("d.in_out_stack", "Into / out of stack")
    } else if str_eq(key, "move_cardinal") {
        LabelText::Message("d.move_window", "Move window (builds corners)")
    } else if str_eq(key, "workspace_num") {
        LabelText::Message("d.goto_ws", "Go to workspace 1–9")
    } else if str_eq(key, "move_to_ws_num") {
        LabelText::Message("d.move_win_num", "Move window to no.")
    } else if str_eq(key, "ws_next_prev") {
        LabelText::Message("d.prev_next_ws", "Previous / next workspace")
    } else if str_eq(key, "move_ws_next_prev") {
        LabelText::Message("d.move_prev_next", "Move to previous/next")
    } else if str_eq(key, "switch_output") {
        LabelText::Message("act.switch_output_any", "Switch monitor")
    } else if str_eq(key, "move_to_output") {
        LabelText::Message("d.to_monitor", "To another monitor")
    } else if str_eq(key, "migrate_ws") {
        LabelText::Message("act.migrate_ws_any", "Workspace to another monitor")
    } else if str_eq(key, "resize") {
        LabelText::Message("d.resize", "Resize out / in")
    } else if str_eq(key, "zoom") {
        LabelText::Message("d.zoom", "Zoom in / out")
    } else if str_eq(key, "close") {
        LabelText::Message("d.close", "Close window")
    } else if str_eq(key, "clip_save") {
        LabelText::Message("d.save_slot", "Save to slot 1–9")
    } else if str_eq(key, "clip_paste") {
        LabelText::Message("d.paste_slot", "Paste from slot 1–9")
    } else {
        LabelText::Plain(String::from_str(fallback))
    }
}

/// A non-launcher row labelled by a message.
pub open spec fn plain_row(
    key: Seq<char>,
    en: Seq<char>,
    section: Seq<char>,
    icon: Seq<char>,
    group: Option<Seq<char>>,
) -> DescribedView {
    DescribedView {
        label: LabelView::Message(key, en),
        section,
        command: None,
        icon: Some(icon),
        compact_key: group,
        compact_hide: false,
    }
}

fn row(
    key: &'static str,
    en: &'static str,
    section: &'static str,
    icon: &'static str,
    group: Option<&'static str>,
) -> (r: Described)
    ensures
        r@ == plain_row(key@, en@, section@, icon@, opt_view(group)),
{
    Described {
        label: LabelText::Message(key, en),
        section,
        command: None,
        icon: Some(icon),
        compact_key: group,
        compact_hide: false,
    }
}

/// Message id and English word of a focus direction.
pub open spec fn focus_word_spec(d: FocusDirection) -> (Seq<char>, Seq<char>) {
    match d {
        FocusDirection::Left => ("dir.left"@, "left"@),
        FocusDirection::Right => ("dir.right"@, "right"@),
        FocusDirection::Up => ("dir.up"@, "up"@),
        FocusDirection::Down => ("dir.down"@, "down"@),
        FocusDirection::In => ("dir.in"@, "in"@),
        FocusDirection::Out => ("dir.out"@, "out"@),
    }
}

fn focus_word(d: FocusDirection) -> (r: (&'static str, &'static str))
    ensures
        (r.0@, r.1@) == focus_word_spec(d),
{
    match d {
        FocusDirection::Left => ("dir.left", "left"),
        FocusDirection::Right => ("dir.right", "right"),
        FocusDirection::Up => ("dir.up", "up"),
        FocusDirection::Down => ("dir.down", "down"),
        FocusDirection::In => ("dir.in", "in"),
        FocusDirection::Out => ("dir.out", "out"),
    }
}

/// Message id and English word of a direction.
pub open spec fn dir_word_spec(d: Direction) -> (Seq<char>, Seq<char>) {
    match d {
        Direction::Left => ("dir.left"@, "left"@),
        Direction::Right => ("dir.right"@, "right"@),
        Direction::Up => ("dir.up"@, "up"@),
        Direction::Down => ("dir.down"@, "down"@),
    }
}

fn dir_word(d: Direction) -> (r: (&'static str, &'static str))
    ensures
        (r.0@, r.1@) == dir_word_spec(d),
{
    match d {
        Direction::Left => ("dir.left", "left"),
        Direction::Right => ("dir.right", "right"),
        Direction::Up => ("dir.up", "up"),
        Direction::Down => ("dir.down", "down"),
    }
}

/// Group and icon of a focus row.
pub open spec fn focus_meta_spec(d: FocusDirection) -> (Seq<char>, Seq<char>) {
    match d {
        FocusDirection::Left => ("focus_cardinal"@, "go-previous-symbolic"@),
        FocusDirection::Right => ("focus_cardinal"@, "go-next-symbolic"@),
        FocusDirection::Up => ("focus_cardinal"@, "go-up-symbolic"@),
        FocusDirection::Down => ("focus_cardinal"@, "go-down-symbolic"@),
        FocusDirection::In => ("focus_stack"@, "go-jump-symbolic"@),
        FocusDirection::Out => ("focus_stack"@, "window-pop-out-symbolic"@),
    }
}

fn focus_meta(d: FocusDirection) -> (r: (&'static str, &'static str))
    ensures
        (r.0@, r.1@) == focus_meta_spec(d),
{
    match d {
        FocusDirection::Left => ("focus_cardinal", "go-previous-symbolic"),
        FocusDirection::Right => ("focus_cardinal", "go-next-symbolic"),
        FocusDirection::Up => ("focus_cardinal", "go-up-symbolic"),
        FocusDirection::Down => ("focus_cardinal", "go-down-symbolic"),
        FocusDirection::In => ("focus_stack", "go-jump-symbolic"),
        FocusDirection::Out => ("focus_stack", "window-pop-out-symbolic"),
    }
}

/// Icon of a move-window row.
pub open spec fn move_icon_spec(d: Direction) -> Seq<char> {
    match d {
        Direction::Left => "go-previous-symbolic"@,
        Direction::Right => "go-next-symbolic"@,
        Direction::Up => "go-up-symbolic"@,
        Direction::Down => "go-down-symbolic"@,
    }
}

fn move_icon(d: Direction) -> (r: &'static str)
    ensures
        r@ == move_icon_spec(d),
{
    match d {
        Direction::Left => "go-previous-symbolic",
        Direction::Right => "go-next-symbolic",
        Direction::Up => "go-up-symbolic",
        Direction::Down => "go-down-symbolic",
    }
}

/// What a bound action shows on the sheet; `None` hides it.
pub open spec fn describe_spec(action: Action, description: Option<Seq<char>>) -> Option<
    DescribedView,
> {
    match action {
        Action::Disable | Action::Debug => None,
        Action::Spawn(cmd) => if is_self_cheatsheet_spec(cmd@) {
            None
        } else {
            Some(
                DescribedView {
                    label: spawn_label_spec(cmd@, description),
                    section: "sec.apps"@,
                    command: Some(split_command_spec(cmd@)),
                    icon: spawn_icon_spec(cmd@),
                    compact_key: spawn_compact_spec(cmd@),
                    compact_hide: false,
                },
            )
        },
        Action::Close => Some(
            plain_row(
                "d.close"@,
                "Close window"@,
                "sec.window"@,
                "window-close-symbolic"@,
                Some("close"@),
            ),
        ),
        Action::Terminate => Some(
            plain_row(
                "act.terminate"@,
                "Force quit (kill window)"@,
                "sec.window"@,
                "process-stop-symbolic"@,
                None,
            ),
        ),
        Action::Maximize => Some(
            plain_row("d.maximize"@, "Maximize"@, "sec.window"@, "window-maximize-symbolic"@, None),
        ),
        Action::Fullscreen => Some(
            plain_row(
                "d.fullscreen"@,
                "Fullscreen"@,
                "sec.window"@,
                "view-fullscreen-symbolic"@,
                None,
            ),
        ),
        Action::Minimize => Some(
            plain_row(
                "act.minimize"@,
                "Minimize"@,
                "sec.window"@,
                "window-minimize-symbolic"@,
                None,
            ),
        ),
        Action::ToggleWindowFloating => Some(
            plain_row(
                "d.floating"@,
                "Floating (exempt from tiling)"@,
                "sec.window"@,
                "window-pop-out-symbolic"@,
                None,
            ),
        ),
        Action::ToggleTiling => Some(
            plain_row(
                "d.toggle_tiling"@,
                "Toggle tiling on/off"@,
                "sec.window"@,
                "com.system76.CosmicAppletTiling-symbolic"@,
                None,
            ),
        ),
        Action::ToggleStacking => Some(
            plain_row(
                "d.stack_tabs"@,
                "Stack windows (tabs) on/off"@,
                "sec.window"@,
                "window-stack-symbolic"@,
                None,
            ),
        ),
        Action::ToggleOrientation => Some(
            plain_row(
                "d.split_dir"@,
                "Switch split direction"@,
                "sec.window"@,
                "object-flip-horizontal-symbolic"@,
                None,
            ),
        ),
        Action::ToggleSticky => Some(
            plain_row(
                "act.toggle_sticky"@,
                "Toggle sticky"@,
                "sec.window"@,
                "emblem-important-symbolic"@,
                None,
            ),
        ),
        Action::SwapWindow => Some(
            plain_row("d.swap"@, "Swap two windows"@, "sec.window"@, "window-swap-symbolic"@, None),
        ),
        Action::Resizing(ResizeDirection::Inwards) => Some(
            plain_row(
                "act.resize_in"@,
                "Resize in"@,
                "sec.window"@,
                "zoom-out-symbolic"@,
                Some("resize"@),
            ),
        ),
        Action::Resizing(ResizeDirection::Outwards) => Some(
            plain_row(
                "act.resize_out"@,
                "Resize out"@,
                "sec.window"@,
                "zoom-in-symbolic"@,
                Some("resize"@),
            ),
        ),
        Action::Focus(d) => Some(
            DescribedView {
                label: LabelView::WithArg(
                    "act.focus"@,
                    "Focus {}"@,
                    focus_word_spec(d).0,
                    focus_word_spec(d).1,
                ),
                section: "sec.focus"@,
                command: None,
                icon: Some(focus_meta_spec(d).1),
                compact_key: Some(focus_meta_spec(d).0),
                compact_hide: false,
            },
        ),
        Action::Move(d) => Some(
            DescribedView {
                label: LabelView::WithArg(
                    "act.move_win"@,
                    "Move window {}"@,
                    dir_word_spec(d).0,
                    dir_word_spec(d).1,
                ),
                section: "sec.focus"@,
                command: None,
                icon: Some(move_icon_spec(d)),
                compact_key: Some("move_cardinal"@),
                compact_hide: false,
            },
        ),
        Action::Workspace(_) => Some(
            plain_row(
                "d.goto_ws"@,
                "Go to workspace 1–9"@,
                "sec.ws"@,
                "preferences-workspaces-symbolic"@,
                Some("workspace_num"@),
            ),
        ),
        Action::MoveToWorkspace(_) | Action::SendToWorkspace(_) => Some(
            plain_row(
                "d.move_win_num"@,
                "Move window to no."@,
                "sec.ws"@,
                "go-jump-symbolic"@,
                Some("move_to_ws_num"@),
            ),
        ),
        Action::LastWorkspace => Some(
            plain_row("act.last_ws"@, "Last workspace"@, "sec.ws"@, "go-last-symbolic"@, None),
        ),
        Action::MoveToLastWorkspace | Action::SendToLastWorkspace => Some(
            plain_row(
                "act.move_to_last_ws"@,
                "Window to last workspace"@,
                "sec.ws"@,
                "go-last-symbolic"@,
                None,
            ),
        ),
        Action::NextWorkspace => Some(
            plain_row(
                "act.next_ws"@,
                "Next workspace"@,
                "sec.ws"@,
                "go-next-symbolic"@,
                Some("ws_next_prev"@),
            ),
        ),
        Action::PreviousWorkspace => Some(
            plain_row(
                "act.prev_ws"@,
                "Previous workspace"@,
                "sec.ws"@,
                "go-previous-symbolic"@,
                Some("ws_next_prev"@),
            ),
        ),
        Action::MoveToNextWorkspace | Action::SendToNextWorkspace => Some(
            plain_row(
                "act.move_to_next_ws"@,
                "Window to next workspace"@,
                "sec.ws"@,
                "go-next-symbolic"@,
                Some("move_ws_next_prev"@),
            ),
        ),
        Action::MoveToPreviousWorkspace | Action::SendToPreviousWorkspace => Some(
            plain_row(
                "act.move_to_prev_ws"@,
                "Window to previous workspace"@,
                "sec.ws"@,
                "go-previous-symbolic"@,
                Some("move_ws_next_prev"@),
            ),
        ),
        Action::SwitchOutput(_) => Some(
            plain_row(
                "act.switch_output_any"@,
                "Switch monitor"@,
                "sec.monitor"@,
                "video-display-symbolic"@,
                Some("switch_output"@),
            ),
        ),
        Action::MoveToOutput(_) | Action::SendToOutput(_) => Some(
            plain_row(
                "d.to_monitor"@,
                "To another monitor"@,
                "sec.monitor"@,
                "display-symbolic"@,
                Some("move_to_output"@),
            ),
        ),
        Action::MigrateWorkspaceToOutput(_) => Some(
            plain_row(
                "act.migrate_ws_any"@,
                "Workspace to another monitor"@,
                "sec.monitor"@,
                "preferences-workspaces-symbolic"@,
                Some("migrate_ws"@),
            ),
        ),
        Action::ZoomIn => Some(
            plain_row(
                "act.zoom_in"@,
                "Zoom in"@,
                "sec.zoom"@,
                "zoom-in-symbolic"@,
                Some("zoom"@),
            ),
        ),
        Action::ZoomOut => Some(
            plain_row(
                "act.zoom_out"@,
                "Zoom out"@,
                "sec.zoom"@,
                "zoom-out-symbolic"@,
                Some("zoom"@),
            ),
        ),
        Action::System(sys) => Some(
            DescribedView {
                label: LabelView::Message(system_label_spec(sys).0, system_label_spec(sys).1),
                section: "sec.system"@,
                command: None,
                icon: Some(system_icon_spec(sys)),
                compact_key: None,
                compact_hide: is_media_spec(sys),
            },
        ),
        Action::Other(text) => Some(
            DescribedView {
                label: LabelView::Plain(text@),
                section: "sec.other"@,
                command: None,
                icon: Some("preferences-other-symbolic"@),
                compact_key: None,
                compact_hide: true,
            },
        ),
    }
}

/// Map an action to display metadata; `None` hides it.
pub fn describe(action: &Action, description: Option<&str>) -> (r: Option<Described>)
    ensures
        match r {
            Some(d) => describe_spec(
                *action,
                match description {
                    Some(x) => Some(x@),
                    None => None,
                },
            ) == Some(d@),
            None => describe_spec(
                *action,
                match description {
                    Some(x) => Some(x@),
                    None => None,
                },
            ) is None,
        },
{
    match action {
        Action::Disable | Action::Debug => None,
        Action::Spawn(cmd) => {
            if is_self_cheatsheet(cmd.as_str()) {
                return None;
            }
            let (compact_key, compact_hide) = spawn_compact(cmd.as_str());
            let args = split_command(cmd.as_str());
            let label = launcher_label(&args, cmd.as_str(), description);
            let icon = launcher_icon(&args, cmd.as_str());
            Some(
                Described {
                    label,
                    section: "sec.apps",
                    command: Some(args),
                    icon,
                    compact_key,
                    compact_hide,
                },
            )
        },
        Action::Close => Some(
            row("d.close", "Close window", "sec.window", "window-close-symbolic", Some("close")),
        ),
        Action::Terminate => Some(
            row(
                "act.terminate",
                "Force quit (kill window)",
                "sec.window",
                "process-stop-symbolic",
                None,
            ),
        ),
        Action::Maximize => Some(
            row("d.maximize", "Maximize", "sec.window", "window-maximize-symbolic", None),
        ),
        Action::Fullscreen => Some(
            row("d.fullscreen", "Fullscreen", "sec.window", "view-fullscreen-symbolic", None),
        ),
        Action::Minimize => Some(
            row("act.minimize", "Minimize", "sec.window", "window-minimize-symbolic", None),
        ),
        Action::ToggleWindowFloating => Some(
            row(
                "d.floating",
                "Floating (exempt from tiling)",
                "sec.window",
                "window-pop-out-symbolic",
                None,
            ),
        ),
        Action::ToggleTiling => Some(
            row(
                "d.toggle_tiling",
                "Toggle tiling on/off",
                "sec.window",
                "com.system76.CosmicAppletTiling-symbolic",
                None,
            ),
        ),
        Action::ToggleStacking => Some(
            row(
                "d.stack_tabs",
                "Stack windows (tabs) on/off",
                "sec.window",
                "window-stack-symbolic",
                None,
            ),
        ),
        Action::ToggleOrientation => Some(
            row(
                "d.split_dir",
                "Switch split direction",
                "sec.window",
                "object-flip-horizontal-symbolic",
                None,
            ),
        ),
        Action::ToggleSticky => Some(
            row(
                "act.toggle_sticky",
                "Toggle sticky",
                "sec.window",
                "emblem-important-symbolic",
                None,
            ),
        ),
        Action::SwapWindow => Some(
            row("d.swap", "Swap two windows", "sec.window", "window-swap-symbolic", None),
        ),
        Action::Resizing(ResizeDirection::Inwards) => Some(
            row("act.resize_in", "Resize in", "sec.window", "zoom-out-symbolic", Some("resize")),
        ),
        Action::Resizing(ResizeDirection::Outwards) => Some(
            row("act.resize_out", "Resize out", "sec.window", "zoom-in-symbolic", Some("resize")),
        ),
        Action::Focus(d) => {
            let (group, icon) = focus_meta(*d);
            let (wk, we) = focus_word(*d);
            Some(
                Described {
                    label: LabelText::WithArg("act.focus", "Focus {}", wk, we),
                    section: "sec.focus",
                    command: None,
                    icon: Some(icon),
                    compact_key: Some(group),
                    compact_hide: false,
                },
            )
        },
        Action::Move(d) => {
            let (wk, we) = dir_word(*d);
            Some(
                Described {
                    label: LabelText::WithArg("act.move_win", "Move window {}", wk, we),
                    section: "sec.focus",
                    command: None,
                    icon: Some(move_icon(*d)),
                    compact_key: Some("move_cardinal"),
                    compact_hide: false,
                },
            )
        },
        Action::Workspace(_) => Some(
            row(
                "d.goto_ws",
                "Go to workspace 1–9",
                "sec.ws",
                "preferences-workspaces-symbolic",
                Some("workspace_num"),
            ),
        ),
        Action::MoveToWorkspace(_) | Action::SendToWorkspace(_) => Some(
            row(
                "d.move_win_num",
                "Move window to no.",
                "sec.ws",
                "go-jump-symbolic",
                Some("move_to_ws_num"),
            ),
        ),
        Action::LastWorkspace => Some(
            row("act.last_ws", "Last workspace", "sec.ws", "go-last-symbolic", None),
        ),
        Action::MoveToLastWorkspace | Action::SendToLastWorkspace => Some(
            row(
                "act.move_to_last_ws",
                "Window to last workspace",
                "sec.ws",
                "go-last-symbolic",
                None,
            ),
        ),
        Action::NextWorkspace => Some(
            row(
                "act.next_ws",
                "Next workspace",
                "sec.ws",
                "go-next-symbolic",
                Some("ws_next_prev"),
            ),
        ),
        Action::PreviousWorkspace => Some(
            row(
                "act.prev_ws",
                "Previous workspace",
                "sec.ws",
                "go-previous-symbolic",
                Some("ws_next_prev"),
            ),
        ),
        Action::MoveToNextWorkspace | Action::SendToNextWorkspace => Some(
            row(
                "act.move_to_next_ws",
                "Window to next workspace",
                "sec.ws",
                "go-next-symbolic",
                Some("move_ws_next_prev"),
            ),
        ),
        Action::MoveToPreviousWorkspace | Action::SendToPreviousWorkspace => Some(
            row(
                "act.move_to_prev_ws",
                "Window to previous workspace",
                "sec.ws",
                "go-previous-symbolic",
                Some("move_ws_next_prev"),
            ),
        ),
        Action::SwitchOutput(_) => Some(
            row(
                "act.switch_output_any",
                "Switch monitor",
                "sec.monitor",
                "video-display-symbolic",
                Some("switch_output"),
            ),
        ),
        Action::MoveToOutput(_) | Action::SendToOutput(_) => Some(
            row(
                "d.to_monitor",
                "To another monitor",
                "sec.monitor",
                "display-symbolic",
                Some("move_to_output"),
            ),
        ),
        Action::MigrateWorkspaceToOutput(_) => Some(
            row(
                "act.migrate_ws_any",
                "Workspace to another monitor",
                "sec.monitor",
                "preferences-workspaces-symbolic",
                Some("migrate_ws"),
            ),
        ),
        Action::ZoomIn => Some(
            row("act.zoom_in", "Zoom in", "sec.zoom", "zoom-in-symbolic", Some("zoom")),
        ),
        Action::ZoomOut => Some(
            row("act.zoom_out", "Zoom out", "sec.zoom", "zoom-out-symbolic", Some("zoom")),
        ),
        Action::System(sys) => {
            let (key, en) = system_label(*sys);
            Some(
                Described {
                    label: LabelText::Message(key, en),
                    section: "sec.system",
                    command: None,
                    icon: Some(system_icon(*sys)),
                    compact_key: None,
                    compact_hide: is_media_system(*sys),
                },
            )
        },
        Action::Other(text) => Some(
            Described {
                label: LabelText::Plain(text.clone()),
                section: "sec.other",
                command: None,
                icon: Some("preferences-other-symbolic"),
                compact_key: None,
                compact_hide: true,
            },
        ),
    }
}

} // verus!
