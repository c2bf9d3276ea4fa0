//! What the sheet lists and lets the keyboard reach: search matching, the
//! clickable rows in render order, the selection, and new custom entries.

use vstd::prelude::*;
use vstd::string::*;

use crate::config::{argv_spec, section_or_default_spec, CustomShortcut};
use crate::keys::{uniq, uniq_exec};
use crate::shortcuts::{lemma_shortcut_view, opt_argv_view, rows_view, Shortcut, ShortcutView};
use crate::text::{contains, contains_seq, str_eq, to_lowercase, trim, trim_spec, unicode_lower, views};

verus! {

broadcast use vstd::seq_lib::group_seq_properties;

/// A row matches the (lower-case) search when the search is empty or occurs
/// in the lower-cased label or keys.
pub open spec fn matches_spec(q: Seq<char>, a: Seq<char>, b: Seq<char>) -> bool {
    q.len() == 0 || contains_seq(unicode_lower(a), q) || contains_seq(unicode_lower(b), q)
}

pub fn matches(q: &str, a: &str, b: &str) -> (r: bool)
    ensures
        r == matches_spec(q@, a@, b@),
{
    if q.unicode_len() == 0 {
        return true;
    }
    let la = to_lowercase(a);
    if contains(la.as_str(), q) {
        return true;
    }
    let lb = to_lowercase(b);
    contains(lb.as_str(), q)
}

/// A form field's text, trimmed; `None` when nothing is left.
pub open spec fn non_empty_spec(s: Seq<char>) -> Option<Seq<char>> {
    if trim_spec(s).len() == 0 {
        None
    } else {
        Some(trim_spec(s))
    }
}

pub fn non_empty(s: &str) -> (r: Option<String>)
    ensures
        match r {
            Some(t) => non_empty_spec(s@) == Some(t@),
            None => non_empty_spec(s@) is None,
        },
{
    let t = trim(s);
    if t.unicode_len() == 0 {
        None
    } else {
        Some(String::from_str(t))
    }
}

pub open spec fn opt_string_view(o: Option<String>) -> Option<Seq<char>> {
    match o {
        Some(s) => Some(s@),
        None => None,
    }
}

/// The custom entry the "add" form describes: label and keys trimmed and
/// both required; a note never has a command; empty command and section
/// fields mean none.
pub fn custom_from_form(
    label: &str,
    keys: &str,
    command: &str,
    section: &str,
    is_note: bool,
) -> (r: Option<CustomShortcut>)
    ensures
        r is Some <==> (trim_spec(label@).len() > 0 && trim_spec(keys@).len() > 0),
        r matches Some(c) ==> {
            &&& c.label@ == trim_spec(label@)
            &&& c.keys@ == trim_spec(keys@)
            &&& opt_string_view(c.command) == if is_note {
                None
            } else {
                non_empty_spec(command@)
            }
            &&& opt_string_view(c.section) == non_empty_spec(section@)
        },
{
    let l = trim(label);
    let k = trim(keys);
    if l.unicode_len() == 0 || k.unicode_len() == 0 {
        return None;
    }
    let cmd = if is_note {
        None
    } else {
        non_empty(command)
    };
    Some(
        CustomShortcut {
            label: String::from_str(l),
            keys: String::from_str(k),
            command: cmd,
            section: non_empty(section),
        },
    )
}

/// Keyboard selection after "down": one further, but not past the last of
/// `n` clickable rows.
pub fn nav_down(selected: usize, n: usize) -> (r: usize)
    requires
        selected < usize::MAX,
    ensures
        n > 0 ==> r == if selected + 1 < n - 1 {
            selected + 1
        } else {
            n - 1
        },
        n == 0 ==> r == selected,
        n > 0 ==> r < n,
{
    if n > 0 {
        if selected + 1 < n - 1 {
            selected + 1
        } else {
            n - 1
        }
    } else {
        selected
    }
}

/// Keyboard selection after "up": one back, stopping at the first row.
pub fn nav_up(selected: usize) -> (r: usize)
    ensures
        r == if selected > 0 {
            selected - 1
        } else {
            0
        },
        r <= selected,
{
    if selected > 0 {
        selected - 1
    } else {
        0
    }
}

/// Section heading keys in display order.
pub open spec fn section_order() -> Seq<Seq<char>> {
    seq![
        "sec.apps"@,
        "sec.system"@,
        "sec.window"@,
        "sec.focus"@,
        "sec.ws"@,
        "sec.monitor"@,
        "sec.zoom"@,
        "sec.other"@,
    ]
}

pub(crate) fn section_at(i: usize) -> (r: &'static str)
    requires
        i < 8,
    ensures
        r@ == section_order()[i as int],
{
    match i {
        0 => "sec.apps",
        1 => "sec.system",
        2 => "sec.window",
        3 => "sec.focus",
        4 => "sec.ws",
        5 => "sec.monitor",
        6 => "sec.zoom",
        _ => "sec.other",
    }
}

/// A row is listed: it matches the search, and is not learned unless
/// learning mode shows learned rows.
pub open spec fn row_listed(
    q: Seq<char>,
    learned: Seq<Seq<char>>,
    learning: bool,
    label: Seq<char>,
    keys: Seq<char>,
) -> bool {
    matches_spec(q, label, keys) && !(learned.contains(keys) && !learning)
}

/// The commands of the listed clickable rows of one section, in list order.
pub open spec fn section_commands(
    visible: Seq<ShortcutView>,
    sec: Seq<char>,
    q: Seq<char>,
    learned: Seq<Seq<char>>,
    learning: bool,
) -> Seq<Seq<Seq<char>>> {
    visible.filter(
        |s: ShortcutView|
            s.section == sec && row_listed(q, learned, learning, s.label, s.keys)
                && s.command is Some,
    ).map_values(|s: ShortcutView| s.command.unwrap())
}

/// The custom entries that match the search.
pub open spec fn custom_shown(custom: Seq<CustomShortcut>, q: Seq<char>) -> Seq<CustomShortcut> {
    custom.filter(|c: CustomShortcut| matches_spec(q, c.label@, c.keys@))
}

/// The sections of the shown custom entries, in order of first appearance.
pub open spec fn custom_sections(shown: Seq<CustomShortcut>) -> Seq<Seq<char>> {
    uniq(shown.map_values(|c: CustomShortcut| section_or_default_spec(c)))
}

/// The argv of the listed custom entries of one section that have one.
pub open spec fn custom_section_commands(
    shown: Seq<CustomShortcut>,
    sec: Seq<char>,
    learned: Seq<Seq<char>>,
    learning: bool,
) -> Seq<Seq<Seq<char>>> {
    shown.filter(
        |c: CustomShortcut|
            section_or_default_spec(c) == sec && !(learned.contains(c.keys@) && !learning)
                && argv_spec(c).len() > 0,
    ).map_values(|c: CustomShortcut| argv_spec(c))
}

/// The clickable rows' commands in render order: the listed rows section by
/// section, then the listed custom entries grouped by section.
pub open spec fn nav_commands_spec(
    visible: Seq<ShortcutView>,
    custom: Seq<CustomShortcut>,
    q: Seq<char>,
    learned: Seq<Seq<char>>,
    learning: bool,
) -> Seq<Seq<Seq<char>>> {
    section_order().map_values(
        |sec: Seq<char>| section_commands(visible, sec, q, learned, learning),
    ).flatten() + custom_sections(custom_shown(custom, q)).map_values(
        |sec: Seq<char>|
            custom_section_commands(custom_shown(custom, q), sec, learned, learning),
    ).flatten()
}

/// Whether a row is listed (see `row_listed`).
pub fn is_listed(q: &str, learned: &Vec<String>, learning: bool, label: &str, keys: &str) -> (r: bool)
    ensures
        r == row_listed(q@, views(learned@), learning, label@, keys@),
{
    matches(q, label, keys) && !(contains_text(learned, keys) && !learning)
}

/// The custom entries matching the search, and their sections in order of
/// first appearance.
pub fn custom_sections_shown(custom: &Vec<CustomShortcut>, q: &str) -> (r: (Vec<CustomShortcut>, Vec<String>))
    ensures
        r.0@ == custom_shown(custom@, q@),
        views(r.1@) == custom_sections(custom_shown(custom@, q@)),
{
    let ghost cpred = |c: CustomShortcut| matches_spec(q@, c.label@, c.keys@);
    let mut shown: Vec<CustomShortcut> = Vec::new();
    let cn = custom.len();
    let mut i: usize = 0;
    assert(custom@.take(0).filter(cpred) =~= Seq::<CustomShortcut>::empty()) by {
        reveal(Seq::filter);
    }
    while i < cn
        invariant
            cn == custom@.len(),
            i <= cn,
            cpred == (|c: CustomShortcut| matches_spec(q@, c.label@, c.keys@)),
            shown@ == custom@.take(i as int).filter(cpred),
        decreases cn - i,
    {
        assert(custom@.take(i + 1).drop_last() =~= custom@.take(i as int));
        proof {
            reveal(Seq::filter);
        }
        let c = &custom[i];
        if matches(q, c.label.as_str(), c.keys.as_str()) {
            shown.push(clone_custom(c));
        }
        i = i + 1;
    }
    assert(custom@.take(cn as int) =~= custom@);
    let mut names: Vec<String> = Vec::new();
    let sn = shown.len();
    let mut i: usize = 0;
    while i < sn
        invariant
            sn == shown@.len(),
            i <= sn,
            views(names@) =~= shown@.take(i as int).map_values(
                |c: CustomShortcut| section_or_default_spec(c),
            ),
        decreases sn - i,
    {
        let name = String::from_str(shown[i].section_or_default());
        let ghost before = views(names@);
        names.push(name);
        assert(views(names@) =~= before.push(name@));
        assert(shown@.take(i + 1) =~= shown@.take(i as int).push(shown@[i as int]));
        i = i + 1;
    }
    assert(shown@.take(sn as int) =~= shown@);
    let sections = uniq_exec(&names);
    (shown, sections)
}

pub open spec fn argvs_view(v: Seq<Vec<String>>) -> Seq<Seq<Seq<char>>> {
    v.map_values(|a: Vec<String>| views(a@))
}

pub(crate) fn contains_text(v: &Vec<String>, x: &str) -> (r: bool)
    ensures
        r == views(v@).contains(x@),
{
    let n = v.len();
    let mut i: usize = 0;
    while i < n
        invariant
            n == v@.len(),
            i <= n,
            forall|k: int| 0 <= k < i ==> views(v@)[k] != x@,
        decreases n - i,
    {
        if str_eq(v[i].as_str(), x) {
            assert(views(v@)[i as int] == x@);
            return true;
        }
        i = i + 1;
    }
    false
}

pub(crate) fn clone_strings(v: &Vec<String>) -> (r: Vec<String>)
    ensures
        views(r@) == views(v@),
{
    let mut out: Vec<String> = Vec::new();
    let n = v.len();
    let mut i: usize = 0;
    while i < n
        invariant
            n == v@.len(),
            i <= n,
            views(out@) =~= views(v@).take(i as int),
        decreases n - i,
    {
        let s = v[i].clone();
        let ghost before = views(out@);
        out.push(s);
        assert(views(out@) =~= before.push(s@));
        i = i + 1;
    }
    assert(views(v@).take(n as int) =~= views(v@));
    out
}

fn clone_custom(c: &CustomShortcut) -> (r: CustomShortcut)
    ensures
        r == *c,
{
    CustomShortcut {
        label: c.label.clone(),
        keys: c.keys.clone(),
        command: match &c.command {
            Some(x) => Some(x.clone()),
            None => None,
        },
        section: match &c.section {
            Some(x) => Some(x.clone()),
            None => None,
        },
    }
}

pub(crate) proof fn lemma_filter_map_step<A, B>(
    s: Seq<A>,
    i: int,
    pred: spec_fn(A) -> bool,
    f: spec_fn(A) -> B,
)
    requires
        0 <= i < s.len(),
    ensures
        s.take(i + 1).filter(pred).map_values(f) == if pred(s[i]) {
            s.take(i).filter(pred).map_values(f).push(f(s[i]))
        } else {
            s.take(i).filter(pred).map_values(f)
        },
{
    assert(s.take(i + 1).drop_last() =~= s.take(i));
    reveal(Seq::filter);
    if pred(s[i]) {
        assert(s.take(i + 1).filter(pred).map_values(f) =~= s.take(i).filter(pred).map_values(
            f,
        ).push(f(s[i])));
    }
}

/// Commands of the visible clickable rows and custom entries, in render
/// order; the keyboard selection indexes into this list.
pub fn nav_commands(
    visible: &Vec<Shortcut>,
    custom: &Vec<CustomShortcut>,
    q: &str,
    learned: &Vec<String>,
    learning: bool,
) -> (r: Vec<Vec<String>>)
    ensures
        argvs_view(r@) == nav_commands_spec(
            rows_view(visible@),
            custom@,
            q@,
            views(learned@),
            learning,
        ),
{
    broadcast use lemma_shortcut_view;

    let ghost vis = rows_view(visible@);
    let ghost lv = views(learned@);
    let ghost secs = section_order().map_values(
        |sec: Seq<char>| section_commands(vis, sec, q@, lv, learning),
    );
    let mut out: Vec<Vec<String>> = Vec::new();
    let mut k: usize = 0;
    assert(secs.take(0).flatten() =~= Seq::<Seq<Seq<char>>>::empty());
    while k < 8
        invariant
            k <= 8,
            vis == rows_view(visible@),
            lv == views(learned@),
            secs == section_order().map_values(
                |sec: Seq<char>| section_commands(vis, sec, q@, lv, learning),
            ),
            argvs_view(out@) == secs.take(k as int).flatten(),
        decreases 8 - k,
    {
        let sec = section_at(k);
        let ghost base = argvs_view(out@);
        let ghost pred = |s: ShortcutView|
            s.section == sec@ && row_listed(q@, lv, learning, s.label, s.keys) && s.command is Some;
        let ghost f = |s: ShortcutView| s.command.unwrap();
        let n = visible.len();
        let mut j: usize = 0;
        assert(vis.take(0).filter(pred).map_values(f) =~= Seq::<Seq<Seq<char>>>::empty()) by {
            reveal(Seq::filter);
        }
        assert(base =~= base + vis.take(0).filter(pred).map_values(f));
        while j < n
            invariant
                n == visible@.len(),
                j <= n,
                vis == rows_view(visible@),
                lv == views(learned@),
                pred == (|s: ShortcutView|
                    s.section == sec@ && row_listed(q@, lv, learning, s.label, s.keys)
                        && s.command is Some),
                f == (|s: ShortcutView| s.command.unwrap()),
                argvs_view(out@) == base + vis.take(j as int).filter(pred).map_values(f),
            decreases n - j,
        {
            proof {
                lemma_filter_map_step(vis, j as int, pred, f);
            }
            let s = &visible[j];
            proof {
                lemma_shortcut_view(*s);
            }
            assert(vis[j as int] == s@);
            if str_eq(s.section, sec) && matches(q, s.label.as_str(), s.keys.as_str()) {
                if !(contains_text(learned, s.keys.as_str()) && !learning) {
                    match &s.command {
                        Some(cmd) => {
                            let c = clone_strings(cmd);
                            assert(s@.command == Some(views(cmd@)));
                            assert(pred(vis[j as int]));
                            assert(f(vis[j as int]) == views(c@));
                            let ghost before = argvs_view(out@);
                            out.push(c);
                            assert(argvs_view(out@) =~= before.push(views(c@)));
                        },
                        None => {},
                    }
                }
            }
            j = j + 1;
        }
        assert(vis.take(n as int) =~= vis);
        proof {
            assert(secs.take(k + 1) =~= secs.take(k as int).push(secs[k as int]));
            secs.take(k as int).lemma_flatten_push(secs[k as int]);
        }
        k = k + 1;
    }
    assert(secs.take(8) =~= secs);
    let ghost builtin = argvs_view(out@);
    // The custom entries that match the search, and their sections.
    let (shown, sections) = custom_sections_shown(custom, q);
    let sn = shown.len();
    let ghost sh = shown@;
    let ghost cs = custom_sections(sh);
    assert(views(sections@) == cs);
    let ghost csecs = cs.map_values(
        |sec: Seq<char>| custom_section_commands(sh, sec, lv, learning),
    );
    let gn = sections.len();
    let mut g: usize = 0;
    assert(builtin =~= builtin + csecs.take(0).flatten());
    while g < gn
        invariant
            gn == sections@.len(),
            g <= gn,
            sn == shown@.len(),
            sh == shown@,
            lv == views(learned@),
            cs == views(sections@),
            csecs == cs.map_values(
                |sec: Seq<char>| custom_section_commands(sh, sec, lv, learning),
            ),
            argvs_view(out@) == builtin + csecs.take(g as int).flatten(),
        decreases gn - g,
    {
        let sec = sections[g].as_str();
        assert(cs[g as int] == sec@);
        let ghost base = argvs_view(out@);
        let ghost pred = |c: CustomShortcut|
            section_or_default_spec(c) == sec@ && !(lv.contains(c.keys@) && !learning)
                && argv_spec(c).len() > 0;
        let ghost f = |c: CustomShortcut| argv_spec(c);
        let mut j: usize = 0;
        assert(sh.take(0).filter(pred).map_values(f) =~= Seq::<Seq<Seq<char>>>::empty()) by {
            reveal(Seq::filter);
        }
        assert(base =~= base + sh.take(0).filter(pred).map_values(f));
        while j < sn
            invariant
                sn == shown@.len(),
                sh == shown@,
                j <= sn,
                lv == views(learned@),
                pred == (|c: CustomShortcut|
                    section_or_default_spec(c) == sec@ && !(lv.contains(c.keys@) && !learning)
                        && argv_spec(c).len() > 0),
                f == (|c: CustomShortcut| argv_spec(c)),
                argvs_view(out@) == base + sh.take(j as int).filter(pred).map_values(f),
            decreases sn - j,
        {
            proof {
                lemma_filter_map_step(sh, j as int, pred, f);
            }
            let c = &shown[j];
            if str_eq(c.section_or_default(), sec) {
                if !(contains_text(learned, c.keys.as_str()) && !learning) {
                    let argv = c.argv();
                    if argv.len() > 0 {
                        let ghost before = argvs_view(out@);
                        out.push(argv);
                        assert(argvs_view(out@) =~= before.push(views(argv@)));
                    }
                }
            }
            j = j + 1;
        }
        assert(sh.take(sn as int) =~= sh);
        proof {
            assert(csecs.take(g + 1) =~= csecs.take(g as int).push(csecs[g as int]));
            csecs.take(g as int).lemma_flatten_push(csecs[g as int]);
        }
        g = g + 1;
    }
    assert(csecs.take(gn as int) =~= csecs);
    out
}

/// A new search: the text is taken and the selection goes back to the
/// first clickable row.
pub fn set_search(search: &mut String, q: String, selected: &mut usize)
    ensures
        final(search)@ == q@,
        *final(selected) == 0,
{
    *search = q;
    *selected = 0;
}

/// Marks a row as learned (`checked`) or not; the learned marks stay
/// free of repeats, and the selection goes back to the first clickable row.
pub fn toggle_learned(learned: &mut Vec<String>, id: &str, checked: bool, selected: &mut usize)
    ensures
        checked ==> views(final(learned)@) == if views(old(learned)@).contains(id@) {
            views(old(learned)@)
        } else {
            views(old(learned)@).push(id@)
        },
        !checked ==> views(final(learned)@) == views(old(learned)@).filter(
            |x: Seq<char>| x != id@,
        ),
        *final(selected) == 0,
{
    *selected = 0;
    if checked {
        if !contains_text(learned, id) {
            let ghost before = views(learned@);
            learned.push(String::from_str(id));
            assert(views(learned@) =~= before.push(id@));
        }
        return;
    }
    let ghost orig = views(learned@);
    let ghost keep = |x: Seq<char>| x != id@;
    let mut kept: Vec<String> = Vec::new();
    let n = learned.len();
    let mut i: usize = 0;
    assert(orig.take(0).filter(keep) =~= Seq::<Seq<char>>::empty()) by {
        reveal(Seq::filter);
    }
    while i < n
        invariant
            n == learned@.len(),
            i <= n,
            orig == views(learned@),
            keep == (|x: Seq<char>| x != id@),
            views(kept@) == orig.take(i as int).filter(keep),
        decreases n - i,
    {
        proof {
            lemma_filter_map_step(orig, i as int, keep, |x: Seq<char>| x);
            assert(orig.take(i as int).filter(keep).map_values(|x: Seq<char>| x) =~= orig.take(
                i as int,
            ).filter(keep));
            assert(orig.take(i + 1).filter(keep).map_values(|x: Seq<char>| x) =~= orig.take(
                i + 1,
            ).filter(keep));
        }
        let x = &learned[i];
        assert(orig[i as int] == x@);
        if !str_eq(x.as_str(), id) {
            let c = x.clone();
            let ghost before = views(kept@);
            kept.push(c);
            assert(views(kept@) =~= before.push(c@));
        }
        i = i + 1;
    }
    assert(orig.take(n as int) =~= orig);
    *learned = kept;
}

/// Deletes custom entry `i` when there is one; says whether it did.
pub fn delete_custom(custom: &mut Vec<CustomShortcut>, i: usize) -> (r: bool)
    ensures
        r == (i < old(custom)@.len()),
        r ==> final(custom)@ == old(custom)@.remove(i as int),
        !r ==> final(custom)@ == old(custom)@,
{
    if i < custom.len() {
        custom.remove(i);
        true
    } else {
        false
    }
}

/// The open/close state of the sheet in one process (the slide animation's
/// offsets stay with the application).
pub struct SheetState {
    /// From opening until the close has finished (even before the surface
    /// is ready).
    pub sheet_open: bool,
    /// A layer surface exists.
    pub has_surface: bool,
    /// The slide-out is running; the close finishes when it ends.
    pub slide_closing: bool,
    /// Running as a standalone `--window` process.
    pub windowed: bool,
}

/// What starting a close asks of the application.
#[derive(PartialEq, Eq, Debug, Clone, Copy)]
pub enum CloseStart {
    /// Nothing to close, and the process stays.
    Nothing,
    /// Nothing to close in a standalone process: exit.
    Exit,
    /// Slide out; the close finishes when the slide ends.
    Animate,
    /// No surface yet: finish the close at once.
    FinishNow,
}

/// What finishing a close asks of the application (it also releases the
/// open marker).
#[derive(PartialEq, Eq, Debug, Clone, Copy)]
pub struct CloseFinish {
    pub destroy_surface: bool,
    pub exit: bool,
}

/// The panel button's decision.
#[derive(PartialEq, Eq, Debug, Clone, Copy)]
pub enum ToggleStep {
    /// The sheet is already sliding out.
    Ignore,
    /// Close this process's sheet.
    BeginClose,
    /// Another process shows the sheet: close everything.
    CloseEverything,
    /// Nothing is showing: open here.
    Open,
}

impl SheetState {
    pub fn new(windowed: bool) -> (r: SheetState)
        ensures
            r == (SheetState {
                sheet_open: false,
                has_surface: false,
                slide_closing: false,
                windowed,
            }),
    {
        SheetState { sheet_open: false, has_surface: false, slide_closing: false, windowed }
    }

    pub open spec fn is_open(&self) -> bool {
        self.sheet_open || self.has_surface
    }

    pub fn sheet_is_open(&self) -> (r: bool)
        ensures
            r == self.is_open(),
    {
        self.sheet_open || self.has_surface
    }

    /// The state once a close has started: an open sheet is marked as
    /// sliding out; a closed one stays as it is.
    pub open spec fn after_begin_close(self) -> SheetState {
        if self.is_open() {
            SheetState { sheet_open: true, slide_closing: true, ..self }
        } else {
            self
        }
    }

    /// What starting a close asks for in this state.
    pub open spec fn begin_close_step(self) -> CloseStart {
        if !self.is_open() {
            if self.windowed {
                CloseStart::Exit
            } else {
                CloseStart::Nothing
            }
        } else if self.has_surface {
            CloseStart::Animate
        } else {
            CloseStart::FinishNow
        }
    }

    /// Start closing (slide out).
    pub fn begin_close(&mut self) -> (r: CloseStart)
        ensures
            *final(self) == old(self).after_begin_close(),
            r == old(self).begin_close_step(),
    {
        if !self.sheet_open && !self.has_surface {
            if self.windowed {
                return CloseStart::Exit;
            }
            return CloseStart::Nothing;
        }
        self.sheet_open = true;
        self.slide_closing = true;
        if !self.has_surface {
            CloseStart::FinishNow
        } else {
            CloseStart::Animate
        }
    }

    /// The state once a close has finished: nothing is open.
    pub open spec fn after_finish_close(self) -> SheetState {
        SheetState {
            sheet_open: false,
            has_surface: false,
            slide_closing: false,
            windowed: self.windowed,
        }
    }

    /// Finish closing: the surface goes; a standalone process exits.
    pub fn finish_close(&mut self) -> (r: CloseFinish)
        ensures
            *final(self) == old(self).after_finish_close(),
            r == (CloseFinish { destroy_surface: old(self).has_surface, exit: old(self).windowed }),
    {
        let destroy = self.has_surface;
        self.has_surface = false;
        self.sheet_open = false;
        self.slide_closing = false;
        CloseFinish { destroy_surface: destroy, exit: self.windowed }
    }

    /// The panel button's decision in this state, given whether another
    /// process shows the sheet.
    pub open spec fn toggle_decision(self, anything_open: bool) -> ToggleStep {
        if self.is_open() {
            if self.slide_closing {
                ToggleStep::Ignore
            } else {
                ToggleStep::BeginClose
            }
        } else if anything_open {
            ToggleStep::CloseEverything
        } else {
            ToggleStep::Open
        }
    }

    /// The panel button: close what is showing, or open when nothing is.
    pub fn toggle_step(&self, anything_open: bool) -> (r: ToggleStep)
        ensures
            r == self.toggle_decision(anything_open),
    {
        if self.sheet_is_open() {
            if self.slide_closing {
                ToggleStep::Ignore
            } else {
                ToggleStep::BeginClose
            }
        } else if anything_open {
            ToggleStep::CloseEverything
        } else {
            ToggleStep::Open
        }
    }

    /// The state once the sheet was opened under a claim.
    pub open spec fn after_open(self) -> SheetState {
        SheetState { sheet_open: true, slide_closing: false, ..self }
    }

    /// Opening, once the single-open claim is known: opens only when claimed.
    pub fn open_sheet(&mut self, claimed: bool) -> (r: bool)
        ensures
            r == claimed,
            claimed ==> *final(self) == old(self).after_open(),
            !claimed ==> *final(self) == *old(self),
    {
        if !claimed {
            return false;
        }
        self.sheet_open = true;
        self.slide_closing = false;
        true
    }

    /// The state once the surface is ready.
    pub open spec fn after_surface_ready(self) -> SheetState {
        SheetState { has_surface: true, slide_closing: false, ..self }
    }

    /// The surface is ready: it slides in.
    pub fn surface_ready(&mut self)
        ensures
            *final(self) == old(self).after_surface_ready(),
    {
        self.has_surface = true;
        self.slide_closing = false;
    }

    /// A sticky close request closes a sheet that is open and not already
    /// sliding out.
    pub fn poll_close(&self, close_requested: bool) -> (r: bool)
        ensures
            r == (close_requested && self.is_open() && !self.slide_closing),
    {
        close_requested && self.sheet_is_open() && !self.slide_closing
    }

    /// A one-shot open request opens a sheet that is not open.
    pub fn poll_open(&self, open_requested: bool) -> (r: bool)
        ensures
            r == (open_requested && !self.is_open()),
    {
        open_requested && !self.sheet_is_open()
    }

    /// Esc or a click outside closes an open sheet; a standalone process
    /// closes (exits) in any case.
    pub fn close_wanted(&self) -> (r: bool)
        ensures
            r == (self.is_open() || self.windowed),
    {
        self.sheet_is_open() || self.windowed
    }
}

} // verus!
