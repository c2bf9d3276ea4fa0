//! The sheet's list as the window draws it: section headings and rows, in
//! order, with the row the keyboard selection is on marked. The clickable
//! rows are exactly the commands `nav_commands` lists, so the row that is
//! highlighted is the one Enter launches.

use vstd::prelude::*;
use vstd::string::*;

use i18n_embed::fluent::FluentLanguageLoader;

use crate::config::{argv_spec, section_or_default_spec, CustomShortcut};
use crate::i18n::{heading_spec, heading_title};
use crate::sheet::{
    clone_strings, contains_text, custom_section_commands, custom_sections, custom_sections_shown,
    custom_shown, nav_commands_spec, row_listed, section_at, section_commands,
    section_order,
};
use crate::shortcuts::{
    clone_command, lemma_shortcut_view, opt_argv_view, opt_str_view, rows_view, Shortcut,
    ShortcutView,
};
use crate::text::{str_eq, views};

verus! {

broadcast use vstd::seq_lib::group_seq_properties;

/// One entry of the list: a section heading, or a row.
pub enum ListItem {
    Heading(String),
    Row {
        label: String,
        keys: String,
        icon: Option<&'static str>,
        /// The command a click or Enter runs; `None` for a reference row.
        argv: Option<Vec<String>>,
        /// The keyboard selection is on this row.
        selected: bool,
        /// The row is marked as learned.
        learned: bool,
    },
}

/// A list entry as plain values.
pub enum ItemView {
    Heading(Seq<char>),
    Row {
        label: Seq<char>,
        keys: Seq<char>,
        icon: Option<Seq<char>>,
        argv: Option<Seq<Seq<char>>>,
        selected: bool,
        learned: bool,
    },
}

impl View for ListItem {
    type V = ItemView;

    open spec fn view(&self) -> ItemView {
        match self {
            ListItem::Heading(t) => ItemView::Heading(t@),
            ListItem::Row { label, keys, icon, argv, selected, learned } => ItemView::Row {
                label: label@,
                keys: keys@,
                icon: opt_str_view(*icon),
                argv: opt_argv_view(*argv),
                selected: *selected,
                learned: *learned,
            },
        }
    }
}

pub open spec fn items_view(v: Seq<ListItem>) -> Seq<ItemView> {
    v.map_values(|x: ListItem| x@)
}

/// A row with a command: clicking it, or Enter on it, runs the command.
pub open spec fn is_clickable(it: ItemView) -> bool {
    it matches ItemView::Row { argv: Some(_), .. }
}

/// A row the keyboard selection is on.
pub open spec fn is_selected(it: ItemView) -> bool {
    it matches ItemView::Row { selected: true, .. }
}

/// The commands of the clickable rows, in list order.
pub open spec fn clicks(items: Seq<ItemView>) -> Seq<Seq<Seq<char>>>
    decreases items.len(),
{
    if items.len() == 0 {
        seq![]
    } else {
        clicks(items.drop_last()) + match items.last() {
            ItemView::Row { argv: Some(a), .. } => seq![a],
            _ => seq![],
        }
    }
}

/// An entry with its selection mark cleared.
pub open spec fn unselected(it: ItemView) -> ItemView {
    match it {
        ItemView::Row { label, keys, icon, argv, selected, learned } => ItemView::Row {
            label,
            keys,
            icon,
            argv,
            selected: false,
            learned,
        },
        ItemView::Heading(t) => ItemView::Heading(t),
    }
}

pub open spec fn unselect_all(items: Seq<ItemView>) -> Seq<ItemView> {
    items.map_values(|it: ItemView| unselected(it))
}

/// The selection marks of entries that follow `c0` clickable rows: a row is
/// marked exactly when it is clickable and the clickable row numbered `sel`.
pub open spec fn marks_from(items: Seq<ItemView>, c0: int, sel: int) -> bool {
    forall|i: int|
        0 <= i < items.len() ==> #[trigger] is_selected(items[i]) == (is_clickable(items[i]) && c0
            + clicks(items.take(i)).len() == sel)
}

/// The row of a shortcut.
pub open spec fn shortcut_item(s: ShortcutView, lv: Seq<Seq<char>>) -> ItemView {
    ItemView::Row {
        label: s.label,
        keys: s.keys,
        icon: s.icon,
        argv: s.command,
        selected: false,
        learned: lv.contains(s.keys),
    }
}

/// The listed rows of one section, in list order.
pub open spec fn section_rows(
    vis: Seq<ShortcutView>,
    sec: Seq<char>,
    q: Seq<char>,
    lv: Seq<Seq<char>>,
    learning: bool,
) -> Seq<ItemView> {
    vis.filter(|s: ShortcutView| s.section == sec && row_listed(q, lv, learning, s.label, s.keys)).map_values(
        |s: ShortcutView| shortcut_item(s, lv),
    )
}

/// Rows under their heading; nothing at all when there are no rows.
pub open spec fn headed(title: Seq<char>, rows: Seq<ItemView>) -> Seq<ItemView> {
    if rows.len() == 0 {
        seq![]
    } else {
        seq![ItemView::Heading(title)] + rows
    }
}

/// The shortcut rows, section by section under their translated headings.
pub open spec fn builtin_items(
    loader: FluentLanguageLoader,
    vis: Seq<ShortcutView>,
    q: Seq<char>,
    lv: Seq<Seq<char>>,
    learning: bool,
) -> Seq<ItemView> {
    section_order().map_values(
        |sec: Seq<char>| headed(heading_spec(loader, sec), section_rows(vis, sec, q, lv, learning)),
    ).flatten()
}

/// The row of a custom entry.
pub open spec fn custom_item(c: CustomShortcut, lv: Seq<Seq<char>>) -> ItemView {
    ItemView::Row {
        label: c.label@,
        keys: c.keys@,
        icon: Some("preferences-other-symbolic"@),
        argv: if argv_spec(c).len() > 0 {
            Some(argv_spec(c))
        } else {
            None
        },
        selected: false,
        learned: lv.contains(c.keys@),
    }
}

/// The listed custom rows of one section.
pub open spec fn custom_rows(
    shown: Seq<CustomShortcut>,
    sec: Seq<char>,
    lv: Seq<Seq<char>>,
    learning: bool,
) -> Seq<ItemView> {
    shown.filter(
        |c: CustomShortcut| section_or_default_spec(c) == sec && !(lv.contains(c.keys@) && !learning),
    ).map_values(|c: CustomShortcut| custom_item(c, lv))
}

/// The custom rows, section by section under the section's own name.
pub open spec fn custom_items(shown: Seq<CustomShortcut>, lv: Seq<Seq<char>>, learning: bool) -> Seq<
    ItemView,
> {
    custom_sections(shown).map_values(
        |sec: Seq<char>| headed(sec, custom_rows(shown, sec, lv, learning)),
    ).flatten()
}

/// The whole list, selection left out: the shortcut sections, then the
/// custom ones.
pub open spec fn list_spec(
    loader: FluentLanguageLoader,
    vis: Seq<ShortcutView>,
    custom: Seq<CustomShortcut>,
    q: Seq<char>,
    lv: Seq<Seq<char>>,
    learning: bool,
) -> Seq<ItemView> {
    builtin_items(loader, vis, q, lv, learning) + custom_items(custom_shown(custom, q), lv, learning)
}

/// The selection countdown: how many clickable rows are still to pass
/// before the selected one, `None` once it is passed.
pub open spec fn countdown(c: int, sel: int) -> Option<usize> {
    if c <= sel {
        Some((sel - c) as usize)
    } else {
        None
    }
}

proof fn lemma_clicks_add(a: Seq<ItemView>, b: Seq<ItemView>)
    ensures
        clicks(a + b) == clicks(a) + clicks(b),
    decreases b.len(),
{
    if b.len() == 0 {
        assert(a + b =~= a);
        assert(clicks(a) + clicks(b) =~= clicks(a));
    } else {
        assert((a + b).drop_last() =~= a + b.drop_last());
        assert((a + b).last() == b.last());
        lemma_clicks_add(a, b.drop_last());
        assert(clicks(a + b) =~= clicks(a) + clicks(b));
    }
}

proof fn lemma_clicks_push(a: Seq<ItemView>, x: ItemView)
    ensures
        clicks(a.push(x)) == clicks(a) + match x {
            ItemView::Row { argv: Some(v), .. } => seq![v],
            _ => seq![],
        },
        clicks(a.push(x)).len() == clicks(a).len() + if is_clickable(x) {
            1int
        } else {
            0int
        },
{
    assert(a.push(x).drop_last() =~= a);
    assert(a.push(x).last() == x);
}

proof fn lemma_clicks_heading(t: Seq<char>)
    ensures
        clicks(seq![ItemView::Heading(t)]) == Seq::<Seq<Seq<char>>>::empty(),
{
    let s = seq![ItemView::Heading(t)];
    assert(s.drop_last() =~= Seq::<ItemView>::empty());
    assert(clicks(Seq::<ItemView>::empty()) =~= Seq::<Seq<Seq<char>>>::empty());
    assert(clicks(s) =~= Seq::<Seq<Seq<char>>>::empty());
}

proof fn lemma_marks_append(a: Seq<ItemView>, b: Seq<ItemView>, c0: int, sel: int)
    requires
        marks_from(a, c0, sel),
        marks_from(b, c0 + clicks(a).len(), sel),
    ensures
        marks_from(a + b, c0, sel),
{
    assert forall|i: int| 0 <= i < (a + b).len() implies #[trigger] is_selected((a + b)[i]) == (
    is_clickable((a + b)[i]) && c0 + clicks((a + b).take(i)).len() == sel) by {
        if i < a.len() {
            assert((a + b).take(i) =~= a.take(i));
            assert((a + b)[i] == a[i]);
        } else {
            let k = i - a.len();
            assert((a + b).take(i) =~= a + b.take(k));
            lemma_clicks_add(a, b.take(k));
            assert((a + b)[i] == b[k]);
        }
    }
}

proof fn lemma_marks_push(a: Seq<ItemView>, x: ItemView, c0: int, sel: int)
    requires
        marks_from(a, c0, sel),
        is_selected(x) == (is_clickable(x) && c0 + clicks(a).len() == sel),
    ensures
        marks_from(a.push(x), c0, sel),
{
    assert forall|i: int| 0 <= i < a.push(x).len() implies #[trigger] is_selected(a.push(x)[i]) == (
    is_clickable(a.push(x)[i]) && c0 + clicks(a.push(x).take(i)).len() == sel) by {
        if i < a.len() {
            assert(a.push(x).take(i) =~= a.take(i));
        } else {
            assert(a.push(x).take(i) =~= a);
        }
    }
}

fn next_countdown(rem: Option<usize>) -> (r: Option<usize>)
    ensures
        r == match rem {
            Some(n) => if n == 0 {
                None
            } else {
                Some((n - 1) as usize)
            },
            None => None,
        },
{
    match rem {
        Some(n) => if n == 0 {
            None
        } else {
            Some(n - 1)
        },
        None => None,
    }
}

/// The listed rows of one shortcut section, marked from the countdown.
fn builtin_section(
    visible: &Vec<Shortcut>,
    sec: &'static str,
    q: &str,
    learned: &Vec<String>,
    learning: bool,
    rem: Option<usize>,
    Ghost(c0): Ghost<int>,
    Ghost(sel): Ghost<int>,
) -> (r: (Vec<ListItem>, Option<usize>))
    requires
        rem == countdown(c0, sel),
        0 <= c0,
        0 <= sel <= usize::MAX,
    ensures
        unselect_all(items_view(r.0@)) == section_rows(
            rows_view(visible@),
            sec@,
            q@,
            views(learned@),
            learning,
        ),
        clicks(items_view(r.0@)) == section_commands(
            rows_view(visible@),
            sec@,
            q@,
            views(learned@),
            learning,
        ),
        marks_from(items_view(r.0@), c0, sel),
        r.1 == countdown(c0 + clicks(items_view(r.0@)).len(), sel),
{
    broadcast use lemma_shortcut_view;

    let ghost vis = rows_view(visible@);
    let ghost lv = views(learned@);
    let ghost pl = |s: ShortcutView| s.section == sec@ && row_listed(q@, lv, learning, s.label, s.keys);
    let ghost fl = |s: ShortcutView| shortcut_item(s, lv);
    let ghost pc = |s: ShortcutView|
        s.section == sec@ && row_listed(q@, lv, learning, s.label, s.keys) && s.command is Some;
    let ghost fc = |s: ShortcutView| s.command.unwrap();
    let mut rows: Vec<ListItem> = Vec::new();
    let mut rem = rem;
    let n = visible.len();
    let mut j: usize = 0;
    assert(vis.take(0).filter(pl).map_values(fl) =~= Seq::<ItemView>::empty()) by {
        reveal(Seq::filter);
    }
    assert(vis.take(0).filter(pc).map_values(fc) =~= Seq::<Seq<Seq<char>>>::empty()) by {
        reveal(Seq::filter);
    }
    assert(unselect_all(items_view(rows@)) =~= Seq::<ItemView>::empty());
    while j < n
        invariant
            n == visible@.len(),
            j <= n,
            0 <= c0,
            0 <= sel <= usize::MAX,
            vis == rows_view(visible@),
            lv == views(learned@),
            pl == (|s: ShortcutView| s.section == sec@ && row_listed(q@, lv, learning, s.label, s.keys)),
            fl == (|s: ShortcutView| shortcut_item(s, lv)),
            pc == (|s: ShortcutView|
                s.section == sec@ && row_listed(q@, lv, learning, s.label, s.keys)
                    && s.command is Some),
            fc == (|s: ShortcutView| s.command.unwrap()),
            unselect_all(items_view(rows@)) == vis.take(j as int).filter(pl).map_values(fl),
            clicks(items_view(rows@)) == vis.take(j as int).filter(pc).map_values(fc),
            marks_from(items_view(rows@), c0, sel),
            rem == countdown(c0 + clicks(items_view(rows@)).len(), sel),
        decreases n - j,
    {
        proof {
            crate::sheet::lemma_filter_map_step(vis, j as int, pl, fl);
            crate::sheet::lemma_filter_map_step(vis, j as int, pc, fc);
        }
        let s = &visible[j];
        proof {
            lemma_shortcut_view(*s);
        }
        assert(vis[j as int] == s@);
        if str_eq(s.section, sec) && crate::sheet::matches(q, s.label.as_str(), s.keys.as_str()) && !(
        contains_text(learned, s.keys.as_str()) && !learning) {
            let clickable = s.command.is_some();
            let at_sel = match rem {
                Some(k) => k == 0,
                None => false,
            };
            let sel_here = clickable && at_sel;
            let item = ListItem::Row {
                label: s.label.clone(),
                keys: s.keys.clone(),
                icon: s.icon,
                argv: clone_command(&s.command),
                selected: sel_here,
                learned: contains_text(learned, s.keys.as_str()),
            };
            let ghost old = items_view(rows@);
            proof {
                assert(s@.section == sec@);
                assert(crate::sheet::matches_spec(q@, s@.label, s@.keys));
                assert(row_listed(q@, lv, learning, s@.label, s@.keys));
                assert(pl(vis[j as int]));
                assert(unselected(item@) == fl(vis[j as int]));
                assert(is_clickable(item@) == clickable);
                assert(is_selected(item@) == sel_here);
                assert(rem == countdown(c0 + clicks(old).len(), sel));
                assert(at_sel == (c0 + clicks(old).len() == sel));
                lemma_clicks_push(old, item@);
                lemma_marks_push(old, item@, c0, sel);
            }
            rows.push(item);
            assert(items_view(rows@) =~= old.push(item@));
            assert(unselect_all(items_view(rows@)) =~= unselect_all(old).push(unselected(item@)));
            if clickable {
                assert(pc(vis[j as int]));
                rem = next_countdown(rem);
            } else {
                assert(!pc(vis[j as int]));
            }
        } else {
            assert(!pl(vis[j as int]));
            assert(!pc(vis[j as int]));
        }
        j = j + 1;
    }
    assert(vis.take(n as int) =~= vis);
    (rows, rem)
}

/// The listed rows of one custom section, marked from the countdown.
fn custom_section(
    shown: &Vec<CustomShortcut>,
    sec: &str,
    learned: &Vec<String>,
    learning: bool,
    rem: Option<usize>,
    Ghost(c0): Ghost<int>,
    Ghost(sel): Ghost<int>,
) -> (r: (Vec<ListItem>, Option<usize>))
    requires
        rem == countdown(c0, sel),
        0 <= c0,
        0 <= sel <= usize::MAX,
    ensures
        unselect_all(items_view(r.0@)) == custom_rows(shown@, sec@, views(learned@), learning),
        clicks(items_view(r.0@)) == custom_section_commands(
            shown@,
            sec@,
            views(learned@),
            learning,
        ),
        marks_from(items_view(r.0@), c0, sel),
        r.1 == countdown(c0 + clicks(items_view(r.0@)).len(), sel),
{
    let ghost sh = shown@;
    let ghost lv = views(learned@);
    let ghost pl = |c: CustomShortcut|
        section_or_default_spec(c) == sec@ && !(lv.contains(c.keys@) && !learning);
    let ghost fl = |c: CustomShortcut| custom_item(c, lv);
    let ghost pc = |c: CustomShortcut|
        section_or_default_spec(c) == sec@ && !(lv.contains(c.keys@) && !learning)
            && argv_spec(c).len() > 0;
    let ghost fc = |c: CustomShortcut| argv_spec(c);
    let mut rows: Vec<ListItem> = Vec::new();
    let mut rem = rem;
    let n = shown.len();
    let mut j: usize = 0;
    assert(sh.take(0).filter(pl).map_values(fl) =~= Seq::<ItemView>::empty()) by {
        reveal(Seq::filter);
    }
    assert(sh.take(0).filter(pc).map_values(fc) =~= Seq::<Seq<Seq<char>>>::empty()) by {
        reveal(Seq::filter);
    }
    assert(unselect_all(items_view(rows@)) =~= Seq::<ItemView>::empty());
    while j < n
        invariant
            n == shown@.len(),
            j <= n,
            0 <= c0,
            0 <= sel <= usize::MAX,
            sh == shown@,
            lv == views(learned@),
            pl == (|c: CustomShortcut|
                section_or_default_spec(c) == sec@ && !(lv.contains(c.keys@) && !learning)),
            fl == (|c: CustomShortcut| custom_item(c, lv)),
            pc == (|c: CustomShortcut|
                section_or_default_spec(c) == sec@ && !(lv.contains(c.keys@) && !learning)
                    && argv_spec(c).len() > 0),
            fc == (|c: CustomShortcut| argv_spec(c)),
            unselect_all(items_view(rows@)) == sh.take(j as int).filter(pl).map_values(fl),
            clicks(items_view(rows@)) == sh.take(j as int).filter(pc).map_values(fc),
            marks_from(items_view(rows@), c0, sel),
            rem == countdown(c0 + clicks(items_view(rows@)).len(), sel),
        decreases n - j,
    {
        proof {
            crate::sheet::lemma_filter_map_step(sh, j as int, pl, fl);
            crate::sheet::lemma_filter_map_step(sh, j as int, pc, fc);
        }
        let c = &shown[j];
        if str_eq(c.section_or_default(), sec) && !(contains_text(learned, c.keys.as_str())
            && !learning) {
            let argv = c.argv();
            let clickable = argv.len() > 0;
            let at_sel = match rem {
                Some(k) => k == 0,
                None => false,
            };
            let sel_here = clickable && at_sel;
            let item = ListItem::Row {
                label: c.label.clone(),
                keys: c.keys.clone(),
                icon: Some("preferences-other-symbolic"),
                argv: if clickable {
                    Some(argv)
                } else {
                    None
                },
                selected: sel_here,
                learned: contains_text(learned, c.keys.as_str()),
            };
            let ghost old = items_view(rows@);
            proof {
                assert(pl(sh[j as int]));
                assert(unselected(item@) == fl(sh[j as int]));
                assert(is_clickable(item@) == clickable);
                assert(at_sel == (c0 + clicks(old).len() == sel));
                lemma_clicks_push(old, item@);
                lemma_marks_push(old, item@, c0, sel);
            }
            rows.push(item);
            assert(items_view(rows@) =~= old.push(item@));
            assert(unselect_all(items_view(rows@)) =~= unselect_all(old).push(unselected(item@)));
            if clickable {
                assert(pc(sh[j as int]));
                rem = next_countdown(rem);
            } else {
                assert(!pc(sh[j as int]));
            }
        } else {
            assert(!pl(sh[j as int]));
            assert(!pc(sh[j as int]));
        }
        j = j + 1;
    }
    assert(sh.take(n as int) =~= sh);
    (rows, rem)
}

/// Adds a section's rows under its heading (nothing when it has none),
/// keeping the list's selection marks.
fn push_section(out: &mut Vec<ListItem>, title: String, rows: Vec<ListItem>, Ghost(sel): Ghost<int>)
    requires
        marks_from(items_view(old(out)@), 0, sel),
        marks_from(items_view(rows@), clicks(items_view(old(out)@)).len() as int, sel),
    ensures
        unselect_all(items_view(final(out)@)) == unselect_all(items_view(old(out)@)) + headed(
            title@,
            unselect_all(items_view(rows@)),
        ),
        clicks(items_view(final(out)@)) == clicks(items_view(old(out)@)) + clicks(
            items_view(rows@),
        ),
        marks_from(items_view(final(out)@), 0, sel),
{
    if rows.len() == 0 {
        assert(clicks(items_view(rows@)) =~= Seq::<Seq<Seq<char>>>::empty()) by {
            assert(items_view(rows@) =~= Seq::<ItemView>::empty());
        }
        assert(headed(title@, unselect_all(items_view(rows@))) =~= Seq::<ItemView>::empty());
        assert(unselect_all(items_view(out@)) =~= unselect_all(items_view(out@)) + Seq::<ItemView>::empty());
        assert(clicks(items_view(out@)) =~= clicks(items_view(out@)) + Seq::<Seq<Seq<char>>>::empty());
        return;
    }
    let ghost a = items_view(out@);
    let ghost h = ItemView::Heading(title@);
    let ghost b = items_view(rows@);
    let mut rows = rows;
    out.push(ListItem::Heading(title));
    out.append(&mut rows);
    proof {
        assert(items_view(out@) =~= a.push(h) + b);
        lemma_clicks_push(a, h);
        lemma_marks_push(a, h, 0, sel);
        lemma_clicks_add(a.push(h), b);
        lemma_marks_append(a.push(h), b, 0, sel);
        assert(unselect_all(a.push(h) + b) =~= unselect_all(a) + (seq![h] + unselect_all(b)));
        assert(unselected(h) == h);
    }
}

/// The list the window shows, with the row at clickable position `selected`
/// marked: the shortcut sections under their translated headings, then the
/// custom sections under their names; each section only when it lists a row.
pub fn list_rows(
    loader: &FluentLanguageLoader,
    visible: &Vec<Shortcut>,
    custom: &Vec<CustomShortcut>,
    q: &str,
    learned: &Vec<String>,
    learning: bool,
    selected: usize,
) -> (r: Vec<ListItem>)
    ensures
        unselect_all(items_view(r@)) == list_spec(
            *loader,
            rows_view(visible@),
            custom@,
            q@,
            views(learned@),
            learning,
        ),
        clicks(items_view(r@)) == nav_commands_spec(
            rows_view(visible@),
            custom@,
            q@,
            views(learned@),
            learning,
        ),
        marks_from(items_view(r@), 0, selected as int),
{
    let ghost vis = rows_view(visible@);
    let ghost lv = views(learned@);
    let ghost sel = selected as int;
    let ghost bitems = section_order().map_values(
        |sec: Seq<char>| headed(heading_spec(*loader, sec), section_rows(vis, sec, q@, lv, learning)),
    );
    let ghost bcmds = section_order().map_values(
        |sec: Seq<char>| section_commands(vis, sec, q@, lv, learning),
    );
    let mut out: Vec<ListItem> = Vec::new();
    let mut rem: Option<usize> = Some(selected);
    let mut k: usize = 0;
    assert(bitems.take(0).flatten() =~= Seq::<ItemView>::empty());
    assert(bcmds.take(0).flatten() =~= Seq::<Seq<Seq<char>>>::empty());
    assert(unselect_all(items_view(out@)) =~= Seq::<ItemView>::empty());
    assert(clicks(items_view(out@)) =~= Seq::<Seq<Seq<char>>>::empty()) by {
        assert(items_view(out@) =~= Seq::<ItemView>::empty());
    }
    while k < 8
        invariant
            k <= 8,
            sel == selected as int,
            vis == rows_view(visible@),
            lv == views(learned@),
            bitems == section_order().map_values(
                |sec: Seq<char>|
                    headed(heading_spec(*loader, sec), section_rows(vis, sec, q@, lv, learning)),
            ),
            bcmds == section_order().map_values(
                |sec: Seq<char>| section_commands(vis, sec, q@, lv, learning),
            ),
            unselect_all(items_view(out@)) == bitems.take(k as int).flatten(),
            clicks(items_view(out@)) == bcmds.take(k as int).flatten(),
            marks_from(items_view(out@), 0, sel),
            rem == countdown(clicks(items_view(out@)).len() as int, sel),
        decreases 8 - k,
    {
        let sec = section_at(k);
        let (rows, next) = builtin_section(
            visible,
            sec,
            q,
            learned,
            learning,
            rem,
            Ghost(clicks(items_view(out@)).len() as int),
            Ghost(sel),
        );
        let title = heading_title(loader, sec);
        let ghost before_u = unselect_all(items_view(out@));
        let ghost before_c = clicks(items_view(out@));
        let ghost rc = clicks(items_view(rows@));
        push_section(&mut out, title, rows, Ghost(sel));
        rem = next;
        proof {
            assert(bitems[k as int] == headed(
                heading_spec(*loader, sec@),
                section_rows(vis, sec@, q@, lv, learning),
            ));
            assert(bitems.take(k + 1) =~= bitems.take(k as int).push(bitems[k as int]));
            bitems.take(k as int).lemma_flatten_push(bitems[k as int]);
            assert(bcmds.take(k + 1) =~= bcmds.take(k as int).push(bcmds[k as int]));
            bcmds.take(k as int).lemma_flatten_push(bcmds[k as int]);
            assert(clicks(items_view(out@)).len() == before_c.len() + rc.len());
        }
        k = k + 1;
    }
    assert(bitems.take(8) =~= bitems);
    assert(bcmds.take(8) =~= bcmds);
    let ghost builtin_u = unselect_all(items_view(out@));
    let ghost builtin_c = clicks(items_view(out@));
    let (shown, sections) = custom_sections_shown(custom, q);
    let ghost sh = shown@;
    let ghost cs = custom_sections(sh);
    let ghost citems = cs.map_values(|sec: Seq<char>| headed(sec, custom_rows(sh, sec, lv, learning)));
    let ghost ccmds = cs.map_values(
        |sec: Seq<char>| custom_section_commands(sh, sec, lv, learning),
    );
    let gn = sections.len();
    let mut g: usize = 0;
    assert(builtin_u =~= builtin_u + citems.take(0).flatten());
    assert(builtin_c =~= builtin_c + ccmds.take(0).flatten());
    while g < gn
        invariant
            gn == sections@.len(),
            g <= gn,
            sel == selected as int,
            sh == shown@,
            lv == views(learned@),
            cs == views(sections@),
            citems == cs.map_values(
                |sec: Seq<char>| headed(sec, custom_rows(sh, sec, lv, learning)),
            ),
            ccmds == cs.map_values(
                |sec: Seq<char>| custom_section_commands(sh, sec, lv, learning),
            ),
            unselect_all(items_view(out@)) == builtin_u + citems.take(g as int).flatten(),
            clicks(items_view(out@)) == builtin_c + ccmds.take(g as int).flatten(),
            marks_from(items_view(out@), 0, sel),
            rem == countdown(clicks(items_view(out@)).len() as int, sel),
        decreases gn - g,
    {
        let sec = sections[g].as_str();
        assert(cs[g as int] == sec@);
        let (rows, next) = custom_section(
            &shown,
            sec,
            learned,
            learning,
            rem,
            Ghost(clicks(items_view(out@)).len() as int),
            Ghost(sel),
        );
        let title = String::from_str(sec);
        let ghost before_c = clicks(items_view(out@));
        let ghost rc = clicks(items_view(rows@));
        push_section(&mut out, title, rows, Ghost(sel));
        rem = next;
        proof {
            assert(citems.take(g + 1) =~= citems.take(g as int).push(citems[g as int]));
            citems.take(g as int).lemma_flatten_push(citems[g as int]);
            assert(ccmds.take(g + 1) =~= ccmds.take(g as int).push(ccmds[g as int]));
            ccmds.take(g as int).lemma_flatten_push(ccmds[g as int]);
            assert(clicks(items_view(out@)).len() == before_c.len() + rc.len());
        }
        g = g + 1;
    }
    assert(citems.take(gn as int) =~= citems);
    assert(ccmds.take(gn as int) =~= ccmds);
    out
}

} // verus!
