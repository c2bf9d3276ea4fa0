//! Cheat-sheet rows: what a key binding shows, in which section, and the
//! order and compact overview of the rows.

use vstd::prelude::*;
use vstd::string::*;

use i18n_embed::fluent::FluentLanguageLoader;

use crate::describe::{
    compact_icon, compact_icon_spec, compact_label, compact_label_spec, describe, describe_spec,
    Action, Binding, LabelText, LabelView,
};
use crate::i18n::{known, loader_message_ids, lookup, lookup_spec};
use crate::keys::{merge_cardinal_keys, merge_cardinal_spec, merge_simple_keys, merge_simple_spec, pretty_keys, pretty_keys_spec};
use crate::order::{compare_str, lemma_lt_irreflexive, lemma_lt_total, lemma_lt_transitive, seq_lt};
use crate::text::{contains, contains_seq, replace, replace_spec, str_eq, views};

verus! {

broadcast use vstd::seq_lib::group_seq_properties;

/// One cheat-sheet row.
#[derive(Clone)]
pub struct Shortcut {
    /// Display string, e.g. "Super + Shift + Q".
    pub keys: String,
    /// Human label for the action (already localized).
    pub label: String,
    /// Optional freedesktop symbolic icon name.
    pub icon: Option<&'static str>,
    /// Spawn command split into argv, when the action launches something.
    pub command: Option<Vec<String>>,
    /// Section heading key (grouping).
    pub section: &'static str,
    /// Rows with the same key are merged in compact mode.
    pub(crate) compact_key: Option<&'static str>,
    /// Hidden entirely when compact mode is on (e.g. media keys).
    pub(crate) compact_hide: bool,
}

/// What a row shows, as plain values.
pub struct ShortcutView {
    pub keys: Seq<char>,
    pub label: Seq<char>,
    pub icon: Option<Seq<char>>,
    pub command: Option<Seq<Seq<char>>>,
    pub section: Seq<char>,
    pub compact_key: Option<Seq<char>>,
    pub compact_hide: bool,
}

pub open spec fn opt_str_view(o: Option<&'static str>) -> Option<Seq<char>> {
    match o {
        Some(s) => Some(s@),
        None => None,
    }
}

pub open spec fn opt_argv_view(o: Option<Vec<String>>) -> Option<Seq<Seq<char>>> {
    match o {
        Some(v) => Some(views(v@)),
        None => None,
    }
}

impl View for Shortcut {
    type V = ShortcutView;

    closed spec fn view(&self) -> ShortcutView {
        ShortcutView {
            keys: self.keys@,
            label: self.label@,
            icon: opt_str_view(self.icon),
            command: opt_argv_view(self.command),
            section: self.section@,
            compact_key: opt_str_view(self.compact_key),
            compact_hide: self.compact_hide,
        }
    }
}

/// A row's view shows its public fields as they are.
pub(crate) broadcast proof fn lemma_shortcut_view(s: Shortcut)
    ensures
        #![trigger s@]
        s@.keys == s.keys@,
        s@.label == s.label@,
        s@.icon == opt_str_view(s.icon),
        s@.command == opt_argv_view(s.command),
        s@.section == s.section@,
        s@.compact_key == opt_str_view(s.compact_key),
        s@.compact_hide == s.compact_hide,
{
}

/// The views of a sequence of rows.
pub open spec fn rows_view(s: Seq<Shortcut>) -> Seq<ShortcutView> {
    s.map_values(|r: Shortcut| r@)
}

/// Section heading keys in display order.
pub const SECTION_ORDER: [&'static str; 8] = [
    "sec.apps",
    "sec.system",
    "sec.window",
    "sec.focus",
    "sec.ws",
    "sec.monitor",
    "sec.zoom",
    "sec.other",
];

/// Position of a section heading in the display order; unknown sections
/// come after all known ones.
pub open spec fn section_rank(s: Seq<char>) -> nat {
    if s == "sec.apps"@ {
        0
    } else if s == "sec.system"@ {
        1
    } else if s == "sec.window"@ {
        2
    } else if s == "sec.focus"@ {
        3
    } else if s == "sec.ws"@ {
        4
    } else if s == "sec.monitor"@ {
        5
    } else if s == "sec.zoom"@ {
        6
    } else if s == "sec.other"@ {
        7
    } else {
        8
    }
}

fn section_index(sec: &str) -> (r: usize)
    ensures
        r == section_rank(sec@),
{
    if str_eq(sec, "sec.apps") {
        0
    } else if str_eq(sec, "sec.system") {
        1
    } else if str_eq(sec, "sec.window") {
        2
    } else if str_eq(sec, "sec.focus") {
        3
    } else if str_eq(sec, "sec.ws") {
        4
    } else if str_eq(sec, "sec.monitor") {
        5
    } else if str_eq(sec, "sec.zoom") {
        6
    } else if str_eq(sec, "sec.other") {
        7
    } else {
        8
    }
}

/// Row `a` sorts strictly before row `b`: by section order, then keys,
/// then label.
pub open spec fn row_before(a: ShortcutView, b: ShortcutView) -> bool {
    ||| section_rank(a.section) < section_rank(b.section)
    ||| (section_rank(a.section) == section_rank(b.section) && seq_lt(a.keys, b.keys))
    ||| (section_rank(a.section) == section_rank(b.section) && a.keys == b.keys && seq_lt(
        a.label,
        b.label,
    ))
}

/// Rows that sort to the same place.
pub open spec fn same_place(a: ShortcutView, b: ShortcutView) -> bool {
    section_rank(a.section) == section_rank(b.section) && a.keys == b.keys && a.label == b.label
}

/// No row sorts strictly before an earlier one.
pub open spec fn rows_sorted(s: Seq<ShortcutView>) -> bool {
    forall|i: int, j: int| 0 <= i < j < s.len() ==> !row_before(#[trigger] s[j], #[trigger] s[i])
}

/// The rows of `s` that sort to the same place as `x`, in their order in `s`.
pub open spec fn peers(s: Seq<ShortcutView>, x: ShortcutView) -> Seq<ShortcutView> {
    s.filter(|y: ShortcutView| same_place(y, x))
}

/// `out` is the stable sort of `inp`: sorted, and rows that sort to the same
/// place keep their relative order (which also makes `out` a permutation of
/// `inp`).
pub open spec fn stable_sorted(out: Seq<ShortcutView>, inp: Seq<ShortcutView>) -> bool {
    &&& rows_sorted(out)
    &&& forall|x: ShortcutView| #[trigger] peers(out, x) == peers(inp, x)
}

proof fn lemma_row_order(a: ShortcutView, b: ShortcutView, c: ShortcutView)
    ensures
        !row_before(a, a),
        row_before(a, b) || row_before(b, a) || same_place(a, b),
        !(row_before(a, b) && row_before(b, a)),
        row_before(a, b) && row_before(b, c) ==> row_before(a, c),
        same_place(a, b) ==> !row_before(a, b),
        same_place(a, b) && row_before(b, c) ==> row_before(a, c),
        same_place(a, b) && row_before(c, b) ==> row_before(c, a),
        !row_before(b, a) && !row_before(c, b) ==> !row_before(c, a),
{
    lemma_lt_irreflexive(a.keys);
    lemma_lt_irreflexive(a.label);
    lemma_lt_irreflexive(b.keys);
    lemma_lt_irreflexive(b.label);
    lemma_lt_total(a.keys, b.keys);
    lemma_lt_total(a.label, b.label);
    lemma_lt_total(b.keys, c.keys);
    lemma_lt_total(b.label, c.label);
    lemma_lt_total(a.keys, c.keys);
    lemma_lt_total(a.label, c.label);
    if seq_lt(a.keys, b.keys) && seq_lt(b.keys, c.keys) {
        lemma_lt_transitive(a.keys, b.keys, c.keys);
    }
    if seq_lt(a.label, b.label) && seq_lt(b.label, c.label) {
        lemma_lt_transitive(a.label, b.label, c.label);
    }
    if seq_lt(c.keys, a.keys) && seq_lt(a.keys, b.keys) {
        lemma_lt_transitive(c.keys, a.keys, b.keys);
    }
    if seq_lt(c.label, a.label) && seq_lt(a.label, b.label) {
        lemma_lt_transitive(c.label, a.label, b.label);
    }
    if seq_lt(b.keys, c.keys) && seq_lt(c.keys, a.keys) {
        lemma_lt_transitive(b.keys, c.keys, a.keys);
    }
    if seq_lt(b.label, c.label) && seq_lt(c.label, a.label) {
        lemma_lt_transitive(b.label, c.label, a.label);
    }
}

fn row_before_exec(a: &Shortcut, b: &Shortcut) -> (r: bool)
    ensures
        r == row_before(a@, b@),
{
    let ra = section_index(a.section);
    let rb = section_index(b.section);
    if ra != rb {
        ra < rb
    } else {
        let c = compare_str(a.keys.as_str(), b.keys.as_str());
        if c != 0 {
            c < 0
        } else {
            compare_str(a.label.as_str(), b.label.as_str()) < 0
        }
    }
}

proof fn lemma_peers_insert(s: Seq<ShortcutView>, p: int, x: ShortcutView, z: ShortcutView)
    requires
        0 <= p <= s.len(),
        forall|k: int| 0 <= k < p ==> row_before(#[trigger] s[k], x),
    ensures
        peers(s.insert(p, x), z) == if same_place(x, z) {
            seq![x] + peers(s, z)
        } else {
            peers(s, z)
        },
{
    let pred = |y: ShortcutView| same_place(y, z);
    let a = s.subrange(0, p);
    let b = s.subrange(p, s.len() as int);
    assert(s =~= a + b);
    assert(s.insert(p, x) =~= a + (seq![x] + b));
    Seq::filter_distributes_over_add(a, seq![x] + b, pred);
    Seq::filter_distributes_over_add(seq![x], b, pred);
    Seq::filter_distributes_over_add(a, b, pred);
    reveal_with_fuel(Seq::filter, 2);
    if same_place(x, z) {
        assert forall|k: int| 0 <= k < a.len() implies !pred(a[k]) by {
            lemma_row_order(a[k], x, z);
            lemma_row_order(x, z, a[k]);
            lemma_row_order(z, x, a[k]);
        }
        assert(a.filter(pred) =~= Seq::<ShortcutView>::empty()) by {
            a.lemma_filter_len(pred);
            if a.filter(pred).len() > 0 {
                a.lemma_filter_pred(pred, 0);
                let w = a.filter(pred)[0];
                assert(a.filter(pred).contains(w));
                a.lemma_filter_contains_rev(pred, w);
                let k = choose|k: int| 0 <= k < a.len() && a[k] == w;
                assert(!pred(a[k]));
            }
        }
    }
}

/// Sorts rows by section order, then keys, then label, keeping the order of
/// rows that sort to the same place.
pub fn sort_shortcuts(out: &mut Vec<Shortcut>)
    ensures
        stable_sorted(rows_view(final(out)@), rows_view(old(out)@)),
{
    let mut input: Vec<Shortcut> = Vec::new();
    std::mem::swap(&mut input, out);
    let ghost inp = rows_view(input@);
    let ghost total = input@.len();
    assert(rows_view(out@) =~= Seq::<ShortcutView>::empty());
    assert(inp.subrange(total as int, total as int) =~= Seq::<ShortcutView>::empty());
    while input.len() > 0
        invariant
            inp.len() == total,
            input@.len() <= total,
            rows_view(input@) == inp.subrange(0, input@.len() as int),
            rows_sorted(rows_view(out@)),
            forall|z: ShortcutView| #[trigger]
                peers(rows_view(out@), z) == peers(inp.subrange(input@.len() as int, total as int), z),
        decreases input@.len(),
    {
        let ghost i = input@.len();
        let ghost before_pop = input@;
        let x = input.pop().unwrap();
        assert(rows_view(before_pop)[i - 1] == x@);
        assert(rows_view(input@) =~= inp.subrange(0, i - 1));
        assert(x@ == inp[i - 1]);
        let mut p: usize = 0;
        while p < out.len() && row_before_exec(&out[p], &x)
            invariant
                p <= out@.len(),
                forall|k: int| 0 <= k < p ==> row_before(#[trigger] rows_view(out@)[k], x@),
            decreases out@.len() - p,
        {
            p = p + 1;
        }
        let ghost old_rows = rows_view(out@);
        out.insert(p, x);
        assert(rows_view(out@) =~= old_rows.insert(p as int, x@));
        assert forall|a: int, b: int| 0 <= a < b < rows_view(out@).len() implies !row_before(
            #[trigger] rows_view(out@)[b],
            #[trigger] rows_view(out@)[a],
        ) by {
            let t = rows_view(out@);
            if a < p && b == p {
                lemma_row_order(t[a], t[b], t[a]);
            } else if a < p && b > p {
                lemma_row_order(t[a], x@, t[b]);
                lemma_row_order(old_rows[a], old_rows[b - 1], old_rows[a]);
                if p < old_rows.len() {
                    lemma_row_order(x@, old_rows[p as int], old_rows[b - 1]);
                    lemma_row_order(old_rows[p as int], old_rows[b - 1], x@);
                    lemma_row_order(x@, old_rows[p as int], old_rows[b - 1]);
                }
            } else if a == p && b > p {
                if p < old_rows.len() {
                    assert(!row_before(old_rows[p as int], x@));
                    if b - 1 > p {
                        assert(!row_before(old_rows[b - 1], old_rows[p as int]));
                    }
                    lemma_row_order(x@, old_rows[p as int], old_rows[b - 1]);
                }
            } else if a > p {
                assert(t[a] == old_rows[a - 1]);
                assert(t[b] == old_rows[b - 1]);
            }
        }
        let ghost done_before = inp.subrange(i as int, total as int);
        let ghost done_now = inp.subrange(i - 1, total as int);
        assert(done_now =~= seq![x@] + done_before);
        assert forall|z: ShortcutView| #[trigger]
            peers(rows_view(out@), z) == peers(done_now, z) by {
            lemma_peers_insert(old_rows, p as int, x@, z);
            let pred = |y: ShortcutView| same_place(y, z);
            Seq::filter_distributes_over_add(seq![x@], done_before, pred);
            reveal_with_fuel(Seq::filter, 2);
        }
    }
    assert(inp.subrange(0, total as int) =~= inp);
}

/// The English text of a label.
pub open spec fn english(l: LabelView) -> Seq<char> {
    match l {
        LabelView::Plain(s) => s,
        LabelView::Message(_, en) => en,
        LabelView::WithArg(_, fmt, _, word) => replace_spec(fmt, "{}"@, word),
    }
}

/// A label has a message in the loader (so its text may be translated).
pub open spec fn label_known(ids: Set<Seq<char>>, l: LabelView) -> bool {
    match l {
        LabelView::Plain(_) => false,
        LabelView::Message(k, _) => known(ids, k),
        LabelView::WithArg(k, _, wk, _) => known(ids, k) || known(ids, wk),
    }
}

/// The message for `key` when the loader has a non-empty one, else `en`.
///
/// A label whose message is missing altogether falls back to its English
/// text too (not to the key), as does one whose message is empty: a row
/// always reads in English rather than as a message key.
pub open spec fn text_or(loader: FluentLanguageLoader, key: Seq<char>, en: Seq<char>) -> Seq<char> {
    match lookup_spec(loader, key) {
        Some(t) => if t.len() == 0 {
            en
        } else {
            t
        },
        None => en,
    }
}

/// The text of a label in the loader's language.
pub open spec fn localize_spec(loader: FluentLanguageLoader, l: LabelView) -> Seq<char> {
    match l {
        LabelView::Plain(s) => s,
        LabelView::Message(k, en) => text_or(loader, k, en),
        LabelView::WithArg(k, fmt, wk, wen) => replace_spec(
            text_or(loader, k, fmt),
            "{}"@,
            text_or(loader, wk, wen),
        ),
    }
}

/// The translated text when the loader has a non-empty one, else `en`.
fn tr_or(loader: &FluentLanguageLoader, key: &str, en: &str) -> (r: String)
    ensures
        r@ == text_or(*loader, key@, en@),
{
    match lookup(loader, key) {
        Some(t) => {
            if t.unicode_len() == 0 {
                String::from_str(en)
            } else {
                t
            }
        },
        None => String::from_str(en),
    }
}

/// The translated (else English) format with its "{}" replaced by `arg`.
fn tr_arg(loader: &FluentLanguageLoader, key: &str, en_fmt: &str, arg: &str) -> (r: String)
    ensures
        r@ == replace_spec(text_or(*loader, key@, en_fmt@), "{}"@, arg@),
{
    proof {
        reveal_strlit("{}");
    }
    match lookup(loader, key) {
        Some(t) => {
            if t.unicode_len() == 0 {
                replace(en_fmt, "{}", arg)
            } else {
                replace(t.as_str(), "{}", arg)
            }
        },
        None => replace(en_fmt, "{}", arg),
    }
}

/// The text of a label in the loader's language; its English text when the
/// loader has no message for it.
pub fn localize(loader: &FluentLanguageLoader, label: &LabelText) -> (r: String)
    ensures
        r@ == localize_spec(*loader, label@),
        !label_known(loader_message_ids(*loader), label@) ==> r@ == english(label@),
{
    proof {
        reveal_strlit("{}");
    }
    match label {
        LabelText::Plain(s) => s.clone(),
        LabelText::Message(key, en) => tr_or(loader, key, en),
        LabelText::WithArg(key, fmt, word_key, word_en) => {
            let word = tr_or(loader, word_key, word_en);
            tr_arg(loader, key, fmt, word.as_str())
        },
    }
}

fn clone_argv(v: &Vec<String>) -> (r: Vec<String>)
    ensures
        views(r@) == views(v@),
{
    let mut out: Vec<String> = Vec::new();
    let n = v.len();
    let mut i: usize = 0;
    while i < n
        invariant
            n == v@.len(),
            i <= n,
            views(out@) =~= views(v@).take(i as int),
        decreases n - i,
    {
        let s = v[i].clone();
        let ghost before = views(out@);
        out.push(s);
        assert(views(out@) =~= before.push(s@));
        i = i + 1;
    }
    assert(views(v@).take(n as int) =~= views(v@));
    out
}

pub(crate) fn clone_command(c: &Option<Vec<String>>) -> (r: Option<Vec<String>>)
    ensures
        opt_argv_view(r) == opt_argv_view(*c),
{
    match c {
        Some(v) => Some(clone_argv(v)),
        None => None,
    }
}

fn clone_shortcut(s: &Shortcut) -> (r: Shortcut)
    ensures
        r@ == s@,
{
    Shortcut {
        keys: s.keys.clone(),
        label: s.label.clone(),
        icon: s.icon,
        command: clone_command(&s.command),
        section: s.section,
        compact_key: s.compact_key,
        compact_hide: s.compact_hide,
    }
}

/// The description of a binding, as plain text.
pub open spec fn description_view(b: Binding) -> Option<Seq<char>> {
    match b.description {
        Some(d) => Some(d@),
        None => None,
    }
}

/// The row of a binding with the given (localized) label; `None` when the
/// action is hidden or the keys print as nothing.
pub open spec fn binding_row(b: Binding, a: Action, label: Seq<char>) -> Option<ShortcutView> {
    match describe_spec(a, description_view(b)) {
        None => None,
        Some(d) => if pretty_keys_spec(b.keys@).len() == 0 {
            None
        } else {
            Some(
                ShortcutView {
                    keys: pretty_keys_spec(b.keys@),
                    label,
                    icon: d.icon,
                    command: d.command,
                    section: d.section,
                    compact_key: d.compact_key,
                    compact_hide: d.compact_hide,
                },
            )
        },
    }
}

/// The rows of the bindings, in binding order; `labels[i]` labels the row
/// of binding `i`.
pub open spec fn binding_rows(entries: Seq<(Binding, Action)>, labels: Seq<Seq<char>>) -> Seq<
    ShortcutView,
>
    decreases entries.len(),
{
    if entries.len() == 0 {
        seq![]
    } else {
        let i = entries.len() - 1;
        binding_rows(entries.drop_last(), labels) + match binding_row(
            entries[i].0,
            entries[i].1,
            labels[i],
        ) {
            Some(r) => seq![r],
            None => seq![],
        }
    }
}

/// The localized label of a binding's row (empty when it has none).
pub open spec fn binding_label(loader: FluentLanguageLoader, e: (Binding, Action)) -> Seq<char> {
    match describe_spec(e.1, description_view(e.0)) {
        Some(d) => localize_spec(loader, d.label),
        None => seq![],
    }
}

pub open spec fn binding_labels(loader: FluentLanguageLoader, entries: Seq<(Binding, Action)>) -> Seq<
    Seq<char>,
> {
    entries.map_values(|e: (Binding, Action)| binding_label(loader, e))
}

proof fn lemma_binding_rows_prefix(
    entries: Seq<(Binding, Action)>,
    labels: Seq<Seq<char>>,
    labels2: Seq<Seq<char>>,
)
    requires
        labels.len() >= entries.len(),
        labels2.len() >= entries.len(),
        forall|i: int| 0 <= i < entries.len() ==> labels[i] == labels2[i],
    ensures
        binding_rows(entries, labels) == binding_rows(entries, labels2),
    decreases entries.len(),
{
    if entries.len() > 0 {
        lemma_binding_rows_prefix(entries.drop_last(), labels, labels2);
    }
}

/// The rows of the bindings, sorted by section order, keys and label.
pub fn from_bindings(loader: &FluentLanguageLoader, entries: &Vec<(Binding, Action)>) -> (r: Vec<
    Shortcut,
>)
    ensures
        stable_sorted(rows_view(r@), binding_rows(entries@, binding_labels(*loader, entries@))),
{
    let mut out: Vec<Shortcut> = Vec::new();
    let ghost mut labels: Seq<Seq<char>> = seq![];
    let n = entries.len();
    let mut i: usize = 0;
    while i < n
        invariant
            n == entries@.len(),
            i <= n,
            labels == binding_labels(*loader, entries@.take(i as int)),
            rows_view(out@) == binding_rows(entries@.take(i as int), labels),
        decreases n - i,
    {
        let ghost pre = entries@.take(i as int);
        let ghost now = entries@.take(i + 1);
        assert(now.drop_last() =~= pre);
        assert(now[i as int] == entries@[i as int]);
        let (b, a) = &entries[i];
        let desc: Option<&str> = match &b.description {
            Some(d) => Some(d.as_str()),
            None => None,
        };
        assert(description_view(*b) == match desc {
            Some(x) => Some(x@),
            None => None::<Seq<char>>,
        });
        let ghost mut this_label: Seq<char> = seq![];
        match describe(a, desc) {
            None => {},
            Some(d) => {
                let keys = pretty_keys(b.keys.as_str());
                let label = localize(loader, &d.label);
                proof {
                    this_label = label@;
                }
                if keys.unicode_len() > 0 {
                    let row = Shortcut {
                        keys,
                        label,
                        icon: d.icon,
                        command: d.command,
                        section: d.section,
                        compact_key: d.compact_key,
                        compact_hide: d.compact_hide,
                    };
                    let ghost before = rows_view(out@);
                    out.push(row);
                    assert(rows_view(out@) =~= before.push(row@));
                }
            },
        }
        proof {
            assert(this_label == binding_label(*loader, entries@[i as int]));
            let new_labels = labels.push(this_label);
            lemma_binding_rows_prefix(pre, labels, new_labels);
            labels = new_labels;
            assert(labels =~= binding_labels(*loader, now));
            assert(rows_view(out@) =~= binding_rows(now, labels));
        }
        i = i + 1;
    }
    assert(entries@.take(n as int) =~= entries@);
    sort_shortcuts(&mut out);
    out
}

/// Rows the compact overview considers: not hidden there, and not bound to
/// hardware (XF86) keys.
pub open spec fn kept(s: ShortcutView) -> bool {
    !s.compact_hide && !contains_seq(s.keys, "XF86"@)
}

pub open spec fn visible_rows(full: Seq<ShortcutView>) -> Seq<ShortcutView> {
    full.filter(|s: ShortcutView| kept(s))
}

/// Rows that belong to no compact group.
pub open spec fn single_rows(vis: Seq<ShortcutView>) -> Seq<ShortcutView> {
    vis.filter(|s: ShortcutView| s.compact_key is None)
}

/// The rows of group `g`, in order.
pub open spec fn members(vis: Seq<ShortcutView>, g: Seq<char>) -> Seq<ShortcutView> {
    vis.filter(|s: ShortcutView| s.compact_key == Some(g))
}

/// `ks` lists every group key of the rows once, in string order.
pub open spec fn group_keys_of(ks: Seq<Seq<char>>, vis: Seq<ShortcutView>) -> bool {
    &&& forall|i: int, j: int| 0 <= i < j < ks.len() ==> seq_lt(#[trigger] ks[i], #[trigger] ks[j])
    &&& forall|k: Seq<char>|
        #![trigger ks.contains(k)]
        ks.contains(k) <==> exists|i: int| 0 <= i < vis.len() && vis[i].compact_key == Some(k)
}

/// Direction families, merged as "mods + ←↓↑→".
pub open spec fn is_cardinal_group(g: Seq<char>) -> bool {
    ||| g == "focus_cardinal"@
    ||| g == "move_cardinal"@
    ||| g == "switch_output"@
    ||| g == "move_to_output"@
    ||| g == "migrate_ws"@
    ||| g == "ws_next_prev"@
    ||| g == "move_ws_next_prev"@
}

fn is_cardinal(g: &str) -> (r: bool)
    ensures
        r == is_cardinal_group(g@),
{
    str_eq(g, "focus_cardinal") || str_eq(g, "move_cardinal") || str_eq(g, "switch_output")
        || str_eq(g, "move_to_output") || str_eq(g, "migrate_ws") || str_eq(g, "ws_next_prev")
        || str_eq(g, "move_ws_next_prev")
}

/// The command of the first row that has one.
pub open spec fn first_command(ms: Seq<ShortcutView>) -> Option<Seq<Seq<char>>>
    decreases ms.len(),
{
    if ms.len() == 0 {
        None
    } else {
        match first_command(ms.drop_last()) {
            Some(c) => Some(c),
            None => ms.last().command,
        }
    }
}

pub open spec fn member_keys(ms: Seq<ShortcutView>) -> Seq<Seq<char>> {
    ms.map_values(|s: ShortcutView| s.keys)
}

/// The merged row of group `g` with members `ms` and the given label.
pub open spec fn group_row(g: Seq<char>, ms: Seq<ShortcutView>, label: Seq<char>) -> ShortcutView {
    ShortcutView {
        keys: if is_cardinal_group(g) {
            merge_cardinal_spec(member_keys(ms))
        } else {
            merge_simple_spec(member_keys(ms))
        },
        label,
        icon: compact_icon_spec(g, ms[0].icon),
        command: first_command(ms),
        section: ms[0].section,
        compact_key: Some(g),
        compact_hide: false,
    }
}

pub open spec fn group_rows(
    ks: Seq<Seq<char>>,
    vis: Seq<ShortcutView>,
    labels: Seq<Seq<char>>,
) -> Seq<ShortcutView> {
    Seq::new(ks.len(), |i: int| group_row(ks[i], members(vis, ks[i]), labels[i]))
}

/// The localized label of group `g`'s merged row: the group's label text,
/// made from its first member's label.
pub open spec fn group_label(loader: FluentLanguageLoader, g: Seq<char>, vis: Seq<ShortcutView>) -> Seq<
    char,
> {
    localize_spec(loader, compact_label_spec(g, members(vis, g)[0].label))
}

pub open spec fn group_labels(
    loader: FluentLanguageLoader,
    ks: Seq<Seq<char>>,
    vis: Seq<ShortcutView>,
) -> Seq<Seq<char>> {
    ks.map_values(|g: Seq<char>| group_label(loader, g, vis))
}

pub open spec fn strs_view(v: Seq<&'static str>) -> Seq<Seq<char>> {
    v.map_values(|s: &'static str| s@)
}

fn contains_str(v: &Vec<&'static str>, x: &str) -> (r: bool)
    ensures
        r == strs_view(v@).contains(x@),
{
    let n = v.len();
    let mut i: usize = 0;
    while i < n
        invariant
            n == v@.len(),
            i <= n,
            forall|k: int| 0 <= k < i ==> strs_view(v@)[k] != x@,
        decreases n - i,
    {
        if str_eq(v[i], x) {
            assert(strs_view(v@)[i as int] == x@);
            return true;
        }
        i = i + 1;
    }
    false
}

/// The distinct keys sorted in string order.
fn sort_keys(keys: &Vec<&'static str>) -> (r: Vec<&'static str>)
    requires
        forall|i: int, j: int|
            0 <= i < j < keys@.len() ==> strs_view(keys@)[i] != strs_view(keys@)[j],
    ensures
        forall|i: int, j: int|
            0 <= i < j < r@.len() ==> seq_lt(#[trigger] strs_view(r@)[i], #[trigger] strs_view(r@)[j]),
        forall|k: Seq<char>| strs_view(r@).contains(k) <==> strs_view(keys@).contains(k),
{
    let mut out: Vec<&'static str> = Vec::new();
    let n = keys.len();
    let mut i: usize = 0;
    while i < n
        invariant
            n == keys@.len(),
            i <= n,
            forall|a: int, b: int|
                0 <= a < b < keys@.len() ==> strs_view(keys@)[a] != strs_view(keys@)[b],
            forall|a: int, b: int|
                0 <= a < b < out@.len() ==> seq_lt(
                    #[trigger] strs_view(out@)[a],
                    #[trigger] strs_view(out@)[b],
                ),
            forall|k: Seq<char>|
                strs_view(out@).contains(k) <==> strs_view(keys@).take(i as int).contains(k),
        decreases n - i,
    {
        let k = keys[i];
        let mut p: usize = 0;
        while p < out.len() && compare_str(out[p], k) < 0
            invariant
                p <= out@.len(),
                forall|q: int| 0 <= q < p ==> seq_lt(#[trigger] strs_view(out@)[q], k@),
            decreases out@.len() - p,
        {
            p = p + 1;
        }
        proof {
            assert(!strs_view(out@).contains(k@)) by {
                if strs_view(out@).contains(k@) {
                    let j = choose|j: int| 0 <= j < i && strs_view(keys@).take(i as int)[j] == k@;
                    assert(strs_view(keys@)[j] == strs_view(keys@)[i as int]);
                }
            }
            if p < out@.len() {
                lemma_lt_total(strs_view(out@)[p as int], k@);
                assert(strs_view(out@)[p as int] != k@);
            }
        }
        let ghost old_out = strs_view(out@);
        out.insert(p, k);
        assert(strs_view(out@) =~= old_out.insert(p as int, k@));
        assert forall|a: int, b: int|
            0 <= a < b < out@.len() implies seq_lt(
            #[trigger] strs_view(out@)[a],
            #[trigger] strs_view(out@)[b],
        ) by {
            let t = strs_view(out@);
            if a < p && b == p {
            } else if a < p && b > p {
                lemma_lt_transitive(t[a], k@, old_out[p as int]);
                if b - 1 > p {
                    lemma_lt_transitive(t[a], old_out[p as int], old_out[b - 1]);
                }
            } else if a == p && b > p {
                if b - 1 > p {
                    lemma_lt_transitive(k@, old_out[p as int], old_out[b - 1]);
                }
            }
        }
        assert(strs_view(keys@).take(i + 1) =~= strs_view(keys@).take(i as int).push(k@));
        assert forall|x: Seq<char>|
            strs_view(out@).contains(x) <==> strs_view(keys@).take(i + 1).contains(x) by {
            let t = strs_view(out@);
            let before = strs_view(keys@).take(i as int);
            let tk = strs_view(keys@).take(i + 1);
            if t.contains(x) {
                let j = choose|j: int| 0 <= j < t.len() && t[j] == x;
                assert(t =~= old_out.subrange(0, p as int) + seq![k@] + old_out.subrange(
                    p as int,
                    old_out.len() as int,
                ));
                if j == p {
                    assert(tk[i as int] == x);
                } else {
                    let m = if j < p {
                        j
                    } else {
                        j - 1
                    };
                    assert(old_out[m] == x);
                    assert(old_out.contains(x));
                    let w = choose|w: int| 0 <= w < before.len() && before[w] == x;
                    assert(tk[w] == x);
                }
            }
            if tk.contains(x) {
                let j = choose|j: int| 0 <= j < tk.len() && tk[j] == x;
                if j == i {
                    assert(t[p as int] == x);
                } else {
                    assert(before[j] == x);
                    assert(before.contains(x));
                    assert(old_out.contains(x));
                    let m = choose|m: int| 0 <= m < old_out.len() && old_out[m] == x;
                    assert(old_out[m] == x);
                    assert(t =~= old_out.subrange(0, p as int) + seq![k@] + old_out.subrange(
                        p as int,
                        old_out.len() as int,
                    ));
                    if m < p {
                        assert(t[m] == x);
                    } else {
                        assert(t[m + 1] == x);
                    }
                }
            }
        }
        i = i + 1;
    }
    assert(strs_view(keys@).take(n as int) =~= strs_view(keys@));
    out
}

proof fn lemma_filter_step(s: Seq<ShortcutView>, i: int, pred: spec_fn(ShortcutView) -> bool)
    requires
        0 <= i < s.len(),
    ensures
        s.take(i + 1).filter(pred) == if pred(s[i]) {
            s.take(i).filter(pred).push(s[i])
        } else {
            s.take(i).filter(pred)
        },
{
    assert(s.take(i + 1).drop_last() =~= s.take(i));
    reveal(Seq::filter);
}

fn key_is(k: Option<&'static str>, g: &str) -> (r: bool)
    ensures
        r == (opt_str_view(k) == Some(g@)),
{
    match k {
        Some(x) => str_eq(x, g),
        None => false,
    }
}

/// The rows of the compact overview before sorting, given the group keys
/// `ks`: the visible rows outside any group, then one merged row per group.
pub open spec fn compact_rows(
    ks: Seq<Seq<char>>,
    full: Seq<ShortcutView>,
    loader: FluentLanguageLoader,
) -> Seq<ShortcutView> {
    single_rows(visible_rows(full)) + group_rows(
        ks,
        visible_rows(full),
        group_labels(loader, ks, visible_rows(full)),
    )
}

/// `out` is the compact overview of `full`: the rows outside any group and
/// one merged row per group (in key order), stably sorted.
pub open spec fn is_compact_overview(
    out: Seq<ShortcutView>,
    full: Seq<ShortcutView>,
    loader: FluentLanguageLoader,
) -> bool {
    exists|ks: Seq<Seq<char>>| #[trigger]
        group_keys_of(ks, visible_rows(full)) && stable_sorted(out, compact_rows(ks, full, loader))
}

/// The compact overview: rows of the same group merged into one, media and
/// hardware keys left out, sorted like the full list.
pub fn compactify(full: &Vec<Shortcut>, loader: &FluentLanguageLoader) -> (r: Vec<Shortcut>)
    ensures
        is_compact_overview(rows_view(r@), rows_view(full@), *loader),
{
    let ghost fv = rows_view(full@);
    let ghost kept_pred = |s: ShortcutView| kept(s);
    let ghost single_pred = |s: ShortcutView| s.compact_key is None;
    proof {
        reveal_strlit("XF86");
    }
    // Pass 1: the rows the overview considers.
    let mut vis_rows: Vec<Shortcut> = Vec::new();
    let n = full.len();
    let mut i: usize = 0;
    assert(fv.take(0).filter(kept_pred) =~= Seq::<ShortcutView>::empty()) by {
        reveal(Seq::filter);
    }
    while i < n
        invariant
            n == full@.len(),
            fv == rows_view(full@),
            i <= n,
            kept_pred == (|s: ShortcutView| kept(s)),
            rows_view(vis_rows@) == fv.take(i as int).filter(kept_pred),
        decreases n - i,
    {
        proof {
            lemma_filter_step(fv, i as int, kept_pred);
        }
        let row = &full[i];
        assert(row@ == fv[i as int]);
        if !row.compact_hide && !contains(row.keys.as_str(), "XF86") {
            let c = clone_shortcut(row);
            let ghost before = rows_view(vis_rows@);
            vis_rows.push(c);
            assert(rows_view(vis_rows@) =~= before.push(c@));
        }
        i = i + 1;
    }
    assert(fv.take(n as int) =~= fv);
    let ghost vis = rows_view(vis_rows@);
    assert(vis == visible_rows(fv));
    // Pass 2: rows outside any group, and the group keys.
    let mut out: Vec<Shortcut> = Vec::new();
    let mut gk: Vec<&'static str> = Vec::new();
    let m = vis_rows.len();
    let mut j: usize = 0;
    assert(vis.take(0).filter(single_pred) =~= Seq::<ShortcutView>::empty()) by {
        reveal(Seq::filter);
    }
    while j < m
        invariant
            m == vis_rows@.len(),
            vis == rows_view(vis_rows@),
            j <= m,
            single_pred == (|s: ShortcutView| s.compact_key is None),
            rows_view(out@) == vis.take(j as int).filter(single_pred),
            forall|a: int, b: int|
                0 <= a < b < gk@.len() ==> strs_view(gk@)[a] != strs_view(gk@)[b],
            forall|k: Seq<char>|
                #![trigger strs_view(gk@).contains(k)]
                strs_view(gk@).contains(k) <==> exists|q: int|
                    0 <= q < j && vis[q].compact_key == Some(k),
        decreases m - j,
    {
        proof {
            lemma_filter_step(vis, j as int, single_pred);
        }
        let row = &vis_rows[j];
        assert(row@ == vis[j as int]);
        let ghost old_gk = strs_view(gk@);
        match row.compact_key {
            Some(k) => {
                if !contains_str(&gk, k) {
                    gk.push(k);
                    assert(strs_view(gk@) =~= old_gk.push(k@));
                }
            },
            None => {
                let c = clone_shortcut(row);
                let ghost before = rows_view(out@);
                out.push(c);
                assert(rows_view(out@) =~= before.push(c@));
            },
        }
        assert forall|k: Seq<char>|
            #![trigger strs_view(gk@).contains(k)]
            strs_view(gk@).contains(k) <==> exists|q: int|
                0 <= q < j + 1 && vis[q].compact_key == Some(k) by {
            if strs_view(gk@).contains(k) && !old_gk.contains(k) {
                let w = choose|w: int| 0 <= w < strs_view(gk@).len() && strs_view(gk@)[w] == k;
                assert(w == old_gk.len());
                assert(vis[j as int].compact_key == Some(k));
            }
            if exists|q: int| 0 <= q < j + 1 && vis[q].compact_key == Some(k) {
                let q = choose|q: int| 0 <= q < j + 1 && vis[q].compact_key == Some(k);
                if q < j {
                    assert(old_gk.contains(k));
                    let w = choose|w: int| 0 <= w < old_gk.len() && old_gk[w] == k;
                    assert(strs_view(gk@)[w] == k);
                } else {
                    if !old_gk.contains(k) {
                        assert(strs_view(gk@)[old_gk.len() as int] == k);
                    }
                }
            }
        }
        j = j + 1;
    }
    assert(vis.take(m as int) =~= vis);
    let ghost singles_v = rows_view(out@);
    let sk = sort_keys(&gk);
    let ghost ks = strs_view(sk@);
    assert(group_keys_of(ks, vis)) by {
        assert forall|k: Seq<char>| #![trigger ks.contains(k)]
            ks.contains(k) <==> exists|q: int| 0 <= q < vis.len() && vis[q].compact_key == Some(k) by {
            assert(ks.contains(k) <==> strs_view(gk@).contains(k));
        }
    }
    // Pass 3: one merged row per group, in key order.
    let ghost mut labels: Seq<Seq<char>> = seq![];
    let gn = sk.len();
    let mut gi: usize = 0;
    while gi < gn
        invariant
            gn == sk@.len(),
            gi <= gn,
            ks == strs_view(sk@),
            m == vis_rows@.len(),
            vis == rows_view(vis_rows@),
            group_keys_of(ks, vis),
            labels == group_labels(*loader, ks.take(gi as int), vis),
            rows_view(out@) == singles_v + group_rows(ks.take(gi as int), vis, labels),
        decreases gn - gi,
    {
        let g = sk[gi];
        assert(ks[gi as int] == g@);
        let ghost mpred = |s: ShortcutView| s.compact_key == Some(g@);
        let mut mk: Vec<String> = Vec::new();
        let mut first: Option<usize> = None;
        let mut cmd: Option<Vec<String>> = None;
        let mut j: usize = 0;
        assert(vis.take(0).filter(mpred) =~= Seq::<ShortcutView>::empty()) by {
            reveal(Seq::filter);
        }
        while j < m
            invariant
                m == vis_rows@.len(),
                vis == rows_view(vis_rows@),
                j <= m,
                mpred == (|s: ShortcutView| s.compact_key == Some(g@)),
                views(mk@) == member_keys(vis.take(j as int).filter(mpred)),
                opt_argv_view(cmd) == first_command(vis.take(j as int).filter(mpred)),
                match first {
                    Some(f) => f < j && vis.take(j as int).filter(mpred).len() > 0 && vis.take(
                        j as int,
                    ).filter(mpred)[0] == vis[f as int],
                    None => vis.take(j as int).filter(mpred).len() == 0,
                },
            decreases m - j,
        {
            proof {
                lemma_filter_step(vis, j as int, mpred);
                let t = vis.take(j as int).filter(mpred);
                assert(t.push(vis[j as int]).drop_last() =~= t);
            }
            let row = &vis_rows[j];
            assert(row@ == vis[j as int]);
            if key_is(row.compact_key, g) {
                let k = row.keys.clone();
                let ghost before = views(mk@);
                mk.push(k);
                assert(views(mk@) =~= before.push(k@));
                if first.is_none() {
                    first = Some(j);
                }
                if cmd.is_none() {
                    cmd = clone_command(&row.command);
                }
            }
            j = j + 1;
        }
        assert(vis.take(m as int) =~= vis);
        let ghost ms = members(vis, g@);
        assert(ms == vis.filter(mpred));
        assert(ms.len() > 0) by {
            assert(ks.contains(g@));
            let q = choose|q: int| 0 <= q < vis.len() && vis[q].compact_key == Some(g@);
            vis.lemma_filter_contains(mpred, q);
        }
        let f = first.unwrap();
        let lead = &vis_rows[f];
        assert(lead@ == ms[0]);
        let keys = if is_cardinal(g) {
            merge_cardinal_keys(&mk)
        } else {
            merge_simple_keys(&mk)
        };
        let ltext = compact_label(g, lead.label.as_str());
        let label = localize(loader, &ltext);
        let merged = Shortcut {
            keys,
            label,
            icon: compact_icon(g, lead.icon),
            command: cmd,
            section: lead.section,
            compact_key: Some(g),
            compact_hide: false,
        };
        assert(merged@ == group_row(g@, ms, label@));
        let ghost before = rows_view(out@);
        let ghost old_labels = labels;
        out.push(merged);
        proof {
            labels = labels.push(label@);
            assert(ks.take(gi + 1) =~= ks.take(gi as int).push(g@));
            assert(group_rows(ks.take(gi + 1), vis, labels) =~= group_rows(
                ks.take(gi as int),
                vis,
                old_labels,
            ).push(merged@));
            assert(rows_view(out@) =~= before.push(merged@));
            assert(labels =~= group_labels(*loader, ks.take(gi + 1), vis));
        }
        gi = gi + 1;
    }
    assert(ks.take(gn as int) =~= ks);
    assert(singles_v == single_rows(vis));
    assert(rows_view(out@) == compact_rows(ks, fv, *loader));
    sort_shortcuts(&mut out);
    out
}

fn clone_rows(full: &Vec<Shortcut>) -> (r: Vec<Shortcut>)
    ensures
        rows_view(r@) == rows_view(full@),
{
    let mut out: Vec<Shortcut> = Vec::new();
    let n = full.len();
    let mut i: usize = 0;
    while i < n
        invariant
            n == full@.len(),
            i <= n,
            rows_view(out@) =~= rows_view(full@).take(i as int),
        decreases n - i,
    {
        let c = clone_shortcut(&full[i]);
        let ghost before = rows_view(out@);
        out.push(c);
        assert(rows_view(out@) =~= before.push(c@));
        i = i + 1;
    }
    assert(rows_view(full@).take(n as int) =~= rows_view(full@));
    out
}

/// The rows the sheet shows: the full list, or the compact overview.
pub fn for_display(full: &Vec<Shortcut>, loader: &FluentLanguageLoader, compact: bool) -> (r: Vec<
    Shortcut,
>)
    ensures
        !compact ==> rows_view(r@) == rows_view(full@),
        compact ==> is_compact_overview(rows_view(r@), rows_view(full@), *loader),
{
    if !compact {
        return clone_rows(full);
    }
    compactify(full, loader)
}

} // verus!
