//! Properties of the library as a whole: what sorting and the compact
//! overview keep and guarantee, which language codes can come out, what
//! search and learning mode list, how the panel button cycles the sheet,
//! that one process at a time holds the sheet, how message keys resolve,
//! and that compacting settles.

use vstd::prelude::*;

use crate::i18n::{
    fluent_id_spec, lang_tag_spec, loader_message_ids, loader_text, lookup_spec, tr_spec,
    initial_lang_spec, lang_codes, lang_from_locale_spec, locale_lang_spec, locale_to_our_spec,
    parse_our_spec,
};
use i18n_embed::fluent::FluentLanguageLoader;

use crate::describe::{
    compact_icon_spec, compact_label_spec, describe_spec, split_command_spec, Action, Binding,
    LabelView,
};
use crate::keys::{
    fan, first_mods_where, letters_seen, merge_cardinal_spec, merge_simple_spec, mods_spec,
    number_scan, number_series_spec, sort_by_rank, spaced, uniq,
};

use crate::shortcuts::{
    compact_rows, first_command, group_keys_of, group_label, group_labels, group_row, group_rows,
    is_cardinal_group, is_compact_overview, kept, localize_spec, member_keys, members, peers,
    binding_row, english, row_before, rows_sorted, same_place, single_rows, stable_sorted, visible_rows,
    ShortcutView,
};
use crate::ipc::{claim_decision, ClaimStep};
use crate::sheet::{matches_spec, row_listed, CloseStart, SheetState, ToggleStep};
use crate::order::{lemma_lt_irreflexive, lemma_lt_total, seq_lt};
use crate::text::{
    contains_seq, replace_spec, unicode_lower, decimal, digit_char, join_spec, occurs_at, split_spec, trim_end, trim_spec,
    trim_start,
};

verus! {

broadcast use vstd::seq_lib::group_seq_properties, vstd::seq_lib::group_to_multiset_ensures,
    vstd::multiset::group_multiset_axioms;

proof fn lemma_peers_cons(a: Seq<ShortcutView>, z: ShortcutView)
    requires
        a.len() > 0,
    ensures
        peers(a, z) == (if same_place(a[0], z) {
            seq![a[0]]
        } else {
            Seq::empty()
        }) + peers(a.drop_first(), z),
{
    assert(a =~= seq![a[0]] + a.drop_first());
    a.drop_first().lemma_filter_prepend(a[0], |y: ShortcutView| same_place(y, z));
}

proof fn lemma_peers_empty(z: ShortcutView)
    ensures
        peers(Seq::<ShortcutView>::empty(), z) == Seq::<ShortcutView>::empty(),
{
    reveal(Seq::filter);
}

proof fn lemma_in_peers(a: Seq<ShortcutView>, z: ShortcutView, x: ShortcutView)
    requires
        peers(a, z).contains(x),
    ensures
        a.contains(x),
{
    a.lemma_filter_contains_rev(|y: ShortcutView| same_place(y, z), x);
}

proof fn lemma_order_facts(a: ShortcutView, b: ShortcutView)
    ensures
        same_place(a, a),
        !row_before(a, b) && !row_before(b, a) ==> same_place(a, b),
        same_place(a, b) ==> same_place(b, a),
        forall|z: ShortcutView| same_place(a, b) ==> (same_place(a, z) == same_place(b, z)),
{
    crate::order::lemma_lt_total(a.keys, b.keys);
    crate::order::lemma_lt_total(a.label, b.label);
}

/// Two sorted sequences of rows in which every group of rows that sort to
/// the same place has the same members in the same order are equal: the
/// stable sort of a list is determined.
pub proof fn sorted_rows_unique(a: Seq<ShortcutView>, b: Seq<ShortcutView>)
    requires
        rows_sorted(a),
        rows_sorted(b),
        forall|z: ShortcutView| #[trigger] peers(a, z) == peers(b, z),
    ensures
        a == b,
    decreases a.len(),
{
    if a.len() == 0 || b.len() == 0 {
        if a.len() > 0 {
            lemma_peers_cons(a, a[0]);
            lemma_order_facts(a[0], a[0]);
            assert(b =~= Seq::<ShortcutView>::empty());
            lemma_peers_empty(a[0]);
            assert(peers(a, a[0]) == peers(b, a[0]));
        }
        if b.len() > 0 {
            lemma_peers_cons(b, b[0]);
            lemma_order_facts(b[0], b[0]);
            assert(a =~= Seq::<ShortcutView>::empty());
            lemma_peers_empty(b[0]);
            assert(peers(a, b[0]) == peers(b, b[0]));
        }
        assert(a =~= b);
    } else {
        let x = a[0];
        let y = b[0];
        lemma_order_facts(x, y);
        lemma_order_facts(y, x);
        lemma_peers_cons(a, x);
        lemma_peers_cons(b, y);
        assert(peers(a, x)[0] == x);
        assert(peers(a, x).contains(x));
        assert(peers(b, x) == peers(a, x));
        lemma_in_peers(b, x, x);
        let k = choose|k: int| 0 <= k < b.len() && b[k] == x;
        if k > 0 {
            assert(!row_before(b[k], b[0]));
        }
        assert(peers(b, y)[0] == y);
        assert(peers(b, y).contains(y));
        assert(peers(a, y) == peers(b, y));
        lemma_in_peers(a, y, y);
        let m = choose|m: int| 0 <= m < a.len() && a[m] == y;
        if m > 0 {
            assert(!row_before(a[m], a[0]));
        }
        assert(same_place(x, y));
        lemma_peers_cons(b, x);
        assert(peers(b, x)[0] == y);
        assert(x == y);
        let a2 = a.drop_first();
        let b2 = b.drop_first();
        assert forall|z: ShortcutView| #[trigger] peers(a2, z) == peers(b2, z) by {
            lemma_peers_cons(a, z);
            lemma_peers_cons(b, z);
            let pre = if same_place(x, z) {
                seq![x]
            } else {
                Seq::<ShortcutView>::empty()
            };
            assert(peers(a, z) == peers(b, z));
            assert(pre + peers(a2, z) == pre + peers(b2, z));
            assert(peers(a2, z) =~= (pre + peers(a2, z)).skip(pre.len() as int));
            assert(peers(b2, z) =~= (pre + peers(b2, z)).skip(pre.len() as int));
        }
        assert forall|i: int, j: int| 0 <= i < j < a2.len() implies !row_before(
            #[trigger] a2[j],
            #[trigger] a2[i],
        ) by {
            assert(a2[j] == a[j + 1] && a2[i] == a[i + 1]);
        }
        assert forall|i: int, j: int| 0 <= i < j < b2.len() implies !row_before(
            #[trigger] b2[j],
            #[trigger] b2[i],
        ) by {
            assert(b2[j] == b[j + 1] && b2[i] == b[i + 1]);
        }
        sorted_rows_unique(a2, b2);
        assert(a =~= seq![x] + a2);
        assert(b =~= seq![y] + b2);
    }
}

/// Sorting is deterministic: two stable sorts of the same rows are equal.
pub proof fn stable_sort_unique(out1: Seq<ShortcutView>, out2: Seq<ShortcutView>, inp: Seq<ShortcutView>)
    requires
        stable_sorted(out1, inp),
        stable_sorted(out2, inp),
    ensures
        out1 == out2,
{
    assert forall|z: ShortcutView| #[trigger] peers(out1, z) == peers(out2, z) by {
        assert(peers(out1, z) == peers(inp, z));
        assert(peers(out2, z) == peers(inp, z));
    }
    sorted_rows_unique(out1, out2);
}

/// Sorting rows that are already sorted leaves them as they are.
pub proof fn sorting_sorted_rows_is_identity(out: Seq<ShortcutView>, inp: Seq<ShortcutView>)
    requires
        rows_sorted(inp),
        stable_sorted(out, inp),
    ensures
        out == inp,
{
    assert forall|z: ShortcutView| #[trigger] peers(out, z) == peers(inp, z) by {}
    sorted_rows_unique(out, inp);
}

proof fn lemma_count_in_filter(s: Seq<ShortcutView>, pred: spec_fn(ShortcutView) -> bool, x: ShortcutView)
    requires
        pred(x),
    ensures
        s.filter(pred).to_multiset().count(x) == s.to_multiset().count(x),
    decreases s.len(),
{
    if s.len() == 0 {
        reveal(Seq::filter);
    } else {
        let t = s.drop_last();
        lemma_count_in_filter(t, pred, x);
        assert(s =~= t.push(s.last()));
        reveal(Seq::filter);
        assert(s.filter(pred) == if pred(s.last()) {
            t.filter(pred).push(s.last())
        } else {
            t.filter(pred)
        });
    }
}

/// Sorting keeps the rows: the sorted list is a permutation of its input.
pub proof fn stable_sort_permutes(out: Seq<ShortcutView>, inp: Seq<ShortcutView>)
    requires
        stable_sorted(out, inp),
    ensures
        out.to_multiset() =~= inp.to_multiset(),
{
    assert forall|x: ShortcutView| out.to_multiset().count(x) == inp.to_multiset().count(x) by {
        lemma_order_facts(x, x);
        lemma_count_in_filter(out, |y: ShortcutView| same_place(y, x), x);
        lemma_count_in_filter(inp, |y: ShortcutView| same_place(y, x), x);
        assert(peers(out, x) == peers(inp, x));
    }
}

proof fn lemma_member_of_multiset(out: Seq<ShortcutView>, inp: Seq<ShortcutView>, i: int)
    requires
        out.to_multiset() =~= inp.to_multiset(),
        0 <= i < out.len(),
    ensures
        inp.contains(out[i]),
{
    assert(out.contains(out[i]));
    assert(out.to_multiset().count(out[i]) > 0);
    assert(inp.to_multiset().count(out[i]) > 0);
}

proof fn lemma_count_two(s: Seq<ShortcutView>, i: int, j: int)
    requires
        0 <= i < j < s.len(),
        s[i] == s[j],
    ensures
        s.to_multiset().count(s[i]) >= 2,
    decreases s.len(),
{
    let t = s.drop_last();
    assert(s =~= t.push(s.last()));
    if j == s.len() - 1 {
        assert(t.contains(s[i]));
        assert(t.to_multiset().count(s[i]) >= 1);
    } else {
        lemma_count_two(t, i, j);
    }
}

proof fn lemma_count_at_most_one(s: Seq<ShortcutView>, e: ShortcutView)
    requires
        forall|k: int, l: int| 0 <= k < s.len() && 0 <= l < s.len() && s[k] == e && s[l] == e ==> k == l,
    ensures
        s.to_multiset().count(e) <= 1,
    decreases s.len(),
{
    if s.len() > 0 {
        let t = s.drop_last();
        assert(s =~= t.push(s.last()));
        lemma_count_at_most_one(t, e);
        if s.last() == e && t.to_multiset().count(e) > 0 {
            assert(t.contains(e));
            let k = choose|k: int| 0 <= k < t.len() && t[k] == e;
            assert(s[k] == e && s[s.len() - 1] == e);
        }
    }
}

proof fn lemma_filter_member<A>(s: Seq<A>, pred: spec_fn(A) -> bool, e: A)
    requires
        s.filter(pred).contains(e),
    ensures
        pred(e),
        s.contains(e),
{
    let k = choose|k: int| 0 <= k < s.filter(pred).len() && s.filter(pred)[k] == e;
    s.lemma_filter_pred(pred, k);
    s.lemma_filter_contains_rev(pred, e);
}

/// The compact overview shows no row hidden there and no row that names a
/// hardware (XF86) key: those are left out, and merging the keys of a group
/// names no XF86 key that its members did not.
pub proof fn compact_overview_drops_hidden(out: Seq<ShortcutView>, full: Seq<ShortcutView>, loader: FluentLanguageLoader)
    requires
        is_compact_overview(out, full, loader),
    ensures
        forall|i: int| 0 <= i < out.len() ==> !(#[trigger] out[i]).compact_hide,
        forall|i: int| 0 <= i < out.len() ==> !contains_seq((#[trigger] out[i]).keys, "XF86"@),
{
    let ks = choose|ks: Seq<Seq<char>>| #[trigger]
        group_keys_of(ks, visible_rows(full)) && stable_sorted(out, compact_rows(ks, full, loader));
    let vis = visible_rows(full);
    let labels = group_labels(loader, ks, vis);
    let singles = single_rows(vis);
    let groups = group_rows(ks, vis, labels);
    let inp = singles + groups;
    stable_sort_permutes(out, inp);
    assert forall|i: int| 0 <= i < out.len() implies !(#[trigger] out[i]).compact_hide
        && !contains_seq(out[i].keys, "XF86"@) by {
        lemma_member_of_multiset(out, inp, i);
        let k = choose|k: int| 0 <= k < inp.len() && inp[k] == out[i];
        if k < singles.len() {
            assert(singles.contains(out[i]));
            lemma_filter_member(vis, |s: ShortcutView| s.compact_key is None, out[i]);
            lemma_filter_member(full, |s: ShortcutView| kept(s), out[i]);
        } else {
            let m = k - singles.len();
            assert(out[i] == groups[m]);
            lemma_merged_no_xf(full, ks[m]);
            assert(groups[m].keys == merged_keys(ks[m], vis));
        }
    }
}

/// In the compact overview each group appears as one row.
pub proof fn compact_overview_one_row_per_group(out: Seq<ShortcutView>, full: Seq<ShortcutView>, loader: FluentLanguageLoader)
    requires
        is_compact_overview(out, full, loader),
    ensures
        forall|i: int, j: int|
            0 <= i < j < out.len() && (#[trigger] out[i]).compact_key is Some ==> out[i].compact_key
                != (#[trigger] out[j]).compact_key,
{
    let ks = choose|ks: Seq<Seq<char>>| #[trigger]
        group_keys_of(ks, visible_rows(full)) && stable_sorted(out, compact_rows(ks, full, loader));
    let vis = visible_rows(full);
    let labels = group_labels(loader, ks, vis);
    let singles = single_rows(vis);
    let groups = group_rows(ks, vis, labels);
    let inp = singles + groups;
    let n = singles.len();
    stable_sort_permutes(out, inp);
    assert forall|k: int| 0 <= k < n implies (#[trigger] inp[k]).compact_key is None by {
        vis.lemma_filter_pred(|s: ShortcutView| s.compact_key is None, k);
        assert(inp[k] == singles[k]);
    }
    assert forall|i: int, j: int|
        0 <= i < j < out.len() && (#[trigger] out[i]).compact_key is Some implies out[i].compact_key
        != (#[trigger] out[j]).compact_key by {
        if out[i].compact_key == out[j].compact_key {
            lemma_member_of_multiset(out, inp, i);
            lemma_member_of_multiset(out, inp, j);
            let p = choose|p: int| 0 <= p < inp.len() && inp[p] == out[i];
            let q = choose|q: int| 0 <= q < inp.len() && inp[q] == out[j];
            assert(p >= n);
            assert(q >= n);
            assert(ks[p - n] == ks[q - n]);
            if p - n < q - n {
                assert(crate::order::seq_lt(ks[p - n], ks[q - n]));
                crate::order::lemma_lt_irreflexive(ks[p - n]);
            } else if q - n < p - n {
                assert(crate::order::seq_lt(ks[q - n], ks[p - n]));
                crate::order::lemma_lt_irreflexive(ks[p - n]);
            }
            let e = out[i];
            assert(e == out[j]);
            lemma_count_two(out, i, j);
            assert forall|a: int, b: int|
                0 <= a < inp.len() && 0 <= b < inp.len() && inp[a] == e && inp[b] == e implies a
                == b by {
                assert(a >= n && b >= n);
                if a != b {
                    if a - n < b - n {
                        assert(crate::order::seq_lt(ks[a - n], ks[b - n]));
                    } else {
                        assert(crate::order::seq_lt(ks[b - n], ks[a - n]));
                    }
                    crate::order::lemma_lt_irreflexive(ks[a - n]);
                }
            }
            lemma_count_at_most_one(inp, e);
        }
    }
}

/// Two strictly sorted key lists holding the same keys are equal.
proof fn lemma_sorted_keys_unique(a: Seq<Seq<char>>, b: Seq<Seq<char>>)
    requires
        forall|i: int, j: int| 0 <= i < j < a.len() ==> seq_lt(#[trigger] a[i], #[trigger] a[j]),
        forall|i: int, j: int| 0 <= i < j < b.len() ==> seq_lt(#[trigger] b[i], #[trigger] b[j]),
        forall|k: Seq<char>| a.contains(k) <==> b.contains(k),
    ensures
        a == b,
    decreases a.len(),
{
    if a.len() == 0 || b.len() == 0 {
        if a.len() > 0 {
            assert(a.contains(a[0]));
        }
        if b.len() > 0 {
            assert(b.contains(b[0]));
        }
        assert(a =~= b);
    } else {
        let x = a[0];
        let y = b[0];
        assert(a.contains(x));
        assert(b.contains(y));
        let p = choose|p: int| 0 <= p < b.len() && b[p] == x;
        let q = choose|q: int| 0 <= q < a.len() && a[q] == y;
        if x != y {
            assert(p > 0 && q > 0);
            assert(seq_lt(y, x));
            assert(seq_lt(x, y));
            lemma_lt_total(x, y);
        }
        let a2 = a.drop_first();
        let b2 = b.drop_first();
        assert forall|k: Seq<char>| a2.contains(k) <==> b2.contains(k) by {
            if a2.contains(k) {
                let i = choose|i: int| 0 <= i < a2.len() && a2[i] == k;
                assert(a[i + 1] == k);
                assert(seq_lt(x, k));
                lemma_lt_irreflexive(k);
                assert(a.contains(k));
                let j = choose|j: int| 0 <= j < b.len() && b[j] == k;
                assert(j != 0);
                assert(b2[j - 1] == k);
            }
            if b2.contains(k) {
                let i = choose|i: int| 0 <= i < b2.len() && b2[i] == k;
                assert(b[i + 1] == k);
                assert(seq_lt(y, k));
                lemma_lt_irreflexive(k);
                assert(b.contains(k));
                let j = choose|j: int| 0 <= j < a.len() && a[j] == k;
                assert(j != 0);
                assert(a2[j - 1] == k);
            }
        }
        assert forall|i: int, j: int| 0 <= i < j < a2.len() implies seq_lt(
            #[trigger] a2[i],
            #[trigger] a2[j],
        ) by {
            assert(a2[i] == a[i + 1] && a2[j] == a[j + 1]);
        }
        assert forall|i: int, j: int| 0 <= i < j < b2.len() implies seq_lt(
            #[trigger] b2[i],
            #[trigger] b2[j],
        ) by {
            assert(b2[i] == b[i + 1] && b2[j] == b[j + 1]);
        }
        lemma_sorted_keys_unique(a2, b2);
        assert(a =~= seq![x] + a2);
        assert(b =~= seq![y] + b2);
    }
}

/// The compact overview of a list is determined: any two rows lists that
/// are compact overviews of the same list, with the same loader, are equal.
pub proof fn compact_overview_unique(
    out1: Seq<ShortcutView>,
    out2: Seq<ShortcutView>,
    full: Seq<ShortcutView>,
    loader: FluentLanguageLoader,
)
    requires
        is_compact_overview(out1, full, loader),
        is_compact_overview(out2, full, loader),
    ensures
        out1 == out2,
{
    let k1 = choose|ks: Seq<Seq<char>>| #[trigger]
        group_keys_of(ks, visible_rows(full)) && stable_sorted(out1, compact_rows(ks, full, loader));
    let k2 = choose|ks: Seq<Seq<char>>| #[trigger]
        group_keys_of(ks, visible_rows(full)) && stable_sorted(out2, compact_rows(ks, full, loader));
    assert forall|k: Seq<char>| k1.contains(k) <==> k2.contains(k) by {
        assert(k1.contains(k) <==> exists|i: int|
            0 <= i < visible_rows(full).len() && visible_rows(full)[i].compact_key == Some(k));
        assert(k2.contains(k) <==> exists|i: int|
            0 <= i < visible_rows(full).len() && visible_rows(full)[i].compact_key == Some(k));
    }
    lemma_sorted_keys_unique(k1, k2);
    stable_sort_unique(out1, out2, compact_rows(k1, full, loader));
}

/// The language a setting names is one of the picker's codes.
pub proof fn parsed_lang_is_listed(raw: Seq<char>)
    ensures
        parse_our_spec(raw) matches Some(c) ==> lang_codes().contains(c),
{
}

/// The locale's language, when it has a code, is one of the picker's codes.
pub proof fn locale_lang_is_listed(code: Seq<char>)
    ensures
        locale_to_our_spec(code) matches Some(c) ==> lang_codes().contains(c),
{
    reveal_strlit("nor");
    reveal_strlit("eng");
    reveal_strlit("nld");
    reveal_strlit("fra");
    reveal_strlit("spa");
    reveal_strlit("deu");
    reveal_strlit("swe");
    reveal_strlit("dan");
    reveal_strlit("ita");
    if locale_to_our_spec(code) is Some {
        let c = locale_to_our_spec(code).unwrap();
        assert(c == "nor"@ || c == "eng"@ || c == "nld"@ || c == "fra"@ || c == "spa"@ || c
            == "deu"@ || c == "swe"@ || c == "dan"@ || c == "ita"@);
        if c == "nor"@ {
            assert(lang_codes()[0] == c);
        } else if c == "eng"@ {
            assert(lang_codes()[1] == c);
        } else if c == "nld"@ {
            assert(lang_codes()[2] == c);
        } else if c == "fra"@ {
            assert(lang_codes()[3] == c);
        } else if c == "spa"@ {
            assert(lang_codes()[4] == c);
        } else if c == "deu"@ {
            assert(lang_codes()[5] == c);
        } else if c == "swe"@ {
            assert(lang_codes()[6] == c);
        } else if c == "dan"@ {
            assert(lang_codes()[7] == c);
        } else {
            assert(lang_codes()[8] == c);
        }
    }
}

/// A language the locale variables name is one of the picker's codes.
pub proof fn locale_choice_is_listed(vars: Seq<Option<Seq<char>>>)
    ensures
        locale_lang_spec(vars) is Some ==> lang_codes().contains(locale_lang_spec(vars).unwrap()),
    decreases vars.len(),
{
    if vars.len() > 0 {
        match vars[0] {
            Some(v) => {
                locale_lang_is_listed(crate::i18n::locale_language(v));
            },
            None => {},
        }
        locale_choice_is_listed(vars.drop_first());
    }
}

/// The language taken from the locale variables is always one of the
/// picker's codes (English when none matches).
pub proof fn locale_fallback_is_listed(vars: Seq<Option<Seq<char>>>)
    ensures
        lang_codes().contains(lang_from_locale_spec(vars)),
{
    locale_choice_is_listed(vars);
    assert(lang_codes()[1] == "eng"@);
}

/// The starting language is always one of the picker's codes.
pub proof fn initial_lang_is_listed(
    preferred: Option<Seq<char>>,
    legacy: Option<Seq<char>>,
    vars: Seq<Option<Seq<char>>>,
)
    ensures
        lang_codes().contains(initial_lang_spec(preferred, legacy, vars)),
{
    locale_choice_is_listed(vars);
    assert(lang_codes()[1] == "eng"@);
}

/// The start-up language follows the settings first, then a recognised
/// system locale, then the legacy language file: a valid setting wins, and
/// without one a recognised locale wins over any legacy file.
pub proof fn start_language_order(
    preferred: Option<Seq<char>>,
    legacy: Option<Seq<char>>,
    vars: Seq<Option<Seq<char>>>,
)
    ensures
        preferred is Some && parse_our_spec(preferred.unwrap()) is Some ==> initial_lang_spec(
            preferred,
            legacy,
            vars,
        ) == parse_our_spec(preferred.unwrap()).unwrap(),
        !(preferred is Some && parse_our_spec(preferred.unwrap()) is Some) && locale_lang_spec(
            vars,
        ) is Some ==> initial_lang_spec(preferred, legacy, vars) == locale_lang_spec(vars).unwrap(),
{
}

/// An empty search matches every row.
pub proof fn empty_search_matches_every_row(label: Seq<char>, keys: Seq<char>)
    ensures
        matches_spec(Seq::empty(), label, keys),
{
}

/// Outside learning mode a row marked as learned is never listed, whatever
/// the search.
pub proof fn learned_rows_hidden(
    q: Seq<char>,
    learned: Seq<Seq<char>>,
    label: Seq<char>,
    keys: Seq<char>,
)
    requires
        learned.contains(keys),
    ensures
        !row_listed(q, learned, false, label, keys),
{
}

/// In learning mode the learned marks hide nothing: a row is listed exactly
/// when it matches the search.
pub proof fn learning_mode_reveals_learned(
    q: Seq<char>,
    learned: Seq<Seq<char>>,
    label: Seq<char>,
    keys: Seq<char>,
)
    ensures
        row_listed(q, learned, true, label, keys) == matches_spec(q, label, keys),
{
}

/// The panel button toggles the sheet: with nothing showing anywhere it
/// opens; once shown, a press slides it out; a press during the slide is
/// ignored; when the slide has ended nothing is open, and the next press
/// opens it again.
pub proof fn toggle_cycle(s: SheetState)
    requires
        !s.is_open(),
    ensures
        s.toggle_decision(false) == ToggleStep::Open,
        s.after_open().after_surface_ready().is_open(),
        s.after_open().after_surface_ready().toggle_decision(false) == ToggleStep::BeginClose,
        s.after_open().after_surface_ready().begin_close_step() == CloseStart::Animate,
        s.after_open().after_surface_ready().after_begin_close().toggle_decision(false)
            == ToggleStep::Ignore,
        !s.after_open().after_surface_ready().after_begin_close().after_finish_close().is_open(),
        s.after_open().after_surface_ready().after_begin_close().after_finish_close()
            == s.after_finish_close(),
        s.after_open().after_surface_ready().after_begin_close().after_finish_close().toggle_decision(
            false,
        ) == ToggleStep::Open,
{
}

/// A sheet shown by another process is never opened here: the button closes
/// everything instead.
pub proof fn toggle_closes_other_sheets(s: SheetState)
    requires
        !s.is_open(),
    ensures
        s.toggle_decision(true) == ToggleStep::CloseEverything,
{
}

/// At most one process holds the sheet: given the marker's owner, two
/// processes that are both granted the claim are the same process.
pub proof fn one_claimant(owner: Option<u32>, p1: u32, p2: u32)
    requires
        claim_decision(owner, p1) == ClaimStep::Decided(true),
        claim_decision(owner, p2) == ClaimStep::Decided(true),
    ensures
        p1 == p2,
{
}

/// App-launch bindings stay clickable: the row of a `Spawn` binding runs
/// its command, split into words, and stands under the applications.
pub proof fn spawn_rows_are_clickable(b: Binding, cmd: String, label: Seq<char>)
    requires
        binding_row(b, Action::Spawn(cmd), label) is Some,
    ensures
        binding_row(b, Action::Spawn(cmd), label).unwrap().command == Some(
            split_command_spec(cmd@),
        ),
        binding_row(b, Action::Spawn(cmd), label).unwrap().section == "sec.apps"@,
{
}

/// A lone combination of a group that is not a direction family merges
/// into itself: merging the keys of such a group's merged row again gives
/// them back unchanged.
pub proof fn lone_key_merges_to_itself(k: Seq<char>)
    ensures
        merge_simple_spec(seq![k]) == k,
{
    let one = seq![k];
    assert(one.drop_last() =~= Seq::<Seq<char>>::empty());
    assert(uniq(Seq::<Seq<char>>::empty()) =~= Seq::<Seq<char>>::empty());
    assert(uniq(one) =~= one);
}

/// A dotted key and its hyphen form resolve to the same message: when the
/// loader holds the hyphen id, both read that id's text.
pub proof fn dotted_and_hyphen_keys_agree(loader: FluentLanguageLoader, key: Seq<char>)
    requires
        loader_message_ids(loader).contains(fluent_id_spec(key)),
    ensures
        tr_spec(loader, key) == loader_text(loader, fluent_id_spec(key)),
        tr_spec(loader, fluent_id_spec(key)) == loader_text(loader, fluent_id_spec(key)),
{
    reveal_strlit(".");
    reveal_strlit("-");
    let h = fluent_id_spec(key);
    assert("."@ =~= seq!['.']);
    assert("-"@ =~= seq!['-']);
    crate::text::lemma_replace_removes(key, '.', '-');
    crate::text::lemma_first_occ_absent(h, '.');
    assert(fluent_id_spec(h) == h);
}

proof fn lemma_filter_all<A>(s: Seq<A>, p: spec_fn(A) -> bool)
    requires
        forall|i: int| 0 <= i < s.len() ==> p(#[trigger] s[i]),
    ensures
        s.filter(p) == s,
    decreases s.len(),
{
    if s.len() == 0 {
        reveal(Seq::filter);
        assert(s.filter(p) =~= s);
    } else {
        let t = s.drop_last();
        assert(s =~= t.push(s.last()));
        assert forall|i: int| 0 <= i < t.len() implies p(#[trigger] t[i]) by {
            assert(t[i] == s[i]);
        }
        lemma_filter_all(t, p);
        t.lemma_filter_push(s.last(), p);
    }
}

proof fn lemma_filter_none<A>(s: Seq<A>, p: spec_fn(A) -> bool)
    requires
        forall|i: int| 0 <= i < s.len() ==> !p(#[trigger] s[i]),
    ensures
        s.filter(p) == Seq::<A>::empty(),
    decreases s.len(),
{
    if s.len() == 0 {
        reveal(Seq::filter);
        assert(s.filter(p) =~= Seq::<A>::empty());
    } else {
        let t = s.drop_last();
        assert(s =~= t.push(s.last()));
        assert forall|i: int| 0 <= i < t.len() implies !p(#[trigger] t[i]) by {
            assert(t[i] == s[i]);
        }
        lemma_filter_none(t, p);
        t.lemma_filter_push(s.last(), p);
    }
}

proof fn lemma_filter_commute<A>(s: Seq<A>, p: spec_fn(A) -> bool, q: spec_fn(A) -> bool)
    ensures
        s.filter(p).filter(q) == s.filter(q).filter(p),
    decreases s.len(),
{
    if s.len() == 0 {
        reveal(Seq::filter);
        assert(s.filter(p).filter(q) =~= s.filter(q).filter(p));
    } else {
        let t = s.drop_last();
        let x = s.last();
        assert(s =~= t.push(x));
        lemma_filter_commute(t, p, q);
        t.lemma_filter_push(x, p);
        t.lemma_filter_push(x, q);
        t.filter(p).lemma_filter_push(x, q);
        t.filter(q).lemma_filter_push(x, p);
    }
}

proof fn lemma_filter_single<A>(s: Seq<A>, p: spec_fn(A) -> bool, k: int)
    requires
        0 <= k < s.len(),
        p(s[k]),
        forall|j: int| 0 <= j < s.len() && j != k ==> !p(#[trigger] s[j]),
    ensures
        s.filter(p) == seq![s[k]],
    decreases s.len(),
{
    let t = s.drop_last();
    let x = s.last();
    assert(s =~= t.push(x));
    t.lemma_filter_push(x, p);
    if k == s.len() - 1 {
        assert forall|i: int| 0 <= i < t.len() implies !p(#[trigger] t[i]) by {
            assert(t[i] == s[i]);
        }
        lemma_filter_none(t, p);
        assert(s.filter(p) =~= seq![s[k]]);
    } else {
        assert forall|j: int| 0 <= j < t.len() && j != k implies !p(#[trigger] t[j]) by {
            assert(t[j] == s[j]);
        }
        assert(t[k] == s[k]);
        lemma_filter_single(t, p, k);
        assert(!p(x));
    }
}

/// The merged keys of group `g` among the rows `vis`.
pub open spec fn merged_keys(g: Seq<char>, vis: Seq<ShortcutView>) -> Seq<char> {
    if is_cardinal_group(g) {
        merge_cardinal_spec(member_keys(members(vis, g)))
    } else {
        merge_simple_spec(member_keys(members(vis, g)))
    }
}

/// The merged keys of every direction family among the rows settle:
/// merged again alone, they come back unchanged.
pub open spec fn directions_settle(full: Seq<ShortcutView>) -> bool {
    forall|g: Seq<char>|
        #[trigger] members(visible_rows(full), g).len() > 0 && is_cardinal_group(g)
            ==> merge_cardinal_spec(seq![merged_keys(g, visible_rows(full))]) == merged_keys(
            g,
            visible_rows(full),
        )
}

proof fn lemma_merged_no_xf(full: Seq<ShortcutView>, g: Seq<char>)
    ensures
        no_xf(merged_keys(g, visible_rows(full))),
{
    let vis = visible_rows(full);
    let ms = members(vis, g);
    let mk = member_keys(ms);
    assert forall|i: int| 0 <= i < mk.len() implies no_xf(#[trigger] mk[i]) by {
        assert(mk[i] == ms[i].keys);
        assert(ms.contains(ms[i]));
        lemma_filter_member(vis, |s: ShortcutView| s.compact_key == Some(g), ms[i]);
        lemma_filter_member(full, |s: ShortcutView| kept(s), ms[i]);
    }
    merging_adds_no_xf86(mk);
}

proof fn lemma_label_settles(loader: FluentLanguageLoader, g: Seq<char>, x: Seq<char>)
    ensures
        localize_spec(loader, compact_label_spec(g, localize_spec(loader, compact_label_spec(g, x))))
            == localize_spec(loader, compact_label_spec(g, x)),
{
}

proof fn lemma_icon_settles(g: Seq<char>, x: Option<Seq<char>>)
    ensures
        compact_icon_spec(g, compact_icon_spec(g, x)) == compact_icon_spec(g, x),
{
}

/// Compacting an already compact list changes nothing, as long as the merged
/// keys of each direction family settle (merged again alone they come back
/// unchanged; for other groups this always holds, see
/// `lone_key_merges_to_itself`).
pub proof fn compacting_twice_changes_nothing(
    out1: Seq<ShortcutView>,
    out2: Seq<ShortcutView>,
    full: Seq<ShortcutView>,
    loader: FluentLanguageLoader,
)
    requires
        directions_settle(full),
        is_compact_overview(out1, full, loader),
        is_compact_overview(out2, out1, loader),
    ensures
        out2 == out1,
{
    let vis = visible_rows(full);
    let ks = choose|ks: Seq<Seq<char>>| #[trigger]
        group_keys_of(ks, visible_rows(full)) && stable_sorted(out1, compact_rows(ks, full, loader));
    let labels = group_labels(loader, ks, vis);
    let singles = single_rows(vis);
    let groups = group_rows(ks, vis, labels);
    let inp = singles + groups;
    let n = singles.len();
    assert(compact_rows(ks, full, loader) == inp);
    stable_sort_permutes(out1, inp);
    compact_overview_one_row_per_group(out1, full, loader);
    // What the rows of the first overview are.
    assert forall|i: int| 0 <= i < n implies (#[trigger] singles[i]).compact_key is None && kept(
        singles[i],
    ) by {
        assert(singles.contains(singles[i]));
        lemma_filter_member(vis, |s: ShortcutView| s.compact_key is None, singles[i]);
        lemma_filter_member(full, |s: ShortcutView| kept(s), singles[i]);
    }
    assert forall|m: int| 0 <= m < ks.len() implies #[trigger] members(vis, ks[m]).len() > 0 by {
        assert(ks.contains(ks[m]));
        let q = choose|q: int| 0 <= q < vis.len() && vis[q].compact_key == Some(ks[m]);
        vis.lemma_filter_contains(|s: ShortcutView| s.compact_key == Some(ks[m]), q);
    }
    assert forall|m: int| 0 <= m < ks.len() implies kept(#[trigger] groups[m]) && groups[m].compact_key
        == Some(ks[m]) && groups[m].keys == merged_keys(ks[m], vis) by {
        assert(members(vis, ks[m]).len() > 0);
        lemma_merged_no_xf(full, ks[m]);
    }
    // Every row of the first overview stays visible.
    assert forall|i: int| 0 <= i < out1.len() implies kept(#[trigger] out1[i]) by {
        lemma_member_of_multiset(out1, inp, i);
        let k = choose|k: int| 0 <= k < inp.len() && inp[k] == out1[i];
        if k < n {
            assert(inp[k] == singles[k]);
        } else {
            assert(inp[k] == groups[k - n]);
        }
    }
    lemma_filter_all(out1, |s: ShortcutView| kept(s));
    assert(visible_rows(out1) == out1);
    // The group keys are the same.
    let ks2 = choose|k2: Seq<Seq<char>>| #[trigger]
        group_keys_of(k2, visible_rows(out1)) && stable_sorted(out2, compact_rows(k2, out1, loader));
    assert forall|k: Seq<char>| ks2.contains(k) <==> ks.contains(k) by {
        if ks2.contains(k) {
            let i = choose|i: int| 0 <= i < out1.len() && out1[i].compact_key == Some(k);
            lemma_member_of_multiset(out1, inp, i);
            let j = choose|j: int| 0 <= j < inp.len() && inp[j] == out1[i];
            if j < n {
                assert(inp[j] == singles[j]);
            } else {
                assert(inp[j] == groups[j - n]);
                assert(ks[j - n] == k);
            }
        }
        if ks.contains(k) {
            let m = choose|m: int| 0 <= m < ks.len() && ks[m] == k;
            assert(inp[n + m] == groups[m]);
            assert(inp.contains(groups[m]));
            assert(inp.to_multiset().count(groups[m]) > 0);
            assert(out1.to_multiset().count(groups[m]) > 0);
            assert(out1.contains(groups[m]));
            let i = choose|i: int| 0 <= i < out1.len() && out1[i] == groups[m];
            assert(out1[i].compact_key == Some(k));
        }
    }
    lemma_sorted_keys_unique(ks2, ks);
    // Each group of the first overview is one row, which merges into itself.
    assert forall|m: int| 0 <= m < ks.len() implies #[trigger] members(out1, ks[m]) == seq![
        groups[m],
    ] by {
        assert(inp[n + m] == groups[m]);
        assert(inp.to_multiset().count(groups[m]) > 0);
        assert(out1.to_multiset().count(groups[m]) > 0);
        assert(out1.contains(groups[m]));
        let p = choose|p: int| 0 <= p < out1.len() && out1[p] == groups[m];
        assert forall|j: int| 0 <= j < out1.len() && j != p implies !(#[trigger] out1[j].compact_key
            == Some(ks[m])) by {
            if out1[j].compact_key == Some(ks[m]) {
                if j < p {
                    assert(out1[j].compact_key != out1[p].compact_key);
                } else {
                    assert(out1[p].compact_key != out1[j].compact_key);
                }
            }
        }
        lemma_filter_single(out1, |s: ShortcutView| s.compact_key == Some(ks[m]), p);
    }
    let labels2 = group_labels(loader, ks, out1);
    assert forall|m: int| 0 <= m < ks.len() implies #[trigger] group_rows(ks, out1, labels2)[m]
        == groups[m] by {
        let g = ks[m];
        let one = seq![groups[m]];
        assert(members(out1, g) == one);
        assert(member_keys(one) =~= seq![groups[m].keys]);
        assert(members(vis, g).len() > 0);
        lone_key_merges_to_itself(groups[m].keys);
        assert(one.drop_last() =~= Seq::<ShortcutView>::empty());
        assert(first_command(Seq::<ShortcutView>::empty()) is None);
        assert(first_command(one) == groups[m].command);
        lemma_label_settles(loader, g, members(vis, g)[0].label);
        lemma_icon_settles(g, members(vis, g)[0].icon);
    }
    assert(group_rows(ks, out1, labels2) =~= groups);
    let singles2 = single_rows(out1);
    assert(compact_rows(ks, out1, loader) == singles2 + groups);
    // The second overview sorts rows that sort like the first.
    assert forall|z: ShortcutView| #[trigger] peers(singles2 + groups, z) == peers(out1, z) by {
        let sp = |y: ShortcutView| same_place(y, z);
        let none = |s: ShortcutView| s.compact_key is None;
        Seq::filter_distributes_over_add(singles, groups, sp);
        Seq::filter_distributes_over_add(singles2, groups, sp);
        assert(peers(out1, z) == peers(inp, z));
        lemma_filter_commute(out1, none, sp);
        let ps = peers(singles, z);
        let pg = peers(groups, z);
        Seq::filter_distributes_over_add(ps, pg, none);
        assert forall|i: int| 0 <= i < ps.len() implies none(#[trigger] ps[i]) by {
            assert(ps.contains(ps[i]));
            lemma_filter_member(singles, sp, ps[i]);
            let k = choose|k: int| 0 <= k < singles.len() && singles[k] == ps[i];
        }
        lemma_filter_all(ps, none);
        assert forall|i: int| 0 <= i < pg.len() implies !none(#[trigger] pg[i]) by {
            assert(pg.contains(pg[i]));
            lemma_filter_member(groups, sp, pg[i]);
            let k = choose|k: int| 0 <= k < groups.len() && groups[k] == pg[i];
        }
        lemma_filter_none(pg, none);
        assert(peers(singles2, z) == ps);
    }
    assert forall|z: ShortcutView| #[trigger] peers(out2, z) == peers(out1, z) by {
        assert(peers(out2, z) == peers(singles2 + groups, z));
    }
    sorted_rows_unique(out2, out1);
}

/// The text names no hardware (XF86) key.
pub open spec fn no_xf(s: Seq<char>) -> bool {
    !contains_seq(s, "XF86"@)
}

proof fn lemma_xf_chars()
    ensures
        "XF86"@.len() == 4,
        "XF86"@[0] == 'X',
        forall|j: int| 0 <= j < 4 ==> "XF86"@[j] != ' ',
{
    reveal_strlit("XF86");
}

/// Text without the letter 'X' names no XF86 key.
proof fn lemma_no_x(s: Seq<char>)
    requires
        forall|i: int| 0 <= i < s.len() ==> s[i] != 'X',
    ensures
        no_xf(s),
{
    lemma_xf_chars();
    if contains_seq(s, "XF86"@) {
        let i = choose|i: int| occurs_at(s, "XF86"@, i);
        assert(s.subrange(i, i + 4)[0] == s[i]);
    }
}

proof fn lemma_xf_sub(s: Seq<char>, a: int, b: int)
    requires
        no_xf(s),
        0 <= a <= b <= s.len(),
    ensures
        no_xf(s.subrange(a, b)),
{
    lemma_xf_chars();
    let t = s.subrange(a, b);
    if contains_seq(t, "XF86"@) {
        let i = choose|i: int| occurs_at(t, "XF86"@, i);
        assert(s.subrange(a + i, a + i + 4) =~= t.subrange(i, i + 4));
        assert(occurs_at(s, "XF86"@, a + i));
    }
}

/// Joining two texts, with white space on one side of the seam, names no
/// XF86 key that neither names.
proof fn lemma_xf_concat(a: Seq<char>, b: Seq<char>)
    requires
        no_xf(a),
        no_xf(b),
        a.len() == 0 || b.len() == 0 || a.last() == ' ' || b[0] == ' ',
    ensures
        no_xf(a + b),
{
    lemma_xf_chars();
    let s = a + b;
    if contains_seq(s, "XF86"@) {
        let i = choose|i: int| occurs_at(s, "XF86"@, i);
        let w = s.subrange(i, i + 4);
        if i + 4 <= a.len() {
            assert(a.subrange(i, i + 4) =~= w);
            assert(occurs_at(a, "XF86"@, i));
        } else if i >= a.len() {
            assert(b.subrange(i - a.len(), i - a.len() + 4) =~= w);
            assert(occurs_at(b, "XF86"@, i - a.len()));
        } else {
            assert(w[a.len() - 1 - i] == s[a.len() - 1]);
            assert(w[a.len() - i] == s[a.len() as int]);
        }
    }
}

proof fn lemma_xf_trim(s: Seq<char>)
    requires
        no_xf(s),
    ensures
        no_xf(trim_spec(s)),
{
    lemma_xf_trim_start(s);
    lemma_xf_trim_end(trim_start(s));
}

proof fn lemma_xf_trim_start(s: Seq<char>)
    requires
        no_xf(s),
    ensures
        no_xf(trim_start(s)),
    decreases s.len(),
{
    if s.len() > 0 {
        lemma_xf_sub(s, 1, s.len() as int);
        assert(s.drop_first() =~= s.subrange(1, s.len() as int));
        lemma_xf_trim_start(s.drop_first());
    }
}

proof fn lemma_xf_trim_end(s: Seq<char>)
    requires
        no_xf(s),
    ensures
        no_xf(trim_end(s)),
    decreases s.len(),
{
    if s.len() > 0 {
        lemma_xf_sub(s, 0, s.len() - 1);
        assert(s.drop_last() =~= s.subrange(0, s.len() - 1));
        lemma_xf_trim_end(s.drop_last());
    }
}

proof fn lemma_xf_split(s: Seq<char>, pat: Seq<char>)
    requires
        no_xf(s),
    ensures
        forall|i: int| 0 <= i < split_spec(s, pat).len() ==> no_xf(#[trigger] split_spec(s, pat)[i]),
    decreases s.len(),
{
    if !(pat.len() == 0 || crate::text::first_occ(s, pat) < 0) {
        crate::text::lemma_first_occ_from_range(s, pat, 0);
        let f = crate::text::first_occ(s, pat);
        lemma_xf_sub(s, 0, f);
        lemma_xf_sub(s, f + pat.len(), s.len() as int);
        assert(s.skip(f + pat.len()) =~= s.subrange(f + pat.len(), s.len() as int));
        lemma_xf_split(s.skip(f + pat.len()), pat);
        let rest = split_spec(s.skip(f + pat.len()), pat);
        assert forall|i: int| 0 <= i < split_spec(s, pat).len() implies no_xf(
            #[trigger] split_spec(s, pat)[i],
        ) by {
            if i > 0 {
                assert(split_spec(s, pat)[i] == rest[i - 1]);
            }
        }
    }
}

/// Joining texts with a separator that starts and ends with a space and
/// holds no 'X' names no XF86 key that no part names.
proof fn lemma_xf_join(parts: Seq<Seq<char>>, sep: Seq<char>)
    requires
        forall|i: int| 0 <= i < parts.len() ==> no_xf(#[trigger] parts[i]),
        sep.len() > 0,
        sep[0] == ' ',
        sep.last() == ' ',
        forall|i: int| 0 <= i < sep.len() ==> sep[i] != 'X',
    ensures
        no_xf(join_spec(parts, sep)),
    decreases parts.len(),
{
    if parts.len() == 0 {
        lemma_no_x(Seq::<char>::empty());
    } else if parts.len() > 1 {
        let init = parts.drop_last();
        assert forall|i: int| 0 <= i < init.len() implies no_xf(#[trigger] init[i]) by {
            assert(init[i] == parts[i]);
        }
        lemma_xf_join(init, sep);
        lemma_no_x(sep);
        lemma_xf_concat(join_spec(init, sep), sep);
        assert(parts.last() == parts[parts.len() - 1]);
        lemma_xf_concat(join_spec(init, sep) + sep, parts.last());
    }
}

proof fn lemma_xf_mods(k: Seq<char>)
    requires
        no_xf(k),
    ensures
        no_xf(mods_spec(k)),
{
    reveal_strlit(" + ");
    let raw = split_spec(k, " + "@);
    let parts = raw.map_values(|p: Seq<char>| trim_spec(p));
    lemma_xf_split(k, " + "@);
    if parts.len() > 1 {
        let t = parts.take(parts.len() - 1);
        assert forall|i: int| 0 <= i < t.len() implies no_xf(#[trigger] t[i]) by {
            assert(t[i] == trim_spec(raw[i]));
            lemma_xf_trim(raw[i]);
        }
        lemma_xf_join(t, " + "@);
    } else {
        lemma_no_x(Seq::<char>::empty());
    }
}

proof fn lemma_xf_fan(m: Seq<char>, body: Seq<char>)
    requires
        no_xf(m),
        no_xf(body),
    ensures
        no_xf(fan(m, body)),
{
    reveal_strlit(" + ");
    if m.len() > 0 {
        lemma_no_x(" + "@);
        lemma_xf_concat(m, " + "@);
        lemma_xf_concat(m + " + "@, body);
    }
}

proof fn lemma_xf_decimal(n: nat)
    ensures
        forall|i: int| 0 <= i < decimal(n).len() ==> #[trigger] decimal(n)[i] != 'X',
    decreases n,
{
    assert('X' as int == 88);
    if n >= 10 {
        lemma_xf_decimal(n / 10);
        let d = (n % 10) as nat;
        assert(digit_char(d) as int == d + 48);
        let pre = decimal(n / 10);
        assert(decimal(n) == pre.push(digit_char(d)));
        assert forall|i: int| 0 <= i < decimal(n).len() implies #[trigger] decimal(n)[i] != 'X' by {
            if i < pre.len() {
                assert(decimal(n)[i] == pre[i]);
            }
        }
    } else {
        assert(digit_char(n) as int == n + 48);
        assert(decimal(n) == seq![digit_char(n)]);
    }
}

proof fn lemma_uniq_from(ks: Seq<Seq<char>>, x: Seq<char>)
    requires
        uniq(ks).contains(x),
    ensures
        ks.contains(x),
    decreases ks.len(),
{
    if ks.len() > 0 {
        let prev = uniq(ks.drop_last());
        if prev.contains(x) {
            lemma_uniq_from(ks.drop_last(), x);
            let j = choose|j: int| 0 <= j < ks.drop_last().len() && ks.drop_last()[j] == x;
            assert(ks[j] == x);
        } else {
            assert(ks[ks.len() - 1] == x);
        }
    }
}

proof fn lemma_mods_where_from(ks: Seq<Seq<char>>, arrow: bool)
    requires
        first_mods_where(ks, arrow) is Some,
    ensures
        exists|j: int| 0 <= j < ks.len() && first_mods_where(ks, arrow).unwrap() == mods_spec(#[trigger] ks[j]),
    decreases ks.len(),
{
    if first_mods_where(ks.drop_last(), arrow) is Some {
        lemma_mods_where_from(ks.drop_last(), arrow);
        let j = choose|j: int| 0 <= j < ks.drop_last().len() && first_mods_where(ks.drop_last(), arrow).unwrap() == mods_spec(#[trigger] ks.drop_last()[j]);
        assert(ks[j] == ks.drop_last()[j]);
    } else {
        assert(ks[ks.len() - 1] == ks.last());
    }
}

proof fn lemma_scan_from(ks: Seq<Seq<char>>)
    requires
        number_scan(ks) matches Some((Some(_), _)),
    ensures
        exists|j: int| 0 <= j < ks.len() && number_scan(ks).unwrap().0.unwrap() == mods_spec(#[trigger] ks[j]),
    decreases ks.len(),
{
    let prev = number_scan(ks.drop_last());
    match prev {
        Some((Some(e), _)) => {
            lemma_scan_from(ks.drop_last());
            let j = choose|j: int| 0 <= j < ks.drop_last().len() && prev.unwrap().0.unwrap() == mods_spec(#[trigger] ks.drop_last()[j]);
            assert(ks[j] == ks.drop_last()[j]);
        },
        _ => {
            assert(ks[ks.len() - 1] == ks.last());
        },
    }
}

/// Merging keys that name no hardware (XF86) key gives keys that name
/// none, in direction families and in other groups alike.
pub proof fn merging_adds_no_xf86(ks: Seq<Seq<char>>)
    requires
        forall|i: int| 0 <= i < ks.len() ==> no_xf(#[trigger] ks[i]),
    ensures
        no_xf(merge_cardinal_spec(ks)),
        no_xf(merge_simple_spec(ks)),
{
    reveal_strlit("  /  ");
    reveal_strlit(" ");
    reveal_strlit(" … ");
    reveal_strlit("←↓↑→");
    let u = uniq(ks);
    assert forall|i: int| 0 <= i < u.len() implies no_xf(#[trigger] u[i]) by {
        assert(u.contains(u[i]));
        lemma_uniq_from(ks, u[i]);
    }
    lemma_xf_join(u, "  /  "@);
    // Direction families.
    if first_mods_where(ks, true) is Some {
        lemma_mods_where_from(ks, true);
        let j = choose|j: int| 0 <= j < ks.len() && first_mods_where(ks, true).unwrap() == mods_spec(#[trigger] ks[j]);
        lemma_xf_mods(ks[j]);
        lemma_no_x("←↓↑→"@);
        lemma_xf_fan(first_mods_where(ks, true).unwrap(), "←↓↑→"@);
    } else if first_mods_where(ks, false) is Some && letters_seen(ks).len() > 0 {
        lemma_mods_where_from(ks, false);
        let j = choose|j: int| 0 <= j < ks.len() && first_mods_where(ks, false).unwrap() == mods_spec(#[trigger] ks[j]);
        lemma_xf_mods(ks[j]);
        let ls = sort_by_rank(letters_seen(ks)).map_values(|c: char| seq![c]);
        assert forall|i: int| 0 <= i < ls.len() implies no_xf(#[trigger] ls[i]) by {
            lemma_xf_chars();
            assert(ls[i].len() == 1);
        }
        lemma_xf_join(ls, " "@);
        lemma_xf_fan(first_mods_where(ks, false).unwrap(), spaced(sort_by_rank(letters_seen(ks))));
    }
    // Other groups.
    if number_series_spec(u) is Some {
        let (m, nums) = number_scan(u).unwrap();
        lemma_scan_from(u);
        let j = choose|j: int| 0 <= j < u.len() && number_scan(u).unwrap().0.unwrap() == mods_spec(#[trigger] u[j]);
        lemma_xf_mods(u[j]);
        let lo = crate::keys::min_of(nums);
        let hi = crate::keys::max_of(nums);
        lemma_xf_decimal(lo as nat);
        lemma_xf_decimal(hi as nat);
        lemma_no_x(decimal(lo as nat));
        lemma_no_x(decimal(hi as nat));
        lemma_no_x(" … "@);
        lemma_xf_concat(decimal(lo as nat), " … "@);
        lemma_xf_concat(decimal(lo as nat) + " … "@, decimal(hi as nat));
        lemma_xf_fan(m.unwrap(), decimal(lo as nat) + " … "@ + decimal(hi as nat));
    }
}

/// Search matches anywhere: a row matches a non-empty (lower-case) search
/// exactly when the search text occurs, at any position, in the lower-cased
/// label or the lower-cased keys; the empty search matches every row.
pub proof fn search_matches_anywhere(q: Seq<char>, label: Seq<char>, keys: Seq<char>, i: int)
    ensures
        q.len() == 0 ==> matches_spec(q, label, keys),
        occurs_at(unicode_lower(label), q, i) ==> matches_spec(q, label, keys),
        occurs_at(unicode_lower(keys), q, i) ==> matches_spec(q, label, keys),
        matches_spec(q, label, keys) && q.len() > 0 ==> (exists|j: int|
            occurs_at(unicode_lower(label), q, j) || occurs_at(unicode_lower(keys), q, j)),
{
}

/// Every language of the picker is recognised in a locale: the language
/// tag of each code maps back to that code. And a locale language maps only
/// to a code of the picker, whose tag it is (Norwegian also accepts "nn"
/// and "no" besides its tag "nb").
pub proof fn locale_tags_round_trip(c: Seq<char>, t: Seq<char>)
    ensures
        lang_codes().contains(c) ==> lang_tag_spec(c) is Some && locale_to_our_spec(
            lang_tag_spec(c).unwrap(),
        ) == Some(c),
        locale_to_our_spec(t) matches Some(d) ==> lang_codes().contains(d) && (lang_tag_spec(d)
            == Some(t) || (d == "nor"@ && (t == "nn"@ || t == "no"@))),
{
    reveal_strlit("nor");
    reveal_strlit("eng");
    reveal_strlit("nld");
    reveal_strlit("fra");
    reveal_strlit("spa");
    reveal_strlit("deu");
    reveal_strlit("swe");
    reveal_strlit("dan");
    reveal_strlit("ita");
    reveal_strlit("nb");
    reveal_strlit("nn");
    reveal_strlit("no");
    reveal_strlit("en");
    reveal_strlit("nl");
    reveal_strlit("fr");
    reveal_strlit("es");
    reveal_strlit("de");
    reveal_strlit("sv");
    reveal_strlit("da");
    reveal_strlit("it");
    assert("nb"@.len() == 2 && "nb"@[0] == 'n' && "nb"@[1] == 'b');
    assert("nn"@.len() == 2 && "nn"@[0] == 'n' && "nn"@[1] == 'n');
    assert("no"@.len() == 2 && "no"@[0] == 'n' && "no"@[1] == 'o');
    assert("en"@.len() == 2 && "en"@[0] == 'e' && "en"@[1] == 'n');
    assert("nl"@.len() == 2 && "nl"@[0] == 'n' && "nl"@[1] == 'l');
    assert("fr"@.len() == 2 && "fr"@[0] == 'f' && "fr"@[1] == 'r');
    assert("es"@.len() == 2 && "es"@[0] == 'e' && "es"@[1] == 's');
    assert("de"@.len() == 2 && "de"@[0] == 'd' && "de"@[1] == 'e');
    assert("sv"@.len() == 2 && "sv"@[0] == 's' && "sv"@[1] == 'v');
    assert("da"@.len() == 2 && "da"@[0] == 'd' && "da"@[1] == 'a');
    assert("it"@.len() == 2 && "it"@[0] == 'i' && "it"@[1] == 't');
    assert("nor"@.len() == 3 && "nor"@[0] == 'n' && "nor"@[1] == 'o' && "nor"@[2] == 'r');
    assert("eng"@.len() == 3 && "eng"@[0] == 'e' && "eng"@[1] == 'n' && "eng"@[2] == 'g');
    assert("nld"@.len() == 3 && "nld"@[0] == 'n' && "nld"@[1] == 'l' && "nld"@[2] == 'd');
    assert("fra"@.len() == 3 && "fra"@[0] == 'f' && "fra"@[1] == 'r' && "fra"@[2] == 'a');
    assert("spa"@.len() == 3 && "spa"@[0] == 's' && "spa"@[1] == 'p' && "spa"@[2] == 'a');
    assert("deu"@.len() == 3 && "deu"@[0] == 'd' && "deu"@[1] == 'e' && "deu"@[2] == 'u');
    assert("swe"@.len() == 3 && "swe"@[0] == 's' && "swe"@[1] == 'w' && "swe"@[2] == 'e');
    assert("dan"@.len() == 3 && "dan"@[0] == 'd' && "dan"@[1] == 'a' && "dan"@[2] == 'n');
    assert("ita"@.len() == 3 && "ita"@[0] == 'i' && "ita"@[1] == 't' && "ita"@[2] == 'a');
    if lang_codes().contains(c) {
        let k = choose|k: int| 0 <= k < lang_codes().len() && lang_codes()[k] == c;
        assert(0 <= k < 9);
        if k == 0 {
            assert(c == "nor"@);
        } else if k == 1 {
            assert(c == "eng"@);
        } else if k == 2 {
            assert(c == "nld"@);
        } else if k == 3 {
            assert(c == "fra"@);
        } else if k == 4 {
            assert(c == "spa"@);
        } else if k == 5 {
            assert(c == "deu"@);
        } else if k == 6 {
            assert(c == "swe"@);
        } else if k == 7 {
            assert(c == "dan"@);
        } else {
            assert(c == "ita"@);
        }
    }
    if locale_to_our_spec(t) is Some {
        let d = locale_to_our_spec(t).unwrap();
        if d == "nor"@ {
            assert(lang_codes()[0] == d);
        } else if d == "eng"@ {
            assert(lang_codes()[1] == d);
        } else if d == "nld"@ {
            assert(lang_codes()[2] == d);
        } else if d == "fra"@ {
            assert(lang_codes()[3] == d);
        } else if d == "spa"@ {
            assert(lang_codes()[4] == d);
        } else if d == "deu"@ {
            assert(lang_codes()[5] == d);
        } else if d == "swe"@ {
            assert(lang_codes()[6] == d);
        } else if d == "dan"@ {
            assert(lang_codes()[7] == d);
        } else {
            assert(lang_codes()[8] == d);
        }
    }
}

/// The compact overview keeps every row that belongs to no group, is not
/// hidden there and names no hardware (XF86) key, as often as the full list
/// has it.
pub proof fn compact_overview_keeps_single_rows(
    out: Seq<ShortcutView>,
    full: Seq<ShortcutView>,
    loader: FluentLanguageLoader,
    s: ShortcutView,
)
    requires
        is_compact_overview(out, full, loader),
        s.compact_key is None,
        !s.compact_hide,
        !contains_seq(s.keys, "XF86"@),
    ensures
        out.to_multiset().count(s) == full.to_multiset().count(s),
        full.contains(s) ==> out.contains(s),
{
    broadcast use vstd::seq_lib::lemma_multiset_commutative;

    let ks = choose|ks: Seq<Seq<char>>| #[trigger]
        group_keys_of(ks, visible_rows(full)) && stable_sorted(out, compact_rows(ks, full, loader));
    let vis = visible_rows(full);
    let singles = single_rows(vis);
    let groups = group_rows(ks, vis, group_labels(loader, ks, vis));
    let inp = singles + groups;
    assert(compact_rows(ks, full, loader) == inp);
    stable_sort_permutes(out, inp);
    assert(!groups.contains(s)) by {
        if groups.contains(s) {
            let m = choose|m: int| 0 <= m < groups.len() && groups[m] == s;
        }
    }
    assert(kept(s));
    lemma_count_in_filter(full, |x: ShortcutView| kept(x), s);
    lemma_count_in_filter(vis, |x: ShortcutView| x.compact_key is None, s);
    assert(inp.to_multiset().count(s) == singles.to_multiset().count(s) + groups.to_multiset().count(s));
    if full.contains(s) {
        assert(full.to_multiset().count(s) > 0);
        assert(out.to_multiset().count(s) > 0);
    }
}

/// Moving or sending a window to a workspace is described as moving the
/// window, never as going to that workspace: for numbered, last, next and
/// previous workspaces the two actions read differently and form different
/// compact groups, while moving and sending read the same.
pub proof fn moving_a_window_is_not_switching_workspace(n: u8, m: u8, d: Option<Seq<char>>, e: Option<Seq<char>>)
    ensures
        describe_spec(Action::MoveToWorkspace(n), d) is Some,
        describe_spec(Action::Workspace(m), e) is Some,
        english(describe_spec(Action::MoveToWorkspace(n), d).unwrap().label) == "Move window to no."@,
        describe_spec(Action::MoveToWorkspace(n), d).unwrap().label == describe_spec(
            Action::SendToWorkspace(m),
            e,
        ).unwrap().label,
        describe_spec(Action::MoveToWorkspace(n), d).unwrap().label != describe_spec(
            Action::Workspace(m),
            e,
        ).unwrap().label,
        english(describe_spec(Action::MoveToWorkspace(n), d).unwrap().label) != english(
            describe_spec(Action::Workspace(m), e).unwrap().label,
        ),
        describe_spec(Action::MoveToWorkspace(n), d).unwrap().compact_key != describe_spec(
            Action::Workspace(m),
            e,
        ).unwrap().compact_key,
        english(describe_spec(Action::MoveToLastWorkspace, d).unwrap().label) != english(
            describe_spec(Action::LastWorkspace, e).unwrap().label,
        ),
        english(describe_spec(Action::MoveToNextWorkspace, d).unwrap().label) != english(
            describe_spec(Action::NextWorkspace, e).unwrap().label,
        ),
        english(describe_spec(Action::MoveToPreviousWorkspace, d).unwrap().label) != english(
            describe_spec(Action::PreviousWorkspace, e).unwrap().label,
        ),
{
    reveal_strlit("Move window to no.");
    reveal_strlit("Go to workspace 1–9");
    reveal_strlit("move_to_ws_num");
    reveal_strlit("workspace_num");
    reveal_strlit("Window to last workspace");
    reveal_strlit("Last workspace");
    reveal_strlit("Window to next workspace");
    reveal_strlit("Next workspace");
    reveal_strlit("Window to previous workspace");
    reveal_strlit("Previous workspace");
    assert("Move window to no."@[0] != "Go to workspace 1–9"@[0]);
    assert("move_to_ws_num"@[0] != "workspace_num"@[0]);
    assert("Window to last workspace"@[0] != "Last workspace"@[0]);
    assert("Window to next workspace"@[0] != "Next workspace"@[0]);
    assert("Window to previous workspace"@[0] != "Previous workspace"@[0]);
}

/// A label's translation is used whenever the loader has a non-empty
/// message for it, and its English text otherwise: a message label reads
/// its message; a label with an argument reads its (translated, else
/// English) format with "{}" filled by its (translated, else English) word;
/// a plain label reads as written.
pub proof fn labels_use_their_translation(
    loader: FluentLanguageLoader,
    k: Seq<char>,
    en: Seq<char>,
    wk: Seq<char>,
    wen: Seq<char>,
    text: Seq<char>,
)
    ensures
        localize_spec(loader, LabelView::Plain(text)) == text,
        localize_spec(loader, LabelView::Message(k, en)) == match lookup_spec(loader, k) {
            Some(t) => if t.len() > 0 {
                t
            } else {
                en
            },
            None => en,
        },
        ({
            let word = match lookup_spec(loader, wk) {
                Some(w) => if w.len() > 0 {
                    w
                } else {
                    wen
                },
                None => wen,
            };
            let format = match lookup_spec(loader, k) {
                Some(t) => if t.len() > 0 {
                    t
                } else {
                    en
                },
                None => en,
            };
            localize_spec(loader, LabelView::WithArg(k, en, wk, wen)) == replace_spec(
                format,
                "{}"@,
                word,
            )
        }),
{
}

/// Every group with a row the overview considers appears in the compact
/// overview, as a row carrying that group.
pub proof fn compact_overview_shows_every_group(
    out: Seq<ShortcutView>,
    full: Seq<ShortcutView>,
    loader: FluentLanguageLoader,
    g: Seq<char>,
)
    requires
        is_compact_overview(out, full, loader),
        members(visible_rows(full), g).len() > 0,
    ensures
        exists|i: int| 0 <= i < out.len() && out[i].compact_key == Some(g),
{
    let ks = choose|ks: Seq<Seq<char>>| #[trigger]
        group_keys_of(ks, visible_rows(full)) && stable_sorted(out, compact_rows(ks, full, loader));
    let vis = visible_rows(full);
    let singles = single_rows(vis);
    let groups = group_rows(ks, vis, group_labels(loader, ks, vis));
    let inp = singles + groups;
    assert(compact_rows(ks, full, loader) == inp);
    stable_sort_permutes(out, inp);
    let ms = members(vis, g);
    assert(ms.contains(ms[0]));
    lemma_filter_member(vis, |s: ShortcutView| s.compact_key == Some(g), ms[0]);
    let q = choose|q: int| 0 <= q < vis.len() && vis[q] == ms[0];
    assert(vis[q].compact_key == Some(g));
    assert(ks.contains(g));
    let m = choose|m: int| 0 <= m < ks.len() && ks[m] == g;
    let n = singles.len();
    assert(inp[n + m] == groups[m]);
    assert(inp.to_multiset().count(groups[m]) > 0);
    assert(out.to_multiset().count(groups[m]) > 0);
    assert(out.contains(groups[m]));
    let i = choose|i: int| 0 <= i < out.len() && out[i] == groups[m];
    assert(out[i].compact_key == Some(g));
}

/// Moving a window to another monitor is described as such, never as
/// switching monitors.
pub proof fn moving_a_window_is_not_switching_monitor(
    a: crate::describe::Direction,
    b: crate::describe::Direction,
    d: Option<Seq<char>>,
    e: Option<Seq<char>>,
)
    ensures
        english(describe_spec(Action::MoveToOutput(a), d).unwrap().label) != english(
            describe_spec(Action::SwitchOutput(b), e).unwrap().label,
        ),
        describe_spec(Action::MoveToOutput(a), d).unwrap().label == describe_spec(
            Action::SendToOutput(b),
            e,
        ).unwrap().label,
        describe_spec(Action::MoveToOutput(a), d).unwrap().compact_key != describe_spec(
            Action::SwitchOutput(b),
            e,
        ).unwrap().compact_key,
{
    reveal_strlit("To another monitor");
    reveal_strlit("Switch monitor");
    reveal_strlit("move_to_output");
    reveal_strlit("switch_output");
    assert("To another monitor"@[0] != "Switch monitor"@[0]);
    assert("move_to_output"@[0] != "switch_output"@[0]);
}

} // verus!
