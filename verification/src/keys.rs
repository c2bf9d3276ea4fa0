//! Key-combination strings: pretty-printing a binding, taking a combination
//! apart into modifiers and final key, and merging families of combinations
//! into one compact string ("Super + ←↓↑→", "Super + 1 … 9").

use vstd::prelude::*;
use vstd::string::*;

use crate::text::{
    after_last, after_last_occurrence, decimal, join, join_spec, parse_u32, parse_u32_spec,
    push_char, split, split_spec, str_eq, to_uppercase, trim, trim_spec, u32_to_string,
    unicode_upper, views,
};

verus! {

broadcast use vstd::seq_lib::group_seq_properties;

/// Display name of one key: arrows as arrow glyphs, a few renamed keys,
/// single characters upper-cased.
pub open spec fn key_name_spec(k: Seq<char>) -> Seq<char> {
    if k == "Left"@ {
        "←"@
    } else if k == "Right"@ {
        "→"@
    } else if k == "Up"@ {
        "↑"@
    } else if k == "Down"@ {
        "↓"@
    } else if k == "Escape"@ {
        "Esc"@
    } else if k == "Return"@ {
        "Enter"@
    } else if k == "grave"@ || k == "Grave"@ {
        "`"@
    } else if k == "space"@ || k == "Space"@ {
        "Space"@
    } else if k == "plus"@ || k == "Plus"@ {
        "+"@
    } else if k == "minus"@ || k == "Minus"@ {
        "−"@
    } else if k.len() == 1 {
        unicode_upper(k)
    } else {
        k
    }
}

/// Pretty-print a single key name.
pub fn key_name(k: &str) -> (r: String)
    ensures
        r@ == key_name_spec(k@),
{
    if str_eq(k, "Left") {
        String::from_str("←")
    } else if str_eq(k, "Right") {
        String::from_str("→")
    } else if str_eq(k, "Up") {
        String::from_str("↑")
    } else if str_eq(k, "Down") {
        String::from_str("↓")
    } else if str_eq(k, "Escape") {
        String::from_str("Esc")
    } else if str_eq(k, "Return") {
        String::from_str("Enter")
    } else if str_eq(k, "grave") || str_eq(k, "Grave") {
        String::from_str("`")
    } else if str_eq(k, "space") || str_eq(k, "Space") {
        String::from_str("Space")
    } else if str_eq(k, "plus") || str_eq(k, "Plus") {
        String::from_str("+")
    } else if str_eq(k, "minus") || str_eq(k, "Minus") {
        String::from_str("−")
    } else if k.unicode_len() == 1 {
        to_uppercase(k)
    } else {
        String::from_str(k)
    }
}

/// The keys of a binding as displayed: its text split at `+`, each part
/// trimmed and renamed, joined with " + " (empty stays empty).
pub open spec fn pretty_keys_spec(raw: Seq<char>) -> Seq<char> {
    if raw.len() == 0 {
        seq![]
    } else {
        join_spec(
            split_spec(raw, "+"@).map_values(|p: Seq<char>| key_name_spec(trim_spec(p))),
            " + "@,
        )
    }
}

/// Pretty-print a binding from its text form (e.g. "Super+Shift+Left").
pub fn pretty_keys(raw: &str) -> (r: String)
    ensures
        r@ == pretty_keys_spec(raw@),
{
    if raw.unicode_len() == 0 {
        return String::new();
    }
    proof {
        reveal_strlit("+");
    }
    let parts = split(raw, "+");
    let mut names: Vec<String> = Vec::new();
    let n = parts.len();
    let mut i: usize = 0;
    while i < n
        invariant
            n == parts@.len(),
            i <= n,
            views(names@) =~= views(parts@).take(i as int).map_values(
                |p: Seq<char>| key_name_spec(trim_spec(p)),
            ),
        decreases n - i,
    {
        let name = key_name(trim(parts[i].as_str()));
        let ghost before = views(names@);
        names.push(name);
        assert(views(names@) =~= before.push(name@));
        assert(views(parts@).take(i + 1) =~= views(parts@).take(i as int).push(parts@[i as int]@));
        i = i + 1;
    }
    assert(views(parts@).take(n as int) =~= views(parts@));
    join(&names, " + ")
}

/// The final key of a combination: the text after the last " + ", trimmed.
pub open spec fn key_token(keys: Seq<char>) -> Seq<char> {
    trim_spec(after_last(keys, " + "@))
}

fn last_key_token(keys: &str) -> (r: &str)
    ensures
        r@ == key_token(keys@),
{
    trim(after_last_occurrence(keys, " + "))
}

/// The modifiers of a combination: every part but the last, trimmed and
/// joined with " + " (empty when there is one part).
pub open spec fn mods_spec(keys: Seq<char>) -> Seq<char> {
    let parts = split_spec(keys, " + "@).map_values(|p: Seq<char>| trim_spec(p));
    if parts.len() <= 1 {
        seq![]
    } else {
        join_spec(parts.take(parts.len() - 1), " + "@)
    }
}

fn mods_prefix(keys: &str) -> (r: String)
    ensures
        r@ == mods_spec(keys@),
{
    proof {
        reveal_strlit(" + ");
    }
    let parts = split(keys, " + ");
    let mut trimmed: Vec<String> = Vec::new();
    let n = parts.len();
    let mut i: usize = 0;
    while i < n
        invariant
            n == parts@.len(),
            i <= n,
            views(trimmed@) =~= views(parts@).take(i as int).map_values(
                |p: Seq<char>| trim_spec(p),
            ),
        decreases n - i,
    {
        let t = String::from_str(trim(parts[i].as_str()));
        let ghost before = views(trimmed@);
        trimmed.push(t);
        assert(views(trimmed@) =~= before.push(t@));
        assert(views(parts@).take(i + 1) =~= views(parts@).take(i as int).push(parts@[i as int]@));
        i = i + 1;
    }
    assert(views(parts@).take(n as int) =~= views(parts@));
    if n <= 1 {
        return String::new();
    }
    let _ = trimmed.pop();
    assert(views(trimmed@) =~= views(parts@).map_values(|p: Seq<char>| trim_spec(p)).take(
        n - 1,
    ));
    join(&trimmed, " + ")
}

pub open spec fn is_arrow_spec(t: Seq<char>) -> bool {
    t == "←"@ || t == "→"@ || t == "↑"@ || t == "↓"@
}

fn is_arrow_token(t: &str) -> (r: bool)
    ensures
        r == is_arrow_spec(t@),
{
    str_eq(t, "←") || str_eq(t, "→") || str_eq(t, "↑") || str_eq(t, "↓")
}

pub open spec fn is_ascii_letter(c: char) -> bool {
    ('A' <= c && c <= 'Z') || ('a' <= c && c <= 'z')
}

/// A token of exactly one ASCII letter.
pub open spec fn is_letter_spec(t: Seq<char>) -> bool {
    t.len() == 1 && is_ascii_letter(t[0])
}

fn is_letter_token(t: &str) -> (r: bool)
    ensures
        r == is_letter_spec(t@),
{
    if t.unicode_len() != 1 {
        return false;
    }
    let c = t.get_char(0);
    ('A' <= c && c <= 'Z') || ('a' <= c && c <= 'z')
}

/// The modifiers of the first combination whose final key is an arrow
/// (`arrow`) or a single letter (`!arrow`).
pub open spec fn first_mods_where(ks: Seq<Seq<char>>, arrow: bool) -> Option<Seq<char>>
    decreases ks.len(),
{
    if ks.len() == 0 {
        None
    } else {
        match first_mods_where(ks.drop_last(), arrow) {
            Some(m) => Some(m),
            None => {
                let t = key_token(ks.last());
                if (arrow && is_arrow_spec(t)) || (!arrow && is_letter_spec(t)) {
                    Some(mods_spec(ks.last()))
                } else {
                    None
                }
            },
        }
    }
}

/// The distinct final-key letters, in order of first appearance.
pub open spec fn letters_seen(ks: Seq<Seq<char>>) -> Seq<char>
    decreases ks.len(),
{
    if ks.len() == 0 {
        seq![]
    } else {
        let prev = letters_seen(ks.drop_last());
        let t = key_token(ks.last());
        if is_letter_spec(t) && !prev.contains(t[0]) {
            prev.push(t[0])
        } else {
            prev
        }
    }
}

/// The distinct combinations, in order of first appearance.
pub open spec fn uniq(ks: Seq<Seq<char>>) -> Seq<Seq<char>>
    decreases ks.len(),
{
    if ks.len() == 0 {
        seq![]
    } else {
        let prev = uniq(ks.drop_last());
        if prev.contains(ks.last()) {
            prev
        } else {
            prev.push(ks.last())
        }
    }
}

/// Sort rank of a letter: H, J, K, L first (in that order), then the
/// others by code point.
pub open spec fn letter_rank(c: char) -> int {
    if c == 'H' {
        0
    } else if c == 'J' {
        1
    } else if c == 'K' {
        2
    } else if c == 'L' {
        3
    } else {
        100 + (c as int)
    }
}

/// `s` with `c` inserted after every letter of lower or equal rank.
pub open spec fn insert_by_rank(s: Seq<char>, c: char) -> Seq<char>
    decreases s.len(),
{
    if s.len() == 0 {
        seq![c]
    } else if letter_rank(c) < letter_rank(s[0]) {
        seq![c] + s
    } else {
        seq![s[0]] + insert_by_rank(s.drop_first(), c)
    }
}

/// The letters ordered by rank, equal ranks keeping their order.
pub open spec fn sort_by_rank(s: Seq<char>) -> Seq<char>
    decreases s.len(),
{
    if s.len() == 0 {
        seq![]
    } else {
        insert_by_rank(sort_by_rank(s.drop_last()), s.last())
    }
}

/// Letters written with one space between them ("H J K L").
pub open spec fn spaced(ls: Seq<char>) -> Seq<char> {
    join_spec(ls.map_values(|c: char| seq![c]), " "@)
}

/// `body` prefixed by the modifiers, when there are any.
pub open spec fn fan(mods: Seq<char>, body: Seq<char>) -> Seq<char> {
    if mods.len() == 0 {
        body
    } else {
        mods + " + "@ + body
    }
}

/// One string for a family of direction combinations: "mods + ←↓↑→" when
/// one of them ends in an arrow, else "mods + H J K L" from the letter ones,
/// else the distinct combinations joined with "  /  ".
pub open spec fn merge_cardinal_spec(ks: Seq<Seq<char>>) -> Seq<char> {
    match first_mods_where(ks, true) {
        Some(m) => fan(m, "←↓↑→"@),
        None => match first_mods_where(ks, false) {
            Some(lm) => if letters_seen(ks).len() > 0 {
                fan(lm, spaced(sort_by_rank(letters_seen(ks))))
            } else {
                join_spec(uniq(ks), "  /  "@)
            },
            None => join_spec(uniq(ks), "  /  "@),
        },
    }
}

proof fn lemma_insert_by_rank(s: Seq<char>, c: char, p: int)
    requires
        0 <= p <= s.len(),
        forall|k: int| 0 <= k < p ==> !(letter_rank(c) < letter_rank(#[trigger] s[k])),
        p == s.len() || letter_rank(c) < letter_rank(s[p]),
    ensures
        insert_by_rank(s, c) == s.insert(p, c),
    decreases s.len(),
{
    if s.len() == 0 {
        assert(s.insert(p, c) =~= seq![c]);
    } else if p == 0 {
        assert(s.insert(p, c) =~= seq![c] + s);
    } else {
        assert(!(letter_rank(c) < letter_rank(s[0])));
        let t = s.drop_first();
        assert forall|k: int| 0 <= k < p - 1 implies !(letter_rank(c) < letter_rank(#[trigger] t[k])) by {
            assert(t[k] == s[k + 1]);
        }
        lemma_insert_by_rank(t, c, p - 1);
        assert(s.insert(p, c) =~= seq![s[0]] + t.insert(p - 1, c));
    }
}

fn rank_of(c: char) -> (r: u32)
    ensures
        r as int == letter_rank(c),
{
    if c == 'H' {
        0
    } else if c == 'J' {
        1
    } else if c == 'K' {
        2
    } else if c == 'L' {
        3
    } else {
        100 + (c as u32)
    }
}

fn sorted_letters(ls: &Vec<char>) -> (r: Vec<char>)
    ensures
        r@ == sort_by_rank(ls@),
{
    let mut out: Vec<char> = Vec::new();
    let n = ls.len();
    let mut i: usize = 0;
    while i < n
        invariant
            n == ls@.len(),
            i <= n,
            out@ == sort_by_rank(ls@.take(i as int)),
        decreases n - i,
    {
        let c = ls[i];
        let rc = rank_of(c);
        let mut p: usize = 0;
        while p < out.len() && !(rc < rank_of(out[p]))
            invariant
                p <= out@.len(),
                rc as int == letter_rank(c),
                forall|k: int| 0 <= k < p ==> !(letter_rank(c) < letter_rank(#[trigger] out@[k])),
            decreases out@.len() - p,
        {
            p = p + 1;
        }
        proof {
            lemma_insert_by_rank(out@, c, p as int);
            assert(ls@.take(i + 1).drop_last() =~= ls@.take(i as int));
        }
        out.insert(p, c);
        i = i + 1;
    }
    assert(ls@.take(n as int) =~= ls@);
    out
}

fn spaced_letters(ls: &Vec<char>) -> (r: String)
    ensures
        r@ == spaced(ls@),
{
    let mut parts: Vec<String> = Vec::new();
    let n = ls.len();
    let mut i: usize = 0;
    while i < n
        invariant
            n == ls@.len(),
            i <= n,
            views(parts@) =~= ls@.take(i as int).map_values(|c: char| seq![c]),
        decreases n - i,
    {
        let mut one = String::new();
        push_char(&mut one, ls[i]);
        let ghost before = views(parts@);
        parts.push(one);
        assert(views(parts@) =~= before.push(one@));
        assert(one@ =~= seq![ls@[i as int]]);
        assert(ls@.take(i + 1) =~= ls@.take(i as int).push(ls@[i as int]));
        i = i + 1;
    }
    assert(ls@.take(n as int) =~= ls@);
    join(&parts, " ")
}

fn fan_exec(mods: &str, body: &str) -> (r: String)
    ensures
        r@ == fan(mods@, body@),
{
    if mods.unicode_len() == 0 {
        String::from_str(body)
    } else {
        let mut s = String::from_str(mods);
        s.append(" + ");
        s.append(body);
        s
    }
}

fn contains_string(v: &Vec<String>, x: &str) -> (r: bool)
    ensures
        r == views(v@).contains(x@),
{
    let n = v.len();
    let mut i: usize = 0;
    while i < n
        invariant
            n == v@.len(),
            i <= n,
            forall|k: int| 0 <= k < i ==> views(v@)[k] != x@,
        decreases n - i,
    {
        if str_eq(v[i].as_str(), x) {
            assert(views(v@)[i as int] == x@);
            return true;
        }
        i = i + 1;
    }
    false
}

pub(crate) fn uniq_exec(ks: &Vec<String>) -> (r: Vec<String>)
    ensures
        views(r@) == uniq(views(ks@)),
{
    let mut out: Vec<String> = Vec::new();
    let n = ks.len();
    let mut i: usize = 0;
    while i < n
        invariant
            n == ks@.len(),
            i <= n,
            views(out@) == uniq(views(ks@).take(i as int)),
        decreases n - i,
    {
        assert(views(ks@).take(i + 1).drop_last() =~= views(ks@).take(i as int));
        assert(views(ks@).take(i + 1).last() == ks@[i as int]@);
        if !contains_string(&out, ks[i].as_str()) {
            let k = ks[i].clone();
            let ghost before = views(out@);
            out.push(k);
            assert(views(out@) =~= before.push(k@));
        }
        i = i + 1;
    }
    assert(views(ks@).take(n as int) =~= views(ks@));
    out
}

fn contains_char(v: &Vec<char>, c: char) -> (r: bool)
    ensures
        r == v@.contains(c),
{
    let n = v.len();
    let mut i: usize = 0;
    while i < n
        invariant
            n == v@.len(),
            i <= n,
            forall|k: int| 0 <= k < i ==> v@[k] != c,
        decreases n - i,
    {
        if v[i] == c {
            return true;
        }
        i = i + 1;
    }
    false
}

/// One string for a family of direction combinations (see `merge_cardinal_spec`).
pub(crate) fn merge_cardinal_keys(ks: &Vec<String>) -> (r: String)
    ensures
        r@ == merge_cardinal_spec(views(ks@)),
{
    let mut arrow_mods: Option<String> = None;
    let mut letter_mods: Option<String> = None;
    let mut letters: Vec<char> = Vec::new();
    let n = ks.len();
    let mut i: usize = 0;
    while i < n
        invariant
            n == ks@.len(),
            i <= n,
            match arrow_mods {
                Some(m) => first_mods_where(views(ks@).take(i as int), true) == Some(m@),
                None => first_mods_where(views(ks@).take(i as int), true) is None,
            },
            match letter_mods {
                Some(m) => first_mods_where(views(ks@).take(i as int), false) == Some(m@),
                None => first_mods_where(views(ks@).take(i as int), false) is None,
            },
            letters@ == letters_seen(views(ks@).take(i as int)),
        decreases n - i,
    {
        let ghost pre = views(ks@).take(i as int);
        assert(views(ks@).take(i + 1).drop_last() =~= pre);
        assert(views(ks@).take(i + 1).last() == ks@[i as int]@);
        let tok = last_key_token(ks[i].as_str());
        if is_arrow_token(tok) {
            if arrow_mods.is_none() {
                arrow_mods = Some(mods_prefix(ks[i].as_str()));
            }
        } else if is_letter_token(tok) {
            if letter_mods.is_none() {
                letter_mods = Some(mods_prefix(ks[i].as_str()));
            }
            let c = tok.get_char(0);
            if !contains_char(&letters, c) {
                letters.push(c);
            }
        }
        assert(!(is_arrow_spec(tok@) && is_letter_spec(tok@))) by {
            reveal_strlit("←");
            reveal_strlit("→");
            reveal_strlit("↑");
            reveal_strlit("↓");
        }
        i = i + 1;
    }
    assert(views(ks@).take(n as int) =~= views(ks@));
    match arrow_mods {
        Some(m) => {
            return fan_exec(m.as_str(), "←↓↑→");
        },
        None => {},
    }
    match letter_mods {
        Some(m) => {
            if letters.len() > 0 {
                let sorted = sorted_letters(&letters);
                let body = spaced_letters(&sorted);
                return fan_exec(m.as_str(), body.as_str());
            }
        },
        None => {},
    }
    let u = uniq_exec(ks);
    join(&u, "  /  ")
}

/// `nums` with `n` added at the end unless it is already there.
pub open spec fn add_num(nums: Seq<u32>, n: u32) -> Seq<u32> {
    if nums.contains(n) {
        nums
    } else {
        nums.push(n)
    }
}

/// Reading a family of combinations as "modifiers + number": `None` when a
/// final key is not a number or the modifiers differ; otherwise the common
/// modifiers (if any combination was read) and the distinct numbers in order
/// of first appearance.
pub open spec fn number_scan(ks: Seq<Seq<char>>) -> Option<(Option<Seq<char>>, Seq<u32>)>
    decreases ks.len(),
{
    if ks.len() == 0 {
        Some((None, seq![]))
    } else {
        match number_scan(ks.drop_last()) {
            None => None,
            Some((m, nums)) => match parse_u32_spec(key_token(ks.last())) {
                None => None,
                Some(n) => {
                    let mk = mods_spec(ks.last());
                    match m {
                        None => Some((Some(mk), add_num(nums, n))),
                        Some(e) => if e == mk {
                            Some((Some(e), add_num(nums, n)))
                        } else {
                            None
                        },
                    }
                },
            },
        }
    }
}

pub open spec fn min_of(s: Seq<u32>) -> u32
    decreases s.len(),
{
    if s.len() <= 1 {
        s[0]
    } else if s.last() < min_of(s.drop_last()) {
        s.last()
    } else {
        min_of(s.drop_last())
    }
}

pub open spec fn max_of(s: Seq<u32>) -> u32
    decreases s.len(),
{
    if s.len() <= 1 {
        s[0]
    } else if s.last() > max_of(s.drop_last()) {
        s.last()
    } else {
        max_of(s.drop_last())
    }
}

/// "mods + lo … hi" for two or more combinations that differ only in a
/// number, when the numbers form a contiguous run or span 1 to 9.
pub open spec fn number_series_spec(ks: Seq<Seq<char>>) -> Option<Seq<char>> {
    if ks.len() < 2 {
        None
    } else {
        match number_scan(ks) {
            Some((Some(m), nums)) => {
                let lo = min_of(nums);
                let hi = max_of(nums);
                if nums.len() == hi - lo + 1 || (lo == 1 && hi == 9) {
                    Some(fan(m, decimal(lo as nat) + " … "@ + decimal(hi as nat)))
                } else {
                    None
                }
            },
            _ => None,
        }
    }
}

proof fn lemma_scan_nonempty(ks: Seq<Seq<char>>)
    requires
        ks.len() > 0,
        number_scan(ks) is Some,
    ensures
        number_scan(ks).unwrap().0 is Some,
        number_scan(ks).unwrap().1.len() > 0,
    decreases ks.len(),
{
    if ks.len() > 1 {
        lemma_scan_nonempty(ks.drop_last());
    }
}

fn contains_u32(v: &Vec<u32>, x: u32) -> (r: bool)
    ensures
        r == v@.contains(x),
{
    let n = v.len();
    let mut i: usize = 0;
    while i < n
        invariant
            n == v@.len(),
            i <= n,
            forall|k: int| 0 <= k < i ==> v@[k] != x,
        decreases n - i,
    {
        if v[i] == x {
            return true;
        }
        i = i + 1;
    }
    false
}

fn try_merge_number_series(ks: &Vec<String>) -> (r: Option<String>)
    ensures
        match r {
            Some(s) => number_series_spec(views(ks@)) == Some(s@),
            None => number_series_spec(views(ks@)) is None,
        },
{
    let n = ks.len();
    if n < 2 {
        return None;
    }
    let mut mods: Option<String> = None;
    let mut nums: Vec<u32> = Vec::new();
    let mut i: usize = 0;
    while i < n
        invariant
            n == ks@.len(),
            i <= n,
            number_scan(views(ks@).take(i as int)) == Some(
                (
                    match mods {
                        Some(m) => Some(m@),
                        None => None,
                    },
                    nums@,
                ),
            ),
        decreases n - i,
    {
        let ghost pre = views(ks@).take(i as int);
        assert(views(ks@).take(i + 1).drop_last() =~= pre);
        assert(views(ks@).take(i + 1).last() == ks@[i as int]@);
        let tok = last_key_token(ks[i].as_str());
        let num = match parse_u32(tok) {
            Some(v) => v,
            None => {
                proof {
                    lemma_scan_none_stays(views(ks@), i as int + 1);
                }
                assert(views(ks@).take(n as int) =~= views(ks@));
                return None;
            },
        };
        let m = mods_prefix(ks[i].as_str());
        match &mods {
            None => {
                mods = Some(m);
            },
            Some(existing) => {
                if !str_eq(existing.as_str(), m.as_str()) {
                    proof {
                        lemma_scan_none_stays(views(ks@), i as int + 1);
                    }
                    assert(views(ks@).take(n as int) =~= views(ks@));
                    return None;
                }
            },
        }
        if !contains_u32(&nums, num) {
            nums.push(num);
        }
        i = i + 1;
    }
    assert(views(ks@).take(n as int) =~= views(ks@));
    proof {
        lemma_scan_nonempty(views(ks@));
    }
    let mods = match mods {
        Some(m) => m,
        None => {
            return None;
        },
    };
    let mut lo: u32 = nums[0];
    let mut hi: u32 = nums[0];
    let len = nums.len();
    let mut j: usize = 1;
    assert(nums@.take(1).len() == 1);
    while j < len
        invariant
            len == nums@.len(),
            1 <= j <= len,
            lo == min_of(nums@.take(j as int)),
            hi == max_of(nums@.take(j as int)),
        decreases len - j,
    {
        assert(nums@.take(j + 1).drop_last() =~= nums@.take(j as int));
        if nums[j] < lo {
            lo = nums[j];
        }
        if nums[j] > hi {
            hi = nums[j];
        }
        j = j + 1;
    }
    assert(nums@.take(len as int) =~= nums@);
    if (len as u64) != (hi as u64) - (lo as u64) + 1 && !(lo == 1 && hi == 9) {
        return None;
    }
    let mut body = u32_to_string(lo);
    body.append(" … ");
    let hs = u32_to_string(hi);
    body.append(hs.as_str());
    Some(fan_exec(mods.as_str(), body.as_str()))
}

proof fn lemma_scan_none_stays(ks: Seq<Seq<char>>, k: int)
    requires
        0 <= k <= ks.len(),
        number_scan(ks.take(k)) is None,
    ensures
        number_scan(ks) is None,
    decreases ks.len() - k,
{
    if k < ks.len() {
        assert(ks.take(k + 1).drop_last() =~= ks.take(k));
        lemma_scan_none_stays(ks, k + 1);
    } else {
        assert(ks.take(k) =~= ks);
    }
}

/// One string for a family of combinations: the number series when there is
/// one, else the distinct combinations joined with "  /  ".
pub open spec fn merge_simple_spec(ks: Seq<Seq<char>>) -> Seq<char> {
    match number_series_spec(uniq(ks)) {
        Some(m) => m,
        None => join_spec(uniq(ks), "  /  "@),
    }
}

pub(crate) fn merge_simple_keys(ks: &Vec<String>) -> (r: String)
    ensures
        r@ == merge_simple_spec(views(ks@)),
{
    let u = uniq_exec(ks);
    match try_merge_number_series(&u) {
        Some(m) => m,
        None => join(&u, "  /  "),
    }
}

} // verus!
