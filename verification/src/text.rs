//! Character-level string operations with their meaning stated over
//! `Seq<char>`: equality, search, trimming, splitting, joining and
//! decimal numbers.

use vstd::prelude::*;
use vstd::string::*;

verus! {

/// True when `pat` occurs in `s` starting at index `i`.
pub open spec fn occurs_at(s: Seq<char>, pat: Seq<char>, i: int) -> bool {
    0 <= i && i + pat.len() <= s.len() && s.subrange(i, i + pat.len()) == pat
}

/// True when `pat` occurs anywhere in `s` (the empty pattern occurs everywhere).
pub open spec fn contains_seq(s: Seq<char>, pat: Seq<char>) -> bool {
    exists|i: int| #[trigger] occurs_at(s, pat, i)
}

/// Character equality of two string slices.
pub fn str_eq(a: &str, b: &str) -> (r: bool)
    ensures
        r == (a@ == b@),
{
    let n = a.unicode_len();
    let m = b.unicode_len();
    if n != m {
        return false;
    }
    let mut i: usize = 0;
    while i < n
        invariant
            n == a@.len(),
            m == b@.len(),
            n == m,
            i <= n,
            forall|j: int| 0 <= j < i ==> a@[j] == b@[j],
        decreases n - i,
    {
        if a.get_char(i) != b.get_char(i) {
            return false;
        }
        i = i + 1;
    }
    assert(a@ =~= b@);
    true
}

/// Whether `pat` occurs in `s` at character index `i`.
fn matches_at(s: &str, pat: &str, i: usize) -> (r: bool)
    ensures
        r == occurs_at(s@, pat@, i as int),
{
    let n = s.unicode_len();
    let m = pat.unicode_len();
    if m > n || i > n - m {
        return false;
    }
    let mut j: usize = 0;
    while j < m
        invariant
            n == s@.len(),
            m == pat@.len(),
            i + m <= n,
            j <= m,
            forall|k: int| 0 <= k < j ==> s@[i + k] == pat@[k],
        decreases m - j,
    {
        if s.get_char(i + j) != pat.get_char(j) {
            assert(s@.subrange(i as int, i + m)[j as int] != pat@[j as int]);
            return false;
        }
        j = j + 1;
    }
    assert(s@.subrange(i as int, i + m) =~= pat@);
    true
}

/// Substring search: does `pat` occur in `s`?
pub fn contains(s: &str, pat: &str) -> (r: bool)
    ensures
        r == contains_seq(s@, pat@),
{
    let n = s.unicode_len();
    let m = pat.unicode_len();
    if m > n {
        assert forall|i: int| !occurs_at(s@, pat@, i) by {}
        return false;
    }
    let last = n - m;
    let mut i: usize = 0;
    loop
        invariant
            n == s@.len(),
            m == pat@.len(),
            last == n - m,
            i <= last,
            forall|k: int| 0 <= k < i ==> !occurs_at(s@, pat@, k),
        ensures
            forall|k: int| 0 <= k <= last ==> !occurs_at(s@, pat@, k),
        decreases last - i,
    {
        if matches_at(s, pat, i) {
            return true;
        }
        if i == last {
            break;
        }
        i = i + 1;
    }
    assert forall|k: int| !occurs_at(s@, pat@, k) by {
        if 0 <= k <= last {
        }
    }
    false
}

/// Appends one character (`String::push`).
#[verifier::external_body]
pub(crate) fn push_char(s: &mut String, c: char)
    ensures
        final(s)@ == old(s)@.push(c),
{
    s.push(c);
}

/// The Unicode lowercase mapping of a string, as `str::to_lowercase` computes it.
pub uninterp spec fn unicode_lower(s: Seq<char>) -> Seq<char>;

/// The Unicode uppercase mapping of a string, as `str::to_uppercase` computes it.
pub uninterp spec fn unicode_upper(s: Seq<char>) -> Seq<char>;

/// `str::to_lowercase`: its result is named, not restated.
#[verifier::external_body]
pub(crate) fn to_lowercase(s: &str) -> (r: String)
    ensures
        r@ == unicode_lower(s@),
{
    s.to_lowercase()
}

/// `str::to_uppercase`: its result is named, not restated.
#[verifier::external_body]
pub(crate) fn to_uppercase(s: &str) -> (r: String)
    ensures
        r@ == unicode_upper(s@),
{
    s.to_uppercase()
}

/// The Unicode `White_Space` characters, which `char::is_whitespace` accepts.
pub open spec fn is_white(c: char) -> bool {
    ||| ('\u{9}' <= c && c <= '\u{d}')
    ||| c == ' '
    ||| c == '\u{85}'
    ||| c == '\u{a0}'
    ||| c == '\u{1680}'
    ||| ('\u{2000}' <= c && c <= '\u{200a}')
    ||| c == '\u{2028}'
    ||| c == '\u{2029}'
    ||| c == '\u{202f}'
    ||| c == '\u{205f}'
    ||| c == '\u{3000}'
}

pub fn is_whitespace(c: char) -> (r: bool)
    ensures
        r == is_white(c),
{
    ('\u{9}' <= c && c <= '\u{d}') || c == ' ' || c == '\u{85}' || c == '\u{a0}' || c == '\u{1680}'
        || ('\u{2000}' <= c && c <= '\u{200a}') || c == '\u{2028}' || c == '\u{2029}' || c
        == '\u{202f}' || c == '\u{205f}' || c == '\u{3000}'
}

/// `s` without its leading white space.
pub open spec fn trim_start(s: Seq<char>) -> Seq<char>
    decreases s.len(),
{
    if s.len() > 0 && is_white(s[0]) {
        trim_start(s.drop_first())
    } else {
        s
    }
}

/// `s` without its trailing white space.
pub open spec fn trim_end(s: Seq<char>) -> Seq<char>
    decreases s.len(),
{
    if s.len() > 0 && is_white(s.last()) {
        trim_end(s.drop_last())
    } else {
        s
    }
}

/// `s` without leading and trailing white space (`str::trim`).
pub open spec fn trim_spec(s: Seq<char>) -> Seq<char> {
    trim_end(trim_start(s))
}

/// `str::trim`: strips white space at both ends.
pub fn trim(s: &str) -> (r: &str)
    ensures
        r@ == trim_spec(s@),
{
    let n = s.unicode_len();
    let mut a: usize = 0;
    assert(s@.subrange(0, n as int) =~= s@);
    while a < n && is_whitespace(s.get_char(a))
        invariant
            n == s@.len(),
            a <= n,
            trim_start(s@) == trim_start(s@.subrange(a as int, n as int)),
        decreases n - a,
    {
        assert(s@.subrange(a as int, n as int).drop_first() =~= s@.subrange(a + 1, n as int));
        a = a + 1;
    }
    assert(trim_start(s@) == s@.subrange(a as int, n as int));
    let mut b: usize = n;
    while b > a && is_whitespace(s.get_char(b - 1))
        invariant
            n == s@.len(),
            a <= b <= n,
            trim_spec(s@) == trim_end(s@.subrange(a as int, b as int)),
        decreases b - a,
    {
        assert(s@.subrange(a as int, b as int).drop_last() =~= s@.subrange(a as int, b - 1));
        b = b - 1;
    }
    s.substring_char(a, b)
}

/// Splitting at runs of white space, keeping the non-empty pieces
/// (`str::split_whitespace`); `cur` is the piece read so far.
pub open spec fn words_from(s: Seq<char>, cur: Seq<char>) -> Seq<Seq<char>>
    decreases s.len(),
{
    if s.len() == 0 {
        if cur.len() > 0 {
            seq![cur]
        } else {
            seq![]
        }
    } else if is_white(s[0]) {
        (if cur.len() > 0 {
            seq![cur]
        } else {
            seq![]
        }) + words_from(s.drop_first(), seq![])
    } else {
        words_from(s.drop_first(), cur.push(s[0]))
    }
}

/// The white-space separated words of `s`.
pub open spec fn words(s: Seq<char>) -> Seq<Seq<char>> {
    words_from(s, seq![])
}

/// The views of a vector of strings.
pub open spec fn views(v: Seq<String>) -> Seq<Seq<char>> {
    v.map_values(|x: String| x@)
}

/// `str::split_whitespace`, collected into owned strings.
pub fn split_whitespace(s: &str) -> (r: Vec<String>)
    ensures
        views(r@) == words(s@),
{
    let n = s.unicode_len();
    let mut out: Vec<String> = Vec::new();
    let mut cur = String::new();
    let mut i: usize = 0;
    assert(s@.subrange(0, n as int) =~= s@);
    assert(views(out@) =~= Seq::<Seq<char>>::empty());
    assert(cur@ =~= Seq::<char>::empty());
    while i < n
        invariant
            n == s@.len(),
            i <= n,
            words(s@) == views(out@) + words_from(s@.subrange(i as int, n as int), cur@),
        decreases n - i,
    {
        let c = s.get_char(i);
        let ghost rest = s@.subrange(i as int, n as int);
        assert(rest.drop_first() =~= s@.subrange(i + 1, n as int));
        if is_whitespace(c) {
            if cur.unicode_len() > 0 {
                let ghost before = views(out@);
                out.push(cur);
                assert(views(out@) =~= before + seq![cur@]);
            }
            cur = String::new();
        } else {
            push_char(&mut cur, c);
        }
        i = i + 1;
    }
    if cur.unicode_len() > 0 {
        let ghost before = views(out@);
        out.push(cur);
        assert(views(out@) =~= before + seq![cur@]);
    }
    assert(views(out@) =~= words(s@));
    out
}

/// Index of the leftmost occurrence of `pat` in `s` at or after `i`, or -1.
pub open spec fn first_occ_from(s: Seq<char>, pat: Seq<char>, i: int) -> int
    decreases s.len() - i,
{
    if i < 0 || i + pat.len() > s.len() {
        -1
    } else if occurs_at(s, pat, i) {
        i
    } else {
        proof {
            if pat.len() == 0 {
                assert(s.subrange(i, i) =~= pat);
            }
        }
        first_occ_from(s, pat, i + 1)
    }
}

/// Index of the leftmost occurrence of `pat` in `s`, or -1.
pub open spec fn first_occ(s: Seq<char>, pat: Seq<char>) -> int {
    first_occ_from(s, pat, 0)
}

/// Index of the rightmost occurrence of `pat` in `s` at or before `i`, or -1.
pub open spec fn last_occ_upto(s: Seq<char>, pat: Seq<char>, i: int) -> int
    decreases i + 1,
{
    if i < 0 {
        -1
    } else if occurs_at(s, pat, i) {
        i
    } else {
        last_occ_upto(s, pat, i - 1)
    }
}

/// Index of the rightmost occurrence of `pat` in `s`, or -1.
pub open spec fn last_occ(s: Seq<char>, pat: Seq<char>) -> int {
    last_occ_upto(s, pat, s.len() - pat.len())
}

pub proof fn lemma_first_occ_from_range(s: Seq<char>, pat: Seq<char>, i: int)
    requires
        0 <= i,
    ensures
        first_occ_from(s, pat, i) == -1 || (i <= first_occ_from(s, pat, i) && occurs_at(
            s,
            pat,
            first_occ_from(s, pat, i),
        )),
        first_occ_from(s, pat, i) == -1 ==> forall|k: int| i <= k ==> !occurs_at(s, pat, k),
        forall|k: int| i <= k < first_occ_from(s, pat, i) ==> !occurs_at(s, pat, k),
    decreases s.len() - i,
{
    if i + pat.len() > s.len() {
    } else if occurs_at(s, pat, i) {
    } else {
        if pat.len() == 0 {
            assert(s.subrange(i, i) =~= pat);
        }
        lemma_first_occ_from_range(s, pat, i + 1);
    }
}

pub proof fn lemma_last_occ_upto_range(s: Seq<char>, pat: Seq<char>, i: int)
    ensures
        last_occ_upto(s, pat, i) == -1 || (0 <= last_occ_upto(s, pat, i) <= i && occurs_at(
            s,
            pat,
            last_occ_upto(s, pat, i),
        )),
        forall|k: int| last_occ_upto(s, pat, i) < k <= i ==> !occurs_at(s, pat, k),
    decreases i + 1,
{
    if i >= 0 && !occurs_at(s, pat, i) {
        lemma_last_occ_upto_range(s, pat, i - 1);
    }
}

/// Leftmost occurrence of `pat` in `s` (`str::find`), as a character index.
pub fn find(s: &str, pat: &str) -> (r: Option<usize>)
    ensures
        match r {
            Some(p) => p as int == first_occ(s@, pat@) && p + pat@.len() <= s@.len(),
            None => first_occ(s@, pat@) == -1,
        },
{
    let n = s.unicode_len();
    let m = pat.unicode_len();
    if m == 0 {
        assert(s@.subrange(0, 0) =~= pat@);
        return Some(0);
    }
    let mut i: usize = 0;
    loop
        invariant
            n == s@.len(),
            m == pat@.len(),
            m > 0,
            i <= n,
            first_occ(s@, pat@) == first_occ_from(s@, pat@, i as int),
        decreases n - i,
    {
        if m > n || i > n - m {
            return None;
        }
        if matches_at(s, pat, i) {
            return Some(i);
        }
        i = i + 1;
    }
}

/// Rightmost occurrence of `pat` in `s` (`str::rfind`), as a character index.
pub fn rfind(s: &str, pat: &str) -> (r: Option<usize>)
    ensures
        match r {
            Some(p) => p as int == last_occ(s@, pat@) && p + pat@.len() <= s@.len(),
            None => last_occ(s@, pat@) == -1,
        },
{
    let n = s.unicode_len();
    let m = pat.unicode_len();
    if m > n {
        return None;
    }
    let mut i: usize = n - m;
    loop
        invariant
            n == s@.len(),
            m == pat@.len(),
            m <= n,
            i <= n - m,
            last_occ(s@, pat@) == last_occ_upto(s@, pat@, i as int),
        decreases i,
    {
        if matches_at(s, pat, i) {
            return Some(i);
        }
        if i == 0 {
            assert(last_occ_upto(s@, pat@, -1) == -1);
            return None;
        }
        i = i - 1;
    }
}

/// The pieces of `s` between the non-overlapping occurrences of `pat`,
/// found from the left (`str::split` with a non-empty pattern).
pub open spec fn split_spec(s: Seq<char>, pat: Seq<char>) -> Seq<Seq<char>>
    decreases s.len(),
{
    if pat.len() == 0 || first_occ(s, pat) < 0 {
        seq![s]
    } else {
        proof {
            lemma_first_occ_from_range(s, pat, 0);
        }
        seq![s.subrange(0, first_occ(s, pat))] + split_spec(
            s.skip(first_occ(s, pat) + pat.len()),
            pat,
        )
    }
}

/// The text after the rightmost occurrence of `pat`, or all of `s`
/// (the first item of `str::rsplit`).
pub open spec fn after_last(s: Seq<char>, pat: Seq<char>) -> Seq<char> {
    if last_occ(s, pat) < 0 {
        s
    } else {
        s.skip(last_occ(s, pat) + pat.len())
    }
}

/// `s` split at every occurrence of the non-empty `pat`.
pub fn split(s: &str, pat: &str) -> (r: Vec<String>)
    requires
        pat@.len() > 0,
    ensures
        views(r@) == split_spec(s@, pat@),
{
    let m = pat.unicode_len();
    let mut out: Vec<String> = Vec::new();
    let mut rest: &str = s;
    assert(views(out@) =~= Seq::<Seq<char>>::empty());
    loop
        invariant
            m == pat@.len(),
            m > 0,
            split_spec(s@, pat@) == views(out@) + split_spec(rest@, pat@),
        decreases rest@.len(),
    {
        let n = rest.unicode_len();
        match find(rest, pat) {
            None => {
                let ghost before = views(out@);
                out.push(String::from_str(rest));
                assert(views(out@) =~= before + seq![rest@]);
                return out;
            },
            Some(p) => {
                let piece = String::from_str(rest.substring_char(0, p));
                let next = rest.substring_char(p + m, n);
                assert(next@ =~= rest@.skip(p + m));
                let ghost before = views(out@);
                out.push(piece);
                assert(views(out@) =~= before + seq![rest@.subrange(0, p as int)]);
                rest = next;
            },
        }
    }
}

/// The text after the rightmost occurrence of `pat` in `s`.
pub fn after_last_occurrence<'a>(s: &'a str, pat: &str) -> (r: &'a str)
    ensures
        r@ == after_last(s@, pat@),
{
    let n = s.unicode_len();
    match rfind(s, pat) {
        None => s,
        Some(p) => {
            let m = pat.unicode_len();
            let r = s.substring_char(p + m, n);
            assert(r@ =~= s@.skip(p + m));
            r
        },
    }
}

/// The parts joined with `sep` between consecutive parts (`[..].join(sep)`).
pub open spec fn join_spec(parts: Seq<Seq<char>>, sep: Seq<char>) -> Seq<char>
    decreases parts.len(),
{
    if parts.len() == 0 {
        seq![]
    } else if parts.len() == 1 {
        parts[0]
    } else {
        join_spec(parts.drop_last(), sep) + sep + parts.last()
    }
}

/// Joins the parts with `sep` between consecutive parts.
pub fn join(parts: &Vec<String>, sep: &str) -> (r: String)
    ensures
        r@ == join_spec(views(parts@), sep@),
{
    let mut out = String::new();
    let n = parts.len();
    let mut i: usize = 0;
    while i < n
        invariant
            n == parts@.len(),
            i <= n,
            out@ == join_spec(views(parts@).take(i as int), sep@),
        decreases n - i,
    {
        assert(views(parts@).take(i + 1).drop_last() =~= views(parts@).take(i as int));
        if i > 0 {
            out.append(sep);
        }
        out.append(parts[i].as_str());
        assert(views(parts@).take(i + 1).last() == parts@[i as int]@);
        i = i + 1;
    }
    assert(views(parts@).take(n as int) =~= views(parts@));
    out
}

/// `s` with every non-overlapping occurrence of the non-empty `pat`, found
/// from the left, replaced by `rep` (`str::replace`).
pub open spec fn replace_spec(s: Seq<char>, pat: Seq<char>, rep: Seq<char>) -> Seq<char>
    decreases s.len(),
{
    if pat.len() == 0 || first_occ(s, pat) < 0 {
        s
    } else {
        proof {
            lemma_first_occ_from_range(s, pat, 0);
        }
        s.subrange(0, first_occ(s, pat)) + rep + replace_spec(
            s.skip(first_occ(s, pat) + pat.len()),
            pat,
            rep,
        )
    }
}

/// A string without the character `c` has no occurrence of it.
pub proof fn lemma_first_occ_absent(s: Seq<char>, c: char)
    requires
        forall|i: int| 0 <= i < s.len() ==> s[i] != c,
    ensures
        first_occ(s, seq![c]) == -1,
{
    lemma_first_occ_from_range(s, seq![c], 0);
    if first_occ(s, seq![c]) != -1 {
        let k = first_occ(s, seq![c]);
        assert(s.subrange(k, k + 1)[0] == s[k]);
    }
}

/// Replacing every `c` by another character leaves no `c`.
pub proof fn lemma_replace_removes(s: Seq<char>, c: char, d: char)
    requires
        c != d,
    ensures
        forall|i: int| 0 <= i < replace_spec(s, seq![c], seq![d]).len() ==> #[trigger] replace_spec(
            s,
            seq![c],
            seq![d],
        )[i] != c,
    decreases s.len(),
{
    let pat = seq![c];
    lemma_first_occ_from_range(s, pat, 0);
    if first_occ(s, pat) < 0 {
        assert forall|i: int| 0 <= i < s.len() implies s[i] != c by {
            if s[i] == c {
                assert(s.subrange(i, i + 1) =~= pat);
                assert(occurs_at(s, pat, i));
            }
        }
    } else {
        let f = first_occ(s, pat);
        let rest = s.skip(f + 1);
        lemma_replace_removes(rest, c, d);
        let pre = s.subrange(0, f);
        assert forall|i: int| 0 <= i < pre.len() implies pre[i] != c by {
            if pre[i] == c {
                assert(s.subrange(i, i + 1) =~= pat);
                assert(occurs_at(s, pat, i));
            }
        }
        let r = replace_spec(s, pat, seq![d]);
        assert(r == pre + seq![d] + replace_spec(rest, pat, seq![d]));
        assert forall|i: int| 0 <= i < r.len() implies #[trigger] r[i] != c by {
            if i < pre.len() {
                assert(r[i] == pre[i]);
            } else if i == pre.len() {
                assert(r[i] == d);
            } else {
                assert(r[i] == replace_spec(rest, pat, seq![d])[i - pre.len() - 1]);
            }
        }
    }
}

/// Replaces every occurrence of the non-empty `pat` by `rep`.
pub fn replace(s: &str, pat: &str, rep: &str) -> (r: String)
    requires
        pat@.len() > 0,
    ensures
        r@ == replace_spec(s@, pat@, rep@),
{
    let m = pat.unicode_len();
    let mut out = String::new();
    let mut rest: &str = s;
    loop
        invariant
            m == pat@.len(),
            m > 0,
            replace_spec(s@, pat@, rep@) == out@ + replace_spec(rest@, pat@, rep@),
        decreases rest@.len(),
    {
        let n = rest.unicode_len();
        match find(rest, pat) {
            None => {
                out.append(rest);
                return out;
            },
            Some(p) => {
                out.append(rest.substring_char(0, p));
                out.append(rep);
                let next = rest.substring_char(p + m, n);
                assert(next@ =~= rest@.skip(p + m));
                rest = next;
            },
        }
    }
}

/// ASCII lowercase of one character (`char::to_ascii_lowercase`).
pub open spec fn ascii_lower_char(c: char) -> char {
    if 'A' <= c && c <= 'Z' {
        ((c as u32) + 32) as char
    } else {
        c
    }
}

/// ASCII lowercase of a string (`str::to_ascii_lowercase`).
pub open spec fn ascii_lower(s: Seq<char>) -> Seq<char> {
    s.map_values(|c: char| ascii_lower_char(c))
}

/// `char::from_u32`: `Some` exactly for Unicode scalar values.
#[verifier::external_body]
fn char_from_u32(i: u32) -> (r: Option<char>)
    ensures
        r == (if i <= 0xD7FF || (0xE000 <= i && i <= 0x10FFFF) {
            Some(i as char)
        } else {
            None
        }),
{
    char::from_u32(i)
}

fn lower_ascii_char(c: char) -> (r: char)
    ensures
        r == ascii_lower_char(c),
{
    if 'A' <= c && c <= 'Z' {
        let code: u32 = (c as u32) + 32;
        assert(0x61 <= code <= 0x7a);
        let r = char_from_u32(code);
        match r {
            Some(x) => x,
            None => c,
        }
    } else {
        c
    }
}

/// `str::to_ascii_lowercase`.
pub fn to_ascii_lowercase(s: &str) -> (r: String)
    ensures
        r@ == ascii_lower(s@),
{
    let n = s.unicode_len();
    let mut out = String::new();
    let mut i: usize = 0;
    while i < n
        invariant
            n == s@.len(),
            i <= n,
            out@ =~= ascii_lower(s@.take(i as int)),
        decreases n - i,
    {
        push_char(&mut out, lower_ascii_char(s.get_char(i)));
        assert(ascii_lower(s@.take(i + 1)) =~= ascii_lower(s@.take(i as int)).push(
            ascii_lower_char(s@[i as int]),
        ));
        i = i + 1;
    }
    assert(s@.take(n as int) =~= s@);
    out
}

pub open spec fn is_digit(c: char) -> bool {
    '0' <= c && c <= '9'
}

/// The number written by a string of decimal digits.
pub open spec fn digits_value(d: Seq<char>) -> nat
    decreases d.len(),
{
    if d.len() == 0 {
        0
    } else {
        digits_value(d.drop_last()) * 10 + ((d.last() as int) - ('0' as int)) as nat
    }
}

/// True when every character of `d` is a decimal digit.
pub open spec fn all_digits(d: Seq<char>) -> bool {
    forall|i: int| 0 <= i < d.len() ==> is_digit(#[trigger] d[i])
}

/// `s` without one leading `+`, if it has one.
pub open spec fn unsigned_part(s: Seq<char>) -> Seq<char> {
    if s.len() > 0 && s[0] == '+' {
        s.drop_first()
    } else {
        s
    }
}

/// What `str::parse::<u32>` accepts: an optional `+`, then one or more
/// decimal digits whose value fits in a `u32`.
pub open spec fn parse_u32_spec(s: Seq<char>) -> Option<u32> {
    let d = unsigned_part(s);
    if d.len() > 0 && all_digits(d) && digits_value(d) <= u32::MAX {
        Some(digits_value(d) as u32)
    } else {
        None
    }
}

proof fn lemma_digits_value_prefix(d: Seq<char>, k: int)
    requires
        0 <= k <= d.len(),
        forall|i: int| 0 <= i < d.len() ==> is_digit(#[trigger] d[i]),
    ensures
        digits_value(d.take(k)) <= digits_value(d),
    decreases d.len() - k,
{
    if k < d.len() {
        lemma_digits_value_prefix(d, k + 1);
        assert(d.take(k + 1).drop_last() =~= d.take(k));
    } else {
        assert(d.take(k) =~= d);
    }
}

/// `str::parse::<u32>`.
pub fn parse_u32(s: &str) -> (r: Option<u32>)
    ensures
        r == parse_u32_spec(s@),
{
    let n = s.unicode_len();
    let start: usize = if n > 0 && s.get_char(0) == '+' {
        1
    } else {
        0
    };
    let ghost d = unsigned_part(s@);
    assert(d =~= s@.subrange(start as int, n as int));
    if start >= n {
        return None;
    }
    let mut acc: u64 = 0;
    let mut i: usize = start;
    while i < n
        invariant
            n == s@.len(),
            start <= i <= n,
            d == s@.subrange(start as int, n as int),
            d == unsigned_part(s@),
            acc == digits_value(d.take(i - start)),
            acc <= u32::MAX,
            forall|j: int| 0 <= j < i - start ==> is_digit(#[trigger] d[j]),
        decreases n - i,
    {
        let c = s.get_char(i);
        assert(d[i - start] == c);
        if !('0' <= c && c <= '9') {
            assert(!is_digit(d[i - start]));
            assert(!all_digits(d));
            return None;
        }
        let digit: u64 = (c as u64) - ('0' as u64);
        assert(d.take(i - start + 1).drop_last() =~= d.take(i - start));
        acc = acc * 10 + digit;
        assert(d.take(i - start + 1).last() == c);
        assert(acc == digits_value(d.take(i - start + 1)));
        if acc > 0xffff_ffff {
            proof {
                if all_digits(d) {
                    lemma_digits_value_prefix(d, i - start + 1);
                }
            }
            return None;
        }
        i = i + 1;
    }
    assert(d.take(n - start) =~= d);
    assert(all_digits(d));
    Some(acc as u32)
}

/// The decimal digit character for `d < 10`.
pub open spec fn digit_char(d: nat) -> char {
    ((d + ('0' as nat)) as u32) as char
}

/// Decimal notation of `n`, as `u32`'s `Display` writes it.
pub open spec fn decimal(n: nat) -> Seq<char>
    decreases n,
{
    if n < 10 {
        seq![digit_char(n)]
    } else {
        decimal(n / 10).push(digit_char(n % 10))
    }
}

fn digit_to_char(d: u32) -> (c: char)
    requires
        d < 10,
    ensures
        c == digit_char(d as nat),
{
    let code: u32 = d + 48;
    match char_from_u32(code) {
        Some(c) => c,
        None => '0',
    }
}

/// `u32::to_string`.
pub fn u32_to_string(n: u32) -> (r: String)
    ensures
        r@ == decimal(n as nat),
    decreases n,
{
    if n < 10 {
        let mut s = String::new();
        push_char(&mut s, digit_to_char(n));
        assert(s@ =~= seq![digit_char(n as nat)]);
        s
    } else {
        let mut s = u32_to_string(n / 10);
        push_char(&mut s, digit_to_char(n % 10));
        s
    }
}

} // verus!
