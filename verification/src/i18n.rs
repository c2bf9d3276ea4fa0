//! UI languages and message lookup (Fluent).
//!
//! Message ids in `.ftl` use hyphens (`ui-title`); callers may pass either
//! `ui-title` or the dotted form `ui.title`.

use vstd::prelude::*;
use vstd::string::*;

use i18n_embed::fluent::FluentLanguageLoader;
use unic_langid::LanguageIdentifier;

use crate::text::{
    ascii_lower, replace, replace_spec, split, split_spec, str_eq, to_lowercase, trim, trim_spec,
    unicode_lower, views,
};

verus! {

broadcast use vstd::seq_lib::group_seq_properties;

#[verifier::external_type_specification]
#[verifier::external_body]
pub struct ExFluentLanguageLoader(FluentLanguageLoader);

#[verifier::external_type_specification]
#[verifier::external_body]
pub struct ExLanguageIdentifier(LanguageIdentifier);

/// The ids of the messages in the language bundles loaded into a loader
/// (of every loaded language, not only the selected ones).
///
/// A loader loads and selects languages through `&self` (its bundles and
/// selection sit behind an `ArcSwap` and a lock). This set, and the texts
/// below, are the loader's contents as they stand while a function of this
/// library runs on it; no function of this library loads or selects.
pub uninterp spec fn loader_message_ids(loader: FluentLanguageLoader) -> Set<Seq<char>>;

/// The texts a loader holds for its selected languages: each message id
/// that has a value in one of them, mapped to that value as the first such
/// language formats it (no arguments given). These are the contents as they
/// stand during a call (see `loader_message_ids`).
pub uninterp spec fn loader_texts(loader: FluentLanguageLoader) -> Map<Seq<char>, Seq<char>>;

/// The texts a loader holds for its selected languages formatted with one
/// argument: for an id that has a value in a selected language and an
/// argument text, that value as the first such language formats it with
/// `$arg` set to the argument. The contents as they stand during a call.
pub uninterp spec fn loader_arg_texts(loader: FluentLanguageLoader) -> Map<
    (Seq<char>, Seq<char>),
    Seq<char>,
>;

/// The text `FluentLanguageLoader::get` gives for an id that no selected
/// language has a value for.
pub open spec fn no_localization(id: Seq<char>) -> Seq<char> {
    "No localization for id: \""@ + id + "\""@
}

/// What `FluentLanguageLoader::get` gives for an id: its text in the
/// selected languages, else the "No localization" notice.
pub open spec fn loader_text(loader: FluentLanguageLoader, id: Seq<char>) -> Seq<char> {
    if loader_texts(loader).contains_key(id) {
        loader_texts(loader)[id]
    } else {
        no_localization(id)
    }
}

/// `FluentLanguageLoader::has`: whether any loaded bundle holds a message
/// with this id.
#[verifier::external_body]
fn loader_has(loader: &FluentLanguageLoader, id: &str) -> (r: bool)
    ensures
        r == loader_message_ids(*loader).contains(id@),
{
    loader.has(id)
}

/// `FluentLanguageLoader::get`: the message's value formatted in the first
/// selected language that has one; the "No localization" notice when none
/// has.
#[verifier::external_body]
fn loader_get(loader: &FluentLanguageLoader, id: &str) -> (r: String)
    ensures
        loader_texts(*loader).contains_key(id@) ==> r@ == loader_texts(*loader)[id@],
        !loader_texts(*loader).contains_key(id@) ==> r@ == no_localization(id@),
{
    loader.get(id)
}

/// What `FluentLanguageLoader::get_args` gives for an id and one argument:
/// the id's value formatted with `$arg`, else the "No localization" notice.
pub open spec fn loader_arg_text(loader: FluentLanguageLoader, id: Seq<char>, arg: Seq<char>) -> Seq<
    char,
> {
    if loader_texts(loader).contains_key(id) {
        loader_arg_texts(loader)[(id, arg)]
    } else {
        no_localization(id)
    }
}

/// `FluentLanguageLoader::get_args` with the single argument `arg`: the
/// message's value formatted with `$arg` in the first selected language that
/// has one; the "No localization" notice when none has.
#[verifier::external_body]
fn loader_get_args(loader: &FluentLanguageLoader, id: &str, arg: &str) -> (r: String)
    ensures
        loader_texts(*loader).contains_key(id@) ==> r@ == loader_arg_texts(*loader)[(id@, arg@)],
        !loader_texts(*loader).contains_key(id@) ==> r@ == no_localization(id@),
{
    let mut args = std::collections::HashMap::new();
    args.insert("arg", arg);
    loader.get_args(id, args)
}

/// An ASCII letter.
pub open spec fn is_ascii_letter(c: char) -> bool {
    ('a' <= c && c <= 'z') || ('A' <= c && c <= 'Z')
}

/// The language subtag of a language identifier, as its `language` field
/// prints it (`und` when it has none).
pub uninterp spec fn langid_language(id: LanguageIdentifier) -> Seq<char>;

/// `str::parse::<LanguageIdentifier>` (BCP 47 tag parsing): a tag that is a
/// lone language subtag of two or three ASCII letters parses; a tag of two
/// or three characters that parses is such a subtag, and the identifier's
/// language is it in lower case. Which longer tags parse, and what else the
/// identifier holds, is not stated.
#[verifier::external_body]
fn parse_langid(tag: &str) -> (r: Option<LanguageIdentifier>)
    ensures
        2 <= tag@.len() <= 3 && (forall|i: int| 0 <= i < tag@.len() ==> is_ascii_letter(#[trigger] tag@[i]))
            ==> r is Some,
        r matches Some(id) ==> (2 <= tag@.len() <= 3 ==> langid_language(id) == ascii_lower(tag@)),
{
    tag.parse::<LanguageIdentifier>().ok()
}

/// Language codes used in settings and the language picker.
pub const LANGS: [&'static str; 9] = ["nor", "eng", "nld", "fra", "spa", "deu", "swe", "dan", "ita"];

/// Native display names for the language picker, in the order of `LANGS`.
pub const LANG_NAMES: [&'static str; 9] = [
    "Norsk",
    "English",
    "Nederlands",
    "Français",
    "Español",
    "Deutsch",
    "Svenska",
    "Dansk",
    "Italiano",
];

/// The language codes, in picker order.
pub open spec fn lang_codes() -> Seq<Seq<char>> {
    seq!["nor"@, "eng"@, "nld"@, "fra"@, "spa"@, "deu"@, "swe"@, "dan"@, "ita"@]
}

fn lang_at(i: usize) -> (r: &'static str)
    requires
        i < 9,
    ensures
        r@ == lang_codes()[i as int],
{
    match i {
        0 => "nor",
        1 => "eng",
        2 => "nld",
        3 => "fra",
        4 => "spa",
        5 => "deu",
        6 => "swe",
        7 => "dan",
        _ => "ita",
    }
}

/// The language picker's choice at `index` when it differs from the current
/// one: the code to switch to; `None` for no change.
pub fn lang_choice(index: usize, current: &str) -> (r: Option<&'static str>)
    ensures
        r matches Some(c) ==> index < 9 && c@ == lang_codes()[index as int] && c@ != current@,
        r is None <==> (index >= 9 || lang_codes()[index as int] == current@),
{
    if index >= 9 {
        return None;
    }
    let c = lang_at(index);
    if str_eq(c, current) {
        None
    } else {
        Some(c)
    }
}

/// Position of a language code in the picker.
pub fn lang_index(lang: &str) -> (r: Option<usize>)
    ensures
        match r {
            Some(i) => i < 9 && lang_codes()[i as int] == lang@ && forall|j: int|
                0 <= j < i ==> lang_codes()[j] != lang@,
            None => !lang_codes().contains(lang@),
        },
{
    let mut i: usize = 0;
    while i < 9
        invariant
            i <= 9,
            forall|j: int| 0 <= j < i ==> lang_codes()[j] != lang@,
        decreases 9 - i,
    {
        if str_eq(lang_at(i), lang) {
            return Some(i);
        }
        i = i + 1;
    }
    assert forall|k: int| 0 <= k < 9 implies lang_codes()[k] != lang@ by {}
    None
}

/// A setting value read as a language code: trimmed, and one of the codes.
pub open spec fn parse_our_spec(raw: Seq<char>) -> Option<Seq<char>> {
    if lang_codes().contains(trim_spec(raw)) {
        Some(trim_spec(raw))
    } else {
        None
    }
}

/// The language code a setting value names, if any.
pub fn parse_our(raw: &str) -> (r: Option<&'static str>)
    ensures
        match r {
            Some(c) => parse_our_spec(raw@) == Some(c@),
            None => parse_our_spec(raw@) is None,
        },
{
    let code = trim(raw);
    match lang_index(code) {
        Some(i) => {
            let c = lang_at(i);
            assert(lang_codes().contains(code@));
            Some(c)
        },
        None => None,
    }
}

/// The BCP 47 tag of a language code.
pub open spec fn lang_tag_spec(code: Seq<char>) -> Option<Seq<char>> {
    if code == "eng"@ {
        Some("en"@)
    } else if code == "nor"@ {
        Some("nb"@)
    } else if code == "nld"@ {
        Some("nl"@)
    } else if code == "fra"@ {
        Some("fr"@)
    } else if code == "spa"@ {
        Some("es"@)
    } else if code == "deu"@ {
        Some("de"@)
    } else if code == "swe"@ {
        Some("sv"@)
    } else if code == "dan"@ {
        Some("da"@)
    } else if code == "ita"@ {
        Some("it"@)
    } else {
        None
    }
}

fn lang_tag(code: &str) -> (r: Option<&'static str>)
    ensures
        match r {
            Some(t) => lang_tag_spec(code@) == Some(t@),
            None => lang_tag_spec(code@) is None,
        },
{
    if str_eq(code, "eng") {
        Some("en")
    } else if str_eq(code, "nor") {
        Some("nb")
    } else if str_eq(code, "nld") {
        Some("nl")
    } else if str_eq(code, "fra") {
        Some("fr")
    } else if str_eq(code, "spa") {
        Some("es")
    } else if str_eq(code, "deu") {
        Some("de")
    } else if str_eq(code, "swe") {
        Some("sv")
    } else if str_eq(code, "dan") {
        Some("da")
    } else if str_eq(code, "ita") {
        Some("it")
    } else {
        None
    }
}

/// The language identifier Fluent selects for a language code; `None` for
/// an unknown code.
pub fn our_to_langid(code: &str) -> (r: Option<LanguageIdentifier>)
    ensures
        r is Some <==> lang_tag_spec(code@) is Some,
        r matches Some(id) ==> langid_language(id) == lang_tag_spec(code@).unwrap(),
{
    proof {
        reveal_strlit("en");
        reveal_strlit("nb");
        reveal_strlit("nl");
        reveal_strlit("fr");
        reveal_strlit("es");
        reveal_strlit("de");
        reveal_strlit("sv");
        reveal_strlit("da");
        reveal_strlit("it");
    }
    match lang_tag(code) {
        Some(tag) => {
            assert(tag@.len() == 2);
            assert(is_ascii_letter(tag@[0]) && is_ascii_letter(tag@[1]));
            assert(forall|i: int| 0 <= i < tag@.len() ==> is_ascii_letter(#[trigger] tag@[i]));
            assert(ascii_lower(tag@) =~= tag@);
            parse_langid(tag)
        },
        None => None,
    }
}

/// The language code of a locale's language part.
pub open spec fn locale_to_our_spec(code: Seq<char>) -> Option<Seq<char>> {
    if code == "nb"@ || code == "nn"@ || code == "no"@ {
        Some("nor"@)
    } else if code == "en"@ {
        Some("eng"@)
    } else if code == "nl"@ {
        Some("nld"@)
    } else if code == "fr"@ {
        Some("fra"@)
    } else if code == "es"@ {
        Some("spa"@)
    } else if code == "de"@ {
        Some("deu"@)
    } else if code == "sv"@ {
        Some("swe"@)
    } else if code == "da"@ {
        Some("dan"@)
    } else if code == "it"@ {
        Some("ita"@)
    } else {
        None
    }
}

pub fn locale_to_our(code: &str) -> (r: Option<&'static str>)
    ensures
        match r {
            Some(c) => locale_to_our_spec(code@) == Some(c@),
            None => locale_to_our_spec(code@) is None,
        },
{
    if str_eq(code, "nb") || str_eq(code, "nn") || str_eq(code, "no") {
        Some("nor")
    } else if str_eq(code, "en") {
        Some("eng")
    } else if str_eq(code, "nl") {
        Some("nld")
    } else if str_eq(code, "fr") {
        Some("fra")
    } else if str_eq(code, "es") {
        Some("spa")
    } else if str_eq(code, "de") {
        Some("deu")
    } else if str_eq(code, "sv") {
        Some("swe")
    } else if str_eq(code, "da") {
        Some("dan")
    } else if str_eq(code, "it") {
        Some("ita")
    } else {
        None
    }
}

/// The language part of a locale value: up to the first ':', then '.',
/// then '_', lower-cased ("nb_NO.UTF-8" gives "nb").
pub open spec fn locale_language(v: Seq<char>) -> Seq<char> {
    unicode_lower(split_spec(split_spec(split_spec(v, ":"@)[0], "."@)[0], "_"@)[0])
}

proof fn lemma_split_nonempty(s: Seq<char>, pat: Seq<char>)
    ensures
        split_spec(s, pat).len() > 0,
    decreases s.len(),
{
    reveal_with_fuel(split_spec, 2);
}

fn first_piece(s: &str, pat: &str) -> (r: String)
    requires
        pat@.len() > 0,
    ensures
        r@ == split_spec(s@, pat@)[0],
{
    proof {
        lemma_split_nonempty(s@, pat@);
    }
    let parts = split(s, pat);
    assert(views(parts@)[0] == parts@[0]@);
    parts[0].clone()
}

fn locale_code(v: &str) -> (r: String)
    ensures
        r@ == locale_language(v@),
{
    proof {
        reveal_strlit(":");
        reveal_strlit(".");
        reveal_strlit("_");
    }
    let a = first_piece(v, ":");
    let b = first_piece(a.as_str(), ".");
    let c = first_piece(b.as_str(), "_");
    to_lowercase(c.as_str())
}

/// The UI language the locale variables (LC_ALL, LC_MESSAGES, LANG,
/// LANGUAGE, in that order) name: that of the first set, non-empty one whose
/// language has a code; `None` when none has.
pub open spec fn locale_lang_spec(vars: Seq<Option<Seq<char>>>) -> Option<Seq<char>>
    decreases vars.len(),
{
    if vars.len() == 0 {
        None
    } else {
        match vars[0] {
            Some(v) => if v.len() > 0 && locale_to_our_spec(locale_language(v)) is Some {
                locale_to_our_spec(locale_language(v))
            } else {
                locale_lang_spec(vars.drop_first())
            },
            None => locale_lang_spec(vars.drop_first()),
        }
    }
}

/// The UI language of the locale variables; English when none is recognised.
pub open spec fn lang_from_locale_spec(vars: Seq<Option<Seq<char>>>) -> Seq<char> {
    match locale_lang_spec(vars) {
        Some(l) => l,
        None => "eng"@,
    }
}

pub open spec fn opt_views(vars: Seq<Option<String>>) -> Seq<Option<Seq<char>>> {
    vars.map_values(
        |o: Option<String>|
            match o {
                Some(s) => Some(s@),
                None => None,
            },
    )
}

pub open spec fn opt_static_view(o: Option<&'static str>) -> Option<Seq<char>> {
    match o {
        Some(s) => Some(s@),
        None => None,
    }
}

/// The UI language the locale variables name, if any is recognised.
pub fn locale_lang(vars: &Vec<Option<String>>) -> (r: Option<&'static str>)
    ensures
        opt_static_view(r) == locale_lang_spec(opt_views(vars@)),
{
    let n = vars.len();
    let mut i: usize = 0;
    while i < n
        invariant
            n == vars@.len(),
            i <= n,
            locale_lang_spec(opt_views(vars@)) == locale_lang_spec(
                opt_views(vars@).skip(i as int),
            ),
        decreases n - i,
    {
        let ghost rest = opt_views(vars@).skip(i as int);
        assert(rest.drop_first() =~= opt_views(vars@).skip(i + 1));
        assert(rest[0] == opt_views(vars@)[i as int]);
        match &vars[i] {
            Some(v) => {
                if v.unicode_len() > 0 {
                    let code = locale_code(v.as_str());
                    match locale_to_our(code.as_str()) {
                        Some(l) => {
                            return Some(l);
                        },
                        None => {},
                    }
                }
            },
            None => {},
        }
        i = i + 1;
    }
    assert(opt_views(vars@).skip(n as int).len() == 0);
    None
}

/// The UI language the locale variables ask for; English when none is
/// recognised.
pub fn lang_from_locale(vars: &Vec<Option<String>>) -> (r: &'static str)
    ensures
        r@ == lang_from_locale_spec(opt_views(vars@)),
{
    match locale_lang(vars) {
        Some(l) => l,
        None => "eng",
    }
}

/// The language to start with: the setting's code; else the language of a
/// recognised locale; else the code in the legacy language file; else
/// English.
pub open spec fn initial_lang_spec(
    preferred: Option<Seq<char>>,
    legacy: Option<Seq<char>>,
    vars: Seq<Option<Seq<char>>>,
) -> Seq<char> {
    if preferred is Some && parse_our_spec(preferred.unwrap()) is Some {
        parse_our_spec(preferred.unwrap()).unwrap()
    } else if locale_lang_spec(vars) is Some {
        locale_lang_spec(vars).unwrap()
    } else if legacy is Some && parse_our_spec(legacy.unwrap()) is Some {
        parse_our_spec(legacy.unwrap()).unwrap()
    } else {
        "eng"@
    }
}

pub fn initial_lang(
    preferred: Option<&str>,
    legacy: Option<&str>,
    vars: &Vec<Option<String>>,
) -> (r: &'static str)
    ensures
        r@ == initial_lang_spec(
            match preferred {
                Some(p) => Some(p@),
                None => None,
            },
            match legacy {
                Some(l) => Some(l@),
                None => None,
            },
            opt_views(vars@),
        ),
{
    match preferred {
        Some(p) => match parse_our(p) {
            Some(c) => {
                return c;
            },
            None => {},
        },
        None => {},
    }
    match locale_lang(vars) {
        Some(c) => {
            return c;
        },
        None => {},
    }
    match legacy {
        Some(l) => match parse_our(l) {
            Some(c) => {
                return c;
            },
            None => {},
        },
        None => {},
    }
    "eng"
}

/// The Fluent id of a key: dots become hyphens.
pub open spec fn fluent_id_spec(key: Seq<char>) -> Seq<char> {
    replace_spec(key, "."@, "-"@)
}

fn fluent_id(key: &str) -> (r: String)
    ensures
        r@ == fluent_id_spec(key@),
{
    proof {
        reveal_strlit(".");
    }
    replace(key, ".", "-")
}

/// A key has a message in the loader, under its Fluent id or as written.
pub open spec fn known(ids: Set<Seq<char>>, key: Seq<char>) -> bool {
    ids.contains(fluent_id_spec(key)) || ids.contains(key)
}

/// The message for a key, looked up under its Fluent id first, then as
/// written; `None` when the loader has neither.
pub open spec fn lookup_spec(loader: FluentLanguageLoader, key: Seq<char>) -> Option<Seq<char>> {
    let ids = loader_message_ids(loader);
    if ids.contains(fluent_id_spec(key)) {
        Some(loader_text(loader, fluent_id_spec(key)))
    } else if ids.contains(key) {
        Some(loader_text(loader, key))
    } else {
        None
    }
}

pub open spec fn opt_text_view(o: Option<String>) -> Option<Seq<char>> {
    match o {
        Some(t) => Some(t@),
        None => None,
    }
}

pub fn lookup(loader: &FluentLanguageLoader, key: &str) -> (r: Option<String>)
    ensures
        opt_text_view(r) == lookup_spec(*loader, key@),
        r is None <==> !known(loader_message_ids(*loader), key@),
{
    let id = fluent_id(key);
    if loader_has(loader, id.as_str()) {
        Some(loader_get(loader, id.as_str()))
    } else if !str_eq(key, id.as_str()) && loader_has(loader, key) {
        Some(loader_get(loader, key))
    } else {
        None
    }
}

/// A UI string: the message for the key, else the key itself.
pub open spec fn tr_spec(loader: FluentLanguageLoader, key: Seq<char>) -> Seq<char> {
    match lookup_spec(loader, key) {
        Some(t) => t,
        None => key,
    }
}

/// Resolve a UI string; the key itself when the loader has no message.
pub fn tr(loader: &FluentLanguageLoader, key: &str) -> (r: String)
    ensures
        r@ == tr_spec(*loader, key@),
        !known(loader_message_ids(*loader), key@) ==> r@ == key@,
{
    match lookup(loader, key) {
        Some(t) => t,
        None => String::from_str(key),
    }
}

/// A string with one `{ $arg }` placeholder: with a message under the
/// Fluent id, the loader's text for it formatted with `arg`; without one,
/// the resolved string with its "{}" replaced by `arg`.
pub open spec fn tr_arg_spec(loader: FluentLanguageLoader, key: Seq<char>, arg: Seq<char>) -> Seq<
    char,
> {
    if loader_message_ids(loader).contains(fluent_id_spec(key)) {
        loader_arg_text(loader, fluent_id_spec(key), arg)
    } else {
        replace_spec(tr_spec(loader, key), "{}"@, arg)
    }
}

pub fn tr_arg(loader: &FluentLanguageLoader, key: &str, arg: &str) -> (r: String)
    ensures
        r@ == tr_arg_spec(*loader, key@, arg@),
        !known(loader_message_ids(*loader), key@) ==> r@ == replace_spec(key@, "{}"@, arg@),
{
    proof {
        reveal_strlit("{}");
    }
    let id = fluent_id(key);
    if !loader_has(loader, id.as_str()) {
        let t = tr(loader, key);
        return replace(t.as_str(), "{}", arg);
    }
    loader_get_args(loader, id.as_str(), arg)
}

/// A section heading: its translation, or the key itself when the
/// translation is missing, empty or the key again.
pub open spec fn heading_spec(loader: FluentLanguageLoader, key: Seq<char>) -> Seq<char> {
    let title = tr_spec(loader, key);
    if title.len() == 0 || title == key {
        key
    } else {
        title
    }
}

pub fn heading_title(loader: &FluentLanguageLoader, key: &str) -> (r: String)
    ensures
        r@ == heading_spec(*loader, key@),
        !known(loader_message_ids(*loader), key@) ==> r@ == key@,
{
    let title = tr(loader, key);
    if title.unicode_len() == 0 || str_eq(title.as_str(), key) {
        String::from_str(key)
    } else {
        title
    }
}

} // verus!
