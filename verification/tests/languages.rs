use std::borrow::Cow;

use cosmic_ext_applet_cheatsheet::i18n::{
    initial_lang, lang_from_locale, lang_index, locale_lang, locale_to_our, lookup, our_to_langid, parse_our,
    heading_title, tr, tr_arg, LANGS, LANG_NAMES,
};
use i18n_embed::fluent::FluentLanguageLoader;
use i18n_embed::{I18nAssets, LanguageLoader};

struct Ftl(&'static str);

impl I18nAssets for Ftl {
    fn get_files(&self, file_path: &str) -> Vec<Cow<'_, [u8]>> {
        if file_path == "en/cheatsheet.ftl" {
            vec![Cow::Borrowed(self.0.as_bytes())]
        } else {
            Vec::new()
        }
    }

    fn filenames_iter(&self) -> Box<dyn Iterator<Item = String> + '_> {
        Box::new(vec!["en/cheatsheet.ftl".to_string()].into_iter())
    }
}

fn loader_with(ftl: &'static str) -> FluentLanguageLoader {
    let loader = FluentLanguageLoader::new("cheatsheet", "en".parse().unwrap());
    loader.load_fallback_language(&Ftl(ftl)).unwrap();
    loader
}

#[test]
fn language_tables_line_up() {
    assert_eq!(LANGS.len(), LANG_NAMES.len());
    for (i, code) in LANGS.iter().enumerate() {
        assert_eq!(lang_index(code), Some(i));
    }
    assert_eq!(lang_index("xyz"), None);
    assert_eq!(lang_index("eng"), Some(1));
    assert_eq!(LANG_NAMES[1], "English");
}

#[test]
fn parse_our_trims_and_checks() {
    assert_eq!(parse_our(" deu\n"), Some("deu"));
    assert_eq!(parse_our("en"), None);
    assert_eq!(parse_our(""), None);
}

#[test]
fn locales_map_to_codes() {
    assert_eq!(locale_to_our("nn"), Some("nor"));
    assert_eq!(locale_to_our("no"), Some("nor"));
    assert_eq!(locale_to_our("en"), Some("eng"));
    assert_eq!(locale_to_our("pt"), None);
}

#[test]
fn locale_variables_in_order() {
    let vars = vec![None, Some(String::new()), Some("nb_NO.UTF-8".to_string()), Some("de_DE".to_string())];
    assert_eq!(lang_from_locale(&vars), "nor");
    let vars = vec![Some("pt_BR.UTF-8".to_string()), Some("FR_fr".to_string())];
    assert_eq!(lang_from_locale(&vars), "fra");
    let vars = vec![Some("sv:en".to_string())];
    assert_eq!(lang_from_locale(&vars), "swe");
    assert_eq!(lang_from_locale(&vec![Some("C".to_string())]), "eng");
    assert_eq!(lang_from_locale(&Vec::new()), "eng");
}

#[test]
fn initial_language_prefers_setting_then_locale_then_legacy() {
    let vars = vec![Some("da_DK.UTF-8".to_string())];
    assert_eq!(initial_lang(Some("ita"), Some("nld"), &vars), "ita");
    assert_eq!(initial_lang(Some("bogus"), Some("nld\n"), &vars), "dan");
    assert_eq!(initial_lang(None, Some("zz"), &vars), "dan");
    let unknown = vec![Some("C".to_string()), Some("pt_BR.UTF-8".to_string())];
    assert_eq!(initial_lang(None, Some("nld\n"), &unknown), "nld");
    assert_eq!(initial_lang(None, Some("zz"), &unknown), "eng");
    assert_eq!(initial_lang(None, None, &Vec::new()), "eng");
    assert_eq!(locale_lang(&unknown), None);
    assert_eq!(locale_lang(&vars), Some("dan"));
}

#[test]
fn language_ids_exist_for_every_code() {
    for code in LANGS {
        assert!(our_to_langid(code).is_some(), "{code}");
    }
    assert_eq!(our_to_langid("nor").unwrap().to_string(), "nb");
    assert_eq!(our_to_langid("eng").unwrap().language.as_str(), "en");
    assert_eq!(our_to_langid("deu").unwrap().language.as_str(), "de");
    assert!(our_to_langid("xx").is_none());
}

#[test]
fn tr_falls_back_to_the_key() {
    let loader = loader_with("ui-title = Keyboard shortcuts\nplain = As written\n");
    assert_eq!(tr(&loader, "ui.title"), "Keyboard shortcuts");
    assert_eq!(tr(&loader, "ui-title"), "Keyboard shortcuts");
    assert_eq!(tr(&loader, "plain"), "As written");
    assert_eq!(tr(&loader, "ui.missing"), "ui.missing");
    assert!(lookup(&loader, "ui.missing").is_none());
    assert!(lookup(&loader, "ui.title").is_some());
}

#[test]
fn tr_arg_fills_the_argument() {
    let loader = loader_with("greet = Hello { $arg }!\n");
    let t = tr_arg(&loader, "greet", "you");
    assert!(t.starts_with("Hello ") && t.contains("you") && t.ends_with('!'), "{t}");
    assert_ne!(tr_arg(&loader, "greet", "them"), t);
    assert_eq!(tr_arg(&loader, "Open {} now", "Files"), "Open Files now");
}

#[test]
fn headings_fall_back_to_the_key() {
    let loader = loader_with("sec-apps = Apper\nsec-same = sec.same\n");
    assert_eq!(heading_title(&loader, "sec.apps"), "Apper");
    assert_eq!(heading_title(&loader, "sec.missing"), "sec.missing");
    assert_eq!(heading_title(&loader, "sec.same"), "sec.same");
}


#[test]
fn dotted_and_hyphen_keys_read_the_same_message() {
    let loader = loader_with("ui-add = Add\n");
    assert_eq!(tr(&loader, "ui.add"), tr(&loader, "ui-add"));
    assert_eq!(tr(&loader, "ui.add"), "Add");
}
