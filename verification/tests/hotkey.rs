use text_macro::shortcut::{
    parse_shortcut_str, parse_words, startup_shortcut, str_to_code, Code, Modifiers, Shortcut,
};
use text_macro::store::AppSettings;
use text_macro::text::{split_plus, str_eq};

fn mods(control: bool, alt: bool, shift: bool, meta: bool) -> Modifiers {
    Modifiers { control, alt, shift, meta }
}

fn words(ws: &[&str]) -> Vec<String> {
    ws.iter().map(|w| w.to_string()).collect()
}

#[test]
fn split_plus_cuts_at_every_plus() {
    assert_eq!(split_plus("Ctrl+Shift+K"), words(&["Ctrl", "Shift", "K"]));
    assert_eq!(split_plus(""), words(&[""]));
    assert_eq!(split_plus("a++b"), words(&["a", "", "b"]));
    assert_eq!(split_plus("+"), words(&["", ""]));
    assert_eq!(split_plus("한+글"), words(&["한", "글"]));
}

#[test]
fn str_eq_compares_characters() {
    assert!(str_eq("space", "space"));
    assert!(!str_eq("space", "spac"));
    assert!(!str_eq("Space", "space"));
    assert!(str_eq("", ""));
}

#[test]
fn str_to_code_knows_names_and_aliases() {
    assert_eq!(str_to_code("space"), Some(Code::Space));
    assert_eq!(str_to_code("enter"), Some(Code::Enter));
    assert_eq!(str_to_code("return"), Some(Code::Enter));
    assert_eq!(str_to_code("esc"), Some(Code::Escape));
    assert_eq!(str_to_code("del"), Some(Code::Delete));
    assert_eq!(str_to_code("arrowright"), Some(Code::ArrowRight));
    assert_eq!(str_to_code("f12"), Some(Code::F12));
    assert_eq!(str_to_code("z"), Some(Code::KeyZ));
    assert_eq!(str_to_code("9"), Some(Code::Digit9));
    assert_eq!(str_to_code("F1"), None);
    assert_eq!(str_to_code("ctrl"), None);
    assert_eq!(str_to_code(""), None);
}

#[test]
fn default_hotkey_parses_to_alt_space() {
    let settings = AppSettings::default();
    assert_eq!(settings.hotkey, "Alt+Space");
    assert_eq!(
        parse_shortcut_str(&settings.hotkey),
        Ok(Shortcut { mods: mods(false, true, false, false), key: Code::Space })
    );
}

#[test]
fn parse_is_case_insensitive_and_collects_modifiers() {
    assert_eq!(
        parse_shortcut_str("ctrl+SHIFT+k"),
        Ok(Shortcut { mods: mods(true, false, true, false), key: Code::KeyK })
    );
    assert_eq!(
        parse_shortcut_str("Command+Option+Control+Shift+F5"),
        Ok(Shortcut { mods: mods(true, true, true, true), key: Code::F5 })
    );
    assert_eq!(
        parse_shortcut_str("Super+Meta+Cmd+1"),
        Ok(Shortcut { mods: mods(false, false, false, true), key: Code::Digit1 })
    );
    assert_eq!(parse_shortcut_str("Enter"), Ok(Shortcut { mods: Modifiers::empty(), key: Code::Enter }));
}

#[test]
fn parse_later_key_wins() {
    assert_eq!(parse_shortcut_str("A+B"), Ok(Shortcut { mods: Modifiers::empty(), key: Code::KeyB }));
}

#[test]
fn parse_order_of_modifier_and_key_is_free() {
    assert_eq!(parse_shortcut_str("K+Ctrl"), parse_shortcut_str("Ctrl+K"));
    assert_eq!(parse_shortcut_str("Ctrl+Ctrl+K"), parse_shortcut_str("Ctrl+K"));
}

#[test]
fn parse_reports_unknown_key() {
    assert_eq!(parse_shortcut_str("Foo+A"), Err("알 수 없는 키: foo".to_string()));
    assert_eq!(parse_shortcut_str(""), Err("알 수 없는 키: ".to_string()));
    assert_eq!(parse_shortcut_str("Ctrl+"), Err("알 수 없는 키: ".to_string()));
    assert_eq!(parse_shortcut_str("Ctrl+Hyper+Nope"), Err("알 수 없는 키: hyper".to_string()));
}

#[test]
fn parse_reports_missing_key() {
    assert_eq!(parse_shortcut_str("Ctrl+Shift"), Err("키가 지정되지 않았습니다".to_string()));
}

#[test]
fn parse_words_takes_lowercase_words() {
    assert_eq!(
        parse_words(&words(&["alt", "space"])),
        Ok(Shortcut { mods: mods(false, true, false, false), key: Code::Space })
    );
    assert_eq!(parse_words(&words(&["Alt", "space"])), Err("알 수 없는 키: Alt".to_string()));
    assert_eq!(parse_words(&words(&[])), Err("키가 지정되지 않았습니다".to_string()));
}

#[test]
fn shortcut_new_without_modifiers_is_empty() {
    let s = Shortcut::new(None, Code::Tab);
    assert!(s.mods.is_empty());
    assert_eq!(s.key, Code::Tab);
    let m = mods(true, false, false, false);
    assert_eq!(Shortcut::new(Some(m), Code::Tab).mods, m);
}

#[test]
fn startup_shortcut_falls_back_to_alt_space() {
    assert_eq!(startup_shortcut("nonsense"), Shortcut { mods: mods(false, true, false, false), key: Code::Space });
    assert_eq!(startup_shortcut("Ctrl+Q"), Shortcut { mods: mods(true, false, false, false), key: Code::KeyQ });
}

#[test]
fn parse_ignores_ascii_case() {
    for s in ["Alt+Space", "ctrl+shift+k", "Cmd+Option+F12", "Foo+A", "Ctrl+Shift", ""] {
        assert_eq!(parse_shortcut_str(s), parse_shortcut_str(&s.to_ascii_lowercase()));
        assert_eq!(parse_shortcut_str(s), parse_shortcut_str(&s.to_ascii_uppercase()));
    }
}
