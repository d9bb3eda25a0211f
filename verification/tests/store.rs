use std::path::PathBuf;

use text_macro::focus::{picker_toggle_action, FrontmostMemory, PickerAction};
use text_macro::shortcut::{Code, Modifiers, Shortcut};
use text_macro::store::{default_macros, loaded_or_default_macros, loaded_or_default_settings, AppSettings, AppState, Macro};

fn mac(id: &str, title: &str, content: &str) -> Macro {
    Macro { id: id.to_string(), title: title.to_string(), content: content.to_string() }
}

fn state(ms: Vec<Macro>) -> AppState {
    AppState { macros: ms, settings: AppSettings::default(), data_dir: PathBuf::from("/data/dir") }
}

fn ids(st: &AppState) -> Vec<String> {
    st.macros.iter().map(|m| m.id.clone()).collect()
}

fn is_uuid_v4(s: &str) -> bool {
    let cs: Vec<char> = s.chars().collect();
    cs.len() == 36
        && cs.iter().enumerate().all(|(i, c)| {
            if [8, 13, 18, 23].contains(&i) {
                *c == '-'
            } else {
                c.is_ascii_digit() || ('a'..='f').contains(c)
            }
        })
        && cs[14] == '4'
        && "89ab".contains(cs[19])
}

#[test]
fn paths_are_joined_under_data_dir() {
    let st = state(vec![]);
    assert_eq!(st.macros_path(), PathBuf::from("/data/dir").join("macros.json"));
    assert_eq!(st.settings_path(), PathBuf::from("/data/dir").join("settings.json"));
    assert_ne!(st.macros_path(), st.data_dir);
}

#[test]
fn add_macro_appends_with_fresh_id() {
    let mut st = state(vec![mac("a", "A", "aa")]);
    let item = st.add_macro("T".to_string(), "C".to_string());
    assert!(is_uuid_v4(&item.id));
    assert_eq!(item.title, "T");
    assert_eq!(item.content, "C");
    assert_eq!(st.macros.len(), 2);
    assert_eq!(st.macros[1], item);
    let other = st.add_macro("T".to_string(), "C".to_string());
    assert_ne!(other.id, item.id);
}

#[test]
fn get_macros_copies_the_list() {
    let st = state(vec![mac("a", "A", "aa"), mac("b", "B", "bb")]);
    assert_eq!(st.get_macros(), st.macros);
}

#[test]
fn update_macro_changes_first_match() {
    let mut st = state(vec![mac("a", "A", "aa"), mac("b", "B", "bb"), mac("b", "B2", "bb2")]);
    assert_eq!(st.update_macro("b".to_string(), "X".to_string(), "Y".to_string()), Ok(()));
    assert_eq!(st.macros, vec![mac("a", "A", "aa"), mac("b", "X", "Y"), mac("b", "B2", "bb2")]);
}

#[test]
fn update_macro_not_found() {
    let mut st = state(vec![mac("a", "A", "aa")]);
    assert_eq!(st.update_macro("z".to_string(), "X".to_string(), "Y".to_string()), Err("not found".to_string()));
    assert_eq!(st.macros, vec![mac("a", "A", "aa")]);
}

#[test]
fn delete_macro_removes_all_matches() {
    let mut st = state(vec![mac("a", "A", "aa"), mac("b", "B", "bb"), mac("a", "A2", "aa2")]);
    assert_eq!(st.delete_macro("a".to_string()), Ok(()));
    assert_eq!(st.macros, vec![mac("b", "B", "bb")]);
    assert_eq!(st.delete_macro("a".to_string()), Err("not found".to_string()));
    assert_eq!(st.macros, vec![mac("b", "B", "bb")]);
}

#[test]
fn delete_undoes_add() {
    let before = vec![mac("a", "A", "aa"), mac("b", "B", "bb")];
    let mut st = state(before.clone());
    let item = st.add_macro("N".to_string(), "n".to_string());
    assert_eq!(st.delete_macro(item.id), Ok(()));
    assert_eq!(st.macros, before);
}

#[test]
fn reorder_macros_permutes() {
    let mut st = state(vec![mac("a", "A", "aa"), mac("b", "B", "bb"), mac("c", "C", "cc")]);
    let order = vec!["c".to_string(), "a".to_string(), "b".to_string()];
    assert_eq!(st.reorder_macros(&order), Ok(()));
    assert_eq!(ids(&st), order);
    assert_eq!(st.macros[0], mac("c", "C", "cc"));
}

#[test]
fn reorder_by_own_ids_is_identity() {
    let ms = vec![mac("a", "A", "aa"), mac("b", "B", "bb")];
    let mut st = state(ms.clone());
    let own = ids(&st);
    assert_eq!(st.reorder_macros(&own), Ok(()));
    assert_eq!(st.macros, ms);
}

#[test]
fn reorder_rejects_wrong_length() {
    let ms = vec![mac("a", "A", "aa"), mac("b", "B", "bb")];
    let mut st = state(ms.clone());
    assert_eq!(st.reorder_macros(&vec!["a".to_string()]), Err("invalid ids".to_string()));
    assert_eq!(st.reorder_macros(&vec!["a".to_string(), "zz".to_string()]), Err("invalid ids".to_string()));
    assert_eq!(st.macros, ms);
}

#[test]
fn reorder_rejects_repeated_id() {
    let ms = vec![mac("a", "A", "aa"), mac("b", "B", "bb")];
    let mut st = state(ms.clone());
    assert_eq!(st.reorder_macros(&vec!["a".to_string(), "a".to_string()]), Err("invalid ids".to_string()));
    assert_eq!(st.macros, ms);
}

#[test]
fn reorder_passes_over_unknown_ids() {
    let ms = vec![mac("a", "A", "aa"), mac("b", "B", "bb")];
    let mut st = state(ms.clone());
    let ids = vec!["a".to_string(), "zz".to_string(), "b".to_string()];
    assert_eq!(st.reorder_macros(&ids), Ok(()));
    assert_eq!(st.macros, ms);
    let ids = vec!["zz".to_string(), "b".to_string(), "zz".to_string(), "a".to_string()];
    assert_eq!(st.reorder_macros(&ids), Ok(()));
    assert_eq!(st.macros, vec![mac("b", "B", "bb"), mac("a", "A", "aa")]);
}

#[test]
fn reorder_rejects_ids_missing_a_macro() {
    let ms = vec![mac("a", "A", "aa"), mac("b", "B", "bb")];
    let mut st = state(ms.clone());
    let ids = vec!["a".to_string(), "zz".to_string()];
    assert_eq!(st.reorder_macros(&ids), Err("invalid ids".to_string()));
    assert_eq!(st.macros, ms);
}

#[test]
fn reorder_cannot_reorder_list_with_shared_id() {
    let ms = vec![mac("a", "A", "aa"), mac("a", "A2", "aa2")];
    let mut st = state(ms.clone());
    assert_eq!(st.reorder_macros(&vec!["a".to_string(), "a".to_string()]), Err("invalid ids".to_string()));
    assert_eq!(st.macros, ms);
}

#[test]
fn export_data_holds_version_one_and_list() {
    let st = state(vec![mac("a", "A", "aa")]);
    let d = st.export_data();
    assert_eq!(d.version, 1);
    assert_eq!(d.macros, st.macros);
}

#[test]
fn import_replaces_and_appends() {
    let mut st = state(vec![mac("a", "A", "aa"), mac("b", "B", "bb")]);
    let r = st.import_macros(vec![mac("b", "B2", "new"), mac("c", "C", "cc")]);
    let expected = vec![mac("a", "A", "aa"), mac("b", "B2", "new"), mac("c", "C", "cc")];
    assert_eq!(st.macros, expected);
    assert_eq!(r, expected);
}

#[test]
fn import_last_duplicate_wins() {
    let mut st = state(vec![mac("a", "A", "aa")]);
    st.import_macros(vec![mac("x", "1", "1"), mac("x", "2", "2")]);
    assert_eq!(st.macros, vec![mac("a", "A", "aa"), mac("x", "2", "2")]);
}

#[test]
fn import_twice_is_same_as_once() {
    let batch = vec![mac("b", "B2", "new"), mac("c", "C", "cc"), mac("c", "C3", "cc3")];
    let mut st = state(vec![mac("a", "A", "aa"), mac("b", "B", "bb")]);
    let once = st.import_macros(batch.clone());
    let twice = st.import_macros(batch);
    assert_eq!(once, twice);
}

#[test]
fn import_of_own_export_changes_nothing() {
    let ms = vec![mac("a", "A", "aa"), mac("b", "B", "bb")];
    let mut st = state(ms.clone());
    let backup = st.export_data();
    st.import_macros(backup.macros);
    assert_eq!(st.macros, ms);
}

#[test]
fn loaded_or_default_gives_default_greetings() {
    let d = loaded_or_default_macros(None);
    assert_eq!(d[1].title, "감사합니다");
    assert_eq!(d[2].content, "확인했습니다. 바로 처리해드리겠습니다.");
}

#[test]
fn loaded_or_default_settings_prefers_loaded() {
    let s = AppSettings { hotkey: "Ctrl+K".to_string() };
    assert_eq!(loaded_or_default_settings(Some(s.clone())), s);
    assert_eq!(loaded_or_default_settings(None).hotkey, "Alt+Space");
}

#[test]
fn data_files_differ() {
    let st = state(vec![]);
    assert_ne!(st.macros_path(), st.settings_path());
}

#[test]
fn picker_toggles_on_visibility() {
    assert_eq!(picker_toggle_action(Some(true)), PickerAction::Hide);
    assert_eq!(picker_toggle_action(Some(false)), PickerAction::RememberAndShow);
    assert_eq!(picker_toggle_action(None), PickerAction::RememberAndShow);
}

#[test]
fn default_macros_are_four_greetings() {
    let d = default_macros();
    assert_eq!(d.len(), 4);
    let titles: Vec<&str> = d.iter().map(|m| m.title.as_str()).collect();
    assert_eq!(titles, vec!["안녕하세요", "감사합니다", "확인했습니다", "잠시만요"]);
    assert_eq!(d[0].content, "안녕하세요! 무엇을 도와드릴까요?");
    assert_eq!(d[3].content, "잠시만요, 확인 후 답변 드리겠습니다.");
    assert!(d.iter().all(|m| is_uuid_v4(&m.id)));
}

#[test]
fn loaded_or_default_prefers_loaded() {
    let ms = vec![mac("a", "A", "aa")];
    assert_eq!(loaded_or_default_macros(Some(ms.clone())), ms);
    assert_eq!(loaded_or_default_macros(None).len(), 4);
}

#[test]
fn settings_and_hotkey_plan() {
    let mut st = state(vec![]);
    assert_eq!(st.get_settings(), AppSettings::default());
    let plan = st.plan_hotkey_update("Ctrl+K").unwrap();
    assert_eq!(plan.register, Shortcut { mods: Modifiers { control: true, ..Modifiers::empty() }, key: Code::KeyK });
    assert_eq!(plan.unregister, Some(Shortcut { mods: Modifiers { alt: true, ..Modifiers::empty() }, key: Code::Space }));
    assert_eq!(st.plan_hotkey_update("Ctrl+Bogus").err(), Some("알 수 없는 키: bogus".to_string()));
    st.set_hotkey("garbage".to_string());
    assert_eq!(st.get_settings().hotkey, "garbage");
    assert_eq!(st.plan_hotkey_update("F2").unwrap().unregister, None);
}

#[test]
fn frontmost_memory_restores_only_known_process() {
    let mut m = FrontmostMemory::new();
    assert_eq!(m.restore_target(), None);
    m.remember(42);
    assert_eq!(m.restore_target(), Some(42));
    m.remember(-1);
    assert_eq!(m.restore_target(), None);
    m.remember(0);
    assert_eq!(m.restore_target(), Some(0));
}
