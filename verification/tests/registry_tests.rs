use key_switch::actions::BindAction;
use key_switch::key_combination::KeyCombination;
use key_switch::keys::{
    VK_A, VK_CONTROL, VK_D, VK_ESCAPE, VK_I, VK_L, VK_LWIN, VK_MENU, VK_OEM_3, VK_SHIFT, VK_Z,
};
use key_switch::registry::{
    char_to_vk, get_default_combination, get_registry_location, get_system_hotkey,
    language_hotkey_from_trimmed, parse_hotkey, parse_language_hotkey, parse_task_manager_hotkey,
    parse_win_key_combo, read_from_registry, read_value_and_parse, win_key_combo_from_upper,
    HotkeyParser, RegistryRoot,
};
use key_switch::system_function::SystemFunction;

fn nothing_read() -> Vec<Option<Vec<u16>>> {
    Vec::new()
}

fn utf16(text: &str) -> Vec<u16> {
    let mut units: Vec<u16> = text.encode_utf16().collect();
    units.push(0);
    units
}

fn keys_of(combination: Option<KeyCombination>) -> Option<Vec<u16>> {
    combination.map(|c| c.keys)
}

#[test]
fn test_parse_language_hotkey() {
    assert!(parse_language_hotkey("1").is_some());
    assert!(parse_language_hotkey("2").is_some());
    assert!(parse_language_hotkey("3").is_none());
    assert!(parse_language_hotkey("4").is_some());
    assert!(parse_language_hotkey("unknown").is_none());
}

#[test]
fn test_get_system_hotkey_returns_combinations() {
    let switch_lang = get_system_hotkey(SystemFunction::SwitchLanguage, &nothing_read());
    assert!(!switch_lang.is_empty());

    let lock = get_system_hotkey(SystemFunction::LockWorkstation, &nothing_read());
    assert!(!lock.is_empty());

    let desktop = get_system_hotkey(SystemFunction::ShowDesktop, &nothing_read());
    assert!(!desktop.is_empty());

    let taskmgr = get_system_hotkey(SystemFunction::TaskManager, &nothing_read());
    assert!(!taskmgr.is_empty());

    let caps = get_system_hotkey(SystemFunction::ToggleCapsLock, &nothing_read());
    assert!(caps.is_empty());
}

#[test]
fn test_default_combinations() {
    let lang_default = get_default_combination(SystemFunction::SwitchLanguage).unwrap();
    assert!(lang_default.keys.contains(&VK_MENU));
    assert!(lang_default.keys.contains(&VK_SHIFT));

    let lock_default = get_default_combination(SystemFunction::LockWorkstation).unwrap();
    assert!(lock_default.keys.contains(&VK_LWIN));
    assert!(lock_default.keys.contains(&VK_L));
}

#[test]
fn test_char_to_vk() {
    assert_eq!(char_to_vk('L'), Some(VK_L));
    assert_eq!(char_to_vk('D'), Some(VK_D));
    assert_eq!(char_to_vk('A'), Some(VK_A));
    assert_eq!(char_to_vk('1'), None);
}

#[test]
fn test_parse_win_key_combo() {
    let combo = parse_win_key_combo("L").unwrap();
    assert!(combo.keys.contains(&VK_LWIN));
    assert!(combo.keys.contains(&VK_L));

    let combo2 = parse_win_key_combo("D").unwrap();
    assert!(combo2.keys.contains(&VK_LWIN));
    assert!(combo2.keys.contains(&VK_D));
}

#[test]
fn test_hardcoded_combinations() {
    assert!(SystemFunction::LockWorkstation.get_system_combination(&nothing_read()).is_some());
    assert!(SystemFunction::ShowDesktop.get_system_combination(&nothing_read()).is_some());
    assert!(SystemFunction::TaskManager.get_system_combination(&nothing_read()).is_some());
}

#[test]
fn test_capslock_has_no_combination() {
    assert!(SystemFunction::ToggleCapsLock.get_system_combination(&nothing_read()).is_none());
}

#[test]
fn char_to_vk_covers_the_upper_case_letters_only() {
    assert_eq!(char_to_vk('Z'), Some(VK_Z));
    assert_eq!(char_to_vk('Z'), Some(0x5A));
    assert_eq!(char_to_vk('a'), None);
    assert_eq!(char_to_vk('@'), None);
    assert_eq!(char_to_vk('['), None);
    assert_eq!(char_to_vk('É'), None);
}

#[test]
fn language_hotkey_values() {
    assert_eq!(keys_of(parse_language_hotkey("1")), Some(vec![VK_MENU, VK_SHIFT]));
    assert_eq!(keys_of(parse_language_hotkey("2")), Some(vec![VK_CONTROL, VK_SHIFT]));
    assert_eq!(keys_of(parse_language_hotkey("4")), Some(vec![VK_OEM_3]));
    assert_eq!(keys_of(parse_language_hotkey("")), None);
    assert_eq!(keys_of(parse_language_hotkey("12")), None);
    assert_eq!(keys_of(parse_language_hotkey("5")), None);
}

#[test]
fn language_hotkey_is_trimmed_first() {
    assert_eq!(keys_of(parse_language_hotkey("  2\t\n")), Some(vec![VK_CONTROL, VK_SHIFT]));
    assert_eq!(keys_of(language_hotkey_from_trimmed(" 2")), None);
    assert_eq!(keys_of(language_hotkey_from_trimmed("2")), Some(vec![VK_CONTROL, VK_SHIFT]));
}

#[test]
fn win_key_combo_takes_one_letter_in_either_case() {
    assert_eq!(keys_of(parse_win_key_combo("l")), Some(vec![VK_LWIN, VK_L]));
    assert_eq!(keys_of(parse_win_key_combo(" d ")), Some(vec![VK_LWIN, VK_D]));
    assert_eq!(keys_of(parse_win_key_combo("LD")), None);
    assert_eq!(keys_of(parse_win_key_combo("")), None);
    assert_eq!(keys_of(parse_win_key_combo("1")), None);
    assert_eq!(keys_of(parse_win_key_combo("é")), None);
    assert_eq!(keys_of(parse_win_key_combo("ß")), None);
    // the dotless i has the ASCII letter as its upper case
    assert_eq!(keys_of(parse_win_key_combo("ı")), Some(vec![VK_LWIN, VK_I]));
    assert_eq!(keys_of(win_key_combo_from_upper("l")), None);
    assert_eq!(keys_of(win_key_combo_from_upper("L")), Some(vec![VK_LWIN, VK_L]));
}

#[test]
fn task_manager_hotkey_is_never_read() {
    assert!(parse_task_manager_hotkey("1").is_none());
    assert!(parse_task_manager_hotkey("T").is_none());
    assert!(parse_hotkey(HotkeyParser::TaskManagerHotkey, "T").is_none());
}

#[test]
fn parse_hotkey_goes_by_the_parser() {
    assert_eq!(keys_of(parse_hotkey(HotkeyParser::LanguageHotkey, "1")), Some(vec![VK_MENU, VK_SHIFT]));
    assert_eq!(keys_of(parse_hotkey(HotkeyParser::WinKeyCombo, "1")), None);
    assert_eq!(keys_of(parse_hotkey(HotkeyParser::WinKeyCombo, "a")), Some(vec![VK_LWIN, VK_A]));
    assert_eq!(keys_of(parse_hotkey(HotkeyParser::LanguageHotkey, "a")), None);
}

#[test]
fn raw_value_ends_at_the_first_zero() {
    let data: Vec<u16> = vec![0x32, 0, 0x31, 0];
    assert_eq!(
        keys_of(read_value_and_parse(&data, HotkeyParser::LanguageHotkey)),
        Some(vec![VK_CONTROL, VK_SHIFT])
    );
    let unterminated: Vec<u16> = vec![0x34];
    assert_eq!(
        keys_of(read_value_and_parse(&unterminated, HotkeyParser::LanguageHotkey)),
        Some(vec![VK_OEM_3])
    );
    let two: Vec<u16> = vec![0x31, 0x32, 0];
    assert_eq!(keys_of(read_value_and_parse(&two, HotkeyParser::LanguageHotkey)), None);
    let empty: Vec<u16> = vec![0, 0x31];
    assert_eq!(keys_of(read_value_and_parse(&empty, HotkeyParser::LanguageHotkey)), None);
    assert_eq!(keys_of(read_value_and_parse(&[], HotkeyParser::LanguageHotkey)), None);
}

#[test]
fn raw_value_is_decoded_from_utf16() {
    // a surrogate pair is one character, so the text is not a single letter
    let pair: Vec<u16> = vec![0xD835, 0xDC00, 0];
    assert_eq!(keys_of(read_value_and_parse(&pair, HotkeyParser::WinKeyCombo)), None);
    // U+0131, the dotless i
    let dotless: Vec<u16> = vec![0x0131, 0];
    assert_eq!(
        keys_of(read_value_and_parse(&dotless, HotkeyParser::WinKeyCombo)),
        Some(vec![VK_LWIN, VK_I])
    );
    assert_eq!(
        keys_of(read_value_and_parse(&utf16("l"), HotkeyParser::WinKeyCombo)),
        Some(vec![VK_LWIN, VK_L])
    );
}

#[test]
fn registry_locations() {
    let language = get_registry_location(SystemFunction::SwitchLanguage).unwrap();
    assert_eq!(language.hkey, RegistryRoot::CurrentUser);
    assert_eq!(language.subkey, "Keyboard Layout\\Toggle");
    assert_eq!(language.value_names, vec!["Hotkey", "Language Hotkey"]);
    assert_eq!(language.parser, HotkeyParser::LanguageHotkey);

    let backward = get_registry_location(SystemFunction::SwitchLanguageBackward).unwrap();
    assert_eq!(backward.subkey, "Keyboard Layout\\Toggle");
    assert_eq!(backward.value_names, vec!["Hotkey", "Language Hotkey"]);

    let lock = get_registry_location(SystemFunction::LockWorkstation).unwrap();
    assert_eq!(lock.subkey, "Software\\Microsoft\\Windows\\CurrentVersion\\Explorer\\Advanced");
    assert_eq!(lock.value_names, vec!["LockWorkstationHotkey"]);
    assert_eq!(lock.parser, HotkeyParser::WinKeyCombo);

    let desktop = get_registry_location(SystemFunction::ShowDesktop).unwrap();
    assert_eq!(desktop.subkey, "Software\\Microsoft\\Windows\\CurrentVersion\\Explorer\\Advanced");
    assert_eq!(desktop.value_names, vec!["ShowDesktopHotkey"]);
    assert_eq!(desktop.parser, HotkeyParser::WinKeyCombo);

    let task = get_registry_location(SystemFunction::TaskManager).unwrap();
    assert_eq!(task.subkey, "Software\\Microsoft\\Windows\\CurrentVersion\\Policies\\System");
    assert_eq!(task.value_names, vec!["TaskManagerHotkey"]);
    assert_eq!(task.parser, HotkeyParser::TaskManagerHotkey);

    assert!(get_registry_location(SystemFunction::ToggleCapsLock).is_none());
}

#[test]
fn default_combinations_exact() {
    assert_eq!(keys_of(get_default_combination(SystemFunction::SwitchLanguage)), Some(vec![VK_MENU, VK_SHIFT]));
    assert_eq!(
        keys_of(get_default_combination(SystemFunction::SwitchLanguageBackward)),
        Some(vec![VK_MENU, VK_SHIFT])
    );
    assert_eq!(keys_of(get_default_combination(SystemFunction::LockWorkstation)), Some(vec![VK_LWIN, VK_L]));
    assert_eq!(keys_of(get_default_combination(SystemFunction::ShowDesktop)), Some(vec![VK_LWIN, VK_D]));
    assert_eq!(
        keys_of(get_default_combination(SystemFunction::TaskManager)),
        Some(vec![VK_CONTROL, VK_SHIFT, VK_ESCAPE])
    );
    assert_eq!(keys_of(get_default_combination(SystemFunction::ToggleCapsLock)), None);
}

#[test]
fn first_value_that_parses_wins() {
    let location = get_registry_location(SystemFunction::SwitchLanguage).unwrap();
    let values = vec![Some(utf16("3")), Some(utf16("2"))];
    assert_eq!(keys_of(read_from_registry(&location, &values)), Some(vec![VK_CONTROL, VK_SHIFT]));
    let values = vec![None, Some(utf16("4"))];
    assert_eq!(keys_of(read_from_registry(&location, &values)), Some(vec![VK_OEM_3]));
    let values = vec![Some(utf16("1")), Some(utf16("2"))];
    assert_eq!(keys_of(read_from_registry(&location, &values)), Some(vec![VK_MENU, VK_SHIFT]));
    let values = vec![Some(utf16("3")), None];
    assert_eq!(keys_of(read_from_registry(&location, &values)), None);
    assert_eq!(keys_of(read_from_registry(&location, &nothing_read())), None);
}

#[test]
fn stored_hotkey_replaces_the_default() {
    let stored = get_system_hotkey(SystemFunction::SwitchLanguage, &[Some(utf16("2")), None]);
    assert_eq!(stored.len(), 1);
    assert_eq!(stored[0].keys, vec![VK_CONTROL, VK_SHIFT]);

    let fallback = get_system_hotkey(SystemFunction::SwitchLanguage, &[Some(utf16("3")), None]);
    assert_eq!(fallback.len(), 1);
    assert_eq!(fallback[0].keys, vec![VK_MENU, VK_SHIFT]);

    let lock = get_system_hotkey(SystemFunction::LockWorkstation, &[Some(utf16("k"))]);
    assert_eq!(lock.len(), 1);
    assert_eq!(lock[0].keys, vec![VK_LWIN, 0x4B]);

    let task = get_system_hotkey(SystemFunction::TaskManager, &[Some(utf16("T"))]);
    assert_eq!(task.len(), 1);
    assert_eq!(task[0].keys, vec![VK_CONTROL, VK_SHIFT, VK_ESCAPE]);

    let caps = get_system_hotkey(SystemFunction::ToggleCapsLock, &[Some(utf16("1"))]);
    assert!(caps.is_empty());
}

#[test]
fn system_combinations_of_functions_and_actions() {
    let values = vec![Some(utf16("4"))];
    let all = SystemFunction::SwitchLanguageBackward.get_system_combinations(&values);
    assert_eq!(all.len(), 1);
    assert_eq!(all[0].keys, vec![VK_OEM_3]);
    assert_eq!(
        keys_of(SystemFunction::SwitchLanguageBackward.get_system_combination(&values)),
        Some(vec![VK_OEM_3])
    );
    assert_eq!(
        keys_of(SystemFunction::ShowDesktop.get_system_combination(&nothing_read())),
        Some(vec![VK_LWIN, VK_D])
    );

    let of_action = BindAction::SwitchLanguage.get_system_combinations(&values);
    assert_eq!(of_action.len(), 1);
    assert_eq!(of_action[0].keys, vec![VK_OEM_3]);
    let of_action = BindAction::SwitchLanguage.get_system_combinations(&nothing_read());
    assert_eq!(of_action.len(), 1);
    assert_eq!(of_action[0].keys, vec![VK_MENU, VK_SHIFT]);
    assert!(BindAction::ToggleCapsLock.get_system_combinations(&values).is_empty());
    assert!(BindAction::PressKey(VK_A).get_system_combinations(&values).is_empty());
    assert!(BindAction::DoNothing.get_system_combinations(&values).is_empty());
    let post = BindAction::PostMessage { msg: 1, wparam: 2, lparam: 3 };
    assert!(post.get_system_combinations(&values).is_empty());
}
