use key_switch::key_combination::{contains_key, KeyCombination};
use key_switch::registry::char_to_vk;
use key_switch::system_function::{
    INPUTLANGCHANGE_BACKWARD, INPUTLANGCHANGE_FORWARD, WM_COMMAND, WM_INPUTLANGCHANGEREQUEST,
};
use key_switch::keyboard_hook_callback::{WM_KEYDOWN, WM_SYSKEYDOWN};
use key_switch::keys;
use key_switch::keys::{
    normalize_key, VK_A, VK_CAPITAL, VK_CONTROL, VK_LCONTROL, VK_LMENU, VK_LSHIFT, VK_LWIN,
    VK_MENU, VK_RCONTROL, VK_RMENU, VK_RSHIFT, VK_RWIN, VK_SHIFT,
};

#[test]
fn test_single_key() {
    let combo = KeyCombination::new(VK_CAPITAL);
    assert!(combo.matches(&[VK_CAPITAL]));
    assert!(!combo.matches(&[VK_A]));
    assert!(!combo.matches(&[]));
}

#[test]
fn test_key_combination() {
    let combo = KeyCombination::new(VK_CAPITAL).with(VK_SHIFT);
    assert!(combo.matches(&[VK_CAPITAL, VK_SHIFT]));
    assert!(combo.matches(&[VK_SHIFT, VK_CAPITAL]));
    assert!(!combo.matches(&[VK_CAPITAL]));
    assert!(!combo.matches(&[VK_SHIFT]));
}

#[test]
fn test_extra_keys() {
    let combo = KeyCombination::new(VK_CAPITAL);
    assert!(combo.matches(&[VK_CAPITAL, VK_SHIFT]));
}

#[test]
fn matches_any_superset_of_its_keys() {
    let combo = KeyCombination::new(VK_CONTROL).with(VK_SHIFT).with(VK_A);
    assert!(combo.matches(&[VK_A, VK_SHIFT, VK_CONTROL]));
    assert!(combo.matches(&[VK_MENU, VK_A, VK_CAPITAL, VK_SHIFT, VK_CONTROL]));
    assert!(!combo.matches(&[VK_MENU, VK_A, VK_CAPITAL, VK_SHIFT]));
}

#[test]
fn with_adds_a_key_once() {
    let combo = KeyCombination::new(VK_CAPITAL).with(VK_SHIFT).with(VK_CAPITAL).with(VK_SHIFT);
    assert_eq!(combo.keys, vec![VK_CAPITAL, VK_SHIFT]);
}

#[test]
fn new_holds_the_one_key() {
    assert_eq!(KeyCombination::new(VK_A).keys, vec![VK_A]);
}

#[test]
fn from_keys_keeps_first_occurrences() {
    let combo = KeyCombination::from_keys(vec![VK_SHIFT, VK_A, VK_SHIFT, VK_CONTROL, VK_A]);
    assert_eq!(combo.keys, vec![VK_SHIFT, VK_A, VK_CONTROL]);
    let plain = KeyCombination::from_keys(vec![VK_MENU, VK_SHIFT]);
    assert_eq!(plain.keys, vec![VK_MENU, VK_SHIFT]);
    assert!(KeyCombination::from_keys(Vec::new()).keys.is_empty());
}

#[test]
fn equality_ignores_order() {
    let a = KeyCombination::new(VK_MENU).with(VK_SHIFT);
    let b = KeyCombination::from_keys(vec![VK_SHIFT, VK_MENU]);
    let c = KeyCombination::new(VK_CONTROL).with(VK_SHIFT);
    let d = KeyCombination::new(VK_SHIFT);
    assert!(a == b);
    assert!(b == a);
    assert!(a != c);
    assert!(a != d);
    assert!(d != a);
    assert!(a.same_keys(&b));
    assert!(!a.same_keys(&c));
}

#[test]
fn contains_key_finds_members_only() {
    assert!(contains_key(&[VK_A, VK_SHIFT], VK_SHIFT));
    assert!(!contains_key(&[VK_A, VK_SHIFT], VK_MENU));
    assert!(!contains_key(&[], VK_MENU));
}

#[test]
fn normalize_merges_modifier_sides() {
    assert_eq!(normalize_key(VK_LSHIFT), VK_SHIFT);
    assert_eq!(normalize_key(VK_RSHIFT), VK_SHIFT);
    assert_eq!(normalize_key(VK_LCONTROL), VK_CONTROL);
    assert_eq!(normalize_key(VK_RCONTROL), VK_CONTROL);
    assert_eq!(normalize_key(VK_LMENU), VK_MENU);
    assert_eq!(normalize_key(VK_RMENU), VK_MENU);
    assert_eq!(normalize_key(VK_LWIN), VK_LWIN);
    assert_eq!(normalize_key(VK_RWIN), VK_LWIN);
    assert_eq!(normalize_key(VK_SHIFT), VK_SHIFT);
    assert_eq!(normalize_key(VK_A), VK_A);
    assert_eq!(normalize_key(0x1234), 0x1234);
}

#[test]
fn key_codes_have_their_platform_values() {
    assert_eq!(keys::VK_SHIFT, 16);
    assert_eq!(keys::VK_CONTROL, 17);
    assert_eq!(keys::VK_MENU, 18);
    assert_eq!(keys::VK_CAPITAL, 20);
    assert_eq!(keys::VK_ESCAPE, 27);
    assert_eq!(keys::VK_LWIN, 91);
    assert_eq!(keys::VK_RWIN, 92);
    assert_eq!(keys::VK_LSHIFT, 160);
    assert_eq!(keys::VK_RSHIFT, 161);
    assert_eq!(keys::VK_LCONTROL, 162);
    assert_eq!(keys::VK_RCONTROL, 163);
    assert_eq!(keys::VK_LMENU, 164);
    assert_eq!(keys::VK_RMENU, 165);
    assert_eq!(keys::VK_OEM_3, 192);
    assert_eq!(keys::VK_A, 65);
    assert_eq!(keys::VK_B, 66);
    assert_eq!(keys::VK_C, 67);
    assert_eq!(keys::VK_D, 68);
    assert_eq!(keys::VK_E, 69);
    assert_eq!(keys::VK_F, 70);
    assert_eq!(keys::VK_G, 71);
    assert_eq!(keys::VK_H, 72);
    assert_eq!(keys::VK_I, 73);
    assert_eq!(keys::VK_J, 74);
    assert_eq!(keys::VK_K, 75);
    assert_eq!(keys::VK_L, 76);
    assert_eq!(keys::VK_M, 77);
    assert_eq!(keys::VK_N, 78);
    assert_eq!(keys::VK_O, 79);
    assert_eq!(keys::VK_P, 80);
    assert_eq!(keys::VK_Q, 81);
    assert_eq!(keys::VK_R, 82);
    assert_eq!(keys::VK_S, 83);
    assert_eq!(keys::VK_T, 84);
    assert_eq!(keys::VK_U, 85);
    assert_eq!(keys::VK_V, 86);
    assert_eq!(keys::VK_W, 87);
    assert_eq!(keys::VK_X, 88);
    assert_eq!(keys::VK_Y, 89);
    assert_eq!(keys::VK_Z, 90);
}

#[test]
fn letter_keys_are_the_upper_case_letters() {
    let letters = [
        keys::VK_A, keys::VK_B, keys::VK_C, keys::VK_D, keys::VK_E, keys::VK_F, keys::VK_G,
        keys::VK_H, keys::VK_I, keys::VK_J, keys::VK_K, keys::VK_L, keys::VK_M, keys::VK_N,
        keys::VK_O, keys::VK_P, keys::VK_Q, keys::VK_R, keys::VK_S, keys::VK_T, keys::VK_U,
        keys::VK_V, keys::VK_W, keys::VK_X, keys::VK_Y, keys::VK_Z,
    ];
    for (letter, key) in ('A'..='Z').zip(letters) {
        assert_eq!(key, letter as u16);
        assert_eq!(char_to_vk(letter), Some(key));
    }
}

#[test]
fn message_numbers_have_their_platform_values() {
    assert_eq!(WM_KEYDOWN, 256);
    assert_eq!(WM_SYSKEYDOWN, 260);
    assert_eq!(WM_INPUTLANGCHANGEREQUEST, 80);
    assert_eq!(WM_COMMAND, 273);
    assert_eq!(INPUTLANGCHANGE_FORWARD, 2);
    assert_eq!(INPUTLANGCHANGE_BACKWARD, 4);
}
