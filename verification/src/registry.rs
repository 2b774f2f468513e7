//! Where the system keeps the hotkey of each of its functions, how the
//! stored text is read, and what applies when nothing is stored.
//!
//! Reading the registry itself is left to the caller: the functions here
//! take the raw values that were read.

use vstd::prelude::*;
use vstd::slice::slice_subrange;
use vstd::string::*;
use crate::key_combination::KeyCombination;
use crate::keys::{
    VirtualKey, VK_CONTROL, VK_D, VK_ESCAPE, VK_L, VK_LWIN, VK_MENU, VK_OEM_3, VK_SHIFT,
};
use crate::system_function::SystemFunction;

verus! {

/// The registry hive that a location lies in.
#[derive(Debug, Clone, Copy, PartialEq, Eq, Structural)]
pub enum RegistryRoot {
    CurrentUser,
}

/// How the text stored at a location is read.
#[derive(Debug, Clone, Copy, PartialEq, Eq, Structural)]
pub enum HotkeyParser {
    LanguageHotkey,
    WinKeyCombo,
    TaskManagerHotkey,
}

/// A registry key and the values under it that may hold a hotkey, in the
/// order in which they are consulted.
#[derive(Debug, Clone)]
pub struct RegistryLocation {
    pub hkey: RegistryRoot,
    pub subkey: &'static str,
    pub value_names: Vec<&'static str>,
    pub parser: HotkeyParser,
}

/// A location as contracts see it: the texts as sequences of characters.
pub struct RegistryLocationView {
    pub hkey: RegistryRoot,
    pub subkey: Seq<char>,
    pub value_names: Seq<Seq<char>>,
    pub parser: HotkeyParser,
}

impl View for RegistryLocation {
    type V = RegistryLocationView;

    open spec fn view(&self) -> RegistryLocationView {
        RegistryLocationView {
            hkey: self.hkey,
            subkey: self.subkey@,
            value_names: self.value_names@.map_values(|name: &'static str| name@),
            parser: self.parser,
        }
    }
}

/// What was read under one value name: the raw data, or `None` where
/// nothing could be read.
pub type RegistryValue = Option<Vec<u16>>;

/// What `str::trim` returns for a text.
pub uninterp spec fn trimmed_text(text: Seq<char>) -> Seq<char>;

/// What `str::to_uppercase` returns for a text.
pub uninterp spec fn uppercased_text(text: Seq<char>) -> Seq<char>;

/// What `String::from_utf16_lossy` returns for a sequence of code units.
pub uninterp spec fn utf16_lossy_text(units: Seq<u16>) -> Seq<char>;

/// Calls `str::trim`, which removes leading and trailing white space.
/// Nothing is proved of the result: the contract only gives it its name.
#[verifier::external_body]
fn trim_text(text: &str) -> (trimmed: &str)
    ensures
        trimmed@ == trimmed_text(text@),
{
    text.trim()
}

/// Calls `str::to_uppercase`, which maps the text to upper case by the
/// Unicode tables. Nothing is proved of the result: the contract only gives
/// it its name.
#[verifier::external_body]
fn uppercase_text(text: &str) -> (upper: String)
    ensures
        upper@ == uppercased_text(text@),
{
    text.to_uppercase()
}

/// Calls `String::from_utf16_lossy`, which decodes UTF-16 and puts the
/// replacement character for what is not valid. Nothing is proved of the
/// result: the contract only gives it its name.
#[verifier::external_body]
fn decode_utf16_lossy(units: &[u16]) -> (text: String)
    ensures
        text@ == utf16_lossy_text(units@),
{
    String::from_utf16_lossy(units)
}

/// The location of each function's hotkey; caps lock has none.
pub open spec fn registry_location(function: SystemFunction) -> Option<RegistryLocationView> {
    match function {
        SystemFunction::SwitchLanguage | SystemFunction::SwitchLanguageBackward => Some(
            RegistryLocationView {
                hkey: RegistryRoot::CurrentUser,
                subkey: "Keyboard Layout\\Toggle"@,
                value_names: seq!["Hotkey"@, "Language Hotkey"@],
                parser: HotkeyParser::LanguageHotkey,
            },
        ),
        SystemFunction::LockWorkstation => Some(
            RegistryLocationView {
                hkey: RegistryRoot::CurrentUser,
                subkey: "Software\\Microsoft\\Windows\\CurrentVersion\\Explorer\\Advanced"@,
                value_names: seq!["LockWorkstationHotkey"@],
                parser: HotkeyParser::WinKeyCombo,
            },
        ),
        SystemFunction::ShowDesktop => Some(
            RegistryLocationView {
                hkey: RegistryRoot::CurrentUser,
                subkey: "Software\\Microsoft\\Windows\\CurrentVersion\\Explorer\\Advanced"@,
                value_names: seq!["ShowDesktopHotkey"@],
                parser: HotkeyParser::WinKeyCombo,
            },
        ),
        SystemFunction::TaskManager => Some(
            RegistryLocationView {
                hkey: RegistryRoot::CurrentUser,
                subkey: "Software\\Microsoft\\Windows\\CurrentVersion\\Policies\\System"@,
                value_names: seq!["TaskManagerHotkey"@],
                parser: HotkeyParser::TaskManagerHotkey,
            },
        ),
        SystemFunction::ToggleCapsLock => None,
    }
}

/// The combination under which the system offers a function when the
/// registry says nothing else.
pub open spec fn default_keys(function: SystemFunction) -> Option<Seq<VirtualKey>> {
    match function {
        SystemFunction::SwitchLanguage | SystemFunction::SwitchLanguageBackward => Some(
            seq![VK_MENU, VK_SHIFT],
        ),
        SystemFunction::LockWorkstation => Some(seq![VK_LWIN, VK_L]),
        SystemFunction::ShowDesktop => Some(seq![VK_LWIN, VK_D]),
        SystemFunction::TaskManager => Some(seq![VK_CONTROL, VK_SHIFT, VK_ESCAPE]),
        SystemFunction::ToggleCapsLock => None,
    }
}

/// The key of an upper-case ASCII letter; no other character has one.
pub open spec fn letter_key(ch: char) -> Option<VirtualKey> {
    if 'A' <= ch && ch <= 'Z' {
        Some(ch as u16)
    } else {
        None
    }
}

/// The layout-switch hotkey that a trimmed setting stands for: `1` is
/// alt + shift, `2` is control + shift, `4` is the grave accent key;
/// anything else, `3` included, is no hotkey.
pub open spec fn language_hotkey_keys(trimmed: Seq<char>) -> Option<Seq<VirtualKey>> {
    if trimmed.len() != 1 {
        None
    } else if trimmed[0] == '1' {
        Some(seq![VK_MENU, VK_SHIFT])
    } else if trimmed[0] == '2' {
        Some(seq![VK_CONTROL, VK_SHIFT])
    } else if trimmed[0] == '4' {
        Some(seq![VK_OEM_3])
    } else {
        None
    }
}

/// The hotkey that a trimmed, upper-cased setting stands for: a single
/// letter is the OS key together with that letter.
pub open spec fn win_key_combo_keys(upper: Seq<char>) -> Option<Seq<VirtualKey>> {
    if upper.len() == 1 && letter_key(upper[0]).is_some() {
        Some(seq![VK_LWIN, letter_key(upper[0]).unwrap()])
    } else {
        None
    }
}

/// The hotkey that a stored text stands for under a parser.
pub open spec fn parsed_keys(parser: HotkeyParser, text: Seq<char>) -> Option<Seq<VirtualKey>> {
    match parser {
        HotkeyParser::LanguageHotkey => language_hotkey_keys(trimmed_text(text)),
        HotkeyParser::WinKeyCombo => win_key_combo_keys(uppercased_text(trimmed_text(text))),
        HotkeyParser::TaskManagerHotkey => None,
    }
}

/// `end` is where the text in `data` ends: at the first zero unit, or at
/// the end of the data where there is none.
pub open spec fn is_text_end(data: Seq<u16>, end: int) -> bool {
    &&& 0 <= end <= data.len()
    &&& forall|i: int| 0 <= i < end ==> #[trigger] data[i] != 0
    &&& end < data.len() ==> data[end] == 0
}

/// The end of the text in `data`.
pub open spec fn text_end(data: Seq<u16>) -> int {
    choose|end: int| is_text_end(data, end)
}

/// The hotkey that the raw data of a registry value stands for.
pub open spec fn value_keys(parser: HotkeyParser, data: Seq<u16>) -> Option<Seq<VirtualKey>> {
    parsed_keys(parser, utf16_lossy_text(data.subrange(0, text_end(data))))
}

/// The hotkey of the first of `values` that was read and stands for one.
pub open spec fn first_parsed(
    parser: HotkeyParser,
    values: Seq<RegistryValue>,
) -> Option<Seq<VirtualKey>>
    decreases values.len(),
{
    if values.len() == 0 {
        None
    } else {
        let here = match values[0] {
            Some(data) => value_keys(parser, data@),
            None => None,
        };
        if here.is_some() {
            here
        } else {
            first_parsed(parser, values.skip(1))
        }
    }
}

/// The combinations under which the system offers a function, given what
/// was read at the function's registry location: the stored hotkey, else
/// the default, and nothing for a function without a location.
pub open spec fn system_hotkey_keys(
    function: SystemFunction,
    values: Seq<RegistryValue>,
) -> Seq<Seq<VirtualKey>> {
    match registry_location(function) {
        Some(location) => match first_parsed(location.parser, values) {
            Some(keys) => seq![keys],
            None => match default_keys(function) {
                Some(keys) => seq![keys],
                None => Seq::empty(),
            },
        },
        None => Seq::empty(),
    }
}

/// The keys of an optional combination.
pub open spec fn combination_keys(combination: Option<KeyCombination>) -> Option<Seq<VirtualKey>> {
    match combination {
        Some(c) => Some(c.keys@),
        None => None,
    }
}

/// The keys of each combination of a list.
pub open spec fn combinations_keys(combinations: Seq<KeyCombination>) -> Seq<Seq<VirtualKey>> {
    combinations.map_values(|c: KeyCombination| c.keys@)
}

/// Only one index is the end of the text.
pub proof fn lemma_text_end(data: Seq<u16>, end: int)
    requires
        is_text_end(data, end),
    ensures
        text_end(data) == end,
{
    let chosen = text_end(data);
    assert(is_text_end(data, chosen));
    if chosen < end {
        assert(data[chosen] != 0);
    }
    if end < chosen {
        assert(data[end] != 0);
    }
}

/// Where the registry keeps the hotkey of a function, if it keeps one.
pub fn get_registry_location(function: SystemFunction) -> (location: Option<RegistryLocation>)
    ensures
        (match location {
            Some(l) => registry_location(function) == Some(l@),
            None => registry_location(function).is_none(),
        }),
{
    let location = match function {
        SystemFunction::SwitchLanguage | SystemFunction::SwitchLanguageBackward => {
            RegistryLocation {
                hkey: RegistryRoot::CurrentUser,
                subkey: "Keyboard Layout\\Toggle",
                value_names: vec!["Hotkey", "Language Hotkey"],
                parser: HotkeyParser::LanguageHotkey,
            }
        },
        SystemFunction::LockWorkstation => {
            RegistryLocation {
                hkey: RegistryRoot::CurrentUser,
                subkey: "Software\\Microsoft\\Windows\\CurrentVersion\\Explorer\\Advanced",
                value_names: vec!["LockWorkstationHotkey"],
                parser: HotkeyParser::WinKeyCombo,
            }
        },
        SystemFunction::ShowDesktop => {
            RegistryLocation {
                hkey: RegistryRoot::CurrentUser,
                subkey: "Software\\Microsoft\\Windows\\CurrentVersion\\Explorer\\Advanced",
                value_names: vec!["ShowDesktopHotkey"],
                parser: HotkeyParser::WinKeyCombo,
            }
        },
        SystemFunction::TaskManager => {
            RegistryLocation {
                hkey: RegistryRoot::CurrentUser,
                subkey: "Software\\Microsoft\\Windows\\CurrentVersion\\Policies\\System",
                value_names: vec!["TaskManagerHotkey"],
                parser: HotkeyParser::TaskManagerHotkey,
            }
        },
        SystemFunction::ToggleCapsLock => {
            return None;
        },
    };
    proof {
        assert(location@.value_names =~= registry_location(function).unwrap().value_names);
    }
    Some(location)
}

/// The built-in combination of a function, for when the registry holds
/// none.
pub fn get_default_combination(function: SystemFunction) -> (combination: Option<KeyCombination>)
    ensures
        combination_keys(combination) == default_keys(function),
        combination matches Some(c) ==> c.wf(),
{
    match function {
        SystemFunction::SwitchLanguage | SystemFunction::SwitchLanguageBackward => {
            Some(KeyCombination::new(VK_MENU).with(VK_SHIFT))
        },
        SystemFunction::LockWorkstation => Some(KeyCombination::new(VK_LWIN).with(VK_L)),
        SystemFunction::ShowDesktop => Some(KeyCombination::new(VK_LWIN).with(VK_D)),
        SystemFunction::TaskManager => {
            Some(KeyCombination::new(VK_CONTROL).with(VK_SHIFT).with(VK_ESCAPE))
        },
        SystemFunction::ToggleCapsLock => None,
    }
}

/// The key of an upper-case ASCII letter.
pub fn char_to_vk(ch: char) -> (key: Option<VirtualKey>)
    ensures
        key == letter_key(ch),
{
    if 'A' <= ch && ch <= 'Z' {
        Some(ch as u16)
    } else {
        None
    }
}

/// Reads a layout-switch setting that has been trimmed already.
pub fn language_hotkey_from_trimmed(trimmed: &str) -> (combination: Option<KeyCombination>)
    ensures
        combination_keys(combination) == language_hotkey_keys(trimmed@),
        combination matches Some(c) ==> c.wf(),
{
    if trimmed.unicode_len() != 1 {
        return None;
    }
    let ch = trimmed.get_char(0);
    if ch == '1' {
        Some(KeyCombination::new(VK_MENU).with(VK_SHIFT))
    } else if ch == '2' {
        Some(KeyCombination::new(VK_CONTROL).with(VK_SHIFT))
    } else if ch == '4' {
        Some(KeyCombination::new(VK_OEM_3))
    } else {
        None
    }
}

/// Reads a layout-switch setting.
pub fn parse_language_hotkey(value: &str) -> (combination: Option<KeyCombination>)
    ensures
        combination_keys(combination) == language_hotkey_keys(trimmed_text(value@)),
        combination matches Some(c) ==> c.wf(),
{
    language_hotkey_from_trimmed(trim_text(value))
}

/// Reads an OS-key hotkey setting that has been trimmed and upper-cased
/// already.
pub fn win_key_combo_from_upper(upper: &str) -> (combination: Option<KeyCombination>)
    ensures
        combination_keys(combination) == win_key_combo_keys(upper@),
        combination matches Some(c) ==> c.wf(),
{
    if upper.unicode_len() != 1 {
        return None;
    }
    match char_to_vk(upper.get_char(0)) {
        Some(vk) => Some(KeyCombination::new(VK_LWIN).with(vk)),
        None => None,
    }
}

/// Reads an OS-key hotkey setting: a single letter, in either case.
pub fn parse_win_key_combo(value: &str) -> (combination: Option<KeyCombination>)
    ensures
        combination_keys(combination) == win_key_combo_keys(uppercased_text(trimmed_text(value@))),
        combination matches Some(c) ==> c.wf(),
{
    let upper = uppercase_text(trim_text(value));
    win_key_combo_from_upper(upper.as_str())
}

/// The task manager's hotkey cannot be changed: no setting stands for one.
pub fn parse_task_manager_hotkey(value: &str) -> (combination: Option<KeyCombination>)
    ensures
        combination.is_none(),
{
    None
}

/// Reads a stored text with the parser of its location.
pub fn parse_hotkey(parser: HotkeyParser, value: &str) -> (combination: Option<KeyCombination>)
    ensures
        combination_keys(combination) == parsed_keys(parser, value@),
        combination matches Some(c) ==> c.wf(),
{
    match parser {
        HotkeyParser::LanguageHotkey => parse_language_hotkey(value),
        HotkeyParser::WinKeyCombo => parse_win_key_combo(value),
        HotkeyParser::TaskManagerHotkey => parse_task_manager_hotkey(value),
    }
}

/// Reads the raw data of one registry value: the text runs up to the first
/// zero unit, is decoded from UTF-16 and handed to the parser.
pub fn read_value_and_parse(
    data: &[u16],
    parser: HotkeyParser,
) -> (combination: Option<KeyCombination>)
    ensures
        combination_keys(combination) == value_keys(parser, data@),
        combination matches Some(c) ==> c.wf(),
{
    let mut str_len: usize = 0;
    while str_len < data.len() && data[str_len] != 0
        invariant
            str_len <= data@.len(),
            forall|i: int| 0 <= i < str_len ==> #[trigger] data@[i] != 0,
        decreases data@.len() - str_len,
    {
        str_len += 1;
    }
    proof {
        lemma_text_end(data@, str_len as int);
    }
    let value_str = decode_utf16_lossy(slice_subrange(data, 0, str_len));
    parse_hotkey(parser, value_str.as_str())
}

/// Goes through the values read at a location, in order, and returns the
/// hotkey of the first that was read and stands for one. `values` holds,
/// for each value name of the location, the data read under it, or `None`
/// where nothing could be read.
pub fn read_from_registry(
    location: &RegistryLocation,
    values: &[RegistryValue],
) -> (combination: Option<KeyCombination>)
    ensures
        combination_keys(combination) == first_parsed(location.parser, values@),
        combination matches Some(c) ==> c.wf(),
{
    let mut i: usize = 0;
    proof {
        assert(values@.skip(0) =~= values@);
    }
    while i < values.len()
        invariant
            i <= values@.len(),
            first_parsed(location.parser, values@.skip(i as int)) == first_parsed(
                location.parser,
                values@,
            ),
        decreases values@.len() - i,
    {
        proof {
            assert(values@.skip(i as int).skip(1) =~= values@.skip(i + 1));
            assert(values@.skip(i as int)[0] == values@[i as int]);
        }
        match &values[i] {
            Some(data) => {
                let combination = read_value_and_parse(data.as_slice(), location.parser);
                if combination.is_some() {
                    return combination;
                }
            },
            None => {},
        }
        i += 1;
    }
    None
}

/// The combinations under which the system offers a function: the hotkey
/// stored in the registry, else the built-in default; none for a function
/// that has no hotkey. `values` is what was read at the function's
/// location, as for `read_from_registry`.
pub fn get_system_hotkey(
    function: SystemFunction,
    values: &[RegistryValue],
) -> (combinations: Vec<KeyCombination>)
    ensures
        combinations_keys(combinations@) == system_hotkey_keys(function, values@),
        forall|i: int| 0 <= i < combinations@.len() ==> (#[trigger] combinations@[i]).wf(),
{
    let mut combinations: Vec<KeyCombination> = Vec::new();
    if let Some(location) = get_registry_location(function) {
        let found = match read_from_registry(&location, values) {
            Some(combination) => Some(combination),
            None => get_default_combination(function),
        };
        if let Some(combination) = found {
            combinations.push(combination);
        }
    }
    proof {
        assert(combinations_keys(combinations@) =~= system_hotkey_keys(function, values@));
    }
    combinations
}

} // verus!
