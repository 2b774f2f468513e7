//! Functions that the operating system offers under a hotkey of its own.

use vstd::prelude::*;
use crate::actions::Effect;
use crate::key_combination::KeyCombination;
use crate::keys::{VirtualKey, VK_CAPITAL};
use crate::registry::{
    combination_keys, combinations_keys, get_system_hotkey, system_hotkey_keys, RegistryValue,
};

verus! {

/// Message that asks a window to change its input language.
pub const WM_INPUTLANGCHANGEREQUEST: u32 = 0x0050;

/// Message that carries a menu or accelerator command.
pub const WM_COMMAND: u32 = 0x0111;

/// Parameter of the language request: the next layout.
pub const INPUTLANGCHANGE_FORWARD: usize = 0x0002;

/// Parameter of the language request: the previous layout.
pub const INPUTLANGCHANGE_BACKWARD: usize = 0x0004;

/// Command number by which the task bar minimizes all windows.
pub const SHOW_DESKTOP_COMMAND: usize = 419;

/// A function of the operating system that has, or may have, a hotkey of
/// its own.
#[derive(Debug, Clone, Copy, PartialEq, Eq, Structural)]
pub enum SystemFunction {
    SwitchLanguage,
    SwitchLanguageBackward,
    LockWorkstation,
    ShowDesktop,
    TaskManager,
    ToggleCapsLock,
}

impl SystemFunction {
    /// The primitive by which each function is carried out.
    pub open spec fn effect(&self) -> Effect {
        match self {
            SystemFunction::SwitchLanguage => Effect::PostToForeground {
                msg: WM_INPUTLANGCHANGEREQUEST,
                wparam: INPUTLANGCHANGE_FORWARD,
                lparam: 0,
            },
            SystemFunction::SwitchLanguageBackward => Effect::PostToForeground {
                msg: WM_INPUTLANGCHANGEREQUEST,
                wparam: INPUTLANGCHANGE_BACKWARD,
                lparam: 0,
            },
            SystemFunction::LockWorkstation => Effect::LockWorkstation,
            SystemFunction::ShowDesktop => Effect::PostToTaskbar {
                msg: WM_COMMAND,
                wparam: SHOW_DESKTOP_COMMAND,
                lparam: 0,
            },
            SystemFunction::TaskManager => Effect::OpenTaskManager,
            SystemFunction::ToggleCapsLock => Effect::PressKey(VK_CAPITAL),
        }
    }

    /// Decides what has to be done to carry the function out; the caller
    /// performs it.
    pub fn execute(&self) -> (effect: Effect)
        ensures
            effect == self.effect(),
    {
        match self {
            SystemFunction::SwitchLanguage => Effect::PostToForeground {
                msg: WM_INPUTLANGCHANGEREQUEST,
                wparam: INPUTLANGCHANGE_FORWARD,
                lparam: 0,
            },
            SystemFunction::SwitchLanguageBackward => Effect::PostToForeground {
                msg: WM_INPUTLANGCHANGEREQUEST,
                wparam: INPUTLANGCHANGE_BACKWARD,
                lparam: 0,
            },
            SystemFunction::LockWorkstation => Effect::LockWorkstation,
            SystemFunction::ShowDesktop => Effect::PostToTaskbar {
                msg: WM_COMMAND,
                wparam: SHOW_DESKTOP_COMMAND,
                lparam: 0,
            },
            SystemFunction::TaskManager => Effect::OpenTaskManager,
            SystemFunction::ToggleCapsLock => Effect::PressKey(VK_CAPITAL),
        }
    }

    /// The combinations under which the system offers the function, given
    /// the values read at its registry location.
    pub fn get_system_combinations(
        &self,
        values: &[RegistryValue],
    ) -> (combinations: Vec<KeyCombination>)
        ensures
            combinations_keys(combinations@) == system_hotkey_keys(*self, values@),
            forall|i: int| 0 <= i < combinations@.len() ==> (#[trigger] combinations@[i]).wf(),
    {
        get_system_hotkey(*self, values)
    }

    /// The first of those combinations, if there is one.
    pub fn get_system_combination(
        &self,
        values: &[RegistryValue],
    ) -> (combination: Option<KeyCombination>)
        ensures
            combination_keys(combination) == first_keys(system_hotkey_keys(*self, values@)),
            combination matches Some(c) ==> c.wf(),
    {
        let mut combinations = self.get_system_combinations(values);
        if combinations.len() > 0 {
            proof {
                assert(combinations_keys(combinations@)[0] == combinations@[0].keys@);
            }
            Some(combinations.remove(0))
        } else {
            proof {
                assert(combinations_keys(combinations@).len() == 0);
            }
            None
        }
    }
}

/// The first entry of a list of key lists.
pub open spec fn first_keys(list: Seq<Seq<VirtualKey>>) -> Option<Seq<VirtualKey>> {
    if list.len() > 0 {
        Some(list[0])
    } else {
        None
    }
}

} // verus!
