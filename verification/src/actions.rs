//! What a binding does when its combination is pressed.

use vstd::prelude::*;
use crate::key_combination::KeyCombination;
use crate::keys::VirtualKey;
use crate::registry::{combinations_keys, system_hotkey_keys, RegistryValue};
use crate::system_function::SystemFunction;

verus! {

/// The marker that every synthesized key event carries, so that the
/// dispatcher can tell it from hardware input.
pub const INJECTED_EXTRA_INFO: usize = 0xDEADBEEF;

/// What a binding does.
#[derive(Debug, Clone, Copy, PartialEq, Eq, Structural)]
pub enum BindAction {
    SwitchLanguage,
    SwitchLanguageBackward,
    ToggleCapsLock,
    PressKey(VirtualKey),
    PostMessage { msg: u32, wparam: usize, lparam: isize },
    DoNothing,
}

/// A side effect for the caller to perform. Synthesized key presses carry
/// `INJECTED_EXTRA_INFO`.
#[derive(Debug, Clone, Copy, PartialEq, Eq, Structural)]
pub enum Effect {
    /// Press and release a key.
    PressKey(VirtualKey),
    /// Post a message to the foreground window, if there is one.
    PostToForeground { msg: u32, wparam: usize, lparam: isize },
    /// Post a message to the task bar's window, if it is found.
    PostToTaskbar { msg: u32, wparam: usize, lparam: isize },
    /// Lock the workstation.
    LockWorkstation,
    /// Start the task manager.
    OpenTaskManager,
    /// Nothing to do.
    Nothing,
}

impl BindAction {
    /// The system function that the action stands for, if it stands for one.
    pub open spec fn system_function(&self) -> Option<SystemFunction> {
        match self {
            BindAction::SwitchLanguage => Some(SystemFunction::SwitchLanguage),
            BindAction::SwitchLanguageBackward => Some(SystemFunction::SwitchLanguageBackward),
            BindAction::ToggleCapsLock => Some(SystemFunction::ToggleCapsLock),
            _ => None,
        }
    }

    /// The primitive by which the action is carried out.
    pub open spec fn effect(&self) -> Effect {
        match self {
            BindAction::SwitchLanguage => SystemFunction::SwitchLanguage.effect(),
            BindAction::SwitchLanguageBackward => SystemFunction::SwitchLanguageBackward.effect(),
            BindAction::ToggleCapsLock => SystemFunction::ToggleCapsLock.effect(),
            BindAction::PressKey(vk) => Effect::PressKey(*vk),
            BindAction::PostMessage { msg, wparam, lparam } => Effect::PostToForeground {
                msg: *msg,
                wparam: *wparam,
                lparam: *lparam,
            },
            BindAction::DoNothing => Effect::Nothing,
        }
    }

    /// Decides what has to be done to carry the action out; the caller
    /// performs it.
    pub fn execute(&self) -> (effect: Effect)
        ensures
            effect == self.effect(),
    {
        if let Some(sys_func) = self.to_system_function() {
            return sys_func.execute();
        }
        match self {
            BindAction::PressKey(vk) => Effect::PressKey(*vk),
            BindAction::PostMessage { msg, wparam, lparam } => Effect::PostToForeground {
                msg: *msg,
                wparam: *wparam,
                lparam: *lparam,
            },
            _ => Effect::Nothing,
        }
    }

    /// The combinations under which the system itself offers what the
    /// action does, given the values read at the registry location of the
    /// action's system function.
    pub open spec fn system_keys(&self, values: Seq<RegistryValue>) -> Seq<Seq<VirtualKey>> {
        match self.system_function() {
            Some(function) => system_hotkey_keys(function, values),
            None => Seq::empty(),
        }
    }

    /// The combinations under which the system itself offers what the
    /// action does: those of its system function, and none for an action
    /// that stands for no system function.
    pub fn get_system_combinations(
        &self,
        values: &[RegistryValue],
    ) -> (combinations: Vec<KeyCombination>)
        ensures
            combinations_keys(combinations@) == self.system_keys(values@),
            forall|i: int| 0 <= i < combinations@.len() ==> (#[trigger] combinations@[i]).wf(),
    {
        let mut combinations: Vec<KeyCombination> = Vec::new();
        if let Some(function) = self.to_system_function() {
            if let Some(combination) = function.get_system_combination(values) {
                combinations.push(combination);
            }
        }
        proof {
            assert(combinations_keys(combinations@) =~= self.system_keys(values@));
        }
        combinations
    }

    /// The system function that the action stands for, if it stands for one.
    pub fn to_system_function(&self) -> (function: Option<SystemFunction>)
        ensures
            function == self.system_function(),
    {
        match self {
            BindAction::SwitchLanguage => Some(SystemFunction::SwitchLanguage),
            BindAction::SwitchLanguageBackward => Some(SystemFunction::SwitchLanguageBackward),
            BindAction::ToggleCapsLock => Some(SystemFunction::ToggleCapsLock),
            _ => None,
        }
    }
}

/// Whether a key event was synthesized by one of this library's actions.
pub fn is_injected_event(extra_info: usize) -> (injected: bool)
    ensures
        injected == (extra_info == INJECTED_EXTRA_INFO),
{
    extra_info == INJECTED_EXTRA_INFO
}

} // verus!
