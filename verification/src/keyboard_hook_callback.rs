//! The decisions taken for each key event: which keys count as pressed,
//! which binding fires, and whether the event is withheld.

use vstd::prelude::*;
use crate::actions::{is_injected_event, BindAction, Effect, INJECTED_EXTRA_INFO};
use crate::binding::Binding;
use crate::keyboard_hook::{first_match_index, KeyboardHook};
use crate::keys::{canonical_key, normalize_key, VirtualKey};

verus! {

/// Message number of a key press.
pub const WM_KEYDOWN: usize = 0x0100;

/// Message number of a key press while alt is held.
pub const WM_SYSKEYDOWN: usize = 0x0104;

/// What the dispatcher decided for one event.
#[derive(Debug, Clone, Copy)]
pub struct Verdict {
    /// Withhold the event from the foreground application.
    pub suppress: bool,
    /// The action of the binding that fired, if one did.
    pub fired: Option<BindAction>,
    /// What the caller has to perform for it.
    pub effect: Effect,
}

/// The logical keys that count as pressed: the canonical identity of every
/// key code whose flag is set.
pub open spec fn pressed_set(active: Seq<bool>) -> Set<VirtualKey> {
    Set::new(
        |key: VirtualKey|
            exists|raw: int|
                0 <= raw < active.len() && raw <= 0xFFFF && #[trigger] active[raw] && canonical_key(
                    raw as u16,
                ) == key,
    )
}

/// The logical keys of the set flags among the first `n` codes (codes are
/// 16 bits wide), each once, in ascending order of the lowest code that
/// stands for it.
pub open spec fn pressed_keys_below(active: Seq<bool>, n: nat) -> Seq<VirtualKey>
    decreases n,
{
    if n == 0 || n > 0x10000 {
        Seq::empty()
    } else {
        let front = pressed_keys_below(active, (n - 1) as nat);
        let key = canonical_key((n - 1) as u16);
        if n - 1 < active.len() && active[n - 1] && !front.contains(key) {
            front.push(key)
        } else {
            front
        }
    }
}

/// The flags after a press of `key`: the flag of its canonical identity is
/// set, if it has one.
pub open spec fn active_after_down(active: Seq<bool>, key: VirtualKey) -> Seq<bool> {
    if canonical_key(key) < active.len() {
        active.update(canonical_key(key) as int, true)
    } else {
        active
    }
}

/// The flags after a release of `key`: the flag of its canonical identity is
/// cleared, if it has one.
pub open spec fn active_after_up(active: Seq<bool>, key: VirtualKey) -> Seq<bool> {
    if canonical_key(key) < active.len() {
        active.update(canonical_key(key) as int, false)
    } else {
        active
    }
}

/// The binding that fires when `key` goes down.
pub open spec fn key_down_match(table: Seq<Binding>, active: Seq<bool>, key: VirtualKey) -> Option<int> {
    first_match_index(table, pressed_set(active_after_down(active, key)))
}

/// Whether the press of `key` is withheld: a binding fires and asks for it.
pub open spec fn key_down_suppresses(table: Seq<Binding>, active: Seq<bool>, key: VirtualKey) -> bool {
    match key_down_match(table, active, key) {
        Some(i) => table[i].block_default,
        None => false,
    }
}

/// The withheld key after a press of `key`.
pub open spec fn blocked_after_down(
    table: Seq<Binding>,
    active: Seq<bool>,
    blocked: Option<VirtualKey>,
    key: VirtualKey,
) -> Option<VirtualKey> {
    if key_down_suppresses(table, active, key) {
        Some(key)
    } else {
        blocked
    }
}

/// The withheld key after a release of `key`.
pub open spec fn blocked_after_up(blocked: Option<VirtualKey>, key: VirtualKey) -> Option<VirtualKey> {
    if blocked == Some(key) {
        None
    } else {
        blocked
    }
}

/// Lists the logical keys that are held down, each once.
pub fn get_active_keys(mask: &[bool; 256]) -> (keys: Vec<VirtualKey>)
    ensures
        keys@ == pressed_keys_below(mask@, 256),
        keys@.no_duplicates(),
        keys@.to_set() == pressed_set(mask@),
{
    let mut keys: Vec<VirtualKey> = Vec::new();
    let mut vk: u16 = 0;
    while vk < 256
        invariant
            vk <= 256,
            keys@ == pressed_keys_below(mask@, vk as nat),
            keys@.no_duplicates(),
            forall|key: VirtualKey|
                keys@.contains(key) <==> exists|raw: int|
                    0 <= raw < vk && #[trigger] mask@[raw] && canonical_key(raw as u16) == key,
        decreases 256 - vk,
    {
        let ghost before = keys@;
        if mask[vk as usize] {
            let normalized_vk = normalize_key(vk);
            if !crate::key_combination::contains_key(keys.as_slice(), normalized_vk) {
                keys.push(normalized_vk);
            }
        }
        proof {
            let after = keys@;
            let key_here = canonical_key(vk);
            assert forall|key: VirtualKey|
                after.contains(key) <==> exists|raw: int|
                    0 <= raw < vk + 1 && #[trigger] mask@[raw] && canonical_key(raw as u16) == key by {
                if after.contains(key) {
                    if before.contains(key) {
                        let raw = choose|raw: int|
                            0 <= raw < vk && #[trigger] mask@[raw] && canonical_key(raw as u16) == key;
                        assert(0 <= raw < vk + 1 && mask@[raw] && canonical_key(raw as u16) == key);
                    } else {
                        let i = choose|i: int| 0 <= i < after.len() && after[i] == key;
                        assert(i == before.len());
                        assert(key == key_here && mask@[vk as int]);
                    }
                }
                if exists|raw: int|
                    0 <= raw < vk + 1 && #[trigger] mask@[raw] && canonical_key(raw as u16) == key {
                    let raw = choose|raw: int|
                        0 <= raw < vk + 1 && #[trigger] mask@[raw] && canonical_key(raw as u16) == key;
                    if raw < vk {
                        assert(before.contains(key));
                        let i = choose|i: int| 0 <= i < before.len() && before[i] == key;
                        assert(after[i] == key);
                    } else {
                        if before.contains(key) {
                            let i = choose|i: int| 0 <= i < before.len() && before[i] == key;
                            assert(after[i] == key);
                        } else {
                            assert(after[after.len() - 1] == key);
                        }
                    }
                }
            }
        }
        vk += 1;
    }
    proof {
        assert forall|key: VirtualKey| keys@.to_set().contains(key) <==> pressed_set(mask@).contains(key) by {
            if keys@.contains(key) {
                let raw = choose|raw: int|
                    0 <= raw < 256 && #[trigger] mask@[raw] && canonical_key(raw as u16) == key;
                assert(0 <= raw < mask@.len() && raw <= 0xFFFF && mask@[raw] && canonical_key(raw as u16) == key);
            }
            if pressed_set(mask@).contains(key) {
                let raw = choose|raw: int|
                    0 <= raw < mask@.len() && raw <= 0xFFFF && #[trigger] mask@[raw] && canonical_key(
                        raw as u16,
                    ) == key;
                assert(0 <= raw < 256 && mask@[raw] && canonical_key(raw as u16) == key);
            }
        }
        assert(keys@.to_set() =~= pressed_set(mask@));
    }
    keys
}

/// A key went down: its logical key becomes active, the first binding that
/// the pressed keys satisfy fires, and the event is withheld if that binding
/// asks for it.
pub fn handle_key_down(hook: &mut KeyboardHook, vk_code: VirtualKey) -> (verdict: Verdict)
    ensures
        is_key_down_step(*old(hook), vk_code, *final(hook), verdict),
{
    let vk_index = normalize_key(vk_code) as usize;
    if vk_index < 256 {
        hook.active_keys[vk_index] = true;
    }
    let active_keys = get_active_keys(&hook.active_keys);
    let (fired, effect, block) = match hook.first_match(active_keys.as_slice()) {
        Some(binding) => (Some(binding.action), binding.execute(), binding.block_default),
        None => (None, Effect::Nothing, false),
    };
    if block {
        hook.blocked_key = Some(vk_code);
    }
    Verdict { suppress: block, fired, effect }
}

/// A key went up: its logical key is no longer active, and the event is
/// withheld exactly if the press of this same key was.
pub fn handle_key_up(hook: &mut KeyboardHook, vk_code: VirtualKey) -> (suppress: bool)
    ensures
        final(hook).bindings@ == old(hook).bindings@,
        final(hook).active_keys@ == active_after_up(old(hook).active_keys@, vk_code),
        final(hook).blocked_key == blocked_after_up(old(hook).blocked_key, vk_code),
        suppress == (old(hook).blocked_key == Some(vk_code)),
{
    let vk_index = normalize_key(vk_code) as usize;
    if vk_index < 256 {
        hook.active_keys[vk_index] = false;
    }
    match hook.blocked_key {
        Some(blocked) => {
            if blocked == vk_code {
                hook.blocked_key = None;
                true
            } else {
                false
            }
        },
        None => false,
    }
}

/// The low 16 bits of the code that the platform reports: the key.
pub open spec fn low_word(vk_code: u32) -> VirtualKey {
    (vk_code % 0x10000) as u16
}

/// The event passed through: nothing changed, nothing fired, nothing is
/// withheld.
pub open spec fn passes_through(before: KeyboardHook, after: KeyboardHook, verdict: Verdict) -> bool {
    &&& after == before
    &&& !verdict.suppress
    &&& verdict.fired.is_none()
    &&& verdict.effect == Effect::Nothing
}

/// `after` and `verdict` are what a press of `key` makes of `before`.
pub open spec fn is_key_down_step(
    before: KeyboardHook,
    key: VirtualKey,
    after: KeyboardHook,
    verdict: Verdict,
) -> bool {
    &&& after.bindings@ == before.bindings@
    &&& after.active_keys@ == active_after_down(before.active_keys@, key)
    &&& after.blocked_key == blocked_after_down(
        before.bindings@,
        before.active_keys@,
        before.blocked_key,
        key,
    )
    &&& verdict.suppress == key_down_suppresses(before.bindings@, before.active_keys@, key)
    &&& verdict.fired == match key_down_match(before.bindings@, before.active_keys@, key) {
        Some(i) => Some(before.bindings@[i].action),
        None => None,
    }
    &&& verdict.effect == match verdict.fired {
        Some(action) => action.effect(),
        None => Effect::Nothing,
    }
}

/// `after` and `verdict` are what a release of `key` makes of `before`.
pub open spec fn is_key_up_step(
    before: KeyboardHook,
    key: VirtualKey,
    after: KeyboardHook,
    verdict: Verdict,
) -> bool {
    &&& after.bindings@ == before.bindings@
    &&& after.active_keys@ == active_after_up(before.active_keys@, key)
    &&& after.blocked_key == blocked_after_up(before.blocked_key, key)
    &&& verdict.suppress == (before.blocked_key == Some(key))
    &&& verdict.fired.is_none()
    &&& verdict.effect == Effect::Nothing
}

/// Whether the platform's message number announces a press.
pub open spec fn is_key_down_message(message: usize) -> bool {
    message == WM_KEYDOWN || message == WM_SYSKEYDOWN
}

/// The entry point for every key event. An event that the platform marks
/// as not to be processed (`code < 0`), or that carries the marker of
/// synthesized input, passes through and changes nothing. Any other event is
/// a press or a release of the key whose code is the low 16 bits of
/// `vk_code`.
pub fn keyboard_hook_callback(
    hook: &mut KeyboardHook,
    code: i32,
    message: usize,
    vk_code: u32,
    extra_info: usize,
) -> (verdict: Verdict)
    ensures
        final(hook).bindings@ == old(hook).bindings@,
        code < 0 || extra_info == INJECTED_EXTRA_INFO ==> passes_through(
            *old(hook),
            *final(hook),
            verdict,
        ),
        code >= 0 && extra_info != INJECTED_EXTRA_INFO && is_key_down_message(message)
            ==> is_key_down_step(*old(hook), low_word(vk_code), *final(hook), verdict),
        code >= 0 && extra_info != INJECTED_EXTRA_INFO && !is_key_down_message(message)
            ==> is_key_up_step(*old(hook), low_word(vk_code), *final(hook), verdict),
{
    if code < 0 {
        return Verdict { suppress: false, fired: None, effect: Effect::Nothing };
    }
    if is_injected_event(extra_info) {
        return Verdict { suppress: false, fired: None, effect: Effect::Nothing };
    }
    let key = (vk_code % 0x10000) as u16;
    let is_key_down = message == WM_KEYDOWN || message == WM_SYSKEYDOWN;
    if is_key_down {
        handle_key_down(hook, key)
    } else {
        let suppress = handle_key_up(hook, key);
        Verdict { suppress, fired: None, effect: Effect::Nothing }
    }
}

} // verus!
