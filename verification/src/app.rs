//! Registration of bindings.

use vstd::prelude::*;
use crate::binding::Binding;
use crate::key_combination::KeyCombination;
use crate::keyboard_hook::{table_after_add, table_with_blockers, KeyboardHook};
use crate::registry::{combinations_keys, RegistryValue};

verus! {

/// The table after `binding` has been registered: the binding is added;
/// then, where it asks for it, each of the system's own combinations gets a
/// blocker unless the table, which by now holds the new binding, has a
/// binding for that combination already.
pub open spec fn table_after_registration(
    table: Seq<Binding>,
    binding: Binding,
    system_combinations: Seq<KeyCombination>,
) -> Seq<Binding> {
    let added = table_after_add(table, binding);
    if binding.block_original_combo {
        table_with_blockers(added, system_combinations)
    } else {
        added
    }
}

/// Owns the hook: the binding table and the state between key events.
pub struct App {
    pub hook: KeyboardHook,
}

impl App {
    /// The hook's table is ordered.
    pub open spec fn wf(&self) -> bool {
        self.hook.wf()
    }

    /// An application without bindings.
    pub fn new() -> (app: Self)
        ensures
            app.hook.bindings@ == Seq::<Binding>::empty(),
            app.hook.blocked_key.is_none(),
            forall|i: int| 0 <= i < 256 ==> !app.hook.active_keys@[i],
            app.wf(),
    {
        App { hook: KeyboardHook::new() }
    }

    /// Registers a binding, given the combinations under which the system
    /// offers the binding's action. A binding on such a combination itself
    /// gets no blocker: it is the table's binding for it.
    pub fn add_binding_with(
        self,
        binding: Binding,
        system_combinations: Vec<KeyCombination>,
    ) -> (app: Self)
        ensures
            app.hook.bindings@ == table_after_registration(
                self.hook.bindings@,
                binding,
                system_combinations@,
            ),
            app.hook.blocked_key == self.hook.blocked_key,
            app.hook.active_keys == self.hook.active_keys,
            app.wf(),
    {
        let mut app = self;
        let block_original_combo = binding.block_original_combo;
        app.hook.add_binding(binding);
        if block_original_combo {
            app.hook.synthesize_auto_blockers(system_combinations);
        }
        app
    }

    /// Registers a binding. `values` is what was read at the registry
    /// location of the action's system function; it decides which
    /// combinations are blocked along with the binding.
    pub fn add_binding(self, binding: Binding, values: &[RegistryValue]) -> (app: Self)
        ensures
            binding.block_original_combo ==> exists|system_combinations: Seq<KeyCombination>|
                combinations_keys(system_combinations) == binding.action.system_keys(values@)
                    && app.hook.bindings@ == #[trigger] table_after_registration(
                    self.hook.bindings@,
                    binding,
                    system_combinations,
                ),
            !binding.block_original_combo ==> app.hook.bindings@ == table_after_add(
                self.hook.bindings@,
                binding,
            ),
            app.hook.blocked_key == self.hook.blocked_key,
            app.hook.active_keys == self.hook.active_keys,
            app.wf(),
    {
        if binding.block_original_combo {
            let system_combinations = binding.action.get_system_combinations(values);
            self.add_binding_with(binding, system_combinations)
        } else {
            self.add_binding_with(binding, Vec::new())
        }
    }
}

} // verus!
