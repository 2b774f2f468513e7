//! Bindings: a key combination, an action and the suppression flags.

use vstd::prelude::*;
use crate::actions::{BindAction, Effect};
use crate::key_combination::KeyCombination;

verus! {

/// A key combination, the action bound to it, and what is withheld when
/// it fires.
#[derive(Debug, Clone)]
pub struct Binding {
    pub combination: KeyCombination,
    pub action: BindAction,
    /// Withhold the key that completed the combination from the foreground
    /// application.
    pub block_default: bool,
    /// Also block the combination under which the system offers the action.
    pub block_original_combo: bool,
    /// Set on the blockers that registration adds by itself.
    pub is_auto_blocker: bool,
}

impl Binding {
    /// A synthetic blocker does nothing and always blocks.
    pub open spec fn wf(&self) -> bool {
        self.is_auto_blocker ==> self.action == BindAction::DoNothing && self.block_default
    }

    /// The blocker that registration adds for a system combination.
    pub open spec fn auto_blocker(combination: KeyCombination) -> Binding {
        Binding {
            combination,
            action: BindAction::DoNothing,
            block_default: true,
            block_original_combo: false,
            is_auto_blocker: true,
        }
    }

    /// Number of keys listed in the combination: the binding's specificity.
    pub open spec fn size(&self) -> nat {
        self.combination.keys@.len()
    }

    /// A user binding: it blocks the completing key and leaves the system's
    /// own combination alone.
    pub fn new(combination: KeyCombination, action: BindAction) -> (binding: Self)
        ensures
            binding == (Binding {
                combination,
                action,
                block_default: true,
                block_original_combo: false,
                is_auto_blocker: false,
            }),
            binding.wf(),
    {
        Binding {
            combination,
            action,
            block_default: true,
            block_original_combo: false,
            is_auto_blocker: false,
        }
    }

    /// The blocker that registration adds for a system combination: it does
    /// nothing and withholds the completing key.
    pub fn new_auto_blocker(combination: KeyCombination) -> (binding: Self)
        ensures
            binding == Binding::auto_blocker(combination),
            binding.wf(),
    {
        Binding {
            combination,
            action: BindAction::DoNothing,
            block_default: true,
            block_original_combo: false,
            is_auto_blocker: true,
        }
    }

    /// Sets whether the completing key is withheld.
    pub fn with_block_default(self, block: bool) -> (binding: Self)
        ensures
            binding == (Binding { block_default: block, ..self }),
            self.wf() && (block || !self.is_auto_blocker) ==> binding.wf(),
    {
        let mut binding = self;
        binding.block_default = block;
        binding
    }

    /// Sets whether the system's own combination for the action is blocked
    /// along with this binding.
    pub fn with_block_original_combo(self, block: bool) -> (binding: Self)
        ensures
            binding == (Binding { block_original_combo: block, ..self }),
            self.wf() ==> binding.wf(),
    {
        let mut binding = self;
        binding.block_original_combo = block;
        binding
    }

    /// Whether registration added this binding by itself.
    pub fn is_auto_blocker(&self) -> (synthetic: bool)
        ensures
            synthetic == self.is_auto_blocker,
    {
        self.is_auto_blocker
    }

    /// Decides what has to be done to carry the binding's action out; the
    /// caller performs it.
    pub fn execute(&self) -> (effect: Effect)
        ensures
            effect == self.action.effect(),
    {
        self.action.execute()
    }
}

} // verus!
