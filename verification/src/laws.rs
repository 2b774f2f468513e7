//! Laws that relate the table's order, matching and the dispatch
//! transitions.

use vstd::prelude::*;
use crate::app::table_after_registration;
use crate::binding::Binding;
use crate::key_combination::KeyCombination;
use crate::keyboard_hook::{
    first_match_index, inserted_by_size, insertion_point, is_first_match, lemma_add_keeps_order,
    lemma_first_match_index, lemma_insertion_point, lemma_ordered_by_size, ordered_by_size,
    sorted_by_size, table_after_add, table_contains, table_with_blockers,
};
use crate::keyboard_hook_callback::{
    active_after_down, active_after_up, blocked_after_down, blocked_after_up, key_down_suppresses,
};
use crate::keys::{canonical_key, VirtualKey};

verus! {

/// Every combination of the table lists no key twice.
pub open spec fn combinations_wf(table: Seq<Binding>) -> bool {
    forall|i: int| 0 <= i < table.len() ==> (#[trigger] table[i]).combination.wf()
}

/// `index` holds a synthetic blocker for `combination`.
pub open spec fn is_blocker_for(table: Seq<Binding>, combination: KeyCombination, index: int) -> bool {
    &&& 0 <= index < table.len()
    &&& table[index].is_auto_blocker
    &&& table[index].combination.same_keys_spec(&combination)
}

/// The table holds exactly one synthetic blocker for `combination`.
pub open spec fn has_one_blocker_for(table: Seq<Binding>, combination: KeyCombination) -> bool {
    exists|i: int|
        {
            &&& #[trigger] is_blocker_for(table, combination, i)
            &&& forall|j: int| #[trigger] is_blocker_for(table, combination, j) ==> j == i
        }
}

/// Every binding of the table keeps the rule of synthetic blockers: such a
/// binding does nothing and withholds the completing key.
pub open spec fn bindings_wf(table: Seq<Binding>) -> bool {
    forall|i: int| 0 <= i < table.len() ==> (#[trigger] table[i]).wf()
}

/// Registration keeps the table ordered and its bindings well formed: the
/// blockers that it adds by itself do nothing and withhold the completing
/// key.
pub proof fn lemma_registration_keeps_table_valid(
    table: Seq<Binding>,
    binding: Binding,
    system_combinations: Seq<KeyCombination>,
)
    requires
        sorted_by_size(table),
        bindings_wf(table),
        binding.wf(),
    ensures
        sorted_by_size(table_after_registration(table, binding, system_combinations)),
        bindings_wf(table_after_registration(table, binding, system_combinations)),
{
    lemma_add_keeps_table_valid(table, binding);
    lemma_blockers_keep_table_valid(table_after_add(table, binding), system_combinations);
}

/// Adding a well-formed binding keeps the table ordered and well formed.
pub proof fn lemma_add_keeps_table_valid(table: Seq<Binding>, binding: Binding)
    requires
        sorted_by_size(table),
        bindings_wf(table),
        binding.wf(),
    ensures
        sorted_by_size(table_after_add(table, binding)),
        bindings_wf(table_after_add(table, binding)),
{
    lemma_add_keeps_order(table, binding);
    lemma_insertion_point(table, binding.size());
    let p = insertion_point(table, binding.size());
    let after = inserted_by_size(table, binding);
    assert forall|i: int| 0 <= i < after.len() implies (#[trigger] after[i]).wf() by {
        if i < p {
            assert(after[i] == table[i]);
        } else if i > p {
            assert(after[i] == table[i - 1]);
        }
    }
}

/// Adding blockers keeps the table ordered and well formed.
pub proof fn lemma_blockers_keep_table_valid(table: Seq<Binding>, combinations: Seq<KeyCombination>)
    requires
        sorted_by_size(table),
        bindings_wf(table),
    ensures
        sorted_by_size(table_with_blockers(table, combinations)),
        bindings_wf(table_with_blockers(table, combinations)),
    decreases combinations.len(),
{
    if combinations.len() > 0 {
        let first = combinations[0];
        if table_contains(table, first) {
            lemma_blockers_keep_table_valid(table, combinations.skip(1));
        } else {
            let blocker = Binding::auto_blocker(first);
            lemma_add_keeps_table_valid(table, blocker);
            lemma_blockers_keep_table_valid(table_after_add(table, blocker), combinations.skip(1));
        }
    }
}

/// More pressed keys never unsatisfy a combination.
pub proof fn lemma_satisfied_by_supersets(
    combination: KeyCombination,
    pressed: Set<VirtualKey>,
    more: Set<VirtualKey>,
)
    requires
        combination.satisfied_by(pressed),
        pressed.subset_of(more),
    ensures
        combination.satisfied_by(more),
{
}

/// Specificity: when the table holds a binding `a` whose keys are a proper
/// subset of those of a binding `b`, and exactly the keys of `b` are
/// pressed, the binding that fires has the key set of `b`, and it is not `a`.
pub proof fn lemma_most_specific_wins(table: Seq<Binding>, a: int, b: int)
    requires
        sorted_by_size(table),
        combinations_wf(table),
        0 <= a < table.len(),
        0 <= b < table.len(),
        table[a].combination@.subset_of(table[b].combination@),
        table[a].combination@ != table[b].combination@,
    ensures
        first_match_index(table, table[b].combination@) matches Some(m) && 0 <= m <= b && m != a
            && table[m].combination@ == table[b].combination@,
{
    let pressed = table[b].combination@;
    assert(table[b].combination.satisfied_by(pressed));
    lemma_first_match_index(table, pressed);
    let m = first_match_index(table, pressed).unwrap();
    assert(is_first_match(table, pressed, m));
    if m > b {
        assert(!table[b].combination.satisfied_by(pressed));
    }
    if m < b {
        assert(table[m].size() >= table[b].size());
        table[m].combination.keys@.unique_seq_to_set();
        table[b].combination.keys@.unique_seq_to_set();
        vstd::set_lib::lemma_len_subset(table[m].combination@, pressed);
        vstd::set_lib::lemma_subset_equality(table[m].combination@, pressed);
    }
}

/// A press and the release of the same physical key leave no key withheld.
/// This holds unless another key was being withheld before and the press
/// itself is not withheld: that key stays withheld until its own release.
pub proof fn lemma_press_release_clears_block(
    table: Seq<Binding>,
    active: Seq<bool>,
    blocked: Option<VirtualKey>,
    key: VirtualKey,
)
    requires
        blocked.is_none() || blocked == Some(key) || key_down_suppresses(table, active, key),
    ensures
        blocked_after_up(blocked_after_down(table, active, blocked, key), key).is_none(),
{
}

/// A release clears the flag that the press of either side of the same
/// logical key has set.
pub proof fn lemma_release_matches_either_side(active: Seq<bool>, pressed: VirtualKey, released: VirtualKey)
    requires
        canonical_key(pressed) == canonical_key(released),
        canonical_key(pressed) < active.len(),
    ensures
        active_after_down(active, pressed)[canonical_key(pressed) as int],
        !active_after_up(active_after_down(active, pressed), released)[canonical_key(pressed) as int],
        active_after_up(active_after_down(active, pressed), released) == active_after_up(active, pressed),
{
    assert(active_after_up(active_after_down(active, pressed), released) =~= active_after_up(
        active,
        pressed,
    ));
}

/// Every combination equals itself.
pub proof fn lemma_same_keys_reflexive(combination: KeyCombination)
    ensures
        combination.same_keys_spec(&combination),
{
    assert forall|i: int| 0 <= i < combination.keys@.len() implies combination.keys@.contains(
        #[trigger] combination.keys@[i],
    ) by {
    }
}

/// A table to which `binding` has been added holds a binding for every
/// combination that equals the binding's own.
pub proof fn lemma_added_binding_is_bound(
    table: Seq<Binding>,
    binding: Binding,
    combination: KeyCombination,
)
    requires
        binding.combination.same_keys_spec(&combination),
    ensures
        table_contains(table_after_add(table, binding), combination),
{
    let ordered = ordered_by_size(table);
    lemma_ordered_by_size(table);
    lemma_add_keeps_order(table, binding);
    lemma_insertion_point(ordered, binding.size());
    let p = insertion_point(ordered, binding.size());
    let after = table_after_add(table, binding);
    assert(after[p] == binding);
    assert(after[p].combination.same_keys_spec(&combination));
}

/// Registering a binding that asks for the system's combination to be
/// blocked adds no blocker where the table, with the new binding in it,
/// holds a binding for that combination.
pub proof fn lemma_no_blocker_where_bound(
    table: Seq<Binding>,
    binding: Binding,
    combination: KeyCombination,
)
    requires
        table_contains(table_after_add(table, binding), combination),
    ensures
        table_after_registration(table, binding, seq![combination]) == table_after_add(
            table,
            binding,
        ),
{
    let combinations = seq![combination];
    assert(combinations.skip(1).len() == 0);
    assert(combinations[0] == combination);
    reveal_with_fuel(table_with_blockers, 3);
}

/// A binding on the system's own combination is registered alone, whatever
/// the table held; registered into an empty table it is the whole table,
/// and it is what fires when exactly its keys are pressed.
pub proof fn lemma_binding_on_system_combination(
    table: Seq<Binding>,
    binding: Binding,
    combination: KeyCombination,
)
    requires
        binding.combination.same_keys_spec(&combination),
    ensures
        table_after_registration(table, binding, seq![combination]) == table_after_add(
            table,
            binding,
        ),
        table.len() == 0 ==> table_after_registration(table, binding, seq![combination]) == seq![
            binding,
        ],
        first_match_index(seq![binding], binding.combination@) == Some(0int),
{
    lemma_added_binding_is_bound(table, binding, combination);
    lemma_no_blocker_where_bound(table, binding, combination);
    lemma_add_keeps_order(table, binding);
    if table.len() == 0 {
        assert(table_after_add(table, binding) =~= seq![binding]);
    }
    let alone = seq![binding];
    assert(alone[0] == binding);
    assert(is_first_match(alone, binding.combination@, 0));
    lemma_first_match_index(alone, binding.combination@);
}

/// Registering a binding that asks for the system's combination to be
/// blocked, where the table with the new binding in it holds no binding for
/// that combination, adds the binding and then one blocker for the
/// combination; registering the same binding once more adds the binding
/// alone. After either registration the table holds exactly one synthetic
/// blocker for the combination.
pub proof fn lemma_blocker_synthesized_once(
    table: Seq<Binding>,
    binding: Binding,
    combination: KeyCombination,
)
    requires
        sorted_by_size(table),
        binding.block_original_combo,
        !binding.is_auto_blocker,
        !table_contains(table_after_add(table, binding), combination),
    ensures
        ({
            let once = table_after_registration(table, binding, seq![combination]);
            let twice = table_after_registration(once, binding, seq![combination]);
            &&& once == table_after_add(
                table_after_add(table, binding),
                Binding::auto_blocker(combination),
            )
            &&& twice == table_after_add(once, binding)
            &&& has_one_blocker_for(once, combination)
            &&& has_one_blocker_for(twice, combination)
        }),
{
    let combinations = seq![combination];
    let blocker = Binding::auto_blocker(combination);
    let added = inserted_by_size(table, binding);
    let once = inserted_by_size(added, blocker);
    let twice = inserted_by_size(once, binding);
    lemma_add_keeps_order(table, binding);
    lemma_add_keeps_order(added, blocker);
    lemma_add_keeps_order(once, binding);
    lemma_same_keys_reflexive(combination);
    assert(combinations.skip(1).len() == 0);
    assert(combinations[0] == combination);
    reveal_with_fuel(table_with_blockers, 3);
    assert(table_with_blockers(added, combinations) == once);
    assert(table_after_registration(table, binding, combinations) == once);

    lemma_insertion_point(added, blocker.size());
    lemma_insertion_point(once, binding.size());
    let p = insertion_point(added, blocker.size());
    let r = insertion_point(once, binding.size());

    // where the blocker stands in each table
    assert(once[p] == blocker);
    let p_twice = if r <= p { p + 1 } else { p };
    assert(twice[p_twice] == blocker);

    assert(is_blocker_for(once, combination, p));
    assert(is_blocker_for(twice, combination, p_twice));
    assert(table_contains(twice, combination));
    assert(table_with_blockers(twice, combinations) == twice);
    assert(table_after_registration(once, binding, combinations) == twice);

    assert forall|j: int| #[trigger] is_blocker_for(once, combination, j) implies j == p by {
        if j < p {
            assert(once[j] == added[j]);
            assert(added[j].combination.same_keys_spec(&combination));
        } else if j > p {
            assert(once[j] == added[j - 1]);
            assert(added[j - 1].combination.same_keys_spec(&combination));
        }
    }
    assert forall|j: int| #[trigger] is_blocker_for(twice, combination, j) implies j == p_twice by {
        if j < r {
            assert(twice[j] == once[j]);
            assert(is_blocker_for(once, combination, j));
        } else if j > r {
            assert(twice[j] == once[j - 1]);
            assert(is_blocker_for(once, combination, j - 1));
        } else {
            assert(twice[j] == binding);
        }
    }
}

} // verus!
