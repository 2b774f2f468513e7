//! The binding table, ordered by specificity, together with the live key
//! state that the dispatcher keeps between events.

use vstd::prelude::*;
use crate::binding::Binding;
use crate::key_combination::KeyCombination;
use crate::keys::VirtualKey;

verus! {

/// Larger combinations stand before smaller ones.
pub open spec fn sorted_by_size(table: Seq<Binding>) -> bool {
    forall|i: int, j: int| 0 <= i < j < table.len() ==> table[i].size() >= table[j].size()
}

/// Where a binding of `size` keys goes: behind every binding that is at
/// least as large, so that bindings of one size keep the order in which they
/// were added.
pub open spec fn insertion_point(table: Seq<Binding>, size: nat) -> int
    decreases table.len(),
{
    if table.len() == 0 {
        0
    } else if table.last().size() >= size {
        table.len() as int
    } else {
        insertion_point(table.drop_last(), size)
    }
}

/// An ordered table with `binding` put in at its insertion point.
pub open spec fn inserted_by_size(table: Seq<Binding>, binding: Binding) -> Seq<Binding> {
    table.insert(insertion_point(table, binding.size()), binding)
}

/// The bindings of `table` in descending order of size, those of equal size
/// in the order in which they stand in `table`.
pub open spec fn ordered_by_size(table: Seq<Binding>) -> Seq<Binding>
    decreases table.len(),
{
    if table.len() == 0 {
        table
    } else {
        inserted_by_size(ordered_by_size(table.drop_last()), table.last())
    }
}

/// The table after `binding` has been added: the binding is appended and
/// the whole is put in order again.
pub open spec fn table_after_add(table: Seq<Binding>, binding: Binding) -> Seq<Binding> {
    ordered_by_size(table.push(binding))
}

/// Whether some binding's combination equals `combination`.
pub open spec fn table_contains(table: Seq<Binding>, combination: KeyCombination) -> bool {
    exists|i: int| 0 <= i < table.len() && (#[trigger] table[i]).combination.same_keys_spec(&combination)
}

/// The table after a blocker has been added for each of `combinations`, in
/// turn, that no binding of the table had yet.
pub open spec fn table_with_blockers(table: Seq<Binding>, combinations: Seq<KeyCombination>) -> Seq<Binding>
    decreases combinations.len(),
{
    if combinations.len() == 0 {
        table
    } else {
        let first = combinations[0];
        let next = if table_contains(table, first) {
            table
        } else {
            table_after_add(table, Binding::auto_blocker(first))
        };
        table_with_blockers(next, combinations.skip(1))
    }
}

/// `index` is the first binding of the table that the pressed keys satisfy.
pub open spec fn is_first_match(table: Seq<Binding>, pressed: Set<VirtualKey>, index: int) -> bool {
    &&& 0 <= index < table.len()
    &&& table[index].combination.satisfied_by(pressed)
    &&& forall|j: int| 0 <= j < index ==> !(#[trigger] table[j]).combination.satisfied_by(pressed)
}

/// The pressed keys satisfy no binding of the table.
pub open spec fn no_match(table: Seq<Binding>, pressed: Set<VirtualKey>) -> bool {
    forall|j: int| 0 <= j < table.len() ==> !(#[trigger] table[j]).combination.satisfied_by(pressed)
}

/// The index of the first binding that the pressed keys satisfy, if any.
pub open spec fn first_match_index(table: Seq<Binding>, pressed: Set<VirtualKey>) -> Option<int> {
    if exists|i: int| is_first_match(table, pressed, i) {
        Some(choose|i: int| is_first_match(table, pressed, i))
    } else {
        None
    }
}

/// `first_match_index` is the one index that `is_first_match` accepts, and
/// it is `None` exactly when nothing matches.
pub proof fn lemma_first_match_index(table: Seq<Binding>, pressed: Set<VirtualKey>)
    ensures
        forall|i: int| is_first_match(table, pressed, i) ==> first_match_index(table, pressed) == Some(i),
        no_match(table, pressed) <==> first_match_index(table, pressed).is_none(),
        first_match_index(table, pressed) matches Some(i) ==> is_first_match(table, pressed, i),
{
    assert forall|i: int| is_first_match(table, pressed, i) implies first_match_index(table, pressed) == Some(i) by {
        let c = choose|c: int| is_first_match(table, pressed, c);
        assert(is_first_match(table, pressed, c));
        if c < i {
            assert(!table[c].combination.satisfied_by(pressed));
        }
        if i < c {
            assert(!table[i].combination.satisfied_by(pressed));
        }
    }
    if !no_match(table, pressed) {
        lemma_some_match_has_first(table, pressed, table.len() as int);
    }
    if no_match(table, pressed) && first_match_index(table, pressed).is_some() {
        let c = first_match_index(table, pressed).unwrap();
        assert(is_first_match(table, pressed, c));
        assert(!table[c].combination.satisfied_by(pressed));
    }
}

/// If one of the first `n` bindings is satisfied, one of them is the first.
proof fn lemma_some_match_has_first(table: Seq<Binding>, pressed: Set<VirtualKey>, n: int)
    requires
        0 <= n <= table.len(),
    ensures
        (exists|j: int| 0 <= j < n && (#[trigger] table[j]).combination.satisfied_by(pressed))
            ==> exists|i: int| 0 <= i < n && is_first_match(table, pressed, i),
    decreases n,
{
    if n > 0 {
        lemma_some_match_has_first(table, pressed, n - 1);
        if exists|j: int| 0 <= j < n - 1 && (#[trigger] table[j]).combination.satisfied_by(pressed) {
            let i = choose|i: int| 0 <= i < n - 1 && is_first_match(table, pressed, i);
            assert(0 <= i < n && is_first_match(table, pressed, i));
        } else if table[n - 1].combination.satisfied_by(pressed) {
            assert(is_first_match(table, pressed, n - 1));
        }
    }
}

/// Adding a binding at its insertion point keeps the table ordered; what
/// stands before the point is at least as large, what stands behind it is
/// smaller.
pub proof fn lemma_insertion_point(table: Seq<Binding>, size: nat)
    requires
        sorted_by_size(table),
    ensures
        0 <= insertion_point(table, size) <= table.len(),
        forall|i: int| 0 <= i < insertion_point(table, size) ==> (#[trigger] table[i]).size() >= size,
        forall|i: int| insertion_point(table, size) <= i < table.len() ==> (#[trigger] table[i]).size() < size,
    decreases table.len(),
{
    if table.len() == 0 {
    } else if table.last().size() >= size {
        assert forall|i: int| 0 <= i < table.len() implies (#[trigger] table[i]).size() >= size by {
            if i < table.len() - 1 {
                assert(table[i].size() >= table[table.len() - 1].size());
            }
        }
    } else {
        let front = table.drop_last();
        assert(sorted_by_size(front)) by {
            assert forall|i: int, j: int| 0 <= i < j < front.len() implies front[i].size() >= front[j].size() by {
                assert(table[i].size() >= table[j].size());
            }
        }
        lemma_insertion_point(front, size);
        let p = insertion_point(front, size);
        assert forall|i: int| 0 <= i < p implies (#[trigger] table[i]).size() >= size by {
            assert(front[i].size() >= size);
        }
        assert forall|i: int| p <= i < table.len() implies (#[trigger] table[i]).size() < size by {
            if i < front.len() {
                assert(front[i].size() < size);
            }
        }
    }
}

/// Putting a binding in at its insertion point keeps an ordered table
/// ordered.
pub proof fn lemma_insert_keeps_order(table: Seq<Binding>, binding: Binding)
    requires
        sorted_by_size(table),
    ensures
        sorted_by_size(inserted_by_size(table, binding)),
        inserted_by_size(table, binding).len() == table.len() + 1,
{
    lemma_insertion_point(table, binding.size());
    let p = insertion_point(table, binding.size());
    let after = inserted_by_size(table, binding);
    assert forall|i: int, j: int| 0 <= i < j < after.len() implies after[i].size() >= after[j].size() by {
        if j < p {
            assert(after[i] == table[i] && after[j] == table[j]);
        } else if j == p {
            assert(after[i] == table[i]);
        } else if i < p {
            assert(after[i] == table[i] && after[j] == table[j - 1]);
        } else if i == p {
            assert(after[j] == table[j - 1]);
        } else {
            assert(after[i] == table[i - 1] && after[j] == table[j - 1]);
        }
    }
}

/// Ordering a table yields an ordered table of the same length, and leaves
/// an ordered table as it is.
pub proof fn lemma_ordered_by_size(table: Seq<Binding>)
    ensures
        sorted_by_size(ordered_by_size(table)),
        ordered_by_size(table).len() == table.len(),
        sorted_by_size(table) ==> ordered_by_size(table) == table,
    decreases table.len(),
{
    if table.len() > 0 {
        let front = table.drop_last();
        lemma_ordered_by_size(front);
        lemma_insert_keeps_order(ordered_by_size(front), table.last());
        if sorted_by_size(table) {
            assert(sorted_by_size(front)) by {
                assert forall|i: int, j: int| 0 <= i < j < front.len() implies front[i].size()
                    >= front[j].size() by {
                    assert(table[i].size() >= table[j].size());
                }
            }
            lemma_insertion_point(front, table.last().size());
            let p = insertion_point(front, table.last().size());
            if p < front.len() {
                assert(front[p].size() < table.last().size());
                assert(table[p].size() >= table[table.len() - 1].size());
            }
            assert(inserted_by_size(front, table.last()) =~= table);
        }
    }
}

/// Adding a binding leaves the table ordered; in a table that was ordered,
/// the binding goes to its insertion point and nothing else moves.
pub proof fn lemma_add_keeps_order(table: Seq<Binding>, binding: Binding)
    ensures
        sorted_by_size(table_after_add(table, binding)),
        table_after_add(table, binding).len() == table.len() + 1,
        table_after_add(table, binding) == inserted_by_size(ordered_by_size(table), binding),
        sorted_by_size(table) ==> table_after_add(table, binding) == inserted_by_size(table, binding),
{
    let pushed = table.push(binding);
    assert(pushed.drop_last() =~= table);
    assert(pushed.last() == binding);
    lemma_ordered_by_size(pushed);
    lemma_ordered_by_size(table);
}

/// Puts a binding into an ordered table at its insertion point.
fn insert_by_size(table: &mut Vec<Binding>, binding: Binding)
    requires
        sorted_by_size(old(table)@),
    ensures
        final(table)@ == inserted_by_size(old(table)@, binding),
        sorted_by_size(final(table)@),
{
    let size = binding.combination.keys.len();
    let mut position: usize = table.len();
    proof {
        assert(table@.take(position as int) =~= table@);
    }
    while position > 0 && table[position - 1].combination.keys.len() < size
        invariant
            position <= table@.len(),
            size == binding.size(),
            insertion_point(table@, size as nat) == insertion_point(
                table@.take(position as int),
                size as nat,
            ),
        decreases position,
    {
        proof {
            let prefix = table@.take(position as int);
            assert(prefix.last() == table@[position - 1]);
            assert(prefix.drop_last() =~= table@.take(position - 1));
            assert(insertion_point(prefix, size as nat) == insertion_point(
                prefix.drop_last(),
                size as nat,
            ));
        }
        position -= 1;
    }
    proof {
        let prefix = table@.take(position as int);
        if position > 0 {
            assert(prefix.last() == table@[position - 1]);
        }
        assert(insertion_point(prefix, size as nat) == position);
        lemma_insert_keeps_order(table@, binding);
    }
    table.insert(position, binding);
}

/// The binding table and the state that lives between key events.
pub struct KeyboardHook {
    /// The bindings, most specific first.
    pub bindings: Vec<Binding>,
    /// The physical key that is being withheld from the foreground
    /// application until it is released, if there is one.
    pub blocked_key: Option<VirtualKey>,
    /// One flag per key code: whether the logical key is held down.
    pub active_keys: [bool; 256],
}

impl KeyboardHook {
    /// The table is ordered by specificity.
    pub open spec fn wf(&self) -> bool {
        sorted_by_size(self.bindings@)
    }

    /// No bindings, no key held, nothing withheld.
    pub fn new() -> (hook: Self)
        ensures
            hook.bindings@ == Seq::<Binding>::empty(),
            hook.blocked_key.is_none(),
            forall|i: int| 0 <= i < 256 ==> !hook.active_keys@[i],
            hook.wf(),
    {
        KeyboardHook { bindings: Vec::new(), blocked_key: None, active_keys: [false;256] }
    }

    /// Whether the table is ordered by specificity.
    pub fn is_ordered(&self) -> (ordered: bool)
        ensures
            ordered == self.wf(),
    {
        if self.bindings.len() < 2 {
            return true;
        }
        let mut i: usize = 1;
        while i < self.bindings.len()
            invariant
                1 <= i <= self.bindings@.len(),
                sorted_by_size(self.bindings@.take(i as int)),
            decreases self.bindings@.len() - i,
        {
            if self.bindings[i - 1].combination.keys.len() < self.bindings[i].combination.keys.len() {
                proof {
                    assert(self.bindings@[i - 1].size() < self.bindings@[i as int].size());
                }
                return false;
            }
            proof {
                let shorter = self.bindings@.take(i as int);
                let longer = self.bindings@.take(i + 1);
                assert forall|a: int, b: int| 0 <= a < b < longer.len() implies longer[a].size()
                    >= longer[b].size() by {
                    if b < i {
                        assert(shorter[a].size() >= shorter[b].size());
                    } else if a < i - 1 {
                        assert(shorter[a].size() >= shorter[i - 1].size());
                    }
                }
            }
            i += 1;
        }
        proof {
            assert(self.bindings@.take(i as int) =~= self.bindings@);
        }
        true
    }

    /// Puts the table in order: descending size, bindings of equal size in
    /// the order in which they stood.
    fn restore_order(&mut self)
        ensures
            final(self).bindings@ == ordered_by_size(old(self).bindings@),
            final(self).wf(),
            final(self).blocked_key == old(self).blocked_key,
            final(self).active_keys == old(self).active_keys,
    {
        let mut ordered: Vec<Binding> = Vec::new();
        let total = self.bindings.len();
        let mut moved: usize = 0;
        while self.bindings.len() > 0
            invariant
                total == old(self).bindings@.len(),
                moved <= total,
                self.bindings@ == old(self).bindings@.skip(moved as int),
                ordered@ == ordered_by_size(old(self).bindings@.take(moved as int)),
                sorted_by_size(ordered@),
                self.blocked_key == old(self).blocked_key,
                self.active_keys == old(self).active_keys,
            decreases self.bindings@.len(),
        {
            let binding = self.bindings.remove(0);
            proof {
                let all = old(self).bindings@;
                assert(moved < total);
                assert(binding == all[moved as int]);
                assert(self.bindings@ =~= all.skip(moved + 1));
                assert(all.take(moved + 1).drop_last() =~= all.take(moved as int));
                assert(all.take(moved + 1).last() == binding);
            }
            insert_by_size(&mut ordered, binding);
            moved += 1;
        }
        proof {
            assert(old(self).bindings@.take(moved as int) =~= old(self).bindings@);
        }
        self.bindings = ordered;
    }

    /// Adds a binding and puts the table in order: descending size, bindings
    /// of equal size in the order in which they were added. In a table that
    /// is in order already, only the new binding finds its place.
    pub fn add_binding(&mut self, binding: Binding)
        ensures
            final(self).bindings@ == table_after_add(old(self).bindings@, binding),
            old(self).wf() ==> final(self).bindings@ == inserted_by_size(old(self).bindings@, binding),
            final(self).wf(),
            final(self).blocked_key == old(self).blocked_key,
            final(self).active_keys == old(self).active_keys,
    {
        proof {
            lemma_ordered_by_size(self.bindings@);
            lemma_add_keeps_order(self.bindings@, binding);
        }
        if !self.is_ordered() {
            self.restore_order();
        }
        insert_by_size(&mut self.bindings, binding);
    }

    /// The bindings in table order.
    pub fn bindings(&self) -> (table: &[Binding])
        ensures
            table@ == self.bindings@,
    {
        self.bindings.as_slice()
    }

    /// Whether the table holds a binding for a combination equal to
    /// `combination`.
    pub fn contains_combination(&self, combination: &KeyCombination) -> (present: bool)
        ensures
            present == table_contains(self.bindings@, *combination),
    {
        let mut i: usize = 0;
        while i < self.bindings.len()
            invariant
                i <= self.bindings@.len(),
                forall|j: int| 0 <= j < i ==> !(#[trigger] self.bindings@[j]).combination.same_keys_spec(combination),
            decreases self.bindings@.len() - i,
        {
            if self.bindings[i].combination == *combination {
                return true;
            }
            i += 1;
        }
        false
    }

    /// Adds a blocker for each system combination that the table does not
    /// hold yet.
    pub fn synthesize_auto_blockers(&mut self, system_combinations: Vec<KeyCombination>)
        ensures
            final(self).bindings@ == table_with_blockers(old(self).bindings@, system_combinations@),
            old(self).wf() ==> final(self).wf(),
            final(self).blocked_key == old(self).blocked_key,
            final(self).active_keys == old(self).active_keys,
    {
        let mut rest = system_combinations;
        while rest.len() > 0
            invariant
                old(self).wf() ==> self.wf(),
                self.blocked_key == old(self).blocked_key,
                self.active_keys == old(self).active_keys,
                table_with_blockers(self.bindings@, rest@) == table_with_blockers(
                    old(self).bindings@,
                    system_combinations@,
                ),
            decreases rest@.len(),
        {
            let ghost before = rest@;
            let combination = rest.remove(0);
            proof {
                assert(rest@ =~= before.skip(1));
            }
            if !self.contains_combination(&combination) {
                self.add_binding(Binding::new_auto_blocker(combination));
            }
        }
    }

    /// The first binding, in table order, that the pressed keys satisfy.
    pub fn first_match(&self, pressed_keys: &[VirtualKey]) -> (found: Option<&Binding>)
        ensures
            (match first_match_index(self.bindings@, pressed_keys@.to_set()) {
                Some(i) => found == Some(&self.bindings@[i]),
                None => found.is_none(),
            }),
    {
        let mut i: usize = 0;
        while i < self.bindings.len()
            invariant
                i <= self.bindings@.len(),
                forall|j: int| 0 <= j < i ==> !(#[trigger] self.bindings@[j]).combination.satisfied_by(
                    pressed_keys@.to_set(),
                ),
            decreases self.bindings@.len() - i,
        {
            if self.bindings[i].combination.matches(pressed_keys) {
                proof {
                    assert(is_first_match(self.bindings@, pressed_keys@.to_set(), i as int));
                    lemma_first_match_index(self.bindings@, pressed_keys@.to_set());
                }
                return Some(&self.bindings[i]);
            }
            i += 1;
        }
        proof {
            assert(no_match(self.bindings@, pressed_keys@.to_set()));
            lemma_first_match_index(self.bindings@, pressed_keys@.to_set());
        }
        None
    }
}

} // verus!
