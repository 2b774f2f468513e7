//! Key combinations: unordered sets of logical keys.

use vstd::prelude::*;
use vstd::std_specs::cmp::PartialEqSpecImpl;
use crate::keys::VirtualKey;

verus! {

/// A set of logical keys that must be held together. The keys are kept in
/// the order in which they were given; the order carries no meaning.
#[derive(Debug, Clone)]
pub struct KeyCombination {
    pub keys: Vec<VirtualKey>,
}

/// The keys of `s` in order, each kept at its first occurrence only.
pub open spec fn distinct_keys(s: Seq<VirtualKey>) -> Seq<VirtualKey>
    decreases s.len(),
{
    if s.len() == 0 {
        s
    } else {
        let front = distinct_keys(s.drop_last());
        if front.contains(s.last()) {
            front
        } else {
            front.push(s.last())
        }
    }
}

/// `distinct_keys` holds no key twice, holds exactly the keys of its
/// argument, and leaves a sequence without repetitions as it is.
pub proof fn lemma_distinct_keys(s: Seq<VirtualKey>)
    ensures
        distinct_keys(s).no_duplicates(),
        distinct_keys(s).to_set() == s.to_set(),
        distinct_keys(s).len() <= s.len(),
        s.no_duplicates() ==> distinct_keys(s) == s,
    decreases s.len(),
{
    if s.len() == 0 {
        assert(distinct_keys(s).to_set() =~= s.to_set());
    } else {
        let front = s.drop_last();
        let d = distinct_keys(front);
        lemma_distinct_keys(front);
        let r = distinct_keys(s);
        assert forall|k: VirtualKey| r.to_set().contains(k) <==> s.to_set().contains(k) by {
            if r.contains(k) {
                let i = choose|i: int| 0 <= i < r.len() && r[i] == k;
                if i < d.len() {
                    assert(d.contains(k));
                    assert(front.to_set().contains(k));
                    let j = choose|j: int| 0 <= j < front.len() && front[j] == k;
                    assert(s[j] == k);
                } else {
                    assert(s[s.len() - 1] == k);
                }
            }
            if s.contains(k) {
                let j = choose|j: int| 0 <= j < s.len() && s[j] == k;
                if j < front.len() {
                    assert(front[j] == k);
                    assert(front.to_set().contains(k));
                    assert(d.contains(k));
                    let i = choose|i: int| 0 <= i < d.len() && d[i] == k;
                    assert(r[i] == k);
                } else {
                    if d.contains(k) {
                    } else {
                        assert(r[r.len() - 1] == k);
                    }
                }
            }
        }
        assert(r.to_set() =~= s.to_set());
        if s.no_duplicates() {
            assert(front.no_duplicates());
            assert(d == front);
            if front.contains(s.last()) {
                let j = choose|j: int| 0 <= j < front.len() && front[j] == s.last();
                assert(s[j] == s[s.len() - 1]);
            }
            assert(r =~= s);
        }
    }
}

/// Whether `key` occurs in `keys`.
pub fn contains_key(keys: &[VirtualKey], key: VirtualKey) -> (found: bool)
    ensures
        found == keys@.contains(key),
{
    let mut i: usize = 0;
    while i < keys.len()
        invariant
            i <= keys@.len(),
            forall|j: int| 0 <= j < i ==> keys@[j] != key,
        decreases keys@.len() - i,
    {
        if keys[i] == key {
            return true;
        }
        i += 1;
    }
    false
}

impl View for KeyCombination {
    type V = Set<VirtualKey>;

    /// The set of keys that the combination asks for.
    open spec fn view(&self) -> Set<VirtualKey> {
        self.keys@.to_set()
    }
}

impl KeyCombination {
    /// No key is listed twice.
    pub open spec fn wf(&self) -> bool {
        self.keys@.no_duplicates()
    }

    /// The combination is satisfied when every one of its keys is pressed;
    /// further pressed keys do not matter.
    pub open spec fn satisfied_by(&self, pressed: Set<VirtualKey>) -> bool {
        self@.subset_of(pressed)
    }

    /// What `==` computes: equal length, and every key of `self` is a key of
    /// `other`.
    pub open spec fn same_keys_spec(&self, other: &KeyCombination) -> bool {
        &&& self.keys@.len() == other.keys@.len()
        &&& forall|i: int| 0 <= i < self.keys@.len() ==> other.keys@.contains(#[trigger] self.keys@[i])
    }

    /// The combination of one key.
    pub fn new(key: VirtualKey) -> (combination: Self)
        ensures
            combination.keys@ == seq![key],
            combination.wf(),
            combination@ == set![key],
    {
        let combination = KeyCombination { keys: vec![key] };
        proof {
            assert(combination.keys@[0] == key);
            assert(combination@ =~= set![key]);
        }
        combination
    }

    /// Adds a key, unless the combination holds it already.
    pub fn with(self, key: VirtualKey) -> (combination: Self)
        ensures
            combination.keys@ == (if self.keys@.contains(key) {
                self.keys@
            } else {
                self.keys@.push(key)
            }),
            combination@ == self@.insert(key),
            self.wf() ==> combination.wf(),
    {
        let mut combination = self;
        if !contains_key(combination.keys.as_slice(), key) {
            combination.keys.push(key);
            proof {
                let old_keys = self.keys@;
                let new_keys = combination.keys@;
                assert(new_keys == old_keys.push(key));
                assert forall|k: VirtualKey| new_keys.contains(k) <==> (old_keys.contains(k) || k == key) by {
                    if new_keys.contains(k) {
                        let i = choose|i: int| 0 <= i < new_keys.len() && new_keys[i] == k;
                        if i < old_keys.len() {
                            assert(old_keys[i] == k);
                        }
                    }
                    if old_keys.contains(k) {
                        let i = choose|i: int| 0 <= i < old_keys.len() && old_keys[i] == k;
                        assert(new_keys[i] == k);
                    }
                    if k == key {
                        assert(new_keys[new_keys.len() - 1] == k);
                    }
                }
                assert(combination@ =~= self@.insert(key));
            }
        } else {
            proof {
                assert(combination@ =~= self@.insert(key));
            }
        }
        combination
    }

    /// The combination of the given keys; a key given more than once counts
    /// once.
    pub fn from_keys(keys: Vec<VirtualKey>) -> (combination: Self)
        ensures
            combination.keys@ == distinct_keys(keys@),
            combination.wf(),
            combination@ == keys@.to_set(),
            keys@.no_duplicates() ==> combination.keys@ == keys@,
    {
        let mut distinct: Vec<VirtualKey> = Vec::new();
        let mut i: usize = 0;
        while i < keys.len()
            invariant
                i <= keys@.len(),
                distinct@ == distinct_keys(keys@.take(i as int)),
            decreases keys@.len() - i,
        {
            proof {
                assert(keys@.take(i + 1).drop_last() =~= keys@.take(i as int));
                assert(keys@.take(i + 1).last() == keys@[i as int]);
            }
            let key = keys[i];
            if !contains_key(distinct.as_slice(), key) {
                distinct.push(key);
            }
            i += 1;
        }
        proof {
            assert(keys@.take(i as int) =~= keys@);
            lemma_distinct_keys(keys@);
        }
        KeyCombination { keys: distinct }
    }

    /// Whether the pressed keys satisfy the combination.
    pub fn matches(&self, pressed_keys: &[VirtualKey]) -> (satisfied: bool)
        ensures
            satisfied == self.satisfied_by(pressed_keys@.to_set()),
            satisfied == (forall|i: int| 0 <= i < self.keys@.len() ==> pressed_keys@.contains(#[trigger] self.keys@[i])),
    {
        let mut i: usize = 0;
        while i < self.keys.len()
            invariant
                i <= self.keys@.len(),
                forall|j: int| 0 <= j < i ==> pressed_keys@.contains(#[trigger] self.keys@[j]),
            decreases self.keys@.len() - i,
        {
            if !contains_key(pressed_keys, self.keys[i]) {
                proof {
                    assert(self.keys@.contains(self.keys@[i as int]));
                    assert(self@.contains(self.keys@[i as int]));
                }
                return false;
            }
            i += 1;
        }
        proof {
            assert forall|k: VirtualKey| self@.contains(k) implies pressed_keys@.to_set().contains(k) by {
                let j = choose|j: int| 0 <= j < self.keys@.len() && self.keys@[j] == k;
                assert(pressed_keys@.contains(self.keys@[j]));
            }
        }
        true
    }

    /// The computation behind `==`.
    pub fn same_keys(&self, other: &KeyCombination) -> (same: bool)
        ensures
            same == self.same_keys_spec(other),
    {
        if self.keys.len() != other.keys.len() {
            return false;
        }
        let mut i: usize = 0;
        while i < self.keys.len()
            invariant
                i <= self.keys@.len(),
                forall|j: int| 0 <= j < i ==> other.keys@.contains(#[trigger] self.keys@[j]),
            decreases self.keys@.len() - i,
        {
            if !contains_key(other.keys.as_slice(), self.keys[i]) {
                return false;
            }
            i += 1;
        }
        true
    }

    /// Between combinations that list no key twice, `==` is equality of the
    /// key sets.
    pub proof fn lemma_same_keys_is_set_equality(&self, other: &KeyCombination)
        requires
            self.wf(),
            other.wf(),
        ensures
            self.same_keys_spec(other) <==> self@ == other@,
    {
        self.keys@.unique_seq_to_set();
        other.keys@.unique_seq_to_set();
        if self.same_keys_spec(other) {
            assert forall|k: VirtualKey| self@.contains(k) implies other@.contains(k) by {
                let j = choose|j: int| 0 <= j < self.keys@.len() && self.keys@[j] == k;
                assert(other.keys@.contains(self.keys@[j]));
            }
            assert(self@.subset_of(other@));
            vstd::set_lib::lemma_subset_equality(self@, other@);
        }
        if self@ == other@ {
            assert forall|i: int| 0 <= i < self.keys@.len() implies other.keys@.contains(#[trigger] self.keys@[i]) by {
                assert(self.keys@.contains(self.keys@[i]));
                assert(self@.contains(self.keys@[i]));
            }
        }
    }
}

impl PartialEq for KeyCombination {
    fn eq(&self, other: &Self) -> (same: bool) {
        self.same_keys(other)
    }
}

impl PartialEqSpecImpl for KeyCombination {
    open spec fn obeys_eq_spec() -> bool {
        true
    }

    open spec fn eq_spec(&self, other: &Self) -> bool {
        self.same_keys_spec(other)
    }
}

impl Eq for KeyCombination {}

} // verus!
