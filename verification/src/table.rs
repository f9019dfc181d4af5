//! A map from strings to values, kept as a list of slots with distinct keys.

use vstd::prelude::*;

verus! {

#[derive(Debug)]
struct Slot<V> {
    key: String,
    value: V,
}

/// A finite map keyed by strings. Its view is the mathematical map from the
/// keys' characters to the views of the values.
#[derive(Debug)]
pub struct StringMap<V> {
    slots: Vec<Slot<V>>,
}

spec fn slot_keys<V>(slots: Seq<Slot<V>>) -> Seq<Seq<char>> {
    slots.map_values(|s: Slot<V>| s.key@)
}

spec fn slots_view<V: View>(slots: Seq<Slot<V>>) -> Map<Seq<char>, V::V> {
    Map::new(
        |k: Seq<char>| slot_keys(slots).contains(k),
        |k: Seq<char>| slots[slot_keys(slots).index_of(k)].value@,
    )
}

proof fn lemma_slot_lookup<V: View>(slots: Seq<Slot<V>>, i: int)
    requires
        slot_keys(slots).no_duplicates(),
        0 <= i < slots.len(),
    ensures
        slots_view(slots).contains_key(slots[i].key@),
        slots_view(slots)[slots[i].key@] == slots[i].value@,
{
    let keys = slot_keys(slots);
    assert(keys[i] == slots[i].key@);
    assert(keys.contains(slots[i].key@));
    let j = keys.index_of(slots[i].key@);
    assert(keys[j] == keys[i]);
}

proof fn lemma_push_view<V: View>(slots: Seq<Slot<V>>, slot: Slot<V>)
    requires
        slot_keys(slots).no_duplicates(),
        !slot_keys(slots).contains(slot.key@),
    ensures
        slot_keys(slots.push(slot)).no_duplicates(),
        slots_view(slots.push(slot)) == slots_view(slots).insert(slot.key@, slot.value@),
{
    let after = slots.push(slot);
    assert(slot_keys(after) =~= slot_keys(slots).push(slot.key@));
    assert forall|k: Seq<char>| #[trigger] slots_view(after).contains_key(k) implies slots_view(
        slots,
    ).insert(slot.key@, slot.value@).contains_key(k) by {
        let i = slot_keys(after).index_of(k);
        if i < slots.len() {
            assert(slot_keys(slots)[i] == k);
        }
    }
    assert forall|k: Seq<char>| #[trigger]
        slots_view(slots).insert(slot.key@, slot.value@).contains_key(k) implies slots_view(
        after,
    ).contains_key(k) && slots_view(after)[k] == slots_view(slots).insert(
        slot.key@,
        slot.value@,
    )[k] by {
        if k == slot.key@ {
            lemma_slot_lookup(after, slots.len() as int);
        } else {
            let i = slot_keys(slots).index_of(k);
            assert(after[i] == slots[i]);
            lemma_slot_lookup(slots, i);
            lemma_slot_lookup(after, i);
        }
    }
    assert(slots_view(after) =~= slots_view(slots).insert(slot.key@, slot.value@));
}

proof fn lemma_remove_view<V: View>(slots: Seq<Slot<V>>, i: int)
    requires
        slot_keys(slots).no_duplicates(),
        0 <= i < slots.len(),
    ensures
        slot_keys(slots.remove(i)).no_duplicates(),
        slots_view(slots.remove(i)) == slots_view(slots).remove(slots[i].key@),
{
    let after = slots.remove(i);
    let keys = slot_keys(slots);
    assert(slot_keys(after) =~= keys.remove(i));
    assert forall|a: int, b: int| 0 <= a < b < after.len() implies slot_keys(after)[a]
        != slot_keys(after)[b] by {
        let a0 = if a < i { a } else { a + 1 };
        let b0 = if b < i { b } else { b + 1 };
        assert(slot_keys(after)[a] == keys[a0]);
        assert(slot_keys(after)[b] == keys[b0]);
    }
    assert forall|k: Seq<char>| #[trigger] slots_view(after).contains_key(k) implies slots_view(
        slots,
    ).remove(slots[i].key@).contains_key(k) && slots_view(after)[k] == slots_view(slots)[k] by {
        let a = slot_keys(after).index_of(k);
        let a0 = if a < i { a } else { a + 1 };
        assert(after[a] == slots[a0]);
        assert(keys[a0] == k);
        assert(keys[i] == slots[i].key@);
        lemma_slot_lookup(slots, a0);
        lemma_slot_lookup(after, a);
    }
    assert forall|k: Seq<char>| #[trigger]
        slots_view(slots).remove(slots[i].key@).contains_key(k) implies slots_view(
        after,
    ).contains_key(k) by {
        let a0 = keys.index_of(k);
        assert(keys[a0] == k);
        assert(keys[i] == slots[i].key@);
        let a = if a0 < i { a0 } else { a0 - 1 };
        assert(slot_keys(after)[a] == k);
    }
    assert(slots_view(after) =~= slots_view(slots).remove(slots[i].key@));
}

proof fn lemma_view_finite<V: View>(slots: Seq<Slot<V>>)
    requires
        slot_keys(slots).no_duplicates(),
    ensures
        slots_view(slots).dom().finite(),
        slots_view(slots).dom().len() == slots.len(),
{
    let keys = slot_keys(slots);
    keys.unique_seq_to_set();
    assert(slots_view(slots).dom() =~= keys.to_set());
}

impl<V: View> View for StringMap<V> {
    type V = Map<Seq<char>, V::V>;

    closed spec fn view(&self) -> Map<Seq<char>, V::V> {
        slots_view(self.slots@)
    }
}

impl<V> StringMap<V> {
    #[verifier::type_invariant]
    spec fn distinct_keys(self) -> bool {
        slot_keys(self.slots@).no_duplicates()
    }
}

impl<V: View> StringMap<V> {
    /// The empty map.
    pub fn new() -> (map: Self)
        ensures
            map@ == Map::<Seq<char>, V::V>::empty(),
    {
        let map = StringMap { slots: Vec::new() };
        assert(map@ =~= Map::<Seq<char>, V::V>::empty());
        map
    }

    /// Every value of the view is the view of a value.
    pub proof fn lemma_values_are_views(self)
        ensures
            forall|k: Seq<char>| #[trigger]
                self@.contains_key(k) ==> exists|v: V| #[trigger] v@ == self@[k],
    {
        assert forall|k: Seq<char>| #[trigger] self@.contains_key(k) implies exists|v: V|
            #[trigger] v@ == self@[k] by {
            let v = self.slots@[slot_keys(self.slots@).index_of(k)].value;
            assert(v@ == self@[k]);
        }
    }

    /// The number of keys.
    pub fn len(&self) -> (n: usize)
        ensures
            self@.dom().finite(),
            n == self@.len(),
    {
        proof {
            use_type_invariant(self);
            lemma_view_finite(self.slots@);
        }
        self.slots.len()
    }

    fn position(&self, key: &String) -> (found: Option<usize>)
        ensures
            match found {
                Some(i) => i < self.slots.len() && self.slots[i as int].key@ == key@,
                None => !self@.contains_key(key@),
            },
    {
        let mut i: usize = 0;
        while i < self.slots.len()
            invariant
                i <= self.slots.len(),
                forall|j: int| 0 <= j < i ==> self.slots[j].key@ != key@,
            decreases self.slots.len() - i,
        {
            if self.slots[i].key == *key {
                return Some(i);
            }
            i += 1;
        }
        proof {
            if self@.contains_key(key@) {
                let j = slot_keys(self.slots@).index_of(key@);
                assert(slot_keys(self.slots@)[j] == self.slots[j].key@);
            }
        }
        None
    }

    /// Whether `key` is in the map.
    pub fn contains_key(&self, key: &String) -> (found: bool)
        ensures
            found == self@.contains_key(key@),
    {
        proof {
            use_type_invariant(self);
        }
        match self.position(key) {
            Some(i) => {
                proof {
                    lemma_slot_lookup(self.slots@, i as int);
                }
                true
            },
            None => false,
        }
    }

    /// The value stored under `key`, if any.
    pub fn get(&self, key: &String) -> (found: Option<&V>)
        ensures
            match found {
                Some(v) => self@.contains_key(key@) && v@ == self@[key@],
                None => !self@.contains_key(key@),
            },
    {
        proof {
            use_type_invariant(self);
        }
        match self.position(key) {
            Some(i) => {
                proof {
                    lemma_slot_lookup(self.slots@, i as int);
                }
                Some(&self.slots[i].value)
            },
            None => None,
        }
    }

    /// Stores `value` under a key that the map does not hold yet.
    pub(crate) fn insert_new(&mut self, key: String, value: V)
        requires
            !old(self)@.contains_key(key@),
        ensures
            final(self)@ == old(self)@.insert(key@, value@),
    {
        proof {
            use_type_invariant(&*self);
            lemma_push_view(self.slots@, Slot { key, value });
        }
        let mut slots: Vec<Slot<V>> = Vec::new();
        std::mem::swap(&mut slots, &mut self.slots);
        slots.push(Slot { key, value });
        self.slots = slots;
    }

    /// Takes the value stored under `key` out of the map.
    pub fn remove(&mut self, key: &String) -> (taken: Option<V>)
        ensures
            final(self)@ == old(self)@.remove(key@),
            match taken {
                Some(v) => old(self)@.contains_key(key@) && v@ == old(self)@[key@],
                None => !old(self)@.contains_key(key@),
            },
    {
        proof {
            use_type_invariant(&*self);
        }
        match self.position(key) {
            Some(i) => {
                proof {
                    lemma_slot_lookup(self.slots@, i as int);
                    lemma_remove_view(self.slots@, i as int);
                }
                let mut slots: Vec<Slot<V>> = Vec::new();
                std::mem::swap(&mut slots, &mut self.slots);
                let slot = slots.remove(i);
                self.slots = slots;
                Some(slot.value)
            },
            None => {
                assert(self@.remove(key@) =~= self@);
                None
            },
        }
    }

    /// Stores `value` under `key` and hands back what was stored there before.
    pub fn insert(&mut self, key: String, value: V) -> (previous: Option<V>)
        ensures
            final(self)@ == old(self)@.insert(key@, value@),
            match previous {
                Some(v) => old(self)@.contains_key(key@) && v@ == old(self)@[key@],
                None => !old(self)@.contains_key(key@),
            },
    {
        let previous = self.remove(&key);
        assert(old(self)@.remove(key@).insert(key@, value@) =~= old(self)@.insert(key@, value@));
        self.insert_new(key, value);
        previous
    }

    /// Takes some entry out of the map; `None` when the map is empty.
    pub fn pop(&mut self) -> (taken: Option<(String, V)>)
        ensures
            match taken {
                Some((k, v)) => old(self)@.contains_key(k@) && v@ == old(self)@[k@] && final(self)@
                    == old(self)@.remove(k@),
                None => old(self)@ == Map::<Seq<char>, V::V>::empty() && final(self)@ == old(
                    self,
                )@,
            },
    {
        proof {
            use_type_invariant(&*self);
        }
        let n = self.slots.len();
        if n == 0 {
            assert(self@ =~= Map::<Seq<char>, V::V>::empty());
            return None;
        }
        proof {
            lemma_slot_lookup(self.slots@, n - 1);
            lemma_remove_view(self.slots@, n - 1);
        }
        let mut slots: Vec<Slot<V>> = Vec::new();
        std::mem::swap(&mut slots, &mut self.slots);
        let slot = slots.remove(n - 1);
        self.slots = slots;
        Some((slot.key, slot.value))
    }
}

impl<V: Clone + View> Clone for StringMap<V> {
    /// A map with a copy of every entry. Where the copy of a value has the
    /// view of the value, the copy of the map has the view of the map.
    fn clone(&self) -> (copy: Self)
        ensures
            copy@.dom() == self@.dom(),
            (forall|a: V, b: V| #[trigger] cloned(a, b) ==> a@ == b@) ==> copy@ == self@,
    {
        proof {
            use_type_invariant(self);
        }
        let mut slots: Vec<Slot<V>> = Vec::new();
        let mut i: usize = 0;
        while i < self.slots.len()
            invariant
                i <= self.slots.len(),
                slots.len() == i,
                forall|j: int| 0 <= j < i ==> slots[j].key@ == self.slots[j].key@,
                forall|j: int|
                    0 <= j < i ==> cloned(self.slots[j].value, #[trigger] slots[j].value),
            decreases self.slots.len() - i,
        {
            let slot = &self.slots[i];
            slots.push(Slot { key: slot.key.clone(), value: slot.value.clone() });
            i += 1;
        }
        proof {
            assert(slot_keys(slots@) =~= slot_keys(self.slots@));
            assert(slots_view(slots@).dom() =~= slots_view(self.slots@).dom());
            if forall|a: V, b: V| #[trigger] cloned(a, b) ==> a@ == b@ {
                assert forall|k: Seq<char>| #[trigger]
                    slots_view(slots@).contains_key(k) implies slots_view(slots@)[k]
                    == slots_view(self.slots@)[k] by {
                    let j = slot_keys(slots@).index_of(k);
                    assert(cloned(self.slots[j].value, slots[j].value));
                }
                assert(slots_view(slots@) =~= slots_view(self.slots@));
            }
        }
        StringMap { slots }
    }
}

} // verus!
