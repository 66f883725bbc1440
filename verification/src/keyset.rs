//! A set of text keys that remembers which results were already handed out.
use vstd::prelude::*;
use crate::model::strings_view;

verus! {

/// A set of string keys, kept as a list without repetitions.
pub struct KeySet {
    keys: Vec<String>,
}

impl View for KeySet {
    type V = Set<Seq<char>>;

    closed spec fn view(&self) -> Set<Seq<char>> {
        strings_view(self.keys).to_set()
    }
}

impl KeySet {
    #[verifier::type_invariant]
    closed spec fn keys_distinct(self) -> bool {
        strings_view(self.keys).no_duplicates()
    }

    /// An empty set.
    pub fn new() -> (r: KeySet)
        ensures
            r@ == Set::<Seq<char>>::empty(),
    {
        let r = KeySet { keys: Vec::new() };
        proof {
            assert(strings_view(r.keys) =~= Seq::<Seq<char>>::empty());
            assert(strings_view(r.keys).to_set() =~= Set::<Seq<char>>::empty());
        }
        r
    }

    /// The number of keys.
    pub fn len(&self) -> (r: usize)
        ensures
            r == self@.len(),
            self@.finite(),
    {
        proof {
            use_type_invariant(self);
            strings_view(self.keys).unique_seq_to_set();
        }
        self.keys.len()
    }

    /// Whether the set holds no key.
    pub fn is_empty(&self) -> (r: bool)
        ensures
            r == (self@.len() == 0),
            self@.finite(),
    {
        self.len() == 0
    }

    /// Whether `key` is in the set.
    pub fn contains(&self, key: &String) -> (r: bool)
        ensures
            r == self@.contains(key@),
    {
        let mut i: usize = 0;
        while i < self.keys.len()
            invariant
                i <= self.keys.len(),
                forall|j: int| 0 <= j < i ==> strings_view(self.keys)[j] != key@,
            decreases self.keys.len() - i,
        {
            if self.keys[i] == *key {
                assert(strings_view(self.keys)[i as int] == key@);
                return true;
            }
            i += 1;
        }
        proof {
            if strings_view(self.keys).to_set().contains(key@) {
                let j = choose|j: int|
                    0 <= j < strings_view(self.keys).len() && strings_view(self.keys)[j] == key@;
                assert(false);
            }
        }
        false
    }

    /// Adds `key`; answers whether it was new (as `HashSet::insert` does).
    pub fn insert(&mut self, key: String) -> (r: bool)
        ensures
            r == !old(self)@.contains(key@),
            final(self)@ == old(self)@.insert(key@),
    {
        if self.contains(&key) {
            proof {
                assert(self@.insert(key@) =~= self@);
            }
            return false;
        }
        proof {
            use_type_invariant(&*self);
        }
        let ghost before = strings_view(self.keys);
        let mut keys: Vec<String> = Vec::new();
        std::mem::swap(&mut keys, &mut self.keys);
        keys.push(key);
        proof {
            assert(strings_view(keys) =~= before.push(key@));
            before.lemma_push_to_set_commute(key@);
            assert(!before.contains(key@));
        }
        self.keys = keys;
        true
    }
}

} // verus!
