//! A finite map from identifiers to values in which each identifier is bound
//! at most once: binding it again replaces the value it had.

use vstd::prelude::*;

verus! {

/// Identifier-keyed bindings, viewed as a `Map` from the identifier's
/// characters to the bound value.
pub struct Bindings<V> {
    entries: Vec<(String, V)>,
    contents: Ghost<Map<Seq<char>, V>>,
}

impl<V> View for Bindings<V> {
    type V = Map<Seq<char>, V>;

    closed spec fn view(&self) -> Map<Seq<char>, V> {
        self.contents@
    }
}

/// `s` lists the bindings of `m`: each binding once, in some order.
pub open spec fn lists<V>(s: Seq<(String, V)>, m: Map<Seq<char>, V>) -> bool {
    &&& forall|i: int|
        0 <= i < s.len() ==> m.contains_key(#[trigger] s[i].0@) && m[s[i].0@] == s[i].1
    &&& forall|k: Seq<char>|
        #[trigger] m.contains_key(k) ==> exists|i: int| 0 <= i < s.len() && s[i].0@ == k
    &&& forall|i: int, j: int| 0 <= i < j < s.len() ==> s[i].0@ != s[j].0@
}

impl<V> Bindings<V> {
    #[verifier::type_invariant]
    spec fn well_formed(self) -> bool {
        lists(self.entries@, self.contents@)
    }

    /// No bindings.
    pub fn new() -> (r: Self)
        ensures
            r@ == Map::<Seq<char>, V>::empty(),
    {
        Bindings { entries: Vec::new(), contents: Ghost(Map::empty()) }
    }

    /// The entries, each binding once, in no particular order.
    pub fn entries(&self) -> (r: &Vec<(String, V)>)
        ensures
            lists(r@, self@),
    {
        proof {
            use_type_invariant(self);
        }
        &self.entries
    }

    /// Where `key` stands among the entries, if it is bound.
    fn position(&self, key: &String) -> (r: Option<usize>)
        ensures
            match r {
                Some(i) => i < self.entries.len() && self.entries@[i as int].0@ == key@,
                None => !self@.contains_key(key@),
            },
    {
        proof {
            use_type_invariant(self);
        }
        let mut i: usize = 0;
        while i < self.entries.len()
            invariant
                i <= self.entries.len(),
                forall|j: int| 0 <= j < i ==> self.entries@[j].0@ != key@,
            decreases self.entries.len() - i,
        {
            if self.entries[i].0 == *key {
                return Some(i);
            }
            i = i + 1;
        }
        None
    }

    /// The value bound to `key`, if any.
    pub fn get(&self, key: &str) -> (r: Option<&V>)
        ensures
            r == (if self@.contains_key(key@) {
                Some(&self@[key@])
            } else {
                None
            }),
    {
        proof {
            use_type_invariant(self);
        }
        let owned = key.to_owned();
        match self.position(&owned) {
            Some(i) => Some(&self.entries[i].1),
            None => None,
        }
    }

    /// Whether `key` is bound.
    pub fn contains_key(&self, key: &str) -> (r: bool)
        ensures
            r == self@.contains_key(key@),
    {
        self.get(key).is_some()
    }

    /// Binds `key` to `value`, replacing the value it had.
    pub fn insert(&mut self, key: String, value: V)
        ensures
            final(self)@ == old(self)@.insert(key@, value),
    {
        proof {
            use_type_invariant(&*self);
        }
        let found = self.position(&key);
        let mut taken = Bindings::new();
        std::mem::swap(self, &mut taken);
        proof {
            use_type_invariant(&taken);
        }
        let Bindings { mut entries, contents } = taken;
        let ghost updated = contents@.insert(key@, value);
        let ghost before = entries@;
        let ghost bound = key@;
        match found {
            Some(i) => {
                entries.set(i, (key, value));
            },
            None => {
                entries.push((key, value));
            },
        }
        proof {
            assert forall|k: Seq<char>| #[trigger] updated.contains_key(k) implies exists|i: int|
                0 <= i < entries@.len() && entries@[i].0@ == k by {
                if k == bound {
                    match found {
                        Some(i) => assert(entries@[i as int].0@ == k),
                        None => assert(entries@[before.len() as int].0@ == k),
                    }
                } else {
                    let j = choose|j: int| 0 <= j < before.len() && before[j].0@ == k;
                    assert(entries@[j].0@ == k);
                }
            }
        }
        *self = Bindings { entries, contents: Ghost(updated) };
    }
}

impl<V: Clone> Clone for Bindings<V> {
    /// The same identifiers, each bound to a clone of its value.
    fn clone(&self) -> (r: Self)
        ensures
            r@.dom() == self@.dom(),
            forall|k: Seq<char>| #[trigger] r@.contains_key(k) ==> cloned::<V>(self@[k], r@[k]),
    {
        proof {
            use_type_invariant(self);
        }
        let mut r = Bindings::new();
        let mut i: usize = 0;
        while i < self.entries.len()
            invariant
                i <= self.entries.len(),
                lists(self.entries@, self@),
                forall|k: Seq<char>|
                    #[trigger] r@.contains_key(k) <==> exists|j: int|
                        0 <= j < i && self.entries@[j].0@ == k,
                forall|j: int|
                    0 <= j < i ==> cloned::<V>(
                        #[trigger] self.entries@[j].1,
                        r@[self.entries@[j].0@],
                    ),
            decreases self.entries.len() - i,
        {
            r.insert(self.entries[i].0.clone(), self.entries[i].1.clone());
            i = i + 1;
        }
        proof {
            assert(r@.dom() =~= self@.dom());
            assert forall|k: Seq<char>| #[trigger] r@.contains_key(k) implies cloned::<V>(
                self@[k],
                r@[k],
            ) by {
                let j = choose|j: int| 0 <= j < self.entries@.len() && self.entries@[j].0@ == k;
                assert(cloned::<V>(self.entries@[j].1, r@[self.entries@[j].0@]));
            }
        }
        r
    }
}

} // verus!
