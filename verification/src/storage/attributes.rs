//! Item attributes: a map from attribute names to values, kept as a vector of pairs
//! without repeated names.

use vstd::prelude::*;
use crate::text::same_text;

verus! {

/// The attributes of an item: each name has one value.
#[derive(Debug)]
pub struct Attributes {
    entries: Vec<(String, String)>,
}

impl Attributes {
    /// The attribute names, in storage order.
    pub closed spec fn names(&self) -> Seq<Seq<char>> {
        self.entries@.map_values(|e: (String, String)| e.0@)
    }

    #[verifier::type_invariant]
    closed spec fn names_are_distinct(&self) -> bool {
        self.names().no_duplicates()
    }

    /// The position of name `k` in storage order.
    closed spec fn position(&self, k: Seq<char>) -> int {
        choose|i: int| 0 <= i < self.entries@.len() && self.entries@[i].0@ == k
    }

    proof fn lemma_position(&self, i: int)
        requires
            self.names().no_duplicates(),
            0 <= i < self.entries@.len(),
        ensures
            self.position(self.entries@[i].0@) == i,
    {
        let k = self.entries@[i].0@;
        let j = self.position(k);
        assert(self.names()[i] == k);
        assert(self.names()[j] == k);
    }
}

impl Attributes {
    proof fn lemma_contains(&self, k: Seq<char>)
        requires
            self.names().contains(k),
        ensures
            0 <= self.position(k) < self.entries@.len(),
            self.entries@[self.position(k)].0@ == k,
    {
        let j = choose|j: int| 0 <= j < self.names().len() && self.names()[j] == k;
        assert(self.entries@[j].0@ == k);
    }

    proof fn lemma_len(&self)
        requires
            self.names().no_duplicates(),
        ensures
            self@.dom().len() == self.entries@.len(),
            self@.dom().finite(),
    {
        self.names().unique_seq_to_set();
        assert(self@.dom() =~= self.names().to_set());
    }
}

proof fn lemma_view_update(old: Attributes, new: Attributes, i: int, e: (String, String))
    requires
        old.names().no_duplicates(),
        0 <= i < old.entries@.len(),
        e.0@ == old.entries@[i].0@,
        new.entries@ == old.entries@.update(i, e),
    ensures
        new.names() == old.names(),
        new@ == old@.insert(e.0@, e.1@),
{
    assert(new.names() =~= old.names()) by {
        assert forall|j: int| 0 <= j < old.entries@.len() implies new.names()[j] == old.names()[j] by {
            if j == i {
            } else {
            }
        }
    }
    assert(old.names()[i] == e.0@);
    assert(new@.dom() =~= old@.insert(e.0@, e.1@).dom());
    assert forall|key: Seq<char>| new@.dom().contains(key) implies #[trigger] new@[key] == old@.insert(e.0@, e.1@)[key] by {
        old.lemma_contains(key);
        let p = old.position(key);
        old.lemma_position(p);
        new.lemma_position(p);
        assert(new.entries@[p].0@ == key);
        if key == e.0@ {
            assert(old.names()[p] == old.names()[i]);
            assert(p == i);
        } else {
            assert(p != i);
            assert(new.entries@[p] == old.entries@[p]);
        }
    }
    assert(new@ =~= old@.insert(e.0@, e.1@));
}

proof fn lemma_view_push(old: Attributes, new: Attributes, e: (String, String))
    requires
        old.names().no_duplicates(),
        !old.names().contains(e.0@),
        new.entries@ == old.entries@.push(e),
    ensures
        new.names() == old.names().push(e.0@),
        new.names().no_duplicates(),
        new@ == old@.insert(e.0@, e.1@),
{
    let n = old.entries@.len() as int;
    assert(new.names() =~= old.names().push(e.0@));
    assert forall|a: int, b: int| 0 <= a < new.names().len() && 0 <= b < new.names().len()
        && a != b implies new.names()[a] != new.names()[b] by {
        if a < n && b < n {
            assert(old.names()[a] != old.names()[b]);
        } else if a == n {
            assert(old.names().contains(old.names()[b]));
        } else {
            assert(old.names().contains(old.names()[a]));
        }
    }
    new.lemma_position(n);
    assert forall|key: Seq<char>| #![auto] new.names().contains(key) == (old.names().contains(key) || key == e.0@) by {
        if new.names().contains(key) {
            let j = choose|j: int| 0 <= j < new.names().len() && new.names()[j] == key;
            if j < n {
                assert(old.names()[j] == key);
            }
        }
        if old.names().contains(key) {
            let j = choose|j: int| 0 <= j < old.names().len() && old.names()[j] == key;
            assert(new.names()[j] == key);
        }
        if key == e.0@ {
            assert(new.names()[n] == key);
        }
    }
    assert(new@.dom() =~= old@.insert(e.0@, e.1@).dom());
    assert forall|key: Seq<char>| new@.dom().contains(key) implies #[trigger] new@[key] == old@.insert(e.0@, e.1@)[key] by {
        if key != e.0@ {
            new.lemma_contains(key);
            let q = new.position(key);
            assert(q != n);
            assert(old.names()[q] == key);
            old.lemma_contains(key);
            let p = old.position(key);
            old.lemma_position(p);
            new.lemma_position(p);
            assert(new.entries@[p] == old.entries@[p]);
        }
    }
    assert(new@ =~= old@.insert(e.0@, e.1@));
}

impl Clone for Attributes {
    fn clone(&self) -> (r: Attributes)
        ensures
            r@ == self@,
    {
        let mut entries: Vec<(String, String)> = Vec::new();
        let mut i: usize = 0;
        while i < self.entries.len()
            invariant
                i <= self.entries@.len(),
                entries@ == self.entries@.take(i as int),
            decreases self.entries@.len() - i,
        {
            let e = &self.entries[i];
            entries.push((e.0.clone(), e.1.clone()));
            i = i + 1;
            assert(entries@ =~= self.entries@.take(i as int));
        }
        assert(self.entries@.take(self.entries@.len() as int) =~= self.entries@);
        proof { use_type_invariant(self); }
        Attributes { entries }
    }
}

impl View for Attributes {
    type V = Map<Seq<char>, Seq<char>>;

    closed spec fn view(&self) -> Map<Seq<char>, Seq<char>> {
        Map::new(
            |k: Seq<char>| self.names().contains(k),
            |k: Seq<char>| self.entries@[self.position(k)].1@,
        )
    }
}

impl Attributes {
    /// No attributes.
    pub fn new() -> (r: Attributes)
        ensures
            r@ == Map::<Seq<char>, Seq<char>>::empty(),
    {
        let r = Attributes { entries: Vec::new() };
        assert(r@ =~= Map::<Seq<char>, Seq<char>>::empty());
        r
    }

    /// The position of the entry named `k`, if any.
    fn find(&self, k: &str) -> (r: Option<usize>)
        ensures
            r matches Some(i) ==> i < self.entries@.len() && self.entries@[i as int].0@ == k@,
            r is None ==> !self.names().contains(k@),
    {
        let mut i: usize = 0;
        while i < self.entries.len()
            invariant
                i <= self.entries@.len(),
                forall|j: int| 0 <= j < i ==> self.entries@[j].0@ != k@,
            decreases self.entries@.len() - i,
        {
            if same_text(self.entries[i].0.as_str(), k) {
                return Some(i);
            }
            i = i + 1;
        }
        assert forall|j: int| 0 <= j < self.names().len() implies self.names()[j] != k@ by {
            assert(self.names()[j] == self.entries@[j].0@);
        }
        None
    }

    /// Sets attribute `k` to `v`.
    pub fn insert(&mut self, k: String, v: String)
        ensures
            final(self)@ == old(self)@.insert(k@, v@),
    {
        proof { use_type_invariant(&*self); }
        let ghost old_self = *self;
        let found = self.find(k.as_str());
        let mut entries: Vec<(String, String)> = Vec::new();
        std::mem::swap(&mut entries, &mut self.entries);
        assert(entries@ == old_self.entries@);
        let ghost e = (k, v);
        match found {
            Some(i) => {
                entries.set(i, (k, v));
                proof { lemma_view_update(old_self, Attributes { entries }, i as int, e); }
                self.entries = entries;
            },
            None => {
                entries.push((k, v));
                proof { lemma_view_push(old_self, Attributes { entries }, e); }
                self.entries = entries;
            },
        }
    }

    /// The value of attribute `k`, if it is set.
    pub fn get(&self, k: &str) -> (r: Option<&String>)
        ensures
            self@.dom().contains(k@) ==> (r matches Some(v) && v@ == self@[k@]),
            !self@.dom().contains(k@) ==> r is None,
    {
        proof { use_type_invariant(self); }
        match self.find(k) {
            Some(i) => {
                proof {
                    self.lemma_position(i as int);
                    assert(self.names()[i as int] == self.entries@[i as int].0@);
                }
                Some(&self.entries[i].1)
            },
            None => None,
        }
    }

    /// Number of attributes.
    pub fn len(&self) -> (r: usize)
        ensures
            r == self@.dom().len(),
            r == self.names().len(),
            self@.dom().finite(),
            forall|k: Seq<char>| #[trigger] self@.dom().contains(k) <==> self.names().contains(k),
    {
        proof {
            use_type_invariant(self);
            self.names().unique_seq_to_set();
            assert(self@.dom() =~= self.names().to_set());
        }
        self.entries.len()
    }

    /// The `i`-th attribute in storage order, as name and value.
    pub fn entry(&self, i: usize) -> (r: (&String, &String))
        requires
            i < self@.dom().len(),
        ensures
            self@.dom().contains(r.0@),
            self@[r.0@] == r.1@,
            r.0@ == self.names()[i as int],
    {
        proof {
            use_type_invariant(self);
            self.names().unique_seq_to_set();
            assert(self@.dom() =~= self.names().to_set());
            self.lemma_position(i as int);
            assert(self.names()[i as int] == self.entries@[i as int].0@);
        }
        (&self.entries[i].0, &self.entries[i].1)
    }

    /// Whether `self` and `other` set the same attributes to the same values.
    pub fn same_as(&self, other: &Attributes) -> (r: bool)
        ensures
            r == (self@ == other@),
    {
        proof {
            use_type_invariant(self);
            use_type_invariant(other);
        }
        let n = self.len();
        if n != other.len() {
            return false;
        }
        proof { self.lemma_len(); }
        let mut i: usize = 0;
        while i < n
            invariant
                n == self.entries@.len(),
                n == self@.dom().len(),
                self@.dom().len() == other@.dom().len(),
                self@.dom().finite(),
                other@.dom().finite(),
                self.names().no_duplicates(),
                i <= n,
                forall|j: int| #![trigger self.entries@[j]] 0 <= j < i ==> other@.dom().contains(self.entries@[j].0@)
                    && other@[self.entries@[j].0@] == self.entries@[j].1@,
            decreases n - i,
        {
            proof {
                self.lemma_position(i as int);
                assert(self.names()[i as int] == self.entries@[i as int].0@);
            }
            let name = &self.entries[i].0;
            let value = &self.entries[i].1;
            assert(name@ == self.entries@[i as int].0@);
            assert(value@ == self.entries@[i as int].1@);
            match other.get(name.as_str()) {
                Some(v) => {
                    assert(other@.dom().contains(name@));
                    if !same_text(v.as_str(), value.as_str()) {
                        assert(self@[self.entries@[i as int].0@] == self.entries@[i as int].1@);
                        return false;
                    }
                    assert(other@[name@] == value@);
                },
                None => {
                    assert(self@.dom().contains(self.entries@[i as int].0@));
                    return false;
                },
            }
            assert(other@.dom().contains(self.entries@[i as int].0@));
            assert(other@[self.entries@[i as int].0@] == self.entries@[i as int].1@);
            i = i + 1;
        }
        proof {
            assert(self@.dom().subset_of(other@.dom())) by {
                assert forall|k: Seq<char>| self@.dom().contains(k) implies other@.dom().contains(k) by {
                    let j = choose|j: int| 0 <= j < self.names().len() && self.names()[j] == k;
                    assert(self.entries@[j].0@ == k);
                }
            }
            vstd::set_lib::lemma_subset_equality(self@.dom(), other@.dom());
            assert forall|k: Seq<char>| #![auto] self@.dom().contains(k) implies self@[k] == other@[k] by {
                let j = choose|j: int| 0 <= j < self.names().len() && self.names()[j] == k;
                assert(self.entries@[j].0@ == k);
                self.lemma_position(j);
            }
            assert(self@ =~= other@);
        }
        true
    }
}

} // verus!
