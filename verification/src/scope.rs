use vstd::prelude::*;
use crate::text::same;
use crate::value::Value;

verus! {

/// A value that can be copied without changing what it stands for.
pub trait Duplicate: View + Sized {
    fn duplicate(&self) -> (copy: Self)
        ensures
            copy@ == self@,
    ;
}

impl Duplicate for String {
    fn duplicate(&self) -> (copy: String) {
        self.clone()
    }
}

impl Duplicate for Value {
    fn duplicate(&self) -> (copy: Value) {
        self.clone()
    }
}

/// A mapping from identifiers to what they are bound to.
///
/// No identifier is held twice: binding one again replaces what it was bound to.
pub struct Scope<V> {
    names: Vec<String>,
    values: Vec<V>,
}

impl<V> Scope<V> {
    #[verifier::type_invariant]
    spec fn well_formed(self) -> bool {
        &&& self.names.len() == self.values.len()
        &&& forall|i: int, j: int|
            0 <= i < j < self.names.len() ==> self.names[i]@ != self.names[j]@
    }

    spec fn holds(self, name: Seq<char>, i: int) -> bool {
        0 <= i < self.names.len() && self.names[i]@ == name
    }

    spec fn slot(self, name: Seq<char>) -> int {
        choose|i: int| self.holds(name, i)
    }
}

impl<V: View> Scope<V> {
    /// The bindings, as a map from the characters of each identifier.
    pub closed spec fn bindings(self) -> Map<Seq<char>, V::V> {
        Map::new(
            |name: Seq<char>| exists|i: int| self.holds(name, i),
            |name: Seq<char>| self.values[self.slot(name)]@,
        )
    }

    /// A scope that binds nothing.
    pub fn new() -> (scope: Self)
        ensures
            scope@ == Map::<Seq<char>, V::V>::empty(),
    {
        let scope = Scope { names: Vec::new(), values: Vec::new() };
        proof {
            assert(scope.bindings() =~= Map::<Seq<char>, V::V>::empty());
        }
        scope
    }

    fn find(&self, name: &str) -> (found: Option<usize>)
        ensures
            match found {
                Some(i) => self.holds(name@, i as int),
                None => forall|i: int| !self.holds(name@, i),
            },
    {
        let mut i: usize = 0;
        while i < self.names.len()
            invariant
                i <= self.names.len(),
                forall|j: int| 0 <= j < i ==> self.names[j]@ != name@,
            decreases self.names.len() - i,
        {
            if same(self.names[i].as_str(), name) {
                return Some(i);
            }
            i += 1;
        }
        None
    }

    /// What `name` is bound to, if it is bound.
    pub fn get(&self, name: &str) -> (found: Option<&V>)
        ensures
            match found {
                Some(value) => self@.contains_key(name@) && value@ == self@[name@],
                None => !self@.contains_key(name@),
            },
    {
        proof {
            use_type_invariant(self);
        }
        match self.find(name) {
            Some(i) => {
                proof {
                    let k = self.slot(name@);
                    assert(self.holds(name@, i as int));
                    assert(self.holds(name@, k));
                    assert(k == i);
                }
                Some(&self.values[i])
            },
            None => None,
        }
    }

    /// Binds `name` to `value`, replacing what it was bound to before.
    pub fn insert(&mut self, name: String, value: V)
        ensures
            final(self)@ == old(self)@.insert(name@, value@),
    {
        proof {
            use_type_invariant(&*self);
        }
        let ghost before = *self;
        let found = self.find(name.as_str());
        let mut taken = Scope { names: Vec::new(), values: Vec::new() };
        core::mem::swap(self, &mut taken);
        let Scope { mut names, mut values } = taken;
        assert(names == before.names && values == before.values);
        match found {
            Some(i) => {
                values.set(i, value);
                let after = Scope { names, values };
                proof {
                    assert(after.names == before.names);
                    assert forall|key: Seq<char>, j: int| after.holds(key, j) == before.holds(
                        key,
                        j,
                    ) by {}
                    assert(before.holds(name@, i as int));
                    assert forall|key: Seq<char>| #[trigger]
                        after.bindings().contains_key(key) implies after.bindings()[key]
                        == before.bindings().insert(name@, value@)[key] by {
                        let k = after.slot(key);
                        let b = before.slot(key);
                        assert(after.holds(key, k));
                        assert(before.holds(key, k));
                        assert(before.holds(key, b));
                        assert(k == b);
                        if key == name@ {
                            assert(k == i);
                        }
                    }
                    assert(after.bindings() =~= before.bindings().insert(name@, value@));
                }
                *self = after;
            },
            None => {
                names.push(name);
                values.push(value);
                proof {
                    assert forall|a: int, b: int| 0 <= a < b < names.len() implies names[a]@
                        != names[b]@ by {
                        if b == names.len() - 1 {
                            assert(!before.holds(name@, a));
                        }
                    }
                }
                let after = Scope { names, values };
                proof {
                    let last = before.names.len() as int;
                    assert forall|key: Seq<char>, j: int| after.holds(key, j) == (before.holds(
                        key,
                        j,
                    ) || (j == last && key == name@)) by {}
                    assert(after.holds(name@, last));
                    assert forall|key: Seq<char>| #[trigger]
                        after.bindings().contains_key(key) implies after.bindings()[key]
                        == before.bindings().insert(name@, value@)[key] by {
                        let k = after.slot(key);
                        assert(after.holds(key, k));
                        if key == name@ {
                            assert(!before.holds(key, k));
                            assert(k == last);
                        } else {
                            let b = before.slot(key);
                            assert(before.holds(key, k));
                            assert(before.holds(key, b));
                            assert(k == b);
                        }
                    }
                    assert(after.bindings() =~= before.bindings().insert(name@, value@));
                }
                *self = after;
            },
        }
    }
}

impl<V: View> View for Scope<V> {
    type V = Map<Seq<char>, V::V>;

    closed spec fn view(&self) -> Map<Seq<char>, V::V> {
        self.bindings()
    }
}

impl<V: Duplicate> Scope<V> {
    /// A copy that binds the same identifiers to the same things, and that
    /// later changes to either scope leave the other untouched.
    pub fn duplicate(&self) -> (copy: Self)
        ensures
            copy@ == self@,
    {
        proof {
            use_type_invariant(self);
        }
        let mut names: Vec<String> = Vec::new();
        let mut values: Vec<V> = Vec::new();
        let mut i: usize = 0;
        while i < self.names.len()
            invariant
                i <= self.names.len(),
                self.names.len() == self.values.len(),
                names.len() == i,
                values.len() == i,
                forall|j: int| 0 <= j < i ==> names[j]@ == self.names[j]@,
                forall|j: int| 0 <= j < i ==> values[j]@ == self.values[j]@,
            decreases self.names.len() - i,
        {
            names.push(self.names[i].clone());
            values.push(self.values[i].duplicate());
            i += 1;
        }
        let copy = Scope { names, values };
        proof {
            assert forall|key: Seq<char>, j: int| copy.holds(key, j) == self.holds(key, j) by {}
            assert forall|key: Seq<char>| #[trigger]
                copy.bindings().contains_key(key) implies copy.bindings()[key]
                == self.bindings()[key] by {
                let k = copy.slot(key);
                let b = self.slot(key);
                assert(copy.holds(key, k));
                assert(self.holds(key, k));
                assert(self.holds(key, b));
                assert(k == b);
            }
            assert(copy.bindings() =~= self.bindings());
        }
        copy
    }
}

} // verus!
