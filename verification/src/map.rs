//! An association list from names to literal values, kept in insertion
//! order. Lookups return the first binding of a key; an `insert` of a key
//! that is already bound is a no-op.
use vstd::prelude::*;

verus! {

/// A literal value that can be bound to a name.
#[derive(Debug)]
pub enum Types {
    String(String),
    Int(i128),
    Char(char),
    Boolean(bool),
}

impl Clone for Types {
    fn clone(&self) -> (r: Self)
        ensures
            r == *self,
    {
        match self {
            Types::String(s) => Types::String(s.clone()),
            Types::Int(i) => Types::Int(*i),
            Types::Char(c) => Types::Char(*c),
            Types::Boolean(b) => Types::Boolean(*b),
        }
    }
}

/// Mathematical image of a `Types` value.
#[verifier::ext_equal]
pub enum TypesV {
    String(Seq<char>),
    Int(int),
    Char(char),
    Boolean(bool),
}

impl View for Types {
    type V = TypesV;

    open spec fn view(&self) -> TypesV {
        match self {
            Types::String(s) => TypesV::String(s@),
            Types::Int(i) => TypesV::Int(*i as int),
            Types::Char(c) => TypesV::Char(*c),
            Types::Boolean(b) => TypesV::Boolean(*b),
        }
    }
}

/// The first value bound to `key`, if any.
pub open spec fn spec_get(elems: Seq<(Seq<char>, TypesV)>, key: Seq<char>) -> Option<TypesV>
    decreases elems.len(),
{
    if elems.len() == 0 {
        None
    } else if elems[0].0 == key {
        Some(elems[0].1)
    } else {
        spec_get(elems.drop_first(), key)
    }
}

pub struct DefinitionMap {
    elems: Vec<(String, Types)>,
}

impl View for DefinitionMap {
    type V = Seq<(Seq<char>, TypesV)>;

    closed spec fn view(&self) -> Seq<(Seq<char>, TypesV)> {
        Seq::new(self.elems@.len(), |i: int| (self.elems@[i].0@, self.elems@[i].1@))
    }
}

impl DefinitionMap {
    pub fn new() -> (r: Self)
        ensures
            r@ == Seq::<(Seq<char>, TypesV)>::empty(),
    {
        let r = Self { elems: Vec::new() };
        proof {
            assert(r@ =~= Seq::<(Seq<char>, TypesV)>::empty());
        }
        r
    }

    /// Looks up the first binding of `key`.
    pub fn get(&self, key: String) -> (r: Option<Types>)
        ensures
            match r {
                Some(v) => spec_get(self@, key@) == Some(v@),
                None => spec_get(self@, key@) is None,
            },
    {
        proof {
            assert(self@.skip(0) =~= self@);
        }
        let mut i: usize = 0;
        while i < self.elems.len()
            invariant
                0 <= i <= self.elems.len(),
                spec_get(self@, key@) == spec_get(self@.skip(i as int), key@),
        decreases self.elems.len() - i,
        {
            proof {
                lemma_spec_get_step(self@, key@, i as int);
            }
            if self.elems[i].0.eq(&key) {
                proof {
                    assert(self@.skip(i as int)[0] == (self.elems@[i as int].0@, self.elems@[i as int].1@));
                }
                return Some(self.elems[i].1.clone());
            }
            proof {
                assert(self@.skip(i as int).drop_first() =~= self@.skip(i as int + 1));
            }
            i = i + 1;
        }
        proof {
            assert(self@.skip(i as int).len() == 0);
        }
        None
    }

    /// Adds a binding unless the key is already bound.
    pub fn insert(&mut self, key: String, value: Types)
        ensures
            final(self)@ == if spec_get(old(self)@, key@) is None {
                old(self)@.push((key@, value@))
            } else {
                old(self)@
            },
    {
        match self.get(key.clone()) {
            None => {
                let ghost oldv = self@;
                self.elems.push((key, value));
                proof {
                    assert(final(self)@ =~= oldv.push((key@, value@)));
                }
            },
            Some(_) => {},
        }
    }

    /// Keeps only the bindings of `key`, dropping every other entry.
    pub fn remove(&mut self, key: String)
        ensures
            final(self)@ == old(self)@.filter(|p: (Seq<char>, TypesV)| p.0 == key@),
    {
        let mut kept: Vec<(String, Types)> = Vec::new();
        let ghost oldv = self@;
        let mut i: usize = 0;
        while i < self.elems.len()
            invariant
                0 <= i <= self.elems.len(),
                oldv == self@,
                oldv.len() == self.elems@.len(),
                Seq::new(kept@.len(), |j: int| (kept@[j].0@, kept@[j].1@)) == oldv.take(
                    i as int,
                ).filter(|p: (Seq<char>, TypesV)| p.0 == key@),
        decreases self.elems.len() - i,
        {
            proof {
                reveal_with_fuel(Seq::filter, 2);
                assert(oldv.take(i as int + 1).drop_last() =~= oldv.take(i as int));
                assert(oldv.take(i as int + 1).last() == oldv[i as int]);
            }
            let keep = self.elems[i].0.eq(&key);
            if keep {
                let entry = (self.elems[i].0.clone(), self.elems[i].1.clone());
                kept.push(entry);
            }
            proof {
                assert(Seq::new(kept@.len(), |j: int| (kept@[j].0@, kept@[j].1@)) =~= oldv.take(
                    i as int + 1,
                ).filter(|p: (Seq<char>, TypesV)| p.0 == key@));
            }
            i = i + 1;
        }
        proof {
            assert(oldv.take(oldv.len() as int) =~= oldv);
        }
        self.elems = kept;
    }

    pub fn len(&self) -> (r: usize)
        ensures
            r == self@.len(),
    {
        self.elems.len()
    }

    pub fn is_empty(&self) -> (r: bool)
        ensures
            r == (self@.len() == 0),
    {
        self.elems.is_empty()
    }
}

proof fn lemma_spec_get_step(elems: Seq<(Seq<char>, TypesV)>, key: Seq<char>, i: int)
    requires
        0 <= i < elems.len(),
    ensures
        spec_get(elems.skip(i), key) == if elems[i].0 == key {
            Some(elems[i].1)
        } else {
            spec_get(elems.skip(i).drop_first(), key)
        },
{
    assert(elems.skip(i).len() > 0);
    assert(elems.skip(i)[0] == elems[i]);
}

} // verus!
