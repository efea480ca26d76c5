//! Storage addresses: where in a repository an entry is kept.
//!
//! An address is the list of names that lead from the repository root to an
//! entry, the root first. How the names are joined into a file name is left
//! to whoever performs the read.
use vstd::prelude::*;

verus! {

/// The names that lead to an entry, outermost first.
#[derive(PartialEq, Eq, Debug)]
pub struct StoragePath {
    pub components: Vec<String>,
}

impl View for StoragePath {
    type V = Seq<Seq<char>>;

    open spec fn view(&self) -> Seq<Seq<char>> {
        self.components@.map_values(|name: String| name@)
    }
}

impl StoragePath {
    /// The empty address.
    pub fn new() -> (path: StoragePath)
        ensures
            path@ == Seq::<Seq<char>>::empty(),
    {
        let path = StoragePath { components: Vec::new() };
        proof {
            assert(path@ =~= Seq::<Seq<char>>::empty());
        }
        path
    }

    /// Appends `name` as the innermost component.
    pub fn push(&mut self, name: &str)
        ensures
            final(self)@ == old(self)@.push(name@),
    {
        self.components.push(name.to_owned());
        proof {
            assert(self@ =~= old(self)@.push(name@));
        }
    }

    /// Removes the innermost component.
    ///
    /// Returns `false`, and changes nothing, when the address is empty.
    pub fn pop(&mut self) -> (removed: bool)
        ensures
            removed == (old(self)@.len() > 0),
            final(self)@ == if removed {
                old(self)@.drop_last()
            } else {
                old(self)@
            },
    {
        let removed = self.components.pop().is_some();
        proof {
            if removed {
                assert(self@ =~= old(self)@.drop_last());
            } else {
                assert(self@ =~= old(self)@);
            }
        }
        removed
    }

    /// This address with `name` appended; `self` is left as it is.
    pub fn join(&self, name: &str) -> (path: StoragePath)
        ensures
            path@ == self@.push(name@),
    {
        let mut path = self.clone();
        path.push(name);
        path
    }
}

impl Clone for StoragePath {
    fn clone(&self) -> (path: StoragePath)
        ensures
            path@ == self@,
    {
        let mut components: Vec<String> = Vec::new();
        let mut i: usize = 0;
        while i < self.components.len()
            invariant
                i <= self.components@.len(),
                components@.len() == i,
                forall|j: int| 0 <= j < i ==> components@[j]@ == self.components@[j]@,
            decreases self.components@.len() - i,
        {
            components.push(self.components[i].clone());
            i += 1;
        }
        let path = StoragePath { components };
        proof {
            assert(path@ =~= self@);
        }
        path
    }
}

} // verus!
