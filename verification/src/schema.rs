//! Entity schema metadata: the ordered list of logical column names of the
//! target record type, and resolution of a column name to its typed column
//! identifier (its index), by exact string match.

use vstd::prelude::*;

verus! {

/// Schema metadata for one entity: its column names, in declaration order.
/// A column identifier is the index of the column in this list.
pub struct Schema {
    columns: Vec<String>,
}

impl Schema {
    /// The column names as sequences of characters.
    pub closed spec fn spec_columns(&self) -> Seq<Seq<char>> {
        self.columns@.map_values(|s: String| s@)
    }

    /// The identifier of the first column with the given name, if any.
    pub open spec fn spec_resolve(&self, name: Seq<char>) -> Option<int> {
        self.spec_columns().index_of_first(name)
    }

    /// Whether some column has the given name.
    pub open spec fn has_column(&self, name: Seq<char>) -> bool {
        exists|i: int| 0 <= i < self.spec_columns().len() && self.spec_columns()[i] == name
    }

    pub fn new() -> (r: Self)
        ensures
            r.spec_columns() == Seq::<Seq<char>>::empty(),
    {
        Schema { columns: Vec::new() }
    }

    pub fn add_column(&mut self, name: String)
        ensures
            final(self).spec_columns() == old(self).spec_columns().push(name@),
    {
        self.columns.push(name);
        proof {
            assert(self.spec_columns() =~= old(self).spec_columns().push(name@));
        }
    }

    /// Look the given name up among the columns; the result is the index of
    /// its first occurrence, and `None` exactly when no column has that name.
    pub fn resolve(&self, name: &String) -> (r: Option<usize>)
        ensures
            match r {
                Some(c) => self.spec_resolve(name@) == Some(c as int),
                None => self.spec_resolve(name@) is None,
            },
    {
        let mut i: usize = 0;
        while i < self.columns.len()
            invariant
                i <= self.columns@.len(),
                forall|j: int| 0 <= j < i ==> self.spec_columns()[j] != name@,
            decreases self.columns@.len() - i,
        {
            if self.columns[i] == *name {
                proof {
                    assert(self.spec_columns()[i as int] == self.columns@[i as int]@);
                    self.spec_columns().index_of_first_ensures(name@);
                    assert(self.spec_columns().contains(name@));
                    let found = self.spec_resolve(name@)->Some_0;
                    assert(found == i as int) by {
                        if found < i {
                            assert(self.spec_columns()[found] != name@);
                        }
                    }
                }
                return Some(i);
            }
            i += 1;
        }
        proof {
            self.spec_columns().index_of_first_ensures(name@);
            if self.spec_resolve(name@) is Some {
                let found = self.spec_resolve(name@)->Some_0;
                assert(self.spec_columns()[found] == name@);
            }
        }
        None
    }
}

} // verus!
