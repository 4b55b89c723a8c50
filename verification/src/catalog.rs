//! The catalog of a statement's result columns: from a column's name to its index.

use vstd::prelude::*;

verus! {

/// The index of the last column that bears `name`, if any does.
pub open spec fn last_position(names: Seq<Seq<char>>, name: Seq<char>) -> Option<int>
    decreases names.len(),
{
    if names.len() == 0 {
        None
    } else if names.last() == name {
        Some(names.len() - 1)
    } else {
        last_position(names.drop_last(), name)
    }
}

/// The mapping that a list of column names stands for. Where two columns
/// share a name, the later index is the one kept.
pub open spec fn name_map(names: Seq<Seq<char>>) -> Map<Seq<char>, int> {
    Map::new(
        |name: Seq<char>| last_position(names, name) is Some,
        |name: Seq<char>| last_position(names, name).unwrap(),
    )
}

/// `last_position` finds a column of that name behind which no other column
/// bears it, and finds none only where no column bears it.
pub proof fn lemma_last_position(names: Seq<Seq<char>>, name: Seq<char>)
    ensures
        match last_position(names, name) {
            Some(i) => 0 <= i < names.len() && names[i] == name && forall|j: int|
                i < j < names.len() ==> names[j] != name,
            None => forall|j: int| 0 <= j < names.len() ==> names[j] != name,
        },
    decreases names.len(),
{
    if names.len() > 0 && names.last() != name {
        lemma_last_position(names.drop_last(), name);
        let front = names.drop_last();
        assert(forall|j: int| 0 <= j < front.len() ==> front[j] == names[j]);
    }
}

/// Adding a column at the end maps its name to the new index and leaves every
/// other name where it was.
pub proof fn lemma_name_map_push(names: Seq<Seq<char>>, name: Seq<char>)
    ensures
        name_map(names.push(name)) == name_map(names).insert(name, names.len() as int),
{
    let longer = names.push(name);
    assert(longer.drop_last() == names);
    assert forall|other: Seq<char>|
        last_position(longer, other) == (if other == name {
            Some(names.len() as int)
        } else {
            last_position(names, other)
        }) by {
        assert(longer.last() == name);
    }
    assert(name_map(longer) =~= name_map(names).insert(name, names.len() as int));
}

/// A snapshot of the result columns of a compiled statement, in the order in
/// which the engine reported them.
#[derive(Debug, Clone)]
pub struct ColumnCatalog {
    names: Vec<String>,
}

impl View for ColumnCatalog {
    type V = Map<Seq<char>, int>;

    /// From each column name to its zero-based index.
    open spec fn view(&self) -> Map<Seq<char>, int> {
        name_map(self.names())
    }
}

impl ColumnCatalog {
    /// The column names in index order.
    pub closed spec fn names(&self) -> Seq<Seq<char>> {
        Seq::new(self.names@.len(), |i: int| self.names@[i]@)
    }

    /// A catalog without columns.
    pub fn new() -> (catalog: ColumnCatalog)
        ensures
            catalog.names() == Seq::<Seq<char>>::empty(),
            catalog@ == Map::<Seq<char>, int>::empty(),
    {
        let catalog = ColumnCatalog { names: Vec::new() };
        proof {
            assert(catalog.names() =~= Seq::<Seq<char>>::empty());
            assert(catalog@ =~= Map::<Seq<char>, int>::empty());
        }
        catalog
    }

    /// The number of columns entered, a shared name counted each time.
    pub fn len(&self) -> (count: usize)
        ensures
            count == self.names().len(),
    {
        self.names.len()
    }

    /// Enters the next column. It gets the next index, which is returned; a
    /// name entered before now leads to this column.
    pub fn push(&mut self, name: String) -> (index: usize)
        ensures
            index == old(self).names().len(),
            final(self).names() == old(self).names().push(name@),
            final(self)@ == old(self)@.insert(name@, index as int),
    {
        let index: usize = self.names.len();
        self.names.push(name);
        proof {
            assert(self.names() =~= old(self).names().push(name@));
            lemma_name_map_push(old(self).names(), name@);
        }
        index
    }

    /// The index of the column of that name: the last one, where several bear it.
    pub fn index_of(&self, name: &str) -> (found: Option<usize>)
        ensures
            found is Some <==> self@.dom().contains(name@),
            found matches Some(i) ==> self@[name@] == i && i < self.names().len()
                && self.names()[i as int] == name@,
            match found {
                Some(i) => last_position(self.names(), name@) == Some(i as int),
                None => last_position(self.names(), name@) is None,
            },
    {
        let wanted: String = name.to_owned();
        let mut i: usize = self.names.len();
        while i > 0
            invariant
                i <= self.names@.len(),
                wanted@ == name@,
                forall|j: int| i <= j < self.names@.len() ==> self.names()[j] != name@,
            decreases i,
        {
            i = i - 1;
            if self.names[i] == wanted {
                proof {
                    assert(self.names()[i as int] == name@);
                    lemma_last_position(self.names(), name@);
                }
                return Some(i);
            }
        }
        proof {
            lemma_last_position(self.names(), name@);
        }
        None
    }

    /// The name of the column at `index`.
    pub fn name(&self, index: usize) -> (name: &String)
        requires
            index < self.names().len(),
        ensures
            name@ == self.names()[index as int],
    {
        &self.names[index]
    }
}

} // verus!
