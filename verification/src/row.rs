//! The row record: a mapping from column name to text value.

use vstd::prelude::*;

verus! {

/// One decoded record. Column names are unique within a row; a column keeps
/// the place at which it was first inserted.
pub struct Row {
    keys: Vec<String>,
    values: Vec<String>,
}

/// The names held by `keys`, as plain sequences of characters.
pub open spec fn names_of(keys: Seq<String>) -> Seq<Seq<char>> {
    Seq::new(keys.len(), |i: int| keys[i]@)
}

/// No name occurs twice in `names`.
pub open spec fn distinct(names: Seq<Seq<char>>) -> bool {
    forall|i: int, j: int| 0 <= i < j < names.len() ==> names[i] != names[j]
}

/// The place of `name` in `names`, if it occurs there.
pub open spec fn position(names: Seq<Seq<char>>, name: Seq<char>) -> Option<int>
    decreases names.len(),
{
    if names.len() == 0 {
        None
    } else if names[0] == name {
        Some(0)
    } else {
        match position(names.drop_first(), name) {
            Some(i) => Some(i + 1),
            None => None,
        }
    }
}

/// `position` finds the first occurrence, and finds one whenever there is one.
pub proof fn lemma_position(names: Seq<Seq<char>>, name: Seq<char>)
    ensures
        match position(names, name) {
            Some(i) => 0 <= i < names.len() && names[i] == name
                && forall|j: int| 0 <= j < i ==> names[j] != name,
            None => forall|j: int| 0 <= j < names.len() ==> names[j] != name,
        },
    decreases names.len(),
{
    if names.len() > 0 && names[0] != name {
        let rest = names.drop_first();
        lemma_position(rest, name);
        match position(rest, name) {
            Some(i) => {
                assert forall|j: int| 0 <= j < i + 1 implies names[j] != name by {
                    if j > 0 {
                        assert(names[j] == rest[j - 1]);
                    }
                }
            },
            None => {
                assert forall|j: int| 0 <= j < names.len() implies names[j] != name by {
                    if j > 0 {
                        assert(names[j] == rest[j - 1]);
                    }
                }
            },
        }
    }
}

/// The names of `cells`, in their order.
pub open spec fn keys_of(cells: Seq<(Seq<char>, Seq<char>)>) -> Seq<Seq<char>> {
    Seq::new(cells.len(), |i: int| cells[i].0)
}

/// `cells` after column `name` was given the value `text`: a column that is
/// there keeps its place, a new one goes to the end.
pub open spec fn inserted(cells: Seq<(Seq<char>, Seq<char>)>, name: Seq<char>, text: Seq<char>) -> Seq<
    (Seq<char>, Seq<char>),
> {
    match position(keys_of(cells), name) {
        Some(i) => cells.update(i, (name, text)),
        None => cells.push((name, text)),
    }
}

/// The place of the first occurrence of `name` in `names`.
pub fn index_of(names: &Vec<String>, name: &String) -> (found: Option<usize>)
    ensures
        match found {
            Some(i) => i < names@.len() && position(names_of(names@), name@) == Some(i as int),
            None => position(names_of(names@), name@) == None::<int>,
        },
{
    let mut i: usize = 0;
    while i < names.len()
        invariant
            i <= names@.len(),
            forall|j: int| 0 <= j < i ==> names_of(names@)[j] != name@,
        decreases names@.len() - i,
    {
        if names[i] == *name {
            proof {
                assert(names_of(names@)[i as int] == name@);
                lemma_position(names_of(names@), name@);
            }
            return Some(i);
        }
        i += 1;
    }
    proof {
        lemma_position(names_of(names@), name@);
    }
    None
}

/// The value that `cells` holds for column `name`, if it holds one.
pub open spec fn lookup(cells: Seq<(Seq<char>, Seq<char>)>, name: Seq<char>) -> Option<Seq<char>> {
    match position(keys_of(cells), name) {
        Some(i) => Some(cells[i].1),
        None => None,
    }
}

impl Row {
    /// The columns in their order, each with its value.
    pub closed spec fn cells(&self) -> Seq<(Seq<char>, Seq<char>)> {
        Seq::new(self.keys@.len(), |i: int| (self.keys@[i]@, self.values@[i]@))
    }

    /// Keys and values pair up, and no column name occurs twice.
    pub closed spec fn wf(&self) -> bool {
        &&& self.keys@.len() == self.values@.len()
        &&& distinct(names_of(self.keys@))
    }

    /// The column names in their order.
    pub open spec fn columns(&self) -> Seq<Seq<char>> {
        keys_of(self.cells())
    }

    /// The value of `name`, if the row has that column.
    pub open spec fn value_of(&self, name: Seq<char>) -> Option<Seq<char>> {
        lookup(self.cells(), name)
    }

    /// A well-formed row has distinct column names.
    pub proof fn lemma_wf_distinct(&self)
        requires
            self.wf(),
        ensures
            distinct(self.columns()),
    {
        assert(self.columns() =~= names_of(self.keys@));
    }

    /// The row without columns.
    pub fn new() -> (row: Row)
        ensures
            row.wf(),
            row.cells() == Seq::<(Seq<char>, Seq<char>)>::empty(),
    {
        let row = Row { keys: Vec::new(), values: Vec::new() };
        assert(row.cells() =~= Seq::<(Seq<char>, Seq<char>)>::empty());
        row
    }

    /// The place of column `name`, if the row has it.
    pub fn find(&self, name: &String) -> (found: Option<usize>)
        requires
            self.wf(),
        ensures
            match found {
                Some(i) => i < self.cells().len() && position(self.columns(), name@) == Some(
                    i as int,
                ),
                None => position(self.columns(), name@) == None::<int>,
            },
    {
        assert(self.columns() =~= names_of(self.keys@));
        index_of(&self.keys, name)
    }

    /// Whether the row has column `name`.
    pub fn contains_key(&self, name: &String) -> (held: bool)
        requires
            self.wf(),
        ensures
            held == self.value_of(name@).is_some(),
    {
        self.find(name).is_some()
    }

    /// The value of column `name`, if the row has it.
    pub fn get(&self, name: &String) -> (value: Option<String>)
        requires
            self.wf(),
        ensures
            match value {
                Some(text) => self.value_of(name@) == Some(text@),
                None => self.value_of(name@) == None::<Seq<char>>,
            },
    {
        match self.find(name) {
            Some(i) => Some(self.values[i].clone()),
            None => None,
        }
    }

    /// The name of the column at place `i`.
    pub fn column_at(&self, i: usize) -> (name: String)
        requires
            self.wf(),
            i < self.cells().len(),
        ensures
            name@ == self.cells()[i as int].0,
    {
        self.keys[i].clone()
    }

    /// The value of the column at place `i`.
    pub fn value_at(&self, i: usize) -> (text: String)
        requires
            self.wf(),
            i < self.cells().len(),
        ensures
            text@ == self.cells()[i as int].1,
    {
        self.values[i].clone()
    }

    /// Gives column `name` the value `text`: a column that the row has keeps
    /// its place and takes the new value, a new column goes to the end.
    pub fn insert(&mut self, name: String, text: String)
        requires
            old(self).wf(),
        ensures
            final(self).wf(),
            final(self).cells() == inserted(old(self).cells(), name@, text@),
    {
        let found = self.find(&name);
        proof {
            lemma_position(self.columns(), name@);
        }
        match found {
            Some(i) => {
                let ghost before = self.cells();
                let ghost names = names_of(self.keys@);
                self.values.set(i, text);
                assert(names_of(self.keys@) =~= names);
                assert(self.cells() =~= before.update(i as int, (name@, text@)));
            },
            None => {
                let ghost before = self.cells();
                let ghost names = names_of(self.keys@);
                assert(names =~= self.columns());
                self.keys.push(name);
                self.values.push(text);
                assert(names_of(self.keys@) =~= names.push(name@));
                assert(self.cells() =~= before.push((name@, text@)));
            },
        }
    }

    /// A copy of the row.
    pub fn duplicate(&self) -> (copy: Row)
        requires
            self.wf(),
        ensures
            copy.wf(),
            copy.cells() == self.cells(),
    {
        let mut keys: Vec<String> = Vec::new();
        let mut values: Vec<String> = Vec::new();
        let mut i: usize = 0;
        while i < self.keys.len()
            invariant
                i <= self.keys@.len(),
                self.keys@.len() == self.values@.len(),
                keys@.len() == i,
                values@.len() == i,
                forall|j: int| 0 <= j < i ==> keys@[j]@ == self.keys@[j]@,
                forall|j: int| 0 <= j < i ==> values@[j]@ == self.values@[j]@,
            decreases self.keys@.len() - i,
        {
            keys.push(self.keys[i].clone());
            values.push(self.values[i].clone());
            i += 1;
        }
        let copy = Row { keys, values };
        assert(names_of(copy.keys@) =~= names_of(self.keys@));
        assert(copy.cells() =~= self.cells());
        copy
    }

    /// The number of columns.
    pub fn len(&self) -> (n: usize)
        requires
            self.wf(),
        ensures
            n == self.cells().len(),
    {
        self.keys.len()
    }
}

} // verus!
