//! A row, as the engine returned it.
use vstd::prelude::*;
use super::value::{Value, ValueView};
use super::{FromRow, Query};
use crate::text::same_text;

verus! {

/// A row that the engine returned: its columns in order, each with its name
/// and its value. A record type reads its fields from it by name.
#[derive(Debug)]
pub struct Row {
    columns: Vec<(String, Value)>,
}

/// What a [`Row`] holds: the name and the value of each column, in order.
pub type RowView = Seq<(Seq<char>, ValueView)>;

/// The value of the first column of `row` that is called `name`.
pub open spec fn lookup(row: RowView, name: Seq<char>) -> Option<ValueView>
    decreases row.len(),
{
    if row.len() == 0 {
        None
    } else if row[0].0 == name {
        Some(row[0].1)
    } else {
        lookup(row.drop_first(), name)
    }
}

impl View for Row {
    type V = RowView;

    closed spec fn view(&self) -> RowView {
        Seq::new(self.columns@.len(), |i: int| (self.columns@[i].0@, self.columns@[i].1@))
    }
}

impl Clone for Row {
    fn clone(&self) -> (r: Self)
        ensures
            r@ == self@,
    {
        let mut columns: Vec<(String, Value)> = Vec::new();
        let mut i: usize = 0;
        while i < self.columns.len()
            invariant
                i <= self.columns@.len(),
                columns@.len() == i,
                forall|j: int|
                    0 <= j < i ==> (#[trigger] columns@[j]).0@ == self.columns@[j].0@
                        && columns@[j].1@ == self.columns@[j].1@,
            decreases self.columns@.len() - i,
        {
            columns.push((self.columns[i].0.clone(), self.columns[i].1.clone()));
            i += 1;
        }
        let r = Row { columns };
        proof {
            assert(r@ =~= self@);
        }
        r
    }
}

impl Row {
    /// The row with the given columns.
    pub fn new(columns: Vec<(String, Value)>) -> (r: Self)
        ensures
            r@ == Seq::new(columns@.len(), |i: int| (columns@[i].0@, columns@[i].1@)),
    {
        Row { columns }
    }

    /// How many columns the row has.
    pub fn len(&self) -> (n: usize)
        ensures
            n == self@.len(),
    {
        self.columns.len()
    }

    /// The value of the column at `index`, if the row is that long.
    pub fn at(&self, index: usize) -> (r: Option<&Value>)
        ensures
            r is Some <==> index < self@.len(),
            r matches Some(value) ==> value@ == self@[index as int].1,
    {
        if index < self.columns.len() {
            Some(&self.columns[index].1)
        } else {
            None
        }
    }

    /// The value of the first column called `name`, if there is one.
    pub fn get(&self, name: &str) -> (r: Option<&Value>)
        ensures
            match r {
                Some(value) => lookup(self@, name@) == Some(value@),
                None => lookup(self@, name@) is None,
            },
    {
        let ghost all = self@;
        let mut i: usize = 0;
        proof {
            assert(all.skip(0) == all);
        }
        while i < self.columns.len()
            invariant
                i <= self.columns@.len(),
                all == self@,
                all.len() == self.columns@.len(),
                lookup(all, name@) == lookup(all.skip(i as int), name@),
            decreases self.columns@.len() - i,
        {
            proof {
                assert(all.skip(i as int)[0] == all[i as int]);
                assert(all.skip(i as int).drop_first() == all.skip(i + 1));
                assert(all[i as int].0 == self.columns@[i as int].0@);
                assert(all[i as int].1 == self.columns@[i as int].1@);
            }
            if same_text(self.columns[i].0.as_str(), name) {
                return Some(&self.columns[i].1);
            }
            i += 1;
        }
        proof {
            assert(all.skip(all.len() as int).len() == 0);
        }
        None
    }

    /// A query that runs the given SQL as it is and returns plain rows.
    pub fn find_by_sql(query: &str) -> (q: Query<Row>)
        ensures
            q@ == super::QueryView::Raw(query@),
    {
        Query::Raw(String::from_str(query))
    }
}

impl FromRow for Row {
    open spec fn decodes(row: RowView, record: Self) -> bool {
        record@ == row
    }

    fn from_row(row: &Row) -> (r: Self) {
        row.clone()
    }
}

} // verus!
