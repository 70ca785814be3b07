//! Table columns and column lists.
use vstd::prelude::*;
use super::escape::{push_quoted, quoted};
use super::ToSql;
use crate::text::joined;

verus! {

/// A table column, qualified by its table or bare.
#[derive(Debug)]
pub struct Column {
    table_name: String,
    column_name: String,
}

/// What a [`Column`] holds. An empty `table_name` means a bare column.
pub struct ColumnView {
    pub table_name: Seq<char>,
    pub column_name: Seq<char>,
}

impl ColumnView {
    /// The column as SQL: its quoted name, after its quoted table and a dot
    /// when it has a table.
    pub open spec fn sql(self) -> Seq<char> {
        if self.table_name.len() == 0 {
            quoted(self.column_name)
        } else {
            quoted(self.table_name) + seq!['.'] + quoted(self.column_name)
        }
    }
}

impl View for Column {
    type V = ColumnView;

    closed spec fn view(&self) -> ColumnView {
        ColumnView { table_name: self.table_name@, column_name: self.column_name@ }
    }
}

impl Clone for Column {
    fn clone(&self) -> (r: Self)
        ensures
            r@ == self@,
    {
        Column { table_name: self.table_name.clone(), column_name: self.column_name.clone() }
    }
}

impl ToSql for Column {
    open spec fn sql(&self) -> Seq<char> {
        self@.sql()
    }

    fn to_sql(&self) -> (s: String) {
        let mut out = String::new();
        if self.table_name.as_str().unicode_len() > 0 {
            push_quoted(&mut out, self.table_name.as_str());
            out.push('.');
        }
        push_quoted(&mut out, self.column_name.as_str());
        proof {
            assert(out@ == self@.sql());
        }
        out
    }
}

impl Column {
    /// A column of the given table.
    ///
    /// Columns are best qualified with their table: a bare name that two
    /// joined tables share is ambiguous.
    pub fn new(table_name: &str, column_name: &str) -> (r: Self)
        ensures
            r@ == (ColumnView { table_name: table_name@, column_name: column_name@ }),
    {
        Column {
            table_name: String::from_str(table_name),
            column_name: String::from_str(column_name),
        }
    }

    /// A bare column.
    pub fn name(column_name: &str) -> (r: Self)
        ensures
            r@ == (ColumnView { table_name: Seq::empty(), column_name: column_name@ }),
    {
        Column { table_name: String::new(), column_name: String::from_str(column_name) }
    }

    /// Whether the column names its table.
    pub fn qualified(&self) -> (r: bool)
        ensures
            r == (self@.table_name.len() > 0),
    {
        self.table_name.as_str().unicode_len() > 0
    }

    /// The same column, of the given table.
    pub fn qualify(self, table_name: &str) -> (r: Self)
        ensures
            r@ == (ColumnView { table_name: table_name@, column_name: self@.column_name }),
    {
        Column { table_name: String::from_str(table_name), column_name: self.column_name }
    }
}

/// The columns that a query projects: all of them, or those listed.
#[derive(Debug)]
pub struct Columns {
    columns: Vec<Column>,
    table_name: Option<String>,
}

/// What a [`Columns`] holds.
pub struct ColumnsView {
    pub columns: Seq<ColumnView>,
    pub table_name: Option<Seq<char>>,
}

/// The SQL of each column, in order.
pub open spec fn column_sqls(columns: Seq<ColumnView>) -> Seq<Seq<char>> {
    Seq::new(columns.len(), |i: int| columns[i].sql())
}

impl ColumnsView {
    /// The projection as SQL: the listed columns separated by a comma and a
    /// space, or, with none listed, a star, after the quoted table and a dot
    /// when a table is set.
    pub open spec fn sql(self) -> Seq<char> {
        if self.columns.len() == 0 {
            match self.table_name {
                Some(table_name) => quoted(table_name) + seq!['.', '*'],
                None => seq!['*'],
            }
        } else {
            joined(column_sqls(self.columns), seq![',', ' '])
        }
    }
}

impl View for Columns {
    type V = ColumnsView;

    closed spec fn view(&self) -> ColumnsView {
        ColumnsView {
            columns: Seq::new(self.columns@.len(), |i: int| self.columns@[i]@),
            table_name: match self.table_name {
                Some(t) => Some(t@),
                None => None,
            },
        }
    }
}

impl Default for Columns {
    fn default() -> (r: Self)
        ensures
            r@ == (ColumnsView { columns: Seq::empty(), table_name: None }),
    {
        let r = Columns { columns: Vec::new(), table_name: None };
        proof {
            assert(r@.columns =~= Seq::empty());
        }
        r
    }
}

impl Columns {
    /// The same projection, with its star read from the given table.
    pub fn table_name(self, table_name: &str) -> (r: Self)
        ensures
            r@ == (ColumnsView { columns: self@.columns, table_name: Some(table_name@) }),
    {
        let ghost before = self@;
        let r = Columns { columns: self.columns, table_name: Some(String::from_str(table_name)) };
        proof {
            assert(r@.columns =~= before.columns);
        }
        r
    }

    /// The same projection, with one more column listed.
    pub fn with_column(self, column: Column) -> (r: Self)
        ensures
            r@ == (ColumnsView {
                columns: self@.columns.push(column@),
                table_name: self@.table_name,
            }),
    {
        let ghost before = self@;
        let mut columns = self.columns;
        columns.push(column);
        let r = Columns { columns, table_name: self.table_name };
        proof {
            assert(r@.columns =~= before.columns.push(column@));
        }
        r
    }
}

impl Clone for Columns {
    fn clone(&self) -> (r: Self)
        ensures
            r@ == self@,
    {
        let mut columns: Vec<Column> = Vec::new();
        let mut i: usize = 0;
        while i < self.columns.len()
            invariant
                i <= self.columns@.len(),
                columns@.len() == i,
                forall|j: int| 0 <= j < i ==> (#[trigger] columns@[j])@ == self.columns@[j]@,
            decreases self.columns@.len() - i,
        {
            columns.push(self.columns[i].clone());
            i += 1;
        }
        let table_name = match &self.table_name {
            Some(t) => Some(t.clone()),
            None => None,
        };
        let r = Columns { columns, table_name };
        proof {
            assert(r@.columns =~= self@.columns);
        }
        r
    }
}

impl ToSql for Columns {
    open spec fn sql(&self) -> Seq<char> {
        self@.sql()
    }

    fn to_sql(&self) -> (s: String) {
        let mut out = String::new();
        if self.columns.len() == 0 {
            match &self.table_name {
                Some(table_name) => {
                    push_quoted(&mut out, table_name.as_str());
                    out.push('.');
                    out.push('*');
                },
                None => {
                    out.push('*');
                },
            }
            proof {
                assert(out@ == self@.sql());
            }
            return out;
        }
        let ghost parts = column_sqls(self@.columns);
        let mut i: usize = 0;
        while i < self.columns.len()
            invariant
                i <= self.columns@.len(),
                parts == column_sqls(self@.columns),
                parts.len() == self.columns@.len(),
                out@ == joined(parts.take(i as int), seq![',', ' ']),
            decreases self.columns@.len() - i,
        {
            proof {
                assert(parts.take(i + 1).drop_last() == parts.take(i as int));
                assert(parts[i as int] == self.columns@[i as int]@.sql());
            }
            if i > 0 {
                out.push(',');
                out.push(' ');
            }
            let piece = self.columns[i].to_sql();
            out.append(piece.as_str());
            i += 1;
            proof {
                assert(out@ == joined(parts.take(i as int), seq![',', ' ']));
            }
        }
        proof {
            assert(parts.take(parts.len() as int) == parts);
        }
        out
    }
}

/// Anything that names a column.
pub trait IntoColumn {
    /// What the column holds. An implementation says what it is; where it
    /// says nothing, nothing is known of it.
    open spec fn column(&self) -> ColumnView {
        arbitrary()
    }

    /// The column that `self` names.
    fn into_column(&self) -> (r: Column)
        ensures
            r@ == self.column(),
    ;
}

impl IntoColumn for String {
    open spec fn column(&self) -> ColumnView {
        ColumnView { table_name: Seq::empty(), column_name: self@ }
    }

    fn into_column(&self) -> (r: Column) {
        Column::name(self.as_str())
    }
}

impl IntoColumn for &str {
    open spec fn column(&self) -> ColumnView {
        ColumnView { table_name: Seq::empty(), column_name: self@ }
    }

    fn into_column(&self) -> (r: Column) {
        Column::name(self)
    }
}

} // verus!
