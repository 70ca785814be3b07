//! Ordering of the rows that a query returns.
use vstd::prelude::*;
use super::column::{Column, ColumnView};
use super::ToSql;
use crate::text::joined;

verus! {

/// One column to order by, ascending or descending.
#[derive(Debug)]
pub enum OrderColumn {
    Asc(Column),
    Desc(Column),
}

/// What an [`OrderColumn`] holds.
pub struct OrderColumnView {
    pub column: ColumnView,
    pub descending: bool,
}

/// The keyword that starts an ordering.
pub open spec fn order_keyword() -> Seq<char> {
    " ORDER BY "@
}

/// The word for ascending order, after a space.
pub open spec fn ascending_word() -> Seq<char> {
    " ASC"@
}

/// The word for descending order, after a space.
pub open spec fn descending_word() -> Seq<char> {
    " DESC"@
}

impl OrderColumnView {
    /// The column as SQL, followed by its direction.
    pub open spec fn sql(self) -> Seq<char> {
        self.column.sql() + if self.descending {
            descending_word()
        } else {
            ascending_word()
        }
    }
}

impl View for OrderColumn {
    type V = OrderColumnView;

    open spec fn view(&self) -> OrderColumnView {
        match self {
            OrderColumn::Asc(column) => OrderColumnView { column: column@, descending: false },
            OrderColumn::Desc(column) => OrderColumnView { column: column@, descending: true },
        }
    }
}

impl Clone for OrderColumn {
    fn clone(&self) -> (r: Self)
        ensures
            r@ == self@,
    {
        match self {
            OrderColumn::Asc(column) => OrderColumn::Asc(column.clone()),
            OrderColumn::Desc(column) => OrderColumn::Desc(column.clone()),
        }
    }
}

impl ToSql for OrderColumn {
    open spec fn sql(&self) -> Seq<char> {
        self@.sql()
    }

    fn to_sql(&self) -> (s: String) {
        match self {
            OrderColumn::Asc(column) => {
                let mut out = column.to_sql();
                out.append(" ASC");
                out
            },
            OrderColumn::Desc(column) => {
                let mut out = column.to_sql();
                out.append(" DESC");
                out
            },
        }
    }
}

/// The columns that a query orders by, the most significant first.
#[derive(Debug)]
pub struct OrderBy {
    order_by: Vec<OrderColumn>,
}

/// The SQL of each ordering column, in order.
pub open spec fn order_sqls(columns: Seq<OrderColumnView>) -> Seq<Seq<char>> {
    Seq::new(columns.len(), |i: int| columns[i].sql())
}

/// The ordering as SQL: nothing for no column, else ` ORDER BY ` and the
/// columns, separated by a comma and a space.
pub open spec fn order_sql(columns: Seq<OrderColumnView>) -> Seq<char> {
    if columns.len() == 0 {
        Seq::empty()
    } else {
        order_keyword() + joined(order_sqls(columns), seq![',', ' '])
    }
}

impl View for OrderBy {
    type V = Seq<OrderColumnView>;

    closed spec fn view(&self) -> Seq<OrderColumnView> {
        Seq::new(self.order_by@.len(), |i: int| self.order_by@[i]@)
    }
}

impl Default for OrderBy {
    fn default() -> (r: Self)
        ensures
            r@ == Seq::<OrderColumnView>::empty(),
    {
        let r = OrderBy { order_by: Vec::new() };
        proof {
            assert(r@ =~= Seq::empty());
        }
        r
    }
}

impl Clone for OrderBy {
    fn clone(&self) -> (r: Self)
        ensures
            r@ == self@,
    {
        let mut order_by: Vec<OrderColumn> = Vec::new();
        let mut i: usize = 0;
        while i < self.order_by.len()
            invariant
                i <= self.order_by@.len(),
                order_by@.len() == i,
                forall|j: int| 0 <= j < i ==> (#[trigger] order_by@[j])@ == self.order_by@[j]@,
            decreases self.order_by@.len() - i,
        {
            order_by.push(self.order_by[i].clone());
            i += 1;
        }
        let r = OrderBy { order_by };
        proof {
            assert(r@ =~= self@);
        }
        r
    }
}

impl OrderBy {
    /// Order by one column, ascending.
    pub fn asc(column: Column) -> (r: Self)
        ensures
            r@ == seq![OrderColumnView { column: column@, descending: false }],
    {
        let mut order_by: Vec<OrderColumn> = Vec::new();
        order_by.push(OrderColumn::Asc(column));
        let r = OrderBy { order_by };
        proof {
            assert(r@ =~= seq![OrderColumnView { column: column@, descending: false }]);
        }
        r
    }

    /// Order by one column, descending.
    pub fn desc(column: Column) -> (r: Self)
        ensures
            r@ == seq![OrderColumnView { column: column@, descending: true }],
    {
        let mut order_by: Vec<OrderColumn> = Vec::new();
        order_by.push(OrderColumn::Desc(column));
        let r = OrderBy { order_by };
        proof {
            assert(r@ =~= seq![OrderColumnView { column: column@, descending: true }]);
        }
        r
    }

    /// Whether no column is given.
    pub fn is_empty(&self) -> (r: bool)
        ensures
            r == (self@.len() == 0),
    {
        self.order_by.len() == 0
    }

    /// The columns of `self`, then those of `other`.
    pub fn append(self, other: OrderBy) -> (r: Self)
        ensures
            r@ == self@ + other@,
    {
        let ghost before = self@;
        let mut order_by = self.order_by;
        let mut rest = other.order_by;
        order_by.append(&mut rest);
        let r = OrderBy { order_by };
        proof {
            assert(r@ =~= before + other@);
        }
        r
    }
}

impl ToSql for OrderBy {
    open spec fn sql(&self) -> Seq<char> {
        order_sql(self@)
    }

    fn to_sql(&self) -> (s: String) {
        let mut out = String::new();
        if self.order_by.len() == 0 {
            return out;
        }
        out.append(" ORDER BY ");
        let ghost parts = order_sqls(self@);
        let mut i: usize = 0;
        while i < self.order_by.len()
            invariant
                i <= self.order_by@.len(),
                parts == order_sqls(self@),
                parts.len() == self.order_by@.len(),
                out@ == order_keyword() + joined(parts.take(i as int), seq![',', ' ']),
            decreases self.order_by@.len() - i,
        {
            proof {
                assert(parts.take(i + 1).drop_last() == parts.take(i as int));
                assert(parts[i as int] == self.order_by@[i as int]@.sql());
            }
            if i > 0 {
                out.push(',');
                out.push(' ');
            }
            let piece = self.order_by[i].to_sql();
            out.append(piece.as_str());
            i += 1;
            proof {
                assert(out@ == order_keyword() + joined(parts.take(i as int), seq![',', ' ']));
            }
        }
        proof {
            assert(parts.take(parts.len() as int) == parts);
        }
        out
    }
}

/// Whether `c` and `d` are the same ASCII letter, in either case.
pub open spec fn same_letter(c: char, d: char) -> bool {
    c == d || (('a' <= d <= 'z') && c as int + 32 == d as int)
}

/// Whether `word` spells `desc`, in either case of each letter.
pub open spec fn means_descending(word: Seq<char>) -> bool {
    &&& word.len() == 4
    &&& same_letter(word[0], 'd')
    &&& same_letter(word[1], 'e')
    &&& same_letter(word[2], 's')
    &&& same_letter(word[3], 'c')
}

fn is_letter(c: char, lower: char) -> (r: bool)
    requires
        'a' <= lower <= 'z',
    ensures
        r == same_letter(c, lower),
{
    c == lower || (c as u32) + 32 == (lower as u32)
}

/// Whether `word` asks for descending order: it spells `desc`, in either
/// case. Any other word asks for ascending order.
pub fn parse_descending(word: &str) -> (r: bool)
    ensures
        r == means_descending(word@),
{
    if word.unicode_len() != 4 {
        return false;
    }
    is_letter(word.get_char(0), 'd') && is_letter(word.get_char(1), 'e') && is_letter(
        word.get_char(2),
        's',
    ) && is_letter(word.get_char(3), 'c')
}

/// Anything that gives an ordering.
pub trait ToOrderBy {
    /// The ordering that `self` gives. An implementation says what it is;
    /// where it says nothing, nothing is known of it.
    open spec fn ordering(&self) -> Seq<OrderColumnView> {
        arbitrary()
    }

    /// The ordering that `self` gives.
    fn to_order_by(&self) -> (r: OrderBy)
        ensures
            r@ == self.ordering(),
    ;
}

impl ToOrderBy for OrderBy {
    open spec fn ordering(&self) -> Seq<OrderColumnView> {
        self@
    }

    fn to_order_by(&self) -> (r: OrderBy) {
        self.clone()
    }
}

/// A bare column name orders by that column, ascending.
impl ToOrderBy for &str {
    open spec fn ordering(&self) -> Seq<OrderColumnView> {
        seq![
            OrderColumnView {
                column: ColumnView { table_name: Seq::empty(), column_name: self@ },
                descending: false,
            },
        ]
    }

    fn to_order_by(&self) -> (r: OrderBy) {
        OrderBy::asc(Column::name(self))
    }
}

/// A column name and a direction word order by that column, descending
/// where the word spells `desc` and ascending otherwise.
impl ToOrderBy for (&str, &str) {
    open spec fn ordering(&self) -> Seq<OrderColumnView> {
        seq![
            OrderColumnView {
                column: ColumnView { table_name: Seq::empty(), column_name: self.0@ },
                descending: means_descending(self.1@),
            },
        ]
    }

    fn to_order_by(&self) -> (r: OrderBy) {
        if parse_descending(self.1) {
            OrderBy::desc(Column::name(self.0))
        } else {
            OrderBy::asc(Column::name(self.0))
        }
    }
}

} // verus!
