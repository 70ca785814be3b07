//! The `SELECT` statement and its parts.
use vstd::prelude::*;
use std::marker::PhantomData;
use super::column::{Column, ColumnView, Columns, ColumnsView};
use super::escape::{push_quoted, quoted};
use super::filter::{
    bound_values, where_sql, Filter, FilterView, JoinOp, WhereClause,
};
use super::join::{joins_sql, Join, JoinView, Joins};
use super::limit::Limit;
use super::order_by::{order_sql, OrderBy, OrderColumnView};
use super::placeholders::Placeholders;
use super::value::{ToValue, ValueView};
use super::{FromRow, ToSql};

verus! {

/// A `SELECT` statement over one table, built up by chained calls.
///
/// The table and its primary key are given when the statement is made and
/// stay as they are. Every call that changes the statement takes it by value
/// and gives the changed statement back.
#[derive(Debug)]
pub struct Select<T: FromRow + ?Sized> {
    table_name: String,
    primary_key: String,
    columns: Columns,
    joins: Joins,
    where_clause: WhereClause,
    order_by: OrderBy,
    limit: Limit,
    marker: PhantomData<T>,
}

/// What a [`Select`] holds.
pub struct SelectView {
    pub table_name: Seq<char>,
    pub primary_key: Seq<char>,
    pub columns: ColumnsView,
    pub joins: Seq<JoinView>,
    pub where_clause: Seq<FilterView>,
    pub order_by: Seq<OrderColumnView>,
    pub limit: Limit,
}

/// The keyword that starts the statement.
pub open spec fn select_keyword() -> Seq<char> {
    "SELECT "@
}

/// The keyword that starts the table.
pub open spec fn from_keyword() -> Seq<char> {
    " FROM "@
}

/// The predicates that `filters` ask for on the columns of `table`: one for
/// each pair of a column name and a value, in order.
pub open spec fn predicates<V: ToValue>(
    table: Seq<char>,
    filters: Seq<(&str, V)>,
    negated: bool,
    op: JoinOp,
) -> Seq<FilterView> {
    Seq::new(
        filters.len(),
        |i: int|
            FilterView::predicate(
                ColumnView { table_name: table, column_name: filters[i].0@ },
                filters[i].1.value(),
                negated,
                op,
            ),
    )
}

impl SelectView {
    /// All rows and all columns of `table_name`.
    pub open spec fn start(table_name: Seq<char>, primary_key: Seq<char>) -> SelectView {
        SelectView {
            table_name,
            primary_key,
            columns: ColumnsView { columns: Seq::empty(), table_name: None },
            joins: Seq::empty(),
            where_clause: Seq::empty(),
            order_by: Seq::empty(),
            limit: Limit { limit: None, offset: None },
        }
    }

    /// The statement as SQL. Its parts come in a fixed order: the projection,
    /// the table, the joins, the predicates, the ordering, the limit and the
    /// offset. The markers of the bound values are numbered from one, from
    /// left to right.
    pub open spec fn sql(self) -> Seq<char> {
        select_keyword() + self.columns.sql() + from_keyword() + quoted(self.table_name)
            + joins_sql(self.joins) + where_sql(self.where_clause, 0) + order_sql(self.order_by)
            + self.limit.clause()
    }

    /// The values bound to the markers of the statement, in the order of the
    /// markers.
    pub open spec fn values(self) -> Seq<ValueView> {
        bound_values(self.where_clause)
    }

    /// The statement with `extra` after its predicates.
    pub open spec fn filtered(self, extra: Seq<FilterView>) -> SelectView {
        SelectView { where_clause: self.where_clause + extra, ..self }
    }

    /// The statement without predicates.
    pub open spec fn unfiltered(self) -> SelectView {
        SelectView { where_clause: Seq::empty(), ..self }
    }

    /// The statement with the limit `n`.
    pub open spec fn limited(self, n: usize) -> SelectView {
        SelectView { limit: Limit { limit: Some(n), offset: self.limit.offset }, ..self }
    }

    /// The statement with the offset `m`.
    pub open spec fn skipping(self, m: usize) -> SelectView {
        SelectView { limit: Limit { limit: self.limit.limit, offset: Some(m) }, ..self }
    }

    /// The statement with `order` in place of its ordering.
    pub open spec fn ordered(self, order: Seq<OrderColumnView>) -> SelectView {
        SelectView { order_by: order, ..self }
    }

    /// The ordering by the primary key of the table, ascending.
    pub open spec fn primary_key_order(self) -> Seq<OrderColumnView> {
        seq![
            OrderColumnView {
                column: ColumnView { table_name: self.table_name, column_name: self.primary_key },
                descending: false,
            },
        ]
    }

    /// The statement with `join` after its joins. Its projection then names
    /// the table, so that it reads the columns of the table only.
    pub open spec fn joined(self, join: JoinView) -> SelectView {
        SelectView {
            joins: self.joins.push(join),
            columns: ColumnsView {
                columns: self.columns.columns,
                table_name: Some(self.table_name),
            },
            ..self
        }
    }
}

impl<T: FromRow + ?Sized> View for Select<T> {
    type V = SelectView;

    closed spec fn view(&self) -> SelectView {
        SelectView {
            table_name: self.table_name@,
            primary_key: self.primary_key@,
            columns: self.columns@,
            joins: self.joins@,
            where_clause: self.where_clause@,
            order_by: self.order_by@,
            limit: self.limit,
        }
    }
}

impl<T: FromRow + ?Sized> Select<T> {
    /// All rows and all columns of `table_name`.
    pub fn new(table_name: &str, primary_key: &str) -> (r: Self)
        ensures
            r@ == SelectView::start(table_name@, primary_key@),
    {
        Select {
            table_name: String::from_str(table_name),
            primary_key: String::from_str(primary_key),
            columns: Columns::default(),
            joins: Joins::default(),
            where_clause: WhereClause::new(),
            order_by: OrderBy::default(),
            limit: Limit::none(),
            marker: PhantomData,
        }
    }

    /// The table that the statement reads.
    pub fn table_name(&self) -> (r: &str)
        ensures
            r@ == self@.table_name,
    {
        self.table_name.as_str()
    }

    /// The primary key of that table.
    pub fn primary_key(&self) -> (r: &str)
        ensures
            r@ == self@.primary_key,
    {
        self.primary_key.as_str()
    }

    /// Whether the statement has an ordering.
    pub fn is_ordered(&self) -> (r: bool)
        ensures
            r == (self@.order_by.len() > 0),
    {
        !self.order_by.is_empty()
    }

    /// Sets the limit.
    pub fn limit(self, n: usize) -> (r: Self)
        ensures
            r@ == self@.limited(n),
    {
        Select { limit: self.limit.limit(n), ..self }
    }

    /// Sets the offset.
    pub fn offset(self, m: usize) -> (r: Self)
        ensures
            r@ == self@.skipping(m),
    {
        Select { limit: self.limit.offset(m), ..self }
    }

    /// Replaces the ordering.
    pub fn order_by(self, order: OrderBy) -> (r: Self)
        ensures
            r@ == self@.ordered(order@),
    {
        Select { order_by: order, ..self }
    }

    /// Adds `order` after the ordering.
    pub fn order(self, order: OrderBy) -> (r: Self)
        ensures
            r@ == self@.ordered(self@.order_by + order@),
    {
        let Select { table_name, primary_key, columns, joins, where_clause, order_by, limit, marker } =
            self;
        Select {
            table_name,
            primary_key,
            columns,
            joins,
            where_clause,
            order_by: order_by.append(order),
            limit,
            marker,
        }
    }

    /// Orders by the primary key, ascending, unless an ordering is set.
    pub fn order_by_default(self) -> (r: Self)
        ensures
            r@ == if self@.order_by.len() == 0 {
                self@.ordered(self@.primary_key_order())
            } else {
                self@
            },
    {
        if self.order_by.is_empty() {
            let order = OrderBy::asc(
                Column::new(self.table_name.as_str(), self.primary_key.as_str()),
            );
            self.order_by(order)
        } else {
            self
        }
    }

    /// Removes every predicate.
    pub fn clear_filters(self) -> (r: Self)
        ensures
            r@ == self@.unfiltered(),
    {
        Select { where_clause: WhereClause::new(), ..self }
    }

    /// Adds one predicate for each pair in `filters`, after the predicates
    /// already there: on the column of this table with the given name,
    /// compared with the given value.
    pub fn filter<V: ToValue>(self, filters: &[(&str, V)], negated: bool, op: JoinOp) -> (r: Self)
        ensures
            r@ == self@.filtered(predicates(self@.table_name, filters@, negated, op)),
    {
        let ghost before = self@;
        let Select { table_name, primary_key, columns, joins, where_clause, order_by, limit, marker } =
            self;
        let mut where_clause = where_clause;
        let ghost extra = predicates(before.table_name, filters@, negated, op);
        let mut i: usize = 0;
        while i < filters.len()
            invariant
                i <= filters@.len(),
                table_name@ == before.table_name,
                extra == predicates(before.table_name, filters@, negated, op),
                extra.len() == filters@.len(),
                where_clause@ == before.where_clause + extra.take(i as int),
            decreases filters@.len() - i,
        {
            let column = Column::new(table_name.as_str(), filters[i].0);
            let value = filters[i].1.to_value();
            where_clause.add(Filter::new(column, value, negated, op));
            proof {
                assert(extra.take(i + 1) == extra.take(i as int).push(extra[i as int]));
                assert(where_clause@ =~= before.where_clause + extra.take(i + 1));
            }
            i += 1;
        }
        proof {
            assert(extra.take(extra.len() as int) == extra);
        }
        Select { table_name, primary_key, columns, joins, where_clause, order_by, limit, marker }
    }

    /// Adds predicates that each pair holds, joined by `AND`.
    pub fn filter_and<V: ToValue>(self, filters: &[(&str, V)]) -> (r: Self)
        ensures
            r@ == self@.filtered(predicates(self@.table_name, filters@, false, JoinOp::And)),
    {
        self.filter(filters, false, JoinOp::And)
    }

    /// Adds predicates that each pair does not hold, joined by `AND`.
    pub fn filter_not<V: ToValue>(self, filters: &[(&str, V)]) -> (r: Self)
        ensures
            r@ == self@.filtered(predicates(self@.table_name, filters@, true, JoinOp::And)),
    {
        self.filter(filters, true, JoinOp::And)
    }

    /// Adds predicates that each pair does not hold, joined by `OR`.
    pub fn filter_or_not<V: ToValue>(self, filters: &[(&str, V)]) -> (r: Self)
        ensures
            r@ == self@.filtered(predicates(self@.table_name, filters@, true, JoinOp::Or)),
    {
        self.filter(filters, true, JoinOp::Or)
    }

    /// Adds a join, and has the projection name the table.
    pub fn join(self, join: Join) -> (r: Self)
        ensures
            r@ == self@.joined(join@),
    {
        let Select { table_name, primary_key, columns, joins, where_clause, order_by, limit, marker } =
            self;
        let columns = columns.table_name(table_name.as_str());
        Select {
            table_name,
            primary_key,
            columns,
            joins: joins.add(join),
            where_clause,
            order_by,
            limit,
            marker,
        }
    }

    /// Compiles the statement: its SQL, and the values bound to its markers.
    pub fn compile(&self) -> (r: (String, Placeholders))
        ensures
            r.0@ == self@.sql(),
            r.1@ == self@.values(),
    {
        let mut placeholders = Placeholders::new();
        let mut out = String::new();
        out.append("SELECT ");
        let columns = self.columns.to_sql();
        out.append(columns.as_str());
        out.append(" FROM ");
        push_quoted(&mut out, self.table_name.as_str());
        let joins = self.joins.to_sql();
        out.append(joins.as_str());
        let predicates = self.where_clause.render(&mut placeholders);
        out.append(predicates.as_str());
        let order = self.order_by.to_sql();
        out.append(order.as_str());
        let limit = self.limit.to_sql();
        out.append(limit.as_str());
        proof {
            assert(out@ =~= self@.sql());
            assert(placeholders@ =~= self@.values());
        }
        (out, placeholders)
    }

    /// The values bound to the markers of the statement, in the order of the
    /// markers.
    pub fn placeholders(&self) -> (r: Placeholders)
        ensures
            r@ == self@.values(),
    {
        self.compile().1
    }
}

impl<T: FromRow + ?Sized> ToSql for Select<T> {
    open spec fn sql(&self) -> Seq<char> {
        self@.sql()
    }

    fn to_sql(&self) -> (s: String) {
        self.compile().0
    }
}

} // verus!
