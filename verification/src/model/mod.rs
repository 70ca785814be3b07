//! Records, queries over them, and the SQL they compile to.
use vstd::prelude::*;

pub mod column;
pub mod error;
pub mod escape;
pub mod explain;
pub mod filter;
pub mod join;
pub mod limit;
pub mod markers;
pub mod migrations;
pub mod order_by;
pub mod placeholders;
pub mod pool;
pub mod row;
pub mod select;
pub mod statement;
pub mod value;

pub use column::{Column, Columns, IntoColumn};
pub use error::Error;
pub use escape::Escape;
pub use explain::Explain;
pub use filter::{Comparison, Filter, JoinOp, WhereClause};
pub use join::{AssociationType, Join, Joins, Keys};
pub use limit::Limit;
pub use order_by::{OrderBy, OrderColumn, ToOrderBy};
pub use placeholders::Placeholders;
pub use pool::PoolSlot;
pub use row::Row;
pub use select::Select;
pub use statement::StatementBuilder;
pub use value::{FromValue, ToValue, Value};

use error::ErrorView;
use filter::FilterView;
use join::{JoinView, KeysView};
use row::RowView;
use select::{predicates, SelectView};
use value::{views, ValueView};
use crate::naming::{default_foreign_key, is_default_foreign_key};
use crate::text::texts;

verus! {

/// Anything that renders as a fragment of SQL.
pub trait ToSql {
    /// The SQL text of `self`. An implementation says what it is; where it
    /// says nothing, nothing is known of it.
    open spec fn sql(&self) -> Seq<char> {
        arbitrary()
    }

    /// Renders `self` as SQL.
    fn to_sql(&self) -> (s: String)
        ensures
            s@ == self.sql(),
    ;
}

/// A record type that can be read from a row.
///
/// A record should fall back on a default where a column is missing: the
/// code and the database may be out of step for a while.
pub trait FromRow: Clone {
    /// Whether `record` is a reading of `row`. An implementation says what
    /// its readings are; where it says nothing, any record is one.
    open spec fn decodes(row: RowView, record: Self) -> bool {
        true
    }

    /// Reads a record from `row`.
    fn from_row(row: &Row) -> (r: Self)
        ensures
            Self::decodes(row@, r),
    ;
}

/// The name of the primary key of a type that names none of its own.
pub open spec fn id_word() -> Seq<char> {
    "id"@
}

/// Whether `primary_key` is the name of the primary key of `M`: `id`, or the
/// name that `M` gives itself.
pub open spec fn is_primary_key_of<M: Model>(primary_key: Seq<char>) -> bool {
    primary_key == id_word() || M::spec_primary_key() == Some(primary_key)
}

/// Whether `foreign_key` is the name by which other tables refer to `M`: a
/// singular name and `_id`, or the name that `M` gives itself.
pub open spec fn is_foreign_key_of<M: Model>(foreign_key: Seq<char>) -> bool {
    is_default_foreign_key(foreign_key) || M::spec_foreign_key() == Some(foreign_key)
}

/// Whether `keys` are the names by which `M` is stored and referred to.
pub open spec fn is_keys_of<M: Model>(keys: KeysView) -> bool {
    &&& keys.table_name == M::spec_table_name()
    &&& is_primary_key_of::<M>(keys.primary_key)
    &&& is_foreign_key_of::<M>(keys.foreign_key)
}

/// The query for all records of `M`, where `primary_key` is the name of its
/// primary key.
pub open spec fn start_of<M: Model>(primary_key: Seq<char>) -> QueryView {
    QueryView::select_with_key(M::spec_table_name(), primary_key)
}

/// Whether `kind` is how `F` relates to `T`: it belongs to `T`, or relates
/// to it as it declares.
pub open spec fn is_kind_of<F: Association<T>, T: Model>(kind: AssociationType) -> bool {
    kind == AssociationType::BelongsTo || F::spec_association_type() == Some(kind)
}

/// A query for records of type `T`.
///
/// The calls that change a `SELECT` leave any other kind of query as it is;
/// [`Query::is_select`] tells the two apart. An update has no SQL yet.
///
/// Predicates are combined one after another, by `AND` or by `OR`. Two whole
/// queries cannot be combined as alternatives.
#[derive(Debug)]
pub enum Query<T: FromRow + ?Sized> {
    Select(Select<T>),
    Update,
    Raw(String),
}

/// What a [`Query`] holds.
pub enum QueryView {
    Select(SelectView),
    Update,
    Raw(Seq<char>),
}

impl QueryView {
    /// The SQL of the query. An update has none.
    pub open spec fn sql(self) -> Seq<char> {
        match self {
            QueryView::Select(select) => select.sql(),
            QueryView::Raw(query) => query,
            QueryView::Update => Seq::empty(),
        }
    }

    /// The values bound to the markers of the query, in the order of the
    /// markers.
    pub open spec fn values(self) -> Seq<ValueView> {
        match self {
            QueryView::Select(select) => select.values(),
            _ => Seq::empty(),
        }
    }

    /// All rows of `table_name`, whose primary key is `primary_key`.
    pub open spec fn select_with_key(table_name: Seq<char>, primary_key: Seq<char>) -> QueryView {
        QueryView::Select(SelectView::start(table_name, primary_key))
    }

    /// All rows of `table_name`, whose primary key is `id`.
    pub open spec fn select(table_name: Seq<char>) -> QueryView {
        QueryView::select_with_key(table_name, id_word())
    }

    /// The query with the limit `n`.
    pub open spec fn take_many(self, n: usize) -> QueryView {
        match self {
            QueryView::Select(select) => QueryView::Select(select.limited(n)),
            other => other,
        }
    }

    /// The query with the limit `n`, ordered by the primary key of its table
    /// unless it has an ordering.
    pub open spec fn first_many(self, n: usize) -> QueryView {
        match self {
            QueryView::Select(select) => QueryView::Select(
                if select.order_by.len() == 0 {
                    select.limited(n).ordered(select.primary_key_order())
                } else {
                    select.limited(n)
                },
            ),
            other => other,
        }
    }

    /// The query with `extra` after its predicates.
    pub open spec fn filtered(self, extra: Seq<FilterView>) -> QueryView {
        match self {
            QueryView::Select(select) => QueryView::Select(select.filtered(extra)),
            other => other,
        }
    }

    /// The predicates that `filters` ask for on the columns of the table of
    /// the query.
    pub open spec fn predicates<V: ToValue>(
        self,
        filters: Seq<(&str, V)>,
        negated: bool,
        op: JoinOp,
    ) -> Seq<FilterView> {
        match self {
            QueryView::Select(select) => predicates(select.table_name, filters, negated, op),
            _ => Seq::empty(),
        }
    }

    /// The query with `filters` after its predicates, joined by `AND`.
    pub open spec fn filter<V: ToValue>(self, filters: Seq<(&str, V)>) -> QueryView {
        self.filtered(self.predicates(filters, false, JoinOp::And))
    }

    /// The query with one predicate only: that `column` equals `value`, or
    /// is one of its items where `value` is a list.
    pub open spec fn find_by(self, column: Seq<char>, value: ValueView) -> QueryView {
        match self {
            QueryView::Select(select) => QueryView::Select(
                select.unfiltered().filtered(
                    seq![
                        FilterView::predicate(
                            column::ColumnView { table_name: select.table_name, column_name: column },
                            value,
                            false,
                            JoinOp::And,
                        ),
                    ],
                ),
            ),
            other => other,
        }
    }

    /// The query with the offset `m`.
    pub open spec fn offset(self, m: usize) -> QueryView {
        match self {
            QueryView::Select(select) => QueryView::Select(select.skipping(m)),
            other => other,
        }
    }

    /// The query with `order` after its ordering.
    pub open spec fn order(self, order: Seq<order_by::OrderColumnView>) -> QueryView {
        match self {
            QueryView::Select(select) => QueryView::Select(
                select.ordered(select.order_by + order),
            ),
            other => other,
        }
    }

    /// The query with `join` after its joins.
    pub open spec fn join(self, join: JoinView) -> QueryView {
        match self {
            QueryView::Select(select) => QueryView::Select(select.joined(join)),
            other => other,
        }
    }
}

impl<T: FromRow + ?Sized> View for Query<T> {
    type V = QueryView;

    open spec fn view(&self) -> QueryView {
        match self {
            Query::Select(select) => QueryView::Select(select@),
            Query::Update => QueryView::Update,
            Query::Raw(query) => QueryView::Raw(query@),
        }
    }
}

/// A statement that is ready to be sent: its SQL, and the values bound to
/// its markers, in the order of the markers.
#[derive(Debug)]
pub struct Prepared {
    pub sql: String,
    pub values: Vec<Value>,
}

impl<T: FromRow> Query<T> {
    /// Starts a `SELECT` of all rows of the given table.
    pub fn select(table_name: &str) -> (q: Self)
        ensures
            q@ == QueryView::select(table_name@),
    {
        Query::Select(Select::new(table_name, "id"))
    }

    /// Starts a `SELECT` of all rows of the given table, whose primary key
    /// has the given name.
    pub fn select_with_key(table_name: &str, primary_key: &str) -> (q: Self)
        ensures
            q@ == QueryView::select_with_key(table_name@, primary_key@),
    {
        Query::Select(Select::new(table_name, primary_key))
    }

    /// Whether the query is a `SELECT`, which the calls that change a query
    /// act on. They leave any other query as it is.
    pub fn is_select(&self) -> (r: bool)
        ensures
            r == (self@ is Select),
    {
        match self {
            Query::Select(_) => true,
            _ => false,
        }
    }

    /// Limits the query to one row.
    pub fn take_one(self) -> (q: Self)
        ensures
            q@ == self@.take_many(1),
    {
        self.take_many(1)
    }

    /// Limits the query to `n` rows.
    pub fn take_many(self, n: usize) -> (q: Self)
        ensures
            q@ == self@.take_many(n),
    {
        match self {
            Query::Select(select) => Query::Select(select.limit(n)),
            other => other,
        }
    }

    /// Limits the query to the first row: by its ordering, or by the primary
    /// key of its table where it has no ordering.
    pub fn first_one(self) -> (q: Self)
        ensures
            q@ == self@.first_many(1),
    {
        self.first_many(1)
    }

    /// Limits the query to the first `n` rows: by its ordering, or by the
    /// primary key of its table where it has no ordering.
    pub fn first_many(self, n: usize) -> (q: Self)
        ensures
            q@ == self@.first_many(n),
    {
        match self {
            Query::Select(select) => Query::Select(select.limit(n).order_by_default()),
            other => other,
        }
    }

    /// Adds predicates that each pair of a column and a value holds.
    pub fn filter<V: ToValue>(self, filters: &[(&str, V)]) -> (q: Self)
        ensures
            q@ == self@.filter(filters@),
    {
        match self {
            Query::Select(select) => Query::Select(select.filter_and(filters)),
            other => other,
        }
    }

    /// Adds predicates that each pair of a column and a value does not hold.
    pub fn not<V: ToValue>(self, filters: &[(&str, V)]) -> (q: Self)
        ensures
            q@ == self@.filtered(self@.predicates(filters@, true, JoinOp::And)),
    {
        match self {
            Query::Select(select) => Query::Select(select.filter_not(filters)),
            other => other,
        }
    }

    /// Adds predicates that each pair of a column and a value does not hold,
    /// as alternatives to what stands before them.
    pub fn or_not<V: ToValue>(self, filters: &[(&str, V)]) -> (q: Self)
        ensures
            q@ == self@.filtered(self@.predicates(filters@, true, JoinOp::Or)),
    {
        match self {
            Query::Select(select) => Query::Select(select.filter_or_not(filters)),
            other => other,
        }
    }

    /// Drops the predicates of the query and filters by one column only.
    pub fn find_by(self, column: &str, value: Value) -> (q: Self)
        ensures
            q@ == self@.find_by(column@, value@),
    {
        match self {
            Query::Select(select) => {
                let filters = [(column, value)];
                let select = select.clear_filters().filter_and(filters.as_slice());
                proof {
                    assert(select@.where_clause =~= self@.find_by(column@, value@)->Select_0.where_clause);
                }
                Query::Select(select)
            },
            other => other,
        }
    }

    /// Limits the query to `limit` rows.
    pub fn limit(self, limit: usize) -> (q: Self)
        ensures
            q@ == self@.take_many(limit),
    {
        self.take_many(limit)
    }

    /// Skips the first `offset` rows.
    pub fn offset(self, offset: usize) -> (q: Self)
        ensures
            q@ == self@.offset(offset),
    {
        match self {
            Query::Select(select) => Query::Select(select.offset(offset)),
            other => other,
        }
    }

    /// Adds `order` after the ordering of the query.
    pub fn order<O: ToOrderBy>(self, order: O) -> (q: Self)
        ensures
            q@ == self@.order(order.ordering()),
    {
        match self {
            Query::Select(select) => Query::Select(select.order(order.to_order_by())),
            other => other,
        }
    }

    /// Adds a join.
    pub fn join_with(self, join: Join) -> (q: Self)
        ensures
            q@ == self@.join(join@),
    {
        match self {
            Query::Select(select) => Query::Select(select.join(join)),
            other => other,
        }
    }

    /// The SQL of the query.
    pub fn to_sql(&self) -> (s: String)
        requires
            !(self@ is Update),
        ensures
            s@ == self@.sql(),
    {
        match self {
            Query::Select(select) => select.to_sql(),
            Query::Raw(query) => query.clone(),
            Query::Update => String::new(),
        }
    }

    /// The statement to send: the SQL of the query and the values bound to
    /// its markers.
    pub fn prepare(&self) -> (r: Prepared)
        requires
            !(self@ is Update),
        ensures
            r.sql@ == self@.sql(),
            views(r.values@) == self@.values(),
    {
        match self {
            Query::Select(select) => {
                let (sql, placeholders) = select.compile();
                Prepared { sql, values: placeholders.values() }
            },
            Query::Raw(query) => {
                let values: Vec<Value> = Vec::new();
                proof {
                    assert(views(values@) =~= Seq::empty());
                }
                Prepared { sql: query.clone(), values }
            },
            Query::Update => {
                let values: Vec<Value> = Vec::new();
                Prepared { sql: String::new(), values }
            },
        }
    }

    /// What the engine answered to the statement of the query: its rows as
    /// they are, or, where it rejected the statement, a query error with the
    /// SQL that was sent and the engine's message.
    pub fn execute_internal(&self, outcome: Result<Vec<Row>, String>) -> (r: Result<Vec<Row>, Error>)
        requires
            !(self@ is Update),
        ensures
            match outcome {
                Ok(rows) => r == Ok::<Vec<Row>, Error>(rows),
                Err(message) => r matches Err(e) && e@ == ErrorView::QueryError(
                    self@.sql(),
                    message@,
                ),
            },
    {
        match outcome {
            Ok(rows) => Ok(rows),
            Err(message) => Err(Error::QueryError(self.to_sql(), message)),
        }
    }

    /// The records that the engine returned: one for each row, in order.
    pub fn execute(self, outcome: Result<Vec<Row>, String>) -> (r: Result<Vec<T>, Error>)
        requires
            !(self@ is Update),
        ensures
            match outcome {
                Ok(rows) => r matches Ok(records) && records@.len() == rows@.len() && forall|
                    i: int,
                |
                    0 <= i < rows@.len() ==> T::decodes(rows@[i]@, #[trigger] records@[i]),
                Err(message) => r matches Err(e) && e@ == ErrorView::QueryError(
                    self@.sql(),
                    message@,
                ),
            },
    {
        match self.execute_internal(outcome) {
            Ok(rows) => {
                let mut records: Vec<T> = Vec::new();
                let mut i: usize = 0;
                while i < rows.len()
                    invariant
                        i <= rows@.len(),
                        records@.len() == i,
                        forall|j: int|
                            0 <= j < i ==> T::decodes(rows@[j]@, #[trigger] records@[j]),
                    decreases rows@.len() - i,
                {
                    records.push(T::from_row(&rows[i]));
                    i += 1;
                }
                Ok(records)
            },
            Err(e) => Err(e),
        }
    }

    /// The first record that the engine returned. That it returned none is
    /// an error; that it returned more than one is not.
    pub fn fetch(self, outcome: Result<Vec<Row>, String>) -> (r: Result<T, Error>)
        requires
            !(self@ is Update),
        ensures
            match outcome {
                Ok(rows) => if rows@.len() == 0 {
                    r matches Err(e) && e@ == ErrorView::RecordNotFound
                } else {
                    r matches Ok(record) && T::decodes(rows@[0]@, record)
                },
                Err(message) => r matches Err(e) && e@ == ErrorView::QueryError(
                    self@.sql(),
                    message@,
                ),
            },
    {
        match self.execute(outcome) {
            Ok(records) => {
                let mut records = records;
                if records.len() == 0 {
                    Err(Error::RecordNotFound)
                } else {
                    Ok(records.swap_remove(0))
                }
            },
            Err(e) => Err(e),
        }
    }

    /// All the records that the engine returned.
    pub fn fetch_all(self, outcome: Result<Vec<Row>, String>) -> (r: Result<Vec<T>, Error>)
        requires
            !(self@ is Update),
        ensures
            match outcome {
                Ok(rows) => r matches Ok(records) && records@.len() == rows@.len() && forall|
                    i: int,
                |
                    0 <= i < rows@.len() ==> T::decodes(rows@[i]@, #[trigger] records@[i]),
                Err(message) => r matches Err(e) && e@ == ErrorView::QueryError(
                    self@.sql(),
                    message@,
                ),
            },
    {
        self.execute(outcome)
    }

    /// The statement that asks the engine for its plan of this query: the
    /// SQL of the query after `EXPLAIN`, with the values of the query bound.
    pub fn explain_statement(&self) -> (r: Prepared)
        requires
            !(self@ is Update),
        ensures
            r.sql@ == explain::explain_keyword() + self@.sql(),
            views(r.values@) == self@.values(),
    {
        let Prepared { sql: inner, values } = self.prepare();
        let mut sql = String::from_str("EXPLAIN ");
        sql.append(inner.as_str());
        Prepared { sql, values }
    }

    /// The plan that the engine returned for the statement that
    /// `explain_statement` gives: what its last row says. That it returned no
    /// row is an error.
    pub fn explain(self, outcome: Result<Vec<Row>, String>) -> (r: Result<Explain, Error>)
        requires
            !(self@ is Update),
        ensures
            match outcome {
                Ok(rows) => if rows@.len() == 0 {
                    r matches Err(e) && e@ == ErrorView::RecordNotFound
                } else {
                    r matches Ok(plan) && Explain::decodes(rows@.last()@, plan)
                },
                Err(message) => r matches Err(e) && e@ == ErrorView::QueryError(
                    explain::explain_keyword() + self@.sql(),
                    message@,
                ),
            },
    {
        match outcome {
            Ok(rows) => {
                if rows.len() == 0 {
                    Err(Error::RecordNotFound)
                } else {
                    Ok(Explain::from_row(&rows[rows.len() - 1]))
                }
            },
            Err(message) => Err(Error::QueryError(self.explain_statement().sql, message)),
        }
    }
}

impl<T: Model> Query<T> {
    /// Adds the join with the table of `F`, by the relationship that `F`
    /// declares with `T`.
    pub fn join<F: Association<T>>(self) -> (q: Self)
        ensures
            match self@ {
                QueryView::Select(select) => exists|
                    kind: AssociationType,
                    this: KeysView,
                    other: KeysView,
                |
                    {
                        &&& is_kind_of::<F, T>(kind)
                        &&& is_keys_of::<T>(this)
                        &&& is_keys_of::<F>(other)
                        &&& q@ == self@.join(#[trigger] JoinView::between(kind, this, other))
                    },
                other => q@ == other,
            },
    {
        match self {
            Query::Select(select) => {
                let join = F::join();
                let q = Query::Select(select.join(join));
                proof {
                    let (kind, this, other) = choose|
                        kind: AssociationType,
                        this: KeysView,
                        other: KeysView,
                    |
                        {
                            &&& is_kind_of::<F, T>(kind)
                            &&& is_keys_of::<T>(this)
                            &&& is_keys_of::<F>(other)
                            &&& join@ == #[trigger] JoinView::between(kind, this, other)
                        };
                    assert(q@ == self@.join(JoinView::between(kind, this, other)));
                }
                q
            },
            other => other,
        }
    }
}

/// A record type that is stored in a table.
///
/// `column_names` and `values` go together: the value at a position belongs
/// to the column at that position.
pub trait Model: FromRow {
    /// The name of the table. An implementation says what it is; where it
    /// says nothing, nothing is known of it.
    open spec fn spec_table_name() -> Seq<char> {
        arbitrary()
    }

    /// The names of the columns of the table, the primary key left out. An
    /// implementation says what they are; where it says nothing, nothing is
    /// known of them.
    open spec fn spec_column_names() -> Seq<Seq<char>> {
        arbitrary()
    }

    /// The name of the table.
    fn table_name() -> (s: String)
        ensures
            s@ == Self::spec_table_name(),
    ;

    /// The names of the columns of the table, the primary key left out.
    fn column_names() -> (names: Vec<String>)
        ensures
            texts(names@) == Self::spec_column_names(),
    ;

    /// The values of the record, one for each of `column_names`, in the same
    /// order.
    fn values(&self) -> (values: Vec<Value>)
        ensures
            values@.len() == Self::spec_column_names().len(),
    ;

    /// The value of the primary key of the record, where the type has one
    /// and says so. A type that gives its records a primary key says here
    /// what `id` returns.
    open spec fn spec_id(&self) -> Option<ValueView> {
        None
    }

    /// The name of the primary key, where the type names its own. A type
    /// that does so says here what `primary_key` returns.
    open spec fn spec_primary_key() -> Option<Seq<char>> {
        None
    }

    /// The name by which other tables refer to this one, where the type
    /// names its own. A type that does so says here what `foreign_key`
    /// returns.
    open spec fn spec_foreign_key() -> Option<Seq<char>> {
        None
    }

    /// The value of the primary key of the record: null, unless the type
    /// gives its records a primary key.
    fn id(&self) -> (v: Value)
        ensures
            v@ == ValueView::Null || self.spec_id() == Some(v@),
    {
        Value::Null
    }

    /// The name of the primary key: `id`, unless the type names its own.
    fn primary_key() -> (s: String)
        ensures
            s@ == id_word() || Self::spec_primary_key() == Some(s@),
    {
        String::from_str("id")
    }

    /// The name by which other tables refer to this one: the singular of the
    /// table's name and `_id`, unless the type names its own.
    fn foreign_key() -> (s: String)
        ensures
            is_default_foreign_key(s@) || Self::spec_foreign_key() == Some(s@),
    {
        let table_name = Self::table_name();
        default_foreign_key(table_name.as_str())
    }

    /// Configures the pool that queries use where none is handed to them.
    /// This succeeds once: a second pool is refused and the first one stays.
    fn configure_pool<P>(slot: &mut PoolSlot<P>, pool: P) -> (r: Result<(), Error>)
        ensures
            match old(slot)@ {
                None => r is Ok && final(slot)@ == Some(pool),
                Some(_) => final(slot)@ == old(slot)@ && (r matches Err(e) && e@
                    == ErrorView::Unknown(pool::already_configured())),
            },
    {
        slot.configure(pool)
    }

    /// The names by which the type is stored and referred to: what
    /// `table_name`, `primary_key` and `foreign_key` return.
    fn keys() -> (r: Keys)
        ensures
            r@.table_name == Self::spec_table_name(),
            r@.primary_key == id_word() || Self::spec_primary_key() == Some(r@.primary_key),
            is_default_foreign_key(r@.foreign_key) || Self::spec_foreign_key() == Some(
                r@.foreign_key,
            ),
    {
        Keys {
            table_name: Self::table_name(),
            primary_key: Self::primary_key(),
            foreign_key: Self::foreign_key(),
        }
    }

    /// The column of this table with the given name.
    fn column(name: &str) -> (r: Column)
        ensures
            r@ == (column::ColumnView {
                table_name: Self::spec_table_name(),
                column_name: name@,
            }),
    {
        let table_name = Self::table_name();
        Column::new(table_name.as_str(), name)
    }

    /// Any one record.
    fn take_one() -> (q: Query<Self>)
        ensures
            exists|key: Seq<char>|
                (key == id_word() || Self::spec_primary_key() == Some(key)) && q@ == (#[trigger] QueryView::select_with_key(
                    Self::spec_table_name(),
                    key,
                )).take_many(1),
    {
        let table_name = Self::table_name();
        let key = Self::primary_key();
        let start: Query<Self> = Query::select_with_key(table_name.as_str(), key.as_str());
        proof {
            assert(start@ == QueryView::select_with_key(Self::spec_table_name(), key@));
        }
        start.take_one()
    }

    /// Any `n` records.
    fn take_many(n: usize) -> (q: Query<Self>)
        ensures
            exists|key: Seq<char>|
                (key == id_word() || Self::spec_primary_key() == Some(key)) && q@ == (#[trigger] QueryView::select_with_key(
                    Self::spec_table_name(),
                    key,
                )).take_many(n),
    {
        let table_name = Self::table_name();
        let key = Self::primary_key();
        let start: Query<Self> = Query::select_with_key(table_name.as_str(), key.as_str());
        proof {
            assert(start@ == QueryView::select_with_key(Self::spec_table_name(), key@));
        }
        start.take_many(n)
    }

    /// The first record, by primary key.
    fn first_one() -> (q: Query<Self>)
        ensures
            exists|key: Seq<char>|
                (key == id_word() || Self::spec_primary_key() == Some(key)) && q@ == (#[trigger] QueryView::select_with_key(
                    Self::spec_table_name(),
                    key,
                )).first_many(1),
    {
        let table_name = Self::table_name();
        let key = Self::primary_key();
        let start: Query<Self> = Query::select_with_key(table_name.as_str(), key.as_str());
        proof {
            assert(start@ == QueryView::select_with_key(Self::spec_table_name(), key@));
        }
        start.first_one()
    }

    /// The first `n` records, by primary key.
    fn first_many(n: usize) -> (q: Query<Self>)
        ensures
            exists|key: Seq<char>|
                (key == id_word() || Self::spec_primary_key() == Some(key)) && q@ == (#[trigger] QueryView::select_with_key(
                    Self::spec_table_name(),
                    key,
                )).first_many(n),
    {
        let table_name = Self::table_name();
        let key = Self::primary_key();
        let start: Query<Self> = Query::select_with_key(table_name.as_str(), key.as_str());
        proof {
            assert(start@ == QueryView::select_with_key(Self::spec_table_name(), key@));
        }
        start.first_many(n)
    }

    /// All records.
    fn all() -> (q: Query<Self>)
        ensures
            exists|key: Seq<char>|
                (key == id_word() || Self::spec_primary_key() == Some(key)) && q@
                    == #[trigger] QueryView::select_with_key(Self::spec_table_name(), key),
    {
        let table_name = Self::table_name();
        let key = Self::primary_key();
        let start: Query<Self> = Query::select_with_key(table_name.as_str(), key.as_str());
        proof {
            assert(start@ == QueryView::select_with_key(Self::spec_table_name(), key@));
        }
        start
    }

    /// The records for which each pair of a column and a value holds.
    fn filter<V: ToValue>(filters: &[(&str, V)]) -> (q: Query<Self>)
        ensures
            exists|key: Seq<char>|
                (key == id_word() || Self::spec_primary_key() == Some(key)) && q@ == (#[trigger] QueryView::select_with_key(
                    Self::spec_table_name(),
                    key,
                )).filter(filters@),
    {
        let table_name = Self::table_name();
        let key = Self::primary_key();
        let start: Query<Self> = Query::select_with_key(table_name.as_str(), key.as_str());
        proof {
            assert(start@ == QueryView::select_with_key(Self::spec_table_name(), key@));
        }
        start.filter(filters)
    }

    /// One record whose column has the given value.
    fn find_by<V: ToValue>(column: &str, value: V) -> (q: Query<Self>)
        ensures
            exists|key: Seq<char>|
                (key == id_word() || Self::spec_primary_key() == Some(key)) && q@ == (#[trigger] QueryView::select_with_key(
                    Self::spec_table_name(),
                    key,
                )).find_by(
                column@,
                value.value(),
            ).take_many(1),
    {
        let table_name = Self::table_name();
        let key = Self::primary_key();
        let start: Query<Self> = Query::select_with_key(table_name.as_str(), key.as_str());
        proof {
            assert(start@ == QueryView::select_with_key(Self::spec_table_name(), key@));
        }
        start.find_by(column, value.to_value()).take_one()
    }

    /// The records that the given SQL returns.
    fn find_by_sql(query: &str) -> (q: Query<Self>)
        ensures
            q@ == QueryView::Raw(query@),
    {
        Query::Raw(String::from_str(query))
    }

    /// All records, in the given order.
    fn order<O: ToOrderBy>(order: O) -> (q: Query<Self>)
        ensures
            exists|key: Seq<char>|
                (key == id_word() || Self::spec_primary_key() == Some(key)) && q@ == (#[trigger] QueryView::select_with_key(
                    Self::spec_table_name(),
                    key,
                )).order(order.ordering()),
    {
        let table_name = Self::table_name();
        let key = Self::primary_key();
        let start: Query<Self> = Query::select_with_key(table_name.as_str(), key.as_str());
        proof {
            assert(start@ == QueryView::select_with_key(Self::spec_table_name(), key@));
        }
        start.order(order)
    }
}

/// The relationship of a record type with the record type `T`.
pub trait Association<T: Model>: Model {
    /// How this type relates to `T`, where it declares a relationship of its
    /// own. A type that does so says here what `association_type` returns.
    open spec fn spec_association_type() -> Option<AssociationType> {
        None
    }

    /// How this type relates to `T`. A type belongs to `T` unless it says
    /// otherwise.
    fn association_type() -> (kind: AssociationType)
        ensures
            kind == AssociationType::BelongsTo || Self::spec_association_type() == Some(kind),
    {
        AssociationType::BelongsTo
    }

    /// The join of the table of `T` with the table of this type, by the
    /// relationship that `association_type` returns and the keys that the
    /// two types return. Its left column is of the table of `T`, its right
    /// column of the table of this type.
    fn join() -> (r: Join)
        ensures
            exists|kind: AssociationType, this: KeysView, other: KeysView|
                {
                    &&& kind == AssociationType::BelongsTo || Self::spec_association_type()
                        == Some(kind)
                    &&& is_keys_of::<T>(this)
                    &&& is_keys_of::<Self>(other)
                    &&& r@ == #[trigger] JoinView::between(kind, this, other)
                },
    {
        let this = T::keys();
        let other = Self::keys();
        let kind = Self::association_type();
        let r = Join::between(kind, &this, &other);
        proof {
            assert(r@ == JoinView::between(kind, this@, other@));
        }
        r
    }
}


/// Looking up by one column forgets the predicates that the query had:
/// whatever was filtered before, the query then holds that one predicate
/// only, and a filter after it adds to that predicate.
pub proof fn lemma_find_by_resets_the_predicates(
    query: QueryView,
    earlier: Seq<FilterView>,
    column: Seq<char>,
    value: ValueView,
    later: Seq<FilterView>,
)
    ensures
        query.filtered(earlier).find_by(column, value) == query.find_by(column, value),
        query matches QueryView::Select(select) ==> {
            let only = FilterView::predicate(
                column::ColumnView { table_name: select.table_name, column_name: column },
                value,
                false,
                JoinOp::And,
            );
            &&& query.find_by(column, value) matches QueryView::Select(found)
            &&& found.where_clause == seq![only]
            &&& found.values() == seq![value]
            &&& query.filtered(earlier).find_by(column, value).filtered(later)
                matches QueryView::Select(extended)
            &&& extended.where_clause == seq![only] + later
        },
{
    if let QueryView::Select(select) = query {
        let only = FilterView::predicate(
            column::ColumnView { table_name: select.table_name, column_name: column },
            value,
            false,
            JoinOp::And,
        );
        assert(Seq::<FilterView>::empty() + seq![only] =~= seq![only]);
        assert(select.unfiltered().filtered(seq![only]).values() =~= seq![value]);
    }
}

/// The words that start an ordering.
pub open spec fn order_by_words() -> Seq<char> {
    "ORDER BY "@
}

/// The first rows of a query that has no ordering are the first by primary
/// key: the SQL holds `ORDER BY "<table>"."<primary key>" ASC`. This is so
/// for every table with a name; a table without one has its primary key
/// written bare.
pub proof fn lemma_first_orders_by_primary_key(select: SelectView, n: usize)
    requires
        select.order_by.len() == 0,
        select.table_name.len() > 0,
    ensures
        crate::text::contains(
            QueryView::Select(select).first_many(n).sql(),
            order_by_words() + escape::quoted(select.table_name) + seq!['.'] + escape::quoted(
                select.primary_key,
            ) + order_by::ascending_word(),
        ),
        QueryView::Select(select).first_many(n).values() == select.values(),
{
    let first = select.limited(n).ordered(select.primary_key_order());
    let order = select.primary_key_order();
    let wanted = order_by_words() + escape::quoted(select.table_name) + seq!['.']
        + escape::quoted(select.primary_key) + order_by::ascending_word();
    reveal_strlit(" ORDER BY ");
    reveal_strlit("ORDER BY ");
    assert(order_by::order_keyword() =~= seq![' '] + order_by_words());
    assert(order_by::order_sqls(order) =~= seq![order[0].sql()]);
    assert(order_by::order_sql(order) =~= seq![' '] + wanted);
    let before = select::select_keyword() + first.columns.sql() + select::from_keyword()
        + escape::quoted(first.table_name) + join::joins_sql(first.joins) + filter::where_sql(
        first.where_clause,
        0,
    ) + seq![' '];
    let after = first.limit.clause();
    assert(first.sql() =~= before + wanted + after);
}

/// The first records of a model that has no ordering are the first by the
/// primary key of the model: the SQL holds `ORDER BY "<table>"."<key>" ASC`
/// with the key that the model names, or `id` where it names none.
pub proof fn lemma_first_of_a_model_orders_by_its_primary_key<M: Model>(
    primary_key: Seq<char>,
    n: usize,
)
    requires
        is_primary_key_of::<M>(primary_key),
        M::spec_table_name().len() > 0,
    ensures
        crate::text::contains(
            start_of::<M>(primary_key).first_many(n).sql(),
            order_by_words() + escape::quoted(M::spec_table_name()) + seq!['.'] + escape::quoted(
                primary_key,
            ) + order_by::ascending_word(),
        ),
        M::spec_primary_key() is None ==> primary_key == id_word(),
{
    lemma_first_orders_by_primary_key(SelectView::start(M::spec_table_name(), primary_key), n);
}

/// Taking rows never orders them: the ordering of the query stays as it was,
/// and a query without an ordering compiles without one.
pub proof fn lemma_take_keeps_the_ordering(query: QueryView, n: usize)
    ensures
        query matches QueryView::Select(select) ==> {
            &&& query.take_many(n) matches QueryView::Select(taken)
            &&& taken.order_by == select.order_by
            &&& taken.where_clause == select.where_clause
            &&& select.order_by.len() == 0 ==> order_by::order_sql(taken.order_by)
                == Seq::<char>::empty()
            &&& select.order_by.len() == 0 ==> taken.sql() == select::select_keyword()
                + taken.columns.sql() + select::from_keyword() + escape::quoted(taken.table_name)
                + join::joins_sql(taken.joins) + filter::where_sql(taken.where_clause, 0)
                + taken.limit.clause()
        },
        !(query is Select) ==> query.take_many(n) == query,
{
    if let QueryView::Select(select) = query {
        let taken = select.limited(n);
        if select.order_by.len() == 0 {
            assert(taken.sql() =~= select::select_keyword() + taken.columns.sql()
                + select::from_keyword() + escape::quoted(taken.table_name) + join::joins_sql(
                taken.joins,
            ) + filter::where_sql(taken.where_clause, 0) + taken.limit.clause());
        }
    }
}

} // verus!
