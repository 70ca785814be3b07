//! Predicates on rows, and the `WHERE` clause that they form.
use vstd::prelude::*;
use super::column::{Column, ColumnView};
use super::placeholders::Placeholders;
use super::value::{Value, ValueView};
use super::ToSql;
use crate::text::{decimal, push_decimal};

verus! {

/// How a column is compared with its value.
#[derive(Debug, Clone, Copy, PartialEq, Eq)]
pub enum Comparison {
    Equal,
    NotEqual,
    In,
    NotIn,
}

/// How a predicate is combined with those before it.
#[derive(Debug, Clone, Copy, PartialEq, Eq)]
pub enum JoinOp {
    And,
    Or,
}

/// One predicate: a column, a comparison and the value compared with. The
/// value is bound to a positional marker when the predicate is rendered.
#[derive(Debug)]
pub struct Filter {
    column: Column,
    comparison: Comparison,
    value: Value,
    op: JoinOp,
}

/// What a [`Filter`] holds.
pub struct FilterView {
    pub column: ColumnView,
    pub comparison: Comparison,
    pub value: ValueView,
    pub op: JoinOp,
}

/// The comparison that suits `value`: membership for a list, equality for a
/// scalar, each negated on demand.
pub open spec fn comparison_for(value: ValueView, negated: bool) -> Comparison {
    if value is List {
        if negated {
            Comparison::NotIn
        } else {
            Comparison::In
        }
    } else {
        if negated {
            Comparison::NotEqual
        } else {
            Comparison::Equal
        }
    }
}

/// The marker of the value at position `n`, counted from one.
pub open spec fn marker(n: nat) -> Seq<char> {
    seq!['$'] + decimal(n)
}

/// The word between two predicates that both hold.
pub open spec fn and_word() -> Seq<char> {
    " AND "@
}

/// The word between two predicates of which one holds.
pub open spec fn or_word() -> Seq<char> {
    " OR "@
}

/// The keyword that starts the predicates.
pub open spec fn where_keyword() -> Seq<char> {
    " WHERE "@
}

/// The sign of equality.
pub open spec fn equal_sign() -> Seq<char> {
    " = "@
}

/// The sign of inequality.
pub open spec fn not_equal_sign() -> Seq<char> {
    " <> "@
}

/// How a test for membership starts.
pub open spec fn any_opening() -> Seq<char> {
    " = ANY("@
}

/// How a test against membership starts.
pub open spec fn all_opening() -> Seq<char> {
    " <> ALL("@
}

/// The word that stands for `op` between two predicates.
pub open spec fn op_sql(op: JoinOp) -> Seq<char> {
    match op {
        JoinOp::And => and_word(),
        JoinOp::Or => or_word(),
    }
}

impl FilterView {
    /// The predicate on `column` that `value` asks for.
    pub open spec fn predicate(
        column: ColumnView,
        value: ValueView,
        negated: bool,
        op: JoinOp,
    ) -> FilterView {
        FilterView { column, comparison: comparison_for(value, negated), value, op }
    }

    /// Whether the comparison suits the value: a list is compared by
    /// membership, a scalar by equality.
    pub open spec fn suits(self) -> bool {
        (self.comparison == Comparison::In || self.comparison == Comparison::NotIn)
            <==> self.value is List
    }

    /// Whether the comparison suits the value, and a list holds scalars
    /// only.
    pub open spec fn well_formed(self) -> bool {
        self.suits() && self.value.well_formed()
    }

    /// The predicate as SQL, with its value bound to the marker `$n`.
    pub open spec fn condition(self, n: nat) -> Seq<char> {
        self.column.sql() + match self.comparison {
            Comparison::Equal => equal_sign() + marker(n),
            Comparison::NotEqual => not_equal_sign() + marker(n),
            Comparison::In => any_opening() + marker(n) + seq![')'],
            Comparison::NotIn => all_opening() + marker(n) + seq![')'],
        }
    }
}

/// The predicates as SQL, one after another, each but the first after the
/// word for its operator. The value of the predicate at position `i` is bound
/// to the marker `$base+i+1`.
pub open spec fn conditions(filters: Seq<FilterView>, base: nat) -> Seq<char>
    decreases filters.len(),
{
    if filters.len() == 0 {
        Seq::empty()
    } else {
        conditions(filters.drop_last(), base) + (if filters.len() > 1 {
            op_sql(filters.last().op)
        } else {
            Seq::empty()
        }) + filters.last().condition(base + filters.len())
    }
}

/// The `WHERE` clause of the predicates: nothing where there is none.
pub open spec fn where_sql(filters: Seq<FilterView>, base: nat) -> Seq<char> {
    if filters.len() == 0 {
        Seq::empty()
    } else {
        where_keyword() + conditions(filters, base)
    }
}

/// The values of the predicates, in order.
pub open spec fn bound_values(filters: Seq<FilterView>) -> Seq<ValueView> {
    Seq::new(filters.len(), |i: int| filters[i].value)
}

/// The numbers of the markers that `conditions` writes, from left to right.
pub open spec fn markers(filters: Seq<FilterView>, base: nat) -> Seq<nat> {
    Seq::new(filters.len(), |i: int| (base + i + 1) as nat)
}

/// A predicate compares a list by membership and a scalar by equality,
/// whatever its column and its value: a list never stands on the right of
/// an equality.
pub proof fn lemma_predicate_suits_its_value(
    column: ColumnView,
    value: ValueView,
    negated: bool,
    op: JoinOp,
)
    ensures
        FilterView::predicate(column, value, negated, op).suits(),
        FilterView::predicate(column, value, negated, op).well_formed() <==> value.well_formed(),
        FilterView::predicate(column, value, negated, op).value == value,
        FilterView::predicate(column, value, negated, op).column == column,
{
}

impl View for Filter {
    type V = FilterView;

    closed spec fn view(&self) -> FilterView {
        FilterView {
            column: self.column@,
            comparison: self.comparison,
            value: self.value@,
            op: self.op,
        }
    }
}

impl Clone for Filter {
    fn clone(&self) -> (r: Self)
        ensures
            r@ == self@,
    {
        Filter {
            column: self.column.clone(),
            comparison: self.comparison,
            value: self.value.clone(),
            op: self.op,
        }
    }
}

impl Filter {
    /// The predicate that compares `column` with `value`: by membership where
    /// the value is a list, by equality where it is a scalar, negated where
    /// `negated` is set.
    pub fn new(column: Column, value: Value, negated: bool, op: JoinOp) -> (r: Self)
        ensures
            r@ == FilterView::predicate(column@, value@, negated, op),
    {
        let comparison = if value.is_list() {
            if negated {
                Comparison::NotIn
            } else {
                Comparison::In
            }
        } else {
            if negated {
                Comparison::NotEqual
            } else {
                Comparison::Equal
            }
        };
        Filter { column, comparison, value, op }
    }

    /// The value compared with.
    pub fn value(&self) -> (r: &Value)
        ensures
            r@ == self@.value,
    {
        &self.value
    }

    /// Appends the predicate as SQL, with its value bound to the marker `$n`.
    pub fn push_condition(&self, out: &mut String, n: usize)
        ensures
            final(out)@ == old(out)@ + self@.condition(n as nat),
    {
        let column = self.column.to_sql();
        out.append(column.as_str());
        let closing = match self.comparison {
            Comparison::Equal => {
                out.append(" = ");
                false
            },
            Comparison::NotEqual => {
                out.append(" <> ");
                false
            },
            Comparison::In => {
                out.append(" = ANY(");
                true
            },
            Comparison::NotIn => {
                out.append(" <> ALL(");
                true
            },
        };
        push_marker(out, n);
        if closing {
            out.push(')');
        }
        proof {
            assert(out@ =~= old(out)@ + self@.condition(n as nat));
        }
    }
}

/// Appends the marker of the value at position `n`, counted from one.
pub fn push_marker(out: &mut String, n: usize)
    ensures
        final(out)@ == old(out)@ + marker(n as nat),
{
    out.push('$');
    push_decimal(out, n as u64);
    proof {
        assert(out@ =~= old(out)@ + marker(n as nat));
    }
}

/// The predicates of a query, in the order in which they were added.
#[derive(Debug)]
pub struct WhereClause {
    filters: Vec<Filter>,
}

impl View for WhereClause {
    type V = Seq<FilterView>;

    closed spec fn view(&self) -> Seq<FilterView> {
        Seq::new(self.filters@.len(), |i: int| self.filters@[i]@)
    }
}

impl Default for WhereClause {
    fn default() -> (r: Self)
        ensures
            r@ == Seq::<FilterView>::empty(),
    {
        WhereClause::new()
    }
}

impl Clone for WhereClause {
    fn clone(&self) -> (r: Self)
        ensures
            r@ == self@,
    {
        let mut filters: Vec<Filter> = Vec::new();
        let mut i: usize = 0;
        while i < self.filters.len()
            invariant
                i <= self.filters@.len(),
                filters@.len() == i,
                forall|j: int| 0 <= j < i ==> (#[trigger] filters@[j])@ == self.filters@[j]@,
            decreases self.filters@.len() - i,
        {
            filters.push(self.filters[i].clone());
            i += 1;
        }
        let r = WhereClause { filters };
        proof {
            assert(r@ =~= self@);
        }
        r
    }
}

impl WhereClause {
    /// No predicate.
    pub fn new() -> (r: Self)
        ensures
            r@ == Seq::<FilterView>::empty(),
    {
        let r = WhereClause { filters: Vec::new() };
        proof {
            assert(r@ =~= Seq::empty());
        }
        r
    }

    /// Whether there is no predicate.
    pub fn is_empty(&self) -> (r: bool)
        ensures
            r == (self@.len() == 0),
    {
        self.filters.len() == 0
    }

    /// How many predicates there are.
    pub fn len(&self) -> (n: usize)
        ensures
            n == self@.len(),
    {
        self.filters.len()
    }

    /// Removes every predicate.
    pub fn clear(&mut self)
        ensures
            final(self)@ == Seq::<FilterView>::empty(),
    {
        self.filters.clear();
        proof {
            assert(self@ =~= Seq::empty());
        }
    }

    /// Adds a predicate after those already there.
    pub fn add(&mut self, filter: Filter)
        ensures
            final(self)@ == old(self)@.push(filter@),
    {
        self.filters.push(filter);
        proof {
            assert(self@ =~= old(self)@.push(filter@));
        }
    }

    /// Renders the clause and binds the value of each predicate, in order,
    /// after the values that `placeholders` holds already.
    pub fn render(&self, placeholders: &mut Placeholders) -> (s: String)
        ensures
            s@ == where_sql(self@, old(placeholders)@.len()),
            final(placeholders)@ == old(placeholders)@ + bound_values(self@),
    {
        let mut out = String::new();
        if self.filters.len() == 0 {
            proof {
                assert(placeholders@ =~= old(placeholders)@ + bound_values(self@));
            }
            return out;
        }
        out.append(" WHERE ");
        let ghost base = placeholders@.len();
        let ghost all = self@;
        let mut i: usize = 0;
        while i < self.filters.len()
            invariant
                i <= self.filters@.len(),
                all == self@,
                all.len() == self.filters@.len(),
                base == old(placeholders)@.len(),
                out@ == where_keyword() + conditions(all.take(i as int), base),
                placeholders@ == old(placeholders)@ + bound_values(all.take(i as int)),
            decreases self.filters@.len() - i,
        {
            proof {
                assert(all.take(i + 1).drop_last() == all.take(i as int));
                assert(all[i as int] == self.filters@[i as int]@);
            }
            let filter = &self.filters[i];
            if i > 0 {
                match filter.op {
                    JoinOp::And => out.append(" AND "),
                    JoinOp::Or => out.append(" OR "),
                }
            }
            let n = placeholders.add(filter.value());
            filter.push_condition(&mut out, n);
            i += 1;
            proof {
                assert(out@ =~= where_keyword() + conditions(all.take(i as int), base));
                assert(placeholders@ =~= old(placeholders)@ + bound_values(all.take(i as int)));
            }
        }
        proof {
            assert(all.take(all.len() as int) == all);
        }
        out
    }
}

impl ToSql for WhereClause {
    open spec fn sql(&self) -> Seq<char> {
        where_sql(self@, 0)
    }

    fn to_sql(&self) -> (s: String) {
        let mut placeholders = Placeholders::new();
        self.render(&mut placeholders)
    }
}

} // verus!
