//! Relationships between record types, and the joins that they compile to.
use vstd::prelude::*;
use super::column::{Column, ColumnView};
use super::escape::{push_quoted, quoted};
use super::ToSql;
use crate::text::same_text;

verus! {

/// How a record type relates to another one.
///
/// `BelongsTo`: the table of this type holds the foreign key that points at
/// the primary key of the other. `HasMany` is the inverse: the table of the
/// other type holds the foreign key that points at this one.
#[derive(Debug, Clone, Copy, PartialEq, Eq)]
pub enum AssociationType {
    BelongsTo,
    HasMany,
}

/// How a declaration names the relationship `BelongsTo`.
pub open spec fn belongs_to_word() -> Seq<char> {
    "belongs_to"@
}

/// How a declaration names the relationship `HasMany`.
pub open spec fn has_many_word() -> Seq<char> {
    "has_many"@
}

impl AssociationType {
    /// The relationship seen from the other side.
    pub open spec fn inverse(self) -> AssociationType {
        match self {
            AssociationType::BelongsTo => AssociationType::HasMany,
            AssociationType::HasMany => AssociationType::BelongsTo,
        }
    }

    /// The relationship that a declaration names: `belongs_to` or
    /// `has_many`. Any other word names none.
    pub open spec fn named(word: Seq<char>) -> Option<AssociationType> {
        if word == belongs_to_word() {
            Some(AssociationType::BelongsTo)
        } else if word == has_many_word() {
            Some(AssociationType::HasMany)
        } else {
            None
        }
    }

    /// The relationship that a declaration names.
    pub fn parse(word: &str) -> (r: Option<AssociationType>)
        ensures
            r == AssociationType::named(word@),
    {
        if same_text(word, "belongs_to") {
            Some(AssociationType::BelongsTo)
        } else if same_text(word, "has_many") {
            Some(AssociationType::HasMany)
        } else {
            None
        }
    }

    /// The relationship seen from the other side.
    pub fn reversed(self) -> (r: AssociationType)
        ensures
            r == self.inverse(),
    {
        match self {
            AssociationType::BelongsTo => AssociationType::HasMany,
            AssociationType::HasMany => AssociationType::BelongsTo,
        }
    }
}

/// The names by which a record type is stored and referred to.
#[derive(Debug)]
pub struct Keys {
    pub table_name: String,
    pub primary_key: String,
    pub foreign_key: String,
}

/// What a [`Keys`] holds.
pub struct KeysView {
    pub table_name: Seq<char>,
    pub primary_key: Seq<char>,
    pub foreign_key: Seq<char>,
}

impl View for Keys {
    type V = KeysView;

    open spec fn view(&self) -> KeysView {
        KeysView {
            table_name: self.table_name@,
            primary_key: self.primary_key@,
            foreign_key: self.foreign_key@,
        }
    }
}

/// An inner join with one table, on the equality of two columns.
#[derive(Debug)]
pub struct Join {
    table_name: String,
    left: Column,
    right: Column,
}

/// What a [`Join`] holds.
pub struct JoinView {
    pub table_name: Seq<char>,
    pub left: ColumnView,
    pub right: ColumnView,
}

/// The keyword that starts a join.
pub open spec fn join_keyword() -> Seq<char> {
    " INNER JOIN "@
}

/// The keyword that starts the condition of a join.
pub open spec fn on_keyword() -> Seq<char> {
    " ON "@
}

/// The sign between the two columns of a join.
pub open spec fn equals_sign() -> Seq<char> {
    " = "@
}

impl JoinView {
    /// The join of the table of `this` with the table of `other`, where
    /// `kind` says how `other` relates to `this`.
    ///
    /// The left column is always of the table of `this`, the right column of
    /// the table of `other`. Where `other` belongs to `this`, the foreign key
    /// of `this` stands in the table of `other` and points at the primary key
    /// of `this`. Where `other` has many of `this`, the foreign key of `other`
    /// stands in the table of `this` and points at the primary key of `other`.
    pub open spec fn between(kind: AssociationType, this: KeysView, other: KeysView) -> JoinView {
        match kind {
            AssociationType::BelongsTo => JoinView {
                table_name: other.table_name,
                left: ColumnView { table_name: this.table_name, column_name: this.primary_key },
                right: ColumnView { table_name: other.table_name, column_name: this.foreign_key },
            },
            AssociationType::HasMany => JoinView {
                table_name: other.table_name,
                left: ColumnView { table_name: this.table_name, column_name: other.foreign_key },
                right: ColumnView { table_name: other.table_name, column_name: other.primary_key },
            },
        }
    }

    /// The join as SQL.
    pub open spec fn sql(self) -> Seq<char> {
        join_keyword() + quoted(self.table_name) + on_keyword() + self.left.sql() + equals_sign()
            + self.right.sql()
    }
}

impl View for Join {
    type V = JoinView;

    closed spec fn view(&self) -> JoinView {
        JoinView { table_name: self.table_name@, left: self.left@, right: self.right@ }
    }
}

impl Clone for Join {
    fn clone(&self) -> (r: Self)
        ensures
            r@ == self@,
    {
        Join {
            table_name: self.table_name.clone(),
            left: self.left.clone(),
            right: self.right.clone(),
        }
    }
}

impl Join {
    /// The join with `table_name` on `left` = `right`.
    pub fn new(table_name: &str, left: Column, right: Column) -> (r: Self)
        ensures
            r@ == (JoinView { table_name: table_name@, left: left@, right: right@ }),
    {
        Join { table_name: String::from_str(table_name), left, right }
    }

    /// The join of the table of `this` with the table of `other`, where
    /// `kind` says how `other` relates to `this`.
    pub fn between(kind: AssociationType, this: &Keys, other: &Keys) -> (r: Self)
        ensures
            r@ == JoinView::between(kind, this@, other@),
    {
        match kind {
            AssociationType::BelongsTo => Join {
                table_name: other.table_name.clone(),
                left: Column::new(this.table_name.as_str(), this.primary_key.as_str()),
                right: Column::new(other.table_name.as_str(), this.foreign_key.as_str()),
            },
            AssociationType::HasMany => Join {
                table_name: other.table_name.clone(),
                left: Column::new(this.table_name.as_str(), other.foreign_key.as_str()),
                right: Column::new(other.table_name.as_str(), other.primary_key.as_str()),
            },
        }
    }
}

impl ToSql for Join {
    open spec fn sql(&self) -> Seq<char> {
        self@.sql()
    }

    fn to_sql(&self) -> (s: String) {
        let mut out = String::new();
        out.append(" INNER JOIN ");
        push_quoted(&mut out, self.table_name.as_str());
        out.append(" ON ");
        let left = self.left.to_sql();
        out.append(left.as_str());
        out.append(" = ");
        let right = self.right.to_sql();
        out.append(right.as_str());
        proof {
            assert(out@ =~= self@.sql());
        }
        out
    }
}

/// The joins of a query, in the order in which they were added.
#[derive(Debug)]
pub struct Joins {
    joins: Vec<Join>,
}

/// The joins as SQL, one after another.
pub open spec fn joins_sql(joins: Seq<JoinView>) -> Seq<char>
    decreases joins.len(),
{
    if joins.len() == 0 {
        Seq::empty()
    } else {
        joins_sql(joins.drop_last()) + joins.last().sql()
    }
}

impl View for Joins {
    type V = Seq<JoinView>;

    closed spec fn view(&self) -> Seq<JoinView> {
        Seq::new(self.joins@.len(), |i: int| self.joins@[i]@)
    }
}

impl Default for Joins {
    fn default() -> (r: Self)
        ensures
            r@ == Seq::<JoinView>::empty(),
    {
        let r = Joins { joins: Vec::new() };
        proof {
            assert(r@ =~= Seq::empty());
        }
        r
    }
}

impl Clone for Joins {
    fn clone(&self) -> (r: Self)
        ensures
            r@ == self@,
    {
        let mut joins: Vec<Join> = Vec::new();
        let mut i: usize = 0;
        while i < self.joins.len()
            invariant
                i <= self.joins@.len(),
                joins@.len() == i,
                forall|j: int| 0 <= j < i ==> (#[trigger] joins@[j])@ == self.joins@[j]@,
            decreases self.joins@.len() - i,
        {
            joins.push(self.joins[i].clone());
            i += 1;
        }
        let r = Joins { joins };
        proof {
            assert(r@ =~= self@);
        }
        r
    }
}

impl Joins {
    /// Whether there is no join.
    pub fn is_empty(&self) -> (r: bool)
        ensures
            r == (self@.len() == 0),
    {
        self.joins.len() == 0
    }

    /// The same joins, with `join` after them.
    pub fn add(self, join: Join) -> (r: Self)
        ensures
            r@ == self@.push(join@),
    {
        let ghost before = self@;
        let mut joins = self.joins;
        joins.push(join);
        let r = Joins { joins };
        proof {
            assert(r@ =~= before.push(join@));
        }
        r
    }
}

impl ToSql for Joins {
    open spec fn sql(&self) -> Seq<char> {
        joins_sql(self@)
    }

    fn to_sql(&self) -> (s: String) {
        let mut out = String::new();
        let ghost all = self@;
        let mut i: usize = 0;
        while i < self.joins.len()
            invariant
                i <= self.joins@.len(),
                all == self@,
                all.len() == self.joins@.len(),
                out@ == joins_sql(all.take(i as int)),
            decreases self.joins@.len() - i,
        {
            proof {
                assert(all.take(i + 1).drop_last() == all.take(i as int));
                assert(all[i as int] == self.joins@[i as int]@);
            }
            let piece = self.joins[i].to_sql();
            out.append(piece.as_str());
            i += 1;
        }
        proof {
            assert(all.take(all.len() as int) == all);
        }
        out
    }
}

/// A join from one type to another and the join back reference the same two
/// columns in their `ON` clause, each with the column of its own table on the
/// left, provided that the two declared relationships are inverse to each
/// other. Only the table that is joined and the side of each column differ.
pub proof fn lemma_join_is_directionally_consistent(
    kind: AssociationType,
    a: KeysView,
    b: KeysView,
)
    ensures
        ({
            let there = JoinView::between(kind, a, b);
            let back = JoinView::between(kind.inverse(), b, a);
            &&& there.table_name == b.table_name
            &&& back.table_name == a.table_name
            &&& there.left == back.right
            &&& there.right == back.left
            &&& there.left.table_name == a.table_name
            &&& back.left.table_name == b.table_name
            &&& there.sql() == join_keyword() + quoted(b.table_name) + on_keyword()
                + there.left.sql() + equals_sign() + there.right.sql()
            &&& back.sql() == join_keyword() + quoted(a.table_name) + on_keyword()
                + there.right.sql() + equals_sign() + there.left.sql()
        }),
{
}

} // verus!
