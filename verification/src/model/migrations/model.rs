//! The record of one migration.
use vstd::prelude::*;
use super::super::row::{lookup, Row, RowView};
use super::super::value::{views, ToValue, Value, ValueView};
use super::super::{FromRow, Model};
use super::Direction;
use crate::text::{push_signed_decimal, signed_decimal, texts};

verus! {

/// One migration, as the tracking table records it: its version, its name,
/// and when it was applied, in nanoseconds since the Unix epoch. A migration
/// that is not applied has no such time.
#[derive(Debug, PartialEq, Eq)]
pub struct Migration {
    id: Option<i64>,
    pub version: i64,
    pub name: String,
    pub applied_at: Option<i128>,
}

/// What a [`Migration`] holds.
pub struct MigrationView {
    pub id: Option<i64>,
    pub version: i64,
    pub name: Seq<char>,
    pub applied_at: Option<i128>,
}

impl View for Migration {
    type V = MigrationView;

    closed spec fn view(&self) -> MigrationView {
        MigrationView {
            id: self.id,
            version: self.version,
            name: self.name@,
            applied_at: self.applied_at,
        }
    }
}

impl Clone for Migration {
    fn clone(&self) -> (r: Self)
        ensures
            r@ == self@,
    {
        Migration {
            id: self.id,
            version: self.version,
            name: self.name.clone(),
            applied_at: self.applied_at,
        }
    }
}

/// The word for applying in the name of a file.
pub open spec fn up_word() -> Seq<char> {
    "up"@
}

/// The word for rolling back in the name of a file.
pub open spec fn down_word() -> Seq<char> {
    "down"@
}

/// How the name of a file of SQL ends.
pub open spec fn sql_extension() -> Seq<char> {
    ".sql"@
}

/// The word for a direction in the name of a file.
pub open spec fn direction_word(direction: Direction) -> Seq<char> {
    match direction {
        Direction::Up => up_word(),
        Direction::Down => down_word(),
    }
}

/// The name of the file that holds the SQL of the migration in the given
/// direction: the version, an underscore, the name, a dot, the direction and
/// `.sql`.
pub open spec fn file_name(version: i64, name: Seq<char>, direction: Direction) -> Seq<char> {
    signed_decimal(version as int) + seq!['_'] + name + seq!['.'] + direction_word(direction)
        + sql_extension()
}

/// The integer in the column `name` of `row`, if the column holds one.
pub open spec fn integer_at(row: RowView, name: Seq<char>) -> Option<i64> {
    match lookup(row, name) {
        Some(ValueView::Integer(i)) => Some(i),
        _ => None,
    }
}

/// The text in the column `name` of `row`; nothing where the column holds
/// none.
pub open spec fn text_at(row: RowView, name: Seq<char>) -> Seq<char> {
    match lookup(row, name) {
        Some(ValueView::Text(s)) => s,
        _ => Seq::empty(),
    }
}

/// The time in the column `name` of `row`, if the column holds one.
pub open spec fn timestamp_at(row: RowView, name: Seq<char>) -> Option<i128> {
    match lookup(row, name) {
        Some(ValueView::Timestamp(t)) => Some(t),
        _ => None,
    }
}

impl Migration {
    /// What the migration holds.
    pub open spec fn spec_values(self) -> Seq<ValueView> {
        seq![
            ValueView::Integer(self@.version),
            ValueView::Text(self@.name),
            match self@.applied_at {
                Some(t) => ValueView::Timestamp(t),
                None => ValueView::Null,
            },
        ]
    }

    /// A migration that is not recorded yet.
    pub fn new(version: i64, name: &str) -> (r: Self)
        ensures
            r@ == (MigrationView { id: None, version, name: name@, applied_at: None }),
    {
        Migration { id: None, version, name: String::from_str(name), applied_at: None }
    }

    /// The same migration, applied at the given time, or not applied.
    pub fn with_applied_at(self, applied_at: Option<i128>) -> (r: Self)
        ensures
            r@ == (MigrationView { applied_at, ..self@ }),
    {
        Migration { id: self.id, version: self.version, name: self.name, applied_at }
    }

    /// The version of the migration.
    pub fn version(&self) -> (r: i64)
        ensures
            r == self@.version,
    {
        self.version
    }

    /// The name of the migration.
    pub fn name(&self) -> (r: &str)
        ensures
            r@ == self@.name,
    {
        self.name.as_str()
    }

    /// When the migration was applied, if it is.
    pub fn applied_at(&self) -> (r: Option<i128>)
        ensures
            r == self@.applied_at,
    {
        self.applied_at
    }

    /// Whether the migration is applied.
    pub fn is_applied(&self) -> (r: bool)
        ensures
            r == (self@.applied_at is Some),
    {
        self.applied_at.is_some()
    }

    /// The name of the file that holds the SQL of the migration in the given
    /// direction.
    pub fn path(&self, direction: Direction) -> (r: String)
        ensures
            r@ == file_name(self@.version, self@.name, direction),
    {
        let mut out = String::new();
        push_signed_decimal(&mut out, self.version);
        out.push('_');
        out.append(self.name.as_str());
        out.push('.');
        match direction {
            Direction::Up => out.append("up"),
            Direction::Down => out.append("down"),
        }
        out.append(".sql");
        proof {
            assert(out@ =~= file_name(self@.version, self@.name, direction));
        }
        out
    }
}

impl FromRow for Migration {
    open spec fn decodes(row: RowView, record: Self) -> bool {
        record@ == (MigrationView {
            id: integer_at(row, "id"@),
            version: match integer_at(row, "version"@) {
                Some(version) => version,
                None => 0,
            },
            name: text_at(row, "name"@),
            applied_at: timestamp_at(row, "applied_at"@),
        })
    }

    fn from_row(row: &Row) -> (r: Self) {
        let id = match row.get("id") {
            Some(Value::Integer(id)) => Some(*id),
            _ => None,
        };
        let version = match row.get("version") {
            Some(Value::Integer(version)) => *version,
            _ => 0,
        };
        let name = match row.get("name") {
            Some(Value::Text(name)) => name.clone(),
            _ => String::new(),
        };
        let applied_at = match row.get("applied_at") {
            Some(Value::Timestamp(at)) => Some(*at),
            _ => None,
        };
        Migration { id, version, name, applied_at }
    }
}

impl Model for Migration {
    open spec fn spec_table_name() -> Seq<char> {
        "rum_migrations"@
    }

    open spec fn spec_column_names() -> Seq<Seq<char>> {
        seq!["version"@, "name"@, "applied_at"@]
    }

    open spec fn spec_id(&self) -> Option<ValueView> {
        Some(
            match self@.id {
                Some(id) => ValueView::Integer(id),
                None => ValueView::Null,
            },
        )
    }

    open spec fn spec_primary_key() -> Option<Seq<char>> {
        Some("id"@)
    }

    open spec fn spec_foreign_key() -> Option<Seq<char>> {
        Some("rum_migration_id"@)
    }

    fn primary_key() -> (s: String)
        ensures
            s@ == "id"@,
    {
        String::from_str("id")
    }

    fn table_name() -> (s: String) {
        String::from_str("rum_migrations")
    }

    fn foreign_key() -> (s: String)
        ensures
            s@ == "rum_migration_id"@,
    {
        let s = String::from_str("rum_migration_id");
        proof {
            assert(Self::spec_foreign_key() == Some(s@));
        }
        s
    }

    fn id(&self) -> (v: Value)
        ensures
            v@ == match self@.id {
                Some(id) => ValueView::Integer(id),
                None => ValueView::Null,
            },
    {
        self.id.to_value()
    }

    fn values(&self) -> (values: Vec<Value>)
        ensures
            views(values@) == self.spec_values(),
    {
        let mut values: Vec<Value> = Vec::new();
        values.push(self.version.to_value());
        values.push(self.name.to_value());
        values.push(
            match self.applied_at {
                Some(at) => Value::Timestamp(at),
                None => Value::Null,
            },
        );
        proof {
            assert(views(values@) =~= self.spec_values());
        }
        values
    }

    fn column_names() -> (names: Vec<String>) {
        let mut names: Vec<String> = Vec::new();
        names.push(String::from_str("version"));
        names.push(String::from_str("name"));
        names.push(String::from_str("applied_at"));
        proof {
            assert(texts(names@) =~= Self::spec_column_names());
        }
        names
    }
}

} // verus!
