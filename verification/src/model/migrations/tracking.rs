//! The table that records which migrations are applied.
use vstd::prelude::*;
use super::super::error::{Error, ErrorView};
use super::super::escape::quoted;
use super::super::filter::marker;
use super::super::markers::markers_in;
use super::super::statement::{numbered, StatementBuilder};
use super::super::value::{Value, ValueView};
use super::super::Prepared;
use super::model::{Migration, MigrationView};
use super::{ascending, descending, views, Migrations};

verus! {

/// The rows of the table that records which migrations are applied: at most
/// one for each version. A migration is applied if the table has a row of
/// its version with a time.
#[derive(Debug)]
pub struct TrackingTable {
    rows: Vec<Migration>,
}

/// The position of the first row of `version`, or the number of rows where
/// there is none.
pub open spec fn index_of(rows: Seq<MigrationView>, version: i64) -> int
    decreases rows.len(),
{
    if rows.len() == 0 {
        0
    } else if rows[0].version == version {
        0
    } else {
        1 + index_of(rows.skip(1), version)
    }
}

/// Whether no two rows have one version.
pub open spec fn distinct(rows: Seq<MigrationView>) -> bool {
    forall|i: int, j: int|
        0 <= i < j < rows.len() ==> (#[trigger] rows[i]).version != (#[trigger] rows[j]).version
}

/// Whether the migration of `version` is applied: a row of that version has
/// a time.
pub open spec fn is_applied(rows: Seq<MigrationView>, version: i64) -> bool {
    exists|i: int|
        0 <= i < rows.len() && (#[trigger] rows[i]).version == version && rows[i].applied_at
            is Some
}

/// The rows after the migration of `version` was applied at the time `at`.
/// Where it was applied already, the rows are as they were. Where it has a
/// row without a time, that row gets the time. Else a row is added.
pub open spec fn with_applied(
    rows: Seq<MigrationView>,
    version: i64,
    name: Seq<char>,
    at: i128,
) -> Seq<MigrationView> {
    let k = index_of(rows, version);
    if is_applied(rows, version) {
        rows
    } else if k < rows.len() {
        rows.update(k, MigrationView { applied_at: Some(at), ..rows[k] })
    } else {
        rows.push(MigrationView { id: None, version, name, applied_at: Some(at) })
    }
}

/// The rows after the migration of `version` was rolled back: its row has
/// no time. Where it was not applied, the rows are as they were.
pub open spec fn with_rolled_back(rows: Seq<MigrationView>, version: i64) -> Seq<MigrationView> {
    let k = index_of(rows, version);
    if is_applied(rows, version) && k < rows.len() {
        rows.update(k, MigrationView { applied_at: None, ..rows[k] })
    } else {
        rows
    }
}

/// The migrations that are not applied, in the order of `migrations`.
pub open spec fn pending(
    migrations: Seq<MigrationView>,
    rows: Seq<MigrationView>,
) -> Seq<MigrationView>
    decreases migrations.len(),
{
    if migrations.len() == 0 {
        Seq::empty()
    } else if is_applied(rows, migrations.last().version) {
        pending(migrations.drop_last(), rows)
    } else {
        pending(migrations.drop_last(), rows).push(migrations.last())
    }
}

/// The migrations that are applied, in the reverse of the order of
/// `migrations`.
pub open spec fn to_roll_back(
    migrations: Seq<MigrationView>,
    rows: Seq<MigrationView>,
) -> Seq<MigrationView>
    decreases migrations.len(),
{
    if migrations.len() == 0 {
        Seq::empty()
    } else if is_applied(rows, migrations.last().version) {
        seq![migrations.last()] + to_roll_back(migrations.drop_last(), rows)
    } else {
        to_roll_back(migrations.drop_last(), rows)
    }
}

/// The first row of a version is where `index_of` says, and nowhere before.
pub proof fn lemma_index_of(rows: Seq<MigrationView>, version: i64)
    ensures
        0 <= index_of(rows, version) <= rows.len(),
        index_of(rows, version) < rows.len() ==> rows[index_of(rows, version)].version == version,
        forall|i: int| 0 <= i < index_of(rows, version) ==> (#[trigger] rows[i]).version != version,
    decreases rows.len(),
{
    if rows.len() > 0 && rows[0].version != version {
        lemma_index_of(rows.skip(1), version);
        assert forall|i: int| 0 <= i < index_of(rows, version) implies (#[trigger] rows[i]).version
            != version by {
            if i > 0 {
                assert(rows.skip(1)[i - 1] == rows[i]);
            }
        }
    }
}

/// Applying a migration is idempotent: after it, the table has exactly one
/// row of that version, that row has a time, and applying the migration
/// again, under any name and at any time, leaves the table as it is. The
/// time is that of the first application where the migration was not applied
/// before.
pub proof fn lemma_applying_twice_is_applying_once(
    rows: Seq<MigrationView>,
    version: i64,
    name: Seq<char>,
    at: i128,
    again_name: Seq<char>,
    again_at: i128,
)
    requires
        distinct(rows),
    ensures
        ({
            let once = with_applied(rows, version, name, at);
            let k = index_of(once, version);
            &&& distinct(once)
            &&& is_applied(once, version)
            &&& with_applied(once, version, again_name, again_at) == once
            &&& 0 <= k < once.len()
            &&& once[k].version == version
            &&& once[k].applied_at is Some
            &&& forall|j: int| 0 <= j < once.len() && (#[trigger] once[j]).version == version ==> j == k
            &&& !is_applied(rows, version) ==> once[k].applied_at == Some(at)
        }),
{
    let once = with_applied(rows, version, name, at);
    lemma_index_of(rows, version);
    let k = index_of(rows, version);
    if is_applied(rows, version) {
        let i = choose|i: int|
            0 <= i < rows.len() && (#[trigger] rows[i]).version == version && rows[i].applied_at
                is Some;
        assert(k < rows.len());
        if i != k {
            if i < k {
                assert(rows[i].version != rows[k].version);
            } else {
                assert(rows[k].version != rows[i].version);
            }
        }
    } else if k < rows.len() {
        assert(once[k].version == version && once[k].applied_at is Some);
        assert forall|i: int, j: int| 0 <= i < j < once.len() implies (#[trigger] once[i]).version
            != (#[trigger] once[j]).version by {
            assert(once[i].version == rows[i].version);
            assert(once[j].version == rows[j].version);
        }
    } else {
        assert(once[rows.len() as int].version == version);
        assert(once[rows.len() as int].applied_at is Some);
        assert forall|i: int, j: int| 0 <= i < j < once.len() implies (#[trigger] once[i]).version
            != (#[trigger] once[j]).version by {
            if j < rows.len() {
                assert(once[i] == rows[i]);
                assert(once[j] == rows[j]);
            } else {
                assert(once[i] == rows[i]);
            }
        }
    }
    lemma_index_of(once, version);
    let k2 = index_of(once, version);
    assert(is_applied(once, version));
    assert(k2 < once.len()) by {
        let i = choose|i: int|
            0 <= i < once.len() && (#[trigger] once[i]).version == version && once[i].applied_at
                is Some;
        if k2 > i {
        }
    }
    assert forall|j: int| 0 <= j < once.len() && (#[trigger] once[j]).version == version implies j
        == k2 by {
        if j < k2 {
            assert(once[j].version != once[k2].version);
        } else if j > k2 {
            assert(once[k2].version != once[j].version);
        }
    }
    let i = choose|i: int|
        0 <= i < once.len() && (#[trigger] once[i]).version == version && once[i].applied_at
            is Some;
    assert(i == k2);
}

/// Two migrations that are applied one after the other, neither of them
/// applied before, have the times at which they were applied: where the
/// clock moved forward between the two, the first has the earlier time. On
/// an empty table the two leave their two rows, in that order.
pub proof fn lemma_applying_in_order_keeps_the_times(
    rows: Seq<MigrationView>,
    first: i64,
    first_name: Seq<char>,
    first_at: i128,
    second: i64,
    second_name: Seq<char>,
    second_at: i128,
)
    requires
        distinct(rows),
        first != second,
        !is_applied(rows, first),
        !is_applied(rows, second),
        first_at < second_at,
    ensures
        ({
            let after = with_applied(
                with_applied(rows, first, first_name, first_at),
                second,
                second_name,
                second_at,
            );
            let i = index_of(after, first);
            let j = index_of(after, second);
            &&& distinct(after)
            &&& 0 <= i < after.len()
            &&& 0 <= j < after.len()
            &&& after[i].version == first
            &&& after[j].version == second
            &&& after[i].applied_at == Some(first_at)
            &&& after[j].applied_at == Some(second_at)
            &&& after[i].applied_at->0 < after[j].applied_at->0
            &&& rows.len() == 0 ==> after == seq![
                MigrationView { id: None, version: first, name: first_name, applied_at: Some(first_at) },
                MigrationView {
                    id: None,
                    version: second,
                    name: second_name,
                    applied_at: Some(second_at),
                },
            ]
        }),
{
    let once = with_applied(rows, first, first_name, first_at);
    let after = with_applied(once, second, second_name, second_at);
    lemma_applying_twice_is_applying_once(rows, first, first_name, first_at, first_name, first_at);
    let a = index_of(once, first);
    lemma_index_of(rows, second);
    lemma_index_of(once, second);
    assert(!is_applied(once, second)) by {
        if is_applied(once, second) {
            let k = choose|k: int|
                0 <= k < once.len() && (#[trigger] once[k]).version == second
                    && once[k].applied_at is Some;
            lemma_index_of(rows, first);
            if k < rows.len() {
                assert(once[k].version == rows[k].version);
                assert(rows[k].version == second);
                assert(once[k].applied_at == rows[k].applied_at);
            }
        }
    }
    lemma_applying_twice_is_applying_once(
        once,
        second,
        second_name,
        second_at,
        second_name,
        second_at,
    );
    lemma_index_of(after, first);
    lemma_index_of(after, second);
    let b = index_of(once, second);
    assert(after[a].version == first && after[a].applied_at == Some(first_at)) by {
        if b < once.len() {
            assert(a != b);
        }
    }
    let i = index_of(after, first);
    if i != a {
        if i < a {
            assert(after[i].version != after[a].version);
        } else {
            assert(after[a].version != after[i].version);
        }
    }
    if rows.len() == 0 {
        assert(after =~= seq![
            MigrationView { id: None, version: first, name: first_name, applied_at: Some(first_at) },
            MigrationView {
                id: None,
                version: second,
                name: second_name,
                applied_at: Some(second_at),
            },
        ]);
    }
}

/// The migrations that are not applied come in the order of all migrations,
/// and those to roll back in the reverse order: by ascending version the
/// first, by descending version the second.
pub proof fn lemma_plans_are_ordered(migrations: Seq<MigrationView>, rows: Seq<MigrationView>)
    requires
        ascending(migrations),
    ensures
        ascending(pending(migrations, rows)),
        descending(to_roll_back(migrations, rows)),
        forall|k: int|
            0 <= k < pending(migrations, rows).len() ==> !is_applied(
                rows,
                (#[trigger] pending(migrations, rows)[k]).version,
            ) && exists|i: int|
                0 <= i < migrations.len() && #[trigger] migrations[i] == pending(
                    migrations,
                    rows,
                )[k],
        forall|k: int|
            0 <= k < to_roll_back(migrations, rows).len() ==> is_applied(
                rows,
                (#[trigger] to_roll_back(migrations, rows)[k]).version,
            ) && exists|i: int|
                0 <= i < migrations.len() && #[trigger] migrations[i] == to_roll_back(
                    migrations,
                    rows,
                )[k],
    decreases migrations.len(),
{
    if migrations.len() > 0 {
        let front = migrations.drop_last();
        let last = migrations.last();
        assert(ascending(front)) by {
            assert forall|i: int, j: int| 0 <= i < j < front.len() implies (#[trigger] front[i]).version
                < (#[trigger] front[j]).version by {
                assert(front[i] == migrations[i]);
                assert(front[j] == migrations[j]);
            }
        }
        lemma_plans_are_ordered(front, rows);
        let p = pending(migrations, rows);
        let pf = pending(front, rows);
        let b = to_roll_back(migrations, rows);
        let bf = to_roll_back(front, rows);
        assert forall|k: int| 0 <= k < pf.len() implies (#[trigger] pf[k]).version < last.version
            && exists|i: int| 0 <= i < migrations.len() && #[trigger] migrations[i] == pf[k] by {
            let i = choose|i: int| 0 <= i < front.len() && #[trigger] front[i] == pf[k];
            assert(front[i] == migrations[i]);
            assert(migrations[i].version < migrations[migrations.len() - 1].version);
        }
        assert forall|k: int| 0 <= k < bf.len() implies (#[trigger] bf[k]).version < last.version
            && exists|i: int| 0 <= i < migrations.len() && #[trigger] migrations[i] == bf[k] by {
            let i = choose|i: int| 0 <= i < front.len() && #[trigger] front[i] == bf[k];
            assert(front[i] == migrations[i]);
            assert(migrations[i].version < migrations[migrations.len() - 1].version);
        }
        assert(migrations[migrations.len() - 1] == last);
        if is_applied(rows, last.version) {
            assert(p == pf);
            assert forall|i: int, j: int| 0 <= i < j < b.len() implies (#[trigger] b[i]).version > (
            #[trigger] b[j]).version by {
                if i == 0 {
                    assert(b[j] == bf[j - 1]);
                } else {
                    assert(b[i] == bf[i - 1]);
                    assert(b[j] == bf[j - 1]);
                }
            }
            assert forall|k: int| 0 <= k < b.len() implies is_applied(
                rows,
                (#[trigger] b[k]).version,
            ) && exists|i: int| 0 <= i < migrations.len() && #[trigger] migrations[i] == b[k] by {
                if k > 0 {
                    assert(b[k] == bf[k - 1]);
                }
            }
        } else {
            assert(b == bf);
            assert forall|i: int, j: int| 0 <= i < j < p.len() implies (#[trigger] p[i]).version < (
            #[trigger] p[j]).version by {
                if j == p.len() - 1 {
                    assert(p[i] == pf[i]);
                } else {
                    assert(p[i] == pf[i]);
                    assert(p[j] == pf[j]);
                }
            }
            assert forall|k: int| 0 <= k < p.len() implies !is_applied(
                rows,
                (#[trigger] p[k]).version,
            ) && exists|i: int| 0 <= i < migrations.len() && #[trigger] migrations[i] == p[k] by {
                if k < p.len() - 1 {
                    assert(p[k] == pf[k]);
                }
            }
        }
    }
}

impl View for TrackingTable {
    type V = Seq<MigrationView>;

    closed spec fn view(&self) -> Seq<MigrationView> {
        views(self.rows@)
    }
}

impl TrackingTable {
    /// Whether the table has at most one row for each version.
    pub open spec fn well_formed(&self) -> bool {
        distinct(self@)
    }

    /// An empty table.
    pub fn new() -> (r: Self)
        ensures
            r@ == Seq::<MigrationView>::empty(),
            r.well_formed(),
    {
        let r = TrackingTable { rows: Vec::new() };
        proof {
            assert(r@ =~= Seq::empty());
        }
        r
    }

    /// The table with the given rows. Two rows of one version are an error,
    /// with the version of the first row that repeats one before it.
    pub fn from_rows(rows: Vec<Migration>) -> (r: Result<Self, Error>)
        ensures
            match r {
                Ok(table) => distinct(views(rows@)) && table@ == views(rows@)
                    && table.well_formed(),
                Err(e) => exists|j: int|
                    {
                        &&& 0 <= j < rows@.len()
                        &&& e@ == ErrorView::DuplicateMigration((#[trigger] views(rows@)[j]).version)
                        &&& index_of(views(rows@), views(rows@)[j].version) < j
                        &&& distinct(views(rows@).take(j))
                    },
            },
    {
        let ghost all = views(rows@);
        let mut j: usize = 0;
        while j < rows.len()
            invariant
                j <= rows@.len(),
                all == views(rows@),
                distinct(all.take(j as int)),
            decreases rows@.len() - j,
        {
            let version = rows[j].version();
            proof {
                assert(all[j as int] == rows@[j as int]@);
                lemma_index_of(all, version);
            }
            let mut i: usize = 0;
            while i < j
                invariant
                    i <= j < rows@.len(),
                    all == views(rows@),
                    distinct(all.take(j as int)),
                    version == all[j as int].version,
                    forall|k: int| 0 <= k < i ==> (#[trigger] all[k]).version != version,
                decreases j - i,
            {
                proof {
                    assert(all[i as int] == rows@[i as int]@);
                }
                if rows[i].version() == version {
                    proof {
                        lemma_index_of(all, version);
                        if index_of(all, version) >= j {
                            assert(all[i as int].version != version);
                        }
                        assert(index_of(views(rows@), views(rows@)[j as int].version) < j);
                    }
                    return Err(Error::DuplicateMigration(version));
                }
                i += 1;
            }
            proof {
                let next = all.take(j + 1);
                assert forall|a: int, b: int| 0 <= a < b < next.len() implies (#[trigger] next[a]).version
                    != (#[trigger] next[b]).version by {
                    if b < j {
                        assert(all.take(j as int)[a] == next[a]);
                        assert(all.take(j as int)[b] == next[b]);
                    } else {
                        assert(next[a] == all[a]);
                    }
                }
            }
            j += 1;
        }
        proof {
            assert(all.take(all.len() as int) == all);
        }
        Ok(TrackingTable { rows })
    }

    /// How many rows the table has.
    pub fn len(&self) -> (n: usize)
        ensures
            n == self@.len(),
    {
        self.rows.len()
    }

    /// The row at `index`, counted from zero.
    pub fn get(&self, index: usize) -> (r: Option<&Migration>)
        ensures
            r is Some <==> index < self@.len(),
            r matches Some(row) ==> row@ == self@[index as int],
    {
        if index < self.rows.len() {
            Some(&self.rows[index])
        } else {
            None
        }
    }

    /// The position of the first row of `version`, or the number of rows
    /// where there is none.
    fn find(&self, version: i64) -> (k: usize)
        ensures
            k == index_of(self@, version),
            k <= self@.len(),
    {
        let ghost all = self@;
        let mut i: usize = 0;
        proof {
            assert(all.skip(0) == all);
        }
        while i < self.rows.len()
            invariant
                i <= self.rows@.len(),
                all == self@,
                all.len() == self.rows@.len(),
                index_of(all, version) == i + index_of(all.skip(i as int), version),
            decreases self.rows@.len() - i,
        {
            proof {
                assert(all.skip(i as int)[0] == self.rows@[i as int]@);
                assert(all.skip(i as int).skip(1) == all.skip(i + 1));
            }
            if self.rows[i].version() == version {
                return i;
            }
            i += 1;
        }
        proof {
            assert(all.skip(i as int).len() == 0);
        }
        i
    }

    /// Whether the migration of `version` is applied.
    pub fn is_applied(&self, version: i64) -> (r: bool)
        requires
            self.well_formed(),
        ensures
            r == is_applied(self@, version),
    {
        let k = self.find(version);
        proof {
            lemma_index_of(self@, version);
            if is_applied(self@, version) {
                let i = choose|i: int|
                    0 <= i < self@.len() && (#[trigger] self@[i]).version == version
                        && self@[i].applied_at is Some;
                if i < k {
                } else if i > k {
                    assert(self@[k as int].version != self@[i].version);
                }
            }
        }
        if k < self.rows.len() {
            proof {
                assert(self@[k as int] == self.rows@[k as int]@);
            }
            self.rows[k].is_applied()
        } else {
            false
        }
    }

    /// Records that the migration of `version` was applied at the time
    /// `at`, unless it is recorded as applied already. Tells whether the
    /// table changed.
    pub fn apply(&mut self, version: i64, name: &str, at: i128) -> (changed: bool)
        requires
            old(self).well_formed(),
        ensures
            final(self).well_formed(),
            final(self)@ == with_applied(old(self)@, version, name@, at),
            changed == !is_applied(old(self)@, version),
            is_applied(final(self)@, version),
    {
        proof {
            lemma_applying_twice_is_applying_once(self@, version, name@, at, name@, at);
        }
        if self.is_applied(version) {
            return false;
        }
        let k = self.find(version);
        let ghost before = self@;
        if k < self.rows.len() {
            proof {
                assert(before[k as int] == self.rows@[k as int]@);
            }
            let updated = self.rows[k].clone().with_applied_at(Some(at));
            self.rows.set(k, updated);
            proof {
                assert(self@ =~= with_applied(before, version, name@, at));
            }
        } else {
            self.rows.push(Migration::new(version, name).with_applied_at(Some(at)));
            proof {
                assert(self@ =~= with_applied(before, version, name@, at));
            }
        }
        true
    }

    /// Records that the migration of `version` was rolled back, if it is
    /// recorded as applied. Tells whether the table changed.
    pub fn roll_back(&mut self, version: i64) -> (changed: bool)
        requires
            old(self).well_formed(),
        ensures
            final(self).well_formed(),
            final(self)@ == with_rolled_back(old(self)@, version),
            changed == is_applied(old(self)@, version),
            !is_applied(final(self)@, version),
    {
        if !self.is_applied(version) {
            proof {
                lemma_index_of(self@, version);
            }
            return false;
        }
        let k = self.find(version);
        let ghost before = self@;
        proof {
            lemma_index_of(before, version);
            let i = choose|i: int|
                0 <= i < before.len() && (#[trigger] before[i]).version == version
                    && before[i].applied_at is Some;
            if i > k {
                assert(before[k as int].version != before[i].version);
            }
            assert(before[k as int] == self.rows@[k as int]@);
        }
        let updated = self.rows[k].clone().with_applied_at(None);
        self.rows.set(k, updated);
        proof {
            let after = self@;
            assert(after =~= with_rolled_back(before, version));
            assert forall|i: int, j: int| 0 <= i < j < after.len() implies (#[trigger] after[i]).version
                != (#[trigger] after[j]).version by {
                assert(after[i].version == before[i].version);
                assert(after[j].version == before[j].version);
            }
            if is_applied(after, version) {
                let i = choose|i: int|
                    0 <= i < after.len() && (#[trigger] after[i]).version == version
                        && after[i].applied_at is Some;
                if i < k {
                    assert(before[i].version != before[k as int].version);
                } else if i > k {
                    assert(before[k as int].version != before[i].version);
                }
            }
        }
        true
    }
}

/// The name of the tracking table.
pub open spec fn table_name() -> Seq<char> {
    "rum_migrations"@
}

/// The statement that makes the tracking table, unless it is there: a row
/// has an `id`, a `version` that no other row has, a `name`, and the time
/// `applied_at`, which it may lack.
pub open spec fn create_table_sql() -> Seq<char> {
    "CREATE TABLE IF NOT EXISTS "@ + quoted(table_name()) + " ("@ + quoted("id"@)
        + " BIGSERIAL PRIMARY KEY, "@ + quoted("version"@) + " BIGINT NOT NULL UNIQUE, "@ + quoted(
        "name"@,
    ) + " VARCHAR NOT NULL, "@ + quoted("applied_at"@) + " TIMESTAMPTZ)"@
}

/// The statement that records a migration as applied: it adds the row of
/// the version, or sets the time of the row that is there and has none. A
/// row that has a time keeps it.
pub open spec fn record_applied_sql() -> Seq<char> {
    "INSERT INTO "@ + quoted(table_name()) + " ("@ + quoted("version"@) + ", "@ + quoted("name"@)
        + ", "@ + quoted("applied_at"@) + ") VALUES ("@ + marker(1) + ", "@ + marker(2) + ", "@
        + marker(3) + ") ON CONFLICT ("@ + quoted("version"@) + ") DO UPDATE SET "@ + quoted(
        "applied_at"@,
    ) + " = EXCLUDED."@ + quoted("applied_at"@) + " WHERE "@ + quoted(table_name()) + "."@ + quoted(
        "applied_at"@,
    ) + " IS NULL"@
}

/// The statement that records a migration as rolled back: it takes the
/// time from the row of the version.
pub open spec fn record_rolled_back_sql() -> Seq<char> {
    "UPDATE "@ + quoted(table_name()) + " SET "@ + quoted("applied_at"@) + " = NULL WHERE "@
        + quoted("version"@) + " = "@ + marker(1)
}

impl TrackingTable {
    /// The statement that makes the tracking table, unless it is there.
    pub fn create_statement() -> (r: Prepared)
        ensures
            r.sql@ == create_table_sql(),
            r.values@.len() == 0,
            markers_in(r.sql@) == Seq::<nat>::empty(),
    {
        proof {
            reveal_strlit("CREATE TABLE IF NOT EXISTS ");
            reveal_strlit(" (");
            reveal_strlit(" BIGSERIAL PRIMARY KEY, ");
            reveal_strlit(" BIGINT NOT NULL UNIQUE, ");
            reveal_strlit(" VARCHAR NOT NULL, ");
            reveal_strlit(" TIMESTAMPTZ)");
        }
        let mut builder = StatementBuilder::new();
        builder.word("CREATE TABLE IF NOT EXISTS ");
        builder.identifier("rum_migrations");
        builder.word(" (");
        builder.identifier("id");
        builder.word(" BIGSERIAL PRIMARY KEY, ");
        builder.identifier("version");
        builder.word(" BIGINT NOT NULL UNIQUE, ");
        builder.identifier("name");
        builder.word(" VARCHAR NOT NULL, ");
        builder.identifier("applied_at");
        builder.word(" TIMESTAMPTZ)");
        proof {
            assert(builder@.sql =~= create_table_sql());
            assert(numbered(0) =~= Seq::empty());
        }
        builder.finish()
    }

    /// The statement that records the migration of `version` as applied at
    /// the time `at`, unless the table records it as applied already.
    pub fn apply_statement(version: i64, name: &str, at: i128) -> (r: Prepared)
        ensures
            r.sql@ == record_applied_sql(),
            super::super::value::views(r.values@) == seq![
                ValueView::Integer(version),
                ValueView::Text(name@),
                ValueView::Timestamp(at),
            ],
            markers_in(r.sql@) == numbered(3),
    {
        proof {
            reveal_strlit("INSERT INTO ");
            reveal_strlit(" (");
            reveal_strlit(", ");
            reveal_strlit(") VALUES (");
            reveal_strlit(") ON CONFLICT (");
            reveal_strlit(") DO UPDATE SET ");
            reveal_strlit(" = EXCLUDED.");
            reveal_strlit(" WHERE ");
            reveal_strlit(".");
            reveal_strlit(" IS NULL");
        }
        let mut builder = StatementBuilder::new();
        builder.word("INSERT INTO ");
        builder.identifier("rum_migrations");
        builder.word(" (");
        builder.identifier("version");
        builder.word(", ");
        builder.identifier("name");
        builder.word(", ");
        builder.identifier("applied_at");
        builder.word(") VALUES (");
        builder.bind(Value::Integer(version));
        builder.word(", ");
        builder.bind(Value::Text(String::from_str(name)));
        builder.word(", ");
        builder.bind(Value::Timestamp(at));
        builder.word(") ON CONFLICT (");
        builder.identifier("version");
        builder.word(") DO UPDATE SET ");
        builder.identifier("applied_at");
        builder.word(" = EXCLUDED.");
        builder.identifier("applied_at");
        builder.word(" WHERE ");
        builder.identifier("rum_migrations");
        builder.word(".");
        builder.identifier("applied_at");
        builder.word(" IS NULL");
        proof {
            assert(builder@.sql =~= record_applied_sql());
            assert(builder@.values =~= seq![
                ValueView::Integer(version),
                ValueView::Text(name@),
                ValueView::Timestamp(at),
            ]);
        }
        builder.finish()
    }

    /// The statement that records the migration of `version` as rolled
    /// back.
    pub fn roll_back_statement(version: i64) -> (r: Prepared)
        ensures
            r.sql@ == record_rolled_back_sql(),
            super::super::value::views(r.values@) == seq![ValueView::Integer(version)],
            markers_in(r.sql@) == numbered(1),
    {
        proof {
            reveal_strlit("UPDATE ");
            reveal_strlit(" SET ");
            reveal_strlit(" = NULL WHERE ");
            reveal_strlit(" = ");
        }
        let mut builder = StatementBuilder::new();
        builder.word("UPDATE ");
        builder.identifier("rum_migrations");
        builder.word(" SET ");
        builder.identifier("applied_at");
        builder.word(" = NULL WHERE ");
        builder.identifier("version");
        builder.word(" = ");
        builder.bind(Value::Integer(version));
        proof {
            assert(builder@.sql =~= record_rolled_back_sql());
            assert(builder@.values =~= seq![ValueView::Integer(version)]);
        }
        builder.finish()
    }
}

impl Migrations {
    /// The migrations to apply, in the order in which to apply them: those
    /// that the table does not record as applied, by ascending version.
    pub fn pending(&self, table: &TrackingTable) -> (r: Vec<Migration>)
        requires
            self.well_formed(),
            table.well_formed(),
        ensures
            views(r@) == pending(self@, table@),
            ascending(views(r@)),
    {
        let ghost all = self@;
        let n = self.len();
        let mut out: Vec<Migration> = Vec::new();
        let mut i: usize = 0;
        proof {
            assert(views(out@) =~= pending(all.take(0), table@));
        }
        while i < n
            invariant
                i <= n,
                n == all.len(),
                all == self@,
                table.well_formed(),
                views(out@) == pending(all.take(i as int), table@),
            decreases n - i,
        {
            let migration = self.get(i).unwrap();
            proof {
                assert(all.take(i + 1).drop_last() == all.take(i as int));
                assert(all.take(i + 1).last() == all[i as int]);
            }
            let ghost before = views(out@);
            if !table.is_applied(migration.version()) {
                out.push(migration.clone());
                proof {
                    assert(views(out@) =~= before.push(all[i as int]));
                }
            }
            i += 1;
        }
        proof {
            assert(all.take(n as int) == all);
            lemma_plans_are_ordered(all, table@);
        }
        out
    }

    /// The migrations to roll back, in the order in which to roll them
    /// back: those that the table records as applied, by descending version.
    pub fn to_roll_back(&self, table: &TrackingTable) -> (r: Vec<Migration>)
        requires
            self.well_formed(),
            table.well_formed(),
        ensures
            views(r@) == to_roll_back(self@, table@),
            descending(views(r@)),
    {
        let ghost all = self@;
        let n = self.len();
        let mut out: Vec<Migration> = Vec::new();
        let mut i: usize = n;
        proof {
            assert(all.take(n as int) == all);
            assert(views(out@) + to_roll_back(all, table@) =~= to_roll_back(all, table@));
        }
        while i > 0
            invariant
                i <= n,
                n == all.len(),
                all == self@,
                table.well_formed(),
                to_roll_back(all, table@) == views(out@) + to_roll_back(
                    all.take(i as int),
                    table@,
                ),
            decreases i,
        {
            let migration = self.get(i - 1).unwrap();
            proof {
                assert(all.take(i as int).drop_last() == all.take(i - 1));
                assert(all.take(i as int).last() == all[i - 1]);
            }
            let ghost before = views(out@);
            if table.is_applied(migration.version()) {
                out.push(migration.clone());
                proof {
                    assert(views(out@) =~= before.push(all[i - 1]));
                    assert(to_roll_back(all, table@) =~= views(out@) + to_roll_back(
                        all.take(i - 1),
                        table@,
                    ));
                }
            }
            i -= 1;
        }
        proof {
            assert(to_roll_back(all, table@) =~= views(out@));
            lemma_plans_are_ordered(all, table@);
        }
        out
    }
}

} // verus!
