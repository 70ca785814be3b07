//! Versioned changes to the schema: finding them, ordering them, and
//! keeping track of which ones are applied.
use vstd::prelude::*;
use super::error::{Error, ErrorView};
use crate::text::{
    chars_of, find_in, integer_in, integer_of, is_digit, lemma_numeral_reads_back,
    lemma_position_after, position, same_text, signed_decimal, string_of, texts,
};

pub mod model;
pub mod tracking;

pub use model::Migration;
pub use tracking::TrackingTable;

use model::{down_word, file_name, sql_extension, up_word, MigrationView};

verus! {

/// Whether a migration is applied or rolled back.
#[derive(Debug, Clone, Copy, PartialEq, Eq)]
pub enum Direction {
    Up,
    Down,
}

/// What the name of a file says of the migration that it belongs to.
#[derive(Debug, PartialEq, Eq)]
pub struct MigrationFile {
    pub version: i64,
    pub name: String,
    pub direction: Direction,
}

/// What a [`MigrationFile`] holds.
pub struct FileView {
    pub version: i64,
    pub name: Seq<char>,
    pub direction: Direction,
}

impl View for MigrationFile {
    type V = FileView;

    open spec fn view(&self) -> FileView {
        FileView { version: self.version, name: self.name@, direction: self.direction }
    }
}

/// Whether `s` ends with `suffix`.
pub open spec fn ends_with(s: Seq<char>, suffix: Seq<char>) -> bool {
    s.len() >= suffix.len() && s.skip(s.len() - suffix.len()) == suffix
}

/// How the name of a file ends that applies a migration.
pub open spec fn up_suffix() -> Seq<char> {
    ".up.sql"@
}

/// How the name of a file ends that rolls a migration back.
pub open spec fn down_suffix() -> Seq<char> {
    ".down.sql"@
}

/// What `stem` says, which is the name of a file without its ending: the
/// version before the first underscore, the name after it. The version is an
/// integer and the name is not empty, else `stem` says nothing.
pub open spec fn stem_of(stem: Seq<char>, direction: Direction) -> Option<FileView> {
    let at = position(stem, '_');
    if at + 1 < stem.len() {
        match integer_of(stem.take(at)) {
            Some(version) if i64::MIN <= version <= i64::MAX => Some(
                FileView { version: version as i64, name: stem.skip(at + 1), direction },
            ),
            _ => None,
        }
    } else {
        None
    }
}

/// What the name of a file says: nothing, unless it reads
/// `{version}_{name}.up.sql` or `{version}_{name}.down.sql`.
pub open spec fn file_of(file_name: Seq<char>) -> Option<FileView> {
    if ends_with(file_name, up_suffix()) {
        stem_of(file_name.take(file_name.len() - up_suffix().len()), Direction::Up)
    } else if ends_with(file_name, down_suffix()) {
        stem_of(file_name.take(file_name.len() - down_suffix().len()), Direction::Down)
    } else {
        None
    }
}

/// The name that a migration gives to its file reads back as that
/// migration and direction, whatever its version and whatever its name
/// that is not empty.
pub proof fn lemma_file_name_reads_back(version: i64, name: Seq<char>, direction: Direction)
    requires
        name.len() > 0,
    ensures
        file_of(file_name(version, name, direction)) == Some(FileView { version, name, direction }),
{
    reveal_strlit(".up.sql");
    reveal_strlit(".down.sql");
    reveal_strlit("up");
    reveal_strlit("down");
    reveal_strlit(".sql");
    let numeral = signed_decimal(version as int);
    let stem = numeral + seq!['_'] + name;
    let file = file_name(version, name, direction);
    lemma_numeral_reads_back(version as int);
    assert forall|k: int| 0 <= k < numeral.len() implies (#[trigger] numeral[k]) != '_' by {
        assert(numeral[k] == '-' || is_digit(numeral[k]));
    }
    lemma_position_after(numeral, '_', name);
    assert(stem.take(numeral.len() as int) =~= numeral);
    assert(stem.skip(numeral.len() as int + 1) =~= name);
    assert(stem_of(stem, direction) == Some(FileView { version, name, direction }));
    match direction {
        Direction::Up => {
            assert(file =~= stem + up_suffix());
            assert(file.skip(file.len() - up_suffix().len()) =~= up_suffix());
            assert(file.take(file.len() - up_suffix().len()) =~= stem);
        },
        Direction::Down => {
            assert(file =~= stem + down_suffix());
            assert(file.skip(file.len() - down_suffix().len()) =~= down_suffix());
            assert(file.take(file.len() - down_suffix().len()) =~= stem);
            assert(file.skip(file.len() - up_suffix().len())[0] == 'o');
        },
    }
}

fn has_suffix(chars: &Vec<char>, suffix: &str) -> (r: bool)
    ensures
        r == ends_with(chars@, suffix@),
{
    let n = chars.len();
    let m = suffix.unicode_len();
    if n < m {
        return false;
    }
    let ghost tail = chars@.skip(n - m);
    let mut i: usize = 0;
    while i < m
        invariant
            i <= m,
            m <= n,
            n == chars@.len(),
            m == suffix@.len(),
            tail == chars@.skip(n - m),
            tail.take(i as int) == suffix@.take(i as int),
        decreases m - i,
    {
        if chars[n - m + i] != suffix.get_char(i) {
            proof {
                assert(tail[i as int] != suffix@[i as int]);
            }
            return false;
        }
        proof {
            assert(tail.take(i + 1) == tail.take(i as int).push(tail[i as int]));
            assert(suffix@.take(i + 1) == suffix@.take(i as int).push(suffix@[i as int]));
        }
        i += 1;
    }
    proof {
        assert(tail.take(m as int) == tail);
        assert(suffix@.take(m as int) == suffix@);
    }
    true
}

fn read_stem(chars: &Vec<char>, end: usize, direction: Direction) -> (r: Option<MigrationFile>)
    requires
        end <= chars@.len(),
    ensures
        match stem_of(chars@.take(end as int), direction) {
            Some(file) => r matches Some(read) && read@ == file,
            None => r is None,
        },
{
    let ghost stem = chars@.take(end as int);
    proof {
        assert(stem == chars@.subrange(0, end as int));
    }
    let at = find_in(chars, 0, end, '_');
    if end - at <= 1 {
        return None;
    }
    proof {
        assert(stem.take(at as int) == chars@.subrange(0, at as int));
        assert(stem.skip(at + 1) == chars@.subrange(at + 1, end as int));
    }
    match integer_in(chars, 0, at) {
        Some(version) => Some(
            MigrationFile { version, name: string_of(chars, at + 1, end), direction },
        ),
        None => None,
    }
}

/// Reads the name of a file of a migration. The name of any other file is
/// an error.
pub fn parse_file_name(file_name: &str) -> (r: Result<MigrationFile, Error>)
    ensures
        match file_of(file_name@) {
            Some(file) => r matches Ok(read) && read@ == file,
            None => r matches Err(e) && e@ == ErrorView::MalformedMigration(file_name@),
        },
{
    let chars = chars_of(file_name);
    let n = chars.len();
    let read = if has_suffix(&chars, ".up.sql") {
        let m = ".up.sql".unicode_len();
        read_stem(&chars, n - m, Direction::Up)
    } else if has_suffix(&chars, ".down.sql") {
        let m = ".down.sql".unicode_len();
        read_stem(&chars, n - m, Direction::Down)
    } else {
        None
    };
    match read {
        Some(file) => Ok(file),
        None => Err(Error::MalformedMigration(String::from_str(file_name))),
    }
}

/// The migrations of a project, by ascending version, none of them recorded
/// as applied.
#[derive(Debug)]
pub struct Migrations {
    migrations: Vec<Migration>,
}

/// What the migrations at each position hold.
pub open spec fn views(migrations: Seq<Migration>) -> Seq<MigrationView> {
    Seq::new(migrations.len(), |i: int| migrations[i]@)
}

/// What the names of the files say, where each one says something.
pub open spec fn files_of(file_names: Seq<Seq<char>>) -> Seq<FileView> {
    Seq::new(file_names.len(), |i: int| file_of(file_names[i])->0)
}

/// Whether the name of each file says something.
pub open spec fn all_read(file_names: Seq<Seq<char>>) -> bool {
    forall|i: int| 0 <= i < file_names.len() ==> file_of(#[trigger] file_names[i]) is Some
}

/// Two files conflict that claim one version for migrations of two names.
pub open spec fn conflict(a: FileView, b: FileView) -> bool {
    a.version == b.version && a.name != b.name
}

/// Whether the file at `j` conflicts with a file before it.
pub open spec fn conflicts_before(files: Seq<FileView>, j: int) -> bool {
    exists|i: int| 0 <= i < j && conflict(#[trigger] files[i], files[j])
}

/// Whether no file conflicts with a file before it.
pub open spec fn conflict_free(files: Seq<FileView>) -> bool {
    forall|j: int| 0 <= j < files.len() ==> !#[trigger] conflicts_before(files, j)
}

/// Whether a file claims the version `v`.
pub open spec fn has_version(files: Seq<FileView>, v: int) -> bool {
    exists|i: int| 0 <= i < files.len() && (#[trigger] files[i]).version == v
}

/// Whether the version `v` is missing: no file claims it, but files claim a
/// version below it and a version above it.
pub open spec fn is_gap(files: Seq<FileView>, v: int) -> bool {
    &&& !has_version(files, v)
    &&& exists|i: int| 0 <= i < files.len() && (#[trigger] files[i]).version < v
    &&& exists|j: int| 0 <= j < files.len() && (#[trigger] files[j]).version > v
}

/// Whether a migration of that version and name is among `migrations`.
pub open spec fn holds(migrations: Seq<MigrationView>, version: i64, name: Seq<char>) -> bool {
    exists|k: int|
        0 <= k < migrations.len() && (#[trigger] migrations[k]).version == version
            && migrations[k].name == name
}

/// Whether the versions go up from each migration to the next.
pub open spec fn ascending(migrations: Seq<MigrationView>) -> bool {
    forall|i: int, j: int|
        0 <= i < j < migrations.len() ==> (#[trigger] migrations[i]).version
            < (#[trigger] migrations[j]).version
}

/// Whether the versions go down from each migration to the next.
pub open spec fn descending(migrations: Seq<MigrationView>) -> bool {
    forall|i: int, j: int|
        0 <= i < j < migrations.len() ==> (#[trigger] migrations[i]).version
            > (#[trigger] migrations[j]).version
}

/// Whether each version is one more than the version before it.
pub open spec fn contiguous(migrations: Seq<MigrationView>) -> bool {
    forall|i: int|
        0 <= i < migrations.len() - 1 ==> (#[trigger] migrations[i + 1]).version
            == migrations[i].version + 1
}

/// Whether none of the migrations is recorded.
pub open spec fn unrecorded(migrations: Seq<MigrationView>) -> bool {
    forall|k: int|
        0 <= k < migrations.len() ==> (#[trigger] migrations[k]).id is None
            && migrations[k].applied_at is None
}

/// Whether `migrations` are the migrations that `files` belong to: one for
/// each version and name that a file has, and no other.
pub open spec fn found_in(migrations: Seq<MigrationView>, files: Seq<FileView>) -> bool {
    forall|version: i64, name: Seq<char>| #[trigger]
        holds(migrations, version, name) <==> exists|i: int|
            0 <= i < files.len() && (#[trigger] files[i]).version == version && files[i].name
                == name
}

/// Whether `found` are the migrations of the files called `names`: every
/// name reads as a file of a migration, no two files conflict, no version is
/// missing, and `found` holds one migration for each version and name.
pub open spec fn discovered(names: Seq<Seq<char>>, found: Seq<MigrationView>) -> bool {
    &&& all_read(names)
    &&& conflict_free(files_of(names))
    &&& forall|v: int| !is_gap(files_of(names), v)
    &&& found_in(found, files_of(names))
}

/// Whether `name` is the first of `names` that does not read as a file of a
/// migration.
pub open spec fn first_malformed(names: Seq<Seq<char>>, name: Seq<char>) -> bool {
    exists|k: int|
        {
            &&& 0 <= k < names.len()
            &&& name == #[trigger] names[k]
            &&& file_of(names[k]) is None
            &&& all_read(names.take(k))
        }
}

/// Whether every name reads as a file of a migration, and `version` is the
/// version of the first file that conflicts with a file before it.
pub open spec fn first_duplicate(names: Seq<Seq<char>>, version: i64) -> bool {
    &&& all_read(names)
    &&& exists|j: int|
        {
            &&& 0 <= j < names.len()
            &&& #[trigger] conflicts_before(files_of(names), j)
            &&& files_of(names)[j].version == version
            &&& conflict_free(files_of(names).take(j))
        }
}

/// Whether every name reads as a file of a migration, no two files
/// conflict, and `version` is the lowest version that is missing.
pub open spec fn lowest_missing(names: Seq<Seq<char>>, version: i64) -> bool {
    &&& all_read(names)
    &&& conflict_free(files_of(names))
    &&& is_gap(files_of(names), version as int)
    &&& forall|v: int| is_gap(files_of(names), v) ==> version <= v
}

impl View for Migrations {
    type V = Seq<MigrationView>;

    closed spec fn view(&self) -> Seq<MigrationView> {
        views(self.migrations@)
    }
}

/// Puts the migration that `file` belongs to in its place among
/// `migrations`, unless it is there already. Gives back the version of
/// `file` where a migration of another name has it.
fn place(migrations: &mut Vec<Migration>, file: &MigrationFile) -> (taken: Option<i64>)
    requires
        ascending(views(old(migrations)@)),
        unrecorded(views(old(migrations)@)),
    ensures
        ascending(views(final(migrations)@)),
        unrecorded(views(final(migrations)@)),
        taken is Some <==> exists|k: int|
            0 <= k < old(migrations)@.len() && (#[trigger] views(old(migrations)@)[k]).version
                == file.version && views(old(migrations)@)[k].name != file.name@,
        taken matches Some(version) ==> version == file.version && views(final(migrations)@)
            == views(old(migrations)@),
        taken is None ==> forall|version: i64, name: Seq<char>| #[trigger]
            holds(views(final(migrations)@), version, name) <==> holds(
                views(old(migrations)@),
                version,
                name,
            ) || (version == file.version && name == file.name@),
{
    let ghost before = views(migrations@);
    let mut p: usize = 0;
    while p < migrations.len() && migrations[p].version() < file.version
        invariant
            p <= migrations@.len(),
            migrations@ == old(migrations)@,
            before == views(migrations@),
            forall|k: int| 0 <= k < p ==> (#[trigger] before[k]).version < file.version,
        decreases migrations@.len() - p,
    {
        proof {
            assert(before[p as int] == migrations@[p as int]@);
        }
        p += 1;
    }
    if p < migrations.len() {
        proof {
            assert(before[p as int] == migrations@[p as int]@);
        }
        if migrations[p].version() == file.version {
            if same_text(migrations[p].name(), file.name.as_str()) {
                proof {
                    assert forall|k: int|
                        0 <= k < before.len() && (#[trigger] before[k]).version
                            == file.version implies before[k].name == file.name@ by {
                        if k < p {
                        } else if k > p {
                            assert(before[p as int].version < before[k].version);
                        }
                    }
                    assert(holds(before, file.version, file.name@));
                }
                return None;
            } else {
                return Some(file.version);
            }
        }
    }
    proof {
        assert forall|k: int| p <= k < before.len() implies (#[trigger] before[k]).version
            > file.version by {
            if k > p {
                assert(before[p as int].version < before[k].version);
            }
        }
    }
    let fresh = Migration::new(file.version, file.name.as_str());
    let ghost added = fresh@;
    migrations.insert(p, fresh);
    proof {
        let after = views(migrations@);
        assert(after =~= before.insert(p as int, added));
        assert forall|i: int, j: int| 0 <= i < j < after.len() implies (#[trigger] after[i]).version
            < (#[trigger] after[j]).version by {
            if i < p && j > p {
                assert(after[i] == before[i]);
                assert(after[j] == before[j - 1]);
            } else if i < p && j == p {
                assert(after[i] == before[i]);
            } else if i < p && j < p {
                assert(after[i] == before[i]);
                assert(after[j] == before[j]);
            } else if i == p {
                assert(after[j] == before[j - 1]);
            } else {
                assert(after[i] == before[i - 1]);
                assert(after[j] == before[j - 1]);
            }
        }
        assert forall|k: int| 0 <= k < after.len() implies (#[trigger] after[k]).id is None
            && after[k].applied_at is None by {
            if k < p {
                assert(after[k] == before[k]);
            } else if k > p {
                assert(after[k] == before[k - 1]);
            }
        }
        assert forall|version: i64, name: Seq<char>| #[trigger]
            holds(after, version, name) <==> holds(before, version, name) || (version
                == file.version && name == file.name@) by {
            if holds(after, version, name) {
                let k = choose|k: int|
                    0 <= k < after.len() && (#[trigger] after[k]).version == version
                        && after[k].name == name;
                if k < p {
                    assert(before[k] == after[k]);
                } else if k > p {
                    assert(before[k - 1] == after[k]);
                }
            }
            if holds(before, version, name) {
                let k = choose|k: int|
                    0 <= k < before.len() && (#[trigger] before[k]).version == version
                        && before[k].name == name;
                if k < p {
                    assert(after[k] == before[k]);
                } else {
                    assert(after[k + 1] == before[k]);
                }
            }
            if version == file.version && name == file.name@ {
                assert(after[p as int] == added);
            }
        }
    }
    None
}

/// In migrations whose versions go up by one each time, the version at each
/// position is the first version and the position.
proof fn lemma_contiguous(migrations: Seq<MigrationView>, upto: int)
    requires
        0 <= upto < migrations.len(),
        forall|i: int|
            0 <= i < upto ==> (#[trigger] migrations[i + 1]).version == migrations[i].version + 1,
    ensures
        forall|i: int|
            0 <= i <= upto ==> (#[trigger] migrations[i]).version == migrations[0].version + i,
    decreases upto,
{
    if upto > 0 {
        lemma_contiguous(migrations, upto - 1);
        assert(migrations[(upto - 1) + 1].version == migrations[upto - 1].version + 1);
    }
}

impl Migrations {
    /// Whether the migrations are in order: by ascending version, each
    /// version one more than the one before it, none recorded as applied.
    pub open spec fn well_formed(self) -> bool {
        &&& ascending(self@)
        &&& contiguous(self@)
        &&& unrecorded(self@)
    }

    /// The migrations that the files of the given names belong to, by
    /// ascending version.
    ///
    /// The name of each file must read `{version}_{name}.up.sql` or
    /// `{version}_{name}.down.sql`; the first one that does not is an error.
    /// Then no two files may claim one version for migrations of two names;
    /// the first file that does so with a file before it is an error. Then
    /// the versions may leave out no version between two of them; the lowest
    /// version that is missing is an error.
    pub fn discover(file_names: &Vec<String>) -> (r: Result<Migrations, Error>)
        ensures
            match r {
                Ok(found) => found.well_formed() && discovered(texts(file_names@), found@),
                Err(e) => match e@ {
                    ErrorView::MalformedMigration(name) => first_malformed(
                        texts(file_names@),
                        name,
                    ),
                    ErrorView::DuplicateMigration(version) => first_duplicate(
                        texts(file_names@),
                        version,
                    ),
                    ErrorView::MissingMigration(version) => lowest_missing(
                        texts(file_names@),
                        version,
                    ),
                    _ => false,
                },
            },
    {
        let ghost names = texts(file_names@);
        let ghost all = files_of(names);
        let mut files: Vec<MigrationFile> = Vec::new();
        let mut i: usize = 0;
        while i < file_names.len()
            invariant
                i <= file_names@.len(),
                names == texts(file_names@),
                all == files_of(names),
                files@.len() == i,
                all_read(names.take(i as int)),
                forall|k: int| 0 <= k < i ==> (#[trigger] files@[k])@ == all[k],
            decreases file_names@.len() - i,
        {
            proof {
                assert(names[i as int] == file_names@[i as int]@);
            }
            match parse_file_name(file_names[i].as_str()) {
                Ok(file) => {
                    files.push(file);
                    proof {
                        assert forall|k: int| 0 <= k < i + 1 implies file_of(
                            #[trigger] names.take(i + 1)[k],
                        ) is Some by {
                            if k < i {
                                assert(names.take(i as int)[k] == names[k]);
                            }
                        }
                    }
                },
                Err(e) => {
                    return Err(e);
                },
            }
            i += 1;
        }
        proof {
            assert(names.take(names.len() as int) == names);
        }
        let mut migrations: Vec<Migration> = Vec::new();
        let mut j: usize = 0;
        proof {
            assert(all.take(0) =~= Seq::empty());
        }
        while j < files.len()
            invariant
                j <= files@.len(),
                files@.len() == names.len(),
                names == texts(file_names@),
                all == files_of(names),
                all.len() == names.len(),
                all_read(names),
                forall|k: int| 0 <= k < files@.len() ==> (#[trigger] files@[k])@ == all[k],
                ascending(views(migrations@)),
                unrecorded(views(migrations@)),
                found_in(views(migrations@), all.take(j as int)),
                conflict_free(all.take(j as int)),
            decreases files@.len() - j,
        {
            let ghost before = views(migrations@);
            let ghost file = all[j as int];
            proof {
                assert(files@[j as int]@ == file);
            }
            match place(&mut migrations, &files[j]) {
                Some(version) => {
                    proof {
                        let k = choose|k: int|
                            0 <= k < before.len() && (#[trigger] before[k]).version
                                == file.version && before[k].name != file.name;
                        assert(holds(before, before[k].version, before[k].name));
                        let i = choose|i: int|
                            0 <= i < all.take(j as int).len() && (#[trigger] all.take(
                                j as int,
                            )[i]).version == before[k].version && all.take(j as int)[i].name
                                == before[k].name;
                        assert(all.take(j as int)[i] == all[i]);
                        assert(conflict(all[i], all[j as int]));
                        assert(conflicts_before(all, j as int));
                    }
                    return Err(Error::DuplicateMigration(version));
                },
                None => {
                    proof {
                        let after = views(migrations@);
                        let next = all.take(j + 1);
                        assert forall|version: i64, name: Seq<char>| #[trigger]
                            holds(after, version, name) <==> exists|i: int|
                                0 <= i < next.len() && (#[trigger] next[i]).version == version
                                    && next[i].name == name by {
                            if holds(after, version, name) {
                                if holds(before, version, name) {
                                    let i = choose|i: int|
                                        0 <= i < all.take(j as int).len() && (#[trigger] all.take(
                                            j as int,
                                        )[i]).version == version && all.take(j as int)[i].name
                                            == name;
                                    assert(next[i] == all.take(j as int)[i]);
                                } else {
                                    assert(next[j as int] == file);
                                }
                            }
                            if exists|i: int|
                                0 <= i < next.len() && (#[trigger] next[i]).version == version
                                    && next[i].name == name {
                                let i = choose|i: int|
                                    0 <= i < next.len() && (#[trigger] next[i]).version == version
                                        && next[i].name == name;
                                if i < j {
                                    assert(all.take(j as int)[i] == next[i]);
                                    assert(holds(before, version, name));
                                }
                            }
                        }
                        assert forall|t: int| 0 <= t < next.len() implies !#[trigger] conflicts_before(
                            next,
                            t,
                        ) by {
                            if t < j {
                                assert(!conflicts_before(all.take(j as int), t));
                                if conflicts_before(next, t) {
                                    let i = choose|i: int|
                                        0 <= i < t && conflict(#[trigger] next[i], next[t]);
                                    assert(all.take(j as int)[i] == next[i]);
                                    assert(all.take(j as int)[t] == next[t]);
                                    assert(conflict(
                                        all.take(j as int)[i],
                                        all.take(j as int)[t],
                                    ));
                                }
                            } else {
                                if conflicts_before(next, t) {
                                    let i = choose|i: int|
                                        0 <= i < t && conflict(#[trigger] next[i], next[t]);
                                    assert(all.take(j as int)[i] == next[i]);
                                    assert(all.take(j as int)[i].version == next[i].version);
                                    assert(holds(before, next[i].version, next[i].name));
                                    let k = choose|k: int|
                                        0 <= k < before.len() && (#[trigger] before[k]).version
                                            == next[i].version && before[k].name == next[i].name;
                                    assert(before[k].version == file.version && before[k].name
                                        != file.name);
                                }
                            }
                        }
                    }
                },
            }
            j += 1;
        }
        proof {
            assert(all.take(all.len() as int) == all);
        }
        let ghost found = views(migrations@);
        let mut k: usize = 1;
        while k < migrations.len()
            invariant
                1 <= k,
                found == views(migrations@),
                names == texts(file_names@),
                all == files_of(names),
                all_read(names),
                conflict_free(all),
                ascending(found),
                found_in(found, all),
                k <= found.len() || found.len() == 0,
                forall|i: int|
                    0 <= i < k - 1 ==> (#[trigger] found[i + 1]).version == found[i].version + 1,
            decreases migrations@.len() - k,
        {
            proof {
                assert(found[k as int] == migrations@[k as int]@);
                assert(found[k - 1] == migrations@[k - 1]@);
                assert(found[k - 1].version < found[k as int].version);
            }
            if migrations[k].version() != migrations[k - 1].version() + 1 {
                let missing = migrations[k - 1].version() + 1;
                proof {
                    lemma_contiguous(found, k - 1);
                    assert(holds(found, found[k - 1].version, found[k - 1].name));
                    assert(holds(found, found[k as int].version, found[k as int].name));
                    if has_version(all, missing as int) {
                        let i = choose|i: int|
                            0 <= i < all.len() && (#[trigger] all[i]).version == missing;
                        assert(holds(found, all[i].version, all[i].name));
                        let t = choose|t: int|
                            0 <= t < found.len() && (#[trigger] found[t]).version == all[i].version
                                && found[t].name == all[i].name;
                        if t < k {
                            if t < k - 1 {
                                assert(found[t].version < found[k - 1].version);
                            }
                        } else if t > k {
                            assert(found[k as int].version < found[t].version);
                        }
                    }
                    assert forall|v: int| is_gap(all, v) implies missing <= v by {
                        if v < missing {
                            let i = choose|i: int|
                                0 <= i < all.len() && (#[trigger] all[i]).version < v;
                            assert(holds(found, all[i].version, all[i].name));
                            let t = choose|t: int|
                                0 <= t < found.len() && (#[trigger] found[t]).version
                                    == all[i].version && found[t].name == all[i].name;
                            if t > 0 {
                                assert(found[0].version < found[t].version);
                            }
                            let at = v - found[0].version;
                            assert(0 <= at <= k - 1);
                            assert(found[at].version == v);
                            assert(holds(found, found[at].version, found[at].name));
                            let f = choose|f: int|
                                0 <= f < all.len() && (#[trigger] all[f]).version
                                    == found[at].version && all[f].name == found[at].name;
                            assert(all[f].version == v);
                    assert(has_version(all, v));
                        }
                    }
                }
                return Err(Error::MissingMigration(missing));
            }
            k += 1;
        }
        proof {
            assert(contiguous(found)) by {
                assert forall|i: int| 0 <= i < found.len() - 1 implies (#[trigger] found[i
                    + 1]).version == found[i].version + 1 by {
                    assert(i < k - 1);
                }
            }
            assert forall|v: int| !is_gap(all, v) by {
                if is_gap(all, v) {
                    let i = choose|i: int| 0 <= i < all.len() && (#[trigger] all[i]).version < v;
                    let j = choose|j: int| 0 <= j < all.len() && (#[trigger] all[j]).version > v;
                    assert(holds(found, all[i].version, all[i].name));
                    assert(holds(found, all[j].version, all[j].name));
                    let t = choose|t: int|
                        0 <= t < found.len() && (#[trigger] found[t]).version == all[i].version
                            && found[t].name == all[i].name;
                    let u = choose|u: int|
                        0 <= u < found.len() && (#[trigger] found[u]).version == all[j].version
                            && found[u].name == all[j].name;
                    lemma_contiguous(found, found.len() - 1);
                    let at = v - found[0].version;
                    assert(found[t].version == found[0].version + t);
                    assert(found[u].version == found[0].version + u);
                    assert(0 <= at < found.len());
                    assert(found[at].version == v);
                    assert(holds(found, found[at].version, found[at].name));
                    let f = choose|f: int|
                        0 <= f < all.len() && (#[trigger] all[f]).version == found[at].version
                            && all[f].name == found[at].name;
                    assert(all[f].version == v);
                    assert(has_version(all, v));
                }
            }
        }
        Ok(Migrations { migrations })
    }

    /// How many migrations there are.
    pub fn len(&self) -> (n: usize)
        ensures
            n == self@.len(),
    {
        self.migrations.len()
    }

    /// The migration at `index`, counted from zero from the lowest version.
    pub fn get(&self, index: usize) -> (r: Option<&Migration>)
        ensures
            r is Some <==> index < self@.len(),
            r matches Some(migration) ==> migration@ == self@[index as int],
    {
        if index < self.migrations.len() {
            Some(&self.migrations[index])
        } else {
            None
        }
    }
}

} // verus!
