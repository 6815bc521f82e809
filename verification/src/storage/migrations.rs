//! Which migrations a database needs.

use vstd::prelude::*;

use crate::storage::schema::SCHEMA_VERSION;
use crate::text::lists_text;
use crate::text::texts;

verus! {

/// What to do with the recorded version of the schema.
#[derive(Debug, Clone, Copy, PartialEq, Eq, Structural)]
pub enum VersionWrite {
    Keep,
    Insert(u32),
    Update(u32),
}

/// What a database needs to be up to date.
#[derive(Debug, Clone, Copy, PartialEq, Eq, Structural)]
pub struct MigrationPlan {
    /// Create all tables and indexes that are missing.
    pub init_schema: bool,
    /// Add the metadata columns that the entries table lacks.
    pub ensure_metadata_columns: bool,
    /// Record the version of the schema.
    pub version_write: VersionWrite,
}

/// The plan for a database, given the newest version that it records, where
/// it records one, and whether it has an entries table.
pub open spec fn migration_for(current: Option<u32>, entries_exists: bool) -> MigrationPlan {
    match current {
        None => MigrationPlan {
            init_schema: true,
            ensure_metadata_columns: entries_exists,
            version_write: VersionWrite::Insert(SCHEMA_VERSION),
        },
        Some(version) => if version < 1 {
            MigrationPlan {
                init_schema: true,
                ensure_metadata_columns: entries_exists,
                version_write: VersionWrite::Update(SCHEMA_VERSION),
            }
        } else if version < 2 {
            MigrationPlan {
                init_schema: false,
                ensure_metadata_columns: true,
                version_write: VersionWrite::Update(SCHEMA_VERSION),
            }
        } else {
            MigrationPlan {
                init_schema: false,
                ensure_metadata_columns: false,
                version_write: VersionWrite::Keep,
            }
        },
    }
}

/// Plan the migrations of a database.
///
/// A database without a version, or with one before the first, gets the whole
/// schema. A database with the first version may have been created before the
/// metadata columns were part of it, so those that are missing are added.
pub fn run_migrations(current: Option<u32>, entries_exists: bool) -> (r: MigrationPlan)
    ensures
        r == migration_for(current, entries_exists),
{
    let version: u32 = match current {
        Some(v) => v,
        None => 0,
    };
    if version < 1 {
        let version_write = match current {
            None => VersionWrite::Insert(SCHEMA_VERSION),
            Some(_) => VersionWrite::Update(SCHEMA_VERSION),
        };
        MigrationPlan { init_schema: true, ensure_metadata_columns: entries_exists, version_write }
    } else if version < 2 {
        MigrationPlan {
            init_schema: false,
            ensure_metadata_columns: true,
            version_write: VersionWrite::Update(SCHEMA_VERSION),
        }
    } else {
        MigrationPlan {
            init_schema: false,
            ensure_metadata_columns: false,
            version_write: VersionWrite::Keep,
        }
    }
}

/// The rows of the version table after a plan was carried out.
pub open spec fn versions_after(rows: Seq<u32>, write: VersionWrite) -> Seq<u32> {
    match write {
        VersionWrite::Keep => rows,
        VersionWrite::Insert(v) => rows.push(v),
        VersionWrite::Update(v) => rows.map_values(|row: u32| v),
    }
}

/// The newest of at most one recorded version.
pub open spec fn recorded(rows: Seq<u32>) -> Option<u32> {
    if rows.len() == 0 {
        None
    } else {
        Some(rows[0])
    }
}

/// A database always ends up with exactly one recorded version, the current
/// one unless it was newer; opening it again records nothing new.
pub proof fn law_one_recorded_version(rows: Seq<u32>, first: bool, second: bool)
    requires
        rows.len() <= 1,
    ensures
        ({
            let once = versions_after(rows, migration_for(recorded(rows), first).version_write);
            let twice = versions_after(once, migration_for(recorded(once), second).version_write);
            &&& once.len() == 1
            &&& once[0] == SCHEMA_VERSION || (rows.len() == 1 && rows[0] >= 2 && once[0] == rows[0])
            &&& twice == once
        }),
{
    let once = versions_after(rows, migration_for(recorded(rows), first).version_write);
    let twice = versions_after(once, migration_for(recorded(once), second).version_write);
    assert(twice =~= once);
}

/// The metadata columns of the entries table.
pub open spec fn metadata_columns() -> Seq<Seq<char>> {
    seq!["image_width"@, "image_height"@, "file_count"@, "url_domain"@]
}

/// The statements that add the metadata columns.
pub open spec fn column_statements() -> Seq<Seq<char>> {
    seq![
        "ALTER TABLE entries ADD COLUMN image_width INTEGER"@,
        "ALTER TABLE entries ADD COLUMN image_height INTEGER"@,
        "ALTER TABLE entries ADD COLUMN file_count INTEGER"@,
        "ALTER TABLE entries ADD COLUMN url_domain TEXT"@,
    ]
}

/// The statements for those of the first `n` metadata columns that a table
/// lacks.
pub open spec fn missing_statements(existing: Seq<Seq<char>>, n: int) -> Seq<Seq<char>>
    decreases n,
{
    if n <= 0 {
        Seq::<Seq<char>>::empty()
    } else if existing.contains(metadata_columns()[n - 1]) {
        missing_statements(existing, n - 1)
    } else {
        missing_statements(existing, n - 1).push(column_statements()[n - 1])
    }
}

/// The statements that add the metadata columns which the entries table lacks,
/// given the columns that it has.
pub fn ensure_entries_metadata_columns(existing: &Vec<String>) -> (r: Vec<String>)
    ensures
        texts(r@) == missing_statements(texts(existing@), 4),
{
    let ghost have = texts(existing@);
    let mut out: Vec<String> = Vec::new();
    proof {
        reveal_with_fuel(missing_statements, 5);
    }
    assert(texts(out@) =~= missing_statements(have, 0));
    if !lists_text(existing, "image_width") {
        out.push("ALTER TABLE entries ADD COLUMN image_width INTEGER".to_owned());
    }
    assert(texts(out@) =~= missing_statements(have, 1));
    if !lists_text(existing, "image_height") {
        let ghost before = texts(out@);
        out.push("ALTER TABLE entries ADD COLUMN image_height INTEGER".to_owned());
        assert(texts(out@) =~= before.push(column_statements()[1]));
    }
    assert(texts(out@) =~= missing_statements(have, 2));
    if !lists_text(existing, "file_count") {
        let ghost before = texts(out@);
        out.push("ALTER TABLE entries ADD COLUMN file_count INTEGER".to_owned());
        assert(texts(out@) =~= before.push(column_statements()[2]));
    }
    assert(texts(out@) =~= missing_statements(have, 3));
    if !lists_text(existing, "url_domain") {
        let ghost before = texts(out@);
        out.push("ALTER TABLE entries ADD COLUMN url_domain TEXT".to_owned());
        assert(texts(out@) =~= before.push(column_statements()[3]));
    }
    out
}

} // verus!
