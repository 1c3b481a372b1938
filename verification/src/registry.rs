//! The migration registry: an ordered list of versioned schema changes. Once a
//! record is in the list it is never edited; a new change is appended with a
//! strictly greater version number, and the runner identifies "already
//! applied" by version alone.

use vstd::prelude::*;
use vstd::string::StringExecFns;
use crate::schema::exhaust_table_def;
use crate::schema::is_exhaust_table_def;
use crate::schema::Statement;

verus! {

/// The direction of a migration; only forward changes are declared here.
#[derive(Clone, Copy, PartialEq, Eq, Structural, Debug)]
pub enum MigrationKind {
    Up,
    Down,
}

/// One versioned schema change.
#[derive(Debug)]
pub struct Migration {
    pub version: u64,
    pub description: String,
    pub statements: Vec<Statement>,
    pub kind: MigrationKind,
}

#[derive(Clone, Copy, PartialEq, Eq, Structural, Debug)]
pub enum RegistryError {
    /// The record's version does not exceed every version already declared.
    NonIncreasingVersion,
    /// The record's description is empty.
    EmptyDescription,
}

/// Versions strictly increase along the list, every version is positive, and
/// every description is non-empty.
pub open spec fn migrations_sorted(migs: Seq<Migration>) -> bool {
    &&& forall|i: int, j: int| 0 <= i < j < migs.len() ==> migs[i].version < migs[j].version
    &&& forall|i: int|
        0 <= i < migs.len() ==> (#[trigger] migs[i].version) >= 1 && migs[i].description@.len() > 0
}

/// The ordered list of declared schema changes.
pub struct Registry {
    pub migrations: Vec<Migration>,
}

impl Registry {
    pub open spec fn wf(self) -> bool {
        migrations_sorted(self.migrations@)
    }

    /// The greatest declared version, zero when nothing is declared.
    pub open spec fn highest_version(self) -> u64 {
        if self.migrations@.len() == 0 {
            0
        } else {
            self.migrations@.last().version
        }
    }

    pub fn new() -> (r: Registry)
        ensures
            r.wf(),
            r.migrations@.len() == 0,
    {
        Registry { migrations: Vec::new() }
    }

    /// Appends a schema change. A record whose version does not exceed every
    /// declared one, or whose description is empty, is a configuration error
    /// and is rejected, leaving the registry as it was.
    pub fn add(&mut self, m: Migration) -> (r: Result<(), RegistryError>)
        requires
            old(self).wf(),
        ensures
            final(self).wf(),
            m.version <= old(self).highest_version() ==> r == Err::<(), RegistryError>(
                RegistryError::NonIncreasingVersion,
            ) && *final(self) == *old(self),
            m.version > old(self).highest_version() && m.description@.len() == 0 ==> r == Err::<
                (),
                RegistryError,
            >(RegistryError::EmptyDescription) && *final(self) == *old(self),
            m.version > old(self).highest_version() && m.description@.len() > 0 ==> r == Ok::<
                (),
                RegistryError,
            >(()) && final(self).migrations@ == old(self).migrations@.push(m),
    {
        let n = self.migrations.len();
        let high: u64 = if n == 0 {
            0
        } else {
            self.migrations[n - 1].version
        };
        if m.version <= high {
            return Err(RegistryError::NonIncreasingVersion);
        }
        if m.description.as_str().is_empty() {
            return Err(RegistryError::EmptyDescription);
        }
        proof {
            assert forall|i: int| 0 <= i < old(self).migrations@.len() implies (
            #[trigger] old(self).migrations@[i].version) <= old(self).highest_version() by {
                if i < old(self).migrations@.len() - 1 {
                    assert(old(self).migrations@[i].version < old(self).migrations@[old(
                        self,
                    ).migrations@.len() - 1].version);
                }
            }
        }
        self.migrations.push(m);
        Ok(())
    }
}

/// The one schema change this application declares: version 1 creates the
/// `exhaust` table.
pub open spec fn is_exhaust_migration(m: Migration) -> bool {
    &&& m.version == 1
    &&& m.description@ == "create_exhaust_table"@
    &&& m.kind == MigrationKind::Up
    &&& m.statements@.len() == 1
    &&& m.statements@[0] matches Statement::CreateTableIfNotExists(d) && is_exhaust_table_def(d)
}

pub open spec fn is_exhaust_registry(reg: Registry) -> bool {
    &&& reg.migrations@.len() == 1
    &&& is_exhaust_migration(reg.migrations@[0])
}

/// Builds the registry of this application's schema history.
pub fn exhaust_registry() -> (reg: Registry)
    ensures
        reg.wf(),
        is_exhaust_registry(reg),
{
    let mut statements: Vec<Statement> = Vec::new();
    statements.push(Statement::CreateTableIfNotExists(exhaust_table_def()));
    let m = Migration {
        version: 1,
        description: String::from_str("create_exhaust_table"),
        statements,
        kind: MigrationKind::Up,
    };
    proof {
        reveal_strlit("create_exhaust_table");
    }
    let mut reg = Registry::new();
    let added = reg.add(m);
    proof {
        assert(added is Ok);
    }
    reg
}

} // verus!
