//! Versioned save data and its migration to the current schema.

use serde_json::Value;
use std::collections::HashMap;
use vstd::prelude::*;

verus! {

/// A JSON value of `serde_json`; carried, not inspected.
#[verifier::external_type_specification]
#[verifier::external_body]
pub struct ExValue(Value);

#[derive(Debug)]
pub enum Error {
    SerdeJson(serde_json::Error),
    MigrationError(MigrationError),
    SchemaVersionMismatch { expected: i32, actual: i32 },
}

#[derive(Debug, Clone, Copy, PartialEq, Eq, Structural)]
pub enum MigrationError {
    NoVersionIncrease { from: i32, to: i32 },
}

/// Save data as read from JSON: its schema version and its other fields.
#[derive(Debug)]
pub struct VersionedData {
    pub schema_version: i32,
    pub data: HashMap<String, Value>,
}

/// A save-data type that knows its current schema version and how to bring
/// older data one or more versions forward.
pub trait Migrate {
    const CURRENT_SCHEMA_VERSION: i32;

    /// Brings the data to a later schema version. Types that have only one
    /// schema version keep the default, which hands the data back unchanged.
    fn migrate(data: VersionedData) -> (r: Result<VersionedData, MigrationError>)
        default_ensures
            r == Ok::<VersionedData, MigrationError>(data),
    {
        Ok(data)
    }
}

/// Accepts the result of one migration step from `version` only if it raised
/// the version.
pub fn check_migration_step(version: i32, migrated: VersionedData) -> (r: Result<VersionedData, MigrationError>)
    ensures
        migrated.schema_version > version ==> r == Ok::<VersionedData, MigrationError>(migrated),
        migrated.schema_version <= version ==> r == Err::<VersionedData, MigrationError>(
            MigrationError::NoVersionIncrease { from: version, to: migrated.schema_version },
        ),
{
    if migrated.schema_version <= version {
        return Err(MigrationError::NoVersionIncrease { from: version, to: migrated.schema_version });
    }
    Ok(migrated)
}

/// What the `j`-th migration step of a run from `data` is handed: `data`
/// itself first, then the result of the step before.
pub open spec fn step_input(
    data: VersionedData,
    results: Seq<Result<VersionedData, MigrationError>>,
    j: int,
) -> VersionedData {
    if j == 0 {
        data
    } else {
        results[j - 1]->Ok_0
    }
}

/// `results` are the results of the migration steps from `data`, in order:
/// each step hands its input, whose version is older than the current one, to
/// `M::migrate`, and every step but the last returned data of a later version.
pub open spec fn migration_steps<M: Migrate>(
    data: VersionedData,
    results: Seq<Result<VersionedData, MigrationError>>,
) -> bool {
    forall|j: int|
        #![trigger results[j]]
        0 <= j < results.len() ==> {
            &&& step_input(data, results, j).schema_version < M::CURRENT_SCHEMA_VERSION
            &&& call_ensures(M::migrate, (step_input(data, results, j),), results[j])
            &&& j < results.len() - 1 ==> (results[j] matches Ok(m) && m.schema_version
                > step_input(data, results, j).schema_version)
        }
}

/// The result for data that has reached or passed the current version.
pub open spec fn version_check<M: Migrate>(d: VersionedData) -> Result<VersionedData, Error> {
    if d.schema_version == M::CURRENT_SCHEMA_VERSION {
        Ok(d)
    } else {
        Err(
            Error::SchemaVersionMismatch {
                expected: M::CURRENT_SCHEMA_VERSION,
                actual: d.schema_version,
            },
        )
    }
}

/// The outcome of a finished run of migration steps from `data`: with no step,
/// the check of `data`'s version; otherwise, by the last step, its error, a
/// `NoVersionIncrease` where it did not raise the version, or the check of
/// the version it reached. The run is finished when no step was needed, or
/// the last step failed, did not raise the version, or reached the current
/// version or beyond.
pub open spec fn migration_outcome<M: Migrate>(
    data: VersionedData,
    results: Seq<Result<VersionedData, MigrationError>>,
) -> Option<Result<VersionedData, Error>> {
    if results.len() == 0 {
        if data.schema_version >= M::CURRENT_SCHEMA_VERSION {
            Some(version_check::<M>(data))
        } else {
            None
        }
    } else {
        let from = step_input(data, results, results.len() - 1).schema_version;
        match results.last() {
            Err(e) => Some(Err(Error::MigrationError(e))),
            Ok(m) => if m.schema_version <= from {
                Some(
                    Err(
                        Error::MigrationError(
                            MigrationError::NoVersionIncrease { from, to: m.schema_version },
                        ),
                    ),
                )
            } else if m.schema_version >= M::CURRENT_SCHEMA_VERSION {
                Some(version_check::<M>(m))
            } else {
                None
            },
        }
    }
}

/// Migrates `data` until it has the current schema version of `M`: while the
/// version is older, the data is handed to `M::migrate` and its result taken
/// on, and each step must raise the version. Data newer than the current
/// version, or a step that overshoots it, is refused.
pub fn migrate_to_current<M: Migrate>(data: VersionedData) -> (r: Result<VersionedData, Error>)
    ensures
        exists|results: Seq<Result<VersionedData, MigrationError>>|
            migration_steps::<M>(data, results) && #[trigger] migration_outcome::<M>(data, results)
                == Some(r),
        r matches Ok(d) ==> d.schema_version == M::CURRENT_SCHEMA_VERSION,
        data.schema_version == M::CURRENT_SCHEMA_VERSION ==> r == Ok::<VersionedData, Error>(data),
        data.schema_version > M::CURRENT_SCHEMA_VERSION ==> (r matches Err(
            Error::SchemaVersionMismatch { expected, actual },
        ) && expected == M::CURRENT_SCHEMA_VERSION && actual == data.schema_version),
        r matches Err(Error::SchemaVersionMismatch { expected, actual }) ==> expected
            == M::CURRENT_SCHEMA_VERSION && actual > M::CURRENT_SCHEMA_VERSION,
        !(r matches Err(Error::SerdeJson(_))),
{
    let ghost start = data;
    let ghost mut results: Seq<Result<VersionedData, MigrationError>> = Seq::empty();
    let mut d = data;
    let step = M::migrate;
    while d.schema_version < M::CURRENT_SCHEMA_VERSION
        invariant
            start == data,
            migration_steps::<M>(start, results),
            results.len() == 0 ==> d == start,
            results.len() > 0 ==> results.last() == Ok::<VersionedData, MigrationError>(d) && d.schema_version
                > step_input(start, results, results.len() - 1).schema_version,
            start.schema_version <= d.schema_version,
            start.schema_version >= M::CURRENT_SCHEMA_VERSION ==> d == start,
        decreases if d.schema_version < M::CURRENT_SCHEMA_VERSION {
            M::CURRENT_SCHEMA_VERSION - d.schema_version
        } else {
            0
        },
    {
        let version = d.schema_version;
        let ghost input = d;
        let res = step(d);
        proof {
            let old_results = results;
            results = results.push(res);
            assert(step_input(start, results, results.len() - 1) == input);
            assert forall|j: int| 0 <= j < results.len() implies {
                &&& #[trigger] step_input(start, results, j).schema_version < M::CURRENT_SCHEMA_VERSION
                &&& call_ensures(M::migrate, (step_input(start, results, j),), results[j])
                &&& j < results.len() - 1 ==> (results[j] matches Ok(m) && m.schema_version
                    > step_input(start, results, j).schema_version)
            } by {
                if j < results.len() - 1 {
                    assert(results[j] == old_results[j]);
                    assert(step_input(start, results, j) == step_input(start, old_results, j));
                }
            }
        }
        let migrated = match res {
            Ok(m) => m,
            Err(e) => {
                assert(migration_outcome::<M>(start, results) == Some(
                    Err::<VersionedData, Error>(Error::MigrationError(e)),
                ));
                return Err(Error::MigrationError(e));
            },
        };
        d = match check_migration_step(version, migrated) {
            Ok(m) => m,
            Err(e) => {
                assert(migration_outcome::<M>(start, results) == Some(
                    Err::<VersionedData, Error>(Error::MigrationError(e)),
                ));
                return Err(Error::MigrationError(e));
            },
        };
    }
    if d.schema_version != M::CURRENT_SCHEMA_VERSION {
        let r = Err(
            Error::SchemaVersionMismatch {
                expected: M::CURRENT_SCHEMA_VERSION,
                actual: d.schema_version,
            },
        );
        assert(migration_outcome::<M>(start, results) == Some(r));
        return r;
    }
    assert(migration_outcome::<M>(start, results) == Some(Ok::<VersionedData, Error>(d)));
    Ok(d)
}

} // verus!
