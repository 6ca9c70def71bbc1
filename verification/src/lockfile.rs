//! The composite project lock `texe.lock`: the pinned timestamp, the
//! toolchain identity and pqty's package lock, and what restoring the
//! package lock from it does.
use vstd::prelude::*;
use crate::error::TexeError;
use crate::text::{chars_of, eq_str};

verus! {

pub const LOCK_SCHEMA: &'static str = "texe.lock/v1";

pub const LOCK_NAME: &'static str = "texe.lock";

/// The schema the embedded package lock must have.
pub const PACKAGE_LOCK_SCHEMA: &'static str = "pqty.lock/v1";

/// The embedded package lock is pqty's: an object whose `schema` is
/// `pqty.lock/v1`.
pub fn validate_package_lock(packages_schema: &Option<String>) -> (r: Result<(), TexeError>)
    ensures
        (packages_schema matches Some(s) && s@ == PACKAGE_LOCK_SCHEMA@) ==> r is Ok,
        !(packages_schema matches Some(s) && s@ == PACKAGE_LOCK_SCHEMA@) ==> (r matches Err(TexeError::Build(m))
            && m@ == "texe.lock packages must contain a pqty.lock/v1 object"@),
{
    match packages_schema {
        Some(s) => if eq_str(&chars_of(s.as_str()), PACKAGE_LOCK_SCHEMA) {
            return Ok(());
        },
        None => {},
    }
    Err(TexeError::Build(String::from_str("texe.lock packages must contain a pqty.lock/v1 object")))
}

/// What a parsed `texe.lock` says to the restore: its schema, whether its
/// toolchain identity is the resolved one, and the schema of its package
/// lock.
#[derive(Debug, Clone)]
pub struct LockSummary {
    pub schema: String,
    pub toolchain_matches: bool,
    pub packages_schema: Option<String>,
}

/// What restoring the package lock does.
#[derive(Debug, Clone, Copy, PartialEq, Eq, Structural)]
pub enum Restore {
    /// Nothing to restore: there is no project lock yet.
    Nothing,
    /// The project lock belongs to another toolchain: drop the package lock
    /// so that it is resolved again.
    RemovePackageLock,
    /// Write the project lock's packages as the package lock.
    WritePackageLock,
}

/// The outcome of a restore from the project lock at `lock_path` (absent
/// where `lock` is `None`), with `--frozen` or without.
pub open spec fn restore_outcome(lock_path: Seq<char>, lock: Option<LockSummary>, frozen: bool) -> Result<Restore, Seq<char>> {
    match lock {
        None => if frozen {
            Err("--frozen requires an existing "@ + lock_path)
        } else {
            Ok(Restore::Nothing)
        },
        Some(l) => if l.schema@ != LOCK_SCHEMA@ {
            Err("unsupported lock schema "@ + l.schema@ + "; expected texe.lock/v1"@)
        } else if !l.toolchain_matches {
            if frozen {
                Err("texe.lock does not match the resolved toolchain; run `texe build` to update it"@)
            } else {
                Ok(Restore::RemovePackageLock)
            }
        } else if !(l.packages_schema matches Some(s) && s@ == PACKAGE_LOCK_SCHEMA@) {
            Err("texe.lock packages must contain a pqty.lock/v1 object"@)
        } else {
            Ok(Restore::WritePackageLock)
        },
    }
}

pub fn restore_package_lock(lock_path: &str, lock: &Option<LockSummary>, frozen: bool) -> (r: Result<Restore, TexeError>)
    ensures
        match restore_outcome(lock_path@, *lock, frozen) {
            Ok(x) => r == Ok::<Restore, TexeError>(x),
            Err(m) => r matches Err(TexeError::Build(e)) && e@ == m,
        },
{
    let l = match lock {
        None => {
            if frozen {
                let mut m = String::from_str("--frozen requires an existing ");
                m.append(lock_path);
                return Err(TexeError::Build(m));
            }
            return Ok(Restore::Nothing);
        },
        Some(l) => l,
    };
    if !eq_str(&chars_of(l.schema.as_str()), LOCK_SCHEMA) {
        let mut m = String::from_str("unsupported lock schema ");
        m.append(l.schema.as_str());
        m.append("; expected ");
        m.append(LOCK_SCHEMA);
        proof {
            reveal_strlit("; expected ");
            reveal_strlit("texe.lock/v1");
            reveal_strlit("; expected texe.lock/v1");
            assert("; expected "@ + "texe.lock/v1"@ =~= "; expected texe.lock/v1"@);
        }
        assert(m@ =~= "unsupported lock schema "@ + l.schema@ + "; expected texe.lock/v1"@);
        return Err(TexeError::Build(m));
    }
    if !l.toolchain_matches {
        if frozen {
            return Err(
                TexeError::Build(
                    String::from_str("texe.lock does not match the resolved toolchain; run `texe build` to update it"),
                ),
            );
        }
        return Ok(Restore::RemovePackageLock);
    }
    validate_package_lock(&l.packages_schema)?;
    Ok(Restore::WritePackageLock)
}

/// The `generated_with` field texe writes into its locks and states.
pub fn generated_with(version: &str) -> (r: String)
    ensures
        r@ == "texe/"@ + version@,
{
    let mut r = String::from_str("texe/");
    r.append(version);
    r
}

} // verus!
