//! Merging texe's VS Code settings into the project's own: which settings
//! texe writes, which of them are conflicts with the user's values, what
//! the ownership ledger records, and what removing the integration restores.
//! The settings file itself is JSON with comments; what the merge reads of
//! it comes here as plain facts about each setting.
use vstd::prelude::*;
use crate::diagnostics::{join_strings, join_with};
use crate::error::TexeError;
use crate::setup::strings_view;

verus! {

/// What the project's settings hold at the path of one setting texe wants.
#[derive(Debug, Clone, Copy, PartialEq, Eq, Structural)]
pub struct LeafState {
    /// A value is there.
    pub present: bool,
    /// It is already texe's value.
    pub desired: bool,
    /// Whether the ledger records an edit of this path, and then whether
    /// the value there is what texe wrote.
    pub owned: Option<bool>,
    /// The length of the shortest proper prefix of the path that holds
    /// something other than an object, if any.
    pub blocked_at: Option<usize>,
}

/// What the merge does with one setting.
#[derive(Debug, Clone, Copy, PartialEq, Eq, Structural)]
pub enum LeafStep {
    /// Leave it: the value is already texe's.
    Unchanged,
    /// Write texe's value. `conflict` where it replaces a value texe did not
    /// write; `new_edit` where the ledger gains an entry for the path
    /// (otherwise its entry is updated).
    Write { conflict: bool, new_edit: bool },
}

/// A setting already holding texe's value is left alone; any other is
/// written, a conflict where a value is there that texe did not write, and
/// an error where a proper prefix of its path is not an object.
pub open spec fn leaf_step_of(path: Seq<Seq<char>>, s: LeafState) -> Result<LeafStep, Seq<char>> {
    if s.present && s.desired {
        Ok(LeafStep::Unchanged)
    } else {
        match s.blocked_at {
            Some(n) => if 1 <= n < path.len() {
                Err(join_with(path.subrange(0, n as int), " / "@) + " must be an object before texe can merge settings"@)
            } else {
                Ok(
                    LeafStep::Write {
                        conflict: s.present && !(s.owned == Some(true)),
                        new_edit: s.owned is None,
                    },
                )
            },
            None => Ok(LeafStep::Write { conflict: s.present && !(s.owned == Some(true)), new_edit: s.owned is None }),
        }
    }
}

fn joined_prefix(path: &Vec<String>, n: usize, sep: &str) -> (r: String)
    requires
        n <= path.len(),
    ensures
        r@ == join_with(strings_view(path@).subrange(0, n as int), sep@),
{
    let mut parts: Vec<String> = Vec::new();
    let mut i: usize = 0;
    while i < n
        invariant
            i <= n <= path.len(),
            strings_view(parts@) == strings_view(path@).subrange(0, i as int),
        decreases n - i,
    {
        parts.push(String::from_str(path[i].as_str()));
        assert(strings_view(path@).subrange(0, i + 1) =~= strings_view(path@).subrange(0, i as int).push(path@[i as int]@));
        i += 1;
    }
    assert(parts@.map_values(|s: String| s@) =~= strings_view(parts@));
    join_strings(&parts, sep)
}

pub fn leaf_step(path: &Vec<String>, state: LeafState) -> (r: Result<LeafStep, TexeError>)
    ensures
        match leaf_step_of(strings_view(path@), state) {
            Ok(s) => r == Ok::<LeafStep, TexeError>(s),
            Err(m) => r matches Err(TexeError::Build(e)) && e@ == m,
        },
{
    if state.present && state.desired {
        return Ok(LeafStep::Unchanged);
    }
    let write = LeafStep::Write {
        conflict: state.present && !(state.owned == Some(true)),
        new_edit: state.owned.is_none(),
    };
    match state.blocked_at {
        Some(n) => {
            if 1 <= n && n < path.len() {
                let mut m = joined_prefix(path, n, " / ");
                m.append(" must be an object before texe can merge settings");
                Err(TexeError::Build(m))
            } else {
                Ok(write)
            }
        },
        None => Ok(write),
    }
}

/// How a conflicting setting is named: its path, ` / ` between keys.
pub open spec fn conflict_name(path: Seq<Seq<char>>) -> Seq<char> {
    join_with(path, " / "@)
}

pub fn conflict_label(path: &Vec<String>) -> (r: String)
    ensures
        r@ == conflict_name(strings_view(path@)),
{
    let r = joined_prefix(path, path.len(), " / ");
    assert(strings_view(path@).subrange(0, path@.len() as int) =~= strings_view(path@));
    r
}

/// What configuring the project's settings comes to.
#[derive(Debug, Clone, Copy, PartialEq, Eq, Structural)]
pub enum SettingsOutcome {
    Created,
    Replaced,
    Preserved,
}

/// Conflicts stop the merge unless the user accepted replacing them; a
/// file that already reads as proposed is kept; otherwise it is created or
/// replaced.
pub open spec fn settings_outcome_of(
    conflicts: Seq<Seq<char>>,
    replace_conflicts: bool,
    current: Option<Seq<char>>,
    proposed: Seq<char>,
    existed: bool,
) -> Result<SettingsOutcome, Seq<char>> {
    if conflicts.len() > 0 && !replace_conflicts {
        Err(
            "VS Code settings conflict: "@ + join_with(conflicts, ", "@)
                + "; inspect with `texe editor --preview`, then use --replace-conflicts to accept"@,
        )
    } else if current == Some(proposed) {
        Ok(SettingsOutcome::Preserved)
    } else if existed {
        Ok(SettingsOutcome::Replaced)
    } else {
        Ok(SettingsOutcome::Created)
    }
}

pub fn settings_outcome(
    conflicts: &Vec<String>,
    replace_conflicts: bool,
    current: &Option<String>,
    proposed: &str,
    existed: bool,
) -> (r: Result<SettingsOutcome, TexeError>)
    ensures
        match settings_outcome_of(
            strings_view(conflicts@),
            replace_conflicts,
            crate::trace::opt_string_view(*current),
            proposed@,
            existed,
        ) {
            Ok(o) => r == Ok::<SettingsOutcome, TexeError>(o),
            Err(m) => r matches Err(TexeError::Build(e)) && e@ == m,
        },
{
    if conflicts.len() > 0 && !replace_conflicts {
        let mut m = String::from_str("VS Code settings conflict: ");
        assert(conflicts@.map_values(|s: String| s@) =~= strings_view(conflicts@));
        m.append(join_strings(conflicts, ", ").as_str());
        m.append("; inspect with `texe editor --preview`, then use --replace-conflicts to accept");
        return Err(TexeError::Build(m));
    }
    let same = match current {
        Some(c) => crate::text::eq_str(&crate::text::chars_of(c.as_str()), proposed),
        None => false,
    };
    if same {
        Ok(SettingsOutcome::Preserved)
    } else if existed {
        Ok(SettingsOutcome::Replaced)
    } else {
        Ok(SettingsOutcome::Created)
    }
}

/// What removing the integration does with one setting texe wrote.
#[derive(Debug, Clone, Copy, PartialEq, Eq, Structural)]
pub enum SettingRestore {
    /// The user changed it since: keep their value.
    Keep,
    /// Put back the value that was there before texe.
    Before,
    /// There was a `null` there before texe.
    Null,
    /// There was nothing: remove it.
    Remove,
}

/// Only a setting still holding what texe wrote is restored, to what was
/// there before (a recorded absence of a value as `null`), or removed where
/// nothing was.
pub open spec fn restore_of(path_len: nat, still_texes: bool, before_recorded: bool, before_existed: bool) -> SettingRestore {
    if path_len == 0 || !still_texes {
        SettingRestore::Keep
    } else if before_recorded {
        SettingRestore::Before
    } else if before_existed {
        SettingRestore::Null
    } else {
        SettingRestore::Remove
    }
}

pub fn restore_step(path_len: usize, still_texes: bool, before_recorded: bool, before_existed: bool) -> (r: SettingRestore)
    ensures
        r == restore_of(path_len as nat, still_texes, before_recorded, before_existed),
{
    if path_len == 0 || !still_texes {
        SettingRestore::Keep
    } else if before_recorded {
        SettingRestore::Before
    } else if before_existed {
        SettingRestore::Null
    } else {
        SettingRestore::Remove
    }
}

/// An object texe created to hold its settings goes once it is empty,
/// unless the user wrote a comment in it.
pub open spec fn container_removable_of(in_original: bool, empty_object: bool, text: Seq<char>) -> bool {
    !in_original && empty_object && !crate::text::contains(text, "//"@) && !crate::text::contains(text, "/*"@)
}

pub fn container_removable(in_original: bool, empty_object: bool, text: &str) -> (r: bool)
    ensures
        r == container_removable_of(in_original, empty_object, text@),
{
    let t = crate::text::chars_of(text);
    !in_original && empty_object && !crate::text::contains_str(&t, "//") && !crate::text::contains_str(&t, "/*")
}

} // verus!
