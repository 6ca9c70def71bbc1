//! Watch mode: when a change to the project starts a rebuild, and what the
//! terminal says of each build. Editors often replace a file through
//! several quick writes, so a change must settle (two equal observations in
//! a row) before texe builds, though never for more than eight short
//! waits.
use vstd::prelude::*;
use crate::diagnostics::{join_strings, join_with};
use crate::numbers::{decimal, push_decimal};
use crate::setup::{file_name, strings_view};

verus! {

/// The most short waits a change may take to settle before texe builds
/// anyway.
pub const SETTLE_CHECKS: u8 = 8;

/// Where the watch loop is.
#[derive(Debug, Clone, Copy, PartialEq, Eq, Structural)]
pub enum WatchPhase {
    /// Polling for a change against the snapshot of the last build.
    Waiting,
    /// A change was seen and has not yet settled after this many short waits.
    Settling(u8),
}

/// The watch loop's state: its phase and the number of the last build.
#[derive(Debug, Clone, Copy, PartialEq, Eq, Structural)]
pub struct WatchState {
    pub phase: WatchPhase,
    pub build_number: u64,
}

/// What the last wait found: an interrupt, or a project that did or did
/// not differ from the snapshot it was compared with (the last build's
/// while waiting, the previous observation while settling).
#[derive(Debug, Clone, Copy, PartialEq, Eq, Structural)]
pub enum WatchEvent {
    Interrupted,
    Unchanged,
    Changed,
}

/// What the watch loop does next.
#[derive(Debug, Clone, Copy, PartialEq, Eq, Structural)]
pub enum WatchAction {
    /// Stop watching.
    Stop,
    /// Wait one poll interval, then compare with the last build's snapshot.
    Poll,
    /// Wait briefly, then compare with the previous observation.
    Settle,
    /// Build again, under this number.
    Build(u64),
}

/// A watch starts with its initial build, number one.
pub fn watch_start() -> (r: WatchState)
    ensures
        r == (WatchState { phase: WatchPhase::Waiting, build_number: 1 }),
{
    WatchState { phase: WatchPhase::Waiting, build_number: 1 }
}

/// The phase of a well-formed watch: a settling change has had fewer than
/// `SETTLE_CHECKS` waits.
pub open spec fn watch_wf(s: WatchState) -> bool {
    match s.phase {
        WatchPhase::Waiting => true,
        WatchPhase::Settling(k) => k < SETTLE_CHECKS,
    }
}

/// The next state and action of the watch loop.
pub open spec fn watch_transition(s: WatchState, e: WatchEvent) -> (WatchState, WatchAction) {
    let rebuilt = WatchState { phase: WatchPhase::Waiting, build_number: (s.build_number + 1) as u64 };
    match e {
        WatchEvent::Interrupted => (s, WatchAction::Stop),
        WatchEvent::Unchanged => match s.phase {
            WatchPhase::Waiting => (s, WatchAction::Poll),
            WatchPhase::Settling(_) => (rebuilt, WatchAction::Build(rebuilt.build_number)),
        },
        WatchEvent::Changed => match s.phase {
            WatchPhase::Waiting => (WatchState { phase: WatchPhase::Settling(0), build_number: s.build_number }, WatchAction::Settle),
            WatchPhase::Settling(k) => if k + 1 < SETTLE_CHECKS {
                (WatchState { phase: WatchPhase::Settling((k + 1) as u8), build_number: s.build_number }, WatchAction::Settle)
            } else {
                (rebuilt, WatchAction::Build(rebuilt.build_number))
            },
        },
    }
}

pub fn watch_step(s: WatchState, e: WatchEvent) -> (r: (WatchState, WatchAction))
    requires
        watch_wf(s),
        s.build_number < u64::MAX,
    ensures
        r == watch_transition(s, e),
        watch_wf(r.0),
{
    let rebuilt = WatchState { phase: WatchPhase::Waiting, build_number: s.build_number + 1 };
    match e {
        WatchEvent::Interrupted => (s, WatchAction::Stop),
        WatchEvent::Unchanged => match s.phase {
            WatchPhase::Waiting => (s, WatchAction::Poll),
            WatchPhase::Settling(_) => (rebuilt, WatchAction::Build(rebuilt.build_number)),
        },
        WatchEvent::Changed => match s.phase {
            WatchPhase::Waiting => (WatchState { phase: WatchPhase::Settling(0), build_number: s.build_number }, WatchAction::Settle),
            WatchPhase::Settling(k) => if k + 1 < SETTLE_CHECKS {
                (WatchState { phase: WatchPhase::Settling(k + 1), build_number: s.build_number }, WatchAction::Settle)
            } else {
                (rebuilt, WatchAction::Build(rebuilt.build_number))
            },
        },
    }
}

/// How the terminal announces a watch build: the initial build, or the
/// first three changed paths and how many more changed.
pub open spec fn watch_build_text(number: u64, changes: Seq<Seq<char>>) -> Seq<char> {
    let head = "["@ + decimal(number as nat) + "] "@;
    if changes.len() == 0 {
        head + "Initial build"@
    } else {
        let shown = if changes.len() > 3 {
            changes.subrange(0, 3)
        } else {
            changes
        };
        let more = if changes.len() > 3 {
            " and "@ + decimal((changes.len() - 3) as nat) + " more"@
        } else {
            Seq::empty()
        };
        head + join_with(shown, ", "@) + " changed"@ + more
    }
}

pub fn watch_build_message(number: u64, changes: &Vec<String>) -> (r: String)
    ensures
        r@ == watch_build_text(number, strings_view(changes@)),
{
    let mut r = String::from_str("[");
    push_decimal(&mut r, number);
    r.append("] ");
    if changes.len() == 0 {
        r.append("Initial build");
        return r;
    }
    let shown_count = if changes.len() > 3 { 3 } else { changes.len() };
    let mut shown: Vec<String> = Vec::new();
    let mut i: usize = 0;
    while i < shown_count
        invariant
            i <= shown_count <= changes.len(),
            strings_view(shown@) == strings_view(changes@).subrange(0, i as int),
        decreases shown_count - i,
    {
        shown.push(String::from_str(changes[i].as_str()));
        assert(strings_view(changes@).subrange(0, i + 1) =~= strings_view(changes@).subrange(0, i as int).push(changes@[i as int]@));
        i += 1;
    }
    assert(shown@.map_values(|s: String| s@) =~= strings_view(shown@));
    assert(strings_view(changes@).subrange(0, changes@.len() as int) =~= strings_view(changes@));
    r.append(join_strings(&shown, ", ").as_str());
    r.append(" changed");
    if changes.len() > 3 {
        r.append(" and ");
        push_decimal(&mut r, (changes.len() - 3) as u64);
        r.append(" more");
    } else {
        assert(r@ + Seq::<char>::empty() =~= r@);
    }
    r
}

/// What the terminal says after a failed watch build: whether the last
/// published PDF is still there, by its file name.
pub open spec fn watch_failure_text(number: u64, pdf: Seq<char>, previous_exists: bool) -> Seq<char> {
    let head = "["@ + decimal(number as nat) + "] "@;
    if previous_exists {
        head + "Previous "@ + match file_name(pdf) {
            Some(n) => n,
            None => "PDF"@,
        } + " kept; still watching"@
    } else {
        head + "No PDF yet; still watching"@
    }
}

pub fn watch_failure_message(number: u64, pdf: &str, previous_exists: bool) -> (r: String)
    ensures
        r@ == watch_failure_text(number, pdf@, previous_exists),
{
    let mut r = String::from_str("[");
    push_decimal(&mut r, number);
    r.append("] ");
    if previous_exists {
        r.append("Previous ");
        match crate::setup::file_name_of(pdf) {
            Some(n) => r.append(crate::text::owned(&n).as_str()),
            None => r.append("PDF"),
        }
        r.append(" kept; still watching");
    } else {
        r.append("No PDF yet; still watching");
    }
    r
}

} // verus!
