//! Human build progress: the stages a build reports, durations and sizes
//! as the terminal shows them, and when a timing estimate is worth showing.
use vstd::prelude::*;
use crate::numbers::{decimal, push_decimal};
use crate::text::{chars_of, push_char, starts_with_str};

verus! {

/// The internal phases of a build.
#[derive(Debug, Clone, Copy, PartialEq, Eq, Structural)]
pub enum PhaseKind {
    Toolchain,
    Package,
    Format,
    EngineDiscovery,
    EngineFinal,
    Bibliography,
    Index,
}

pub open spec fn phase_key(kind: PhaseKind) -> Seq<char> {
    match kind {
        PhaseKind::Toolchain => "toolchain"@,
        PhaseKind::Package => "packages"@,
        PhaseKind::Format => "format"@,
        PhaseKind::EngineDiscovery => "engine-discovery"@,
        PhaseKind::EngineFinal => "engine-final"@,
        PhaseKind::Bibliography => "bibliography"@,
        PhaseKind::Index => "index"@,
    }
}

impl PhaseKind {
    /// The key under which timing history records this phase.
    pub fn key(self) -> (r: &'static str)
        ensures
            r@ == phase_key(self),
    {
        match self {
            PhaseKind::Toolchain => "toolchain",
            PhaseKind::Package => "packages",
            PhaseKind::Format => "format",
            PhaseKind::EngineDiscovery => "engine-discovery",
            PhaseKind::EngineFinal => "engine-final",
            PhaseKind::Bibliography => "bibliography",
            PhaseKind::Index => "index",
        }
    }

    pub fn is_engine(self) -> (r: bool)
        ensures
            r == (self == PhaseKind::EngineDiscovery || self == PhaseKind::EngineFinal),
    {
        match self {
            PhaseKind::EngineDiscovery | PhaseKind::EngineFinal => true,
            _ => false,
        }
    }
}

/// The stages an author sees: internal phases collapse into these four.
#[derive(Debug, Clone, Copy, PartialEq, Eq, Structural)]
pub enum LiveStage {
    Toolchain,
    Packages,
    Requirements,
    Pdf,
}

/// The stage a phase belongs to. Package and format work that follows the
/// first engine pass stays in the stage already shown.
pub open spec fn stage_of(kind: PhaseKind, current: Option<LiveStage>) -> LiveStage {
    match kind {
        PhaseKind::Toolchain => LiveStage::Toolchain,
        PhaseKind::Package | PhaseKind::Format => match current {
            Some(LiveStage::Requirements) => LiveStage::Requirements,
            Some(LiveStage::Pdf) => LiveStage::Pdf,
            _ => LiveStage::Packages,
        },
        PhaseKind::EngineDiscovery => LiveStage::Requirements,
        PhaseKind::EngineFinal | PhaseKind::Bibliography | PhaseKind::Index => LiveStage::Pdf,
    }
}

pub open spec fn completed_text(stage: LiveStage) -> Seq<char> {
    match stage {
        LiveStage::Toolchain => "Prepared LaTeX environment"@,
        LiveStage::Packages => "Prepared required packages"@,
        LiveStage::Requirements => "Checked document requirements"@,
        LiveStage::Pdf => "Built PDF"@,
    }
}

impl LiveStage {
    pub fn from_phase(kind: PhaseKind, current: Option<LiveStage>) -> (r: LiveStage)
        ensures
            r == stage_of(kind, current),
    {
        match kind {
            PhaseKind::Toolchain => LiveStage::Toolchain,
            PhaseKind::Package | PhaseKind::Format => match current {
                Some(LiveStage::Requirements) => LiveStage::Requirements,
                Some(LiveStage::Pdf) => LiveStage::Pdf,
                _ => LiveStage::Packages,
            },
            PhaseKind::EngineDiscovery => LiveStage::Requirements,
            PhaseKind::EngineFinal | PhaseKind::Bibliography | PhaseKind::Index => LiveStage::Pdf,
        }
    }

    /// The line that reports a finished stage.
    pub fn completed(self) -> (r: &'static str)
        ensures
            r@ == completed_text(self),
    {
        match self {
            LiveStage::Toolchain => "Prepared LaTeX environment",
            LiveStage::Packages => "Prepared required packages",
            LiveStage::Requirements => "Checked document requirements",
            LiveStage::Pdf => "Built PDF",
        }
    }
}

/// `s` without every leading `frozen `.
pub open spec fn strip_frozen(s: Seq<char>) -> Seq<char>
    decreases s.len(),
{
    if s.len() >= 7 && s.subrange(0, 7) == "frozen "@ {
        strip_frozen(s.subrange(7, s.len() as int))
    } else {
        s
    }
}

/// The line that announces a stage as it starts (or, for the PDF stage,
/// as its work changes).
pub open spec fn active_text(stage: LiveStage, kind: PhaseKind, detail: Seq<char>) -> Seq<char> {
    match stage {
        LiveStage::Toolchain => "Preparing LaTeX environment"@,
        LiveStage::Packages => "Preparing required packages"@,
        LiveStage::Requirements => "Checking document requirements"@,
        LiveStage::Pdf => if kind == PhaseKind::EngineFinal && detail.len() > 0 {
            "Building PDF · "@ + strip_frozen(detail)
        } else if kind == PhaseKind::Bibliography {
            "Building bibliography"@
        } else if kind == PhaseKind::Index {
            "Building index"@
        } else {
            "Building PDF"@
        },
    }
}

fn strip_frozen_of(s: &Vec<char>) -> (r: Vec<char>)
    ensures
        r@ == strip_frozen(s@),
{
    proof {
        reveal_strlit("frozen ");
    }
    let mut a: usize = 0;
    assert(s@.subrange(0, s@.len() as int) == s@);
    loop
        invariant
            a <= s.len(),
            strip_frozen(s@) == strip_frozen(s@.subrange(a as int, s.len() as int)),
        decreases s.len() - a,
    {
        let rest = crate::text::slice_of(s, a, s.len());
        if starts_with_str(&rest, "frozen ") {
            proof {
                reveal_strlit("frozen ");
                assert(rest@.subrange(7, rest@.len() as int) == s@.subrange(a + 7, s.len() as int));
            }
            a = a + 7;
        } else {
            return rest;
        }
    }
}

pub fn active_stage_message(stage: LiveStage, kind: PhaseKind, detail: &str) -> (r: String)
    ensures
        r@ == active_text(stage, kind, detail@),
{
    match stage {
        LiveStage::Toolchain => String::from_str("Preparing LaTeX environment"),
        LiveStage::Packages => String::from_str("Preparing required packages"),
        LiveStage::Requirements => String::from_str("Checking document requirements"),
        LiveStage::Pdf => {
            let d = chars_of(detail);
            if kind == PhaseKind::EngineFinal && d.len() > 0 {
                let mut r = String::from_str("Building PDF · ");
                crate::text::push_all(&mut r, &strip_frozen_of(&d));
                r
            } else if kind == PhaseKind::Bibliography {
                String::from_str("Building bibliography")
            } else if kind == PhaseKind::Index {
                String::from_str("Building index")
            } else {
                String::from_str("Building PDF")
            }
        },
    }
}

/// Progress for a terminal that is not interactive: one line per stage.
#[derive(Debug, Clone, Copy)]
pub struct PlainProgress {
    pub stage: Option<LiveStage>,
}

impl Default for PlainProgress {
    fn default() -> (r: Self)
        ensures
            r.stage is None,
    {
        PlainProgress { stage: None }
    }
}

pub open spec fn lines_view(v: Seq<String>) -> Seq<Seq<char>> {
    v.map_values(|s: String| s@)
}

impl PlainProgress {
    /// Reports a phase: when it opens a new stage, the previous stage's
    /// completion and the new stage's start; otherwise nothing.
    pub fn update(&mut self, kind: PhaseKind) -> (r: Vec<String>)
        ensures
            final(self).stage == Some(stage_of(kind, old(self).stage)),
            old(self).stage == Some(stage_of(kind, old(self).stage)) ==> r@.len() == 0,
            old(self).stage != Some(stage_of(kind, old(self).stage)) ==> lines_view(r@) == match old(self).stage {
                Some(previous) => seq![completed_text(previous), active_text(stage_of(kind, old(self).stage), kind, Seq::empty())],
                None => seq![active_text(stage_of(kind, old(self).stage), kind, Seq::empty())],
            },
    {
        let stage = LiveStage::from_phase(kind, self.stage);
        if self.stage == Some(stage) {
            return Vec::new();
        }
        let mut messages: Vec<String> = Vec::new();
        if let Some(previous) = self.stage {
            messages.push(String::from_str(previous.completed()));
        }
        proof {
            reveal_strlit("");
        }
        messages.push(active_stage_message(stage, kind, ""));
        self.stage = Some(stage);
        proof {
            assert(""@ =~= Seq::<char>::empty());
            assert(lines_view(messages@) =~= match old(self).stage {
                Some(previous) => seq![completed_text(previous), active_text(stage, kind, Seq::empty())],
                None => seq![active_text(stage, kind, Seq::empty())],
            });
        }
        messages
    }

    /// Finishes the build: the current stage's completion, if any.
    pub fn complete(&mut self) -> (r: Vec<String>)
        ensures
            final(self).stage is None,
            lines_view(r@) == match old(self).stage {
                Some(stage) => seq![completed_text(stage)],
                None => Seq::empty(),
            },
    {
        let mut messages: Vec<String> = Vec::new();
        if let Some(stage) = self.stage {
            messages.push(String::from_str(stage.completed()));
        }
        self.stage = None;
        assert(lines_view(messages@) =~= match old(self).stage {
            Some(stage) => seq![completed_text(stage)],
            None => Seq::<Seq<char>>::empty(),
        });
        messages
    }

    /// Stops the build.
    pub fn fail(&mut self) -> (r: Vec<String>)
        ensures
            final(self).stage is None,
            lines_view(r@) == seq!["Build stopped"@],
    {
        self.stage = None;
        let v = vec![String::from_str("Build stopped")];
        assert(lines_view(v@) =~= seq!["Build stopped"@]);
        v
    }
}

/// Two digits, zero-padded.
pub open spec fn two_digits(n: nat) -> Seq<char> {
    if n < 10 {
        seq!['0'] + decimal(n)
    } else {
        decimal(n)
    }
}

/// A duration of whole seconds as the terminal shows it: seconds under a
/// minute, minutes and seconds under an hour, else hours and minutes.
pub open spec fn seconds_text(seconds: nat) -> Seq<char> {
    if seconds == 0 {
        "<1s"@
    } else if seconds < 60 {
        decimal(seconds) + "s"@
    } else if seconds / 60 < 60 {
        decimal(seconds / 60) + "m "@ + two_digits(seconds % 60) + "s"@
    } else {
        decimal(seconds / 3600) + "h "@ + two_digits((seconds / 60) % 60) + "m"@
    }
}

/// A duration given in milliseconds, counted in whole seconds.
pub open spec fn duration_text(millis: nat) -> Seq<char> {
    seconds_text(millis / 1000)
}

fn push_two_digits(s: &mut String, n: u64)
    ensures
        final(s)@ == old(s)@ + two_digits(n as nat),
{
    if n < 10 {
        push_char(s, '0');
    }
    push_decimal(s, n);
}

/// A duration of whole seconds as the terminal shows it.
pub fn format_seconds(seconds: u64) -> (r: String)
    ensures
        r@ == seconds_text(seconds as nat),
{
    if seconds == 0 {
        return String::from_str("<1s");
    }
    let mut r = String::new();
    if seconds < 60 {
        push_decimal(&mut r, seconds);
        r.append("s");
        return r;
    }
    let minutes = seconds / 60;
    if minutes < 60 {
        push_decimal(&mut r, minutes);
        r.append("m ");
        push_two_digits(&mut r, seconds % 60);
        r.append("s");
        return r;
    }
    assert(minutes / 60 == seconds / 3600) by (nonlinear_arith)
        requires
            minutes == seconds / 60,
    ;
    push_decimal(&mut r, minutes / 60);
    r.append("h ");
    push_two_digits(&mut r, minutes % 60);
    r.append("m");
    r
}

/// A duration, given in milliseconds, as the terminal shows it.
pub fn format_duration(millis: u64) -> (r: String)
    ensures
        r@ == duration_text(millis as nat),
{
    format_seconds(millis / 1000)
}

/// A range is worth showing only when it reaches two seconds and spans at
/// least one.
pub open spec fn is_useful_estimate(lower: u64, upper: u64) -> bool {
    upper >= 2000 && (if upper >= lower { upper - lower } else { 0 }) >= 1000
}

pub fn useful_estimate(lower_millis: u64, upper_millis: u64) -> (r: bool)
    ensures
        r == is_useful_estimate(lower_millis, upper_millis),
{
    upper_millis >= 2000 && upper_millis.saturating_sub(lower_millis) >= 1000
}

/// `a * b`, capped at `u64::MAX`.
pub open spec fn sat_mul(a: nat, b: nat) -> nat {
    if a * b > u64::MAX {
        u64::MAX as nat
    } else {
        a * b
    }
}

/// `a * b`, capped at `u64::MAX`.
pub fn saturating_mul(a: u64, b: u64) -> (r: u64)
    ensures
        r as nat == sat_mul(a as nat, b as nat),
{
    match a.checked_mul(b) {
        Some(x) => x,
        None => u64::MAX,
    }
}

/// The range a median of comparable builds predicts: 80–130% of it.
pub open spec fn historical_range(total: u64) -> (nat, nat) {
    (sat_mul(total as nat, 4) / 5, sat_mul(total as nat, 13) / 10)
}

pub fn historical_total_range(total: u64) -> (r: (u64, u64))
    ensures
        (r.0 as nat, r.1 as nat) == historical_range(total),
{
    (saturating_mul(total, 4) / 5, saturating_mul(total, 13) / 10)
}

/// Two counts of work are comparable: both zero, or within a factor of four.
pub open spec fn similar_count(left: nat, right: nat) -> bool {
    if left == 0 && right == 0 {
        true
    } else if left == 0 || right == 0 {
        false
    } else {
        let (small, large) = if left <= right { (left, right) } else { (right, left) };
        large <= sat_mul(small, 4)
    }
}

pub fn similar_work_count(left: usize, right: usize) -> (r: bool)
    ensures
        r == similar_count(left as nat, right as nat),
{
    if left == 0 && right == 0 {
        true
    } else if left == 0 || right == 0 {
        false
    } else {
        let (small, large) = if left <= right { (left as u64, right as u64) } else { (right as u64, left as u64) };
        large <= saturating_mul(small, 4)
    }
}

/// What a package install planned to fetch.
#[derive(Debug, Clone, Copy, PartialEq, Eq, Structural)]
pub struct PackagePlanSample {
    pub items_total: usize,
    pub items_cached: usize,
    pub bytes_total: u64,
    pub bytes_cached: u64,
    pub bytes_to_download: u64,
}

impl PackagePlanSample {
    /// An install that needed no download plan: the store already held the
    /// exact lock.
    pub fn no_download_plan() -> (r: Self)
        ensures
            r.items_total == 0 && r.items_cached == 0 && r.bytes_total == 0 && r.bytes_cached == 0
                && r.bytes_to_download == 0,
    {
        PackagePlanSample { items_total: 0, items_cached: 0, bytes_total: 0, bytes_cached: 0, bytes_to_download: 0 }
    }
}

/// Two package installs did comparable work: nothing to download and a
/// comparable number of items, or downloads within a factor of four.
pub open spec fn similar_packages(left: PackagePlanSample, right: PackagePlanSample) -> bool {
    if left.bytes_to_download == 0 && right.bytes_to_download == 0 {
        similar_count(left.items_total as nat, right.items_total as nat)
    } else if left.bytes_to_download == 0 || right.bytes_to_download == 0 {
        false
    } else {
        similar_count(left.bytes_to_download as nat, right.bytes_to_download as nat)
    }
}

pub fn similar_package_work(left: PackagePlanSample, right: PackagePlanSample) -> (r: bool)
    ensures
        r == similar_packages(left, right),
{
    if left.bytes_to_download == 0 && right.bytes_to_download == 0 {
        similar_work_count(left.items_total, right.items_total)
    } else if left.bytes_to_download == 0 || right.bytes_to_download == 0 {
        false
    } else {
        let (small, large) = if left.bytes_to_download <= right.bytes_to_download {
            (left.bytes_to_download, right.bytes_to_download)
        } else {
            (right.bytes_to_download, left.bytes_to_download)
        };
        large <= saturating_mul(small, 4)
    }
}

/// A byte count as the terminal shows it, in B, KiB, MiB (rounded) or GiB
/// (to a tenth).
pub open spec fn bytes_text(bytes: nat) -> Seq<char> {
    if bytes < 1024 {
        decimal(bytes) + " B"@
    } else if bytes < 1048576 {
        decimal((bytes + 512) / 1024) + " KiB"@
    } else if bytes < 1073741824 {
        decimal((bytes + 524288) / 1048576) + " MiB"@
    } else {
        let tenths = (bytes * 10 + 536870912) / 1073741824;
        decimal(tenths / 10) + "."@ + decimal(tenths % 10) + " GiB"@
    }
}

pub fn human_bytes(bytes: u64) -> (r: String)
    ensures
        r@ == bytes_text(bytes as nat),
{
    let mut r = String::new();
    if bytes < 1024 {
        push_decimal(&mut r, bytes);
        r.append(" B");
        return r;
    }
    if bytes < 1048576 {
        push_decimal(&mut r, (bytes + 512) / 1024);
        r.append(" KiB");
        return r;
    }
    if bytes < 1073741824 {
        push_decimal(&mut r, (bytes + 524288) / 1048576);
        r.append(" MiB");
        return r;
    }
    let tenths: u128 = ((bytes as u128) * 10 + 536870912) / 1073741824;
    assert(tenths <= u64::MAX);
    push_decimal(&mut r, (tenths / 10) as u64);
    r.append(".");
    push_decimal(&mut r, (tenths % 10) as u64);
    r.append(" GiB");
    r
}

/// A count with the noun that agrees with it.
pub open spec fn count_text(count: nat, singular: Seq<char>, plural: Seq<char>) -> Seq<char> {
    decimal(count) + " "@ + if count == 1 {
        singular
    } else {
        plural
    }
}

pub fn human_count(count: usize, singular: &str, plural: &str) -> (r: String)
    ensures
        r@ == count_text(count as nat, singular@, plural@),
{
    let mut r = String::new();
    push_decimal(&mut r, count as u64);
    r.append(" ");
    if count == 1 {
        r.append(singular);
    } else {
        r.append(plural);
    }
    r
}

/// What a pqty download serves.
#[derive(Debug, Clone, Copy, PartialEq, Eq, Structural)]
pub enum DownloadCategory {
    Registry,
    Packages,
}

pub open spec fn category_label(c: DownloadCategory) -> Seq<char> {
    match c {
        DownloadCategory::Registry => "Registry Snapshot"@,
        DownloadCategory::Packages => "packages"@,
    }
}

impl DownloadCategory {
    pub fn label(self) -> (r: &'static str)
        ensures
            r@ == category_label(self),
    {
        match self {
            DownloadCategory::Registry => "Registry Snapshot",
            DownloadCategory::Packages => "packages",
        }
    }
}

/// The line that announces a download plan.
pub open spec fn plan_text(
    category: DownloadCategory,
    items_total: nat,
    items_cached: nat,
    bytes_total: Option<u64>,
    bytes_cached: Option<u64>,
    bytes_to_download: Option<u64>,
) -> Seq<char> {
    match (bytes_total, bytes_cached, bytes_to_download) {
        (Some(total), Some(cached), Some(download)) => if download == 0 {
            category_label(category) + ": all "@ + count_text(items_total, "item"@, "items"@) + ", "@
                + bytes_text(total as nat) + ", already cached"@
        } else {
            category_label(category) + " download plan: "@ + bytes_text(download as nat) + " across "@
                + count_text(
                if items_total >= items_cached {
                    (items_total - items_cached) as nat
                } else {
                    0
                },
                "item"@,
                "items"@,
            ) + "; "@ + bytes_text(cached as nat) + " of "@ + bytes_text(total as nat) + " cached"@
        },
        _ => category_label(category) + " download started; the server did not declare a size"@,
    }
}

pub fn download_plan_message(
    category: DownloadCategory,
    items_total: usize,
    items_cached: usize,
    bytes_total: Option<u64>,
    bytes_cached: Option<u64>,
    bytes_to_download: Option<u64>,
) -> (r: String)
    ensures
        r@ == plan_text(
            category,
            items_total as nat,
            items_cached as nat,
            bytes_total,
            bytes_cached,
            bytes_to_download,
        ),
{
    let mut r = String::from_str(category.label());
    match (bytes_total, bytes_cached, bytes_to_download) {
        (Some(total), Some(cached), Some(download)) => {
            if download == 0 {
                r.append(": all ");
                r.append(human_count(items_total, "item", "items").as_str());
                r.append(", ");
                r.append(human_bytes(total).as_str());
                r.append(", already cached");
            } else {
                r.append(" download plan: ");
                r.append(human_bytes(download).as_str());
                r.append(" across ");
                r.append(human_count(items_total.saturating_sub(items_cached), "item", "items").as_str());
                r.append("; ");
                r.append(human_bytes(cached).as_str());
                r.append(" of ");
                r.append(human_bytes(total).as_str());
                r.append(" cached");
            }
        },
        _ => {
            r.append(" download started; the server did not declare a size");
        },
    }
    r
}

/// How often a download's progress is redrawn, in seconds.
pub fn download_render_interval(interactive: bool) -> (r: u64)
    ensures
        r == if interactive { 2u64 } else { 10u64 },
{
    if interactive {
        2
    } else {
        10
    }
}

} // verus!
