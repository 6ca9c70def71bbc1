//! pqty's download progress events, and the lines texe shows for them.
//! Instants are milliseconds on a monotonic clock that the caller reads.
use vstd::prelude::*;
use crate::numbers::{decimal, push_decimal};
use crate::error::TexeError;
use crate::progress::{
    bytes_text, count_text, human_count, category_label, download_plan_message, duration_text, format_duration, format_seconds,
    human_bytes, plan_text, seconds_text, DownloadCategory,
};

verus! {

pub const PQTY_PROGRESS_SCHEMA: &'static str = "pqty.progress/v1";

/// One line of pqty's progress stream.
#[derive(Debug, Clone)]
pub enum DownloadEvent {
    Plan {
        schema: String,
        category: DownloadCategory,
        items_total: usize,
        items_cached: usize,
        bytes_total: Option<u64>,
        bytes_cached: Option<u64>,
        bytes_to_download: Option<u64>,
    },
    Start {
        schema: String,
        category: DownloadCategory,
        item: String,
        url: String,
        attempt: usize,
        bytes_total: Option<u64>,
    },
    Progress {
        schema: String,
        category: DownloadCategory,
        item: String,
        bytes_received: u64,
        bytes_total: Option<u64>,
        elapsed_millis: u64,
    },
    Complete {
        schema: String,
        category: DownloadCategory,
        item: String,
        bytes_received: u64,
        bytes_total: Option<u64>,
        elapsed_millis: u64,
    },
}

pub open spec fn event_schema(e: DownloadEvent) -> Seq<char> {
    match e {
        DownloadEvent::Plan { schema, .. } => schema@,
        DownloadEvent::Start { schema, .. } => schema@,
        DownloadEvent::Progress { schema, .. } => schema@,
        DownloadEvent::Complete { schema, .. } => schema@,
    }
}

pub open spec fn event_category(e: DownloadEvent) -> DownloadCategory {
    match e {
        DownloadEvent::Plan { category, .. } => category,
        DownloadEvent::Start { category, .. } => category,
        DownloadEvent::Progress { category, .. } => category,
        DownloadEvent::Complete { category, .. } => category,
    }
}

impl DownloadEvent {
    /// texe reads only the progress protocol it knows.
    pub fn is_supported(&self) -> (r: bool)
        ensures
            r == (event_schema(*self) == PQTY_PROGRESS_SCHEMA@),
    {
        let schema = match self {
            DownloadEvent::Plan { schema, .. } => schema,
            DownloadEvent::Start { schema, .. } => schema,
            DownloadEvent::Progress { schema, .. } => schema,
            DownloadEvent::Complete { schema, .. } => schema,
        };
        crate::text::eq_str(&crate::text::chars_of(schema.as_str()), PQTY_PROGRESS_SCHEMA)
    }

    pub fn category(&self) -> (r: DownloadCategory)
        ensures
            r == event_category(*self),
    {
        match self {
            DownloadEvent::Plan { category, .. } => *category,
            DownloadEvent::Start { category, .. } => *category,
            DownloadEvent::Progress { category, .. } => *category,
            DownloadEvent::Complete { category, .. } => *category,
        }
    }
}

/// What texe knows of the downloads of one category.
#[derive(Debug, Clone)]
pub struct DownloadMetrics {
    pub planned_bytes: Option<u64>,
    pub completed_bytes: u64,
    pub active_bytes: u64,
    pub active_item: Option<String>,
    pub started: Option<u64>,
    pub last_rendered: Option<u64>,
}

pub open spec fn fresh_metrics() -> DownloadMetrics {
    DownloadMetrics {
        planned_bytes: None,
        completed_bytes: 0,
        active_bytes: 0,
        active_item: None,
        started: None,
        last_rendered: None,
    }
}

impl Default for DownloadMetrics {
    fn default() -> (r: Self)
        ensures
            r == fresh_metrics(),
    {
        DownloadMetrics {
            planned_bytes: None,
            completed_bytes: 0,
            active_bytes: 0,
            active_item: None,
            started: None,
            last_rendered: None,
        }
    }
}

pub open spec fn sat_add(a: u64, b: u64) -> u64 {
    if a + b > u64::MAX {
        u64::MAX
    } else {
        (a + b) as u64
    }
}

pub open spec fn sat_sub(a: u64, b: u64) -> u64 {
    if a >= b {
        (a - b) as u64
    } else {
        0
    }
}

pub open spec fn sat_mul(a: u64, b: u64) -> u64 {
    if a * b > u64::MAX {
        u64::MAX
    } else {
        (a * b) as u64
    }
}

pub open spec fn at_least_one(a: u64) -> u64 {
    if a == 0 {
        1
    } else {
        a
    }
}

/// How long progress lines wait before the next one, in milliseconds.
pub open spec fn render_interval(interactive: bool) -> u64 {
    if interactive {
        2000
    } else {
        10000
    }
}

/// A plan that follows finished downloads starts a new account; a plan
/// adds to one that is under way, and a plan that comes after unplanned
/// downloads leaves the total unknown.
pub open spec fn after_plan(m: DownloadMetrics, bytes_to_download: Option<u64>) -> DownloadMetrics {
    let base = if (m.planned_bytes matches Some(p) && m.completed_bytes >= p) && m.active_item is None {
        fresh_metrics()
    } else {
        m
    };
    DownloadMetrics {
        planned_bytes: match (base.planned_bytes, bytes_to_download) {
            (Some(previous), Some(additional)) => Some(sat_add(previous, additional)),
            (None, Some(download)) => if base.completed_bytes == 0 {
                Some(download)
            } else {
                None
            },
            _ => None,
        },
        ..base
    }
}

/// The line a download start shows: retries always, and the first attempt
/// where no plan announced the download.
pub open spec fn start_text(m: DownloadMetrics, category: DownloadCategory, item: Seq<char>, url: Seq<char>, attempt: usize, bytes_total: Option<u64>) -> Option<Seq<char>> {
    if attempt > 1 {
        Some(
            "retrying "@ + category_label(category) + " download for "@ + item + " from "@ + url + " (attempt "@
                + decimal(attempt as nat) + ")"@,
        )
    } else if m.planned_bytes is None {
        Some(
            "downloading "@ + category_label(category) + " "@ + item + match bytes_total {
                Some(b) => " ("@ + bytes_text(b as nat) + ")"@,
                None => Seq::empty(),
            },
        )
    } else {
        None
    }
}

/// The transfer rate of the whole download in bytes per second, and the
/// estimate of the seconds left once three seconds and a tenth of the plan
/// (at most 1 MiB) have passed.
pub open spec fn rate_and_remaining(m: DownloadMetrics, now: u64) -> (u64, Option<u64>) {
    let transferred = sat_add(m.completed_bytes, m.active_bytes);
    match m.started {
        None => (0, None),
        Some(start) => {
            let elapsed = sat_sub(now, start);
            let rate = (sat_mul(transferred, 1000) / at_least_one(elapsed)) as u64;
            let remaining = match m.planned_bytes {
                Some(total) => {
                    let tenth = (total / 10 + if total % 10 == 0 {
                        0u64
                    } else {
                        1u64
                    }) as u64;
                    let minimum = if tenth < 1048576 {
                        tenth
                    } else {
                        1048576
                    };
                    if rate > 0 && elapsed >= 3000 && transferred >= minimum {
                        Some((sat_sub(total, transferred) / rate) as u64)
                    } else {
                        None
                    }
                },
                None => None,
            };
            (rate, remaining)
        },
    }
}

/// What has arrived, and of how much where a plan announced it.
pub open spec fn aggregate_text(m: DownloadMetrics) -> Seq<char> {
    let transferred = sat_add(m.completed_bytes, m.active_bytes);
    match m.planned_bytes {
        None => bytes_text(transferred as nat),
        Some(total) => bytes_text(transferred as nat) + "/"@ + bytes_text(total as nat) + " ("@ + decimal(
            (sat_mul(transferred, 100) / at_least_one(total)) as nat,
        ) + "%)"@,
    }
}

/// The current item's progress, where its size is known.
pub open spec fn item_text(item: Seq<char>, active_bytes: u64, item_total: Option<u64>) -> Seq<char> {
    match item_total {
        Some(t) => " · "@ + item + " "@ + bytes_text(active_bytes as nat) + "/"@ + bytes_text(t as nat),
        None => Seq::empty(),
    }
}

/// The estimate of the time left, where there is one.
pub open spec fn left_text(remaining: Option<u64>) -> Seq<char> {
    match remaining {
        Some(secs) => " · about "@ + seconds_text(secs as nat) + " remaining"@,
        None => Seq::empty(),
    }
}

/// The rate a line shows: the whole download's, or the current item's
/// before the whole download has one.
pub open spec fn shown_rate(m: DownloadMetrics, item_elapsed_millis: u64, now: u64) -> u64 {
    let rate = rate_and_remaining(m, now).0;
    if rate == 0 {
        (sat_mul(m.active_bytes, 1000) / at_least_one(item_elapsed_millis)) as u64
    } else {
        rate
    }
}

/// A progress line: what has arrived of the plan, the current item, the
/// rate, and the time left where it can be estimated.
pub open spec fn progress_text(lead: Seq<char>, category: DownloadCategory, item: Seq<char>, m: DownloadMetrics, item_total: Option<u64>, item_elapsed_millis: u64, now: u64) -> Seq<char> {
    lead + " "@ + category_label(category) + ": "@ + aggregate_text(m) + item_text(item, m.active_bytes, item_total)
        + " · "@ + bytes_text(shown_rate(m, item_elapsed_millis, now) as nat) + "/s"@ + left_text(
        rate_and_remaining(m, now).1,
    )
}

fn rate_and_remaining_of(m: &DownloadMetrics, now: u64) -> (r: (u64, Option<u64>))
    ensures
        r == rate_and_remaining(*m, now),
{
    let transferred = m.completed_bytes.saturating_add(m.active_bytes);
    match m.started {
        None => (0, None),
        Some(start) => {
            let elapsed = now.saturating_sub(start);
            let rate = crate::progress::saturating_mul(transferred, 1000) / if elapsed == 0 { 1 } else { elapsed };
            let remaining = match m.planned_bytes {
                Some(total) => {
                    let tenth = total / 10 + if total % 10 == 0 { 0 } else { 1 };
                    let minimum = if tenth < 1048576 { tenth } else { 1048576 };
                    if rate > 0 && elapsed >= 3000 && transferred >= minimum {
                        Some(total.saturating_sub(transferred) / rate)
                    } else {
                        None
                    }
                },
                None => None,
            };
            (rate, remaining)
        },
    }
}

fn aggregate_of(m: &DownloadMetrics) -> (r: String)
    ensures
        r@ == aggregate_text(*m),
{
    let transferred = m.completed_bytes.saturating_add(m.active_bytes);
    let mut r = human_bytes(transferred);
    match m.planned_bytes {
        Some(total) => {
            r.append("/");
            r.append(human_bytes(total).as_str());
            r.append(" (");
            push_decimal(&mut r, crate::progress::saturating_mul(transferred, 100) / if total == 0 { 1 } else { total });
            r.append("%)");
        },
        None => {},
    }
    r
}

fn item_of(item: &str, active_bytes: u64, item_total: Option<u64>) -> (r: String)
    ensures
        r@ == item_text(item@, active_bytes, item_total),
{
    match item_total {
        Some(t) => {
            let mut r = String::from_str(" · ");
            r.append(item);
            r.append(" ");
            r.append(human_bytes(active_bytes).as_str());
            r.append("/");
            r.append(human_bytes(t).as_str());
            r
        },
        None => String::new(),
    }
}

fn left_of(remaining: Option<u64>) -> (r: String)
    ensures
        r@ == left_text(remaining),
{
    match remaining {
        Some(secs) => {
            let mut r = String::from_str(" · about ");
            r.append(format_seconds(secs).as_str());
            r.append(" remaining");
            r
        },
        None => String::new(),
    }
}

fn progress_message(
    lead: &str,
    category: DownloadCategory,
    item: &str,
    m: &DownloadMetrics,
    item_total: Option<u64>,
    item_elapsed_millis: u64,
    now: u64,
) -> (r: String)
    ensures
        r@ == progress_text(lead@, category, item@, *m, item_total, item_elapsed_millis, now),
{
    let (rate, remaining) = rate_and_remaining_of(m, now);
    let current_rate = if rate == 0 {
        crate::progress::saturating_mul(m.active_bytes, 1000) / if item_elapsed_millis == 0 { 1 } else { item_elapsed_millis }
    } else {
        rate
    };
    let mut r = String::from_str(lead);
    r.append(" ");
    r.append(category.label());
    r.append(": ");
    r.append(aggregate_of(m).as_str());
    r.append(item_of(item, m.active_bytes, item_total).as_str());
    r.append(" · ");
    r.append(human_bytes(current_rate).as_str());
    r.append("/s");
    r.append(left_of(remaining).as_str());
    r
}

pub open spec fn after_start(m: DownloadMetrics, item: String, now: u64) -> DownloadMetrics {
    DownloadMetrics {
        started: match m.started {
            Some(s) => Some(s),
            None => Some(now),
        },
        active_bytes: 0,
        active_item: Some(item),
        ..m
    }
}

/// A progress line is due when none was shown within the render interval.
pub open spec fn line_due(last_rendered: Option<u64>, interactive: bool, now: u64) -> bool {
    match last_rendered {
        Some(last) => sat_sub(now, last) >= render_interval(interactive),
        None => true,
    }
}

pub open spec fn complete_text(category: DownloadCategory, m: DownloadMetrics, now: u64) -> Seq<char> {
    let elapsed = match m.started {
        Some(s) => sat_sub(now, s),
        None => 0,
    };
    let rate = (sat_mul(m.completed_bytes, 1000) / at_least_one(elapsed)) as u64;
    category_label(category) + " download complete: "@ + bytes_text(m.completed_bytes as nat) + " in "@ + duration_text(
        elapsed as nat,
    ) + " · "@ + bytes_text(rate as nat) + "/s"@
}

/// What an event does to the metrics of its category, and the line it
/// shows, if any.
pub open spec fn on_event(m: DownloadMetrics, e: DownloadEvent, interactive: bool, now: u64) -> (DownloadMetrics, Option<Seq<char>>) {
    match e {
        DownloadEvent::Plan { category, items_total, items_cached, bytes_total, bytes_cached, bytes_to_download, .. } => (
            after_plan(m, bytes_to_download),
            Some(plan_text(category, items_total as nat, items_cached as nat, bytes_total, bytes_cached, bytes_to_download)),
        ),
        DownloadEvent::Start { category, item, url, attempt, bytes_total, .. } => (
            after_start(m, item, now),
            start_text(m, category, item@, url@, attempt, bytes_total),
        ),
        DownloadEvent::Progress { category, item, bytes_received, bytes_total, elapsed_millis, .. } => {
            let base = DownloadMetrics { active_bytes: bytes_received, active_item: Some(item), ..m };
            if line_due(base.last_rendered, interactive, now) {
                let shown = DownloadMetrics { last_rendered: Some(now), ..base };
                (shown, Some(progress_text("downloading"@, category, item@, shown, bytes_total, elapsed_millis, now)))
            } else {
                (base, None)
            }
        },
        DownloadEvent::Complete { category, item, bytes_received, bytes_total, elapsed_millis, .. } => {
            let completed = sat_add(
                m.completed_bytes,
                match bytes_total {
                    Some(t) => t,
                    None => bytes_received,
                },
            );
            let base = DownloadMetrics { completed_bytes: completed, active_bytes: 0, active_item: None, ..m };
            if base.planned_bytes matches Some(p) && completed >= p {
                (base, Some(complete_text(category, base, now)))
            } else if base.planned_bytes is Some && line_due(base.last_rendered, interactive, now) {
                let shown = DownloadMetrics { last_rendered: Some(now), ..base };
                (
                    shown,
                    Some(progress_text("downloaded "@ + item@ + ";"@, category, item@, shown, None, elapsed_millis, now)),
                )
            } else if elapsed_millis >= 2000 {
                (base, Some("downloaded "@ + item@ + ": "@ + bytes_text(bytes_received as nat) + " in "@ + duration_text(elapsed_millis as nat)))
            } else {
                (base, None)
            }
        },
    }
}

fn is_due(last_rendered: Option<u64>, interactive: bool, now: u64) -> (r: bool)
    ensures
        r == line_due(last_rendered, interactive, now),
{
    match last_rendered {
        Some(last) => now.saturating_sub(last) >= if interactive { 2000 } else { 10000 },
        None => true,
    }
}

/// Applies one event of a category to that category's metrics, and gives
/// the line to show.
pub fn handle_download_event(metrics: &mut DownloadMetrics, event: &DownloadEvent, interactive: bool, now: u64) -> (r: Option<String>)
    ensures
        *final(metrics) == on_event(*old(metrics), *event, interactive, now).0,
        crate::trace::opt_string_view(r) == on_event(*old(metrics), *event, interactive, now).1,
{
    match event {
        DownloadEvent::Plan { category, items_total, items_cached, bytes_total, bytes_cached, bytes_to_download, .. } => {
            let finished = match metrics.planned_bytes {
                Some(p) => metrics.completed_bytes >= p,
                None => false,
            };
            if finished && metrics.active_item.is_none() {
                *metrics = DownloadMetrics::default();
            }
            metrics.planned_bytes = match (metrics.planned_bytes, *bytes_to_download) {
                (Some(previous), Some(additional)) => Some(previous.saturating_add(additional)),
                (None, Some(download)) => if metrics.completed_bytes == 0 { Some(download) } else { None },
                _ => None,
            };
            Some(download_plan_message(*category, *items_total, *items_cached, *bytes_total, *bytes_cached, *bytes_to_download))
        },
        DownloadEvent::Start { category, item, url, attempt, bytes_total, .. } => {
            let line = if *attempt > 1 {
                let mut r = String::from_str("retrying ");
                r.append(category.label());
                r.append(" download for ");
                r.append(item.as_str());
                r.append(" from ");
                r.append(url.as_str());
                r.append(" (attempt ");
                push_decimal(&mut r, *attempt as u64);
                r.append(")");
                Some(r)
            } else if metrics.planned_bytes.is_none() {
                let mut r = String::from_str("downloading ");
                r.append(category.label());
                r.append(" ");
                r.append(item.as_str());
                match bytes_total {
                    Some(b) => {
                        r.append(" (");
                        r.append(human_bytes(*b).as_str());
                        r.append(")");
                    },
                    None => {},
                }
                Some(r)
            } else {
                None
            };
            if metrics.started.is_none() {
                metrics.started = Some(now);
            }
            metrics.active_bytes = 0;
            metrics.active_item = Some(item.clone());
            line
        },
        DownloadEvent::Progress { category, item, bytes_received, bytes_total, elapsed_millis, .. } => {
            metrics.active_bytes = *bytes_received;
            metrics.active_item = Some(item.clone());
            if !is_due(metrics.last_rendered, interactive, now) {
                return None;
            }
            metrics.last_rendered = Some(now);
            Some(progress_message("downloading", *category, item.as_str(), metrics, *bytes_total, *elapsed_millis, now))
        },
        DownloadEvent::Complete { category, item, bytes_received, bytes_total, elapsed_millis, .. } => {
            let size = match bytes_total {
                Some(t) => *t,
                None => *bytes_received,
            };
            metrics.completed_bytes = metrics.completed_bytes.saturating_add(size);
            metrics.active_bytes = 0;
            metrics.active_item = None;
            let all_complete = match metrics.planned_bytes {
                Some(p) => metrics.completed_bytes >= p,
                None => false,
            };
            if all_complete {
                let elapsed = match metrics.started {
                    Some(s) => now.saturating_sub(s),
                    None => 0,
                };
                let rate = crate::progress::saturating_mul(metrics.completed_bytes, 1000) / if elapsed == 0 { 1 } else { elapsed };
                let mut r = String::from_str(category.label());
                r.append(" download complete: ");
                r.append(human_bytes(metrics.completed_bytes).as_str());
                r.append(" in ");
                r.append(format_duration(elapsed).as_str());
                r.append(" · ");
                r.append(human_bytes(rate).as_str());
                r.append("/s");
                Some(r)
            } else if metrics.planned_bytes.is_some() && is_due(metrics.last_rendered, interactive, now) {
                metrics.last_rendered = Some(now);
                let mut lead = String::from_str("downloaded ");
                lead.append(item.as_str());
                lead.append(";");
                Some(progress_message(lead.as_str(), *category, item.as_str(), metrics, None, *elapsed_millis, now))
            } else if *elapsed_millis >= 2000 {
                let mut r = String::from_str("downloaded ");
                r.append(item.as_str());
                r.append(": ");
                r.append(human_bytes(*bytes_received).as_str());
                r.append(" in ");
                r.append(format_duration(*elapsed_millis).as_str());
                Some(r)
            } else {
                None
            }
        },
    }
}

/// What a managed toolchain still has to download before its first build.
#[derive(Debug, Clone)]
pub struct DownloadPreflight {
    pub engine: String,
    pub missing_components: usize,
    pub missing_bytes: u64,
}

/// Whether a first build may go ahead, or the user should first see what it
/// downloads and agree.
#[derive(Debug, Clone, Copy, PartialEq, Eq, Structural)]
pub enum FirstDownload {
    /// Go ahead without a word.
    Proceed,
    /// Show what the build downloads, then go ahead: nothing can be asked.
    Inform,
    /// Show what the build downloads and ask.
    Confirm,
}

/// The first build of a project downloads what it needs once the user
/// agreed, where they can be asked: a later build, a build that downloads
/// nothing, an offline build without runtime downloads, one the user
/// accepted ahead, or one reporting JSON goes ahead; one that cannot ask
/// shows what it downloads and goes ahead; an offline build that would
/// need runtime components fails.
pub open spec fn first_download_of(
    first_build: bool,
    preflight: Option<(Seq<char>, nat, nat)>,
    might_download_packages: bool,
    offline: bool,
    accepted: bool,
    json: bool,
    can_prompt: bool,
) -> Result<FirstDownload, Seq<char>> {
    let needs_runtime = match preflight {
        Some(p) => p.1 > 0,
        None => false,
    };
    if !first_build || (!needs_runtime && !might_download_packages) {
        Ok(FirstDownload::Proceed)
    } else if offline {
        if needs_runtime {
            let p = preflight->0;
            Err(
                "offline mode cannot prepare "@ + p.0 + ": "@ + count_text(p.1, "runtime component"@, "runtime components"@)
                    + ", "@ + bytes_text(p.2) + ", are not cached"@,
            )
        } else {
            Ok(FirstDownload::Proceed)
        }
    } else if accepted || json {
        Ok(FirstDownload::Proceed)
    } else if !can_prompt {
        Ok(FirstDownload::Inform)
    } else {
        Ok(FirstDownload::Confirm)
    }
}

pub open spec fn preflight_view(p: Option<DownloadPreflight>) -> Option<(Seq<char>, nat, nat)> {
    match p {
        Some(x) => Some((x.engine@, x.missing_components as nat, x.missing_bytes as nat)),
        None => None,
    }
}

pub fn first_download(
    first_build: bool,
    preflight: &Option<DownloadPreflight>,
    might_download_packages: bool,
    offline: bool,
    accepted: bool,
    json: bool,
    can_prompt: bool,
) -> (r: Result<FirstDownload, TexeError>)
    ensures
        match first_download_of(first_build, preflight_view(*preflight), might_download_packages, offline, accepted, json, can_prompt) {
            Ok(d) => r == Ok::<FirstDownload, TexeError>(d),
            Err(m) => r matches Err(TexeError::Toolchain(e)) && e@ == m,
        },
{
    let needs_runtime = match preflight {
        Some(p) => p.missing_components > 0,
        None => false,
    };
    if !first_build || (!needs_runtime && !might_download_packages) {
        return Ok(FirstDownload::Proceed);
    }
    if offline {
        if needs_runtime {
            match preflight {
                Some(p) => {
                    let mut m = String::from_str("offline mode cannot prepare ");
                    m.append(p.engine.as_str());
                    m.append(": ");
                    m.append(human_count(p.missing_components, "runtime component", "runtime components").as_str());
                    m.append(", ");
                    m.append(human_bytes(p.missing_bytes).as_str());
                    m.append(", are not cached");
                    return Err(TexeError::Toolchain(m));
                },
                None => {},
            }
        }
        return Ok(FirstDownload::Proceed);
    }
    if accepted || json {
        Ok(FirstDownload::Proceed)
    } else if !can_prompt {
        Ok(FirstDownload::Inform)
    } else {
        Ok(FirstDownload::Confirm)
    }
}

/// The lines of the first-build note: what the runtime still needs, where
/// packages come from when they may be downloaded, and what stays private.
pub open spec fn first_download_details_of(preflight: Option<(Seq<char>, nat, nat)>, might_download_packages: bool) -> Seq<Seq<char>> {
    let runtime: Seq<Seq<char>> = match preflight {
        Some(p) => if p.1 == 0 {
            seq!["LaTeX runtime  Already cached"@]
        } else {
            seq![
                "LaTeX runtime  "@ + count_text(p.1, "checksummed component"@, "checksummed components"@) + ", about "@
                    + bytes_text(p.2),
            ]
        },
        None => Seq::empty(),
    };
    let packages: Seq<Seq<char>> = if might_download_packages {
        seq!["Paper packages Only what this source requires"@, "Destination    texe’s local managed cache"@]
    } else {
        Seq::empty()
    };
    runtime + packages + seq!["Privacy        No paper source or metadata is sent"@]
}

fn push_line(v: &mut Vec<String>, s: String)
    ensures
        final(v)@.map_values(|x: String| x@) == old(v)@.map_values(|x: String| x@).push(s@),
{
    let ghost before = v@.map_values(|x: String| x@);
    v.push(s);
    assert(v@.map_values(|x: String| x@) =~= before.push(s@));
}

pub fn first_download_details(preflight: &Option<DownloadPreflight>, might_download_packages: bool) -> (r: Vec<String>)
    ensures
        r@.map_values(|x: String| x@) == first_download_details_of(preflight_view(*preflight), might_download_packages),
{
    let mut lines: Vec<String> = Vec::new();
    match preflight {
        Some(p) => {
            if p.missing_components == 0 {
                push_line(&mut lines, String::from_str("LaTeX runtime  Already cached"));
            } else {
                let mut l = String::from_str("LaTeX runtime  ");
                l.append(human_count(p.missing_components, "checksummed component", "checksummed components").as_str());
                l.append(", about ");
                l.append(human_bytes(p.missing_bytes).as_str());
                push_line(&mut lines, l);
            }
        },
        None => {},
    }
    let ghost runtime = lines@.map_values(|x: String| x@);
    if might_download_packages {
        push_line(&mut lines, String::from_str("Paper packages Only what this source requires"));
        push_line(&mut lines, String::from_str("Destination    texe’s local managed cache"));
    }
    let ghost packages = lines@.map_values(|x: String| x@);
    push_line(&mut lines, String::from_str("Privacy        No paper source or metadata is sent"));
    proof {
        let pv = preflight_view(*preflight);
        match pv {
            Some(p) => {},
            None => {
                assert(runtime =~= Seq::<Seq<char>>::empty());
            },
        }
        if might_download_packages {
            assert(packages =~= runtime + seq!["Paper packages Only what this source requires"@, "Destination    texe’s local managed cache"@]);
        } else {
            assert(packages =~= runtime + Seq::<Seq<char>>::empty());
        }
    }
    lines
}

} // verus!
