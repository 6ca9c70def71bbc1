//! The report of a build, and what the terminal says of it.
use vstd::prelude::*;
use crate::numbers::{decimal, push_decimal};
use crate::progress::{count_text, duration_text, format_duration, human_count};
use crate::setup::strings_view;
use crate::warnings::BuildWarning;

verus! {

pub const BUILD_REPORT_SCHEMA: &'static str = "texe.build-report/v1";

/// What a build did and produced.
#[derive(Debug, Clone)]
pub struct BuildReport {
    pub schema: String,
    pub engine: String,
    pub artifact: String,
    pub engine_passes: usize,
    pub bibliography_runs: usize,
    pub index_runs: usize,
    pub convergence_rounds: usize,
    pub environment_fingerprint: String,
    /// The published artifact was already current and no work ran.
    pub cached: bool,
    pub duration_millis: u64,
    pub warning_count: usize,
    pub warnings: Vec<BuildWarning>,
}

/// The report of a build that found its recorded outputs current.
pub fn cached_report(engine: &str, artifact: &str, environment_fingerprint: &str) -> (r: BuildReport)
    ensures
        r.schema@ == BUILD_REPORT_SCHEMA@,
        r.engine@ == engine@,
        r.artifact@ == artifact@,
        r.engine_passes == 0 && r.bibliography_runs == 0 && r.index_runs == 0 && r.convergence_rounds == 0,
        r.environment_fingerprint@ == environment_fingerprint@,
        r.cached,
        r.duration_millis == 0,
        r.warning_count == 0,
        r.warnings@.len() == 0,
{
    BuildReport {
        schema: String::from_str(BUILD_REPORT_SCHEMA),
        engine: String::from_str(engine),
        artifact: String::from_str(artifact),
        engine_passes: 0,
        bibliography_runs: 0,
        index_runs: 0,
        convergence_rounds: 0,
        environment_fingerprint: String::from_str(environment_fingerprint),
        cached: true,
        duration_millis: 0,
        warning_count: 0,
        warnings: Vec::new(),
    }
}

/// "no warnings", "1 warning", or "n warnings".
pub open spec fn warning_summary_text(count: nat) -> Seq<char> {
    if count == 0 {
        "no warnings"@
    } else {
        count_text(count, "warning"@, "warnings"@)
    }
}

pub fn warning_summary(count: usize) -> (r: String)
    ensures
        r@ == warning_summary_text(count as nat),
{
    if count == 0 {
        String::from_str("no warnings")
    } else {
        human_count(count, "warning", "warnings")
    }
}

/// The line the progress display ends a successful build with.
pub open spec fn completion_text(r: BuildReport) -> Seq<char> {
    if r.cached {
        "PDF is up to date · "@ + r.artifact@
    } else {
        "Built "@ + r.artifact@ + " in "@ + duration_text(r.duration_millis as nat) + " · "@ + warning_summary_text(
            r.warning_count as nat,
        )
    }
}

pub fn completion_message(report: &BuildReport) -> (r: String)
    ensures
        r@ == completion_text(*report),
{
    if report.cached {
        let mut m = String::from_str("PDF is up to date · ");
        m.append(report.artifact.as_str());
        m
    } else {
        let mut m = String::from_str("Built ");
        m.append(report.artifact.as_str());
        m.append(" in ");
        m.append(format_duration(report.duration_millis).as_str());
        m.append(" · ");
        m.append(warning_summary(report.warning_count).as_str());
        m
    }
}

pub open spec fn plural_suffix(n: nat, plural: Seq<char>) -> Seq<char> {
    if n == 1 {
        Seq::empty()
    } else {
        plural
    }
}

/// The line that counts what a build ran.
pub open spec fn work_text(r: BuildReport) -> Seq<char> {
    decimal(r.engine_passes as nat) + " engine pass"@ + plural_suffix(r.engine_passes as nat, "es"@) + ", "@ + decimal(
        r.bibliography_runs as nat,
    ) + " bibliography run"@ + plural_suffix(r.bibliography_runs as nat, "s"@) + ", "@ + decimal(r.index_runs as nat)
        + " index run"@ + plural_suffix(r.index_runs as nat, "s"@) + ", "@ + decimal(r.convergence_rounds as nat)
        + " package convergence round"@ + plural_suffix(r.convergence_rounds as nat, "s"@)
}

fn push_count(m: &mut String, n: usize, noun: &str, plural: &str)
    ensures
        final(m)@ == old(m)@ + decimal(n as nat) + noun@ + plural_suffix(n as nat, plural@),
{
    push_decimal(m, n as u64);
    m.append(noun);
    if n != 1 {
        m.append(plural);
    } else {
        assert(m@ + Seq::<char>::empty() =~= m@);
    }
}

fn work_line(r: &BuildReport) -> (m: String)
    ensures
        m@ == work_text(*r),
{
    let mut m = String::new();
    push_count(&mut m, r.engine_passes, " engine pass", "es");
    m.append(", ");
    push_count(&mut m, r.bibliography_runs, " bibliography run", "s");
    m.append(", ");
    push_count(&mut m, r.index_runs, " index run", "s");
    m.append(", ");
    push_count(&mut m, r.convergence_rounds, " package convergence round", "s");
    proof {
        assert(m@ =~= work_text(*r));
    }
    m
}

pub open spec fn messages_of(w: Seq<BuildWarning>) -> Seq<Seq<char>> {
    w.map_values(|x: BuildWarning| x.message@)
}

/// `warning: ` and each message.
pub open spec fn warning_lines(w: Seq<BuildWarning>) -> Seq<Seq<char>> {
    w.map_values(|x: BuildWarning| "warning: "@ + x.message@)
}

pub open spec fn first_three<A>(s: Seq<A>) -> Seq<A> {
    if s.len() > 3 {
        s.subrange(0, 3)
    } else {
        s
    }
}

pub open spec fn after_three<A>(s: Seq<A>) -> Seq<A> {
    if s.len() > 3 {
        s.subrange(3, s.len() as int)
    } else {
        Seq::empty()
    }
}

/// What a plain terminal prints after a build: what was checked or built,
/// the work it took, the first three warnings and how many there were, and
/// with `verbose` the package environment and the other warnings.
pub open spec fn summary_lines_of(entry: Seq<char>, r: BuildReport, verbose: bool) -> Seq<Seq<char>> {
    if r.cached {
        seq!["checked "@ + entry, r.artifact@ + " is up to date; no project files changed"@]
    } else {
        let built = seq!["built "@ + r.artifact@ + " in "@ + duration_text(r.duration_millis as nat), work_text(r)];
        let warnings: Seq<Seq<char>> = if r.warning_count == 0 {
            seq!["no warnings"@]
        } else {
            warning_lines(first_three(r.warnings@)) + if r.warning_count > 3 {
                seq![
                    count_text((r.warning_count - 3) as nat, "warning"@, "warnings"@)
                        + " more; run `texe build --verbose` to show all"@,
                ]
            } else {
                seq![count_text(r.warning_count as nat, "warning"@, "warnings"@)]
            }
        };
        let more: Seq<Seq<char>> = if verbose {
            seq!["package environment: "@ + r.environment_fingerprint@] + warning_lines(after_three(r.warnings@))
        } else {
            Seq::empty()
        };
        built + warnings + more
    }
}

fn push_line(v: &mut Vec<String>, s: String)
    ensures
        strings_view(final(v)@) == strings_view(old(v)@).push(s@),
{
    let ghost before = strings_view(v@);
    v.push(s);
    assert(strings_view(v@) =~= before.push(s@));
}

fn push_warnings(v: &mut Vec<String>, w: &Vec<BuildWarning>, from: usize, to: usize, prefix: bool)
    requires
        from <= to <= w.len(),
    ensures
        strings_view(final(v)@) == strings_view(old(v)@) + if prefix {
            warning_lines(w@.subrange(from as int, to as int))
        } else {
            messages_of(w@.subrange(from as int, to as int))
        },
{
    let ghost start = strings_view(v@);
    let mut i: usize = from;
    while i < to
        invariant
            from <= i <= to <= w.len(),
            strings_view(v@) == start + if prefix {
                warning_lines(w@.subrange(from as int, i as int))
            } else {
                messages_of(w@.subrange(from as int, i as int))
            },
        decreases to - i,
    {
        let line = if prefix {
            let mut l = String::from_str("warning: ");
            l.append(w[i].message.as_str());
            l
        } else {
            String::from_str(w[i].message.as_str())
        };
        push_line(v, line);
        proof {
            let a = w@.subrange(from as int, i as int);
            let b = w@.subrange(from as int, i + 1);
            assert(b =~= a.push(w@[i as int]));
            assert(warning_lines(b) =~= warning_lines(a).push("warning: "@ + w@[i as int].message@));
            assert(messages_of(b) =~= messages_of(a).push(w@[i as int].message@));
        }
        i += 1;
    }
}

pub fn summary_lines(entry: &str, report: &BuildReport, verbose: bool) -> (r: Vec<String>)
    ensures
        strings_view(r@) == summary_lines_of(entry@, *report, verbose),
{
    let mut lines: Vec<String> = Vec::new();
    if report.cached {
        let mut a = String::from_str("checked ");
        a.append(entry);
        push_line(&mut lines, a);
        let mut b = String::from_str(report.artifact.as_str());
        b.append(" is up to date; no project files changed");
        push_line(&mut lines, b);
        return lines;
    }
    let mut built = String::from_str("built ");
    built.append(report.artifact.as_str());
    built.append(" in ");
    built.append(format_duration(report.duration_millis).as_str());
    push_line(&mut lines, built);
    push_line(&mut lines, work_line(report));
    let ghost head = strings_view(lines@);
    let shown = if report.warnings.len() > 3 { 3 } else { report.warnings.len() };
    if report.warning_count == 0 {
        push_line(&mut lines, String::from_str("no warnings"));
    } else {
        push_warnings(&mut lines, &report.warnings, 0, shown, true);
        if report.warning_count > 3 {
            let mut m = human_count(report.warning_count - 3, "warning", "warnings");
            m.append(" more; run `texe build --verbose` to show all");
            push_line(&mut lines, m);
        } else {
            push_line(&mut lines, human_count(report.warning_count, "warning", "warnings"));
        }
    }
    let ghost middle = strings_view(lines@);
    if verbose {
        let mut p = String::from_str("package environment: ");
        p.append(report.environment_fingerprint.as_str());
        push_line(&mut lines, p);
        push_warnings(&mut lines, &report.warnings, shown, report.warnings.len(), true);
    }
    proof {
        let w = report.warnings@;
        assert(w.subrange(0, shown as int) =~= first_three(w));
        assert(w.subrange(shown as int, w.len() as int) =~= after_three(w));
        if !verbose {
            assert(strings_view(lines@) =~= middle + Seq::<Seq<char>>::empty());
        }
        assert(strings_view(lines@) =~= summary_lines_of(entry@, *report, verbose));
    }
    lines
}

/// What the live display adds after a build: the first three warnings, and
/// how many more there were.
pub open spec fn live_warning_lines_of(r: BuildReport) -> Seq<Seq<char>> {
    messages_of(first_three(r.warnings@)) + if r.warning_count > 3 {
        seq![
            count_text((r.warning_count - 3) as nat, "warning"@, "warnings"@) + " more; use texe build --verbose to see all"@,
        ]
    } else {
        Seq::empty()
    }
}

pub fn live_warning_lines(report: &BuildReport) -> (r: Vec<String>)
    ensures
        strings_view(r@) == live_warning_lines_of(*report),
{
    let mut lines: Vec<String> = Vec::new();
    let shown = if report.warnings.len() > 3 { 3 } else { report.warnings.len() };
    push_warnings(&mut lines, &report.warnings, 0, shown, false);
    let ghost head = strings_view(lines@);
    if report.warning_count > 3 {
        let mut m = human_count(report.warning_count - 3, "warning", "warnings");
        m.append(" more; use texe build --verbose to see all");
        push_line(&mut lines, m);
    }
    proof {
        let w = report.warnings@;
        assert(w.subrange(0, shown as int) =~= first_three(w));
        assert(Seq::<Seq<char>>::empty() + messages_of(w.subrange(0, shown as int)) =~= messages_of(first_three(w)));
        if report.warning_count <= 3 {
            assert(strings_view(lines@) =~= head + Seq::<Seq<char>>::empty());
        }
    }
    lines
}

} // verus!
