//! What holds of the library across inputs and across functions.
use vstd::prelude::*;
use crate::cache::{cached_matches, relative_output};
use crate::clean::{present_targets, removed_directories, project_targets, is_retained, swept_paths, CacheEntry, CleanOptions, LiveToolchainArtifacts};
use crate::config::{manifest_problem, ProjectManifest};
use crate::diagnostics::join_with;
use crate::environment::{
    engine_environment_of, input_environment, package_search_value, search_entry, search_path,
    source_date, EngineEnvironmentContext, ManagedFormat, ManagedRuntime, ResolvedToolchain,
};
use crate::engine::{interaction_arguments, xml_char, xml_escaped};
use crate::estimate::{le_u64, median_of};
use crate::lockfile::{restore_outcome, LockSummary, Restore};
use crate::numbers::decimal;
use crate::order::{lemma_pair_lt_facts, pairs_sorted};
use crate::paths::{components, empty_or_absolute, portable_components};
use crate::progress::{stage_of, LiveStage, PhaseKind};
use crate::recorder::{spelling_agrees, spelling_matches};
use crate::warnings::keyed;
use crate::digest::digest_text;
use crate::integrations::{gitignore_text, trim_newlines, without_owned_block, GITIGNORE_END, GITIGNORE_START};
use crate::paths::relative_or_original;
use crate::settings_file::{value_text, EditView};
use crate::settings_restore::{restore_step, settings_restore_of};
use crate::trace::{
    babel_definition_in, known_kind, lemma_babel_definition_shape, lemma_findings_upto_shape, lemma_plain_name_is_safe,
    log_findings, logical_lines, safe_request,
};
use crate::state::{
    byte_range, digests_view, fingerprint_input, le_bytes, lemma_file_records_tell_apart, lemma_le_bytes_injective,
    lemma_le_bytes_len, locked_project_path, output_holds, record_text, recorded_outputs, OutputDigest,
};
use crate::text::{find, starts_with, trim};
use crate::estimate::TimingSample;
use crate::timing::{kept_samples, MAX_SAMPLES};
use crate::package::{suite_input, with_offline};
use crate::settings::{leaf_step_of, restore_of, LeafState, LeafStep, SettingRestore};
use crate::texls::{desired_exclusions, updated_exclusions};
use crate::building::{
    build_plan_of, cacheable, discovery_runs_left, discovery_transition, discovery_wf, pass_transition, passes_wf,
    BuildPlan, DiscoveryAction, DiscoveryState, PassAction, PassOutcome, PassState, RunOutcome,
    MAX_CONVERGENCE_ROUNDS,
};
use crate::adoption::{adoption_configures, conflict_review_of, ConflictReview};
use crate::downloads::{first_download_of, FirstDownload};
use crate::watching::{watch_transition, watch_wf, WatchAction, WatchEvent, WatchPhase, WatchState, SETTLE_CHECKS};

verus! {

/// Every engine run pins the clocks the engine can observe: its
/// environment ends with `SOURCE_DATE_EPOCH` set to the build timestamp
/// and `FORCE_SOURCE_DATE` set to 1.
pub proof fn law_engine_runs_pin_the_clock(t: ResolvedToolchain, c: EngineEnvironmentContext)
    ensures
        ({
            let e = engine_environment_of(t, c);
            &&& e.len() >= 2
            &&& e[e.len() - 2] == ("SOURCE_DATE_EPOCH"@, decimal(c.source_date_epoch as nat))
            &&& e[e.len() - 1] == ("FORCE_SOURCE_DATE"@, "1"@)
        }),
{
    let e = engine_environment_of(t, c);
    let d = source_date(decimal(c.source_date_epoch as nat));
    assert(e == e.subrange(0, e.len() - 2) + d);
}

/// A run searches the system trees only when it is a discovery run: the
/// search path of a plain run ends with an empty entry exactly then.
pub proof fn law_only_discovery_falls_back_to_system_trees(
    output_dir: Seq<char>,
    texmf: Seq<char>,
    input_roots: Seq<Seq<char>>,
    discovery: bool,
)
    ensures
        ({
            let v = package_search_value(output_dir, texmf, input_roots, discovery);
            v.len() > 0 && (v.last() == ':' <==> discovery)
        }),
{
    let roots = crate::environment::package_search_roots(output_dir, texmf, input_roots);
    let entries = roots.map_values(|r: Seq<char>| search_entry(r));
    let joined = join_with(entries, ":"@);
    assert(entries.len() >= 2);
    assert(entries.last() == search_entry(texmf));
    assert(joined == join_with(entries.drop_last(), ":"@) + ":"@ + entries.last());
    reveal_strlit(".");
    reveal_strlit("//");
    reveal_strlit(":");
    let last = search_entry(texmf);
    assert(last.len() > 0 && last.last() != ':');
    assert(joined.last() == last.last());
    if !discovery {
        assert(package_search_value(output_dir, texmf, input_roots, discovery) =~= joined);
    }
}

/// Only final and verification passes stop at the first error; discovery
/// passes run on to find every missing input.
pub proof fn law_only_final_passes_halt_on_error()
    ensures
        interaction_arguments(true).contains("-halt-on-error"@),
        !interaction_arguments(false).contains("-halt-on-error"@),
{
    reveal_strlit("-halt-on-error");
    reveal_strlit("-interaction=nonstopmode");
    reveal_strlit("-file-line-error");
    assert(interaction_arguments(true)[2] == "-halt-on-error"@);
    assert(interaction_arguments(false) =~= seq!["-interaction=nonstopmode"@, "-file-line-error"@]);
    assert("-interaction=nonstopmode"@.len() != "-halt-on-error"@.len());
    assert("-file-line-error"@.len() != "-halt-on-error"@.len());
}

/// Escaped text holds no XML markup: no `<`, `>`, `"` or `'` survives.
pub proof fn law_escaped_text_holds_no_markup(s: Seq<char>)
    ensures
        !xml_escaped(s).contains('<'),
        !xml_escaped(s).contains('>'),
        !xml_escaped(s).contains('"'),
        !xml_escaped(s).contains('\''),
    decreases s.len(),
{
    if s.len() == 0 {
        assert(xml_escaped(s) =~= Seq::<char>::empty());
    } else {
        let f = |c: char| xml_char(c);
        let init = s.drop_last();
        law_escaped_text_holds_no_markup(init);
        assert(s == init.push(s.last()));
        assert(s.map_values(f) == init.map_values(f).push(f(s.last())));
        init.map_values(f).lemma_flatten_push(f(s.last()));
        let piece = xml_char(s.last());
        reveal_strlit("&amp;");
        reveal_strlit("&lt;");
        reveal_strlit("&gt;");
        reveal_strlit("&quot;");
        reveal_strlit("&apos;");
        assert(!piece.contains('<') && !piece.contains('>') && !piece.contains('"') && !piece.contains('\''));
        let whole = xml_escaped(init) + piece;
        assert(xml_escaped(s) == whole);
        assert forall|c: char| c == '<' || c == '>' || c == '"' || c == '\'' implies !whole.contains(c) by {
            if whole.contains(c) {
                let k = choose|k: int| 0 <= k < whole.len() && whole[k] == c;
                if k < xml_escaped(init).len() {
                    assert(xml_escaped(init).contains(c));
                } else {
                    assert(piece[k - xml_escaped(init).len()] == c);
                }
            }
        }
    }
}

/// The median of some durations is one of them.
pub proof fn law_the_median_is_one_of_the_values(values: Seq<u64>)
    requires
        values.len() > 0,
    ensures
        values.contains(median_of(values)),
{
    crate::estimate::lemma_le_u64_total();
    values.lemma_sort_by_ensures(le_u64());
    let sorted = values.sort_by(le_u64());
    assert(sorted.len() == values.len()) by {
        assert(sorted.to_multiset().len() == values.to_multiset().len());
        vstd::seq_lib::to_multiset_len(sorted);
        vstd::seq_lib::to_multiset_len(values);
    }
    assert(sorted.contains(sorted[(values.len() / 2) as int]));
}

/// A frozen restore never proceeds silently: it writes the locked package
/// lock, or it fails.
pub proof fn law_frozen_restores_never_drop_the_lock(lock_path: Seq<char>, lock: Option<LockSummary>)
    ensures
        restore_outcome(lock_path, lock, true) is Err || restore_outcome(lock_path, lock, true) == Ok::<Restore, Seq<char>>(
            Restore::WritePackageLock,
        ),
{
}

/// Reporting the same phase twice shows its stage once: the second report
/// stays in the stage the first one opened.
pub proof fn law_a_repeated_phase_stays_in_its_stage(kind: PhaseKind, current: Option<LiveStage>)
    ensures
        stage_of(kind, Some(stage_of(kind, current))) == stage_of(kind, current),
{
}

/// The recorder's spelling of a path always matches the path itself.
pub proof fn law_a_path_matches_its_own_spelling(path: Seq<char>)
    ensures
        spelling_matches(path, path),
{
    let r = crate::recorder::portable_text(path);
    assert forall|i: int| 0 <= i < r.len() implies #[trigger] spelling_agrees(r[i], r[i]) by {}
}

/// A build reports each warning once.
pub proof fn law_reported_warnings_are_distinct(report: Seq<crate::warnings::BuildWarning>)
    requires
        pairs_sorted(keyed(report)),
    ensures
        forall|i: int, j: int| 0 <= i < j < report.len() ==> keyed(report)[i] != keyed(report)[j],
{
    assert forall|i: int, j: int| 0 <= i < j < report.len() implies keyed(report)[i] != keyed(report)[j] by {
        lemma_pair_lt_facts(keyed(report)[i], keyed(report)[i], keyed(report)[i]);
    }
}

/// A valid manifest keeps its entry and every derived path inside the
/// project: each is a non-empty relative path of portable components (so
/// none climbs out with `..`); the build directory, lock and TEXMF tree lie
/// below `.texe`, at least one level down, and no two of them (nor any of
/// them and the store) are equal or nested; it names the current schema, a
/// known link mode, no blank command, at most 128 generated inputs, and a
/// pass limit between 2 and 20.
pub proof fn law_valid_manifests_stay_inside_the_project(m: ProjectManifest)
    requires
        manifest_problem(m) is None,
    ensures
        !empty_or_absolute(m.project.entry@) && portable_components(m.project.entry@),
        !empty_or_absolute(m.project.build_dir@) && portable_components(m.project.build_dir@),
        !empty_or_absolute(m.packages.lock@) && portable_components(m.packages.lock@),
        !empty_or_absolute(m.packages.texmf@) && portable_components(m.packages.texmf@),
        2 <= m.toolchain.max_passes <= 20,
        m.schema@ == crate::config::PROJECT_SCHEMA@,
        crate::config::link_mode(m.packages.link@),
        components(m.project.build_dir@).len() >= 2 && components(m.project.build_dir@)[0] == ".texe"@,
        components(m.packages.lock@).len() >= 2 && components(m.packages.lock@)[0] == ".texe"@,
        components(m.packages.texmf@).len() >= 2 && components(m.packages.texmf@)[0] == ".texe"@,
        !crate::paths::overlap(m.project.build_dir@, m.packages.lock@),
        !crate::paths::overlap(m.project.build_dir@, m.packages.texmf@),
        !crate::paths::overlap(m.packages.lock@, m.packages.texmf@),
        m.packages.store matches Some(s) ==> !crate::paths::overlap(m.project.build_dir@, s@)
            && !crate::paths::overlap(m.packages.lock@, s@) && !crate::paths::overlap(m.packages.texmf@, s@),
        m.project.generated@.len() <= crate::config::MAX_GENERATED_INPUTS,
        trim(m.toolchain.provider@).len() > 0 && trim(m.toolchain.engine@).len() > 0 && trim(m.toolchain.channel@).len() > 0
            && trim(m.toolchain.adapter@).len() > 0 && trim(m.toolchain.kpsewhich@).len() > 0 && trim(
            m.packages.manager@,
        ).len() > 0 && trim(m.packages.trace_adapter@).len() > 0 && trim(m.bibliography.bibtex@).len() > 0 && trim(
            m.bibliography.biber@,
        ).len() > 0 && trim(m.index.makeindex@).len() > 0,
{
    reveal(manifest_problem);
    assert(crate::config::derived_path_problem("project.build_dir"@, m.project.build_dir@) is None);
    assert(crate::config::derived_path_problem("packages.lock"@, m.packages.lock@) is None);
    assert(crate::config::derived_path_problem("packages.texmf"@, m.packages.texmf@) is None);
    assert(crate::config::overlap_problem(m) is None);
    assert(crate::config::generated_problem(m.project.generated@) is None);
    assert(crate::config::empty_command_problem(m) is None);
}

/// One of the shared cache directories a sweep may touch.
pub open spec fn cache_directory(directory: Seq<char>) -> bool {
    directory == "toolchains"@ || directory == "formats"@ || directory == "components"@ || directory == "downloads"@
}

/// A sweep removes only entries it was given, and unless everything is
/// swept, only entries of texe's own cache directories that no live
/// toolchain, format, component or download uses.
pub proof fn law_sweeps_remove_only_orphaned_cache_entries(
    options: CleanOptions,
    live: LiveToolchainArtifacts,
    listing: Seq<CacheEntry>,
    n: int,
)
    requires
        0 <= n <= listing.len(),
    ensures
        forall|k: int|
            0 <= k < swept_paths(options, live, listing, n).len() ==> exists|j: int|
                0 <= j < n && listing[j].path@ == #[trigger] swept_paths(options, live, listing, n)[k] && (options.all || (
                cache_directory(listing[j].directory@) && !is_retained(listing[j].directory@, listing[j].name@, live))),
    decreases n,
{
    if n > 0 {
        law_sweeps_remove_only_orphaned_cache_entries(options, live, listing, n - 1);
        let before = swept_paths(options, live, listing, n - 1);
        let after = swept_paths(options, live, listing, n);
        let e = listing[n - 1];
        if crate::clean::swept(options, live, e) {
            assert(after == before.push(e.path@));
            assert(options.all || (cache_directory(e.directory@) && !is_retained(e.directory@, e.name@, live)));
        } else {
            assert(after == before);
        }
        assert forall|k: int| 0 <= k < after.len() implies exists|j: int|
            0 <= j < n && listing[j].path@ == #[trigger] swept_paths(options, live, listing, n)[k] && (options.all || (
            cache_directory(listing[j].directory@) && !is_retained(listing[j].directory@, listing[j].name@, live))) by {
            if k < before.len() {
                assert(after[k] == before[k]);
                let j = choose|j: int|
                    0 <= j < n - 1 && listing[j].path@ == #[trigger] swept_paths(options, live, listing, n - 1)[k] && (
                    options.all || (cache_directory(listing[j].directory@) && !is_retained(
                        listing[j].directory@,
                        listing[j].name@,
                        live,
                    )));
                assert(0 <= j < n && listing[j].path@ == swept_paths(options, live, listing, n)[k]);
            } else {
                assert(after[k] == listing[n - 1].path@);
                assert(listing[n - 1].path@ == swept_paths(options, live, listing, n)[k]);
            }
        }
    }
}

/// What a build records is what the next build checks: every output of a
/// recorded state, read back with the bytes it was recorded with, still
/// holds, where its path lies in the project and the file is not empty.
pub proof fn law_recorded_outputs_verify_against_their_bytes(
    root: Seq<char>,
    outputs: Seq<(String, Vec<u8>)>,
    recorded: Seq<OutputDigest>,
)
    requires
        digests_view(recorded) == recorded_outputs(root, outputs),
        forall|i: int|
            0 <= i < outputs.len() ==> locked_project_path(relative_or_original(root, #[trigger] outputs[i].0@))
                && outputs[i].1@.len() > 0,
    ensures
        forall|i: int| 0 <= i < recorded.len() ==> output_holds(#[trigger] recorded[i], Some(outputs[i].1@)),
{
    assert(recorded.len() == digests_view(recorded).len());
    assert(outputs.len() == recorded_outputs(root, outputs).len());
    assert forall|i: int| 0 <= i < recorded.len() implies output_holds(#[trigger] recorded[i], Some(outputs[i].1@)) by {
        assert(digests_view(recorded)[i] == (recorded[i].path@, recorded[i].digest@));
        assert(recorded_outputs(root, outputs)[i] == (relative_or_original(root, outputs[i].0@), digest_text(outputs[i].1@)));
    }
}

/// Merging texe's block into a `.gitignore` that has none keeps the user's
/// lines first, as they were (trailing blank lines aside).
pub proof fn law_gitignore_keeps_user_lines(original: Seq<char>, m: ProjectManifest)
    requires
        find(original, GITIGNORE_START@) is None,
    ensures
        starts_with(gitignore_text(original, m), trim_newlines(original)),
{
    let kept = trim_newlines(original);
    let g = gitignore_text(original, m);
    assert(without_owned_block(original, GITIGNORE_START@, GITIGNORE_END@) == original);
    assert(g.subrange(0, kept.len() as int) =~= kept);
}

/// A managed run reaches only the managed binaries: unless the project
/// opts into shell escape, its environment sets `PATH` once, to the
/// runtime's binary directory.
pub proof fn law_managed_runs_see_only_managed_binaries(
    t: ResolvedToolchain,
    c: EngineEnvironmentContext,
    runtime: ManagedRuntime,
    format: ManagedFormat,
)
    requires
        t.managed == Some(runtime),
        c.managed_format == Some(format),
        !c.shell_escape,
    ensures
        ({
            let e = engine_environment_of(t, c);
            &&& exists|i: int| 0 <= i < e.len() && #[trigger] e[i] == ("PATH"@, runtime.binary_dir@)
            &&& forall|i: int| 0 <= i < e.len() && (#[trigger] e[i]).0 == "PATH"@ ==> e[i].1 == runtime.binary_dir@
        }),
{
    let e = engine_environment_of(t, c);
    reveal_strlit("PATH");
    reveal_strlit("TEXMFHOME");
    reveal_strlit("TEXMFVAR");
    reveal_strlit("TEXMFCACHE");
    reveal_strlit("TEXMFCONFIG");
    reveal_strlit("TEXMFSYSVAR");
    reveal_strlit("TEXMFSYSCONFIG");
    reveal_strlit("TEXFORMATS");
    reveal_strlit("TEXFONTMAPS");
    reveal_strlit("TEXINPUTS");
    reveal_strlit("TEXINPUTS_");
    reveal_strlit("LUAINPUTS");
    reveal_strlit("LUAINPUTS_");
    reveal_strlit("OSFONTDIR");
    reveal_strlit("SOURCE_DATE_EPOCH");
    reveal_strlit("FORCE_SOURCE_DATE");
    assert(e.len() == 16);
    assert(e[13] == ("PATH"@, runtime.binary_dir@));
    assert forall|i: int| 0 <= i < e.len() && (#[trigger] e[i]).0 == "PATH"@ implies e[i].1 == runtime.binary_dir@ by {
        assert(e[i].0.len() == 4);
        if i != 13 {
            assert(e[i].0.len() != 4);
        }
    }
}

proof fn lemma_valid_paths(m: ProjectManifest)
    requires
        manifest_problem(m) is None,
    ensures
        crate::config::portable_path_problem("project.entry"@, m.project.entry@) is None,
        crate::config::derived_path_problem("project.build_dir"@, m.project.build_dir@) is None,
        crate::config::derived_path_problem("packages.lock"@, m.packages.lock@) is None,
        crate::config::derived_path_problem("packages.texmf"@, m.packages.texmf@) is None,
{
    reveal(manifest_problem);
}

/// Cleaning a valid project removes only paths inside texe's private
/// `.texe` directory: never `texe.lock`, the entry, or the PDF published
/// at the project root, which all lie outside it.
pub proof fn law_cleaning_keeps_the_lock_and_the_published_artifact(m: ProjectManifest)
    requires
        manifest_problem(m) is None,
    ensures
        forall|i: int|
            0 <= i < project_targets(m).len() ==> components(#[trigger] project_targets(m)[i]).len() >= 2
                && components(project_targets(m)[i])[0] == ".texe"@,
        !(components(m.project.entry@).len() > 0 && components(m.project.entry@)[0] == ".texe"@),
{
    lemma_valid_paths(m);
    assert forall|i: int| 0 <= i < project_targets(m).len() implies components(#[trigger] project_targets(m)[i]).len() >= 2
        && components(project_targets(m)[i])[0] == ".texe"@ by {
        if i == 0 {
            assert(project_targets(m)[i] == m.project.build_dir@);
        } else if i == 1 {
            assert(project_targets(m)[i] == m.packages.texmf@);
        } else {
            assert(project_targets(m)[i] == m.packages.lock@);
        }
    }
}

/// What the output cache records is what it restores: once an output below
/// the output directory is recorded under a key, restoring that key with
/// the same inputs and the same bytes reuses it, and with other inputs it
/// does not.
pub proof fn law_a_recorded_output_is_restored(
    entries: Map<Seq<char>, (Seq<char>, Seq<char>, Seq<char>)>,
    key: Seq<char>,
    input_digest: Seq<char>,
    other_input: Seq<char>,
    root: Seq<char>,
    output: Seq<char>,
    bytes: Seq<u8>,
)
    requires
        relative_output(root, output) is Some,
        other_input != input_digest,
    ensures
        ({
            let recorded = entries.insert(key, (input_digest, relative_output(root, output)->0, digest_text(bytes)));
            &&& recorded.dom().contains(key)
            &&& cached_matches(recorded[key], input_digest, root, output, Some(bytes))
            &&& !cached_matches(recorded[key], other_input, root, output, Some(bytes))
        }),
{
}

/// The timing history keeps the newest builds: adding a sample to a history
/// that was within its limit leaves it within the limit, with the new
/// sample last and, before it, the newest of the earlier samples in order.
pub proof fn law_timing_history_keeps_the_newest_samples(samples: Seq<TimingSample>, sample: TimingSample)
    requires
        samples.len() <= MAX_SAMPLES,
    ensures
        ({
            let kept = kept_samples(samples, sample);
            &&& kept.len() <= MAX_SAMPLES
            &&& kept.len() >= 1
            &&& kept.last() == sample
            &&& kept.len() - 1 <= samples.len()
            &&& forall|i: int|
                0 <= i < kept.len() - 1 ==> #[trigger] kept[i] == samples[samples.len() - (kept.len() - 1) + i]
        }),
{
}

/// An offline pqty command says `--offline` once: adding it again changes
/// nothing, and the command then starts with it unless it already held it.
pub proof fn law_offline_is_said_once(args: Seq<Seq<char>>)
    ensures
        with_offline(true, with_offline(true, args)) == with_offline(true, args),
        with_offline(true, args).contains("--offline"@),
        !args.contains("--offline"@) ==> with_offline(true, args)[0] == "--offline"@,
        with_offline(false, args) == args,
{
    if !args.contains("--offline"@) {
        let w = seq!["--offline"@] + args;
        assert(w[0] == "--offline"@);
        assert(w.contains("--offline"@));
    }
}

/// The state after `n` more observations that each differ from the last.
pub open spec fn after_changes(s: WatchState, n: nat) -> WatchState
    decreases n,
{
    if n == 0 {
        s
    } else {
        watch_transition(after_changes(s, (n - 1) as nat), WatchEvent::Changed).0
    }
}

/// Watch builds are numbered one after another: every step keeps the
/// watch well formed, a step builds exactly when the number moves on by
/// one, and then under the new number; an unchanged project is only polled
/// again, and an interrupt always stops.
pub proof fn law_watch_builds_count_up(s: WatchState, e: WatchEvent)
    requires
        watch_wf(s),
        s.build_number < u64::MAX,
    ensures
        ({
            let (t, a) = watch_transition(s, e);
            &&& watch_wf(t)
            &&& (t.build_number == s.build_number || t.build_number == s.build_number + 1)
            &&& (a is Build <==> t.build_number == s.build_number + 1)
            &&& (a matches WatchAction::Build(n) ==> n == t.build_number && t.phase == WatchPhase::Waiting)
            &&& (e == WatchEvent::Interrupted ==> a == WatchAction::Stop && t == s)
            &&& (s.phase == WatchPhase::Waiting && e == WatchEvent::Unchanged ==> a == WatchAction::Poll && t == s)
        }),
{
}

/// A change never waits long to be built: however often the project keeps
/// changing, a settling change is built on the eighth short wait at the
/// latest.
pub proof fn law_a_change_is_built_within_eight_waits(s: WatchState, k: u8)
    requires
        s.phase == WatchPhase::Settling(k),
        k < SETTLE_CHECKS,
        s.build_number < u64::MAX,
    ensures
        ({
            let last = after_changes(s, (SETTLE_CHECKS - 1 - k) as nat);
            &&& last.phase == WatchPhase::Settling((SETTLE_CHECKS - 1) as u8)
            &&& last.build_number == s.build_number
            &&& watch_transition(last, WatchEvent::Changed).1 == WatchAction::Build((s.build_number + 1) as u64)
        }),
    decreases SETTLE_CHECKS - k,
{
    if k + 1 < SETTLE_CHECKS {
        let next = watch_transition(s, WatchEvent::Changed).0;
        law_a_change_is_built_within_eight_waits(next, (k + 1) as u8);
        lemma_after_changes_shift(s, (SETTLE_CHECKS - 2 - k) as nat);
    }
}

proof fn lemma_after_changes_shift(s: WatchState, n: nat)
    ensures
        after_changes(s, n + 1) == after_changes(watch_transition(s, WatchEvent::Changed).0, n),
    decreases n,
{
    let t = watch_transition(s, WatchEvent::Changed).0;
    if n > 0 {
        lemma_after_changes_shift(s, (n - 1) as nat);
        assert(after_changes(s, n + 1) == watch_transition(after_changes(s, n), WatchEvent::Changed).0);
        assert(after_changes(t, n) == watch_transition(after_changes(t, (n - 1) as nat), WatchEvent::Changed).0);
    } else {
        assert(after_changes(s, 0) == s);
        assert(after_changes(s, 1) == watch_transition(after_changes(s, 0), WatchEvent::Changed).0);
        assert(after_changes(t, 0) == t);
    }
}

/// A first build that would download runtime components or packages asks
/// first wherever it can ask (a terminal, no JSON output) and the user did
/// not accept ahead, and it asks nowhere else; offline it refuses to start
/// without the runtime components it lacks. Later builds never ask.
pub proof fn law_first_downloads_need_consent(
    first_build: bool,
    preflight: Option<(Seq<char>, nat, nat)>,
    might_download_packages: bool,
    offline: bool,
    accepted: bool,
    json: bool,
    can_prompt: bool,
)
    ensures
        ({
            let needs_runtime = preflight matches Some(p) && p.1 > 0;
            let r = first_download_of(first_build, preflight, might_download_packages, offline, accepted, json, can_prompt);
            &&& (first_build && (needs_runtime || might_download_packages) && !offline && !accepted && !json && can_prompt
                ==> r == Ok::<FirstDownload, Seq<char>>(FirstDownload::Confirm))
            &&& (first_build && needs_runtime && offline ==> r is Err)
            &&& (!first_build ==> r == Ok::<FirstDownload, Seq<char>>(FirstDownload::Proceed))
            &&& (r == Ok::<FirstDownload, Seq<char>>(FirstDownload::Confirm) ==> !accepted && !offline && can_prompt)
        }),
{
}

/// An adoption never overwrites the user's conflicting editor settings on
/// its own: it goes on over conflicts only when told to replace them, and
/// it asks only where it can.
pub proof fn law_conflicting_settings_need_consent(has_conflicts: bool, replace_conflicts: bool, yes: bool, json: bool, can_prompt: bool)
    ensures
        ({
            let r = conflict_review_of(has_conflicts, replace_conflicts, yes, json, can_prompt);
            &&& (r matches ConflictReview::Proceed(replace) ==> replace == replace_conflicts && (has_conflicts ==> replace))
            &&& (r == ConflictReview::Ask ==> can_prompt && !json && !yes && has_conflicts)
        }),
{
}

/// A command-suite fingerprint is in texe's `sha256:` form, and what it
/// hashes differs wherever the trace adapter's contents differ, all else
/// the same. (That different hashed input gives a different digest rests on
/// SHA-256 itself and is not stated.)
pub proof fn law_suite_fingerprints_hash_the_executables(
    capabilities_json: Seq<u8>,
    manager_identity: Seq<u8>,
    manager_bytes: Seq<u8>,
    adapter_identity: Seq<u8>,
    adapter_bytes: Seq<u8>,
    other_adapter_bytes: Seq<u8>,
)
    ensures
        starts_with(
            digest_text(suite_input(capabilities_json, manager_identity, manager_bytes, adapter_identity, adapter_bytes)),
            "sha256:"@,
        ),
        other_adapter_bytes != adapter_bytes ==> suite_input(
            capabilities_json,
            manager_identity,
            manager_bytes,
            adapter_identity,
            adapter_bytes,
        ) != suite_input(capabilities_json, manager_identity, manager_bytes, adapter_identity, other_adapter_bytes),
{
    let d = digest_text(suite_input(capabilities_json, manager_identity, manager_bytes, adapter_identity, adapter_bytes));
    reveal_strlit("sha256:");
    assert(d.subrange(0, 7) =~= "sha256:"@);
    if other_adapter_bytes != adapter_bytes {
        let a = suite_input(capabilities_json, manager_identity, manager_bytes, adapter_identity, adapter_bytes);
        let b = suite_input(capabilities_json, manager_identity, manager_bytes, adapter_identity, other_adapter_bytes);
        let prefix = vstd::utf8::encode_utf8(crate::package::SUITE_FINGERPRINT_TAG@) + capabilities_json
            + crate::package::executable_record(manager_identity, manager_bytes) + adapter_identity + seq![0u8];
        assert(a =~= prefix + adapter_bytes + seq![0u8]);
        assert(b =~= prefix + other_adapter_bytes + seq![0u8]);
        if a == b {
            if adapter_bytes.len() == other_adapter_bytes.len() {
                assert forall|i: int| 0 <= i < adapter_bytes.len() implies adapter_bytes[i] == other_adapter_bytes[i] by {
                    assert(a[prefix.len() + i] == b[prefix.len() + i]);
                }
                assert(adapter_bytes =~= other_adapter_bytes);
            } else {
                assert(a.len() != b.len());
            }
        }
    }
}

/// `texe adopt --check` changes nothing: whatever the flags and the
/// preflight found, a check never goes on to configure the paper (write its
/// manifest, set up the editor or build).
pub proof fn law_an_adoption_check_changes_nothing(existing: bool, entry_given: bool, engine_given: bool, blockers: nat)
    ensures
        !adoption_configures(existing, entry_given, engine_given, true, blockers),
{
}

/// texe's update of the language server's exclusions keeps the user's own
/// patterns and always ends with the patterns it wants: a pattern texe
/// does not own stays, and the build directory and the package tree are
/// excluded afterwards.
pub proof fn law_user_exclusions_stay(current: Seq<Seq<char>>, owned: Seq<Seq<char>>, m: ProjectManifest)
    ensures
        ({
            let (array, _) = updated_exclusions(current, owned, m);
            &&& forall|v: Seq<char>| current.contains(v) && !owned.contains(v) ==> array.contains(v)
            &&& forall|p: Seq<char>| desired_exclusions(m).contains(p) ==> array.contains(p)
        }),
{
    let desired = desired_exclusions(m);
    let pred = |v: Seq<char>| !(owned.contains(v) && !desired.contains(v));
    let kept = current.filter(pred);
    let added_pred = |p: Seq<char>| !kept.contains(p);
    let added = desired.filter(added_pred);
    let array = kept + added;
    assert forall|v: Seq<char>| current.contains(v) && !owned.contains(v) implies array.contains(v) by {
        let i = choose|i: int| 0 <= i < current.len() && current[i] == v;
        current.lemma_filter_contains(pred, i);
        let j = choose|j: int| 0 <= j < kept.len() && kept[j] == v;
        assert(array[j] == v);
    }
    assert forall|p: Seq<char>| desired.contains(p) implies array.contains(p) by {
        if kept.contains(p) {
            let j = choose|j: int| 0 <= j < kept.len() && kept[j] == p;
            assert(array[j] == p);
        } else {
            let i = choose|i: int| 0 <= i < desired.len() && desired[i] == p;
            desired.lemma_filter_contains(added_pred, i);
            let j = choose|j: int| 0 <= j < added.len() && added[j] == p;
            assert(array[kept.len() + j] == p);
        }
    }
}

/// The VS Code merge never overwrites the user's settings unannounced: a
/// setting that holds a value is written without a conflict only where that
/// value is what texe wrote; and removing the integration only ever touches
/// settings that still hold what texe wrote.
pub proof fn law_user_settings_are_never_silently_replaced(path: Seq<Seq<char>>, s: LeafState, before_recorded: bool, before_existed: bool)
    ensures
        leaf_step_of(path, s) matches Ok(LeafStep::Write { conflict, .. }) ==> (s.present && !conflict ==> s.owned
            == Some(true)),
        leaf_step_of(path, s) matches Ok(LeafStep::Write { new_edit, .. }) ==> (new_edit <==> s.owned is None),
        s.present && s.desired ==> leaf_step_of(path, s) == Ok::<LeafStep, Seq<char>>(LeafStep::Unchanged),
        restore_of(path.len(), false, before_recorded, before_existed) == SettingRestore::Keep,
{
}

/// Package discovery ends: every step that runs the engine again leaves
/// fewer runs to make (at most two per round, sixteen rounds), and it gives
/// up as not converged only in the last round.
pub proof fn law_discovery_ends_within_the_round_limit(s: DiscoveryState, e: RunOutcome)
    requires
        discovery_wf(s),
    ensures
        0 < discovery_runs_left(s) <= 2 * MAX_CONVERGENCE_ROUNDS,
        ({
            let (n, a) = discovery_transition(s, e);
            &&& (a is Discover || a is Verify) ==> 0 < discovery_runs_left(n) < discovery_runs_left(s)
            &&& a is NotConverged ==> s.round == MAX_CONVERGENCE_ROUNDS
        }),
{
}

/// The final passes end: each further pass is the next one, at most the
/// manifest's number of passes run, and the build gives up as unstable
/// only after the last of them.
pub proof fn law_final_passes_stop_at_the_pass_limit(s: PassState, max_passes: usize, e: PassOutcome)
    requires
        passes_wf(s, max_passes),
    ensures
        ({
            let (n, a) = pass_transition(s, max_passes, e);
            &&& a is Next ==> n.pass == s.pass + 1 && n.pass <= max_passes
            &&& a is Unstable ==> s.pass == max_passes
            &&& a is NotConverged ==> s.convergence_rounds == MAX_CONVERGENCE_ROUNDS
        }),
{
}

/// A build is reused only where it is pinned (managed provider, no shell
/// escape, no unmanaged commands), not forced, and current; `--frozen`
/// never discovers packages.
pub proof fn law_only_pinned_unforced_builds_are_reused(
    provider: Seq<char>,
    shell_escape: bool,
    unmanaged: bool,
    force: bool,
    frozen: bool,
    has_current_build: bool,
    discovery_required: bool,
)
    ensures
        build_plan_of(provider, shell_escape, unmanaged, force, frozen, has_current_build, discovery_required)
            == BuildPlan::Reuse <==> (cacheable(provider, shell_escape, unmanaged) && !force && has_current_build),
        frozen ==> build_plan_of(provider, shell_escape, unmanaged, force, frozen, has_current_build, discovery_required)
            != (BuildPlan::Build { discover: true }),
{
}

/// What precedes and what follows being the same, two byte strings agree
/// exactly when what stands between agrees.
proof fn lemma_middle_agrees(p: Seq<u8>, x1: Seq<u8>, x2: Seq<u8>, q: Seq<u8>)
    requires
        p + x1 + q == p + x2 + q,
    ensures
        x1 == x2,
{
    let t = p + x1 + q;
    let u = p + x2 + q;
    assert(t.len() == p.len() + x1.len() + q.len());
    assert(u.len() == p.len() + x2.len() + q.len());
    assert(x1.len() == x2.len());
    assert forall|i: int| 0 <= i < x1.len() implies x1[i] == x2[i] by {
        assert(t[p.len() + i] == x1[i]);
        assert(u[p.len() + i] == x2[i]);
    }
    assert(x1 =~= x2);
}

/// The build fingerprint hashes every edit it is meant to notice: all else
/// the same, a different timestamp, manifest, toolchain identity, command
/// suite fingerprint or lock gives a different hashed input, and so does a
/// change to the locked files (same paths) that changes the digest of one
/// of them or deletes or creates one. (That a different hashed input gives
/// a different fingerprint rests on SHA-256 itself and is not stated.)
pub proof fn law_fingerprints_hash_every_edit(
    version: Seq<char>,
    epoch: u64,
    other_epoch: u64,
    manifest_json: Seq<u8>,
    other_manifest_json: Seq<u8>,
    toolchain_json: Seq<u8>,
    other_toolchain_json: Seq<u8>,
    suite: Seq<char>,
    other_suite: Seq<char>,
    lock: Seq<u8>,
    other_lock: Seq<u8>,
    files: Seq<(Seq<char>, Option<Seq<u8>>)>,
    other_files: Seq<(Seq<char>, Option<Seq<u8>>)>,
)
    requires
        other_files.len() == files.len(),
        forall|i: int| 0 <= i < files.len() ==> #[trigger] other_files[i].0 == files[i].0,
    ensures
        ({
            let base = fingerprint_input(version, epoch, manifest_json, toolchain_json, suite, lock, files);
            &&& fingerprint_input(version, other_epoch, manifest_json, toolchain_json, suite, lock, files) == base
                ==> other_epoch == epoch
            &&& fingerprint_input(version, epoch, other_manifest_json, toolchain_json, suite, lock, files) == base
                ==> other_manifest_json == manifest_json
            &&& fingerprint_input(version, epoch, manifest_json, other_toolchain_json, suite, lock, files) == base
                ==> other_toolchain_json == toolchain_json
            &&& fingerprint_input(version, epoch, manifest_json, toolchain_json, other_suite, lock, files) == base
                ==> other_suite == suite
            &&& fingerprint_input(version, epoch, manifest_json, toolchain_json, suite, other_lock, files) == base
                ==> other_lock == lock
            &&& fingerprint_input(version, epoch, manifest_json, toolchain_json, suite, lock, other_files) == base
                ==> forall|i: int|
                0 <= i < files.len() ==> record_text(#[trigger] other_files[i].1) == record_text(files[i].1) && (
                other_files[i].1 is Some <==> files[i].1 is Some)
        }),
{
    let pre = vstd::utf8::encode_utf8(crate::state::STATE_SCHEMA@) + vstd::utf8::encode_utf8(version);
    let le = |e: u64| le_bytes(e as nat, 8);
    let cs = |c: Seq<char>| vstd::utf8::encode_utf8(c);
    let fr = |f: Seq<(Seq<char>, Option<Seq<u8>>)>| crate::state::file_records(f);
    let base = fingerprint_input(version, epoch, manifest_json, toolchain_json, suite, lock, files);
    let tail = manifest_json + toolchain_json + cs(suite) + lock + fr(files);
    if fingerprint_input(version, other_epoch, manifest_json, toolchain_json, suite, lock, files) == base {
        let x = fingerprint_input(version, other_epoch, manifest_json, toolchain_json, suite, lock, files);
        assert(base =~= pre + le(epoch) + tail);
        assert(x =~= pre + le(other_epoch) + tail);
        lemma_le_bytes_len(epoch as nat, 8);
        lemma_le_bytes_len(other_epoch as nat, 8);
        lemma_middle_agrees(pre, le(epoch), le(other_epoch), tail);
        assert(byte_range(8) == 0x1_0000_0000_0000_0000) by {
            reveal_with_fuel(byte_range, 9);
        }
        lemma_le_bytes_injective(epoch as nat, other_epoch as nat, 8);
    }
    let p1 = pre + le(epoch);
    if fingerprint_input(version, epoch, other_manifest_json, toolchain_json, suite, lock, files) == base {
        let x = fingerprint_input(version, epoch, other_manifest_json, toolchain_json, suite, lock, files);
        let q = toolchain_json + cs(suite) + lock + fr(files);
        assert(base =~= p1 + manifest_json + q);
        assert(x =~= p1 + other_manifest_json + q);
        lemma_middle_agrees(p1, manifest_json, other_manifest_json, q);
    }
    let p2 = p1 + manifest_json;
    if fingerprint_input(version, epoch, manifest_json, other_toolchain_json, suite, lock, files) == base {
        let x = fingerprint_input(version, epoch, manifest_json, other_toolchain_json, suite, lock, files);
        let q = cs(suite) + lock + fr(files);
        assert(base =~= p2 + toolchain_json + q);
        assert(x =~= p2 + other_toolchain_json + q);
        lemma_middle_agrees(p2, toolchain_json, other_toolchain_json, q);
    }
    let p3 = p2 + toolchain_json;
    if fingerprint_input(version, epoch, manifest_json, toolchain_json, other_suite, lock, files) == base {
        let x = fingerprint_input(version, epoch, manifest_json, toolchain_json, other_suite, lock, files);
        let q = lock + fr(files);
        assert(base =~= p3 + cs(suite) + q);
        assert(x =~= p3 + cs(other_suite) + q);
        lemma_middle_agrees(p3, cs(suite), cs(other_suite), q);
        vstd::utf8::encode_utf8_decode_utf8(suite);
        vstd::utf8::encode_utf8_decode_utf8(other_suite);
    }
    let p4 = p3 + cs(suite);
    if fingerprint_input(version, epoch, manifest_json, toolchain_json, suite, other_lock, files) == base {
        let x = fingerprint_input(version, epoch, manifest_json, toolchain_json, suite, other_lock, files);
        assert(base =~= p4 + lock + fr(files));
        assert(x =~= p4 + other_lock + fr(files));
        lemma_middle_agrees(p4, lock, other_lock, fr(files));
    }
    let p5 = p4 + lock;
    if fingerprint_input(version, epoch, manifest_json, toolchain_json, suite, lock, other_files) == base {
        let x = fingerprint_input(version, epoch, manifest_json, toolchain_json, suite, lock, other_files);
        assert(base =~= p5 + fr(files) + Seq::<u8>::empty());
        assert(x =~= p5 + fr(other_files) + Seq::<u8>::empty());
        lemma_middle_agrees(p5, fr(files), fr(other_files), Seq::<u8>::empty());
        lemma_file_records_tell_apart(files, other_files);
        reveal_strlit("absent");
        reveal_strlit("sha256:");
        assert forall|i: int| 0 <= i < files.len() implies record_text(#[trigger] other_files[i].1) == record_text(
            files[i].1,
        ) && (other_files[i].1 is Some <==> files[i].1 is Some) by {
            assert(record_text(files[i].1) == record_text(other_files[i].1));
            assert(record_text(files[i].1)[0] == if files[i].1 is Some { 's' } else { 'a' });
            assert(record_text(other_files[i].1)[0] == if other_files[i].1 is Some { 's' } else { 'a' });
        }
    }
}

/// What the analysis of an engine log asks the package registry for is
/// always a relative, portable file name (not rooted, no backslash, no
/// empty, `.` or `..` component) of a known kind, given Babel definition
/// files of that form; the definition file that a locale descriptor names
/// always has it.
pub proof fn law_missing_inputs_are_registry_requests(
    log: Seq<char>,
    definitions: Seq<(Seq<char>, Seq<char>)>,
    descriptor: Seq<char>,
)
    requires
        forall|j: int| 0 <= j < definitions.len() ==> safe_request(#[trigger] definitions[j].1),
    ensures
        forall|f: (Seq<char>, Seq<char>)| #[trigger] log_findings(log, definitions).contains(f) ==> safe_request(f.0)
            && known_kind(f.1),
        babel_definition_in(descriptor) matches Some(f) ==> safe_request(f),
{
    lemma_findings_upto_shape(logical_lines(log), definitions, logical_lines(log).len() as int);
    lemma_babel_definition_shape(descriptor);
    if let Some(f) = babel_definition_in(descriptor) {
        lemma_plain_name_is_safe(f);
    }
}

proof fn lemma_removed_directories_offered(directories: Seq<Seq<char>>, removed: Seq<bool>, n: int)
    ensures
        forall|k: int| 0 <= k < removed_directories(directories, removed, n).len() ==> directories.contains(
            #[trigger] removed_directories(directories, removed, n)[k],
        ),
    decreases n,
{
    if 0 < n <= directories.len() && n <= removed.len() {
        lemma_removed_directories_offered(directories, removed, n - 1);
        let before = removed_directories(directories, removed, n - 1);
        if removed[n - 1] {
            assert forall|k: int| 0 <= k < before.push(directories[n - 1]).len() implies directories.contains(
                #[trigger] before.push(directories[n - 1])[k],
            ) by {
                if k < before.len() {
                    assert(before.push(directories[n - 1])[k] == before[k]);
                } else {
                    assert(directories[n - 1] == before.push(directories[n - 1])[k]);
                }
            }
        }
    }
}

/// A clean reports what a measure of the same project state reports, then
/// only enclosing directories that it emptied and removed: the measured
/// project paths are a prefix of the cleaned ones, and every path after
/// them is one of the directories offered.
pub proof fn law_a_clean_extends_its_measure(
    start: Seq<Seq<char>>,
    m: ProjectManifest,
    sizes: Seq<Option<u64>>,
    directories: Seq<Seq<char>>,
    removed: Seq<bool>,
)
    ensures
        ({
            let measured = start + present_targets(project_targets(m), sizes, 3);
            let cleaned = measured + removed_directories(directories, removed, directories.len() as int);
            &&& measured.is_prefix_of(cleaned)
            &&& forall|k: int| measured.len() <= k < cleaned.len() ==> directories.contains(#[trigger] cleaned[k])
        }),
{
    let measured = start + present_targets(project_targets(m), sizes, 3);
    let extra = removed_directories(directories, removed, directories.len() as int);
    let cleaned = measured + extra;
    assert(cleaned.subrange(0, measured.len() as int) =~= measured);
    lemma_removed_directories_offered(directories, removed, directories.len() as int);
    assert forall|k: int| measured.len() <= k < cleaned.len() implies directories.contains(#[trigger] cleaned[k]) by {
        assert(cleaned[k] == extra[k - measured.len()]);
    }
}

/// Taking texe's settings out of a settings file that is still what texe
/// wrote gives back the file as it was before texe first wrote it (no file,
/// where there was none), whatever the ledger holds.
pub proof fn law_untouched_settings_come_back_as_they_were(
    installed: Seq<char>,
    original: Option<Seq<char>>,
    edits: Seq<EditView>,
)
    ensures
        settings_restore_of(installed, installed, original, edits) == Ok::<Option<Seq<char>>, Seq<char>>(original),
{
}

/// A setting that no longer holds the value texe wrote is the user's: taking
/// texe's settings out leaves it as it is.
pub proof fn law_settings_changed_since_stay(current: Seq<char>, text: Seq<char>, edit: EditView)
    requires
        value_text(current, edit.0) != Some(edit.3),
    ensures
        restore_step(current, text, edit) == Ok::<Seq<char>, Seq<char>>(text),
{
}

/// What each final pass leads to, over every state and outcome: only a
/// stable, successful pass that installed no providers, ran no auxiliary
/// tool and left the auxiliary files as the held snapshot is published; a
/// pass that needed runtime providers always runs again without a snapshot
/// (or ends unstable at the pass limit); a changed environment counts a
/// round and runs again without a snapshot, failing past the round limit; a
/// failed engine run fails the build; otherwise the next pass runs against a
/// snapshot of the auxiliary files as they are now.
pub proof fn law_final_passes_follow_their_outcomes(s: PassState, max_passes: usize, e: PassOutcome)
    requires
        passes_wf(s, max_passes),
    ensures
        ({
            let (n, a) = pass_transition(s, max_passes, e);
            let stable = e.run.convergence == crate::package::Convergence::Stable;
            let again = |refresh: bool, snapshot: bool, rounds: usize|
                if s.pass < max_passes {
                    a == (PassAction::Next { refresh, snapshot }) && n == (PassState {
                        pass: (s.pass + 1) as usize,
                        convergence_rounds: rounds,
                        seeded: snapshot,
                    })
                } else {
                    a == PassAction::Unstable && n.pass == s.pass && n.convergence_rounds == rounds
                };
            &&& (a == PassAction::Stable) <==> (stable && !e.run.providers_required && e.run.succeeded && !e.tools_ran
                && s.seeded && e.auxiliary_unchanged)
            &&& a == PassAction::Stable ==> n == s
            &&& stable && e.run.providers_required ==> again(false, false, s.convergence_rounds)
            &&& !stable && s.convergence_rounds + 1 > MAX_CONVERGENCE_ROUNDS ==> a == PassAction::NotConverged && n == s
            &&& !stable && s.convergence_rounds + 1 <= MAX_CONVERGENCE_ROUNDS ==> again(
                true,
                false,
                (s.convergence_rounds + 1) as usize,
            )
            &&& stable && !e.run.providers_required && !e.run.succeeded ==> a == PassAction::EngineFailed && n == s
            &&& stable && !e.run.providers_required && e.run.succeeded && (e.tools_ran || !s.seeded
                || !e.auxiliary_unchanged) ==> again(false, true, s.convergence_rounds)
            &&& a == PassAction::Unstable ==> s.pass == max_passes
        }),
{
}

/// What each discovery run leads to, over every well-formed state and
/// outcome, whatever the phase: a changed package environment is refreshed
/// and the next round runs (counting the change), or discovery fails to
/// converge after the last round; a run that needed runtime providers runs
/// the next round without a refresh; a stable, successful run has
/// converged; a stable failed discovery run is verified by a fail-fast run
/// of the same round, and a stable failed verification is the document's
/// error.
pub proof fn law_discovery_follows_its_outcomes(s: DiscoveryState, e: RunOutcome)
    requires
        discovery_wf(s),
    ensures
        ({
            let (n, a) = discovery_transition(s, e);
            let stable = e.convergence == crate::package::Convergence::Stable;
            let onward = |refresh: bool, changed: usize|
                if s.round < MAX_CONVERGENCE_ROUNDS {
                    a == (DiscoveryAction::Discover { refresh }) && n == (DiscoveryState {
                        round: (s.round + 1) as usize,
                        phase: crate::building::DiscoveryPhase::Discovering,
                        changed_rounds: changed,
                    })
                } else {
                    a == DiscoveryAction::NotConverged && n == s
                };
            &&& !stable ==> onward(true, (s.changed_rounds + 1) as usize)
            &&& stable && e.providers_required ==> onward(false, s.changed_rounds)
            &&& stable && !e.providers_required && e.succeeded ==> a == DiscoveryAction::Converged && n == s
            &&& stable && !e.providers_required && !e.succeeded && s.phase == crate::building::DiscoveryPhase::Discovering
                ==> a == DiscoveryAction::Verify && n == (DiscoveryState {
                phase: crate::building::DiscoveryPhase::Verifying,
                ..s
            })
            &&& stable && !e.providers_required && !e.succeeded && s.phase == crate::building::DiscoveryPhase::Verifying
                ==> a == DiscoveryAction::EngineFailed && n == s
            &&& a == DiscoveryAction::Converged ==> stable && e.succeeded && !e.providers_required
            &&& a == DiscoveryAction::EngineFailed ==> stable && !e.succeeded && s.phase
                == crate::building::DiscoveryPhase::Verifying
        }),
{
}

/// Whether a lower-cased message mentions `phrase`.
pub open spec fn mentions(lower: Seq<char>, phrase: Seq<char>) -> bool {
    crate::text::contains(lower, phrase)
}

/// Evidence of each family of the catalog, in the order the catalog tries
/// them.
pub open spec fn shows_undefined_command(l: Seq<char>) -> bool {
    mentions(l, "undefined control sequence"@)
}

pub open spec fn shows_unbalanced_group(l: Seq<char>) -> bool {
    mentions(l, "missing }"@) || mentions(l, "extra }"@) || mentions(l, "runaway argument"@) || mentions(
        l,
        "ended by \\end"@,
    )
}

pub open spec fn shows_math_mistake(l: Seq<char>) -> bool {
    mentions(l, "missing $ inserted"@) || mentions(l, "misplaced alignment tab"@) || mentions(
        l,
        "extra alignment tab"@,
    ) || mentions(l, "math mode"@)
}

pub open spec fn shows_missing_input(l: Seq<char>) -> bool {
    ((mentions(l, "file `"@) || mentions(l, "file '"@)) && mentions(l, "not found"@)) || mentions(
        l,
        "i can't find file"@,
    )
}

pub open spec fn shows_unresolved_reference(l: Seq<char>) -> bool {
    (mentions(l, "citation"@) && mentions(l, "undefined"@)) || mentions(l, "there were undefined references"@)
}

pub open spec fn shows_character_problem(l: Seq<char>) -> bool {
    mentions(l, "unicode character"@) || mentions(l, "inputenc error"@) || mentions(l, "missing character"@)
}

pub open spec fn shows_option_clash(l: Seq<char>) -> bool {
    mentions(l, "option clash for package"@)
}

pub open spec fn shows_shell_escape(l: Seq<char>) -> bool {
    mentions(l, "shell escape"@) || mentions(l, "shell-escape"@) || mentions(l, "write18"@)
}

pub open spec fn shows_permission_problem(l: Seq<char>) -> bool {
    mentions(l, "permission denied"@)
}

pub open spec fn shows_full_disk(l: Seq<char>) -> bool {
    mentions(l, "no space left"@) || mentions(l, "disk full"@)
}

/// An engine error is explained by the first family of the catalog whose
/// evidence its lower-cased text holds: an undefined command, unbalanced
/// braces or environments (`\begin{x}` ended by another `\end`), a math or
/// alignment mistake, a missing input, an unresolved reference, a
/// character the engine cannot typeset, a package option clash, blocked
/// shell escape, a permission problem, a full disk; an error with none of
/// these is a generic LaTeX error that quotes the original message.
pub proof fn law_errors_are_explained_by_the_first_matching_family(evidence: Seq<char>, original: Seq<char>)
    ensures
        ({
            let l = crate::text::lower_seq(evidence);
            let c = crate::diagnostics::classification(evidence, original);
            let earlier0 = shows_undefined_command(l);
            let earlier1 = earlier0 || shows_unbalanced_group(l);
            let earlier2 = earlier1 || shows_math_mistake(l);
            let earlier3 = earlier2 || shows_missing_input(l);
            let earlier4 = earlier3 || shows_unresolved_reference(l);
            let earlier5 = earlier4 || shows_character_problem(l);
            let earlier6 = earlier5 || shows_option_clash(l);
            let earlier7 = earlier6 || shows_shell_escape(l);
            let earlier8 = earlier7 || shows_permission_problem(l);
            let earlier9 = earlier8 || shows_full_disk(l);
            &&& earlier0 ==> c.0 == "undefined-command"@ && c.1 == "LaTeX does not recognize a command near this line."@ && c.3
                == "correct the command or load its package, then build again"@
            &&& earlier0 && crate::diagnostics::command_hint(evidence) is None ==> c.2
                == "The command may be misspelled or provided by a package that is not loaded."@
            &&& earlier0 && crate::diagnostics::command_hint(evidence) is Some ==> c.2 == "Check the spelling of `"@
                + crate::diagnostics::command_hint(evidence)->0 + "` and the package that defines it."@
            &&& !earlier0 && shows_unbalanced_group(l) ==> c.0 == "braces-or-environment"@ && c.1
                == "LaTeX found unbalanced braces or environments."@ && c.2
                == "A `{` needs a matching `}`, and every `\\begin{...}` needs the same `\\end{...}`."@ && c.3
                == "check the braces and begin/end pair around the highlighted line"@
            &&& !earlier1 && shows_math_mistake(l) ==> c.0 == "math-or-alignment"@ && c.1
                == "LaTeX found a math-mode or table-alignment mistake."@ && c.2
                == "Math commands need math delimiters, and `&` may only separate columns in an alignment."@ && c.3
                == "check `$...$`, equation delimiters, and `&` near this line"@
            &&& !earlier2 && shows_missing_input(l) ==> c.0 == "missing-input"@ && c.1
                == "LaTeX could not find a required file."@ && c.2
                == "This may be a package, source file, image, font, or bibliography database."@ && c.3
                == "check the filename and case; add project-owned directories to `[inputs].roots`"@
            &&& !earlier3 && shows_unresolved_reference(l) ==> c.0 == "unresolved-reference"@ && c.1
                == "A citation or cross-reference could not be resolved."@ && c.2
                == "Check that the key exists and that the bibliography or label name matches exactly."@ && c.3
                == "correct the citation/reference key, then build again"@
            &&& !earlier4 && shows_character_problem(l) ==> c.0 == "unicode-or-character"@ && c.1
                == "The selected engine or font cannot typeset a character."@ && c.2
                == "pdfLaTeX may need an encoding/package; LuaLaTeX may be a better fit for broad Unicode."@ && c.3
                == "check the character and font, or select LuaLaTeX for Unicode-heavy documents"@
            &&& !earlier5 && shows_option_clash(l) ==> c.0 == "package-option-conflict"@ && c.1
                == "The same package was loaded with conflicting options."@ && c.2
                == "Pass its options once, before the package is first loaded."@ && c.3
                == "combine or move the package options, then build again"@
            &&& !earlier6 && shows_shell_escape(l) ==> c.0 == "shell-escape-blocked"@ && c.1
                == "This document asks LaTeX to run an external command."@ && c.2
                == "texe keeps shell escape off because external commands are not pinned or isolated."@ && c.3
                == "review the document; enable `toolchain.shell_escape` only if you trust the command"@
            &&& !earlier7 && shows_permission_problem(l) ==> c.0 == "permission"@ && c.1
                == "The build could not read or write a required path."@ && c.2
                == "The named file or directory is not writable by the current user."@ && c.3
                == "check ownership and permissions on the named path"@
            &&& !earlier8 && shows_full_disk(l) ==> c.0 == "disk-space"@ && c.1
                == "The computer ran out of storage during the build."@ && c.2
                == "The previous PDF and verified cache entries were not replaced."@ && c.3
                == "free storage, inspect it with `texe storage`, then build again"@
            &&& !earlier9 ==> c.0 == "latex-error"@ && c.1 == "LaTeX reported an error."@ && c.2 == original && c.3
                == "check the focused engine message and source line, then build again"@
        }),
{
}

/// A run without a managed format searches, in order: the generated inputs
/// and the output directory of the run, the working directory, every
/// configured input root, and the locked texmf tree, each searched below
/// (`//`) except the working directory; TeX and Lua inputs get the same
/// path, and a discovery run ends it with an empty entry that falls back
/// to the system trees.
pub proof fn law_runs_search_every_input_root(t: ResolvedToolchain, c: EngineEnvironmentContext)
    requires
        c.managed_format is None,
    ensures
        ({
            let o = c.build_root@;
            let roots = seq![crate::setup::join_path(o, ".texe-generated"@), o, "."@] + crate::setup::strings_view(
                c.input_roots@,
            ) + seq![c.texmf@];
            let entries = roots.map_values(|r: Seq<char>| if r == "."@ { "."@ } else { r + "//"@ });
            let value = join_with(entries, ":"@) + if c.discovery { ":"@ } else { Seq::<char>::empty() };
            let env = engine_environment_of(t, c);
            &&& env[0] == ("TEXINPUTS"@, value)
            &&& env[1] == ("TEXINPUTS_"@ + t.engine@, value)
            &&& env[2] == ("LUAINPUTS"@, value)
            &&& env[3] == ("LUAINPUTS_"@ + t.engine@, value)
            &&& forall|i: int|
                0 <= i < c.input_roots@.len() ==> #[trigger] roots[3 + i] == c.input_roots@[i]@
        }),
{
    let o = c.build_root@;
    let rs = crate::setup::strings_view(c.input_roots@);
    let roots = seq![crate::setup::join_path(o, ".texe-generated"@), o, "."@] + rs + seq![c.texmf@];
    assert(crate::environment::package_search_roots(o, c.texmf@, rs) == roots);
    let entries = roots.map_values(|r: Seq<char>| if r == "."@ { "."@ } else { r + "//"@ });
    assert(roots.map_values(|r: Seq<char>| search_entry(r)) =~= entries);
    assert forall|i: int| 0 <= i < c.input_roots@.len() implies #[trigger] roots[3 + i] == c.input_roots@[i]@ by {
        assert(rs[i] == c.input_roots@[i]@);
    }
}

/// The adoption preflight blocks exactly on: an entry that is not a source
/// file inside the paper; fontspec or unicode-math loaded under pdfLaTeX; the
/// engine or `kpsewhich` missing from `PATH` for a system toolchain; and
/// minted or `\write18` without shell escape. Nothing else blocks.
pub proof fn law_preflight_blocks_exactly_on_its_reasons(
    m: ProjectManifest,
    commands: Seq<(Seq<char>, Seq<char>)>,
    entry_inside: bool,
    engine_on_path: bool,
    kpsewhich_on_path: bool,
)
    ensures
        ({
            let b = crate::adoption::blockers_of(m, commands, entry_inside, engine_on_path, kpsewhich_on_path);
            let system = m.toolchain.provider@ == "system"@;
            let unicode = (crate::source::loads_package(commands, "fontspec"@) || crate::source::loads_package(
                commands,
                "unicode-math"@,
            )) && m.toolchain.engine@ == "pdflatex"@;
            let external = (crate::adoption::uses_minted(commands) || crate::adoption::has_command(commands, "write18"@))
                && !m.toolchain.shell_escape;
            &&& b.contains(crate::adoption::UNICODE_BLOCKER@) <==> unicode
            &&& b.contains(crate::adoption::ENTRY_BLOCKER@) <==> !entry_inside
            &&& b.contains(crate::adoption::EXTERNAL_BLOCKER@) <==> external
            &&& b.contains(crate::adoption::missing_tool_text(m.toolchain.engine@)) <== system && !engine_on_path
            &&& b.contains(crate::adoption::missing_tool_text("kpsewhich"@)) <== system && !kpsewhich_on_path
            &&& (b.len() == 0) <==> (entry_inside && !unicode && !external && !(system && (!engine_on_path
                || !kpsewhich_on_path)))
            &&& b == (if entry_inside { Seq::empty() } else { seq![crate::adoption::ENTRY_BLOCKER@] }) + (if unicode {
                seq![crate::adoption::UNICODE_BLOCKER@]
            } else {
                Seq::empty()
            }) + (if system && !engine_on_path {
                seq![crate::adoption::missing_tool_text(m.toolchain.engine@)]
            } else {
                Seq::empty()
            }) + (if system && !kpsewhich_on_path {
                seq![crate::adoption::missing_tool_text("kpsewhich"@)]
            } else {
                Seq::empty()
            }) + (if external { seq![crate::adoption::EXTERNAL_BLOCKER@] } else { Seq::empty() })
        }),
{
    reveal_strlit("fontspec/unicode-math requires LuaLaTeX or XeLaTeX; use --engine lualatex for a managed installation, or change the engine in an existing texe.toml");
    reveal_strlit("entry must be an existing source file inside the paper folder");
    reveal_strlit("the entry requests external processing; configure and verify that workflow in texe.toml before adoption (shell escape is disabled by default)");
    reveal_strlit("system tool ");
    let u = crate::adoption::UNICODE_BLOCKER@;
    let en = crate::adoption::ENTRY_BLOCKER@;
    let x = crate::adoption::EXTERNAL_BLOCKER@;
    let t1 = crate::adoption::missing_tool_text(m.toolchain.engine@);
    let t2 = crate::adoption::missing_tool_text("kpsewhich"@);
    assert(u[0] == 'f' && en[0] == 'e' && x[0] == 't');
    assert(t1[0] == 's' && t2[0] == 's') by {
        assert(t1[0] == "system tool "@[0]);
        assert(t2[0] == "system tool "@[0]);
    }
    assert(u != en && u != x && en != x && u != t1 && u != t2 && en != t1 && en != t2 && x != t1 && x != t2);
    let system = m.toolchain.provider@ == "system"@;
    let unicode = (crate::source::loads_package(commands, "fontspec"@) || crate::source::loads_package(
        commands,
        "unicode-math"@,
    )) && m.toolchain.engine@ == "pdflatex"@;
    let external = (crate::adoption::uses_minted(commands) || crate::adoption::has_command(commands, "write18"@))
        && !m.toolchain.shell_escape;
    let p0: Seq<Seq<char>> = if entry_inside { Seq::empty() } else { seq![en] };
    let p1: Seq<Seq<char>> = if unicode { seq![u] } else { Seq::empty() };
    let p2: Seq<Seq<char>> = if system && !engine_on_path { seq![t1] } else { Seq::empty() };
    let p3: Seq<Seq<char>> = if system && !kpsewhich_on_path { seq![t2] } else { Seq::empty() };
    let p4: Seq<Seq<char>> = if external { seq![x] } else { Seq::empty() };
    let b = crate::adoption::blockers_of(m, commands, entry_inside, engine_on_path, kpsewhich_on_path);
    assert(b == p0 + p1 + p2 + p3 + p4);
    assert forall|y: Seq<char>| b.contains(y) <==> (p0.contains(y) || p1.contains(y) || p2.contains(y) || p3.contains(y)
        || p4.contains(y)) by {
        lemma_concat_contains(p0, p1, y);
        lemma_concat_contains(p0 + p1, p2, y);
        lemma_concat_contains(p0 + p1 + p2, p3, y);
        lemma_concat_contains(p0 + p1 + p2 + p3, p4, y);
    }
    assert(p0.contains(u) == false && p2.contains(u) == false && p3.contains(u) == false && p4.contains(u) == false);
    assert(p1.contains(u) == unicode) by {
        if unicode {
            assert(p1[0] == u);
        }
    }
    assert(p1.contains(en) == false && p2.contains(en) == false && p3.contains(en) == false && p4.contains(en) == false);
    assert(p0.contains(en) == !entry_inside) by {
        if !entry_inside {
            assert(p0[0] == en);
        }
    }
    assert(p0.contains(x) == false && p1.contains(x) == false && p2.contains(x) == false && p3.contains(x) == false);
    assert(p4.contains(x) == external) by {
        if external {
            assert(p4[0] == x);
        }
    }
    if system && !engine_on_path {
        assert(p2[0] == t1);
    }
    if system && !kpsewhich_on_path {
        assert(p3[0] == t2);
    }
}

proof fn lemma_concat_contains(a: Seq<Seq<char>>, b: Seq<Seq<char>>, y: Seq<char>)
    ensures
        (a + b).contains(y) <==> (a.contains(y) || b.contains(y)),
{
    if a.contains(y) {
        let k = choose|k: int| 0 <= k < a.len() && a[k] == y;
        assert((a + b)[k] == y);
    }
    if b.contains(y) {
        let k = choose|k: int| 0 <= k < b.len() && b[k] == y;
        assert((a + b)[a.len() + k] == y);
    }
    if (a + b).contains(y) {
        let k = choose|k: int| 0 <= k < (a + b).len() && (a + b)[k] == y;
        if k < a.len() {
            assert(a[k] == y);
        } else {
            assert(b[k - a.len()] == y);
        }
    }
}

} // verus!
