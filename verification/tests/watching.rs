use texe::watching::{
    watch_build_message, watch_failure_message, watch_start, watch_step, WatchAction, WatchEvent,
    WatchPhase, WatchState,
};

#[test]
fn an_unchanged_project_is_only_polled() {
    let start = watch_start();
    assert_eq!(start.build_number, 1);
    assert_eq!(watch_step(start, WatchEvent::Unchanged), (start, WatchAction::Poll));
    assert_eq!(watch_step(start, WatchEvent::Interrupted), (start, WatchAction::Stop));
}

#[test]
fn a_change_builds_once_it_settles() {
    let (settling, action) = watch_step(watch_start(), WatchEvent::Changed);
    assert_eq!(action, WatchAction::Settle);
    assert_eq!(settling.phase, WatchPhase::Settling(0));
    let (still, action) = watch_step(settling, WatchEvent::Changed);
    assert_eq!(action, WatchAction::Settle);
    let (after, action) = watch_step(still, WatchEvent::Unchanged);
    assert_eq!(action, WatchAction::Build(2));
    assert_eq!(after, WatchState { phase: WatchPhase::Waiting, build_number: 2 });
}

#[test]
fn a_change_that_keeps_changing_is_built_after_eight_waits() {
    let (mut state, mut action) = watch_step(watch_start(), WatchEvent::Changed);
    let mut waits = 0;
    while action == WatchAction::Settle {
        waits += 1;
        (state, action) = watch_step(state, WatchEvent::Changed);
    }
    assert_eq!(waits, 8);
    assert_eq!(action, WatchAction::Build(2));
    assert_eq!(state.phase, WatchPhase::Waiting);
}

#[test]
fn watch_builds_name_what_changed() {
    assert_eq!(watch_build_message(1, &Vec::new()), "[1] Initial build");
    assert_eq!(
        watch_build_message(2, &vec!["main.tex".to_string()]),
        "[2] main.tex changed"
    );
    let changes = ["a.tex", "b.tex", "c.bib", "d.sty", "e.cls"]
        .iter()
        .map(|s| s.to_string())
        .collect::<Vec<_>>();
    assert_eq!(
        watch_build_message(7, &changes),
        "[7] a.tex, b.tex, c.bib changed and 2 more"
    );
}

#[test]
fn failed_watch_builds_say_whether_the_last_pdf_remains() {
    assert_eq!(
        watch_failure_message(3, "/work/paper/main.pdf", true),
        "[3] Previous main.pdf kept; still watching"
    );
    assert_eq!(
        watch_failure_message(3, "/work/paper/main.pdf", false),
        "[3] No PDF yet; still watching"
    );
}
