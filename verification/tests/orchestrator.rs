use yggtracker::api::info_hash::InfoHash;
use yggtracker::orchestrator::select_files;
use yggtracker::orchestrator::select_new;
use yggtracker::orchestrator::step;
use yggtracker::orchestrator::Action;
use yggtracker::orchestrator::Event;
use yggtracker::orchestrator::FileMeta;
use yggtracker::orchestrator::Phase;

fn h(b: u8) -> InfoHash {
    InfoHash::V1([b; 20])
}

fn meta(path: &str, length: u64) -> FileMeta {
    FileMeta { path: path.to_string(), length }
}

#[test]
fn known_hashes_are_skipped() {
    let feed = vec![h(1), h(2), h(3)];
    let indexed = vec![h(2)];
    let plan = select_new(&feed, &indexed);
    assert_eq!(plan.len(), 2);
    assert!(plan[0].same(&h(1)));
    assert!(plan[1].same(&h(3)));
}

#[test]
fn repeated_feed_entries_are_resolved_once() {
    let feed = vec![h(1), h(1), h(2), h(1)];
    let plan = select_new(&feed, &Vec::new());
    assert_eq!(plan.len(), 2);
    assert!(plan[0].same(&h(1)));
    assert!(plan[1].same(&h(2)));
}

#[test]
fn second_cycle_over_populated_store_resolves_nothing() {
    // Two crawl cycles back to back over an unchanged feed: everything the
    // first cycle resolved is enrolled, so the second resolves zero hashes.
    let feed = vec![h(1), h(2), h(2), h(3)];
    let mut indexed = vec![h(9)];
    let first = select_new(&feed, &indexed);
    assert_eq!(first.len(), 3);
    indexed.extend(first);
    let second = select_new(&feed, &indexed);
    assert_eq!(second.len(), 0);
}

#[test]
fn happy_path_walks_the_whole_sequence() {
    let (p, a) = step(Phase::Discovered, Event::AlreadyIndexed(false));
    assert_eq!((p, a), (Phase::Submitting, Action::Submit));
    let (p, a) = step(p, Event::EngineOk);
    assert_eq!((p, a), (Phase::AwaitingMetadata, Action::AwaitMetadata));
    let (p, a) = step(p, Event::EngineOk);
    assert_eq!((p, a), (Phase::ApplyingSelection, Action::ApplySelection));
    let (p, a) = step(p, Event::EngineOk);
    assert_eq!((p, a), (Phase::AwaitingCompletion, Action::AwaitCompletion));
    let (p, a) = step(p, Event::EngineOk);
    assert_eq!((p, a), (Phase::ReadingBack, Action::ReadBack));
    let (p, a) = step(p, Event::EngineOk);
    assert_eq!((p, a), (Phase::Persisting, Action::Persist));
    let (p, a) = step(p, Event::EngineOk);
    assert_eq!((p, a), (Phase::Resolved, Action::Finalize));
    let (p, a) = step(p, Event::EngineOk);
    assert_eq!((p, a), (Phase::Resolved, Action::Idle));
}

#[test]
fn already_indexed_hash_is_skipped() {
    let (p, a) = step(Phase::Discovered, Event::AlreadyIndexed(true));
    assert_eq!((p, a), (Phase::Skipped, Action::Idle));
}

#[test]
fn timeout_abandons_without_clearing_scratch() {
    for phase in [
        Phase::Discovered,
        Phase::Submitting,
        Phase::AwaitingMetadata,
        Phase::ApplyingSelection,
        Phase::AwaitingCompletion,
        Phase::ReadingBack,
        Phase::Persisting,
    ] {
        let (p, a) = step(phase, Event::Timeout);
        assert_eq!((p, a), (Phase::TimedOut, Action::Abandon));
    }
}

#[test]
fn engine_error_aborts_and_persist_failure_keeps_scratch() {
    let (p, a) = step(Phase::AwaitingMetadata, Event::EngineError);
    assert_eq!((p, a), (Phase::EngineFailed, Action::Abort));
    // A failed persist must never finalize: the scratch directory would be
    // the only copy of the data.
    let (p, a) = step(Phase::Persisting, Event::EngineError);
    assert_eq!(p, Phase::EngineFailed);
    assert_ne!(a, Action::Finalize);
}

#[test]
fn selection_takes_only_images() {
    let files = vec![
        meta("cover.jpg", 100),
        meta("track01.mp3", 100),
        meta("folder.png", 100),
        meta("readme.txt", 5),
        meta("anim.webp", 100),
        meta("scan.jpeg", 100),
        meta("icon.gif", 100),
    ];
    let picked = select_files(&files, None, None);
    assert_eq!(picked, vec![0, 2, 4, 5, 6]);
}

#[test]
fn selection_respects_count_quota() {
    let files = vec![meta("a.jpg", 1), meta("b.jpg", 1), meta("c.jpg", 1)];
    let picked = select_files(&files, Some(2), None);
    assert_eq!(picked, vec![0, 1]);
    let none = select_files(&files, Some(0), None);
    assert!(none.is_empty());
}

#[test]
fn selection_respects_cumulative_size_quota() {
    let files = vec![
        meta("a.jpg", 600),
        meta("b.jpg", 500),
        meta("c.jpg", 300),
    ];
    // 600 fits; 600+500 would exceed 1000, so b is skipped; 600+300 fits.
    let picked = select_files(&files, None, Some(1000));
    assert_eq!(picked, vec![0, 2]);
}
