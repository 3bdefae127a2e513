use shrinker::job::{output_path, EntryStep};
use shrinker::ledger::{FileLog, Log, SkipReason};

fn s(x: &str) -> String {
    x.to_string()
}

#[test]
fn new_ledger_is_empty_and_stored_under_root() {
    let log = Log::new(s("/videos"));
    assert_eq!(log.save_file(), "/videos/compression_log.json");
    assert!(log.records().is_empty());
    assert!(!log.is_already_processed(&s("/videos/a.mp4"), 0));
}

#[test]
fn freshness_gates_processed_state() {
    let mut log = Log::new(s("root"));
    log.mark_processed_at(s("root/a.mp4"), 1000, 400, 50);
    assert!(log.is_already_processed(&s("root/a.mp4"), 50));
    assert!(log.is_already_processed(&s("root/a.mp4"), 10));
    assert!(!log.is_already_processed(&s("root/a.mp4"), 51));
    assert!(!log.is_already_processed(&s("root/b.mp4"), 0));
}

#[test]
fn later_mark_replaces_record() {
    let mut log = Log::new(s("root"));
    log.mark_processed_at(s("root/a.mp4"), 1000, 400, 50);
    log.mark_processed_at(s("root/a.mp4"), 400, 300, 90);
    assert_eq!(log.records().len(), 1);
    assert_eq!(log.records()[0].1, FileLog { size_prev: 400, size_post: 300, modified: 90 });
    assert!(log.is_already_processed(&s("root/a.mp4"), 90));
}

#[test]
fn records_round_trip_with_later_duplicate_winning() {
    let a = FileLog { size_prev: 10, size_post: 5, modified: 1 };
    let b = FileLog { size_prev: 20, size_post: 8, modified: 2 };
    let c = FileLog { size_prev: 30, size_post: 9, modified: 3 };
    let log = Log::with_records(s("r"), vec![(s("x"), a), (s("y"), b), (s("x"), c)]);
    assert_eq!(log.records().len(), 2);
    assert!(log.is_already_processed(&s("x"), 3));
    assert!(!log.is_already_processed(&s("x"), 4));
    assert!(log.is_already_processed(&s("y"), 2));
    let again = Log::with_records(s("r"), log.records().clone());
    assert_eq!(again.records(), log.records());
}

#[test]
fn status_totals_are_exact_sums_and_views_clear() {
    let mut log = Log::new(s("r"));
    log.mark_processed_at(s("a"), u64::MAX, 7, 1);
    log.mark_processed_at(s("b"), u64::MAX, 8, 1);
    log.mark_skipped(s("c"), SkipReason::ReadDir(s("denied")));
    let st = log.take_status();
    assert_eq!(st.total_prev, 2 * (u64::MAX as u128));
    assert_eq!(st.total_post, 15);
    assert_eq!(st.added.len(), 2);
    assert_eq!(st.added[0].0, "a");
    assert_eq!(st.skipped.len(), 1);
    let again = log.take_status();
    assert!(again.added.is_empty() && again.skipped.is_empty());
    assert_eq!(again.total_prev, 0);
    assert!(log.is_already_processed(&s("a"), 1));
}

#[test]
fn skip_messages() {
    assert_eq!(SkipReason::Metadata(s("e")).message(), "Failed to read metadata: e");
    assert_eq!(SkipReason::ReadDir(s("e")).message(), "Failed to read directory: e");
    assert_eq!(SkipReason::Override(s("e")).message(), "Failed to override file: e");
    assert_eq!(
        SkipReason::OpeningCompressedFile(s("e")).message(),
        "Failed to open compressed file to read size: e"
    );
}

#[test]
fn mark_processed_stamps_wall_clock() {
    let mut log = Log::new(s("r"));
    assert!(log.mark_processed(s("a.mp4"), 100, 60));
    assert_eq!(log.records()[0].1.size_prev, 100);
    assert_eq!(log.records()[0].1.size_post, 60);
    assert!(log.records()[0].1.modified > 1_600_000_000);
    assert!(log.is_already_processed(&s("a.mp4"), 1_600_000_000));
}

#[test]
fn entry_decisions() {
    let mut log = Log::new(s("r"));
    log.mark_processed_at(s("r/done.mp4"), 10, 5, 100);
    assert_eq!(log.decide_entry(&s("r/sub"), true, 0), EntryStep::Descend);
    assert_eq!(log.decide_entry(&s("r/done.mp4"), false, 100), EntryStep::AlreadyProcessed);
    assert_eq!(log.decide_entry(&s("r/done.mp4"), false, 101), EntryStep::Transcode);
    assert_eq!(log.decide_entry(&s("r/notes.txt"), false, 0), EntryStep::Ineligible);
    assert_eq!(log.decide_entry(&s("r/new.mov"), false, 0), EntryStep::Transcode);
    assert_eq!(log.decide_entry(&s("r/new.mov_x265.mp4"), false, 0), EntryStep::Ineligible);
}

#[test]
fn one_failure_does_not_stop_the_other_file() {
    let mut log = Log::new(s("dir"));
    let entries = vec![(s("dir/broken.mp4"), false), (s("dir/good.mp4"), true)];
    for (path, readable) in entries {
        if !readable {
            log.mark_skipped(path, SkipReason::Metadata(s("permission denied")));
            continue;
        }
        assert_eq!(log.decide_entry(&path, false, 10), EntryStep::Transcode);
        log.record_outcome(path, 1000, Ok(600), 20);
    }
    assert!(log.is_already_processed(&s("dir/good.mp4"), 10));
    assert!(!log.is_already_processed(&s("dir/broken.mp4"), 0));
    let st = log.take_status();
    assert_eq!(st.added.len(), 1);
    assert_eq!(st.skipped.len(), 1);
    assert_eq!(st.skipped[0].0, "dir/broken.mp4");
}

#[test]
fn failed_job_is_skipped_and_retried() {
    let mut log = Log::new(s("dir"));
    log.record_outcome(s("dir/a.mp4"), 1000, Err(SkipReason::Override(s("busy"))), 20);
    assert_eq!(log.decide_entry(&s("dir/a.mp4"), false, 10), EntryStep::Transcode);
    let st = log.take_status();
    assert!(st.added.is_empty());
    assert_eq!(st.skipped[0].1.message(), "Failed to override file: busy");
}

fn run(log: &mut Log, files: &[(&str, u64)], now: u64, stop_after: usize) -> usize {
    let mut done = 0;
    for (path, mtime) in files {
        if done == stop_after {
            break;
        }
        if log.decide_entry(&s(path), false, *mtime) == EntryStep::Transcode {
            log.record_outcome(s(path), 100, Ok(50), now);
            done += 1;
        }
    }
    done
}

#[test]
fn second_run_transcodes_nothing() {
    let files = [("t/a.mp4", 5), ("t/b.mov", 6), ("t/c.mp4", 7)];
    let mut log = Log::new(s("t"));
    assert_eq!(run(&mut log, &files, 100, usize::MAX), 3);
    let reloaded = Log::with_records(s("t"), log.records().clone());
    let mut log = reloaded;
    assert_eq!(run(&mut log, &files, 200, usize::MAX), 0);
    for (path, mtime) in files {
        assert_eq!(log.decide_entry(&s(path), false, mtime), EntryStep::AlreadyProcessed);
    }
}

#[test]
fn restart_processes_only_the_remaining_files() {
    let files = [("t/a.mp4", 5), ("t/b.mp4", 6), ("t/c.mp4", 7), ("t/d.mov", 8)];
    let mut log = Log::new(s("t"));
    assert_eq!(run(&mut log, &files, 100, 2), 2);
    let mut log = Log::with_records(s("t"), log.records().clone());
    assert_eq!(run(&mut log, &files, 200, usize::MAX), 2);
    let st = log.take_status();
    let redone: Vec<&str> = st.added.iter().map(|(p, _)| p.as_str()).collect();
    assert_eq!(redone, vec!["t/c.mp4", "t/d.mov"]);
    assert_eq!(log.records().iter().filter(|(_, r)| r.modified == 100).count(), 2);
}

#[test]
fn output_path_appends_marker() {
    assert_eq!(output_path(&s("dir/clip.mp4")), "dir/clip.mp4_x265.mp4");
}
