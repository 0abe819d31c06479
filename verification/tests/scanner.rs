use mobius::config::Config;
use mobius::scanner::{
    drain_burst_remaining, drain_step, incomplete, BurstAction, BurstEvent, listed_extension, scan_timing, DirEntry, FileFacts, Tracker, STABLE_NS,
};
use mobius::state::AppState;

const START: u128 = 1_000_000;

fn state() -> AppState {
    AppState::new(Config::default_with_watch_dir("/w".to_string()), "/cfg".to_string(), START)
}

fn file(name: &str, size: u64) -> DirEntry {
    DirEntry {
        path: format!("/w/{name}"),
        name: Some(name.to_string()),
        facts: Some(FileFacts { is_file: true, size, modified_ns: START + 1 }),
    }
}

#[test]
fn readiness_gate_waits_for_a_stable_size() {
    let mut t = Tracker::new();
    assert!(!t.observe("/w/a".to_string(), 10, 0));
    assert!(!t.observe("/w/a".to_string(), 20, 100));
    assert!(!t.observe("/w/a".to_string(), 20, 100 + STABLE_NS - 1));
    assert!(t.observe("/w/a".to_string(), 20, 100 + STABLE_NS));
    assert!(!t.observe("/w/a".to_string(), 20, 100 + 2 * STABLE_NS));
}

#[test]
fn scan_offers_a_file_once_its_size_settles() {
    let mut s = state();
    let mut t = Tracker::new();
    let offered = s.scan_entries(&mut t, vec![file("report.pdf", 5)], 0);
    assert!(offered.is_empty());
    assert!(s.queue.is_empty());
    let offered = s.scan_entries(&mut t, vec![file("report.pdf", 5)], STABLE_NS);
    assert_eq!(offered.len(), 1);
    assert_eq!(offered[0].path, "/w/report.pdf");
    assert_eq!(offered[0].file_name, "report.pdf");
    assert_eq!(offered[0].ext, "pdf");
    assert_eq!(offered[0].size, 5);
    assert_eq!(offered[0].suggested, "Documents/PDFs");
    assert_eq!(offered[0].id.len(), 36);
    assert_eq!(s.queue.len(), 1);
    assert_eq!(s.seen, vec!["/w/report.pdf".to_string()]);
    assert!(s.last_scan.is_some());
    let again = s.scan_entries(&mut t, vec![file("report.pdf", 5)], 3 * STABLE_NS);
    assert!(again.is_empty());
    let again = s.scan_entries(&mut t, vec![file("report.pdf", 5)], 5 * STABLE_NS);
    assert!(again.is_empty());
}

#[test]
fn scan_skips_what_is_not_a_finished_new_file() {
    let mut s = state();
    s.config.ignored_names.push("Thumbs.db".to_string());
    let mut t = Tracker::new();
    let entries = || {
        let mut old = file("old.pdf", 1);
        old.facts.as_mut().unwrap().modified_ns = START - 1;
        vec![
            file("movie.mp4.crdownload", 1),
            file("a.part", 1),
            file(".hidden.pdf", 1),
            file("Thumbs.db", 1),
            old,
            DirEntry { path: "/w/dir".to_string(), name: Some("dir".to_string()), facts: Some(FileFacts { is_file: false, size: 0, modified_ns: START + 1 }) },
            DirEntry { path: "/w/unreadable".to_string(), name: Some("unreadable".to_string()), facts: None },
        ]
    };
    assert!(s.scan_entries(&mut t, entries(), 0).is_empty());
    assert!(s.scan_entries(&mut t, entries(), 10 * STABLE_NS).is_empty());
    assert!(s.queue.is_empty());
}

#[test]
fn vanished_files_are_forgotten() {
    let mut s = state();
    let mut t = Tracker::new();
    s.scan_entries(&mut t, vec![file("a.zip", 1)], 0);
    s.scan_entries(&mut t, vec![], STABLE_NS);
    let offered = s.scan_entries(&mut t, vec![file("a.zip", 1)], 2 * STABLE_NS);
    assert!(offered.is_empty());
    let offered = s.scan_entries(&mut t, vec![file("a.zip", 1)], 3 * STABLE_NS);
    assert_eq!(offered.len(), 1);
}

#[test]
fn paused_scan_offers_nothing() {
    let mut s = state();
    s.set_paused_until(Some(1000));
    let mut t = Tracker::new();
    s.scan_at(&mut t, vec![file("a.zip", 1)], 0, 999);
    let offered = s.scan_at(&mut t, vec![file("a.zip", 1)], STABLE_NS, 999);
    assert!(offered.is_empty());
    assert!(s.last_scan.is_some());
    s.scan_at(&mut t, vec![file("a.zip", 1)], 2 * STABLE_NS, 1000);
    let offered = s.scan_at(&mut t, vec![file("a.zip", 1)], 3 * STABLE_NS, 1000);
    assert_eq!(offered.len(), 1);
}

#[test]
fn timing_has_floors() {
    let mut c = Config::default_with_watch_dir("/w".to_string());
    assert_eq!(scan_timing(&c), (30000, 750));
    c.scan_interval_ms = 10;
    c.debounce_ms = 0;
    assert_eq!(scan_timing(&c), (250, 50));
}

#[test]
fn burst_deadline() {
    assert_eq!(drain_burst_remaining(100, 40), Some(60));
    assert_eq!(drain_burst_remaining(100, 100), Some(0));
    assert_eq!(drain_burst_remaining(100, 101), None);
}

#[test]
fn listing_filters() {
    let mut c = Config::default_with_watch_dir("/w".to_string());
    c.ignored_extensions.push("ISO".to_string());
    assert_eq!(listed_extension(&c, "a.PDF", true), Some("pdf".to_string()));
    assert_eq!(listed_extension(&c, "a.pdf", false), None);
    assert_eq!(listed_extension(&c, ".a.pdf", true), None);
    assert_eq!(listed_extension(&c, "disk.iso", true), None);
    assert_eq!(listed_extension(&c, "noext", true), Some(String::new()));
    assert!(incomplete("crdownload"));
    assert!(incomplete("aria2"));
    assert!(!incomplete(""));
    assert!(!incomplete("pdf"));
}

#[test]
fn burst_steps() {
    assert_eq!(drain_step(100, 40, BurstEvent::Started), BurstAction::WaitFor(60));
    assert_eq!(drain_step(100, 90, BurstEvent::Event), BurstAction::WaitFor(10));
    assert_eq!(drain_step(100, 101, BurstEvent::Event), BurstAction::Stop);
    assert_eq!(drain_step(100, 50, BurstEvent::Quiet), BurstAction::Stop);
    assert_eq!(drain_step(100, 50, BurstEvent::Closed), BurstAction::Stop);
}
