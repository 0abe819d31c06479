use mobius::config::Config;
use mobius::mover::MoveOutcome;
use mobius::state::{is_paused, AppState, HistoryEntry, QueueItem, HISTORY_LIMIT};

fn state() -> AppState {
    AppState::new(Config::default_with_watch_dir("/w".to_string()), "/cfg/config.json".to_string(), 0)
}

fn item(path: &str) -> QueueItem {
    QueueItem {
        id: format!("id-{path}"),
        path: path.to_string(),
        file_name: path.rsplit('/').next().unwrap().to_string(),
        ext: "pdf".to_string(),
        size: 1,
        suggested: "Documents/PDFs".to_string(),
        detected_at: "now".to_string(),
    }
}

fn entry(id: &str) -> HistoryEntry {
    HistoryEntry {
        id: id.to_string(),
        source: format!("/w/{id}"),
        destination: format!("/w/Docs/{id}"),
        archived: None,
        rule: None,
        timestamp: "t".to_string(),
        undone: false,
    }
}

#[test]
fn dismiss_drops_only_that_path() {
    let mut s = state();
    s.queue.push(item("/w/a.pdf"));
    s.queue.push(item("/w/b.pdf"));
    s.queue.push(item("/w/a.pdf"));
    s.queue.push(item("/w/c.pdf"));
    s.dismiss("/w/a.pdf");
    let paths: Vec<&str> = s.queue.iter().map(|q| q.path.as_str()).collect();
    assert_eq!(paths, vec!["/w/b.pdf", "/w/c.pdf"]);
}

#[test]
fn dismiss_compares_whole_paths() {
    let mut s = state();
    s.queue.push(item("/w/a.pdf"));
    s.queue.push(item("/w/b.pdf"));
    s.dismiss("/w//a.pdf");
    assert_eq!(s.queue.len(), 1);
    assert_eq!(s.queue[0].path, "/w/b.pdf");
}

#[test]
fn moved_files_leave_the_queue() {
    let mut s = state();
    for p in ["/w/a.pdf", "/w/b.pdf", "/w/c.pdf"] {
        s.queue.push(item(p));
    }
    s.remove_moved(&vec!["/w/c.pdf".to_string(), "/w/a.pdf".to_string()]);
    assert_eq!(s.queue.len(), 1);
    assert_eq!(s.queue[0].path, "/w/b.pdf");
}

#[test]
fn history_keeps_newest_first_and_is_bounded() {
    let mut s = state();
    for i in 0..(HISTORY_LIMIT + 10) {
        s.push_history(entry(&format!("e{i}")));
    }
    assert_eq!(s.history.len(), HISTORY_LIMIT);
    assert_eq!(HISTORY_LIMIT, 50);
    assert_eq!(s.history[0].id, format!("e{}", HISTORY_LIMIT + 9));
    assert_eq!(s.history[HISTORY_LIMIT - 1].id, "e10");
}

#[test]
fn recorded_moves_carry_their_rule() {
    let mut s = state();
    let outcome = MoveOutcome {
        source: "/w/r.pdf".to_string(),
        destination: "/w/Docs/r.pdf".to_string(),
        archived: Some("/w/Docs/Previous Versions/r.pdf".to_string()),
        moved: true,
        note: None,
    };
    s.record_history(&outcome, Some("Docs".to_string()));
    let e = &s.history[0];
    assert_eq!(e.source, "/w/r.pdf");
    assert_eq!(e.destination, "/w/Docs/r.pdf");
    assert_eq!(e.archived.as_deref(), Some("/w/Docs/Previous Versions/r.pdf"));
    assert_eq!(e.rule.as_deref(), Some("Docs"));
    assert!(!e.undone);
    assert_eq!(e.id.len(), 36);
    assert_eq!(e.id.as_bytes()[8], b'-');
}

#[test]
fn undo_refuses_unknown_and_repeated() {
    let mut s = state();
    s.push_history(entry("a"));
    s.push_history(entry("b"));
    assert_eq!(s.find_undoable("zzz"), Err("history entry not found".to_string()));
    let i = s.find_undoable("a").unwrap();
    assert_eq!(i, 1);
    let undone = s.mark_undone(i);
    assert!(undone.undone);
    assert_eq!(undone.id, "a");
    assert!(s.history[1].undone);
    assert!(!s.history[0].undone);
    assert_eq!(s.find_undoable("a"), Err("move was already undone".to_string()));
    assert_eq!(s.find_undoable("b"), Ok(0));
}

#[test]
fn pauses() {
    assert!(!is_paused(None, 100));
    assert!(is_paused(Some(101), 100));
    assert!(!is_paused(Some(100), 100));
    assert!(is_paused(Some(i64::MAX), 100));
}

#[test]
fn status_reports_the_state() {
    let mut s = state();
    s.queue.push(item("/w/a.pdf"));
    s.set_paused_until(Some(500));
    let st = s.status_at(100);
    assert_eq!(st.watch_dir, "/w");
    assert_eq!(st.pending, 1);
    assert!(st.paused);
    assert!(st.scanning);
    assert_eq!(st.last_scan, None);
    assert!(!s.status_at(500).paused);
    s.mark_scanned();
    assert!(s.status().last_scan.is_some());
}
