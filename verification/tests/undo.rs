use mobius::mover::{DuplicatePolicy, MoveJob, MoveOutcome, MoveStep};
use mobius::paths::path_join;
use mobius::state::HistoryEntry;
use mobius::undo::{UndoJob, UndoPhase, UndoStep};
use std::collections::HashMap;

/// Files held in memory, path to contents, with the folders made so far.
struct Disk {
    files: HashMap<String, String>,
    dirs: Vec<String>,
}

impl Disk {
    fn new() -> Disk {
        Disk { files: HashMap::new(), dirs: Vec::new() }
    }

    fn rename(&mut self, from: &str, to: &str) -> Result<(), String> {
        match self.files.remove(from) {
            Some(contents) => {
                self.files.insert(to.to_string(), contents);
                Ok(())
            }
            None => Err("no such file".to_string()),
        }
    }
}

fn run_move(disk: &mut Disk, source: &str, dir: &str) -> MoveOutcome {
    let (mut job, mut step) = MoveJob::start(source.to_string(), dir.to_string(), DuplicatePolicy::Version, false, String::new());
    loop {
        step = match step {
            MoveStep::Probe(p) => {
                let exists = disk.files.contains_key(&p);
                job.after_probe(exists)
            }
            MoveStep::CreateDir(_) => job.after_action(Ok(())),
            MoveStep::Archive { from, to } | MoveStep::Rename { from, to } => {
                let r = disk.rename(&from, &to);
                job.after_action(r)
            }
            MoveStep::Finished(result) => return result.unwrap(),
            _ => panic!("unexpected step"),
        };
    }
}

fn run_undo(disk: &mut Disk, entry: &HistoryEntry) -> Result<(), String> {
    let (mut job, mut step) = UndoJob::start(entry);
    loop {
        step = match step {
            UndoStep::Probe(p) => {
                let exists = disk.files.contains_key(&p);
                job.after_probe(exists)
            }
            UndoStep::CreateDir(d) => {
                disk.dirs.push(d);
                job.after_action(Ok(()))
            }
            UndoStep::Rename { from, to } => {
                let r = disk.rename(&from, &to);
                job.after_action(r)
            }
            UndoStep::Finished(result) => return result,
        };
    }
}

fn entry_for(outcome: &MoveOutcome) -> HistoryEntry {
    HistoryEntry {
        id: "1".to_string(),
        source: outcome.source.clone(),
        destination: outcome.destination.clone(),
        archived: outcome.archived.clone(),
        rule: None,
        timestamp: String::new(),
        undone: false,
    }
}

#[test]
fn undo_puts_both_files_back() {
    let mut disk = Disk::new();
    let dir = path_join("/w", "Documents/PDFs");
    disk.files.insert(path_join(&dir, "report.pdf"), "old".to_string());
    disk.files.insert("/w/report.pdf".to_string(), "new".to_string());
    let before = disk.files.clone();
    let outcome = run_move(&mut disk, "/w/report.pdf", &dir);
    assert!(outcome.archived.is_some());
    assert_ne!(disk.files, before);
    run_undo(&mut disk, &entry_for(&outcome)).unwrap();
    assert_eq!(disk.files, before);
    assert_eq!(disk.dirs, vec!["/w".to_string()]);
}

#[test]
fn undo_without_a_previous_version() {
    let mut disk = Disk::new();
    disk.files.insert("/w/cat.png".to_string(), "meow".to_string());
    let outcome = run_move(&mut disk, "/w/cat.png", "/w/Images");
    assert_eq!(outcome.archived, None);
    run_undo(&mut disk, &entry_for(&outcome)).unwrap();
    assert_eq!(disk.files.get("/w/cat.png").unwrap(), "meow");
    assert_eq!(disk.files.len(), 1);
}

#[test]
fn undo_refuses_when_the_file_is_gone() {
    let mut disk = Disk::new();
    disk.files.insert("/w/cat.png".to_string(), "meow".to_string());
    let outcome = run_move(&mut disk, "/w/cat.png", "/w/Images");
    disk.files.clear();
    assert_eq!(run_undo(&mut disk, &entry_for(&outcome)), Err("destination no longer exists".to_string()));
}

#[test]
fn undo_refuses_when_the_origin_is_taken() {
    let mut disk = Disk::new();
    disk.files.insert("/w/cat.png".to_string(), "meow".to_string());
    let outcome = run_move(&mut disk, "/w/cat.png", "/w/Images");
    disk.files.insert("/w/cat.png".to_string(), "another".to_string());
    assert_eq!(run_undo(&mut disk, &entry_for(&outcome)), Err("original location is occupied".to_string()));
    assert_eq!(disk.files.get("/w/cat.png").unwrap(), "another");
}

#[test]
fn failed_rename_back_is_reported() {
    let entry = HistoryEntry {
        id: "1".to_string(),
        source: "/w/a.txt".to_string(),
        destination: "/w/Docs/a.txt".to_string(),
        archived: None,
        rule: None,
        timestamp: String::new(),
        undone: false,
    };
    let (mut job, step) = UndoJob::start(&entry);
    assert!(matches!(step, UndoStep::Probe(ref p) if p == "/w/Docs/a.txt"));
    assert!(matches!(job.after_probe(true), UndoStep::Probe(ref p) if p == "/w/a.txt"));
    assert!(matches!(job.after_probe(false), UndoStep::CreateDir(ref d) if d == "/w"));
    assert_eq!(job.phase(), UndoPhase::CreatingParent);
    let step = job.after_action(Err("mkdir failed".to_string()));
    assert!(matches!(step, UndoStep::Rename { ref from, ref to } if from == "/w/Docs/a.txt" && to == "/w/a.txt"));
    match job.after_action(Err("permission denied".to_string())) {
        UndoStep::Finished(Err(e)) => assert_eq!(e, "undo failed: permission denied"),
        _ => panic!("expected a failure"),
    }
    assert_eq!(job.phase(), UndoPhase::Done);
}
