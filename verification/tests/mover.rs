use mobius::mover::{
    duplicate_policy, numbered, resolve_destination_path, DuplicatePolicy, MoveJob, MoveOutcome, MovePhase,
    MoveStep, NameStyle,
};
use mobius::paths::{destination_verdict, parts_start_with, path_join, PathPart};
use std::collections::HashMap;

/// A folder tree held in memory: path to contents.
struct Disk {
    files: HashMap<String, String>,
    removed: Vec<String>,
    /// Renaming the source fails, as across filesystems.
    rename_fails: bool,
    /// A copy loses its last byte.
    copy_truncates: bool,
}

impl Disk {
    fn new() -> Disk {
        Disk { files: HashMap::new(), removed: Vec::new(), rename_fails: false, copy_truncates: false }
    }

    fn write(&mut self, path: &str, contents: &str) {
        self.files.insert(path.to_string(), contents.to_string());
    }

    fn read(&self, path: &str) -> Option<String> {
        self.files.get(path).cloned()
    }

    fn size(&self, path: &str) -> u64 {
        self.files.get(path).map(|c| c.len() as u64).unwrap_or(0)
    }
}

/// Drive a move to its end against the in-memory disk.
fn run_move(disk: &mut Disk, source: &str, dir: &str, policy: DuplicatePolicy, prefix: bool, stamp: &str) -> Result<MoveOutcome, String> {
    let (mut job, mut step) = MoveJob::start(source.to_string(), dir.to_string(), policy, prefix, stamp.to_string());
    loop {
        step = match step {
            MoveStep::Probe(p) => {
                let exists = disk.files.contains_key(&p);
                job.after_probe(exists)
            }
            MoveStep::CreateDir(_) => job.after_action(Ok(())),
            MoveStep::RemoveFile(p) => {
                disk.files.remove(&p);
                disk.removed.push(p);
                job.after_action(Ok(()))
            }
            MoveStep::Archive { from, to } => {
                let contents = disk.files.remove(&from).expect("archived file exists");
                disk.files.insert(to, contents);
                job.after_action(Ok(()))
            }
            MoveStep::Rename { from, to } => {
                if disk.rename_fails {
                    job.after_action(Err("cross-device link".to_string()))
                } else {
                    let contents = disk.files.remove(&from).expect("moved file exists");
                    disk.files.insert(to, contents);
                    job.after_action(Ok(()))
                }
            }
            MoveStep::Copy { from, to } => match disk.read(&from) {
                Some(mut contents) => {
                    if disk.copy_truncates {
                        contents.pop();
                    }
                    disk.files.insert(to, contents);
                    job.after_action(Ok(()))
                }
                None => job.after_action(Err("no such file".to_string())),
            },
            MoveStep::Measure { source, copy } => {
                let (a, b) = (disk.size(&source), disk.size(&copy));
                job.after_sizes(a, b)
            }
            MoveStep::Finished(result) => return result,
        };
    }
}

fn root() -> String {
    "/tmp/mobius-test".to_string()
}

#[test]
fn versions_existing_file() {
    let mut disk = Disk::new();
    let destination_dir = path_join(&root(), "Documents/PDFs");
    disk.write(&path_join(&destination_dir, "report.pdf"), "old");
    let source = path_join(&root(), "report.pdf");
    disk.write(&source, "new");

    let outcome = run_move(&mut disk, &source, &destination_dir, duplicate_policy("version"), false, "2026-01-02").unwrap();
    assert!(outcome.moved);
    assert_eq!(disk.read(&outcome.destination).unwrap(), "new");
    let archived = outcome.archived.expect("previous version archived");
    assert_eq!(disk.read(&archived).unwrap(), "old");
    assert!(archived.contains("Previous Versions"));
}

#[test]
fn renames_on_second_conflict() {
    let mut disk = Disk::new();
    let destination_dir = path_join(&root(), "Documents/PDFs");
    disk.write(&path_join(&destination_dir, "report.pdf"), "new");
    disk.write(&path_join(&destination_dir, "Previous Versions/report.pdf"), "old1");
    let source = path_join(&root(), "report.pdf");
    disk.write(&source, "old2");

    let outcome = run_move(&mut disk, &source, &destination_dir, duplicate_policy("version"), false, "2026-01-02").unwrap();
    let archived = outcome.archived.expect("archived");
    assert!(archived.ends_with("report_1.pdf"));
}

#[test]
fn rejects_parent_traversal() {
    let watch = "/tmp/watch";
    let result = resolve_destination_path(watch, "../outside", false);
    assert!(result.is_err());
}

#[test]
fn relative_destination_resolves_inside_watch_dir() {
    assert_eq!(resolve_destination_path("/tmp/watch", "  Documents/PDFs ", false), Ok(path_join("/tmp/watch", "Documents/PDFs")));
}

#[test]
fn empty_destination_is_refused() {
    assert_eq!(resolve_destination_path("/tmp/watch", "   ", true), Err("destination is empty".to_string()));
}

#[test]
fn traversal_message_names_the_dots() {
    assert_eq!(
        resolve_destination_path("/tmp/watch", "a/../../b", true),
        Err("destination may not contain '..'".to_string())
    );
}

#[test]
fn absolute_destination_outside_is_refused_unless_allowed() {
    assert_eq!(
        resolve_destination_path("/tmp/watch", "/srv/files", false),
        Err("external destinations are disabled".to_string())
    );
    assert_eq!(resolve_destination_path("/tmp/watch", "/srv/files", true), Ok("/srv/files".to_string()));
    assert_eq!(resolve_destination_path("/tmp/watch", "/tmp/watch/Docs", false), Ok("/tmp/watch/Docs".to_string()));
    assert_eq!(
        resolve_destination_path("/tmp/watch", "/tmp/watchers", false),
        Err("external destinations are disabled".to_string())
    );
}

#[test]
fn policy_names() {
    assert_eq!(duplicate_policy("replace"), DuplicatePolicy::Replace);
    assert_eq!(duplicate_policy("rename"), DuplicatePolicy::Rename);
    assert_eq!(duplicate_policy("skip"), DuplicatePolicy::Skip);
    assert_eq!(duplicate_policy("version"), DuplicatePolicy::Version);
    assert_eq!(duplicate_policy("ask"), DuplicatePolicy::Version);
    assert_eq!(duplicate_policy("whatever"), DuplicatePolicy::Version);
}

#[test]
fn numbered_names() {
    assert_eq!(numbered("report.pdf", 0, NameStyle::Underscore), "report.pdf");
    assert_eq!(numbered("report.pdf", 1, NameStyle::Underscore), "report_1.pdf");
    assert_eq!(numbered("report.pdf", 12, NameStyle::Parenthesized), "report (12).pdf");
    assert_eq!(numbered("archive.tar.gz", 3, NameStyle::Underscore), "archive.tar_3.gz");
    assert_eq!(numbered(".bashrc", 2, NameStyle::Underscore), ".bashrc_2");
    assert_eq!(numbered("README", 7, NameStyle::Parenthesized), "README (7)");
    assert_eq!(numbered("x.y", 18446744073709551615, NameStyle::Underscore), "x_18446744073709551615.y");
}

#[test]
fn move_without_conflict_goes_straight_to_destination() {
    let mut disk = Disk::new();
    let dir = path_join(&root(), "Images");
    let source = path_join(&root(), "cat.png");
    disk.write(&source, "meow");
    let outcome = run_move(&mut disk, &source, &dir, DuplicatePolicy::Version, false, "2026-01-02").unwrap();
    assert!(outcome.moved);
    assert_eq!(outcome.destination, path_join(&dir, "cat.png"));
    assert_eq!(outcome.archived, None);
    assert_eq!(outcome.note, None);
    assert_eq!(disk.read(&outcome.destination).unwrap(), "meow");
    assert!(disk.read(&source).is_none());
}

#[test]
fn skip_policy_leaves_both_files() {
    let mut disk = Disk::new();
    let dir = path_join(&root(), "Images");
    let source = path_join(&root(), "cat.png");
    disk.write(&source, "new");
    disk.write(&path_join(&dir, "cat.png"), "old");
    let outcome = run_move(&mut disk, &source, &dir, DuplicatePolicy::Skip, false, "2026-01-02").unwrap();
    assert!(!outcome.moved);
    assert_eq!(outcome.note, Some("destination already exists; skipped".to_string()));
    assert_eq!(disk.read(&source).unwrap(), "new");
    assert_eq!(disk.read(&path_join(&dir, "cat.png")).unwrap(), "old");
}

#[test]
fn replace_policy_is_the_only_one_that_deletes() {
    for policy in [DuplicatePolicy::Version, DuplicatePolicy::Rename, DuplicatePolicy::Skip, DuplicatePolicy::Replace] {
        let mut disk = Disk::new();
        let dir = path_join(&root(), "Images");
        let source = path_join(&root(), "cat.png");
        disk.write(&source, "new");
        disk.write(&path_join(&dir, "cat.png"), "old");
        run_move(&mut disk, &source, &dir, policy, false, "2026-01-02").unwrap();
        if policy == DuplicatePolicy::Replace {
            assert_eq!(disk.removed, vec![path_join(&dir, "cat.png")]);
            assert_eq!(disk.read(&path_join(&dir, "cat.png")).unwrap(), "new");
        } else {
            assert!(disk.removed.is_empty());
        }
    }
}

#[test]
fn rename_policy_picks_a_free_name() {
    let mut disk = Disk::new();
    let dir = path_join(&root(), "Documents/PDFs");
    let source = path_join(&root(), "report.pdf");
    disk.write(&source, "third");
    disk.write(&path_join(&dir, "report.pdf"), "first");
    disk.write(&path_join(&dir, "report (1).pdf"), "second");
    let outcome = run_move(&mut disk, &source, &dir, DuplicatePolicy::Rename, false, "2026-01-02").unwrap();
    assert_eq!(outcome.destination, path_join(&dir, "report (2).pdf"));
    assert_eq!(outcome.archived, None);
    assert_eq!(disk.read(&outcome.destination).unwrap(), "third");
    assert_eq!(disk.read(&path_join(&dir, "report.pdf")).unwrap(), "first");
}

#[test]
fn timestamp_prefix_names_the_previous_version() {
    let mut disk = Disk::new();
    let dir = path_join(&root(), "Documents/PDFs");
    let source = path_join(&root(), "report.pdf");
    disk.write(&source, "new");
    disk.write(&path_join(&dir, "report.pdf"), "old");
    let outcome = run_move(&mut disk, &source, &dir, DuplicatePolicy::Version, true, "2026-09-11").unwrap();
    let archived = outcome.archived.unwrap();
    assert_eq!(archived, path_join(&path_join(&dir, "Previous Versions"), "2026-09-11_report.pdf"));
    assert_eq!(disk.read(&archived).unwrap(), "old");
}

#[test]
fn missing_source_is_reported() {
    let mut disk = Disk::new();
    let source = path_join(&root(), "gone.pdf");
    let result = run_move(&mut disk, &source, &root(), DuplicatePolicy::Version, false, "2026-01-02");
    assert_eq!(result.unwrap_err(), format!("source no longer exists: {}", source));
}

#[test]
fn failed_actions_are_reported_with_the_system_message() {
    let (mut job, step) = MoveJob::start("/d/a.txt".to_string(), "/d/Docs".to_string(), DuplicatePolicy::Version, false, String::new());
    assert!(matches!(step, MoveStep::Probe(ref p) if p == "/d/a.txt"));
    assert!(job.is_awaiting_probe());
    let step = job.after_probe(true);
    assert!(matches!(step, MoveStep::CreateDir(ref d) if d == "/d/Docs"));
    assert_eq!(job.phase(), MovePhase::CreatingDir);
    match job.after_action(Err("permission denied".to_string())) {
        MoveStep::Finished(Err(e)) => assert_eq!(e, "cannot create /d/Docs: permission denied"),
        _ => panic!("expected a failure"),
    }
    assert_eq!(job.phase(), MovePhase::Done);
}

#[test]
fn failed_copy_reports_the_destination() {
    let (mut job, _) = MoveJob::start("/d/a.txt".to_string(), "/d/Docs".to_string(), DuplicatePolicy::Version, false, String::new());
    job.after_probe(true);
    let step = job.after_action(Ok(()));
    assert!(matches!(step, MoveStep::Probe(ref p) if *p == path_join("/d/Docs", "a.txt")));
    let step = job.after_probe(false);
    assert!(matches!(step, MoveStep::Rename { ref from, .. } if from == "/d/a.txt"));
    assert_eq!(job.phase(), MovePhase::Renaming);
    let step = job.after_action(Err("cross-device link".to_string()));
    assert!(matches!(step, MoveStep::Copy { ref from, ref to } if from == "/d/a.txt" && *to == path_join("/d/Docs", "a.txt")));
    match job.after_action(Err("disk full".to_string())) {
        MoveStep::Finished(Err(e)) => assert_eq!(e, format!("cannot copy to {}: disk full", path_join("/d/Docs", "a.txt"))),
        _ => panic!("expected a failure"),
    }
}

#[test]
fn move_across_filesystems_copies_then_deletes_the_source() {
    let mut disk = Disk::new();
    disk.rename_fails = true;
    let dir = path_join(&root(), "Images");
    let source = path_join(&root(), "cat.png");
    disk.write(&source, "meow");
    let outcome = run_move(&mut disk, &source, &dir, DuplicatePolicy::Version, false, "2026-01-02").unwrap();
    assert!(outcome.moved);
    assert_eq!(disk.read(&path_join(&dir, "cat.png")).unwrap(), "meow");
    assert!(disk.read(&source).is_none());
    assert_eq!(disk.removed, vec![source.clone()]);
}

#[test]
fn short_copy_is_discarded_and_the_source_kept() {
    let mut disk = Disk::new();
    disk.rename_fails = true;
    disk.copy_truncates = true;
    let dir = path_join(&root(), "Images");
    let source = path_join(&root(), "cat.png");
    disk.write(&source, "meow");
    let result = run_move(&mut disk, &source, &dir, DuplicatePolicy::Version, false, "2026-01-02");
    assert_eq!(result.unwrap_err(), "copy verification failed");
    assert_eq!(disk.read(&source).unwrap(), "meow");
    assert!(disk.read(&path_join(&dir, "cat.png")).is_none());
    assert_eq!(disk.removed, vec![path_join(&dir, "cat.png")]);
}

#[test]
fn sizes_out_of_turn_change_nothing() {
    let (mut job, _) = MoveJob::start("/d/a.txt".to_string(), "/d/Docs".to_string(), DuplicatePolicy::Version, false, String::new());
    match job.after_sizes(1, 1) {
        MoveStep::Finished(Err(e)) => assert_eq!(e, "no size check was awaited"),
        _ => panic!("expected a refusal"),
    }
    assert_eq!(job.phase(), MovePhase::CheckingSource);
    assert!(job.is_awaiting_probe());
}

#[test]
fn move_into_own_folder_touches_nothing() {
    for policy in [DuplicatePolicy::Version, DuplicatePolicy::Replace] {
        let mut disk = Disk::new();
        let dir = path_join(&root(), "Documents/PDFs");
        let source = path_join(&dir, "report.pdf");
        disk.write(&source, "only copy");
        let outcome = run_move(&mut disk, &source, &dir, policy, false, "2026-01-02").unwrap();
        assert!(!outcome.moved);
        assert_eq!(outcome.note, Some("the file is already at its destination".to_string()));
        assert_eq!(disk.read(&source).unwrap(), "only copy");
        assert_eq!(disk.files.len(), 1);
        assert!(disk.removed.is_empty());
    }
}

#[test]
fn skip_into_own_folder_reports_the_skip() {
    let mut disk = Disk::new();
    let dir = path_join(&root(), "Documents/PDFs");
    let source = path_join(&dir, "report.pdf");
    disk.write(&source, "only copy");
    let outcome = run_move(&mut disk, &source, &dir, DuplicatePolicy::Skip, false, "2026-01-02").unwrap();
    assert!(!outcome.moved);
    assert_eq!(outcome.destination, source);
    assert_eq!(outcome.archived, None);
    assert_eq!(outcome.note, Some("destination already exists; skipped".to_string()));
    assert_eq!(disk.read(&source).unwrap(), "only copy");
}

#[test]
fn rename_into_own_folder_takes_a_free_name() {
    let mut disk = Disk::new();
    let dir = path_join(&root(), "Documents/PDFs");
    let source = path_join(&dir, "report.pdf");
    disk.write(&source, "only copy");
    let outcome = run_move(&mut disk, &source, &dir, DuplicatePolicy::Rename, false, "2026-01-02").unwrap();
    assert!(outcome.moved);
    assert_eq!(outcome.destination, path_join(&dir, "report (1).pdf"));
    assert_eq!(disk.read(&outcome.destination).unwrap(), "only copy");
    assert!(disk.read(&source).is_none());
}

#[test]
fn paths_compare_whole_components() {
    assert!(mobius::paths::paths_equal("/tmp/a", "/tmp/a"));
    assert!(!mobius::paths::paths_equal("/tmp/a", "/tmp/A"));
    assert!(mobius::paths::starts_with("/tmp/watch/x", "/tmp/watch"));
    assert!(!mobius::paths::starts_with("/tmp/watchers", "/tmp/watch"));
}

#[test]
fn drive_prefixes_compare_regardless_of_letter_case() {
    let normal = |s: &str| PathPart::Normal(s.to_string());
    let inside = vec![PathPart::Prefix("c:".to_string()), PathPart::RootDir, normal("w"), normal("x")];
    let watch = vec![PathPart::Prefix("C:".to_string()), PathPart::RootDir, normal("w")];
    assert!(parts_start_with(&inside, &watch));
    let unc = vec![PathPart::Prefix(r"\\Server\share".to_string()), PathPart::RootDir, normal("w")];
    let unc_lower = vec![PathPart::Prefix(r"\\server\share".to_string()), PathPart::RootDir];
    assert!(!parts_start_with(&unc, &unc_lower));
    assert!(!parts_start_with(&watch, &inside));
}

#[test]
fn destination_verdict_on_given_components() {
    let parts = vec![PathPart::Normal("Docs".to_string())];
    assert_eq!(destination_verdict("Docs", &parts, false, false, "/w/Docs".to_string(), false), Ok("/w/Docs".to_string()));
    let parts = vec![PathPart::Prefix("D:".to_string()), PathPart::RootDir, PathPart::Normal("x".to_string())];
    assert_eq!(
        destination_verdict(r"D:\x", &parts, true, false, String::new(), false),
        Err("external destinations are disabled".to_string())
    );
    assert_eq!(destination_verdict(r"D:\x", &parts, true, false, String::new(), true), Ok(r"D:\x".to_string()));
    let parts = vec![PathPart::ParentDir];
    assert_eq!(
        destination_verdict("..", &parts, false, false, "/x".to_string(), true),
        Err("destination may not contain '..'".to_string())
    );
    assert_eq!(destination_verdict("", &vec![], false, false, "/w".to_string(), true), Err("destination is empty".to_string()));
}

#[test]
fn resolved_destination_is_the_join_with_the_watched_folder() {
    assert_eq!(resolve_destination_path("/tmp/watch", "/srv/files", true), Ok(path_join("/tmp/watch", "/srv/files")));
    assert_eq!(path_join("/tmp/watch", "/srv/files"), "/srv/files");
    let inside = resolve_destination_path("/tmp/watch", "./Docs/x", false).unwrap();
    assert_eq!(inside, path_join("/tmp/watch", "./Docs/x"));
    assert!(mobius::paths::starts_with(&inside, "/tmp/watch"));
    assert!(mobius::paths::paths_equal(&inside, "/tmp/watch/Docs/x"));
}
