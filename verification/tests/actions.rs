use mobius::actions::{
    history_rule, request_history_rule, request_rule, start_move, tray_action, TrayAction,
};
use mobius::classifier::resolve_destination;
use mobius::config::Config;
use mobius::mover::{MoveOutcome, MoveStep};
use mobius::state::{AppState, OrganizeRequest, QueueItem};

fn state() -> AppState {
    AppState::new(Config::default_with_watch_dir("/w".to_string()), "/cfg".to_string(), 0)
}

fn item(path: &str, ext: &str, suggested: &str) -> QueueItem {
    QueueItem {
        id: "i".to_string(),
        path: path.to_string(),
        file_name: path.rsplit('/').next().unwrap().to_string(),
        ext: ext.to_string(),
        size: 1,
        suggested: suggested.to_string(),
        detected_at: "t".to_string(),
    }
}

#[test]
fn confirm_one_queued_file_with_its_suggestion() {
    let mut s = state();
    s.queue.push(item("/w/a.pdf", "pdf", "Documents/PDFs"));
    s.queue.push(item("/w/b.zip", "zip", "Archives"));
    let plan = s.plan_confirm_move("/w/b.zip", &None, false, false);
    assert_eq!(plan.targets.len(), 1);
    assert_eq!(plan.targets[0].source, "/w/b.zip");
    assert_eq!(plan.targets[0].ext, "zip");
    assert_eq!(plan.targets[0].destination, "Archives");
    assert!(plan.learned_rule.is_none());
}

#[test]
fn confirm_unqueued_file_classifies_its_name() {
    let s = state();
    let plan = s.plan_confirm_move("/w/Song.MP3", &None, true, false);
    assert_eq!(plan.targets[0].ext, "mp3");
    assert_eq!(plan.targets[0].destination, "Audio");
    assert_eq!(plan.learned_rule, Some(("mp3".to_string(), "Audio".to_string())));
}

#[test]
fn remember_teaches_the_custom_destination() {
    let mut s = state();
    s.queue.push(item("/w/a.pdf", "pdf", "Documents/PDFs"));
    let plan = s.plan_confirm_move("/w/a.pdf", &Some("Invoices".to_string()), true, false);
    assert_eq!(plan.targets[0].destination, "Invoices");
    let (ext, dest) = plan.learned_rule.clone().unwrap();
    assert_eq!(history_rule(&plan.learned_rule, "pdf"), Some("Invoices".to_string()));
    assert_eq!(history_rule(&plan.learned_rule, "zip"), None);
    s.learn_rule(ext, dest);
    assert_eq!(resolve_destination(&s.config, "pdf"), "Invoices");
}

#[test]
fn apply_all_covers_the_whole_queue() {
    let mut s = state();
    s.queue.push(item("/w/a.pdf", "pdf", "Documents/PDFs"));
    s.queue.push(item("/w/b.zip", "zip", "Archives"));
    let plan = s.plan_confirm_move("/w/a.pdf", &None, true, true);
    let dests: Vec<&str> = plan.targets.iter().map(|t| t.destination.as_str()).collect();
    assert_eq!(dests, vec!["Documents/PDFs", "Archives"]);
    assert_eq!(plan.learned_rule, Some(("pdf".to_string(), "Documents/PDFs".to_string())));
    let plan = s.plan_confirm_move("/w/a.pdf", &Some("Misc".to_string()), false, true);
    let dests: Vec<&str> = plan.targets.iter().map(|t| t.destination.as_str()).collect();
    assert_eq!(dests, vec!["Misc", "Misc"]);
    assert_eq!(plan.targets[1].source, "/w/b.zip");
    assert!(plan.learned_rule.is_none());
}

#[test]
fn apply_all_with_remember_teaches_the_shown_files_rule() {
    let mut s = state();
    s.queue.push(item("/w/a.pdf", "pdf", "Documents/PDFs"));
    s.queue.push(item("/w/b.zip", "zip", "Archives"));
    let plan = s.plan_confirm_move("/w/b.zip", &Some("Misc".to_string()), true, true);
    assert_eq!(plan.targets.len(), 2);
    assert_eq!(plan.learned_rule, Some(("zip".to_string(), "Misc".to_string())));
    assert_eq!(history_rule(&plan.learned_rule, "zip"), Some("Misc".to_string()));
    assert_eq!(history_rule(&plan.learned_rule, "pdf"), None);
}

#[test]
fn organize_requests_teach_rules_for_named_types() {
    let r = OrganizeRequest { path: "/w/x.TXT".to_string(), destination: "Notes".to_string(), remember: true };
    assert_eq!(request_rule(&r), Some(("txt".to_string(), "Notes".to_string())));
    assert_eq!(request_history_rule(&r), Some("Notes".to_string()));
    let r = OrganizeRequest { path: "/w/README".to_string(), destination: "Notes".to_string(), remember: true };
    assert_eq!(request_rule(&r), None);
    let r = OrganizeRequest { path: "/w/x.txt".to_string(), destination: "Notes".to_string(), remember: false };
    assert_eq!(request_rule(&r), None);
    assert_eq!(request_history_rule(&r), None);
}

#[test]
fn later_rules_win() {
    let mut s = state();
    s.learn_rules(vec![
        ("pdf".to_string(), "A".to_string()),
        ("zip".to_string(), "Z".to_string()),
        ("pdf".to_string(), "B".to_string()),
    ]);
    assert_eq!(resolve_destination(&s.config, "pdf"), "B");
    assert_eq!(resolve_destination(&s.config, "zip"), "Z");
    assert_eq!(s.config.rules.len(), 2);
}

fn pause_of(a: TrayAction) -> Option<Option<i64>> {
    match a {
        TrayAction::SetPausedUntil(u) => Some(u),
        _ => None,
    }
}

#[test]
fn tray_menu_items() {
    assert!(matches!(tray_action("open", 0), TrayAction::ShowMain));
    assert!(matches!(tray_action("settings", 0), TrayAction::Navigate(ref p) if p == "settings"));
    assert!(matches!(tray_action("recent", 0), TrayAction::Navigate(ref p) if p == "history"));
    assert_eq!(pause_of(tray_action("resume", 0)), Some(None));
    assert_eq!(pause_of(tray_action("pause_30", 1000)), Some(Some(1000 + 30 * 60)));
    assert_eq!(pause_of(tray_action("pause_60", 1000)), Some(Some(1000 + 60 * 60)));
    assert_eq!(pause_of(tray_action("pause_180", 1000)), Some(Some(1000 + 3 * 60 * 60)));
    assert_eq!(pause_of(tray_action("pause_indef", 1000)), Some(Some(i64::MAX)));
    assert_eq!(pause_of(tray_action("pause_30", i64::MAX - 5)), Some(Some(i64::MAX)));
    assert!(matches!(tray_action("quit", 0), TrayAction::Quit));
    assert!(matches!(tray_action("about", 0), TrayAction::Nothing));
}

#[test]
fn moves_start_by_checking_the_source() {
    let mut c = Config::default_with_watch_dir("/w".to_string());
    c.duplicate_policy = "skip".to_string();
    let (_job, step) = start_move("/w/a.pdf".to_string(), "/w/Docs".to_string(), &c);
    assert!(matches!(step, MoveStep::Probe(ref p) if p == "/w/a.pdf"));
}

fn outcome(source: &str, destination: &str, moved: bool) -> MoveOutcome {
    MoveOutcome { source: source.to_string(), destination: destination.to_string(), archived: None, moved, note: None }
}

#[test]
fn concluding_a_dialog_records_moves_drops_moved_files_and_learns() {
    let mut s = state();
    s.queue.push(item("/w/a.pdf", "pdf", "Documents/PDFs"));
    s.queue.push(item("/w/b.zip", "zip", "Archives"));
    let plan = s.plan_confirm_move("/w/a.pdf", &None, true, true);
    let results = vec![Some(outcome("/w/a.pdf", "/w/Documents/PDFs/a.pdf", true)), None];
    s.conclude_confirm(&plan, &results);
    assert_eq!(s.history.len(), 1);
    assert_eq!(s.history[0].source, "/w/a.pdf");
    assert_eq!(s.history[0].rule, Some("Documents/PDFs".to_string()));
    assert!(!s.history[0].undone);
    assert_eq!(s.queue.len(), 1);
    assert_eq!(s.queue[0].path, "/w/b.zip");
    assert_eq!(resolve_destination(&s.config, "pdf"), "Documents/PDFs");
    assert_eq!(s.config.rules.len(), 1);
}

#[test]
fn concluding_organize_credits_remembered_moves_in_order() {
    let mut s = state();
    s.queue.push(item("/w/x.TXT", "txt", "Documents/Text Files"));
    let requests = vec![
        OrganizeRequest { path: "/w/x.TXT".to_string(), destination: "Notes".to_string(), remember: true },
        OrganizeRequest { path: "/w/y.md".to_string(), destination: "Docs".to_string(), remember: false },
        OrganizeRequest { path: "/w/z.pdf".to_string(), destination: "Papers".to_string(), remember: true },
    ];
    let results = vec![
        Some(outcome("/w/x.TXT", "/w/Notes/x.TXT", true)),
        Some(outcome("/w/y.md", "/w/Docs/y.md", false)),
        None,
    ];
    assert_eq!(s.conclude_organize(&requests, &results), (true, true));
    assert_eq!(s.history.len(), 2);
    assert_eq!(s.history[0].source, "/w/y.md");
    assert_eq!(s.history[0].rule, None);
    assert_eq!(s.history[1].source, "/w/x.TXT");
    assert_eq!(s.history[1].rule, Some("Notes".to_string()));
    assert!(s.queue.is_empty());
    assert_eq!(resolve_destination(&s.config, "txt"), "Notes");
    assert_eq!(resolve_destination(&s.config, "pdf"), "Documents/PDFs");
}

#[test]
fn concluding_organize_without_rules_or_moves_says_so() {
    let mut s = state();
    let requests = vec![OrganizeRequest { path: "/w/y.md".to_string(), destination: "Docs".to_string(), remember: false }];
    let results = vec![Some(outcome("/w/y.md", "/w/Docs/y.md", false))];
    assert_eq!(s.conclude_organize(&requests, &results), (false, false));
    let requests = vec![OrganizeRequest { path: "/w/z.md".to_string(), destination: "Docs".to_string(), remember: true }];
    assert_eq!(s.conclude_organize(&requests, &vec![None]), (false, false));
    assert_eq!(s.history.len(), 1);
}
