use mobius::config::{default_watch_dir, load_step, Config, LoadStep, SCHEMA_VERSION};
use mobius::paths::path_join;

#[test]
fn defaults_for_a_watch_dir() {
    let c = Config::default_with_watch_dir("/home/u/Downloads".to_string());
    assert_eq!(c.schema_version, SCHEMA_VERSION);
    assert_eq!(c.watch_dir, "/home/u/Downloads");
    assert_eq!(c.scan_interval_ms, 30000);
    assert_eq!(c.batch_window_ms, 2000);
    assert_eq!(c.debounce_ms, 750);
    assert_eq!(c.duplicate_policy, "version");
    assert!(!c.version_timestamp_prefix);
    assert_eq!(c.destination_map.len(), 0);
    assert_eq!(c.category_destinations.len(), 0);
    assert!(!c.flatten_to_categories);
    assert!(!c.allow_external_destinations);
    assert!(c.ignored_extensions.is_empty());
    assert!(c.ignored_names.is_empty());
    assert_eq!(c.rules.len(), 0);
    assert_eq!(c.undo_toast_ms, 10000);
    assert_eq!(c.auto_dismiss_timeout_ms, 0);
    assert!(!c.launch_at_login);
    assert!(c.start_minimized_to_tray);
    assert_eq!(c.paused_until, None);
}

#[test]
fn load_steps() {
    assert!(matches!(load_step(true, true), LoadStep::UseParsed));
    assert!(matches!(load_step(true, false), LoadStep::BackUpAndUseDefaults));
    assert!(matches!(load_step(false, false), LoadStep::UseDefaults));
    assert!(matches!(load_step(false, true), LoadStep::UseDefaults));
}

#[test]
fn watch_dir_fallbacks() {
    assert_eq!(default_watch_dir(Some("/d/Downloads".to_string()), Some("/h".to_string())), "/d/Downloads");
    assert_eq!(default_watch_dir(None, Some("/h".to_string())), path_join("/h", "Downloads"));
    assert_eq!(default_watch_dir(None, Some("/h".to_string())), "/h/Downloads");
    assert_eq!(default_watch_dir(None, None), ".");
}
