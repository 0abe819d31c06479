//! The persisted settings, their defaults, and the choices made when loading them.
use vstd::prelude::*;
use crate::paths::{path_join, spec_path_join};
use crate::table::Table;

verus! {

/// Version of the settings layout written by this library.
pub const SCHEMA_VERSION: u32 = 1;

/// How often the folder is scanned when no filesystem event arrives.
pub const DEFAULT_SCAN_INTERVAL_MS: u64 = 30000;

/// Window within which detected files form one batch.
pub const DEFAULT_BATCH_WINDOW_MS: u64 = 2000;

/// How long a burst of filesystem events is collapsed into one scan.
pub const DEFAULT_DEBOUNCE_MS: u64 = 750;

/// How long the undo toast stays up.
pub const DEFAULT_UNDO_TOAST_MS: u64 = 10000;

/// The settings of the organizer. Paths are held as strings.
#[derive(Clone, Debug)]
pub struct Config {
    pub schema_version: u32,
    pub watch_dir: String,
    pub scan_interval_ms: u64,
    pub batch_window_ms: u64,
    pub debounce_ms: u64,
    pub duplicate_policy: String,
    pub version_timestamp_prefix: bool,
    /// Per-extension destination overrides.
    pub destination_map: Table<String>,
    /// Per-category destination overrides.
    pub category_destinations: Table<String>,
    pub flatten_to_categories: bool,
    pub allow_external_destinations: bool,
    pub ignored_extensions: Vec<String>,
    pub ignored_names: Vec<String>,
    /// Remembered rules: extension to destination.
    pub rules: Table<String>,
    pub undo_toast_ms: u64,
    pub auto_dismiss_timeout_ms: u64,
    pub launch_at_login: bool,
    pub start_minimized_to_tray: bool,
    /// Monitoring is suspended while this instant (seconds) lies in the future.
    pub paused_until: Option<i64>,
}

fn default_scan_interval() -> (r: u64)
    ensures
        r == DEFAULT_SCAN_INTERVAL_MS,
{
    DEFAULT_SCAN_INTERVAL_MS
}

fn default_batch_window() -> (r: u64)
    ensures
        r == DEFAULT_BATCH_WINDOW_MS,
{
    DEFAULT_BATCH_WINDOW_MS
}

fn default_debounce() -> (r: u64)
    ensures
        r == DEFAULT_DEBOUNCE_MS,
{
    DEFAULT_DEBOUNCE_MS
}

fn default_duplicate_policy() -> (r: String)
    ensures
        r@ == "version"@,
{
    "version".to_owned()
}

fn default_undo_toast() -> (r: u64)
    ensures
        r == DEFAULT_UNDO_TOAST_MS,
{
    DEFAULT_UNDO_TOAST_MS
}

fn default_start_minimized() -> (r: bool)
    ensures
        r,
{
    true
}

fn default_schema_version() -> (r: u32)
    ensures
        r == SCHEMA_VERSION,
{
    SCHEMA_VERSION
}

impl Config {
    /// The lookup tables hold each key once.
    pub open spec fn wf(&self) -> bool {
        &&& self.destination_map.wf()
        &&& self.category_destinations.wf()
        &&& self.rules.wf()
    }

    /// Whether `c` holds every default setting, watching `watch_dir`.
    pub open spec fn is_default_for(c: Config, watch_dir: Seq<char>) -> bool {
        &&& c.wf()
        &&& c.schema_version == SCHEMA_VERSION
        &&& c.watch_dir@ == watch_dir
        &&& c.scan_interval_ms == DEFAULT_SCAN_INTERVAL_MS
        &&& c.batch_window_ms == DEFAULT_BATCH_WINDOW_MS
        &&& c.debounce_ms == DEFAULT_DEBOUNCE_MS
        &&& c.duplicate_policy@ == "version"@
        &&& !c.version_timestamp_prefix
        &&& c.destination_map.as_map() == Map::<Seq<char>, String>::empty()
        &&& c.category_destinations.as_map() == Map::<Seq<char>, String>::empty()
        &&& !c.flatten_to_categories
        &&& !c.allow_external_destinations
        &&& c.ignored_extensions@.len() == 0
        &&& c.ignored_names@.len() == 0
        &&& c.rules.as_map() == Map::<Seq<char>, String>::empty()
        &&& c.undo_toast_ms == DEFAULT_UNDO_TOAST_MS
        &&& c.auto_dismiss_timeout_ms == 0
        &&& !c.launch_at_login
        &&& c.start_minimized_to_tray
        &&& c.paused_until is None
    }

    /// Every setting at its default, watching `watch_dir`.
    pub fn default_with_watch_dir(watch_dir: String) -> (c: Config)
        ensures
            Self::is_default_for(c, watch_dir@),
    {
        Config {
            schema_version: default_schema_version(),
            watch_dir,
            scan_interval_ms: default_scan_interval(),
            batch_window_ms: default_batch_window(),
            debounce_ms: default_debounce(),
            duplicate_policy: default_duplicate_policy(),
            version_timestamp_prefix: false,
            destination_map: Table::new(),
            category_destinations: Table::new(),
            flatten_to_categories: false,
            allow_external_destinations: false,
            ignored_extensions: Vec::new(),
            ignored_names: Vec::new(),
            rules: Table::new(),
            undo_toast_ms: default_undo_toast(),
            auto_dismiss_timeout_ms: 0,
            launch_at_login: false,
            start_minimized_to_tray: default_start_minimized(),
            paused_until: None,
        }
    }

    /// Remember that files with extension `ext` go to `destination`.
    pub fn remember_rule(&mut self, ext: String, destination: String)
        requires
            old(self).wf(),
        ensures
            final(self).wf(),
            final(self).rules.as_map() == old(self).rules.as_map().insert(ext@, destination),
            *final(self) == (Config { rules: final(self).rules, ..*old(self) }),
            final(self).destination_map == old(self).destination_map,
            final(self).category_destinations == old(self).category_destinations,
            final(self).flatten_to_categories == old(self).flatten_to_categories,
    {
        self.rules.insert(ext, destination);
    }
}

/// What loading the settings file does, given whether it could be read and
/// whether what was read parsed.
#[derive(Clone, Copy, Debug, PartialEq, Eq)]
pub enum LoadStep {
    /// Use the settings that were read.
    UseParsed,
    /// The file is unreadable as settings: keep a backup of it and use defaults.
    BackUpAndUseDefaults,
    /// There is no file: use defaults.
    UseDefaults,
}

/// The step that loading takes: a file that was read and parsed is used, one
/// that was read but did not parse is backed up and replaced by defaults, and
/// a missing or unreadable file gives defaults.
pub fn load_step(read_ok: bool, parse_ok: bool) -> (s: LoadStep)
    ensures
        read_ok && parse_ok <==> s is UseParsed,
        read_ok && !parse_ok <==> s is BackUpAndUseDefaults,
        !read_ok <==> s is UseDefaults,
{
    if !read_ok {
        LoadStep::UseDefaults
    } else if parse_ok {
        LoadStep::UseParsed
    } else {
        LoadStep::BackUpAndUseDefaults
    }
}

/// The folder watched by default: the user's Downloads folder when the
/// platform names one, else `Downloads` under the home folder, else `.`.
pub open spec fn spec_default_watch_dir(download: Option<Seq<char>>, home: Option<Seq<char>>) -> Seq<char> {
    match download {
        Some(d) => d,
        None => match home {
            Some(h) => spec_path_join(h, "Downloads"@),
            None => "."@,
        },
    }
}

/// The folder watched by default, from the platform's Downloads folder and
/// home folder as far as they are known.
pub fn default_watch_dir(download: Option<String>, home: Option<String>) -> (r: String)
    ensures
        r@ == spec_default_watch_dir(
            match download { Some(d) => Some(d@), None => None },
            match home { Some(h) => Some(h@), None => None },
        ),
{
    match download {
        Some(d) => d,
        None => match home {
            Some(h) => path_join(h.as_str(), "Downloads"),
            None => ".".to_owned(),
        },
    }
}

} // verus!
