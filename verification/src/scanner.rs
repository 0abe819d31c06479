//! Which files of the watched folder are offered, and when: the readiness
//! gate that holds back files still being written.
use vstd::prelude::*;
use crate::classifier::{is_listed, listed, resolve_destination, spec_extension_of, spec_resolve_destination, extension_of};
use crate::clock::{new_id, now_rfc3339, now_timestamp};
use crate::config::Config;
use crate::paths::{lemma_same_path_reflexive, same_path};
use crate::state::{contains_path, contains_str, holds_path, is_paused, queue_views, spec_is_paused, AppState, QueueItem, QueueView};
use crate::table::Table;
use crate::text::{ascii_lower, eq_ignore_ascii_case, starts_with_char, str_eq, string_views};

verus! {

/// Extensions that browsers and download managers give files still in progress.
pub const INCOMPLETE_EXTENSIONS: [&'static str; 8] = [
    "crdownload",
    "part",
    "partial",
    "download",
    "tmp",
    "opdownload",
    "fdmdownload",
    "aria2",
];

/// A file must keep the same size for this long before it is considered finished.
pub const STABLE_MS: u64 = 1500;

/// `STABLE_MS` in nanoseconds.
pub const STABLE_NS: u64 = 1500000000;

/// Shortest interval between two scans.
pub const MIN_SCAN_INTERVAL_MS: u64 = 250;

/// Shortest collapsing window for a burst of filesystem events.
pub const MIN_DEBOUNCE_MS: u64 = 50;

/// The scan interval and event debounce in use: the configured ones, but
/// never below their minimum.
pub fn scan_timing(config: &Config) -> (r: (u64, u64))
    ensures
        r.0 == if config.scan_interval_ms < MIN_SCAN_INTERVAL_MS { MIN_SCAN_INTERVAL_MS } else { config.scan_interval_ms },
        r.1 == if config.debounce_ms < MIN_DEBOUNCE_MS { MIN_DEBOUNCE_MS } else { config.debounce_ms },
{
    let interval = if config.scan_interval_ms < MIN_SCAN_INTERVAL_MS {
        MIN_SCAN_INTERVAL_MS
    } else {
        config.scan_interval_ms
    };
    let debounce = if config.debounce_ms < MIN_DEBOUNCE_MS {
        MIN_DEBOUNCE_MS
    } else {
        config.debounce_ms
    };
    (interval, debounce)
}

/// How much longer to wait for more events of a burst that must be over by
/// `deadline_ns`: nothing once the deadline has passed.
pub fn drain_burst_remaining(deadline_ns: u64, now_ns: u64) -> (r: Option<u64>)
    ensures
        r == if now_ns <= deadline_ns { Some((deadline_ns - now_ns) as u64) } else { None::<u64> },
{
    if now_ns <= deadline_ns {
        Some(deadline_ns - now_ns)
    } else {
        None
    }
}

/// What was heard while collapsing a burst of filesystem events.
#[derive(Clone, Copy, PartialEq, Eq, Structural, Debug)]
pub enum BurstEvent {
    /// The first event of the burst arrived.
    Started,
    /// Another event arrived within the wait.
    Event,
    /// The wait ran out with no event.
    Quiet,
    /// The event source is gone.
    Closed,
}

/// What to do next while collapsing a burst.
#[derive(Clone, Copy, PartialEq, Eq, Structural, Debug)]
pub enum BurstAction {
    /// Wait this many nanoseconds for another event.
    WaitFor(u64),
    /// The burst is over: scan.
    Stop,
}

/// The next step of collapsing a burst that must be over by `deadline_ns`:
/// after an event, wait for more until the deadline; once the deadline has
/// passed, a wait ran out or the source is gone, stop.
pub open spec fn spec_drain_step(deadline_ns: u64, now_ns: u64, event: BurstEvent) -> BurstAction {
    match event {
        BurstEvent::Started | BurstEvent::Event => if now_ns <= deadline_ns {
            BurstAction::WaitFor((deadline_ns - now_ns) as u64)
        } else {
            BurstAction::Stop
        },
        BurstEvent::Quiet | BurstEvent::Closed => BurstAction::Stop,
    }
}

/// The next step of collapsing a burst.
pub fn drain_step(deadline_ns: u64, now_ns: u64, event: BurstEvent) -> (a: BurstAction)
    ensures
        a == spec_drain_step(deadline_ns, now_ns, event),
{
    match event {
        BurstEvent::Started | BurstEvent::Event => match drain_burst_remaining(deadline_ns, now_ns) {
            Some(remaining) => BurstAction::WaitFor(remaining),
            None => BurstAction::Stop,
        },
        BurstEvent::Quiet | BurstEvent::Closed => BurstAction::Stop,
    }
}

/// Collapsing a burst never waits past its deadline: every wait ends by it.
pub proof fn law_burst_wait_ends_by_deadline(deadline_ns: u64, now_ns: u64, event: BurstEvent)
    ensures
        spec_drain_step(deadline_ns, now_ns, event) matches BurstAction::WaitFor(w) ==> now_ns + w == deadline_ns,
{
}

/// Whether a file name is one of the ignored names.
pub open spec fn name_is_ignored(config: Config, name: Seq<char>) -> bool {
    string_views(config.ignored_names@).contains(name)
}

/// Whether a non-empty extension matches an ignored extension, ASCII case ignored.
pub open spec fn ext_is_ignored(config: Config, ext: Seq<char>) -> bool {
    ext.len() > 0 && exists|i: int| 0 <= i < config.ignored_extensions@.len()
        && ascii_lower(#[trigger] config.ignored_extensions@[i]@) == ascii_lower(ext)
}

/// The extension of a folder entry that is listed at all: not hidden, a
/// regular file, and ignored neither by name nor by extension.
pub open spec fn spec_listed_extension(config: Config, name: Seq<char>, is_file: bool) -> Option<Seq<char>> {
    if starts_with_char(name, '.') || !is_file || name_is_ignored(config, name) {
        None
    } else if ext_is_ignored(config, spec_extension_of(name)) {
        None
    } else {
        Some(spec_extension_of(name))
    }
}

/// Whether an extension marks a download still in progress.
pub open spec fn is_incomplete(ext: Seq<char>) -> bool {
    ext.len() > 0 && listed(INCOMPLETE_EXTENSIONS@, ext)
}

fn ignored_extension(config: &Config, ext: &str) -> (r: bool)
    ensures
        r == ext_is_ignored(*config, ext@),
{
    if ext.is_empty() {
        return false;
    }
    let mut i: usize = 0;
    while i < config.ignored_extensions.len()
        invariant
            i <= config.ignored_extensions@.len(),
            ext@.len() > 0,
            forall|j: int| 0 <= j < i ==> ascii_lower(#[trigger] config.ignored_extensions@[j]@) != ascii_lower(ext@),
        decreases config.ignored_extensions@.len() - i,
    {
        if eq_ignore_ascii_case(config.ignored_extensions[i].as_str(), ext) {
            return true;
        }
        i += 1;
    }
    false
}

fn starts_with_dot(name: &str) -> (r: bool)
    ensures
        r == starts_with_char(name@, '.'),
{
    name.unicode_len() > 0 && name.get_char(0) == '.'
}

/// The extension of a folder entry, if the entry is listed at all.
pub fn listed_extension(config: &Config, name: &str, is_file: bool) -> (r: Option<String>)
    ensures
        match r {
            Some(e) => spec_listed_extension(*config, name@, is_file) == Some(e@),
            None => spec_listed_extension(*config, name@, is_file) is None,
        },
{
    if starts_with_dot(name) || !is_file || contains_str(&config.ignored_names, name) {
        return None;
    }
    let ext = extension_of(name);
    if ignored_extension(config, ext.as_str()) {
        return None;
    }
    Some(ext)
}

/// Whether an extension marks a download still in progress.
pub fn incomplete(ext: &str) -> (r: bool)
    ensures
        r == is_incomplete(ext@),
{
    !ext.is_empty() && is_listed(INCOMPLETE_EXTENSIONS.as_slice(), ext)
}

/// What is known of a folder entry's file.
#[derive(Clone, Debug)]
pub struct FileFacts {
    pub is_file: bool,
    pub size: u64,
    /// Last modification, in nanoseconds since the Unix epoch; 0 when unknown.
    pub modified_ns: u128,
}

/// One entry of the watched folder, as listed.
#[derive(Clone, Debug)]
pub struct DirEntry {
    pub path: String,
    /// The entry's file name, when it is valid text.
    pub name: Option<String>,
    /// What its metadata says, when it could be read.
    pub facts: Option<FileFacts>,
}

/// A folder entry by the characters it holds.
pub struct EntryView {
    pub path: Seq<char>,
    pub name: Option<Seq<char>>,
    pub facts: Option<(bool, u64, u128)>,
}

impl View for DirEntry {
    type V = EntryView;

    open spec fn view(&self) -> EntryView {
        EntryView {
            path: self.path@,
            name: match self.name {
                Some(n) => Some(n@),
                None => None,
            },
            facts: match self.facts {
                Some(f) => Some((f.is_file, f.size, f.modified_ns)),
                None => None,
            },
        }
    }
}

/// The extension under which a folder entry is watched during a scan: it is
/// listed, not a download in progress, not offered before, and modified
/// since the organizer started.
pub open spec fn spec_watched_extension(
    config: Config,
    seen: Seq<Seq<char>>,
    app_start_ns: u128,
    e: EntryView,
) -> Option<Seq<char>> {
    match (e.name, e.facts) {
        (Some(name), Some((is_file, _size, modified))) => match spec_listed_extension(config, name, is_file) {
            Some(ext) => if is_incomplete(ext) || holds_path(seen, e.path) || modified < app_start_ns {
                None
            } else {
                Some(ext)
            },
            None => None,
        },
        _ => None,
    }
}

/// The readiness record of a file: its size when last seen, and when that
/// size was first seen (nanoseconds).
pub type Sighting = (u64, u64);

/// What the readiness gate does with a sighting of `path` at `size`, at
/// `now_ns`: a new file, or one whose size changed, is recorded and not yet
/// ready; a file seen at the same size for at least `STABLE_NS` is ready and
/// its record dropped.
pub open spec fn spec_observe(
    m: Map<Seq<char>, Sighting>,
    path: Seq<char>,
    size: u64,
    now_ns: u64,
) -> (Map<Seq<char>, Sighting>, bool) {
    if m.dom().contains(path) {
        let (s, t) = m[path];
        if s != size {
            (m.insert(path, (size, now_ns)), false)
        } else if now_ns >= t && now_ns - t >= STABLE_NS {
            (m.remove(path), true)
        } else {
            (m, false)
        }
    } else {
        (m.insert(path, (size, now_ns)), false)
    }
}

/// The files being watched until their size settles.
pub struct Tracker {
    files: Table<Sighting>,
}

impl Tracker {
    /// The sightings by path.
    pub closed spec fn sightings(&self) -> Map<Seq<char>, Sighting> {
        self.files.as_map()
    }

    /// The internal table is well formed.
    pub closed spec fn wf(&self) -> bool {
        self.files.wf()
    }

    /// Nothing watched yet.
    pub fn new() -> (t: Tracker)
        ensures
            t.wf(),
            t.sightings() == Map::<Seq<char>, Sighting>::empty(),
    {
        Tracker { files: Table::new() }
    }

    /// Record a sighting; true when the file is ready to be offered.
    pub fn observe(&mut self, path: String, size: u64, now_ns: u64) -> (ready: bool)
        requires
            old(self).wf(),
        ensures
            final(self).wf(),
            (final(self).sightings(), ready) == spec_observe(old(self).sightings(), path@, size, now_ns),
    {
        let ghost m = self.sightings();
        let known: Option<Sighting> = match self.files.get(path.as_str()) {
            Some(s) => Some(*s),
            None => None,
        };
        match known {
            Some((s, t)) => {
                if s != size {
                    self.files.insert(path, (size, now_ns));
                    false
                } else if now_ns >= t && now_ns - t >= STABLE_NS {
                    self.files.remove(path.as_str());
                    true
                } else {
                    false
                }
            },
            None => {
                self.files.insert(path, (size, now_ns));
                false
            },
        }
    }

    /// Forget every file but those in `present`.
    pub fn retain_present(&mut self, present: &Vec<String>)
        requires
            old(self).wf(),
        ensures
            final(self).wf(),
            final(self).sightings() == old(self).sightings().restrict(string_views(present@).to_set()),
    {
        self.files.retain_keys(present);
    }
}

/// A file found ready to offer: its path, name, extension and size.
pub struct Ready {
    pub path: Seq<char>,
    pub name: Seq<char>,
    pub ext: Seq<char>,
    pub size: u64,
}

/// The size recorded for a folder entry.
pub open spec fn entry_size(e: EntryView) -> u64 {
    match e.facts {
        Some((_, size, _)) => size,
        None => 0,
    }
}

/// The file name of a folder entry.
pub open spec fn entry_name(e: EntryView) -> Seq<char> {
    match e.name {
        Some(n) => n,
        None => Seq::empty(),
    }
}

/// One scan over `entries`, in order: the sightings afterwards (before the
/// absent files are forgotten), the files found ready, and the paths watched.
pub open spec fn scan_fold(
    config: Config,
    seen: Seq<Seq<char>>,
    app_start_ns: u128,
    now_ns: u64,
    m: Map<Seq<char>, Sighting>,
    entries: Seq<EntryView>,
) -> (Map<Seq<char>, Sighting>, Seq<Ready>, Seq<Seq<char>>)
    decreases entries.len(),
{
    if entries.len() == 0 {
        (m, Seq::empty(), Seq::empty())
    } else {
        let (m1, ready1, watched1) = scan_fold(config, seen, app_start_ns, now_ns, m, entries.drop_last());
        let e = entries.last();
        match spec_watched_extension(config, seen, app_start_ns, e) {
            Some(ext) => {
                let (m2, ready) = spec_observe(m1, e.path, entry_size(e), now_ns);
                (
                    m2,
                    if ready {
                        ready1.push(Ready { path: e.path, name: entry_name(e), ext, size: entry_size(e) })
                    } else {
                        ready1
                    },
                    watched1.push(e.path),
                )
            },
            None => (m1, ready1, watched1),
        }
    }
}

/// Whether a queued file is the offer made for a file found ready under `config`.
pub open spec fn offered_for(item: QueueView, r: Ready, config: Config) -> bool {
    &&& item.path == r.path
    &&& item.file_name == r.name
    &&& item.ext == r.ext
    &&& item.size == r.size
    &&& item.suggested == spec_resolve_destination(config, r.ext)
    &&& item.id.len() == 36
}

fn copy_item(item: &QueueItem) -> (r: QueueItem)
    ensures
        r@ == item@,
{
    QueueItem {
        id: item.id.clone(),
        path: item.path.clone(),
        file_name: item.file_name.clone(),
        ext: item.ext.clone(),
        size: item.size,
        suggested: item.suggested.clone(),
        detected_at: item.detected_at.clone(),
    }
}

/// The queue entry offering a file that became ready, with a fresh
/// identifier and the detection time.
pub fn offer(config: &Config, path: String, name: String, ext: String, size: u64) -> (item: QueueItem)
    requires
        config.wf(),
    ensures
        item.path@ == path@,
        item.file_name@ == name@,
        item.ext@ == ext@,
        item.size == size,
        item.suggested@ == spec_resolve_destination(*config, ext@),
        item.id@.len() == 36,
{
    let suggested = resolve_destination(config, ext.as_str());
    QueueItem {
        id: new_id(),
        path,
        file_name: name,
        ext,
        size,
        suggested,
        detected_at: now_rfc3339(),
    }
}

/// The paths of the files found ready.
pub open spec fn ready_paths(ready: Seq<Ready>) -> Seq<Seq<char>> {
    ready.map_values(|r: Ready| r.path)
}

/// The folder entries by the characters they hold.
pub open spec fn entry_views(entries: Seq<DirEntry>) -> Seq<EntryView> {
    entries.map_values(|e: DirEntry| e@)
}

/// What one scan over `entries` at `now_ns` does: the files found ready are
/// offered, in listing order, appended to the queue and marked as offered;
/// the sightings are those after the scan, restricted to the files still
/// watched; the settings and history are untouched.
pub open spec fn spec_scanned(
    before: AppState,
    sightings_before: Map<Seq<char>, Sighting>,
    entries: Seq<EntryView>,
    now_ns: u64,
    after: AppState,
    sightings_after: Map<Seq<char>, Sighting>,
    offered: Seq<QueueItem>,
) -> bool {
    let (m, ready, watched) = scan_fold(
        before.config,
        string_views(before.seen@),
        before.app_start_ns,
        now_ns,
        sightings_before,
        entries,
    );
    &&& sightings_after == m.restrict(watched.to_set())
    &&& offered.len() == ready.len()
    &&& forall|i: int| 0 <= i < ready.len() ==> offered_for(#[trigger] offered[i]@, ready[i], before.config)
    &&& queue_views(after.queue@) == queue_views(before.queue@) + queue_views(offered)
    &&& string_views(after.seen@) == string_views(before.seen@) + ready_paths(ready)
    &&& after.config == before.config
    &&& after.history@ == before.history@
    &&& after.app_start_ns == before.app_start_ns
}

/// What a scan at `now_s` (seconds) does: nothing but note the scan while
/// monitoring is paused, else the scan over `entries`.
pub open spec fn spec_scanned_at(
    before: AppState,
    sightings_before: Map<Seq<char>, Sighting>,
    entries: Seq<EntryView>,
    now_ns: u64,
    now_s: i64,
    after: AppState,
    sightings_after: Map<Seq<char>, Sighting>,
    offered: Seq<QueueItem>,
) -> bool {
    if spec_is_paused(before.config.paused_until, now_s) {
        &&& offered.len() == 0
        &&& sightings_after == sightings_before
        &&& after.queue@ == before.queue@
        &&& after.seen@ == before.seen@
        &&& after.config == before.config
        &&& after.history@ == before.history@
        &&& after.app_start_ns == before.app_start_ns
    } else {
        spec_scanned(before, sightings_before, entries, now_ns, after, sightings_after, offered)
    }
}

impl AppState {
    /// One scan at `now_s` (seconds) and `now_ns` (the scanner's clock):
    /// while monitoring is paused nothing is offered.
    pub fn scan_at(&mut self, tracker: &mut Tracker, entries: Vec<DirEntry>, now_ns: u64, now_s: i64) -> (offered: Vec<QueueItem>)
        requires
            old(self).config.wf(),
            old(tracker).wf(),
        ensures
            spec_scanned_at(*old(self), old(tracker).sightings(), entry_views(entries@), now_ns, now_s,
                *final(self), final(tracker).sightings(), offered@),
            final(tracker).wf(),
            final(self).last_scan is Some,
    {
        if is_paused(self.config.paused_until, now_s) {
            self.mark_scanned();
            return Vec::new();
        }
        self.scan_entries(tracker, entries, now_ns)
    }

    /// One scan now, as the clock reads.
    pub fn scan(&mut self, tracker: &mut Tracker, entries: Vec<DirEntry>, now_ns: u64) -> (offered: Vec<QueueItem>)
        requires
            old(self).config.wf(),
            old(tracker).wf(),
        ensures
            exists|now_s: i64| spec_scanned_at(*old(self), old(tracker).sightings(), entry_views(entries@), now_ns, now_s,
                *final(self), final(tracker).sightings(), offered@),
            final(tracker).wf(),
            final(self).last_scan is Some,
    {
        let now_s = now_timestamp();
        self.scan_at(tracker, entries, now_ns, now_s)
    }

    /// One scan over the listed `entries` at `now_ns`: files whose size has
    /// settled are queued and marked as offered, the others stay watched,
    /// and files no longer present are forgotten. The files queued are
    /// given back, in listing order.
    pub fn scan_entries(&mut self, tracker: &mut Tracker, entries: Vec<DirEntry>, now_ns: u64) -> (offered: Vec<QueueItem>)
        requires
            old(self).config.wf(),
            old(tracker).wf(),
        ensures
            spec_scanned(*old(self), old(tracker).sightings(), entry_views(entries@), now_ns, *final(self), final(tracker).sightings(), offered@),
            final(tracker).wf(),
            final(self).last_scan is Some,
    {
        let ghost seen0 = string_views(self.seen@);
        let ghost views = entry_views(entries@);
        let ghost m0 = tracker.sightings();
        let mut offered: Vec<QueueItem> = Vec::new();
        let mut watched: Vec<String> = Vec::new();
        for entry in it: entries.into_iter()
            invariant
                it.seq() == entries@,
                views == entry_views(entries@),
                seen0 == string_views(self.seen@),
                self.config.wf(),
                tracker.wf(),
                ({
                    let (m, ready, w) = scan_fold(
                        self.config, seen0, self.app_start_ns, now_ns, m0, views.take(it.index() as int));
                    &&& tracker.sightings() == m
                    &&& offered@.len() == ready.len()
                    &&& forall|i: int| 0 <= i < ready.len() ==> offered_for(#[trigger] offered@[i]@, ready[i], self.config)
                    &&& string_views(watched@) == w
                }),
        {
            let ghost i = it.index();
            let ghost ev = entry@;
            proof {
                assert(views.take(i + 1).drop_last() =~= views.take(i as int));
                assert(views.take(i + 1).last() == ev);
            }
            let DirEntry { path, name, facts } = entry;
            if let (Some(name), Some(facts)) = (name, facts) {
                if let Some(ext) = listed_extension(&self.config, name.as_str(), facts.is_file) {
                    let fresh = !contains_path(&self.seen, path.as_str());
                    if !incomplete(ext.as_str()) && fresh && facts.modified_ns >= self.app_start_ns {
                        let ghost wbefore = watched@;
                        watched.push(path.clone());
                        assert(string_views(watched@) =~= string_views(wbefore).push(path@));
                        let ready = tracker.observe(path.clone(), facts.size, now_ns);
                        if ready {
                            let item = offer(&self.config, path, name, ext, facts.size);
                            offered.push(item);
                        }
                    }
                }
            }
        }
        proof {
            assert(views.take(views.len() as int) =~= views);
        }
        tracker.retain_present(&watched);
        let ghost ready = scan_fold(self.config, seen0, self.app_start_ns, now_ns, m0, views).1;
        let mut k: usize = 0;
        while k < offered.len()
            invariant
                k <= offered@.len(),
                offered@.len() == ready.len(),
                forall|i: int| 0 <= i < ready.len() ==> offered_for(#[trigger] offered@[i]@, ready[i], old(self).config),
                queue_views(self.queue@) == queue_views(old(self).queue@) + queue_views(offered@.take(k as int)),
                string_views(self.seen@) == string_views(old(self).seen@) + ready_paths(ready.take(k as int)),
                self.config == old(self).config,
                self.history@ == old(self).history@,
                self.app_start_ns == old(self).app_start_ns,
            decreases offered@.len() - k,
        {
            let ghost qb = self.queue@;
            let ghost sb = self.seen@;
            self.queue.push(copy_item(&offered[k]));
            self.seen.push(offered[k].path.clone());
            proof {
                assert(offered_for(offered@[k as int]@, ready[k as int], old(self).config));
                assert(queue_views(offered@.take(k + 1)) =~= queue_views(offered@.take(k as int)).push(offered@[k as int]@));
                assert(queue_views(self.queue@) =~= queue_views(qb).push(offered@[k as int]@));
                assert(ready_paths(ready.take(k + 1)) =~= ready_paths(ready.take(k as int)).push(ready[k as int].path));
                assert(string_views(self.seen@) =~= string_views(sb).push(ready[k as int].path));
            }
            k += 1;
        }
        assert(offered@.take(offered@.len() as int) =~= offered@);
        assert(ready.take(ready.len() as int) =~= ready);
        self.last_scan = Some(now_rfc3339());
        offered
    }
}

/// The readiness gate: a file is never ready when first seen or when its
/// size just changed; it is ready only once it was seen before at the same
/// size at least `STABLE_NS` earlier, and then its record is dropped.
pub proof fn law_ready_only_after_stable_size(
    m: Map<Seq<char>, Sighting>,
    path: Seq<char>,
    size: u64,
    now_ns: u64,
)
    ensures
        spec_observe(m, path, size, now_ns).1 ==> {
            &&& m.dom().contains(path)
            &&& m[path].0 == size
            &&& now_ns >= m[path].1
            &&& now_ns - m[path].1 >= STABLE_NS
            &&& !spec_observe(m, path, size, now_ns).0.dom().contains(path)
        },
        !m.dom().contains(path) ==> !spec_observe(m, path, size, now_ns).1
            && spec_observe(m, path, size, now_ns).0[path] == (size, now_ns),
        forall|other: Seq<char>| other != path ==> (
            #[trigger] spec_observe(m, path, size, now_ns).0.dom().contains(other) == m.dom().contains(other)
            && (m.dom().contains(other) ==> spec_observe(m, path, size, now_ns).0[other] == m[other])),
{
}

/// Whether folder entry `e` is the regular file `r`, modified since `app_start_ns`.
pub open spec fn lists_file(e: EntryView, r: Ready, app_start_ns: u128) -> bool {
    &&& e.path == r.path
    &&& e.name == Some(r.name)
    &&& match e.facts {
        Some((is_file, _, modified)) => is_file && modified >= app_start_ns,
        None => false,
    }
}

/// A scan offers no hidden file, no directory, no file ignored by name or
/// extension, no download still in progress, no file offered before, and no
/// file older than the organizer's start.
pub proof fn law_offered_files_pass_every_filter(
    config: Config,
    seen: Seq<Seq<char>>,
    app_start_ns: u128,
    now_ns: u64,
    m: Map<Seq<char>, Sighting>,
    entries: Seq<EntryView>,
)
    ensures
        forall|i: int| 0 <= i < scan_fold(config, seen, app_start_ns, now_ns, m, entries).1.len() ==> {
            let r = #[trigger] scan_fold(config, seen, app_start_ns, now_ns, m, entries).1[i];
            &&& !starts_with_char(r.name, '.')
            &&& !name_is_ignored(config, r.name)
            &&& r.ext == spec_extension_of(r.name)
            &&& !ext_is_ignored(config, r.ext)
            &&& !is_incomplete(r.ext)
            &&& !holds_path(seen, r.path)
            &&& exists|j: int| 0 <= j < entries.len() && lists_file(#[trigger] entries[j], r, app_start_ns)
        },
    decreases entries.len(),
{
    if entries.len() > 0 {
        law_offered_files_pass_every_filter(config, seen, app_start_ns, now_ns, m, entries.drop_last());
        let prev = scan_fold(config, seen, app_start_ns, now_ns, m, entries.drop_last()).1;
        let cur = scan_fold(config, seen, app_start_ns, now_ns, m, entries).1;
        assert forall|i: int| 0 <= i < cur.len() implies {
            let r = #[trigger] cur[i];
            &&& !starts_with_char(r.name, '.')
            &&& !name_is_ignored(config, r.name)
            &&& r.ext == spec_extension_of(r.name)
            &&& !ext_is_ignored(config, r.ext)
            &&& !is_incomplete(r.ext)
            &&& !holds_path(seen, r.path)
            &&& exists|j: int| 0 <= j < entries.len() && lists_file(#[trigger] entries[j], r, app_start_ns)
        } by {
            if i < prev.len() {
                assert(cur[i] == prev[i]);
                let r = prev[i];
                let j = choose|j: int| 0 <= j < entries.drop_last().len() && lists_file(#[trigger] entries.drop_last()[j], r, app_start_ns);
                assert(entries[j] == entries.drop_last()[j]);
            } else {
                let j = entries.len() - 1;
                assert(entries[j] == entries.last());
            }
        }
    }
}

/// A file seen twice at the same size, at least `STABLE_NS` apart, is found
/// ready exactly once: at the first sighting when it had already settled
/// before, else at the second. (Earlier sightings lie in the past.)
pub proof fn law_settled_file_ready_once(m: Map<Seq<char>, Sighting>, path: Seq<char>, size: u64, t1: u64, t2: u64)
    requires
        t1 <= t2,
        t2 - t1 >= STABLE_NS,
        m.dom().contains(path) ==> m[path].1 <= t1,
    ensures
        spec_observe(m, path, size, t1).1 != spec_observe(spec_observe(m, path, size, t1).0, path, size, t2).1,
{
}

/// A file once offered is never watched again: its path is among the
/// offered ones, and a scan skips those.
pub proof fn law_offered_path_is_not_watched_again(config: Config, seen: Seq<Seq<char>>, app_start_ns: u128, e: EntryView)
    requires
        holds_path(seen, e.path),
    ensures
        spec_watched_extension(config, seen, app_start_ns, e) is None,
{
}

/// Whether two sighting maps agree on `path`.
pub open spec fn agree_at(a: Map<Seq<char>, Sighting>, b: Map<Seq<char>, Sighting>, path: Seq<char>) -> bool {
    &&& a.dom().contains(path) == b.dom().contains(path)
    &&& a.dom().contains(path) ==> a[path] == b[path]
}

proof fn lemma_observe_local(a: Map<Seq<char>, Sighting>, b: Map<Seq<char>, Sighting>, path: Seq<char>, size: u64, now_ns: u64, q: Seq<char>)
    requires
        agree_at(a, b, q),
    ensures
        q == path ==> agree_at(spec_observe(a, path, size, now_ns).0, spec_observe(b, path, size, now_ns).0, q)
            && spec_observe(a, path, size, now_ns).1 == spec_observe(b, path, size, now_ns).1,
        q != path ==> agree_at(spec_observe(a, path, size, now_ns).0, a, q),
{
}

/// The ready files' paths after adding one.
proof fn lemma_ready_paths_push(ready: Seq<Ready>, r: Ready)
    ensures
        ready_paths(ready.push(r)) == ready_paths(ready).push(r.path),
{
    assert(ready_paths(ready.push(r)) =~= ready_paths(ready).push(r.path));
}

proof fn lemma_push_contains(s: Seq<Seq<char>>, x: Seq<char>, y: Seq<char>)
    ensures
        s.push(x).contains(y) == (s.contains(y) || x == y),
{
    if s.push(x).contains(y) {
        let i = choose|i: int| 0 <= i < s.push(x).len() && s.push(x)[i] == y;
        if i < s.len() {
            assert(s[i] == y);
        }
    }
    if s.contains(y) {
        let i = choose|i: int| 0 <= i < s.len() && s[i] == y;
        assert(s.push(x)[i] == y);
    }
    if x == y {
        assert(s.push(x)[s.len() as int] == y);
    }
}

/// A scan leaves alone every path that no watched entry names.
proof fn lemma_scan_untouched(
    config: Config,
    seen: Seq<Seq<char>>,
    app_start_ns: u128,
    now_ns: u64,
    m: Map<Seq<char>, Sighting>,
    entries: Seq<EntryView>,
    path: Seq<char>,
)
    requires
        forall|j: int| 0 <= j < entries.len() && (#[trigger] entries[j]).path == path
            ==> spec_watched_extension(config, seen, app_start_ns, entries[j]) is None,
    ensures
        agree_at(scan_fold(config, seen, app_start_ns, now_ns, m, entries).0, m, path),
        !ready_paths(scan_fold(config, seen, app_start_ns, now_ns, m, entries).1).contains(path),
    decreases entries.len(),
{
    if entries.len() > 0 {
        let init = entries.drop_last();
        assert forall|j: int| 0 <= j < init.len() && (#[trigger] init[j]).path == path
            implies spec_watched_extension(config, seen, app_start_ns, init[j]) is None by {
            assert(init[j] == entries[j]);
        }
        lemma_scan_untouched(config, seen, app_start_ns, now_ns, m, init, path);
        let (m1, ready1, _w) = scan_fold(config, seen, app_start_ns, now_ns, m, init);
        let e = entries.last();
        assert(e == entries[entries.len() - 1]);
        if let Some(ext) = spec_watched_extension(config, seen, app_start_ns, e) {
            assert(e.path != path);
            lemma_observe_local(m1, m1, e.path, entry_size(e), now_ns, path);
            let (m2, r) = spec_observe(m1, e.path, entry_size(e), now_ns);
            if r {
                let rd = Ready { path: e.path, name: entry_name(e), ext, size: entry_size(e) };
                lemma_ready_paths_push(ready1, rd);
                lemma_push_contains(ready_paths(ready1), e.path, path);
            }
        }
    }
}

/// What a scan does to one watched file: when exactly one entry of the
/// listing names `entries[k].path` and that entry is watched, the scan's
/// record of that path, and whether it finds it ready, are those of the
/// readiness gate applied to that entry alone; the path stays watched.
pub proof fn law_scan_tracks_each_path(
    config: Config,
    seen: Seq<Seq<char>>,
    app_start_ns: u128,
    now_ns: u64,
    m: Map<Seq<char>, Sighting>,
    entries: Seq<EntryView>,
    k: int,
)
    requires
        0 <= k < entries.len(),
        spec_watched_extension(config, seen, app_start_ns, entries[k]) is Some,
        forall|j: int| 0 <= j < entries.len() && j != k ==> (#[trigger] entries[j]).path != entries[k].path,
    ensures
        ({
            let p = entries[k].path;
            let (m2, ready, watched) = scan_fold(config, seen, app_start_ns, now_ns, m, entries);
            let (mp, r) = spec_observe(m, p, entry_size(entries[k]), now_ns);
            &&& agree_at(m2, mp, p)
            &&& ready_paths(ready).contains(p) == r
            &&& watched.contains(p)
        }),
    decreases entries.len(),
{
    let p = entries[k].path;
    let init = entries.drop_last();
    let (m1, ready1, w1) = scan_fold(config, seen, app_start_ns, now_ns, m, init);
    let e = entries.last();
    assert(e == entries[entries.len() - 1]);
    if k == entries.len() - 1 {
        assert forall|j: int| 0 <= j < init.len() && (#[trigger] init[j]).path == p
            implies spec_watched_extension(config, seen, app_start_ns, init[j]) is None by {
            assert(init[j] == entries[j]);
        }
        lemma_scan_untouched(config, seen, app_start_ns, now_ns, m, init, p);
        lemma_observe_local(m1, m, p, entry_size(e), now_ns, p);
        let ext = spec_watched_extension(config, seen, app_start_ns, e)->0;
        let rd = Ready { path: e.path, name: entry_name(e), ext, size: entry_size(e) };
        lemma_ready_paths_push(ready1, rd);
        lemma_push_contains(ready_paths(ready1), p, p);
        lemma_push_contains(w1, p, p);
    } else {
        assert(init[k] == entries[k]);
        assert forall|j: int| 0 <= j < init.len() && j != k implies (#[trigger] init[j]).path != init[k].path by {
            assert(init[j] == entries[j]);
        }
        law_scan_tracks_each_path(config, seen, app_start_ns, now_ns, m, init, k);
        assert(e.path != p);
        if let Some(ext) = spec_watched_extension(config, seen, app_start_ns, e) {
            lemma_observe_local(m1, m1, e.path, entry_size(e), now_ns, p);
            let (m2, r) = spec_observe(m1, e.path, entry_size(e), now_ns);
            let rd = Ready { path: e.path, name: entry_name(e), ext, size: entry_size(e) };
            lemma_ready_paths_push(ready1, rd);
            lemma_push_contains(ready_paths(ready1), e.path, p);
            lemma_push_contains(w1, e.path, p);
        }
    }
}

/// The offered paths after a scan: those offered before, then the ready ones.
pub open spec fn seen_after(seen: Seq<Seq<char>>, ready: Seq<Ready>) -> Seq<Seq<char>> {
    seen + ready_paths(ready)
}

proof fn lemma_holds_path_append(a: Seq<Seq<char>>, b: Seq<Seq<char>>, p: Seq<char>)
    ensures
        holds_path(a + b, p) == (holds_path(a, p) || holds_path(b, p)),
{
    if holds_path(a + b, p) {
        let i = choose|i: int| 0 <= i < (a + b).len() && same_path(#[trigger] (a + b)[i], p);
        if i < a.len() {
            assert(a[i] == (a + b)[i]);
        } else {
            assert(b[i - a.len()] == (a + b)[i]);
        }
    }
    if holds_path(a, p) {
        let i = choose|i: int| 0 <= i < a.len() && same_path(#[trigger] a[i], p);
        assert((a + b)[i] == a[i]);
    }
    if holds_path(b, p) {
        let i = choose|i: int| 0 <= i < b.len() && same_path(#[trigger] b[i], p);
        assert((a + b)[a.len() + i] == b[i]);
    }
}

/// The readiness gate over two successive scans: a file that both scans
/// list at the same size, passing every filter but the "offered before" one,
/// at scan times at least `STABLE_NS` apart, is offered by exactly one of
/// the two scans. Here no two entries of the first listing name the same
/// place, each listing names the file once, the earlier sighting of it (if
/// any) lies before the first scan, and the second scan starts from what
/// the first one left: the offered paths, and the sightings of the paths it
/// still watched.
pub proof fn law_settled_file_offered_once_over_two_scans(
    config: Config,
    seen: Seq<Seq<char>>,
    app_start_ns: u128,
    m: Map<Seq<char>, Sighting>,
    first: Seq<EntryView>,
    now1: u64,
    k1: int,
    second: Seq<EntryView>,
    now2: u64,
    k2: int,
)
    requires
        0 <= k1 < first.len(),
        0 <= k2 < second.len(),
        first[k1].path == second[k2].path,
        entry_size(first[k1]) == entry_size(second[k2]),
        spec_watched_extension(config, seen, app_start_ns, first[k1]) is Some,
        spec_watched_extension(config, seen, app_start_ns, second[k2]) is Some,
        forall|i: int, j: int| 0 <= i < first.len() && 0 <= j < first.len() && i != j
            ==> !same_path(#[trigger] first[i].path, #[trigger] first[j].path),
        forall|j: int| 0 <= j < second.len() && j != k2 ==> (#[trigger] second[j]).path != second[k2].path,
        m.dom().contains(first[k1].path) ==> m[first[k1].path].1 <= now1,
        now1 <= now2,
        now2 - now1 >= STABLE_NS,
    ensures
        ({
            let p = first[k1].path;
            let (m1, ready1, watched1) = scan_fold(config, seen, app_start_ns, now1, m, first);
            let ready2 = scan_fold(
                config,
                seen_after(seen, ready1),
                app_start_ns,
                now2,
                m1.restrict(watched1.to_set()),
                second,
            ).1;
            ready_paths(ready1).contains(p) != ready_paths(ready2).contains(p)
        }),
{
    let p = first[k1].path;
    let size = entry_size(first[k1]);
    let (m1, ready1, watched1) = scan_fold(config, seen, app_start_ns, now1, m, first);
    let seen2 = seen_after(seen, ready1);
    let m2 = m1.restrict(watched1.to_set());
    assert forall|j: int| 0 <= j < first.len() && j != k1 implies (#[trigger] first[j]).path != first[k1].path by {
        assert(!same_path(first[j].path, first[k1].path));
        lemma_same_path_reflexive(first[k1].path);
    }
    law_scan_tracks_each_path(config, seen, app_start_ns, now1, m, first, k1);
    let (mp, r1) = spec_observe(m, p, size, now1);
    law_settled_file_ready_once(m, p, size, now1, now2);
    lemma_holds_path_append(seen, ready_paths(ready1), p);
    if ready_paths(ready1).contains(p) {
        let i = choose|i: int| 0 <= i < ready_paths(ready1).len() && ready_paths(ready1)[i] == p;
        lemma_same_path_reflexive(p);
        assert(same_path(ready_paths(ready1)[i], p));
        assert(holds_path(ready_paths(ready1), p));
        assert(holds_path(seen2, p));
        assert forall|j: int| 0 <= j < second.len() && (#[trigger] second[j]).path == p
            implies spec_watched_extension(config, seen2, app_start_ns, second[j]) is None by {
            assert(j == k2);
        }
        lemma_scan_untouched(config, seen2, app_start_ns, now2, m2, second, p);
    } else {
        law_offered_files_pass_every_filter(config, seen, app_start_ns, now1, m, first);
        assert(!holds_path(ready_paths(ready1), p)) by {
            if holds_path(ready_paths(ready1), p) {
                let i = choose|i: int| 0 <= i < ready_paths(ready1).len() && same_path(#[trigger] ready_paths(ready1)[i], p);
                let r = ready1[i];
                assert(ready_paths(ready1)[i] == r.path);
                let j = choose|j: int| 0 <= j < first.len() && lists_file(#[trigger] first[j], r, app_start_ns);
                if j == k1 {
                    assert(ready_paths(ready1)[i] == p);
                } else {
                    assert(!same_path(first[j].path, first[k1].path));
                }
            }
        }
        assert(!holds_path(seen, p));
        assert(!holds_path(seen2, p));
        assert(spec_watched_extension(config, seen2, app_start_ns, second[k2]) is Some);
        law_scan_tracks_each_path(config, seen2, app_start_ns, now2, m2, second, k2);
        lemma_push_contains(watched1, p, p);
        assert(watched1.to_set().contains(p));
        lemma_observe_local(m2, mp, p, size, now2, p);
    }
}

proof fn lemma_watched_are_entries(
    config: Config,
    seen: Seq<Seq<char>>,
    app_start_ns: u128,
    now_ns: u64,
    m: Map<Seq<char>, Sighting>,
    entries: Seq<EntryView>,
    q: Seq<char>,
)
    requires
        scan_fold(config, seen, app_start_ns, now_ns, m, entries).2.contains(q),
    ensures
        exists|j: int| 0 <= j < entries.len() && (#[trigger] entries[j]).path == q
            && spec_watched_extension(config, seen, app_start_ns, entries[j]) is Some,
    decreases entries.len(),
{
    let init = entries.drop_last();
    let w1 = scan_fold(config, seen, app_start_ns, now_ns, m, init).2;
    let e = entries.last();
    assert(e == entries[entries.len() - 1]);
    if spec_watched_extension(config, seen, app_start_ns, e) is Some {
        lemma_push_contains(w1, e.path, q);
    }
    if w1.contains(q) {
        lemma_watched_are_entries(config, seen, app_start_ns, now_ns, m, init, q);
        let j = choose|j: int| 0 <= j < init.len() && (#[trigger] init[j]).path == q
            && spec_watched_extension(config, seen, app_start_ns, init[j]) is Some;
        assert(entries[j] == init[j]);
    }
}

/// What one scan does to the sighting of one file, stated over the scan's
/// contract: for a file the listing names once and that passes every filter,
/// its sighting after the scan is what `spec_observe` gives, and the scan
/// offers it exactly when `spec_observe` says it is ready. Every sighting
/// kept after the scan belongs to a file of this listing that passes every
/// filter.
pub proof fn law_scan_updates_each_record(
    before: AppState,
    t: Map<Seq<char>, Sighting>,
    entries: Seq<EntryView>,
    now_ns: u64,
    after: AppState,
    t2: Map<Seq<char>, Sighting>,
    offered: Seq<QueueItem>,
    k: int,
)
    requires
        spec_scanned(before, t, entries, now_ns, after, t2, offered),
        0 <= k < entries.len(),
        spec_watched_extension(before.config, string_views(before.seen@), before.app_start_ns, entries[k]) is Some,
        forall|j: int| 0 <= j < entries.len() && j != k ==> (#[trigger] entries[j]).path != entries[k].path,
    ensures
        ({
            let p = entries[k].path;
            let (mp, r) = spec_observe(t, p, entry_size(entries[k]), now_ns);
            &&& agree_at(t2, mp, p)
            &&& (exists|i: int| 0 <= i < offered.len() && (#[trigger] offered[i]).path@ == p) == r
        }),
        forall|q: Seq<char>| #[trigger] t2.dom().contains(q) ==> exists|j: int| 0 <= j < entries.len()
            && (#[trigger] entries[j]).path == q
            && spec_watched_extension(before.config, string_views(before.seen@), before.app_start_ns, entries[j]) is Some,
{
    let seen = string_views(before.seen@);
    let p = entries[k].path;
    let (m, ready, watched) = scan_fold(before.config, seen, before.app_start_ns, now_ns, t, entries);
    law_scan_tracks_each_path(before.config, seen, before.app_start_ns, now_ns, t, entries, k);
    assert(watched.to_set().contains(p));
    let r = spec_observe(t, p, entry_size(entries[k]), now_ns).1;
    if r {
        let i = choose|i: int| 0 <= i < ready_paths(ready).len() && ready_paths(ready)[i] == p;
        assert(offered_for(offered[i]@, ready[i], before.config));
        assert(offered[i].path@ == p);
    }
    if exists|i: int| 0 <= i < offered.len() && (#[trigger] offered[i]).path@ == p {
        let i = choose|i: int| 0 <= i < offered.len() && (#[trigger] offered[i]).path@ == p;
        assert(offered_for(offered[i]@, ready[i], before.config));
        assert(ready_paths(ready)[i] == p);
        assert(ready_paths(ready).contains(p));
    }
    assert forall|q: Seq<char>| #[trigger] t2.dom().contains(q) implies exists|j: int| 0 <= j < entries.len()
        && (#[trigger] entries[j]).path == q
        && spec_watched_extension(before.config, seen, before.app_start_ns, entries[j]) is Some by {
        assert(watched.to_set().contains(q));
        lemma_watched_are_entries(before.config, seen, before.app_start_ns, now_ns, t, entries, q);
    }
}

/// Over a session a file is offered at most once: a scan offers only paths
/// not offered before, and afterwards they are among the offered paths,
/// which only grow.
pub proof fn law_scan_offers_only_new_paths(
    before: AppState,
    t: Map<Seq<char>, Sighting>,
    entries: Seq<EntryView>,
    now_ns: u64,
    after: AppState,
    t2: Map<Seq<char>, Sighting>,
    offered: Seq<QueueItem>,
)
    requires
        spec_scanned(before, t, entries, now_ns, after, t2, offered),
    ensures
        forall|i: int| 0 <= i < offered.len() ==> !holds_path(string_views(before.seen@), (#[trigger] offered[i]).path@),
        forall|i: int| 0 <= i < offered.len() ==> string_views(after.seen@).contains((#[trigger] offered[i]).path@),
        string_views(after.seen@).take(before.seen@.len() as int) == string_views(before.seen@),
{
    let seen = string_views(before.seen@);
    let ready = scan_fold(before.config, seen, before.app_start_ns, now_ns, t, entries).1;
    law_offered_files_pass_every_filter(before.config, seen, before.app_start_ns, now_ns, t, entries);
    assert forall|i: int| 0 <= i < offered.len() implies !holds_path(seen, (#[trigger] offered[i]).path@)
        && string_views(after.seen@).contains(offered[i].path@) by {
        assert(offered_for(offered[i]@, ready[i], before.config));
        assert(ready_paths(ready)[i] == ready[i].path);
        assert(string_views(after.seen@)[seen.len() + i] == ready[i].path);
    }
    assert(string_views(after.seen@).take(before.seen@.len() as int) =~= seen);
}

/// The scan watches a folder entry exactly when it passes the seven
/// documented filters, whatever category its extension has: its name does
/// not start with `.`, it is a regular file, its name is not an ignored
/// name, its extension (when it has one) is not an ignored extension in any
/// ASCII case, nor an extension of a download in progress, its path was not
/// offered before, and it was modified since the organizer started. It is
/// then watched under the extension of its name.
pub proof fn law_scan_filter_is_the_documented_one(
    config: Config,
    seen: Seq<Seq<char>>,
    app_start_ns: u128,
    e: EntryView,
    name: Seq<char>,
    is_file: bool,
    size: u64,
    modified: u128,
)
    requires
        e.name == Some(name),
        e.facts == Some((is_file, size, modified)),
    ensures
        ({
            let ext = spec_extension_of(name);
            let passes = {
                &&& !(name.len() > 0 && name[0] == '.')
                &&& is_file
                &&& !(exists|i: int| 0 <= i < config.ignored_names@.len() && (#[trigger] config.ignored_names@[i])@ == name)
                &&& !(ext.len() > 0 && exists|i: int| 0 <= i < config.ignored_extensions@.len()
                    && ascii_lower((#[trigger] config.ignored_extensions@[i])@) == ascii_lower(ext))
                &&& !(ext.len() > 0 && exists|i: int| 0 <= i < INCOMPLETE_EXTENSIONS@.len()
                    && (#[trigger] INCOMPLETE_EXTENSIONS@[i])@ == ext)
                &&& !(exists|i: int| 0 <= i < seen.len() && same_path(#[trigger] seen[i], e.path))
                &&& modified >= app_start_ns
            };
            spec_watched_extension(config, seen, app_start_ns, e) == if passes { Some(ext) } else { None }
        }),
{
    let ext = spec_extension_of(name);
    if exists|i: int| 0 <= i < config.ignored_names@.len() && (#[trigger] config.ignored_names@[i])@ == name {
        let i = choose|i: int| 0 <= i < config.ignored_names@.len() && (#[trigger] config.ignored_names@[i])@ == name;
        assert(string_views(config.ignored_names@)[i] == name);
    }
    if string_views(config.ignored_names@).contains(name) {
        let i = choose|i: int| 0 <= i < string_views(config.ignored_names@).len() && string_views(config.ignored_names@)[i] == name;
        assert(config.ignored_names@[i]@ == name);
    }
}

} // verus!
