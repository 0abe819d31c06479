//! What the organizer holds while it runs: the pending queue, the files
//! already offered, the move history, and the operations on them.
use vstd::prelude::*;
use crate::clock::{new_id, now_rfc3339, now_timestamp};
use crate::config::Config;
use crate::paths::{paths_equal, same_path};
use crate::mover::{opt_view, MoveOutcome};
use crate::text::{str_eq, string_views};

verus! {

/// How many moves the history keeps.
pub const HISTORY_LIMIT: usize = 50;

/// A detected file waiting for the user's decision.
#[derive(Clone, Debug)]
pub struct QueueItem {
    pub id: String,
    pub path: String,
    pub file_name: String,
    pub ext: String,
    pub size: u64,
    pub suggested: String,
    pub detected_at: String,
}

/// A queued file by the characters it holds.
pub struct QueueView {
    pub id: Seq<char>,
    pub path: Seq<char>,
    pub file_name: Seq<char>,
    pub ext: Seq<char>,
    pub size: u64,
    pub suggested: Seq<char>,
    pub detected_at: Seq<char>,
}

impl View for QueueItem {
    type V = QueueView;

    open spec fn view(&self) -> QueueView {
        QueueView {
            id: self.id@,
            path: self.path@,
            file_name: self.file_name@,
            ext: self.ext@,
            size: self.size,
            suggested: self.suggested@,
            detected_at: self.detected_at@,
        }
    }
}

/// One move in the history.
#[derive(Clone, Debug)]
pub struct HistoryEntry {
    pub id: String,
    pub source: String,
    pub destination: String,
    pub archived: Option<String>,
    /// The remembered destination this move made into a rule, if any.
    pub rule: Option<String>,
    pub timestamp: String,
    pub undone: bool,
}

/// A history entry by the characters it holds.
pub struct HistoryView {
    pub id: Seq<char>,
    pub source: Seq<char>,
    pub destination: Seq<char>,
    pub archived: Option<Seq<char>>,
    pub rule: Option<Seq<char>>,
    pub timestamp: Seq<char>,
    pub undone: bool,
}

impl View for HistoryEntry {
    type V = HistoryView;

    open spec fn view(&self) -> HistoryView {
        HistoryView {
            id: self.id@,
            source: self.source@,
            destination: self.destination@,
            archived: opt_view(self.archived),
            rule: opt_view(self.rule),
            timestamp: self.timestamp@,
            undone: self.undone,
        }
    }
}

fn copy_opt(o: &Option<String>) -> (r: Option<String>)
    ensures
        opt_view(r) == opt_view(*o),
{
    match o {
        Some(s) => Some(s.clone()),
        None => None,
    }
}

impl HistoryEntry {
    /// A copy of this entry.
    pub fn copy(&self) -> (r: HistoryEntry)
        ensures
            r@ == self@,
    {
        HistoryEntry {
            id: self.id.clone(),
            source: self.source.clone(),
            destination: self.destination.clone(),
            archived: copy_opt(&self.archived),
            rule: copy_opt(&self.rule),
            timestamp: self.timestamp.clone(),
            undone: self.undone,
        }
    }
}

/// What the status panel shows.
#[derive(Clone, Debug)]
pub struct Status {
    pub watch_dir: String,
    pub pending: usize,
    pub paused: bool,
    pub scanning: bool,
    pub last_scan: Option<String>,
}

/// A file of the watched folder as the organizer dialog lists it.
#[derive(Clone, Debug)]
pub struct OrganizerItem {
    pub path: String,
    pub file_name: String,
    pub ext: String,
    pub size: u64,
    pub suggested: String,
}

/// One file the user chose to organize, and where to.
#[derive(Clone, Debug)]
pub struct OrganizeRequest {
    pub path: String,
    pub destination: String,
    /// Whether the destination becomes the rule for the file's extension.
    pub remember: bool,
}

/// Whether monitoring is suspended at `now` (seconds): a pause lasts while
/// its end lies in the future.
pub open spec fn spec_is_paused(paused_until: Option<i64>, now: i64) -> bool {
    match paused_until {
        Some(until) => until > now,
        None => false,
    }
}

/// Whether monitoring is suspended at `now` (seconds).
pub fn is_paused(paused_until: Option<i64>, now: i64) -> (r: bool)
    ensures
        r == spec_is_paused(paused_until, now),
{
    match paused_until {
        Some(until) => until > now,
        None => false,
    }
}

/// The history once `entry` is recorded: newest first, at most `HISTORY_LIMIT` entries.
pub open spec fn spec_push_history(history: Seq<HistoryView>, entry: HistoryView) -> Seq<HistoryView> {
    let h = seq![entry] + history;
    if h.len() > HISTORY_LIMIT {
        h.take(HISTORY_LIMIT as int)
    } else {
        h
    }
}

/// The history entries by the characters they hold.
pub open spec fn history_views(h: Seq<HistoryEntry>) -> Seq<HistoryView> {
    h.map_values(|e: HistoryEntry| e@)
}

/// The queued files by the characters they hold.
pub open spec fn queue_views(q: Seq<QueueItem>) -> Seq<QueueView> {
    q.map_values(|e: QueueItem| e@)
}

/// Keeps the queued files whose path is not `path`.
pub open spec fn not_at(path: Seq<char>) -> spec_fn(QueueView) -> bool {
    |item: QueueView| !same_path(item.path, path)
}

/// Keeps the queued files whose path is none of `paths`.
pub open spec fn none_of(paths: Seq<Seq<char>>) -> spec_fn(QueueView) -> bool {
    |item: QueueView| !holds_path(paths, item.path)
}

/// Whether one of `paths` names the same place as `p`.
pub open spec fn holds_path(paths: Seq<Seq<char>>, p: Seq<char>) -> bool {
    exists|i: int| 0 <= i < paths.len() && same_path(#[trigger] paths[i], p)
}

/// The first position of an entry with identifier `id`.
pub open spec fn first_with_id(h: Seq<HistoryView>, id: Seq<char>) -> Option<int>
    decreases h.len(),
{
    if h.len() == 0 {
        None
    } else if h[0].id == id {
        Some(0)
    } else {
        match first_with_id(h.drop_first(), id) {
            Some(i) => Some(i + 1),
            None => None,
        }
    }
}

/// Message for an undo of an unknown entry.
pub open spec fn msg_not_found() -> Seq<char> {
    "history entry not found"@
}

/// Message for an undo of a move already undone.
pub open spec fn msg_already_undone() -> Seq<char> {
    "move was already undone"@
}

/// Message for an undo whose moved file is gone.
pub open spec fn msg_destination_gone() -> Seq<char> {
    "destination no longer exists"@
}

/// Message for an undo whose original place is taken.
pub open spec fn msg_source_occupied() -> Seq<char> {
    "original location is occupied"@
}

/// Which entry an undo of `id` works on, or why it is refused.
pub open spec fn spec_find_undoable(h: Seq<HistoryView>, id: Seq<char>) -> Result<int, Seq<char>> {
    match first_with_id(h, id) {
        None => Err(msg_not_found()),
        Some(i) => if h[i].undone {
            Err(msg_already_undone())
        } else {
            Ok(i)
        },
    }
}

/// What the status panel shows at `now` (seconds).
pub open spec fn spec_status(state: AppState, now: i64, st: Status) -> bool {
    &&& st.watch_dir@ == state.config.watch_dir@
    &&& st.pending == state.queue@.len()
    &&& st.paused == spec_is_paused(state.config.paused_until, now)
    &&& st.scanning
    &&& opt_view(st.last_scan) == opt_view(state.last_scan)
}

/// Everything the organizer holds while it runs.
pub struct AppState {
    pub config: Config,
    pub config_path: String,
    /// Detected files waiting for a decision, oldest first.
    pub queue: Vec<QueueItem>,
    /// Paths already offered in this session.
    pub seen: Vec<String>,
    /// Recorded moves, newest first.
    pub history: Vec<HistoryEntry>,
    /// When the organizer started, in nanoseconds since the Unix epoch.
    pub app_start_ns: u128,
    pub last_scan: Option<String>,
}

impl AppState {
    /// A fresh state: nothing queued, seen or recorded yet.
    pub fn new(config: Config, config_path: String, app_start_ns: u128) -> (s: AppState)
        ensures
            s.config == config,
            s.config_path@ == config_path@,
            s.queue@.len() == 0,
            s.seen@.len() == 0,
            s.history@.len() == 0,
            s.app_start_ns == app_start_ns,
            s.last_scan is None,
    {
        AppState {
            config,
            config_path,
            queue: Vec::new(),
            seen: Vec::new(),
            history: Vec::new(),
            app_start_ns,
            last_scan: None,
        }
    }

    /// What the status panel shows at `now` (seconds).
    pub fn status_at(&self, now: i64) -> (st: Status)
        ensures
            spec_status(*self, now, st),
    {
        Status {
            watch_dir: self.config.watch_dir.clone(),
            pending: self.queue.len(),
            paused: is_paused(self.config.paused_until, now),
            scanning: true,
            last_scan: copy_opt(&self.last_scan),
        }
    }

    /// What the status panel shows now.
    pub fn status(&self) -> (st: Status)
        ensures
            exists|now: i64| spec_status(*self, now, st),
    {
        let now = now_timestamp();
        self.status_at(now)
    }

    /// Record that a scan just ran.
    pub fn mark_scanned(&mut self)
        ensures
            final(self).last_scan is Some,
            final(self).config == old(self).config,
            final(self).queue@ == old(self).queue@,
            final(self).seen@ == old(self).seen@,
            final(self).history@ == old(self).history@,
            final(self).app_start_ns == old(self).app_start_ns,
    {
        self.last_scan = Some(now_rfc3339());
    }

    /// Suspend monitoring until `until` (seconds), or resume with `None`.
    pub fn set_paused_until(&mut self, until: Option<i64>)
        requires
            old(self).config.wf(),
        ensures
            final(self).config.paused_until == until,
            final(self).config.wf(),
            final(self).config.rules == old(self).config.rules,
            final(self).queue@ == old(self).queue@,
            final(self).history@ == old(self).history@,
    {
        self.config.paused_until = until;
    }

    /// Drop the queued files at `path`: the user chose to do nothing with them.
    pub fn dismiss(&mut self, path: &str)
        ensures
            queue_views(final(self).queue@) == queue_views(old(self).queue@).filter(not_at(path@)),
            final(self).config == old(self).config,
            final(self).seen@ == old(self).seen@,
            final(self).history@ == old(self).history@,
    {
        let mut old_queue: Vec<QueueItem> = Vec::new();
        std::mem::swap(&mut old_queue, &mut self.queue);
        let ghost orig = old_queue@;
        let ghost p = path@;
        let mut kept: Vec<QueueItem> = Vec::new();
        for item in it: old_queue.into_iter()
            invariant
                it.seq() == orig,
                queue_views(kept@) == queue_views(orig.take(it.index() as int)).filter(not_at(p)),
                p == path@,
        {
            let ghost i = it.index();
            proof {
                assert(queue_views(orig.take(i + 1)) =~= queue_views(orig.take(i as int)).push(item@));
                queue_views(orig.take(i as int)).lemma_filter_push(item@, not_at(p));
            }
            if !paths_equal(item.path.as_str(), path) {
                let ghost before = kept@;
                let ghost iv = item@;
                kept.push(item);
                assert(queue_views(kept@) =~= queue_views(before).push(iv));
            }
        }
        assert(orig.take(orig.len() as int) =~= orig);
        self.queue = kept;
    }

    /// Drop the queued files whose path is one of `moved`: they were moved away.
    pub fn remove_moved(&mut self, moved: &Vec<String>)
        ensures
            queue_views(final(self).queue@) == queue_views(old(self).queue@).filter(
                none_of(string_views(moved@)),
            ),
            final(self).config == old(self).config,
            final(self).seen@ == old(self).seen@,
            final(self).history@ == old(self).history@,
    {
        let ghost paths = string_views(moved@);
        let mut old_queue: Vec<QueueItem> = Vec::new();
        std::mem::swap(&mut old_queue, &mut self.queue);
        let ghost orig = old_queue@;
        let mut kept: Vec<QueueItem> = Vec::new();
        for item in it: old_queue.into_iter()
            invariant
                it.seq() == orig,
                paths == string_views(moved@),
                queue_views(kept@) == queue_views(orig.take(it.index() as int)).filter(none_of(paths)),
        {
            let ghost i = it.index();
            proof {
                assert(queue_views(orig.take(i + 1)) =~= queue_views(orig.take(i as int)).push(item@));
                queue_views(orig.take(i as int)).lemma_filter_push(item@, none_of(paths));
            }
            if !contains_path(moved, item.path.as_str()) {
                let ghost before = kept@;
                let ghost iv = item@;
                kept.push(item);
                assert(queue_views(kept@) =~= queue_views(before).push(iv));
            }
        }
        assert(orig.take(orig.len() as int) =~= orig);
        self.queue = kept;
    }

    /// Put `entry` first in the history, keeping at most `HISTORY_LIMIT` entries.
    pub fn push_history(&mut self, entry: HistoryEntry)
        ensures
            history_views(final(self).history@) == spec_push_history(history_views(old(self).history@), entry@),
            final(self).config == old(self).config,
            final(self).queue@ == old(self).queue@,
            final(self).seen@ == old(self).seen@,
    {
        let ghost before = history_views(self.history@);
        self.history.insert(0, entry);
        assert(history_views(self.history@) =~= seq![entry@] + before);
        if self.history.len() > HISTORY_LIMIT {
            self.history.truncate(HISTORY_LIMIT);
            assert(history_views(self.history@) =~= (seq![entry@] + before).take(HISTORY_LIMIT as int));
        }
    }

    /// Record a finished move, with the rule it taught if any, under a fresh
    /// identifier and the current time.
    pub fn record_history(&mut self, outcome: &MoveOutcome, rule: Option<String>)
        ensures
            history_views(final(self).history@).len() >= 1,
            history_views(final(self).history@) == spec_push_history(
                history_views(old(self).history@),
                history_views(final(self).history@)[0],
            ),
            history_views(final(self).history@)[0].source == outcome.source@,
            history_views(final(self).history@)[0].destination == outcome.destination@,
            history_views(final(self).history@)[0].archived == opt_view(outcome.archived),
            history_views(final(self).history@)[0].rule == opt_view(rule),
            history_views(final(self).history@)[0].id.len() == 36,
            !history_views(final(self).history@)[0].undone,
            final(self).config == old(self).config,
            final(self).queue@ == old(self).queue@,
            final(self).seen@ == old(self).seen@,
    {
        let entry = HistoryEntry {
            id: new_id(),
            source: outcome.source.clone(),
            destination: outcome.destination.clone(),
            archived: copy_opt(&outcome.archived),
            rule,
            timestamp: now_rfc3339(),
            undone: false,
        };
        let ghost ev = entry@;
        self.push_history(entry);
        assert(history_views(self.history@)[0] == ev);
    }

    /// Which entry an undo of `id` works on, or why it is refused.
    pub fn find_undoable(&self, id: &str) -> (r: Result<usize, String>)
        ensures
            match r {
                Ok(i) => spec_find_undoable(history_views(self.history@), id@) == Ok::<int, Seq<char>>(i as int),
                Err(e) => spec_find_undoable(history_views(self.history@), id@) == Err::<int, Seq<char>>(e@),
            },
    {
        let ghost h = history_views(self.history@);
        assert(h.skip(0) =~= h);
        let mut i: usize = 0;
        while i < self.history.len()
            invariant
                h == history_views(self.history@),
                i <= h.len(),
                first_with_id(h, id@) == match first_with_id(h.skip(i as int), id@) {
                    Some(k) => Some(k + i),
                    None => None::<int>,
                },
            decreases h.len() - i,
        {
            proof {
                assert(h.skip(i as int).drop_first() =~= h.skip(i + 1));
                assert(h.skip(i as int)[0] == h[i as int]);
            }
            if str_eq(self.history[i].id.as_str(), id) {
                if self.history[i].undone {
                    return Err("move was already undone".to_owned());
                }
                return Ok(i);
            }
            i += 1;
        }
        assert(h.skip(i as int).len() == 0);
        Err("history entry not found".to_owned())
    }

    /// Mark entry `index` as undone, leaving every other entry as it was, and
    /// give back a copy of it.
    pub fn mark_undone(&mut self, index: usize) -> (r: HistoryEntry)
        requires
            index < old(self).history@.len(),
        ensures
            r@ == (HistoryView { undone: true, ..old(self).history@[index as int]@ }),
            history_views(final(self).history@) == history_views(old(self).history@).update(index as int, r@),
            final(self).config == old(self).config,
            final(self).queue@ == old(self).queue@,
            final(self).seen@ == old(self).seen@,
    {
        let mut entry = self.history[index].copy();
        entry.undone = true;
        let r = entry.copy();
        self.history.set(index, entry);
        assert(history_views(self.history@) =~= history_views(old(self).history@).update(index as int, r@));
        r
    }
}

/// Whether one of `list` names the same place as path `p`.
pub fn contains_path(list: &Vec<String>, p: &str) -> (r: bool)
    ensures
        r == holds_path(string_views(list@), p@),
{
    let ghost views = string_views(list@);
    let mut i: usize = 0;
    while i < list.len()
        invariant
            i <= list@.len(),
            views == string_views(list@),
            forall|j: int| 0 <= j < i ==> !same_path(#[trigger] views[j], p@),
        decreases list@.len() - i,
    {
        if paths_equal(list[i].as_str(), p) {
            assert(same_path(views[i as int], p@));
            return true;
        }
        i += 1;
    }
    false
}

/// Whether `s` is one of `list`.
pub fn contains_str(list: &Vec<String>, s: &str) -> (r: bool)
    ensures
        r == string_views(list@).contains(s@),
{
    let ghost views = string_views(list@);
    let mut i: usize = 0;
    while i < list.len()
        invariant
            i <= list@.len(),
            views == string_views(list@),
            forall|j: int| 0 <= j < i ==> views[j] != s@,
        decreases list@.len() - i,
    {
        if str_eq(list[i].as_str(), s) {
            assert(views[i as int] == s@);
            return true;
        }
        i += 1;
    }
    false
}

/// The history never outgrows its limit, keeps the newest move first, and
/// keeps the older moves behind it in their order.
pub proof fn law_history_is_bounded_and_newest_first(history: Seq<HistoryView>, entry: HistoryView)
    requires
        history.len() <= HISTORY_LIMIT,
    ensures
        spec_push_history(history, entry).len() <= HISTORY_LIMIT,
        spec_push_history(history, entry)[0] == entry,
        forall|i: int| 1 <= i < spec_push_history(history, entry).len()
            ==> #[trigger] spec_push_history(history, entry)[i] == history[i - 1],
        spec_push_history(history, entry).len() == if history.len() < HISTORY_LIMIT {
            history.len() + 1
        } else {
            HISTORY_LIMIT as nat
        },
{
}

/// Dismissing a path leaves no queued file at that path, keeps every other
/// queued file, and changes nothing else in the queue's order.
pub proof fn law_dismiss_removes_exactly_that_path(queue: Seq<QueueView>, path: Seq<char>)
    ensures
        forall|i: int| 0 <= i < queue.filter(not_at(path)).len()
            ==> !same_path(#[trigger] queue.filter(not_at(path))[i].path, path),
        forall|i: int| 0 <= i < queue.len() && !same_path(queue[i].path, path)
            ==> queue.filter(not_at(path)).contains(#[trigger] queue[i]),
        queue.filter(not_at(path)).len() <= queue.len(),
{
    broadcast use vstd::seq_lib::group_filter_ensures;
    assert forall|i: int| 0 <= i < queue.filter(not_at(path)).len()
        implies !same_path(#[trigger] queue.filter(not_at(path))[i].path, path) by {
        assert(not_at(path)(queue.filter(not_at(path))[i]));
    }
    assert forall|i: int| 0 <= i < queue.len() && !same_path(queue[i].path, path)
        implies queue.filter(not_at(path)).contains(#[trigger] queue[i]) by {
        assert(not_at(path)(queue[i]));
    }
}

proof fn lemma_first_with_id_update(h: Seq<HistoryView>, id: Seq<char>, i: int, x: HistoryView)
    requires
        0 <= i < h.len(),
        x.id == h[i].id,
    ensures
        first_with_id(h.update(i, x), id) == first_with_id(h, id),
    decreases h.len(),
{
    if i > 0 {
        assert(h.update(i, x)[0] == h[0]);
        assert(h.update(i, x).drop_first() =~= h.drop_first().update(i - 1, x));
        lemma_first_with_id_update(h.drop_first(), id, i - 1, x);
    } else {
        assert(h.update(i, x)[0].id == h[0].id);
        assert(h.update(i, x).drop_first() =~= h.drop_first());
    }
}

/// A move is undone at most once: once the entry an undo works on is marked
/// undone, another undo of the same identifier is refused.
pub proof fn law_undo_happens_once(h: Seq<HistoryView>, id: Seq<char>, i: int)
    requires
        spec_find_undoable(h, id) == Ok::<int, Seq<char>>(i),
    ensures
        spec_find_undoable(h.update(i, HistoryView { undone: true, ..h[i] }), id)
            == Err::<int, Seq<char>>(msg_already_undone()),
{
    lemma_first_with_id_index(h, id);
    lemma_first_with_id_update(h, id, i, HistoryView { undone: true, ..h[i] });
}

proof fn lemma_first_with_id_index(h: Seq<HistoryView>, id: Seq<char>)
    ensures
        first_with_id(h, id) matches Some(i) ==> 0 <= i < h.len() && h[i].id == id,
    decreases h.len(),
{
    if h.len() > 0 && h[0].id != id {
        lemma_first_with_id_index(h.drop_first(), id);
    }
}

} // verus!
