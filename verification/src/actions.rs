//! What the user asks for: confirming moves from the queue, organizing
//! existing files, remembering rules, and the tray menu.
use vstd::prelude::*;
use crate::classifier::{extension_of, resolve_destination, spec_extension_of, spec_resolve_destination};
use crate::clock::{now_timestamp, today_stamp};
use crate::config::Config;
use crate::mover::{duplicate_policy, spec_duplicate_policy, spec_start, MoveJob, MoveStep};
use crate::paths::{file_name_or_empty, file_name_or_empty_of, paths_equal, same_path};
use crate::state::{queue_views, AppState, OrganizeRequest, QueueView};
use crate::table::Table;
use crate::text::str_eq;

verus! {

/// One file to move, and where to.
#[derive(Clone, Debug)]
pub struct MoveTarget {
    pub source: String,
    pub ext: String,
    pub destination: String,
}

/// A target by the characters it holds.
pub struct TargetView {
    pub source: Seq<char>,
    pub ext: Seq<char>,
    pub destination: Seq<char>,
}

impl View for MoveTarget {
    type V = TargetView;

    open spec fn view(&self) -> TargetView {
        TargetView { source: self.source@, ext: self.ext@, destination: self.destination@ }
    }
}

/// The targets by the characters they hold.
pub open spec fn target_views(t: Seq<MoveTarget>) -> Seq<TargetView> {
    t.map_values(|x: MoveTarget| x@)
}

/// What confirming the dialog does: the files to move, and the rule it
/// teaches, if any.
#[derive(Clone, Debug)]
pub struct ConfirmPlan {
    pub targets: Vec<MoveTarget>,
    /// Extension and destination to remember.
    pub learned_rule: Option<(String, String)>,
}

/// The destination chosen: the custom one when given, else the suggestion.
pub open spec fn chosen(custom: Option<Seq<char>>, suggested: Seq<char>) -> Seq<char> {
    match custom {
        Some(c) => c,
        None => suggested,
    }
}

/// Every queued file, each to the custom destination or its own suggestion.
pub open spec fn all_targets(queue: Seq<QueueView>, custom: Option<Seq<char>>) -> Seq<TargetView> {
    queue.map_values(|q: QueueView| TargetView { source: q.path, ext: q.ext, destination: chosen(custom, q.suggested) })
}

/// The first queued file at `path`.
pub open spec fn first_at(queue: Seq<QueueView>, path: Seq<char>) -> Option<int>
    decreases queue.len(),
{
    if queue.len() == 0 {
        None
    } else if same_path(queue[0].path, path) {
        Some(0)
    } else {
        match first_at(queue.drop_first(), path) {
            Some(i) => Some(i + 1),
            None => None,
        }
    }
}

proof fn lemma_first_at_index(q: Seq<QueueView>, path: Seq<char>)
    ensures
        first_at(q, path) matches Some(i) ==> 0 <= i < q.len(),
    decreases q.len(),
{
    if q.len() > 0 && !same_path(q[0].path, path) {
        lemma_first_at_index(q.drop_first(), path);
    }
}

/// The extension and suggestion of the file at `path`: those of its queue
/// entry, or, for a file not queued, those its name gives under `config`.
pub open spec fn ext_and_suggestion(config: Config, queue: Seq<QueueView>, path: Seq<char>) -> (Seq<char>, Seq<char>) {
    match first_at(queue, path) {
        Some(i) => (queue[i].ext, queue[i].suggested),
        None => {
            let ext = spec_extension_of(file_name_or_empty(path));
            (ext, spec_resolve_destination(config, ext))
        },
    }
}

/// The targets of confirming the dialog for `path`: with "apply to all",
/// every queued file; else the one file.
pub open spec fn spec_confirm_targets(
    config: Config,
    queue: Seq<QueueView>,
    path: Seq<char>,
    custom: Option<Seq<char>>,
    apply_all: bool,
) -> Seq<TargetView> {
    if apply_all {
        all_targets(queue, custom)
    } else {
        let (ext, suggested) = ext_and_suggestion(config, queue, path);
        seq![TargetView { source: path, ext, destination: chosen(custom, suggested) }]
    }
}

/// The rule confirming the dialog teaches: with "remember", the shown file's
/// extension goes to the chosen destination, with or without "apply to all".
pub open spec fn spec_learned_rule(
    config: Config,
    queue: Seq<QueueView>,
    path: Seq<char>,
    custom: Option<Seq<char>>,
    remember: bool,
    apply_all: bool,
) -> Option<(Seq<char>, Seq<char>)> {
    if remember {
        let (ext, suggested) = ext_and_suggestion(config, queue, path);
        Some((ext, chosen(custom, suggested)))
    } else {
        None
    }
}

fn copy_opt(o: &Option<String>) -> (r: Option<String>)
    ensures
        match (o, r) {
            (Some(a), Some(b)) => a@ == b@,
            (None, None) => true,
            _ => false,
        },
{
    match o {
        Some(s) => Some(s.clone()),
        None => None,
    }
}

fn choose_destination(custom: &Option<String>, suggested: &String) -> (r: String)
    ensures
        r@ == chosen(match custom { Some(c) => Some(c@), None => None }, suggested@),
{
    match custom {
        Some(c) => c.clone(),
        None => suggested.clone(),
    }
}

impl AppState {
    fn find_queued(&self, path: &str) -> (r: Option<usize>)
        ensures
            match r {
                Some(i) => first_at(queue_views(self.queue@), path@) == Some(i as int),
                None => first_at(queue_views(self.queue@), path@) is None,
            },
    {
        let ghost q = queue_views(self.queue@);
        assert(q.skip(0) =~= q);
        let mut i: usize = 0;
        while i < self.queue.len()
            invariant
                q == queue_views(self.queue@),
                i <= q.len(),
                first_at(q, path@) == match first_at(q.skip(i as int), path@) {
                    Some(k) => Some(k + i),
                    None => None::<int>,
                },
            decreases q.len() - i,
        {
            proof {
                assert(q.skip(i as int).drop_first() =~= q.skip(i + 1));
                assert(q.skip(i as int)[0] == q[i as int]);
            }
            if paths_equal(self.queue[i].path.as_str(), path) {
                return Some(i);
            }
            i += 1;
        }
        assert(q.skip(i as int).len() == 0);
        None
    }

    /// The extension and suggestion of the file shown in the dialog.
    fn shown_file(&self, path: &str) -> (r: (String, String))
        requires
            self.config.wf(),
        ensures
            (r.0@, r.1@) == ext_and_suggestion(self.config, queue_views(self.queue@), path@),
    {
        proof {
            lemma_first_at_index(queue_views(self.queue@), path@);
        }
        match self.find_queued(path) {
            Some(i) => (self.queue[i].ext.clone(), self.queue[i].suggested.clone()),
            None => {
                let name = file_name_or_empty_of(path);
                let ext = extension_of(name.as_str());
                let suggested = resolve_destination(&self.config, ext.as_str());
                (ext, suggested)
            },
        }
    }

    /// What confirming the dialog for the file at `path` does.
    pub fn plan_confirm_move(&self, path: &str, custom_destination: &Option<String>, remember: bool, apply_all: bool) -> (plan: ConfirmPlan)
        requires
            self.config.wf(),
        ensures
            target_views(plan.targets@) == spec_confirm_targets(
                self.config,
                queue_views(self.queue@),
                path@,
                match custom_destination { Some(c) => Some(c@), None => None },
                apply_all,
            ),
            match plan.learned_rule {
                Some((e, d)) => spec_learned_rule(self.config, queue_views(self.queue@), path@,
                    match custom_destination { Some(c) => Some(c@), None => None }, remember, apply_all)
                    == Some((e@, d@)),
                None => spec_learned_rule(self.config, queue_views(self.queue@), path@,
                    match custom_destination { Some(c) => Some(c@), None => None }, remember, apply_all) is None,
            },
    {
        let ghost custom = match custom_destination { Some(c) => Some(c@), None => None };
        let ghost q = queue_views(self.queue@);
        if apply_all {
            let mut targets: Vec<MoveTarget> = Vec::new();
            let mut i: usize = 0;
            while i < self.queue.len()
                invariant
                    q == queue_views(self.queue@),
                    custom == match custom_destination { Some(c) => Some(c@), None => None::<Seq<char>> },
                    i <= q.len(),
                    targets@.len() == i,
                    target_views(targets@) == all_targets(q.take(i as int), custom),
                decreases q.len() - i,
            {
                let item = &self.queue[i];
                let t = MoveTarget {
                    source: item.path.clone(),
                    ext: item.ext.clone(),
                    destination: choose_destination(custom_destination, &item.suggested),
                };
                let ghost before = targets@;
                let ghost tv = t@;
                assert(tv == TargetView { source: q[i as int].path, ext: q[i as int].ext, destination: chosen(custom, q[i as int].suggested) });
                targets.push(t);
                assert forall|k: int| 0 <= k < i + 1 implies #[trigger] target_views(targets@)[k] == all_targets(q.take(i + 1), custom)[k] by {
                    if k < i {
                        assert(targets@[k] == before[k]);
                        assert(target_views(before)[k] == all_targets(q.take(i as int), custom)[k]);
                    }
                }
                assert(target_views(targets@) =~= all_targets(q.take(i + 1), custom));
                i += 1;
            }
            assert(q.take(q.len() as int) =~= q);
            let learned_rule = if remember {
                let (ext, suggested) = self.shown_file(path);
                Some((ext, choose_destination(custom_destination, &suggested)))
            } else {
                None
            };
            return ConfirmPlan { targets, learned_rule };
        }
        let (ext, suggested) = self.shown_file(path);
        let destination = choose_destination(custom_destination, &suggested);
        let learned_rule = if remember {
            Some((ext.clone(), destination.clone()))
        } else {
            None
        };
        let mut targets: Vec<MoveTarget> = Vec::new();
        targets.push(MoveTarget { source: path.to_owned(), ext, destination });
        assert(target_views(targets@) =~= spec_confirm_targets(self.config, q, path@, custom, apply_all));
        ConfirmPlan { targets, learned_rule }
    }

    /// Remember that files with extension `ext` go to `destination`.
    pub fn learn_rule(&mut self, ext: String, destination: String)
        requires
            old(self).config.wf(),
        ensures
            final(self).config.wf(),
            final(self).config.rules.as_map() == old(self).config.rules.as_map().insert(ext@, destination),
            final(self).config == (Config { rules: final(self).config.rules, ..old(self).config }),
            final(self).seen@ == old(self).seen@,
            final(self).config.destination_map == old(self).config.destination_map,
            final(self).config.category_destinations == old(self).config.category_destinations,
            final(self).config.flatten_to_categories == old(self).config.flatten_to_categories,
            final(self).queue@ == old(self).queue@,
            final(self).history@ == old(self).history@,
    {
        self.config.remember_rule(ext, destination);
    }
}

/// The rule credited to the move of a file with extension `ext` in a
/// confirmed dialog: the learned destination when the extension matches.
pub open spec fn spec_history_rule(learned: Option<(Seq<char>, Seq<char>)>, ext: Seq<char>) -> Option<Seq<char>> {
    match learned {
        Some((e, d)) => if e == ext {
            Some(d)
        } else {
            None
        },
        None => None,
    }
}

/// The rule credited to the move of a file with extension `ext`.
pub fn history_rule(learned: &Option<(String, String)>, ext: &str) -> (r: Option<String>)
    ensures
        match r {
            Some(d) => spec_history_rule(
                match learned { Some((e, d)) => Some((e@, d@)), None => None }, ext@) == Some(d@),
            None => spec_history_rule(
                match learned { Some((e, d)) => Some((e@, d@)), None => None }, ext@) is None,
        },
{
    match learned {
        Some((e, d)) => {
            if str_eq(e.as_str(), ext) {
                Some(d.clone())
            } else {
                None
            }
        },
        None => None,
    }
}

/// The rule organizing a file teaches: with "remember", the file's
/// extension goes to its destination, unless it has no extension.
pub open spec fn spec_request_rule(path: Seq<char>, destination: Seq<char>, remember: bool) -> Option<(Seq<char>, Seq<char>)> {
    let ext = spec_extension_of(file_name_or_empty(path));
    if remember && ext.len() > 0 {
        Some((ext, destination))
    } else {
        None
    }
}

/// The rule organizing a file teaches.
pub fn request_rule(request: &OrganizeRequest) -> (r: Option<(String, String)>)
    ensures
        match r {
            Some((e, d)) => spec_request_rule(request.path@, request.destination@, request.remember) == Some((e@, d@)),
            None => spec_request_rule(request.path@, request.destination@, request.remember) is None,
        },
{
    if !request.remember {
        return None;
    }
    let name = file_name_or_empty_of(request.path.as_str());
    let ext = extension_of(name.as_str());
    if ext.as_str().is_empty() {
        None
    } else {
        Some((ext, request.destination.clone()))
    }
}

/// The rule credited to the move of an organized file: its destination
/// when the user asked to remember it.
pub fn request_history_rule(request: &OrganizeRequest) -> (r: Option<String>)
    ensures
        match r {
            Some(d) => request.remember && d@ == request.destination@,
            None => !request.remember,
        },
{
    if request.remember {
        Some(request.destination.clone())
    } else {
        None
    }
}

impl AppState {
    /// Remember each rule in turn; a later rule for the same extension wins.
    pub fn learn_rules(&mut self, rules: Vec<(String, String)>)
        requires
            old(self).config.wf(),
        ensures
            final(self).config.wf(),
            final(self).config.rules.as_map() == learned_map(old(self).config.rules.as_map(), rule_views(rules@)),
            final(self).config == (Config { rules: final(self).config.rules, ..old(self).config }),
            final(self).seen@ == old(self).seen@,
            final(self).config.destination_map == old(self).config.destination_map,
            final(self).config.category_destinations == old(self).config.category_destinations,
            final(self).queue@ == old(self).queue@,
            final(self).history@ == old(self).history@,
    {
        let ghost start = self.config.rules.as_map();
        let ghost views = rule_views(rules@);
        for rule in it: rules.into_iter()
            invariant
                it.seq() == rules@,
                views == rule_views(rules@),
                self.config.wf(),
                self.config.rules.as_map() == learned_map(start, views.take(it.index() as int)),
                self.config == (Config { rules: self.config.rules, ..old(self).config }),
                self.seen@ == old(self).seen@,
                self.config.destination_map == old(self).config.destination_map,
                self.config.category_destinations == old(self).config.category_destinations,
                self.queue@ == old(self).queue@,
                self.history@ == old(self).history@,
        {
            let ghost i = it.index();
            proof {
                assert(views.take(i + 1).drop_last() =~= views.take(i as int));
                assert(views.take(i + 1).last() == (rule.0@, rule.1));
            }
            let (ext, destination) = rule;
            self.learn_rule(ext, destination);
        }
        assert(views.take(views.len() as int) =~= views);
    }
}

/// Rules by their extension's characters.
pub open spec fn rule_views(rules: Seq<(String, String)>) -> Seq<(Seq<char>, String)> {
    rules.map_values(|r: (String, String)| (r.0@, r.1))
}

/// The rules table after remembering `rules` in order.
pub open spec fn learned_map(m: Map<Seq<char>, String>, rules: Seq<(Seq<char>, String)>) -> Map<Seq<char>, String>
    decreases rules.len(),
{
    if rules.len() == 0 {
        m
    } else {
        learned_map(m, rules.drop_last()).insert(rules.last().0, rules.last().1)
    }
}

/// What a tray menu item does.
#[derive(Clone, Debug)]
pub enum TrayAction {
    /// Show the main window.
    ShowMain,
    /// Show the main window on this page.
    Navigate(String),
    /// Pause monitoring until this time (seconds), or resume with `None`.
    SetPausedUntil(Option<i64>),
    /// Quit the organizer.
    Quit,
    /// Nothing: not an item of the menu.
    Nothing,
}

/// `now + secs`, or the last instant when that lies beyond it.
pub open spec fn later(now: i64, secs: i64) -> i64 {
    if now + secs > i64::MAX {
        i64::MAX
    } else {
        (now + secs) as i64
    }
}

fn later_exec(now: i64, secs: i64) -> (r: i64)
    requires
        secs >= 0,
    ensures
        r == later(now, secs),
{
    match now.checked_add(secs) {
        Some(t) => t,
        None => i64::MAX,
    }
}

/// What a tray menu item does at `now` (seconds): open, navigate, pause for
/// 30 minutes, an hour, three hours or until resumed, resume, or quit.
pub open spec fn spec_tray_action(id: Seq<char>, now: i64) -> (bool, Option<Seq<char>>, Option<Option<i64>>, bool) {
    if id == "open"@ {
        (true, None, None, false)
    } else if id == "settings"@ {
        (true, Some("settings"@), None, false)
    } else if id == "recent"@ {
        (true, Some("history"@), None, false)
    } else if id == "resume"@ {
        (false, None, Some(None), false)
    } else if id == "pause_30"@ {
        (false, None, Some(Some(later(now, 1800i64))), false)
    } else if id == "pause_60"@ {
        (false, None, Some(Some(later(now, 3600i64))), false)
    } else if id == "pause_180"@ {
        (false, None, Some(Some(later(now, 10800i64))), false)
    } else if id == "pause_indef"@ {
        (false, None, Some(Some(i64::MAX)), false)
    } else if id == "quit"@ {
        (false, None, None, true)
    } else {
        (false, None, None, false)
    }
}

/// A tray action as (show main window, page, pause setting, quit).
pub open spec fn tray_view(a: TrayAction) -> (bool, Option<Seq<char>>, Option<Option<i64>>, bool) {
    match a {
        TrayAction::ShowMain => (true, None, None, false),
        TrayAction::Navigate(page) => (true, Some(page@), None, false),
        TrayAction::SetPausedUntil(u) => (false, None, Some(u), false),
        TrayAction::Quit => (false, None, None, true),
        TrayAction::Nothing => (false, None, None, false),
    }
}

/// What the tray menu item `id` does at `now` (seconds).
pub fn tray_action(id: &str, now: i64) -> (a: TrayAction)
    ensures
        tray_view(a) == spec_tray_action(id@, now),
{
    if str_eq(id, "open") {
        TrayAction::ShowMain
    } else if str_eq(id, "settings") {
        TrayAction::Navigate("settings".to_owned())
    } else if str_eq(id, "recent") {
        TrayAction::Navigate("history".to_owned())
    } else if str_eq(id, "resume") {
        TrayAction::SetPausedUntil(None)
    } else if str_eq(id, "pause_30") {
        TrayAction::SetPausedUntil(Some(later_exec(now, 1800)))
    } else if str_eq(id, "pause_60") {
        TrayAction::SetPausedUntil(Some(later_exec(now, 3600)))
    } else if str_eq(id, "pause_180") {
        TrayAction::SetPausedUntil(Some(later_exec(now, 10800)))
    } else if str_eq(id, "pause_indef") {
        TrayAction::SetPausedUntil(Some(i64::MAX))
    } else if str_eq(id, "quit") {
        TrayAction::Quit
    } else {
        TrayAction::Nothing
    }
}

/// What the tray menu item `id` does now, as the clock reads.
pub fn handle_tray_menu(id: &str) -> (a: TrayAction)
    ensures
        exists|now: i64| tray_view(a) == spec_tray_action(id@, now),
{
    let now = now_timestamp();
    tray_action(id, now)
}

/// A move of `source` into `destination_dir` under the settings' duplicate
/// policy and timestamp choice, stamped with today's date, and its first step.
pub fn start_move(source: String, destination_dir: String, config: &Config) -> (r: (MoveJob, MoveStep))
    ensures
        exists|stamp: Seq<char>| (r.0@, r.1@) == spec_start(
            source@,
            destination_dir@,
            spec_duplicate_policy(config.duplicate_policy@),
            config.version_timestamp_prefix,
            stamp,
        ),
{
    let policy = duplicate_policy(config.duplicate_policy.as_str());
    let stamp = today_stamp();
    MoveJob::start(source, destination_dir, policy, config.version_timestamp_prefix, stamp)
}

/// "Remember for this file type" teaches what it shows: the confirmed file
/// goes to the chosen destination, and once the learned rule is stored, the
/// next file of that extension is offered the same destination.
pub proof fn law_remember_teaches_the_chosen_destination(
    before: Config,
    after: Config,
    queue: Seq<QueueView>,
    path: Seq<char>,
    custom: Option<Seq<char>>,
    ext: Seq<char>,
    destination: String,
)
    requires
        before.wf(),
        spec_learned_rule(before, queue, path, custom, true, false) == Some((ext, destination@)),
        after.rules.as_map() == before.rules.as_map().insert(ext, destination),
    ensures
        spec_confirm_targets(before, queue, path, custom, false).len() == 1,
        spec_confirm_targets(before, queue, path, custom, false)[0].destination == destination@,
        spec_confirm_targets(before, queue, path, custom, false)[0].ext == ext,
        spec_resolve_destination(after, ext) == destination@,
        spec_history_rule(Some((ext, destination@)), ext) == Some(destination@),
{
}

/// "Apply to all current downloads" moves every queued file, in queue
/// order, each to the custom destination when one is given and else to its
/// own suggestion, and teaches the same rule as confirming the shown file alone.
pub proof fn law_apply_all_covers_the_queue(
    config: Config,
    queue: Seq<QueueView>,
    path: Seq<char>,
    custom: Option<Seq<char>>,
    remember: bool,
)
    ensures
        spec_confirm_targets(config, queue, path, custom, true).len() == queue.len(),
        forall|i: int| 0 <= i < queue.len() ==> {
            let t = #[trigger] spec_confirm_targets(config, queue, path, custom, true)[i];
            &&& t.source == queue[i].path
            &&& t.ext == queue[i].ext
            &&& t.destination == chosen(custom, queue[i].suggested)
        },
        spec_learned_rule(config, queue, path, custom, remember, true)
            == spec_learned_rule(config, queue, path, custom, remember, false),
        remember ==> spec_learned_rule(config, queue, path, custom, remember, true)
            == Some((ext_and_suggestion(config, queue, path).0,
                chosen(custom, ext_and_suggestion(config, queue, path).1))),
{
}

} // verus!
