//! What a confirmed dialog or an "organize" request leaves behind once its
//! moves were carried out: the history records every finished move with the
//! rule it is credited to, the moved files leave the queue, and the rules
//! the request teaches are stored.
use vstd::prelude::*;
use crate::actions::{rule_views, learned_map, spec_history_rule, spec_request_rule, history_rule, request_rule, request_history_rule, ConfirmPlan, TargetView, target_views};
use crate::config::Config;
use crate::mover::{opt_view, MoveOutcome, OutcomeView};
use crate::state::{history_views, none_of, queue_views, AppState, HistoryView, OrganizeRequest, HISTORY_LIMIT};
use crate::text::string_views;

verus! {

/// History entry `e` records the move outcome `o`, credited to `rule`.
pub open spec fn entry_records(e: HistoryView, o: OutcomeView, rule: Option<Seq<char>>) -> bool {
    &&& e.source == o.source
    &&& e.destination == o.destination
    &&& e.archived == o.archived
    &&& e.rule == rule
    &&& !e.undone
    &&& e.id.len() == 36
}

/// `after` is the history `before` once the moves `recs` were recorded one by
/// one: the last recorded comes first, the older entries follow in their
/// order, and at most `HISTORY_LIMIT` entries are kept.
pub open spec fn records_pushed(
    before: Seq<HistoryView>,
    after: Seq<HistoryView>,
    recs: Seq<(OutcomeView, Option<Seq<char>>)>,
) -> bool {
    let n = recs.len() as int;
    &&& after.len() == if n == 0 {
        before.len() as int
    } else if before.len() + n < HISTORY_LIMIT {
        before.len() + n
    } else {
        HISTORY_LIMIT as int
    }
    &&& forall|i: int| 0 <= i < after.len() && i < n
        ==> entry_records(#[trigger] after[i], recs[n - 1 - i].0, recs[n - 1 - i].1)
    &&& forall|i: int| 0 <= i < after.len() && i >= n ==> #[trigger] after[i] == before[i - n]
}

/// The move outcomes by the characters they hold; `None` for a move that failed.
pub open spec fn outcome_opts(results: Seq<Option<MoveOutcome>>) -> Seq<Option<OutcomeView>> {
    results.map_values(|r: Option<MoveOutcome>| match r {
        Some(o) => Some(o@),
        None => None,
    })
}

/// The finished moves among the first `k` results, each with the rule at its position.
pub open spec fn outcome_records(
    rules: Seq<Option<Seq<char>>>,
    results: Seq<Option<OutcomeView>>,
    k: int,
) -> Seq<(OutcomeView, Option<Seq<char>>)>
    decreases k,
{
    if k <= 0 {
        Seq::empty()
    } else {
        let prev = outcome_records(rules, results, k - 1);
        match results[k - 1] {
            Some(o) => prev.push((o, rules[k - 1])),
            None => prev,
        }
    }
}

/// The sources, among the first `k`, whose move finished with the file moved.
pub open spec fn moved_sources(sources: Seq<Seq<char>>, results: Seq<Option<OutcomeView>>, k: int) -> Seq<Seq<char>>
    decreases k,
{
    if k <= 0 {
        Seq::empty()
    } else {
        let prev = moved_sources(sources, results, k - 1);
        match results[k - 1] {
            Some(o) => if o.moved {
                prev.push(sources[k - 1])
            } else {
                prev
            },
            None => prev,
        }
    }
}

/// A learned rule by the characters it holds.
pub open spec fn learned_view(l: Option<(String, String)>) -> Option<(Seq<char>, Seq<char>)> {
    match l {
        Some((e, d)) => Some((e@, d@)),
        None => None,
    }
}

/// The rule credited to each target of a confirmed dialog.
pub open spec fn confirm_rules(learned: Option<(Seq<char>, Seq<char>)>, targets: Seq<TargetView>) -> Seq<Option<Seq<char>>> {
    targets.map_values(|t: TargetView| spec_history_rule(learned, t.ext))
}

/// The rule credited to each organized file: its destination when remembered.
pub open spec fn organize_rules(requests: Seq<OrganizeRequest>) -> Seq<Option<Seq<char>>> {
    requests.map_values(|r: OrganizeRequest| if r.remember {
        Some(r.destination@)
    } else {
        None
    })
}

/// The rules taught by the first `k` organize requests whose move finished.
pub open spec fn taught_rules(requests: Seq<OrganizeRequest>, results: Seq<Option<OutcomeView>>, k: int) -> Seq<(Seq<char>, Seq<char>)>
    decreases k,
{
    if k <= 0 {
        Seq::empty()
    } else {
        let prev = taught_rules(requests, results, k - 1);
        match (results[k - 1], spec_request_rule(requests[k - 1].path@, requests[k - 1].destination@, requests[k - 1].remember)) {
            (Some(_), Some(rule)) => prev.push(rule),
            _ => prev,
        }
    }
}

/// A rules table by the characters of its destinations.
pub open spec fn text_map(m: Map<Seq<char>, String>) -> Map<Seq<char>, Seq<char>> {
    m.map_values(|s: String| s@)
}

/// The rules table after remembering `rules` in order, by characters.
pub open spec fn learned_text(m: Map<Seq<char>, Seq<char>>, rules: Seq<(Seq<char>, Seq<char>)>) -> Map<Seq<char>, Seq<char>>
    decreases rules.len(),
{
    if rules.len() == 0 {
        m
    } else {
        learned_text(m, rules.drop_last()).insert(rules.last().0, rules.last().1)
    }
}

/// Rules by the characters they hold.
pub open spec fn rule_texts(rules: Seq<(String, String)>) -> Seq<(Seq<char>, Seq<char>)> {
    rules.map_values(|r: (String, String)| (r.0@, r.1@))
}

proof fn lemma_records_push(
    before: Seq<HistoryView>,
    cur: Seq<HistoryView>,
    recs: Seq<(OutcomeView, Option<Seq<char>>)>,
    e: HistoryView,
    o: OutcomeView,
    rule: Option<Seq<char>>,
)
    requires
        records_pushed(before, cur, recs),
        entry_records(e, o, rule),
    ensures
        records_pushed(before, crate::state::spec_push_history(cur, e), recs.push((o, rule))),
{
    let after = crate::state::spec_push_history(cur, e);
    let r2 = recs.push((o, rule));
    let n = recs.len() as int;
    assert(after[0] == e);
    assert forall|i: int| 1 <= i < after.len() implies #[trigger] after[i] == cur[i - 1] by {}
    assert forall|i: int| 0 <= i < after.len() && i < n + 1
        implies entry_records(#[trigger] after[i], r2[n - i].0, r2[n - i].1) by {
        if i > 0 {
            assert(after[i] == cur[i - 1]);
            assert(r2[n - i] == recs[n - 1 - (i - 1)]);
        }
    }
    assert forall|i: int| 0 <= i < after.len() && i >= n + 1 implies #[trigger] after[i] == before[i - (n + 1)] by {
        assert(after[i] == cur[i - 1]);
    }
}

proof fn lemma_text_learned(m: Map<Seq<char>, String>, rules: Seq<(String, String)>)
    ensures
        text_map(learned_map(m, rule_views(rules))) == learned_text(text_map(m), rule_texts(rules)),
    decreases rules.len(),
{
    if rules.len() > 0 {
        let init = rules.drop_last();
        assert(rule_views(rules).drop_last() =~= rule_views(init));
        assert(rule_texts(rules).drop_last() =~= rule_texts(init));
        lemma_text_learned(m, init);
        let last = rules.last();
        assert(rule_views(rules).last() == (last.0@, last.1));
        assert(rule_texts(rules).last() == (last.0@, last.1@));
        assert(text_map(learned_map(m, rule_views(rules))) =~= text_map(learned_map(m, rule_views(init))).insert(last.0@, last.1@));
    }
}

impl AppState {
    /// Record the finished moves in order, each credited with the rule at its position.
    fn record_all(&mut self, rules: &Vec<Option<String>>, results: &Vec<Option<MoveOutcome>>)
        requires
            rules@.len() == results@.len(),
        ensures
            records_pushed(
                history_views(old(self).history@),
                history_views(final(self).history@),
                outcome_records(rules@.map_values(|r: Option<String>| opt_view(r)), outcome_opts(results@), results@.len() as int),
            ),
            final(self).config == old(self).config,
            final(self).queue@ == old(self).queue@,
            final(self).seen@ == old(self).seen@,
    {
        let ghost rv = rules@.map_values(|r: Option<String>| opt_view(r));
        let ghost ov = outcome_opts(results@);
        let ghost h0 = history_views(self.history@);
        let mut i: usize = 0;
        while i < results.len()
            invariant
                rules@.len() == results@.len(),
                rv == rules@.map_values(|r: Option<String>| opt_view(r)),
                ov == outcome_opts(results@),
                h0 == history_views(old(self).history@),
                i <= results@.len(),
                records_pushed(h0, history_views(self.history@), outcome_records(rv, ov, i as int)),
                self.config == old(self).config,
                self.queue@ == old(self).queue@,
                self.seen@ == old(self).seen@,
            decreases results@.len() - i,
        {
            match &results[i] {
                Some(o) => {
                    let ghost cur = history_views(self.history@);
                    let rule = match &rules[i] {
                        Some(r) => Some(r.clone()),
                        None => None,
                    };
                    assert(opt_view(rule) == rv[i as int]);
                    self.record_history(o, rule);
                    proof {
                        let e = history_views(self.history@)[0];
                        assert(ov[i as int] == Some(o@));
                        lemma_records_push(h0, cur, outcome_records(rv, ov, i as int), e, o@, rv[i as int]);
                    }
                },
                None => {
                    assert(ov[i as int] is None);
                },
            }
            i += 1;
        }
    }

    /// What a confirmed dialog leaves once its moves were carried out, in
    /// the order of `plan.targets`, `results[i]` being the outcome of the
    /// `i`-th move or `None` where its destination was refused or it failed:
    /// every finished move is recorded, credited with the learned rule when
    /// its extension is the rule's; the files actually moved leave the queue;
    /// the learned rule, if any, is stored; nothing else changes.
    pub fn conclude_confirm(&mut self, plan: &ConfirmPlan, results: &Vec<Option<MoveOutcome>>)
        requires
            old(self).config.wf(),
            results@.len() == plan.targets@.len(),
        ensures
            ({
                let learned = learned_view(plan.learned_rule);
                let targets = target_views(plan.targets@);
                let ov = outcome_opts(results@);
                let n = results@.len() as int;
                &&& records_pushed(
                    history_views(old(self).history@),
                    history_views(final(self).history@),
                    outcome_records(confirm_rules(learned, targets), ov, n),
                )
                &&& queue_views(final(self).queue@) == queue_views(old(self).queue@).filter(
                    none_of(moved_sources(targets.map_values(|t: TargetView| t.source), ov, n)),
                )
                &&& text_map(final(self).config.rules.as_map()) == match learned {
                    Some((e, d)) => text_map(old(self).config.rules.as_map()).insert(e, d),
                    None => text_map(old(self).config.rules.as_map()),
                }
            }),
            final(self).config.wf(),
            final(self).config == (Config { rules: final(self).config.rules, ..old(self).config }),
            final(self).seen@ == old(self).seen@,
    {
        let ghost learned = learned_view(plan.learned_rule);
        let ghost targets = target_views(plan.targets@);
        let ghost ov = outcome_opts(results@);
        let ghost sources = targets.map_values(|t: TargetView| t.source);
        let mut rules: Vec<Option<String>> = Vec::new();
        let mut moved: Vec<String> = Vec::new();
        let mut i: usize = 0;
        while i < results.len()
            invariant
                results@.len() == plan.targets@.len(),
                targets == target_views(plan.targets@),
                ov == outcome_opts(results@),
                sources == targets.map_values(|t: TargetView| t.source),
                learned == learned_view(plan.learned_rule),
                i <= results@.len(),
                rules@.len() == i,
                forall|k: int| 0 <= k < i ==> opt_view(#[trigger] rules@[k]) == confirm_rules(learned, targets)[k],
                string_views(moved@) == moved_sources(sources, ov, i as int),
            decreases results@.len() - i,
        {
            let r = history_rule(&plan.learned_rule, plan.targets[i].ext.as_str());
            rules.push(r);
            let ghost before = moved@;
            match &results[i] {
                Some(o) => {
                    assert(ov[i as int] == Some(o@));
                    if o.moved {
                        moved.push(plan.targets[i].source.clone());
                        assert(string_views(moved@) =~= string_views(before).push(sources[i as int]));
                    }
                },
                None => {
                    assert(ov[i as int] is None);
                },
            }
            i += 1;
        }
        proof {
            assert(rules@.map_values(|r: Option<String>| opt_view(r)) =~= confirm_rules(learned, targets));
        }
        self.record_all(&rules, results);
        match &plan.learned_rule {
            Some((e, d)) => {
                let ghost before = self.config.rules.as_map();
                self.learn_rule(e.clone(), d.clone());
                assert(text_map(self.config.rules.as_map()) =~= text_map(before).insert(e@, d@));
            },
            None => {},
        }
        self.remove_moved(&moved);
    }

    /// What an "organize" request leaves once its moves were carried out, in
    /// the order of `requests`, `results[i]` being the outcome of the `i`-th
    /// move or `None` where its destination was refused or it failed: every
    /// finished move is recorded, credited with its destination when the user
    /// asked to remember it; the rules those finished moves teach are stored
    /// in order; the files actually moved leave the queue; nothing else changes.
    /// It tells whether any rule was taught and whether any file was moved
    /// (the settings and the queue then need saving and showing).
    pub fn conclude_organize(&mut self, requests: &Vec<OrganizeRequest>, results: &Vec<Option<MoveOutcome>>) -> (r: (bool, bool))
        requires
            old(self).config.wf(),
            results@.len() == requests@.len(),
        ensures
            ({
                let ov = outcome_opts(results@);
                let n = results@.len() as int;
                &&& records_pushed(
                    history_views(old(self).history@),
                    history_views(final(self).history@),
                    outcome_records(organize_rules(requests@), ov, n),
                )
                &&& queue_views(final(self).queue@) == queue_views(old(self).queue@).filter(
                    none_of(moved_sources(requests@.map_values(|r: OrganizeRequest| r.path@), ov, n)),
                )
                &&& text_map(final(self).config.rules.as_map())
                    == learned_text(text_map(old(self).config.rules.as_map()), taught_rules(requests@, ov, n))
                &&& r.0 == (taught_rules(requests@, ov, n).len() > 0)
                &&& r.1 == (moved_sources(requests@.map_values(|q: OrganizeRequest| q.path@), ov, n).len() > 0)
            }),
            final(self).config.wf(),
            final(self).config == (Config { rules: final(self).config.rules, ..old(self).config }),
            final(self).seen@ == old(self).seen@,
    {
        let ghost ov = outcome_opts(results@);
        let ghost sources = requests@.map_values(|r: OrganizeRequest| r.path@);
        let mut rules: Vec<Option<String>> = Vec::new();
        let mut taught: Vec<(String, String)> = Vec::new();
        let mut moved: Vec<String> = Vec::new();
        let mut i: usize = 0;
        while i < results.len()
            invariant
                results@.len() == requests@.len(),
                ov == outcome_opts(results@),
                sources == requests@.map_values(|r: OrganizeRequest| r.path@),
                i <= results@.len(),
                rules@.len() == i,
                forall|k: int| 0 <= k < i ==> opt_view(#[trigger] rules@[k]) == organize_rules(requests@)[k],
                string_views(moved@) == moved_sources(sources, ov, i as int),
                rule_texts(taught@) == taught_rules(requests@, ov, i as int),
            decreases results@.len() - i,
        {
            let request = &requests[i];
            rules.push(request_history_rule(request));
            let ghost mb = moved@;
            let ghost tb = taught@;
            match &results[i] {
                Some(o) => {
                    assert(ov[i as int] == Some(o@));
                    if o.moved {
                        moved.push(request.path.clone());
                        assert(string_views(moved@) =~= string_views(mb).push(sources[i as int]));
                    }
                    match request_rule(request) {
                        Some(rule) => {
                            taught.push(rule);
                            assert(rule_texts(taught@) =~= rule_texts(tb).push(rule_texts(taught@).last()));
                        },
                        None => {},
                    }
                },
                None => {
                    assert(ov[i as int] is None);
                },
            }
            i += 1;
        }
        proof {
            assert(rules@.map_values(|r: Option<String>| opt_view(r)) =~= organize_rules(requests@));
        }
        self.record_all(&rules, results);
        let ghost before = self.config.rules.as_map();
        let ghost tv = taught@;
        let any_taught = taught.len() > 0;
        let any_moved = moved.len() > 0;
        self.learn_rules(taught);
        proof {
            lemma_text_learned(before, tv);
            assert(requests@.map_values(|q: OrganizeRequest| q.path@) =~= sources);
        }
        self.remove_moved(&moved);
        (any_taught, any_moved)
    }
}

} // verus!
