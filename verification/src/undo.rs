//! Undoing a recorded move: the file goes back to where it came from, and
//! the previous version that the move set aside goes back into its place.
//!
//! As with a move, the caller does the filesystem work: an [`UndoJob`] says
//! which step comes next ([`UndoStep`]), the caller performs it and reports back.
use vstd::prelude::*;
use crate::mover::{moved_outcome, opt_view, JobView, OutcomeView};
use crate::paths::{lemma_same_path_reflexive, path_parent, same_path, spec_path_parent};
use crate::state::{msg_destination_gone, msg_source_occupied, HistoryEntry, HistoryView};

verus! {

/// Where an undo stands.
#[derive(Clone, Copy, PartialEq, Eq, Structural, Debug)]
pub enum UndoPhase {
    /// Waiting to learn whether the moved file is still at its destination.
    CheckingDestination,
    /// Waiting to learn whether the original place is taken.
    CheckingSource,
    /// Waiting for the original folder to be created.
    CreatingParent,
    /// Waiting for the file to be renamed back to its original place.
    Restoring,
    /// Waiting to learn whether the set-aside previous version is still there.
    CheckingArchived,
    /// Waiting for the previous version to be renamed back into place.
    Reinstating,
    /// The undo has finished.
    Done,
}

/// The next piece of filesystem work of an undo, or its end.
#[derive(Debug)]
pub enum UndoStep {
    /// Report whether this path exists.
    Probe(String),
    /// Create this folder and its missing parents; a failure is not an error.
    CreateDir(String),
    /// Rename `from` to `to`.
    Rename { from: String, to: String },
    /// The undo is over.
    Finished(Result<(), String>),
}

/// An undo step by the characters it holds.
pub enum UndoStepView {
    Probe(Seq<char>),
    CreateDir(Seq<char>),
    Rename { from: Seq<char>, to: Seq<char> },
    Finished(Result<(), Seq<char>>),
}

impl View for UndoStep {
    type V = UndoStepView;

    open spec fn view(&self) -> UndoStepView {
        match self {
            UndoStep::Probe(p) => UndoStepView::Probe(p@),
            UndoStep::CreateDir(p) => UndoStepView::CreateDir(p@),
            UndoStep::Rename { from, to } => UndoStepView::Rename { from: from@, to: to@ },
            UndoStep::Finished(Ok(u)) => UndoStepView::Finished(Ok(*u)),
            UndoStep::Finished(Err(e)) => UndoStepView::Finished(Err(e@)),
        }
    }
}

/// The undo of one recorded move.
pub struct UndoJob {
    source: String,
    destination: String,
    archived: Option<String>,
    phase: UndoPhase,
}

/// An undo by the characters it holds.
pub struct UndoView {
    pub source: Seq<char>,
    pub destination: Seq<char>,
    pub archived: Option<Seq<char>>,
    pub phase: UndoPhase,
}

impl View for UndoJob {
    type V = UndoView;

    closed spec fn view(&self) -> UndoView {
        UndoView {
            source: self.source@,
            destination: self.destination@,
            archived: opt_view(self.archived),
            phase: self.phase,
        }
    }
}

/// The undo finished with error `e`.
pub open spec fn undo_fail(u: UndoView, e: Seq<char>) -> (UndoView, UndoStepView) {
    (UndoView { phase: UndoPhase::Done, ..u }, UndoStepView::Finished(Err(e)))
}

/// The undo finished: the file is back.
pub open spec fn undo_done(u: UndoView) -> (UndoView, UndoStepView) {
    (UndoView { phase: UndoPhase::Done, ..u }, UndoStepView::Finished(Ok(())))
}

/// The undo renames the file back, from its destination to its source.
pub open spec fn restore(u: UndoView) -> (UndoView, UndoStepView) {
    (
        UndoView { phase: UndoPhase::Restoring, ..u },
        UndoStepView::Rename { from: u.destination, to: u.source },
    )
}

/// A new undo of the move recorded in `e`: first learn whether the file is
/// still where the move put it.
pub open spec fn spec_undo_start(e: HistoryView) -> (UndoView, UndoStepView) {
    (
        UndoView {
            source: e.source,
            destination: e.destination,
            archived: e.archived,
            phase: UndoPhase::CheckingDestination,
        },
        UndoStepView::Probe(e.destination),
    )
}

/// What follows the answer `exists` to the probe the undo waits for.
pub open spec fn spec_undo_after_probe(u: UndoView, exists: bool) -> (UndoView, UndoStepView) {
    match u.phase {
        UndoPhase::CheckingDestination => if !exists {
            undo_fail(u, msg_destination_gone())
        } else {
            (UndoView { phase: UndoPhase::CheckingSource, ..u }, UndoStepView::Probe(u.source))
        },
        UndoPhase::CheckingSource => if exists {
            undo_fail(u, msg_source_occupied())
        } else {
            match spec_path_parent(u.source) {
                Some(dir) => (UndoView { phase: UndoPhase::CreatingParent, ..u }, UndoStepView::CreateDir(dir)),
                None => restore(u),
            }
        },
        UndoPhase::CheckingArchived => match u.archived {
            Some(a) => if exists {
                (
                    UndoView { phase: UndoPhase::Reinstating, ..u },
                    UndoStepView::Rename { from: a, to: u.destination },
                )
            } else {
                undo_done(u)
            },
            None => undo_done(u),
        },
        _ => (u, UndoStepView::Finished(Err("no probe was awaited"@))),
    }
}

/// What follows the result of the filesystem action the undo waits for.
pub open spec fn spec_undo_after_action(u: UndoView, result: Result<(), Seq<char>>) -> (UndoView, UndoStepView) {
    match u.phase {
        UndoPhase::CreatingParent => restore(u),
        UndoPhase::Restoring => match result {
            Err(e) => undo_fail(u, "undo failed: "@ + e),
            Ok(_) => match u.archived {
                Some(a) => (UndoView { phase: UndoPhase::CheckingArchived, ..u }, UndoStepView::Probe(a)),
                None => undo_done(u),
            },
        },
        UndoPhase::Reinstating => undo_done(u),
        _ => (u, UndoStepView::Finished(Err("no action was awaited"@))),
    }
}

impl UndoJob {
    /// A new undo of the move recorded in `entry`, and its first step.
    pub fn start(entry: &HistoryEntry) -> (r: (UndoJob, UndoStep))
        ensures
            (r.0@, r.1@) == spec_undo_start(entry@),
    {
        let archived = match &entry.archived {
            Some(a) => Some(a.clone()),
            None => None,
        };
        let job = UndoJob {
            source: entry.source.clone(),
            destination: entry.destination.clone(),
            archived,
            phase: UndoPhase::CheckingDestination,
        };
        (job, UndoStep::Probe(entry.destination.clone()))
    }

    /// Where the undo stands.
    pub fn phase(&self) -> (p: UndoPhase)
        ensures
            p == self@.phase,
    {
        self.phase
    }

    fn fail(&mut self, e: String) -> (r: UndoStep)
        ensures
            (final(self)@, r@) == undo_fail(old(self)@, e@),
    {
        self.phase = UndoPhase::Done;
        UndoStep::Finished(Err(e))
    }

    fn done(&mut self) -> (r: UndoStep)
        ensures
            (final(self)@, r@) == undo_done(old(self)@),
    {
        self.phase = UndoPhase::Done;
        UndoStep::Finished(Ok(()))
    }

    fn restore(&mut self) -> (r: UndoStep)
        ensures
            (final(self)@, r@) == restore(old(self)@),
    {
        self.phase = UndoPhase::Restoring;
        UndoStep::Rename { from: self.destination.clone(), to: self.source.clone() }
    }

    /// The step after learning whether the probed path exists.
    pub fn after_probe(&mut self, exists: bool) -> (r: UndoStep)
        ensures
            (final(self)@, r@) == spec_undo_after_probe(old(self)@, exists),
    {
        match self.phase {
            UndoPhase::CheckingDestination => {
                if !exists {
                    self.fail("destination no longer exists".to_owned())
                } else {
                    self.phase = UndoPhase::CheckingSource;
                    UndoStep::Probe(self.source.clone())
                }
            },
            UndoPhase::CheckingSource => {
                if exists {
                    return self.fail("original location is occupied".to_owned());
                }
                match path_parent(self.source.as_str()) {
                    Some(dir) => {
                        self.phase = UndoPhase::CreatingParent;
                        UndoStep::CreateDir(dir)
                    },
                    None => self.restore(),
                }
            },
            UndoPhase::CheckingArchived => match &self.archived {
                Some(a) => {
                    if exists {
                        let from = a.clone();
                        self.phase = UndoPhase::Reinstating;
                        UndoStep::Rename { from, to: self.destination.clone() }
                    } else {
                        self.done()
                    }
                },
                None => self.done(),
            },
            _ => UndoStep::Finished(Err("no probe was awaited".to_owned())),
        }
    }

    /// The step after the awaited filesystem action succeeded (`Ok`) or
    /// failed with the system's message (`Err`).
    pub fn after_action(&mut self, result: Result<(), String>) -> (r: UndoStep)
        ensures
            (final(self)@, r@) == spec_undo_after_action(
                old(self)@,
                match result { Ok(u) => Ok(u), Err(e) => Err(e@) },
            ),
    {
        match self.phase {
            UndoPhase::CreatingParent => self.restore(),
            UndoPhase::Restoring => match result {
                Err(e) => {
                    let mut m = "undo failed: ".to_owned();
                    m.append(e.as_str());
                    self.fail(m)
                },
                Ok(_) => match &self.archived {
                    Some(a) => {
                        let probe = a.clone();
                        self.phase = UndoPhase::CheckingArchived;
                        UndoStep::Probe(probe)
                    },
                    None => self.done(),
                },
            },
            UndoPhase::Reinstating => self.done(),
            _ => UndoStep::Finished(Err("no action was awaited".to_owned())),
        }
    }
}

/// The history entry that records a finished move's outcome `o`.
pub open spec fn records(e: HistoryView, o: OutcomeView) -> bool {
    &&& e.source == o.source
    &&& e.destination == o.destination
    &&& e.archived == o.archived
}

/// An undo touches files only by renaming, and only two renames: the moved
/// file from its destination back to its source, once the destination was
/// found present and the source free; and the set-aside previous version
/// back to the destination, once the file went back and the previous version
/// was found present. It never deletes anything.
pub proof fn law_undo_renames_only_back(u: UndoView, exists: bool, result: Result<(), Seq<char>>)
    ensures
        spec_undo_after_probe(u, exists).1 matches UndoStepView::Rename { from, to } ==> {
            ||| u.phase is CheckingSource && !exists && from == u.destination && to == u.source
            ||| u.phase is CheckingArchived && exists && u.archived == Some(from) && to == u.destination
        },
        spec_undo_after_action(u, result).1 matches UndoStepView::Rename { from, to } ==> {
            &&& u.phase is CreatingParent
            &&& from == u.destination
            &&& to == u.source
        },
        spec_undo_after_probe(u, exists).0.phase is CheckingSource ==> (u.phase is CheckingDestination && exists),
        spec_undo_after_probe(u, exists).0.phase is CheckingArchived ==> spec_undo_after_probe(u, exists).0 == u,
        spec_undo_after_action(u, result).0.phase is CheckingArchived && !(u.phase is CheckingArchived)
            ==> u.phase is Restoring && result is Ok,
        forall|e: HistoryView| !(#[trigger] spec_undo_start(e).1 is Rename),
{
}

/// Undoing a move reverses it. A move that finished brought its source `s`
/// to `d` with a rename (or a checked copy), after setting the file that
/// stood at `d` aside at `a` if there was one; the undo of its history entry
/// renames `d` back to `s`, then `a` back to `d`.
pub proof fn law_undo_reverses_the_move(j: JobView, e: HistoryView, result: Result<(), Seq<char>>)
    requires
        records(e, moved_outcome(j)),
    ensures
        ({
            let u = spec_undo_start(e).0;
            let checked = spec_undo_after_probe(spec_undo_after_probe(u, true).0, false);
            &&& checked.1 matches UndoStepView::CreateDir(_) ==> spec_undo_after_action(checked.0, result).1
                == UndoStepView::Rename { from: j.destination, to: j.source }
            &&& checked.1 is Rename ==> checked.1 == UndoStepView::Rename { from: j.destination, to: j.source }
        }),
        ({
            let restoring = UndoView { phase: UndoPhase::Restoring, ..spec_undo_start(e).0 };
            let after = spec_undo_after_action(restoring, Ok(()));
            match j.archived {
                Some(a) => after.1 == UndoStepView::Probe(a)
                    && spec_undo_after_probe(after.0, true).1 == UndoStepView::Rename { from: a, to: j.destination },
                None => after.1 == UndoStepView::Finished(Ok(())),
            }
        }),
{
    let u = spec_undo_start(e).0;
    let p1 = spec_undo_after_probe(u, true).0;
    assert(p1.phase is CheckingSource);
    assert(p1.source == j.source && p1.destination == j.destination);
}

/// Files by path, each with what it holds.
pub open spec fn rename_file(fs: Map<Seq<char>, int>, from: Seq<char>, to: Seq<char>) -> Map<Seq<char>, int> {
    fs.remove(from).insert(to, fs[from])
}

/// An undo carried out on the files `fs`, for at most `fuel` steps: a probe
/// is answered from `fs`, a folder is created without touching any file, a
/// rename moves a file that exists and fails otherwise.
pub open spec fn undo_on(u: UndoView, step: UndoStepView, fs: Map<Seq<char>, int>, fuel: nat) -> (Map<Seq<char>, int>, Result<(), Seq<char>>)
    decreases fuel,
{
    if fuel == 0 {
        (fs, Err("the undo did not finish"@))
    } else {
        match step {
            UndoStepView::Probe(p) => {
                let (u2, s2) = spec_undo_after_probe(u, fs.dom().contains(p));
                undo_on(u2, s2, fs, (fuel - 1) as nat)
            },
            UndoStepView::CreateDir(_) => {
                let (u2, s2) = spec_undo_after_action(u, Ok(()));
                undo_on(u2, s2, fs, (fuel - 1) as nat)
            },
            UndoStepView::Rename { from, to } => if fs.dom().contains(from) {
                let (u2, s2) = spec_undo_after_action(u, Ok(()));
                undo_on(u2, s2, rename_file(fs, from, to), (fuel - 1) as nat)
            } else {
                let (u2, s2) = spec_undo_after_action(u, Err("no such file"@));
                undo_on(u2, s2, fs, (fuel - 1) as nat)
            },
            UndoStepView::Finished(r) => (fs, r),
        }
    }
}

/// What a finished move did to the files `fs`: the file at the destination,
/// if the move set one aside, went to its archived name; then the source
/// went to the destination.
pub open spec fn moved_files(fs: Map<Seq<char>, int>, j: JobView) -> Map<Seq<char>, int> {
    let set_aside = match j.archived {
        Some(a) => rename_file(fs, j.destination, a),
        None => fs,
    };
    rename_file(set_aside, j.source, j.destination)
}

/// Undoing a move gives back the files as they were before it. The move
/// found the source present and the destination apart from it; it set the
/// file at the destination aside under a name it had found free, or found
/// the destination free; once the move is done and nothing else changed,
/// the undo of its history entry succeeds and leaves every path holding what
/// it held before the move.
pub proof fn law_undo_restores_the_files(fs: Map<Seq<char>, int>, j: JobView, e: HistoryView)
    requires
        records(e, moved_outcome(j)),
        fs.dom().contains(j.source),
        !same_path(j.destination, j.source),
        match j.archived {
            Some(a) => fs.dom().contains(j.destination) && !fs.dom().contains(a),
            None => !fs.dom().contains(j.destination),
        },
    ensures
        undo_on(spec_undo_start(e).0, spec_undo_start(e).1, moved_files(fs, j), 8) == (fs, Ok::<(), Seq<char>>(())),
{
    reveal_with_fuel(undo_on, 9);
    lemma_same_path_reflexive(j.source);
    assert(j.destination != j.source);
    let moved = moved_files(fs, j);
    let back = rename_file(moved, j.destination, j.source);
    match j.archived {
        Some(a) => {
            assert(a != j.source && a != j.destination);
            let restored = rename_file(back, a, j.destination);
            assert(restored =~= fs);
        },
        None => {
            assert(back =~= fs);
        },
    }
}

} // verus!
