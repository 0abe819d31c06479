//! Moving one file into its destination folder: what to do when the name is
//! taken, how versions and free names are chosen, and the order of the steps.
//!
//! The filesystem work itself is done by the caller: a [`MoveJob`] says which
//! step comes next ([`MoveStep`]), the caller performs it and reports back.
use vstd::prelude::*;
use crate::classifier::{last_index_of, lemma_last_index_props};
use crate::paths::{path_file_name, path_join, paths_equal, same_path, spec_path_file_name, spec_path_join};
use crate::text::{decimal, decimal_string, str_eq};

pub use crate::paths::resolve_destination_path;

verus! {

/// Folder, inside a destination, that receives the previous versions of files.
pub const PREVIOUS_VERSIONS_DIR: &'static str = "Previous Versions";

/// What is done when a file of the same name already sits in the destination.
#[derive(Clone, Copy, PartialEq, Eq, Structural, Debug)]
pub enum DuplicatePolicy {
    /// Move the existing file to `Previous Versions/` and put the new one in its place.
    Version,
    /// Give the new file a free name `name (n).ext` beside the existing one.
    Rename,
    /// Delete the existing file.
    Replace,
    /// Leave both files where they are.
    Skip,
}

/// The policy named in the settings; any other name, `ask` among them, is `Version`.
pub open spec fn spec_duplicate_policy(name: Seq<char>) -> DuplicatePolicy {
    if name == "replace"@ {
        DuplicatePolicy::Replace
    } else if name == "rename"@ {
        DuplicatePolicy::Rename
    } else if name == "skip"@ {
        DuplicatePolicy::Skip
    } else {
        DuplicatePolicy::Version
    }
}

/// The policy named in the settings.
pub fn duplicate_policy(name: &str) -> (p: DuplicatePolicy)
    ensures
        p == spec_duplicate_policy(name@),
{
    if str_eq(name, "replace") {
        DuplicatePolicy::Replace
    } else if str_eq(name, "rename") {
        DuplicatePolicy::Rename
    } else if str_eq(name, "skip") {
        DuplicatePolicy::Skip
    } else {
        DuplicatePolicy::Version
    }
}

/// How a numbered name is written.
#[derive(Clone, Copy, PartialEq, Eq, Structural, Debug)]
pub enum NameStyle {
    /// `name_1.ext`, for previous versions.
    Underscore,
    /// `name (1).ext`, for renamed new files.
    Parenthesized,
}

/// A file name split into its stem and its extension with the dot; a name
/// whose only dot is its first character has no extension.
pub open spec fn split_name(name: Seq<char>) -> (Seq<char>, Seq<char>) {
    match last_index_of(name, '.') {
        Some(i) => if i > 0 {
            (name.take(i), name.skip(i))
        } else {
            (name, Seq::empty())
        },
        None => (name, Seq::empty()),
    }
}

/// The `counter`-th name tried for a file: the name itself first, then the
/// name with the number added before the extension.
pub open spec fn numbered_name(name: Seq<char>, counter: nat, style: NameStyle) -> Seq<char> {
    if counter == 0 {
        name
    } else {
        let (stem, ext) = split_name(name);
        match style {
            NameStyle::Underscore => stem + "_"@ + decimal(counter) + ext,
            NameStyle::Parenthesized => stem + " ("@ + decimal(counter) + ")"@ + ext,
        }
    }
}

/// The `counter`-th name tried for a file.
pub fn numbered(name: &str, counter: u64, style: NameStyle) -> (r: String)
    ensures
        r@ == numbered_name(name@, counter as nat, style),
{
    if counter == 0 {
        return name.to_owned();
    }
    let n = name.unicode_len();
    let mut last_dot: Option<usize> = None;
    let mut i: usize = 0;
    while i < n
        invariant
            n == name@.len(),
            i <= n,
            match last_dot {
                Some(d) => last_index_of(name@.take(i as int), '.') == Some(d as int),
                None => last_index_of(name@.take(i as int), '.') is None,
            },
        decreases n - i,
    {
        proof {
            assert(name@.take(i + 1).drop_last() =~= name@.take(i as int));
        }
        if name.get_char(i) == '.' {
            last_dot = Some(i);
        }
        i += 1;
    }
    assert(name@.take(n as int) =~= name@);
    proof {
        lemma_last_index_props(name@, '.');
    }
    let (stem, ext) = match last_dot {
        Some(d) => if d > 0 {
            (name.substring_char(0, d), name.substring_char(d, n))
        } else {
            (name, "")
        },
        None => (name, ""),
    };
    proof {
        reveal_strlit("");
        assert(name@.subrange(0, n as int) =~= name@);
        if let Some(d) = last_dot {
            assert(name@.subrange(d as int, n as int) =~= name@.skip(d as int));
            assert(name@.subrange(0, d as int) =~= name@.take(d as int));
        }
    }
    assert(ext@ == split_name(name@).1);
    assert(stem@ == split_name(name@).0);
    let mut r = stem.to_owned();
    match style {
        NameStyle::Underscore => {
            r.append("_");
            r.append(decimal_string(counter).as_str());
            r.append(ext);
        },
        NameStyle::Parenthesized => {
            r.append(" (");
            r.append(decimal_string(counter).as_str());
            r.append(")");
            r.append(ext);
        },
    }
    r
}

/// The name a previous version is kept under: the file's own name, or the
/// date stamp, `_` and the name.
pub open spec fn spec_archive_name(file_name: Seq<char>, timestamp_prefix: bool, stamp: Seq<char>) -> Seq<char> {
    if timestamp_prefix {
        stamp + "_"@ + file_name
    } else {
        file_name
    }
}

fn archive_name(file_name: &str, timestamp_prefix: bool, stamp: &str) -> (r: String)
    ensures
        r@ == spec_archive_name(file_name@, timestamp_prefix, stamp@),
{
    if timestamp_prefix {
        let mut r = stamp.to_owned();
        r.append("_");
        r.append(file_name);
        r
    } else {
        file_name.to_owned()
    }
}

/// The result of one move.
#[derive(Clone, Debug)]
pub struct MoveOutcome {
    pub source: String,
    pub destination: String,
    /// Where the file that stood at `destination` was moved to.
    pub archived: Option<String>,
    /// Whether the source was moved at all.
    pub moved: bool,
    pub note: Option<String>,
}

/// A move's result by the characters it holds.
pub struct OutcomeView {
    pub source: Seq<char>,
    pub destination: Seq<char>,
    pub archived: Option<Seq<char>>,
    pub moved: bool,
    pub note: Option<Seq<char>>,
}

/// The characters of an optional string.
pub open spec fn opt_view(o: Option<String>) -> Option<Seq<char>> {
    match o {
        Some(s) => Some(s@),
        None => None,
    }
}

impl View for MoveOutcome {
    type V = OutcomeView;

    open spec fn view(&self) -> OutcomeView {
        OutcomeView {
            source: self.source@,
            destination: self.destination@,
            archived: opt_view(self.archived),
            moved: self.moved,
            note: opt_view(self.note),
        }
    }
}

/// Where a move stands.
#[derive(Clone, Copy, PartialEq, Eq, Structural, Debug)]
pub enum MovePhase {
    /// Waiting to learn whether the source exists.
    CheckingSource,
    /// Waiting for the destination folder to be created.
    CreatingDir,
    /// Waiting to learn whether the destination name is taken.
    CheckingDestination,
    /// Waiting for the existing destination file to be deleted.
    Removing,
    /// Waiting to learn whether the `n`-th renamed candidate is taken.
    SeekingName(u64),
    /// Waiting for the previous-versions folder to be created.
    CreatingArchiveDir,
    /// Waiting to learn whether the `n`-th previous-version name is taken.
    SeekingArchiveName(u64),
    /// Waiting for the existing destination file to be moved to its archived name.
    Archiving,
    /// Waiting for the source to be renamed to the destination.
    Renaming,
    /// Waiting for the source to be copied to the destination, renaming having failed.
    Copying,
    /// Waiting for the sizes of the source and of its copy.
    Measuring,
    /// Waiting for a copy whose size differs from the source to be deleted.
    DiscardingCopy,
    /// Waiting for the source to be deleted, its copy having the same size.
    RemovingSource,
    /// The move has finished.
    Done,
}

/// The next piece of filesystem work, or the end of the move.
#[derive(Debug)]
pub enum MoveStep {
    /// Report whether this path exists.
    Probe(String),
    /// Create this folder and its missing parents.
    CreateDir(String),
    /// Delete this file.
    RemoveFile(String),
    /// Rename the file at the destination, `from`, to its archived name `to`.
    Archive { from: String, to: String },
    /// Rename the source `from` to the destination `to`.
    Rename { from: String, to: String },
    /// Copy the source `from` to the destination `to`.
    Copy { from: String, to: String },
    /// Report the sizes of `source` and of its `copy`, 0 for a size that cannot be read.
    Measure { source: String, copy: String },
    /// The move is over.
    Finished(Result<MoveOutcome, String>),
}

/// A step by the characters it holds.
pub enum StepView {
    Probe(Seq<char>),
    CreateDir(Seq<char>),
    RemoveFile(Seq<char>),
    Archive { from: Seq<char>, to: Seq<char> },
    Rename { from: Seq<char>, to: Seq<char> },
    Copy { from: Seq<char>, to: Seq<char> },
    Measure { source: Seq<char>, copy: Seq<char> },
    Finished(Result<OutcomeView, Seq<char>>),
}

impl View for MoveStep {
    type V = StepView;

    open spec fn view(&self) -> StepView {
        match self {
            MoveStep::Probe(p) => StepView::Probe(p@),
            MoveStep::CreateDir(p) => StepView::CreateDir(p@),
            MoveStep::RemoveFile(p) => StepView::RemoveFile(p@),
            MoveStep::Archive { from, to } => StepView::Archive { from: from@, to: to@ },
            MoveStep::Rename { from, to } => StepView::Rename { from: from@, to: to@ },
            MoveStep::Copy { from, to } => StepView::Copy { from: from@, to: to@ },
            MoveStep::Measure { source, copy } => StepView::Measure { source: source@, copy: copy@ },
            MoveStep::Finished(Ok(o)) => StepView::Finished(Ok(o@)),
            MoveStep::Finished(Err(e)) => StepView::Finished(Err(e@)),
        }
    }
}

/// One move of `source` into `destination_dir`.
pub struct MoveJob {
    source: String,
    destination_dir: String,
    policy: DuplicatePolicy,
    timestamp_prefix: bool,
    stamp: String,
    file_name: String,
    destination: String,
    archive_dir: String,
    archive_name: String,
    candidate: String,
    archived: Option<String>,
    phase: MovePhase,
}

/// A move by the characters it holds.
pub struct JobView {
    pub source: Seq<char>,
    pub destination_dir: Seq<char>,
    pub policy: DuplicatePolicy,
    pub timestamp_prefix: bool,
    pub stamp: Seq<char>,
    pub file_name: Seq<char>,
    pub destination: Seq<char>,
    pub archive_dir: Seq<char>,
    pub archive_name: Seq<char>,
    pub candidate: Seq<char>,
    pub archived: Option<Seq<char>>,
    pub phase: MovePhase,
}

impl View for MoveJob {
    type V = JobView;

    closed spec fn view(&self) -> JobView {
        JobView {
            source: self.source@,
            destination_dir: self.destination_dir@,
            policy: self.policy,
            timestamp_prefix: self.timestamp_prefix,
            stamp: self.stamp@,
            file_name: self.file_name@,
            destination: self.destination@,
            archive_dir: self.archive_dir@,
            archive_name: self.archive_name@,
            candidate: self.candidate@,
            archived: opt_view(self.archived),
            phase: self.phase,
        }
    }
}

/// Whether the move waits for the answer to a probe.
pub open spec fn awaits_probe(phase: MovePhase) -> bool {
    ||| phase is CheckingSource
    ||| phase is CheckingDestination
    ||| phase is SeekingName
    ||| phase is SeekingArchiveName
}

/// The move finished with error `e`.
pub open spec fn fail(j: JobView, e: Seq<char>) -> (JobView, StepView) {
    (JobView { phase: MovePhase::Done, ..j }, StepView::Finished(Err(e)))
}

/// The outcome of a move whose target is the source itself: nothing is touched.
pub open spec fn in_place_outcome(j: JobView) -> OutcomeView {
    OutcomeView {
        source: j.source,
        destination: j.destination,
        archived: j.archived,
        moved: false,
        note: Some("the file is already at its destination"@),
    }
}

/// Whether a policy would remove or set aside the file found at the
/// destination: when that file is the source itself, such a move ends at once.
pub open spec fn displaces_existing(policy: DuplicatePolicy) -> bool {
    policy == DuplicatePolicy::Replace || policy == DuplicatePolicy::Version
}

/// The move ends at once, the source being already where it would go.
pub open spec fn finish_in_place(j: JobView) -> (JobView, StepView) {
    (JobView { phase: MovePhase::Done, ..j }, StepView::Finished(Ok(in_place_outcome(j))))
}

/// The move goes on to bring the source to `j.destination`, first by
/// renaming it; when that is the source's own path, it ends at once.
pub open spec fn transfer(j: JobView) -> (JobView, StepView) {
    if same_path(j.destination, j.source) {
        finish_in_place(j)
    } else {
        (
            JobView { phase: MovePhase::Renaming, ..j },
            StepView::Rename { from: j.source, to: j.destination },
        )
    }
}

/// The move finished with the source at `j.destination`.
pub open spec fn finish_moved(j: JobView) -> (JobView, StepView) {
    (JobView { phase: MovePhase::Done, ..j }, StepView::Finished(Ok(moved_outcome(j))))
}

/// The outcome of a move that left both files alone.
pub open spec fn skipped_outcome(j: JobView) -> OutcomeView {
    OutcomeView {
        source: j.source,
        destination: j.destination,
        archived: None,
        moved: false,
        note: Some("destination already exists; skipped"@),
    }
}

/// The outcome of a completed move.
pub open spec fn moved_outcome(j: JobView) -> OutcomeView {
    OutcomeView {
        source: j.source,
        destination: j.destination,
        archived: j.archived,
        moved: true,
        note: None,
    }
}

/// A new move: first learn whether the source exists.
pub open spec fn spec_start(
    source: Seq<char>,
    destination_dir: Seq<char>,
    policy: DuplicatePolicy,
    timestamp_prefix: bool,
    stamp: Seq<char>,
) -> (JobView, StepView) {
    (
        JobView {
            source,
            destination_dir,
            policy,
            timestamp_prefix,
            stamp,
            file_name: Seq::empty(),
            destination: Seq::empty(),
            archive_dir: Seq::empty(),
            archive_name: Seq::empty(),
            candidate: Seq::empty(),
            archived: None,
            phase: MovePhase::CheckingSource,
        },
        StepView::Probe(source),
    )
}

/// What follows the answer `exists` to the probe the move waits for.
pub open spec fn spec_after_probe(j: JobView, exists: bool) -> (JobView, StepView) {
    match j.phase {
        MovePhase::CheckingSource => if exists {
            (JobView { phase: MovePhase::CreatingDir, ..j }, StepView::CreateDir(j.destination_dir))
        } else {
            fail(j, "source no longer exists: "@ + j.source)
        },
        MovePhase::CheckingDestination => if !exists {
            transfer(j)
        } else {
            match j.policy {
                DuplicatePolicy::Replace => (
                    JobView { phase: MovePhase::Removing, ..j },
                    StepView::RemoveFile(j.destination),
                ),
                DuplicatePolicy::Rename => {
                    let c = spec_path_join(j.destination_dir, j.file_name);
                    (
                        JobView { phase: MovePhase::SeekingName(0), candidate: c, ..j },
                        StepView::Probe(c),
                    )
                },
                DuplicatePolicy::Skip => (
                    JobView { phase: MovePhase::Done, ..j },
                    StepView::Finished(Ok(skipped_outcome(j))),
                ),
                DuplicatePolicy::Version => {
                    let dir = spec_path_join(j.destination_dir, PREVIOUS_VERSIONS_DIR@);
                    (
                        JobView {
                            phase: MovePhase::CreatingArchiveDir,
                            archive_dir: dir,
                            archive_name: spec_archive_name(j.file_name, j.timestamp_prefix, j.stamp),
                            ..j
                        },
                        StepView::CreateDir(dir),
                    )
                },
            }
        },
        MovePhase::SeekingName(n) => if !exists {
            transfer(JobView { destination: j.candidate, ..j })
        } else if n < u64::MAX {
            let c = spec_path_join(
                j.destination_dir,
                numbered_name(j.file_name, (n + 1) as nat, NameStyle::Parenthesized),
            );
            (JobView { phase: MovePhase::SeekingName((n + 1) as u64), candidate: c, ..j }, StepView::Probe(c))
        } else {
            fail(j, "no free name left for "@ + j.file_name)
        },
        MovePhase::SeekingArchiveName(n) => if !exists {
            (
                JobView { phase: MovePhase::Archiving, archived: Some(j.candidate), ..j },
                StepView::Archive { from: j.destination, to: j.candidate },
            )
        } else if n < u64::MAX {
            let c = spec_path_join(
                j.archive_dir,
                numbered_name(j.archive_name, (n + 1) as nat, NameStyle::Underscore),
            );
            (
                JobView { phase: MovePhase::SeekingArchiveName((n + 1) as u64), candidate: c, ..j },
                StepView::Probe(c),
            )
        } else {
            fail(j, "no free name left for "@ + j.archive_name)
        },
        _ => (j, StepView::Finished(Err("no probe was awaited"@))),
    }
}

/// What follows the result of the filesystem action the move waits for.
pub open spec fn spec_after_action(j: JobView, result: Result<(), Seq<char>>) -> (JobView, StepView) {
    match j.phase {
        MovePhase::CreatingDir => match result {
            Err(e) => fail(j, "cannot create "@ + j.destination_dir + ": "@ + e),
            Ok(_) => match spec_path_file_name(j.source) {
                None => fail(j, "source has no file name"@),
                Some(n) => {
                    let d = spec_path_join(j.destination_dir, n);
                    if same_path(d, j.source) && displaces_existing(j.policy) {
                        finish_in_place(JobView { file_name: n, destination: d, ..j })
                    } else {
                        (
                            JobView { phase: MovePhase::CheckingDestination, file_name: n, destination: d, ..j },
                            StepView::Probe(d),
                        )
                    }
                },
            },
        },
        MovePhase::Removing => match result {
            Err(e) => fail(j, "cannot replace "@ + j.destination + ": "@ + e),
            Ok(_) => transfer(j),
        },
        MovePhase::CreatingArchiveDir => match result {
            Err(e) => fail(j, "cannot create "@ + j.archive_dir + ": "@ + e),
            Ok(_) => {
                let c = spec_path_join(j.archive_dir, j.archive_name);
                (JobView { phase: MovePhase::SeekingArchiveName(0), candidate: c, ..j }, StepView::Probe(c))
            },
        },
        MovePhase::Archiving => match result {
            Err(e) => fail(j, "cannot archive previous version: "@ + e),
            Ok(_) => transfer(j),
        },
        MovePhase::Renaming => match result {
            Ok(_) => finish_moved(j),
            Err(_) => (
                JobView { phase: MovePhase::Copying, ..j },
                StepView::Copy { from: j.source, to: j.destination },
            ),
        },
        MovePhase::Copying => match result {
            Err(e) => fail(j, "cannot copy to "@ + j.destination + ": "@ + e),
            Ok(_) => (
                JobView { phase: MovePhase::Measuring, ..j },
                StepView::Measure { source: j.source, copy: j.destination },
            ),
        },
        MovePhase::DiscardingCopy => fail(j, "copy verification failed"@),
        MovePhase::RemovingSource => match result {
            Err(e) => fail(j, "cannot remove source: "@ + e),
            Ok(_) => finish_moved(j),
        },
        _ => (j, StepView::Finished(Err("no action was awaited"@))),
    }
}

/// What follows the sizes of the source and of its copy: a copy of another
/// size is deleted and the move fails; otherwise the source is deleted.
pub open spec fn spec_after_sizes(j: JobView, source_len: u64, copy_len: u64) -> (JobView, StepView) {
    match j.phase {
        MovePhase::Measuring => if source_len != copy_len {
            (JobView { phase: MovePhase::DiscardingCopy, ..j }, StepView::RemoveFile(j.destination))
        } else {
            (JobView { phase: MovePhase::RemovingSource, ..j }, StepView::RemoveFile(j.source))
        },
        _ => (j, StepView::Finished(Err("no size check was awaited"@))),
    }
}

impl MoveJob {
    /// A new move of `source` into `destination_dir`, with the date stamp
    /// `stamp` for previous versions, and its first step.
    pub fn start(
        source: String,
        destination_dir: String,
        policy: DuplicatePolicy,
        timestamp_prefix: bool,
        stamp: String,
    ) -> (r: (MoveJob, MoveStep))
        ensures
            (r.0@, r.1@) == spec_start(source@, destination_dir@, policy, timestamp_prefix, stamp@),
    {
        let probe = source.clone();
        let job = MoveJob {
            source,
            destination_dir,
            policy,
            timestamp_prefix,
            stamp,
            file_name: String::new(),
            destination: String::new(),
            archive_dir: String::new(),
            archive_name: String::new(),
            candidate: String::new(),
            archived: None,
            phase: MovePhase::CheckingSource,
        };
        (job, MoveStep::Probe(probe))
    }

    /// Where the move stands.
    pub fn phase(&self) -> (p: MovePhase)
        ensures
            p == self@.phase,
    {
        self.phase
    }

    /// Whether the move waits for the answer to a probe.
    pub fn is_awaiting_probe(&self) -> (b: bool)
        ensures
            b == awaits_probe(self@.phase),
    {
        match self.phase {
            MovePhase::CheckingSource | MovePhase::CheckingDestination => true,
            MovePhase::SeekingName(_) | MovePhase::SeekingArchiveName(_) => true,
            _ => false,
        }
    }

    fn finish_err(&mut self, e: String) -> (r: MoveStep)
        ensures
            (final(self)@, r@) == fail(old(self)@, e@),
    {
        self.phase = MovePhase::Done;
        MoveStep::Finished(Err(e))
    }

    fn finish_in_place(&mut self) -> (r: MoveStep)
        ensures
            (final(self)@, r@) == finish_in_place(old(self)@),
    {
        self.phase = MovePhase::Done;
        let archived = match &self.archived {
            Some(a) => Some(a.clone()),
            None => None,
        };
        MoveStep::Finished(
            Ok(
                MoveOutcome {
                    source: self.source.clone(),
                    destination: self.destination.clone(),
                    archived,
                    moved: false,
                    note: Some("the file is already at its destination".to_owned()),
                },
            ),
        )
    }

    fn begin_transfer(&mut self) -> (r: MoveStep)
        ensures
            (final(self)@, r@) == transfer(old(self)@),
    {
        if paths_equal(self.destination.as_str(), self.source.as_str()) {
            return self.finish_in_place();
        }
        self.phase = MovePhase::Renaming;
        MoveStep::Rename { from: self.source.clone(), to: self.destination.clone() }
    }

    fn finish_moved(&mut self) -> (r: MoveStep)
        ensures
            (final(self)@, r@) == finish_moved(old(self)@),
    {
        self.phase = MovePhase::Done;
        let archived = match &self.archived {
            Some(a) => Some(a.clone()),
            None => None,
        };
        MoveStep::Finished(
            Ok(
                MoveOutcome {
                    source: self.source.clone(),
                    destination: self.destination.clone(),
                    archived,
                    moved: true,
                    note: None,
                },
            ),
        )
    }

    /// The step after learning whether the probed path exists.
    pub fn after_probe(&mut self, exists: bool) -> (r: MoveStep)
        ensures
            (final(self)@, r@) == spec_after_probe(old(self)@, exists),
    {
        match self.phase {
            MovePhase::CheckingSource => {
                if exists {
                    self.phase = MovePhase::CreatingDir;
                    MoveStep::CreateDir(self.destination_dir.clone())
                } else {
                    let mut e = "source no longer exists: ".to_owned();
                    e.append(self.source.as_str());
                    self.finish_err(e)
                }
            },
            MovePhase::CheckingDestination => {
                if !exists {
                    return self.begin_transfer();
                }
                match self.policy {
                    DuplicatePolicy::Replace => {
                        self.phase = MovePhase::Removing;
                        MoveStep::RemoveFile(self.destination.clone())
                    },
                    DuplicatePolicy::Rename => {
                        let c = path_join(self.destination_dir.as_str(), self.file_name.as_str());
                        self.phase = MovePhase::SeekingName(0);
                        self.candidate = c.clone();
                        MoveStep::Probe(c)
                    },
                    DuplicatePolicy::Skip => {
                        self.phase = MovePhase::Done;
                        MoveStep::Finished(
                            Ok(
                                MoveOutcome {
                                    source: self.source.clone(),
                                    destination: self.destination.clone(),
                                    archived: None,
                                    moved: false,
                                    note: Some("destination already exists; skipped".to_owned()),
                                },
                            ),
                        )
                    },
                    DuplicatePolicy::Version => {
                        let dir = path_join(self.destination_dir.as_str(), PREVIOUS_VERSIONS_DIR);
                        self.archive_name = archive_name(
                            self.file_name.as_str(),
                            self.timestamp_prefix,
                            self.stamp.as_str(),
                        );
                        self.archive_dir = dir.clone();
                        self.phase = MovePhase::CreatingArchiveDir;
                        MoveStep::CreateDir(dir)
                    },
                }
            },
            MovePhase::SeekingName(n) => {
                if !exists {
                    self.destination = self.candidate.clone();
                    self.begin_transfer()
                } else if n < u64::MAX {
                    let name = numbered(self.file_name.as_str(), n + 1, NameStyle::Parenthesized);
                    let c = path_join(self.destination_dir.as_str(), name.as_str());
                    self.phase = MovePhase::SeekingName(n + 1);
                    self.candidate = c.clone();
                    MoveStep::Probe(c)
                } else {
                    let mut e = "no free name left for ".to_owned();
                    e.append(self.file_name.as_str());
                    self.finish_err(e)
                }
            },
            MovePhase::SeekingArchiveName(n) => {
                if !exists {
                    self.archived = Some(self.candidate.clone());
                    self.phase = MovePhase::Archiving;
                    MoveStep::Archive { from: self.destination.clone(), to: self.candidate.clone() }
                } else if n < u64::MAX {
                    let name = numbered(self.archive_name.as_str(), n + 1, NameStyle::Underscore);
                    let c = path_join(self.archive_dir.as_str(), name.as_str());
                    self.phase = MovePhase::SeekingArchiveName(n + 1);
                    self.candidate = c.clone();
                    MoveStep::Probe(c)
                } else {
                    let mut e = "no free name left for ".to_owned();
                    e.append(self.archive_name.as_str());
                    self.finish_err(e)
                }
            },
            _ => MoveStep::Finished(Err("no probe was awaited".to_owned())),
        }
    }

    /// The step after the awaited filesystem action succeeded (`Ok`) or
    /// failed with the system's message (`Err`).
    pub fn after_action(&mut self, result: Result<(), String>) -> (r: MoveStep)
        ensures
            (final(self)@, r@) == spec_after_action(
                old(self)@,
                match result { Ok(u) => Ok(u), Err(e) => Err(e@) },
            ),
    {
        match self.phase {
            MovePhase::CreatingDir => match result {
                Err(e) => {
                    let mut m = "cannot create ".to_owned();
                    m.append(self.destination_dir.as_str());
                    m.append(": ");
                    m.append(e.as_str());
                    self.finish_err(m)
                },
                Ok(_) => match path_file_name(self.source.as_str()) {
                    None => self.finish_err("source has no file name".to_owned()),
                    Some(n) => {
                        let d = path_join(self.destination_dir.as_str(), n.as_str());
                        self.file_name = n;
                        self.destination = d.clone();
                        let displaces = match self.policy {
                            DuplicatePolicy::Replace | DuplicatePolicy::Version => true,
                            DuplicatePolicy::Rename | DuplicatePolicy::Skip => false,
                        };
                        if displaces && paths_equal(d.as_str(), self.source.as_str()) {
                            return self.finish_in_place();
                        }
                        self.phase = MovePhase::CheckingDestination;
                        MoveStep::Probe(d)
                    },
                },
            },
            MovePhase::Removing => match result {
                Err(e) => {
                    let mut m = "cannot replace ".to_owned();
                    m.append(self.destination.as_str());
                    m.append(": ");
                    m.append(e.as_str());
                    self.finish_err(m)
                },
                Ok(_) => self.begin_transfer(),
            },
            MovePhase::CreatingArchiveDir => match result {
                Err(e) => {
                    let mut m = "cannot create ".to_owned();
                    m.append(self.archive_dir.as_str());
                    m.append(": ");
                    m.append(e.as_str());
                    self.finish_err(m)
                },
                Ok(_) => {
                    let c = path_join(self.archive_dir.as_str(), self.archive_name.as_str());
                    self.phase = MovePhase::SeekingArchiveName(0);
                    self.candidate = c.clone();
                    MoveStep::Probe(c)
                },
            },
            MovePhase::Archiving => match result {
                Err(e) => {
                    let mut m = "cannot archive previous version: ".to_owned();
                    m.append(e.as_str());
                    self.finish_err(m)
                },
                Ok(_) => self.begin_transfer(),
            },
            MovePhase::Renaming => match result {
                Ok(_) => self.finish_moved(),
                Err(_) => {
                    self.phase = MovePhase::Copying;
                    MoveStep::Copy { from: self.source.clone(), to: self.destination.clone() }
                },
            },
            MovePhase::Copying => match result {
                Err(e) => {
                    let mut m = "cannot copy to ".to_owned();
                    m.append(self.destination.as_str());
                    m.append(": ");
                    m.append(e.as_str());
                    self.finish_err(m)
                },
                Ok(_) => {
                    self.phase = MovePhase::Measuring;
                    MoveStep::Measure { source: self.source.clone(), copy: self.destination.clone() }
                },
            },
            MovePhase::DiscardingCopy => self.finish_err("copy verification failed".to_owned()),
            MovePhase::RemovingSource => match result {
                Err(e) => {
                    let mut m = "cannot remove source: ".to_owned();
                    m.append(e.as_str());
                    self.finish_err(m)
                },
                Ok(_) => self.finish_moved(),
            },
            _ => MoveStep::Finished(Err("no action was awaited".to_owned())),
        }
    }

    /// The step after learning the sizes of the source and of its copy.
    pub fn after_sizes(&mut self, source_len: u64, copy_len: u64) -> (r: MoveStep)
        ensures
            (final(self)@, r@) == spec_after_sizes(old(self)@, source_len, copy_len),
    {
        match self.phase {
            MovePhase::Measuring => {
                if source_len != copy_len {
                    self.phase = MovePhase::DiscardingCopy;
                    MoveStep::RemoveFile(self.destination.clone())
                } else {
                    self.phase = MovePhase::RemovingSource;
                    MoveStep::RemoveFile(self.source.clone())
                }
            },
            _ => MoveStep::Finished(Err("no size check was awaited".to_owned())),
        }
    }
}

/// Mobius deletes a file in three cases only: the file already at the
/// destination, under the `Replace` policy once it was found there; a copy
/// it just made whose size differs from the source's; and the source, once
/// a copy of the same size stands at the destination. No other step deletes.
/// Neither the removal of an existing file nor the setting aside of a
/// previous version ever targets the source's own path (see `source_apart`).
pub proof fn law_deletions_are_accounted_for(
    j: JobView,
    exists: bool,
    result: Result<(), Seq<char>>,
    source_len: u64,
    copy_len: u64,
)
    ensures
        spec_after_probe(j, exists).1 is RemoveFile ==> {
            &&& j.policy == DuplicatePolicy::Replace
            &&& j.phase is CheckingDestination
            &&& exists
            &&& spec_after_probe(j, exists).1 == StepView::RemoveFile(j.destination)
        },
        !(spec_after_action(j, result).1 is RemoveFile),
        spec_after_sizes(j, source_len, copy_len).1 is RemoveFile ==> {
            &&& j.phase is Measuring
            &&& source_len != copy_len ==> spec_after_sizes(j, source_len, copy_len).1 == StepView::RemoveFile(j.destination)
            &&& source_len == copy_len ==> spec_after_sizes(j, source_len, copy_len).1 == StepView::RemoveFile(j.source)
        },
        forall|src: Seq<char>, dir: Seq<char>, p: DuplicatePolicy, t: bool, st: Seq<char>|
            !(#[trigger] spec_start(src, dir, p, t, st).1 is RemoveFile),
        source_apart(j) ==> (spec_after_probe(j, exists).1 matches StepView::RemoveFile(p) ==> !same_path(p, j.source)),
        source_apart(j) ==> (spec_after_probe(j, exists).1 matches StepView::Archive { from, to }
            ==> !same_path(from, j.source)),
        source_apart(j) ==> (spec_after_sizes(j, source_len, copy_len).1 matches StepView::RemoveFile(p)
            ==> !same_path(p, j.source) || (source_len == copy_len && p == j.source)),
{
}

/// Under the policies that remove or set aside the file at the destination,
/// that file is never the source itself; and whatever the policy, once the
/// source is being brought somewhere, that place is not the source's own path.
pub open spec fn source_apart(j: JobView) -> bool {
    &&& (j.phase is CheckingDestination && displaces_existing(j.policy)) ==> !same_path(j.destination, j.source)
    &&& (j.phase is Removing || j.phase is CreatingArchiveDir || j.phase is SeekingArchiveName
        || j.phase is Archiving || j.phase is Renaming || j.phase is Copying || j.phase is Measuring
        || j.phase is DiscardingCopy || j.phase is RemovingSource)
        ==> !same_path(j.destination, j.source)
}

/// Every step keeps the destination apart from the source, from the start on.
pub proof fn law_source_apart_is_kept(
    j: JobView,
    exists: bool,
    result: Result<(), Seq<char>>,
    source_len: u64,
    copy_len: u64,
)
    requires
        source_apart(j),
    ensures
        source_apart(spec_after_probe(j, exists).0),
        source_apart(spec_after_action(j, result).0),
        source_apart(spec_after_sizes(j, source_len, copy_len).0),
        forall|src: Seq<char>, dir: Seq<char>, p: DuplicatePolicy, t: bool, st: Seq<char>|
            #[trigger] source_apart(spec_start(src, dir, p, t, st).0),
{
}

/// Moving a file into the folder it is already in, under a policy that
/// would remove or set aside the file found there, touches nothing: the
/// move ends with the file in place and not moved. (Under `Skip` the move
/// goes on to find the name taken and skips; under `Rename` it goes on to
/// find a free name.)
pub proof fn law_move_into_own_folder_touches_nothing(j: JobView, n: Seq<char>)
    requires
        j.phase is CreatingDir,
        displaces_existing(j.policy),
        spec_path_file_name(j.source) == Some(n),
        same_path(spec_path_join(j.destination_dir, n), j.source),
    ensures
        spec_after_action(j, Ok(())).1 matches StepView::Finished(Ok(o)) && !o.moved && o.source == j.source,
        spec_after_action(j, Ok(())).0.phase is Done,
{
}

/// Under `Skip` and `Rename`, finding the file's own folder as destination
/// changes nothing in the ordinary course: the move goes on to probe the
/// destination, as for any other folder.
pub proof fn law_skip_and_rename_check_the_destination(j: JobView, n: Seq<char>)
    requires
        j.phase is CreatingDir,
        !displaces_existing(j.policy),
        spec_path_file_name(j.source) == Some(n),
    ensures
        spec_after_action(j, Ok(())).1 == StepView::Probe(spec_path_join(j.destination_dir, n)),
        spec_after_action(j, Ok(())).0.phase is CheckingDestination,
{
}

/// A failed move leaves the source in place: the sizes are compared only
/// after the source was copied, the source is deleted only when the copy
/// has its size, and a copy of another size is deleted and the move fails.
/// (A step asked for out of turn changes nothing.)
pub proof fn law_source_kept_until_copy_verified(
    j: JobView,
    exists: bool,
    result: Result<(), Seq<char>>,
    source_len: u64,
    copy_len: u64,
)
    ensures
        spec_after_action(j, result).0.phase is Measuring && !(j.phase is Measuring)
            ==> j.phase is Copying && result is Ok,
        spec_after_probe(j, exists).0.phase is Measuring ==> spec_after_probe(j, exists).0 == j,
        spec_after_sizes(j, source_len, copy_len).0.phase is RemovingSource && !(j.phase is RemovingSource)
            ==> j.phase is Measuring && source_len == copy_len,
        spec_after_probe(j, exists).0.phase is RemovingSource ==> spec_after_probe(j, exists).0 == j,
        spec_after_action(j, result).0.phase is RemovingSource ==> spec_after_action(j, result).0 == j,
        j.phase is DiscardingCopy ==> spec_after_action(j, result).1
            == StepView::Finished(Err("copy verification failed"@)),
{
}

/// The new file is only ever renamed onto a name just found free, or onto
/// the name just emptied by removing or archiving the old file, always from
/// the source; it is copied there only when that rename failed.
pub proof fn law_transfer_lands_on_free_name(j: JobView, exists: bool, result: Result<(), Seq<char>>)
    ensures
        spec_after_probe(j, exists).1 matches StepView::Rename { from, to } ==> {
            &&& !exists
            &&& from == j.source
            &&& (j.phase is CheckingDestination && to == j.destination
                || j.phase is SeekingName && to == j.candidate)
        },
        spec_after_action(j, result).1 matches StepView::Rename { from, to } ==> {
            &&& result is Ok
            &&& from == j.source
            &&& to == j.destination
            &&& (j.phase is Removing || j.phase is Archiving)
        },
        spec_after_action(j, result).1 matches StepView::Copy { from, to } ==> {
            &&& result is Err
            &&& j.phase is Renaming
            &&& from == j.source
            &&& to == j.destination
        },
        !(spec_after_probe(j, exists).1 is Copy),
{
}

/// Each phase belongs to the policy that leads to it: removing to `Replace`,
/// seeking a renamed name to `Rename`, and keeping a previous version to `Version`.
pub open spec fn phase_fits_policy(j: JobView) -> bool {
    &&& j.phase is Removing ==> j.policy == DuplicatePolicy::Replace
    &&& j.phase is SeekingName ==> j.policy == DuplicatePolicy::Rename
    &&& (j.phase is CreatingArchiveDir || j.phase is SeekingArchiveName || j.phase is Archiving)
        ==> j.policy == DuplicatePolicy::Version
    &&& j.archived is Some ==> j.policy == DuplicatePolicy::Version
}

/// Every step of a move keeps its phase in line with its policy, from the start on.
pub proof fn law_phase_fits_policy(
    j: JobView,
    exists: bool,
    result: Result<(), Seq<char>>,
    source_len: u64,
    copy_len: u64,
)
    requires
        phase_fits_policy(j),
    ensures
        phase_fits_policy(spec_after_probe(j, exists).0),
        phase_fits_policy(spec_after_action(j, result).0),
        phase_fits_policy(spec_after_sizes(j, source_len, copy_len).0),
        spec_after_probe(j, exists).0.policy == j.policy,
        spec_after_action(j, result).0.policy == j.policy,
        spec_after_sizes(j, source_len, copy_len).0.policy == j.policy,
        forall|src: Seq<char>, dir: Seq<char>, p: DuplicatePolicy, t: bool, st: Seq<char>|
            #[trigger] phase_fits_policy(spec_start(src, dir, p, t, st).0),
{
}

/// A previous version is only moved aside under the `Version` policy, to a
/// name in the previous-versions folder just found free, and the move
/// remembers where it went.
pub proof fn law_previous_version_is_kept(j: JobView, exists: bool)
    requires
        phase_fits_policy(j),
    ensures
        spec_after_probe(j, exists).1 matches StepView::Archive { from, to } ==> {
            &&& !exists
            &&& j.policy == DuplicatePolicy::Version
            &&& from == j.destination
            &&& to == j.candidate
            &&& spec_after_probe(j, exists).0.archived == Some(j.candidate)
        },
{
}

/// When the probe finds the destination free, the move goes on to bring the
/// source there, whatever the policy; a move ends skipped only after the
/// probe found the destination taken, and only under `Skip`.
pub proof fn law_free_destination_is_taken(j: JobView, exists: bool)
    ensures
        (j.phase is CheckingDestination && !same_path(j.destination, j.source)) ==> spec_after_probe(j, false) == (
            JobView { phase: MovePhase::Renaming, ..j },
            StepView::Rename { from: j.source, to: j.destination },
        ),
        spec_after_probe(j, exists).1 matches StepView::Finished(Ok(o)) ==> (o.note == Some(
            "destination already exists; skipped"@,
        ) ==> (exists && j.policy == DuplicatePolicy::Skip && j.phase is CheckingDestination && !o.moved)),
{
    reveal_strlit("destination already exists; skipped");
    reveal_strlit("the file is already at its destination");
    assert("destination already exists; skipped"@[0] != "the file is already at its destination"@[0]);
}

} // verus!
