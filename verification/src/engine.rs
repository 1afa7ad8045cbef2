use vstd::prelude::*;

use crate::names::detoxed_name;
use crate::names::plan_rename;
use crate::paths::child_path;
use crate::paths::child_path_of;
use crate::paths::cleaned_path;
use crate::paths::clean_path;
use crate::paths::file_name_of;
use crate::paths::is_hidden_path;
use crate::paths::join_under;
use crate::paths::joined;
use crate::paths::spec_file_name;

verus! {

// ---------------------------------------------------------------------------
// The traversal engine's decisions.
//
// Workers share one queue of paths.  A popped path is classified — by the
// caller, which owns the filesystem — and the functions here decide what the
// worker does: skip it, expand a directory, or process a file.  For a file
// they decide what is announced and what is done, so that every policy of
// the engine stands here, and the caller only carries decisions out.
// ---------------------------------------------------------------------------

/// The configuration, immutable and shared read-only by all workers.
pub struct Options {
    /// Compute renames and moves but apply none.
    pub dry_run: bool,
    /// Announce each planned rename before applying it.
    pub verbose: bool,
    /// Traverse and rename hidden entries too.
    pub hidden: bool,
    /// Where to move a file whose sanitized name is already taken.
    pub move_to: Option<String>,
}

/// What a popped path turned out to be when the caller looked it up.
#[derive(Clone, Copy, PartialEq, Eq, Structural, Debug)]
pub enum PathKind {
    Directory,
    File,
    Other,
}

/// What a worker does with a popped path.
#[derive(Clone, Copy, PartialEq, Eq, Structural, Debug)]
pub enum StepAction {
    Skip,
    ExpandDirectory,
    ProcessFile,
}

/// The worker-loop policy: hidden entries are skipped unless configured in;
/// a directory is expanded; a regular file is processed; anything else is
/// silently skipped.
pub open spec fn step_of(path: Seq<char>, kind: PathKind, include_hidden: bool) -> StepAction {
    if is_hidden_path(path) && !include_hidden {
        StepAction::Skip
    } else {
        match kind {
            PathKind::Directory => StepAction::ExpandDirectory,
            PathKind::File => StepAction::ProcessFile,
            PathKind::Other => StepAction::Skip,
        }
    }
}

/// Decide what to do with the path a worker just popped.
pub fn classify_step(path: &str, kind: PathKind, options: &Options) -> (a: StepAction)
    ensures
        a == step_of(path@, kind, options.hidden),
{
    if crate::paths::hidden(path) && !options.hidden {
        StepAction::Skip
    } else {
        match kind {
            PathKind::Directory => StepAction::ExpandDirectory,
            PathKind::File => StepAction::ProcessFile,
            PathKind::Other => StepAction::Skip,
        }
    }
}

/// What is printed for a file, if anything.
#[derive(Debug, PartialEq, Eq)]
pub enum Announcement {
    /// The planned rename, printed only when verbose.
    WillRename { new_name: String },
    /// The sanitized name is taken and the file will be moved away.
    MoveConflict { new_name: String },
    /// The sanitized name is taken and nothing can be done.
    RenameFailed { new_name: String },
}

/// What is done to a file, if anything.
#[derive(Debug, PartialEq, Eq)]
pub enum Effect {
    /// Rename the file, within its directory, to the sanitized name.
    RenameTo { new_name: String },
    /// Move the file, under its original name, into the move destination.
    MoveToDestination,
}

/// A worker's decision for one file: what to say and what to do.
pub struct FileDecision {
    pub announcement: Option<Announcement>,
    pub effect: Option<Effect>,
}

/// The announcement for a file, at the specification level.  It depends on
/// the file name, on whether the sanitized name is taken, on verbosity and
/// on whether a move destination is set — never on the dry-run flag.
pub enum AnnouncementSpec {
    Quiet,
    WillRename(Seq<char>),
    MoveConflict(Seq<char>),
    RenameFailed(Seq<char>),
}

/// The effect for a file, at the specification level.
pub enum EffectSpec {
    NoEffect,
    RenameTo(Seq<char>),
    MoveToDestination,
}

/// What is announced for `name` when the sanitized name is or is not taken.
pub open spec fn announcement_of(
    name: Seq<char>,
    target_exists: bool,
    verbose: bool,
    has_move: bool,
) -> AnnouncementSpec {
    let n = detoxed_name(name);
    if n == name {
        AnnouncementSpec::Quiet
    } else if !target_exists {
        if verbose {
            AnnouncementSpec::WillRename(n)
        } else {
            AnnouncementSpec::Quiet
        }
    } else if has_move {
        AnnouncementSpec::MoveConflict(n)
    } else {
        AnnouncementSpec::RenameFailed(n)
    }
}

/// What is done for `name`: nothing when the name is already sanitized or
/// under dry-run; a rename when the sanitized name is free; a move when it
/// is taken and a destination is set; nothing otherwise.
pub open spec fn effect_of(
    name: Seq<char>,
    target_exists: bool,
    dry_run: bool,
    has_move: bool,
) -> EffectSpec {
    let n = detoxed_name(name);
    if n == name || dry_run {
        EffectSpec::NoEffect
    } else if !target_exists {
        EffectSpec::RenameTo(n)
    } else if has_move {
        EffectSpec::MoveToDestination
    } else {
        EffectSpec::NoEffect
    }
}

/// The executable announcement carries exactly what the specification says.
pub open spec fn announcement_matches(a: Option<Announcement>, s: AnnouncementSpec) -> bool {
    match s {
        AnnouncementSpec::Quiet => a is None,
        AnnouncementSpec::WillRename(n) => a matches Some(Announcement::WillRename { new_name })
            && new_name@ == n,
        AnnouncementSpec::MoveConflict(n) => a matches Some(Announcement::MoveConflict { new_name })
            && new_name@ == n,
        AnnouncementSpec::RenameFailed(n) => a matches Some(Announcement::RenameFailed { new_name })
            && new_name@ == n,
    }
}

/// The executable effect carries exactly what the specification says.
pub open spec fn effect_matches(e: Option<Effect>, s: EffectSpec) -> bool {
    match s {
        EffectSpec::NoEffect => e is None,
        EffectSpec::RenameTo(n) => e matches Some(Effect::RenameTo { new_name }) && new_name@ == n,
        EffectSpec::MoveToDestination => e matches Some(Effect::MoveToDestination),
    }
}

/// Decide what a worker says and does for the file called `name`, given
/// whether the sanitized sibling already exists on disk.
pub fn decide_file(name: &str, target_exists: bool, options: &Options) -> (d: FileDecision)
    ensures
        announcement_matches(
            d.announcement,
            announcement_of(name@, target_exists, options.verbose, options.move_to is Some),
        ),
        effect_matches(
            d.effect,
            effect_of(name@, target_exists, options.dry_run, options.move_to is Some),
        ),
{
    match plan_rename(name) {
        None => FileDecision { announcement: None, effect: None },
        Some(new_name) => {
            if !target_exists {
                let announcement = if options.verbose {
                    Some(Announcement::WillRename { new_name: new_name.clone() })
                } else {
                    None
                };
                let effect = if !options.dry_run {
                    Some(Effect::RenameTo { new_name })
                } else {
                    None
                };
                FileDecision { announcement, effect }
            } else {
                match &options.move_to {
                    Some(_) => {
                        let effect = if !options.dry_run {
                            Some(Effect::MoveToDestination)
                        } else {
                            None
                        };
                        FileDecision {
                            announcement: Some(Announcement::MoveConflict { new_name }),
                            effect,
                        }
                    },
                    None => FileDecision {
                        announcement: Some(Announcement::RenameFailed { new_name }),
                        effect: None,
                    },
                }
            }
        },
    }
}

/// No-op stability: a name already in sanitized form draws no announcement
/// and no effect, whatever the flags and whatever stands on disk.
pub proof fn lemma_no_op_stability(
    name: Seq<char>,
    target_exists: bool,
    verbose: bool,
    dry_run: bool,
    has_move: bool,
)
    requires
        detoxed_name(name) == name,
    ensures
        announcement_of(name, target_exists, verbose, has_move) == AnnouncementSpec::Quiet,
        effect_of(name, target_exists, dry_run, has_move) == EffectSpec::NoEffect,
{
}

/// Dry-run purity: what is announced never depends on the dry-run flag —
/// `announcement_of` does not even take it — and under dry-run no effect at
/// all is issued, for any input and any flags.
pub proof fn lemma_dry_run_purity(name: Seq<char>, target_exists: bool, has_move: bool)
    ensures
        effect_of(name, target_exists, true, has_move) == EffectSpec::NoEffect,
{
}

/// Collision without loss: of two names that sanitize to the same target,
/// the one that finds the target free is renamed to it, and the one that
/// finds it taken is only announced — no effect, so it stays at its own
/// path; nothing is deleted or overwritten.
pub proof fn lemma_collision_keeps_both(first: Seq<char>, second: Seq<char>, verbose: bool)
    requires
        detoxed_name(first) != first,
        detoxed_name(second) != second,
        detoxed_name(first) == detoxed_name(second),
    ensures
        effect_of(first, false, false, false) == EffectSpec::RenameTo(detoxed_name(second)),
        effect_of(second, true, false, false) == EffectSpec::NoEffect,
        announcement_of(second, true, verbose, false) == AnnouncementSpec::RenameFailed(
            detoxed_name(second),
        ),
{
}

/// Collision with a move destination: the winner is renamed to the sanitized
/// name; the loser is moved to the destination — under its original name, as
/// `plan_move` states — and announced.
pub proof fn lemma_collision_moves_loser(first: Seq<char>, second: Seq<char>, verbose: bool)
    requires
        detoxed_name(first) != first,
        detoxed_name(second) != second,
        detoxed_name(first) == detoxed_name(second),
    ensures
        effect_of(first, false, false, true) == EffectSpec::RenameTo(detoxed_name(second)),
        effect_of(second, true, false, true) == EffectSpec::MoveToDestination,
        announcement_of(second, true, verbose, true) == AnnouncementSpec::MoveConflict(
            detoxed_name(second),
        ),
{
}

/// The error a worker reports when a move cannot even be planned.
#[derive(Clone, Copy, PartialEq, Eq, Structural, Debug)]
pub enum DetoxError {
    /// The path to move has no file name to carry over.
    InvalidMovePath,
}

/// A planned move: rename `source` to `destination`, inside
/// `destination_dir`, which is created first if absent.
#[derive(Debug, PartialEq, Eq)]
pub struct MovePlan {
    pub source: String,
    pub destination_dir: String,
    pub destination: String,
}

/// Plan the move of `input` into `move_to`: both are resolved against
/// `current_dir` and normalized, and the file keeps its original name under
/// the destination directory.
pub fn plan_move(input: &str, move_to: &str, current_dir: &str) -> (r: Result<
    MovePlan,
    DetoxError,
>)
    ensures
        ({
            let from = cleaned_path(joined(current_dir@, input@));
            let dest = cleaned_path(joined(current_dir@, move_to@));
            match r {
                Ok(p) => spec_file_name(from).len() > 0 && p.source@ == from
                    && p.destination_dir@ == dest && p.destination@ == child_path(
                    dest,
                    spec_file_name(from),
                ),
                Err(e) => e == DetoxError::InvalidMovePath && spec_file_name(from).len() == 0,
            }
        }),
{
    let from_joined = join_under(current_dir, input);
    let from = clean_path(from_joined.as_str());
    let dest_joined = join_under(current_dir, move_to);
    let dest = clean_path(dest_joined.as_str());
    let name = file_name_of(from.as_str());
    if name.as_str().unicode_len() == 0 {
        Err(DetoxError::InvalidMovePath)
    } else {
        let destination = child_path_of(dest.as_str(), name.as_str());
        Ok(MovePlan { source: from, destination_dir: dest, destination })
    }
}

// ---------------------------------------------------------------------------
// The shared work queue: paths still to be handled, last in first out.
// ---------------------------------------------------------------------------

/// The work queue of pending paths.  Workers share one of these behind a
/// lock; the order of processing carries no guarantee.
pub struct WorkQueue {
    items: Vec<String>,
}

impl View for WorkQueue {
    type V = Seq<Seq<char>>;

    closed spec fn view(&self) -> Seq<Seq<char>> {
        self.items.deep_view()
    }
}

impl WorkQueue {
    /// The empty queue.
    pub fn new() -> (q: WorkQueue)
        ensures
            q@ == Seq::<Seq<char>>::empty(),
    {
        let q = WorkQueue { items: Vec::new() };
        proof {
            assert(q@ =~= Seq::<Seq<char>>::empty());
        }
        q
    }

    /// How many paths wait.
    pub fn len(&self) -> (n: usize)
        ensures
            n == self@.len(),
    {
        self.items.len()
    }

    /// Add one path.
    pub fn push(&mut self, path: String)
        ensures
            final(self)@ == old(self)@.push(path@),
    {
        self.items.push(path);
        proof {
            assert(self@ =~= old(self)@.push(path@));
        }
    }

    /// Remove and return the most recently added path, if any.
    pub fn pop(&mut self) -> (r: Option<String>)
        ensures
            match r {
                Some(p) => old(self)@.len() > 0 && p@ == old(self)@.last() && final(self)@ == old(
                    self,
                )@.drop_last(),
                None => old(self)@.len() == 0 && final(self)@ == old(self)@,
            },
    {
        let r = self.items.pop();
        proof {
            if old(self).items@.len() > 0 {
                assert(self@ =~= old(self)@.drop_last());
            } else {
                assert(self@ =~= old(self)@);
            }
        }
        r
    }
}

} // verus!

