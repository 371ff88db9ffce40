//! What the renderers need to know of a repository, read through `git2`.
//!
//! Every failure of a read is taken in here: a read that fails gives `None`
//! or an empty answer, and never stops a run.

use vstd::prelude::*;
use vstd::string::StringExecFns;
use git2::Oid;
use git2::Reference;
use git2::Repository;
use git2::Statuses;
use crate::git::GitState;
use crate::git::PathStatus;
use crate::git::StatusScope;
use crate::git::oid_hex;
use crate::git::scan_flags;
use crate::git::scan_scope;
use crate::git::scan_untracked;
use crate::git::shorthand_of;
use crate::git::symbolic_target_of;
use crate::git::target_of;
use crate::git;
use crate::text::last_component;
use crate::text::number_text;
use crate::text::split_at_first;
use crate::text::shorten;
use crate::text::str_eq;
use crate::text::after_last;
use crate::text::split_once;
use crate::text::shortened;

verus! {

/// A branch of a remote that a configuration names.
#[derive(Debug)]
pub struct RemoteBranch {
    /// The name as git uses it, such as `upstream/master`.
    pub remote_branch: String,
    /// The branch alone, such as `master`.
    pub remote_branch_name: String,
    /// The remote alone, such as `upstream`.
    pub remote_name: String,
}

/// A `RemoteBranch` with its texts as sequences of characters.
pub struct RemoteBranchText {
    pub remote_branch: Seq<char>,
    pub remote_branch_name: Seq<char>,
    pub remote_name: Seq<char>,
}

impl View for RemoteBranch {
    type V = RemoteBranchText;

    open spec fn view(&self) -> RemoteBranchText {
        RemoteBranchText {
            remote_branch: self.remote_branch@,
            remote_branch_name: self.remote_branch_name@,
            remote_name: self.remote_name@,
        }
    }
}

impl Clone for RemoteBranch {
    fn clone(&self) -> (copy: Self)
        ensures
            copy == *self,
    {
        RemoteBranch {
            remote_branch: self.remote_branch.clone(),
            remote_branch_name: self.remote_branch_name.clone(),
            remote_name: self.remote_name.clone(),
        }
    }
}

/// What a repository is in the middle of.
#[derive(Clone, Copy, Debug, PartialEq, Eq, Structural)]
pub enum OperationState {
    Clean,
    Merge,
    Revert,
    CherryPick,
    Bisect,
    Rebase,
    ApplyMailbox,
}

impl OperationState {
    /// The word that is shown for the state. A clean repository has none.
    pub open spec fn label_text(self) -> Seq<char> {
        match self {
            OperationState::Clean => ""@,
            OperationState::Merge => "merge"@,
            OperationState::Revert => "revert"@,
            OperationState::CherryPick => "cherry-pick"@,
            OperationState::Bisect => "bisect"@,
            OperationState::Rebase => "rebase"@,
            OperationState::ApplyMailbox => "apply"@,
        }
    }

    /// The word that is shown for the state.
    pub fn label(self) -> (word: &'static str)
        ensures
            word@ == self.label_text(),
    {
        match self {
            OperationState::Clean => "",
            OperationState::Merge => "merge",
            OperationState::Revert => "revert",
            OperationState::CherryPick => "cherry-pick",
            OperationState::Bisect => "bisect",
            OperationState::Rebase => "rebase",
            OperationState::ApplyMailbox => "apply",
        }
    }

    /// The state that stands for what git reports: the steps of a
    /// sequence count as the operation that runs it.
    pub open spec fn of(state: GitState) -> OperationState {
        match state {
            GitState::Clean => OperationState::Clean,
            GitState::Merge => OperationState::Merge,
            GitState::Revert => OperationState::Revert,
            GitState::RevertSequence => OperationState::Revert,
            GitState::CherryPick => OperationState::CherryPick,
            GitState::CherryPickSequence => OperationState::CherryPick,
            GitState::Bisect => OperationState::Bisect,
            GitState::Rebase => OperationState::Rebase,
            GitState::RebaseInteractive => OperationState::Rebase,
            GitState::RebaseMerge => OperationState::Rebase,
            GitState::ApplyMailbox => OperationState::ApplyMailbox,
            GitState::ApplyMailboxOrRebase => OperationState::ApplyMailbox,
        }
    }

    /// The state that stands for what git reports.
    pub fn from_git(state: GitState) -> (operation: OperationState)
        ensures
            operation == OperationState::of(state),
    {
        match state {
            GitState::Clean => OperationState::Clean,
            GitState::Merge => OperationState::Merge,
            GitState::Revert | GitState::RevertSequence => OperationState::Revert,
            GitState::CherryPick | GitState::CherryPickSequence => OperationState::CherryPick,
            GitState::Bisect => OperationState::Bisect,
            GitState::Rebase | GitState::RebaseInteractive | GitState::RebaseMerge => {
                OperationState::Rebase
            },
            GitState::ApplyMailbox | GitState::ApplyMailboxOrRebase => OperationState::ApplyMailbox,
        }
    }
}

/// One of the four counters of changed paths.
#[derive(Clone, Copy, Debug, PartialEq, Eq, Structural)]
pub enum FileBucket {
    /// Changed in the working tree.
    Changed,
    /// Untracked.
    New,
    /// Changed in the index.
    Staged,
    /// In conflict.
    Conflicts,
}

impl FileBucket {
    /// Whether a path with these flags counts for the bucket. A path may
    /// count for several.
    pub open spec fn holds(self, status: PathStatus) -> bool {
        match self {
            FileBucket::Changed => status.wt_modified || status.wt_deleted || status.wt_typechange
                || status.wt_renamed,
            FileBucket::New => status.wt_new,
            FileBucket::Staged => status.index_modified || status.index_deleted
                || status.index_typechange || status.index_renamed || status.index_new,
            FileBucket::Conflicts => status.conflicted,
        }
    }

    /// Whether a path with these flags counts for the bucket.
    pub fn takes(self, status: &PathStatus) -> (counted: bool)
        ensures
            counted == self.holds(*status),
    {
        match self {
            FileBucket::Changed => status.wt_modified || status.wt_deleted || status.wt_typechange
                || status.wt_renamed,
            FileBucket::New => status.wt_new,
            FileBucket::Staged => status.index_modified || status.index_deleted
                || status.index_typechange || status.index_renamed || status.index_new,
            FileBucket::Conflicts => status.conflicted,
        }
    }
}

/// How many of `statuses` count for `bucket`.
pub open spec fn count_in(statuses: Seq<PathStatus>, bucket: FileBucket) -> nat
    decreases statuses.len(),
{
    if statuses.len() == 0 {
        0
    } else {
        count_in(statuses.drop_last(), bucket) + if bucket.holds(statuses.last()) {
            1nat
        } else {
            0nat
        }
    }
}

/// No bucket holds more paths than there are.
pub proof fn lemma_count_in_bound(statuses: Seq<PathStatus>, bucket: FileBucket)
    ensures
        count_in(statuses, bucket) <= statuses.len(),
    decreases statuses.len(),
{
    if statuses.len() > 0 {
        lemma_count_in_bound(statuses.drop_last(), bucket);
    }
}

/// The number of paths in each bucket.
#[derive(Clone, Copy, Debug, PartialEq, Eq, Structural)]
pub struct FileCounts {
    pub changed: usize,
    pub new: usize,
    pub staged: usize,
    pub conflicts: usize,
}

impl FileCounts {
    /// The number of paths in `bucket`.
    pub open spec fn of(self, bucket: FileBucket) -> usize {
        match bucket {
            FileBucket::Changed => self.changed,
            FileBucket::New => self.new,
            FileBucket::Staged => self.staged,
            FileBucket::Conflicts => self.conflicts,
        }
    }

    /// The number of paths in `bucket`.
    pub fn get(&self, bucket: FileBucket) -> (count: usize)
        ensures
            count == self.of(bucket),
    {
        match bucket {
            FileBucket::Changed => self.changed,
            FileBucket::New => self.new,
            FileBucket::Staged => self.staged,
            FileBucket::Conflicts => self.conflicts,
        }
    }

    /// Whether `self` holds, for each bucket, the number of `statuses` that
    /// count for it.
    pub open spec fn tallies(self, statuses: Seq<PathStatus>) -> bool {
        &&& self.changed == count_in(statuses, FileBucket::Changed)
        &&& self.new == count_in(statuses, FileBucket::New)
        &&& self.staged == count_in(statuses, FileBucket::Staged)
        &&& self.conflicts == count_in(statuses, FileBucket::Conflicts)
    }
}

/// Sorts the paths of a status scan into the four buckets and counts them.
pub fn count_statuses(statuses: &Vec<PathStatus>) -> (counts: FileCounts)
    ensures
        counts.tallies(statuses@),
{
    let mut counts = FileCounts { changed: 0, new: 0, staged: 0, conflicts: 0 };
    let mut i: usize = 0;
    while i < statuses.len()
        invariant
            i <= statuses@.len(),
            counts.tallies(statuses@.subrange(0, i as int)),
        decreases statuses@.len() - i,
    {
        let status = &statuses[i];
        proof {
            let before = statuses@.subrange(0, i as int);
            let after = statuses@.subrange(0, i + 1);
            assert(after.drop_last() =~= before);
            assert(after.last() == *status);
            lemma_count_in_bound(before, FileBucket::Changed);
            lemma_count_in_bound(before, FileBucket::New);
            lemma_count_in_bound(before, FileBucket::Staged);
            lemma_count_in_bound(before, FileBucket::Conflicts);
        }
        if FileBucket::Changed.takes(status) {
            counts.changed = counts.changed + 1;
        }
        if FileBucket::New.takes(status) {
            counts.new = counts.new + 1;
        }
        if FileBucket::Staged.takes(status) {
            counts.staged = counts.staged + 1;
        }
        if FileBucket::Conflicts.takes(status) {
            counts.conflicts = counts.conflicts + 1;
        }
        i += 1;
    }
    assert(statuses@.subrange(0, i as int) =~= statuses@);
    counts
}

/// Reads the flags of every path of a status scan, in the order of the
/// scan.
pub fn read_flags(statuses: &Statuses<'_>) -> (flags: Vec<PathStatus>)
    ensures
        flags@ == scan_flags(statuses),
{
    let n = git::statuses_len(statuses);
    let mut flags: Vec<PathStatus> = Vec::new();
    let mut i: usize = 0;
    while i < n
        invariant
            n == scan_flags(statuses).len(),
            i <= n,
            flags@ == scan_flags(statuses).subrange(0, i as int),
        decreases n - i,
    {
        match git::statuses_flags_at(statuses, i) {
            Some(status) => {
                flags.push(status);
            },
            None => {},
        }
        assert(flags@ =~= scan_flags(statuses).subrange(0, i + 1));
        i += 1;
    }
    assert(flags@ =~= scan_flags(statuses));
    flags
}

/// The counts of a repository of which no path has changed.
pub open spec fn no_counts() -> FileCounts {
    FileCounts { changed: 0, new: 0, staged: 0, conflicts: 0 }
}

/// The counts that a status scan comes to: those of its paths, or all
/// zero where the status could not be read.
pub open spec fn counts_of_scan(scan: Option<Statuses<'_>>, counts: FileCounts) -> bool {
    match scan {
        Some(statuses) => counts.tallies(scan_flags(&statuses)),
        None => counts == no_counts(),
    }
}

/// Whether a scan, where one was made, compares both the index and the
/// working tree and lists untracked files.
pub open spec fn full_scan(scan: Option<Statuses<'_>>) -> bool {
    scan matches Some(statuses) ==> scan_scope(&statuses) == StatusScope::IndexAndWorkdir
        && scan_untracked(&statuses)
}

/// Whether `counts` are what one scan of the index and the working tree,
/// untracked files included, comes to: the counts of its paths, or all
/// zero where the status could not be read.
pub open spec fn counts_of_full_scan(counts: FileCounts) -> bool {
    exists|scan: Option<Statuses<'_>>|
        full_scan(scan) && #[trigger] counts_of_scan(scan, counts)
}

/// Counts the paths of a status scan per bucket. A status that could not
/// be read counts as one without a changed path.
pub fn count_scan(scan: &Option<Statuses<'_>>) -> (counts: FileCounts)
    ensures
        counts_of_scan(*scan, counts),
{
    match scan {
        Some(statuses) => {
            let flags = read_flags(statuses);
            count_statuses(&flags)
        },
        None => FileCounts { changed: 0, new: 0, staged: 0, conflicts: 0 },
    }
}

/// The name to show for the current branch: the one that was read, or the
/// empty name where none could be read.
pub fn name_or_empty(name: Option<String>) -> (shown: String)
    ensures
        shown@ == match name {
            Some(n) => n@,
            None => Seq::<char>::empty(),
        },
{
    match name {
        Some(n) => n,
        None => String::new(),
    }
}

/// The views of an optional string.
pub open spec fn text_of(text: Option<String>) -> Option<Seq<char>> {
    match text {
        Some(t) => Some(t@),
        None => None,
    }
}

/// A copy of an optional string.
pub fn copy_text(text: &Option<String>) -> (copy: Option<String>)
    ensures
        copy == *text,
{
    match text {
        Some(t) => Some(t.clone()),
        None => None,
    }
}

/// The short name of a branch: what follows `refs/heads/` in its full
/// name, so `feature/x` for `refs/heads/feature/x`. Of a name that does not
/// begin so, the last of the parts that `/` divides it into.
pub open spec fn short_name_of(full_name: Seq<char>) -> Seq<char> {
    match split_once(full_name, '/') {
        Some((first, rest)) => match split_once(rest, '/') {
            Some((second, name)) => if first == "refs"@ && second == "heads"@ {
                name
            } else {
                after_last(full_name, '/')
            },
            None => after_last(full_name, '/'),
        },
        None => after_last(full_name, '/'),
    }
}

/// The short name of the branch of that full name.
pub fn short_name(full_name: &str) -> (name: String)
    ensures
        name@ == short_name_of(full_name@),
{
    match split_at_first(full_name, '/') {
        Some((first, rest)) => match split_at_first(rest.as_str(), '/') {
            Some((second, name)) => {
                if str_eq(first.as_str(), "refs") && str_eq(second.as_str(), "heads") {
                    name
                } else {
                    last_component(full_name, '/')
                }
            },
            None => last_component(full_name, '/'),
        },
        None => last_component(full_name, '/'),
    }
}

/// The name under which a reference is shown, given what git tells of it:
/// its short name, the full name it points to where it is symbolic, and
/// the hexadecimal id of the commit it points to where it is direct.
///
/// The short name is taken unless it is `HEAD`. For a symbolic `HEAD` the
/// short name of the branch it points to is taken. Else the reference is
/// named by the first seven characters of its commit.
pub open spec fn branch_name_of(
    shorthand: Option<Seq<char>>,
    symbolic_target: Option<Seq<char>>,
    commit: Option<Seq<char>>,
) -> Option<Seq<char>> {
    if shorthand is Some && shorthand->0 != "HEAD"@ {
        shorthand
    } else if shorthand is Some && symbolic_target is Some {
        Some(short_name_of(symbolic_target->0))
    } else if commit is Some {
        Some(shortened(commit->0, 7))
    } else {
        None
    }
}

/// The name under which a reference is shown, by what it holds.
pub open spec fn name_of_reference(reference: &Reference<'_>) -> Option<Seq<char>> {
    branch_name_of(
        shorthand_of(reference),
        symbolic_target_of(reference),
        match target_of(reference) {
            Some(oid) => Some(oid_hex(oid)),
            None => None,
        },
    )
}

/// Whether `name` is what reading the current branch can come to: the
/// name under which some reference is shown, or the empty name where none
/// could be read.
pub open spec fn name_as_read(name: Seq<char>) -> bool {
    ||| name == Seq::<char>::empty()
    ||| exists|reference: Reference<'_>| #[trigger] name_of_reference(&reference) == Some(name)
}

/// Chooses the name under which a reference is shown.
pub fn choose_branch_name(
    shorthand: Option<&str>,
    symbolic_target: Option<&str>,
    commit: Option<&str>,
) -> (name: Option<String>)
    ensures
        text_of(name) == branch_name_of(
            match shorthand {
                Some(s) => Some(s@),
                None => None,
            },
            match symbolic_target {
                Some(s) => Some(s@),
                None => None,
            },
            match commit {
                Some(s) => Some(s@),
                None => None,
            },
        ),
{
    if let Some(short) = shorthand {
        if !str_eq(short, "HEAD") {
            return Some(String::from_str(short));
        } else if let Some(target) = symbolic_target {
            return Some(short_name(target));
        }
    }
    match commit {
        Some(hash) => Some(shorten(hash, 7)),
        None => None,
    }
}

/// The remote and the branch that the full name of a branch to follow
/// holds: `origin` and `master` in `refs/remotes/origin/master`, where the
/// name of the remote ends at the first `/` after `refs/remotes/`. A branch
/// of the repository itself, such as `refs/heads/master`, has `.` for its
/// remote, as git writes it. Any other name is that of no such branch.
pub open spec fn remote_and_branch_of(full_name: Seq<char>) -> Option<(Seq<char>, Seq<char>)> {
    match split_once(full_name, '/') {
        Some((first, rest)) => match split_once(rest, '/') {
            Some((second, names)) => if first == "refs"@ && second == "remotes"@ {
                split_once(names, '/')
            } else if first == "refs"@ && second == "heads"@ {
                Some(("."@, names))
            } else {
                None
            },
            None => None,
        },
        None => None,
    }
}

/// Divides the full name of a branch to follow into the remote and the
/// branch.
pub fn remote_of_reference(full_name: &str) -> (names: Option<(String, String)>)
    ensures
        match names {
            Some((remote, branch)) => remote_and_branch_of(full_name@) == Some(
                (remote@, branch@),
            ),
            None => remote_and_branch_of(full_name@) is None,
        },
{
    match split_at_first(full_name, '/') {
        Some((first, rest)) => match split_at_first(rest.as_str(), '/') {
            Some((second, names)) => {
                if str_eq(first.as_str(), "refs") && str_eq(second.as_str(), "remotes") {
                    split_at_first(names.as_str(), '/')
                } else if str_eq(first.as_str(), "refs") && str_eq(second.as_str(), "heads") {
                    Some((String::from_str("."), names))
                } else {
                    None
                }
            },
            None => None,
        },
        None => None,
    }
}

/// Whether `remote` and `branch` are the names that the full name of some
/// branch to follow holds.
pub open spec fn names_a_remote_branch(remote: Seq<char>, branch: Seq<char>) -> bool {
    exists|full_name: Seq<char>| #[trigger]
        remote_and_branch_of(full_name) == Some((remote, branch))
}

/// What was read of the repository so far. Each part is read once, at the
/// first need, and kept for the rest of the run.
#[derive(Debug)]
pub struct Cache {
    pub current_branch_name: Option<String>,
    pub file_statuses: Option<FileCounts>,
    pub repository_operation: Option<OperationState>,
    pub stash_count: Option<u16>,
}

impl Cache {
    /// A cache that holds nothing.
    pub fn new() -> (cache: Cache)
        ensures
            cache.current_branch_name is None,
            cache.file_statuses is None,
            cache.repository_operation is None,
            cache.stash_count is None,
    {
        Cache {
            current_branch_name: None,
            file_statuses: None,
            repository_operation: None,
            stash_count: None,
        }
    }

    fn set_current_branch_name(&mut self, n: Option<String>)
        ensures
            final(self).current_branch_name == n,
            final(self).file_statuses == old(self).file_statuses,
            final(self).repository_operation == old(self).repository_operation,
            final(self).stash_count == old(self).stash_count,
    {
        self.current_branch_name = n;
    }

    fn is_current_branch_set(&self) -> (set: bool)
        ensures
            set == self.current_branch_name is Some,
    {
        self.current_branch_name.is_some()
    }

    fn get_current_branch(&self) -> (name: Option<String>)
        ensures
            name == self.current_branch_name,
    {
        copy_text(&self.current_branch_name)
    }

    fn set_file_statuses(&mut self, n: Option<FileCounts>)
        ensures
            final(self).file_statuses == n,
            final(self).current_branch_name == old(self).current_branch_name,
            final(self).repository_operation == old(self).repository_operation,
            final(self).stash_count == old(self).stash_count,
    {
        self.file_statuses = n;
    }

    fn is_file_statuses_set(&self) -> (set: bool)
        ensures
            set == self.file_statuses is Some,
    {
        self.file_statuses.is_some()
    }

    fn get_file_statuses(&self) -> (counts: Option<FileCounts>)
        ensures
            counts == self.file_statuses,
    {
        self.file_statuses
    }
}

/// A repository and what was read of it.
pub struct Backend {
    pub cache: Cache,
    pub repo: Repository,
    /// Whether diagnostic messages are collected.
    pub debug: bool,
    /// The diagnostic messages collected so far, oldest first. They tell
    /// what was read and what could not be; nothing that is shown depends
    /// on them.
    pub log: Vec<String>,
}

/// Whether `later` holds the messages of `earlier`, in their order, and, where
/// none are asked for, no others.
pub open spec fn log_grown(debug: bool, earlier: Seq<String>, later: Seq<String>) -> bool {
    &&& earlier.is_prefix_of(later)
    &&& !debug ==> later == earlier
}

/// Messages that were added twice were added.
pub proof fn lemma_log_grown_twice(
    debug: bool,
    first: Seq<String>,
    second: Seq<String>,
    third: Seq<String>,
)
    requires
        log_grown(debug, first, second),
        log_grown(debug, second, third),
    ensures
        log_grown(debug, first, third),
{
}

/// A message made of a fixed beginning and what it is about.
pub fn message_about(beginning: &str, subject: &str) -> (line: String)
    ensures
        line@ == beginning@ + subject@,
{
    let mut line = String::from_str(beginning);
    line.append(subject);
    line
}

/// How far the current branch and a branch of a remote have diverged.
#[derive(Debug)]
pub struct BranchAheadBehind {
    pub local_branch_name: Option<String>,
    pub remote_branch_name: Option<String>,
    pub remote_name: Option<String>,
    pub ahead: usize,
    pub behind: usize,
}

/// A `BranchAheadBehind` with its texts as sequences of characters.
pub struct Divergence {
    pub local_branch_name: Option<Seq<char>>,
    pub remote_branch_name: Option<Seq<char>>,
    pub remote_name: Option<Seq<char>>,
    pub ahead: nat,
    pub behind: nat,
}

impl View for BranchAheadBehind {
    type V = Divergence;

    open spec fn view(&self) -> Divergence {
        Divergence {
            local_branch_name: text_of(self.local_branch_name),
            remote_branch_name: text_of(self.remote_branch_name),
            remote_name: text_of(self.remote_name),
            ahead: self.ahead as nat,
            behind: self.behind as nat,
        }
    }
}

impl BranchAheadBehind {
    /// The state of a branch of which no remote branch is known.
    pub fn new(l: Option<String>) -> (stats: BranchAheadBehind)
        ensures
            stats.local_branch_name == l,
            stats.remote_branch_name is None,
            stats.remote_name is None,
            stats.ahead == 0,
            stats.behind == 0,
    {
        BranchAheadBehind {
            local_branch_name: l,
            remote_branch_name: None,
            remote_name: None,
            ahead: 0,
            behind: 0,
        }
    }
}

/// The view of optional statistics.
pub open spec fn stats_text(stats: Option<BranchAheadBehind>) -> Option<Divergence> {
    match stats {
        Some(s) => Some(s@),
        None => None,
    }
}

/// What is told of the two branches, given what was read of the
/// repository: the name of the current branch; the remote and the branch
/// that were found to compare with; whether HEAD points to a commit; and
/// how far the two commits are apart, where that could be computed.
///
/// Without a branch to compare with, no remote is named and both counts
/// are zero. With one, nothing is told unless HEAD points to a commit; and
/// both counts are zero where the distance could not be computed.
pub open spec fn divergence_of(
    local: Option<Seq<char>>,
    remote: Option<(Seq<char>, Seq<char>)>,
    commit_found: bool,
    distance: Option<(nat, nat)>,
) -> Option<Divergence> {
    match remote {
        None => Some(
            Divergence {
                local_branch_name: local,
                remote_branch_name: None,
                remote_name: None,
                ahead: 0,
                behind: 0,
            },
        ),
        Some((remote_name, branch_name)) => if commit_found {
            Some(
                Divergence {
                    local_branch_name: local,
                    remote_branch_name: Some(branch_name),
                    remote_name: Some(remote_name),
                    ahead: match distance {
                        Some(d) => d.0,
                        None => 0,
                    },
                    behind: match distance {
                        Some(d) => d.1,
                        None => 0,
                    },
                },
            )
        } else {
            None
        },
    }
}

/// Whether `found`, the remote and the branch to compare with, is in
/// keeping with what was asked for: the names that `asked` gives, or, where
/// nothing was asked for, names that the full name of a remote-tracking
/// branch holds.
pub open spec fn resolved_as(
    asked: Option<RemoteBranch>,
    found: Option<(Seq<char>, Seq<char>)>,
) -> bool {
    match found {
        None => true,
        Some((remote, branch)) => match asked {
            Some(named) => remote == named.remote_name@ && branch == named.remote_branch_name@,
            None => names_a_remote_branch(remote, branch),
        },
    }
}

impl BranchAheadBehind {
    /// The state of a branch next to the branch `remote_branch_name` of
    /// `remote_name`, from which it is `distance` apart: ahead by the
    /// first number, behind by the second. Both are zero where the distance
    /// is not known.
    pub fn compared(
        l: Option<String>,
        remote_name: String,
        remote_branch_name: String,
        distance: Option<(usize, usize)>,
    ) -> (stats: BranchAheadBehind)
        ensures
            stats.local_branch_name == l,
            stats.remote_branch_name == Some(remote_branch_name),
            stats.remote_name == Some(remote_name),
            stats.ahead == match distance {
                Some(d) => d.0,
                None => 0,
            },
            stats.behind == match distance {
                Some(d) => d.1,
                None => 0,
            },
    {
        let (ahead, behind) = match distance {
            Some(d) => d,
            None => (0, 0),
        };
        BranchAheadBehind {
            local_branch_name: l,
            remote_branch_name: Some(remote_branch_name),
            remote_name: Some(remote_name),
            ahead: ahead,
            behind: behind,
        }
    }
}

impl Clone for BranchAheadBehind {
    fn clone(&self) -> (copy: Self)
        ensures
            copy == *self,
    {
        BranchAheadBehind {
            local_branch_name: copy_text(&self.local_branch_name),
            remote_branch_name: copy_text(&self.remote_branch_name),
            remote_name: copy_text(&self.remote_name),
            ahead: self.ahead,
            behind: self.behind,
        }
    }
}

/// A branch of a remote and the commit it points to.
struct RefPair {
    remote_name: String,
    branch_name: String,
    oid: Oid,
}

impl Backend {
    /// A backend that has read nothing of `repo` yet.
    pub fn new(repo: Repository, debug: bool) -> (backend: Backend)
        ensures
            backend.repo == repo,
            backend.debug == debug,
            backend.log@.len() == 0,
            backend.cache.current_branch_name is None,
            backend.cache.file_statuses is None,
            backend.cache.repository_operation is None,
            backend.cache.stash_count is None,
    {
        Backend { repo: repo, debug: debug, cache: Cache::new(), log: Vec::new() }
    }

    /// Adds a diagnostic message, where such messages are asked for.
    pub fn note(&mut self, line: String)
        ensures
            final(self).log@ == (if old(self).debug {
                old(self).log@.push(line)
            } else {
                old(self).log@
            }),
            log_grown(old(self).debug, old(self).log@, final(self).log@),
            final(self).cache == old(self).cache,
            final(self).repo == old(self).repo,
            final(self).debug == old(self).debug,
    {
        if self.debug {
            self.log.push(line);
        }
    }

    /// The reference that HEAD is: the one it resolves to, or, where that
    /// cannot be had (as on a branch without a commit), HEAD itself.
    fn get_head(&self) -> Option<Reference<'_>> {
        match git::repository_head(&self.repo) {
            Ok(head) => Some(head),
            Err(_) => match git::find_reference(&self.repo, "HEAD") {
                Ok(head) => Some(head),
                Err(_) => None,
            },
        }
    }

    /// The commit that HEAD points to.
    fn get_current_branch_oid(&self) -> Option<Oid> {
        match self.get_head() {
            Some(head) => git::reference_target(&head),
            None => None,
        }
    }

    /// The direct reference that `reference` leads to; `reference` itself
    /// where it leads to none.
    fn resolve_symbolic_reference<'a>(
        &self,
        reference: Option<Reference<'a>>,
    ) -> (resolved: Option<Reference<'a>>)
        ensures
            resolved is Some <==> reference is Some,
    {
        match reference {
            Some(v) => match git::reference_resolve(&v) {
                Ok(direct) => Some(direct),
                Err(_) => Some(v),
            },
            None => None,
        }
    }

    /// The name under which `r` is shown: what `branch_name_of` gives for
    /// the short name of `r`, the name it points to and the id of its
    /// commit.
    fn get_branch_name_for_reference(&self, r: Reference) -> (name: Option<String>)
        ensures
            text_of(name) == name_of_reference(&r),
    {
        let shorthand = git::reference_shorthand(&r);
        let symbolic_target = git::reference_symbolic_target(&r);
        let commit = match git::reference_target(&r) {
            Some(oid) => Some(git::oid_text(oid)),
            None => None,
        };
        choose_branch_name(
            match &shorthand {
                Some(s) => Some(s.as_str()),
                None => None,
            },
            match &symbolic_target {
                Some(s) => Some(s.as_str()),
                None => None,
            },
            match &commit {
                Some(s) => Some(s.as_str()),
                None => None,
            },
        )
    }

    /// The name of the current branch; on a detached HEAD, the first seven
    /// characters of its commit; the empty name where HEAD cannot be read.
    /// The result is never `None`.
    ///
    /// The name is read once: a later call gives what the first one found.
    pub fn get_current_branch_name(&mut self) -> (name: Option<String>)
        ensures
            name is Some,
            final(self).cache.current_branch_name == name,
            old(self).cache.current_branch_name is Some ==> name
                == old(self).cache.current_branch_name,
            old(self).cache.current_branch_name is None ==> name_as_read(name->0@),
            final(self).cache.file_statuses == old(self).cache.file_statuses,
            final(self).cache.repository_operation == old(self).cache.repository_operation,
            final(self).cache.stash_count == old(self).cache.stash_count,
            final(self).repo == old(self).repo,
            final(self).debug == old(self).debug,
            log_grown(old(self).debug, old(self).log@, final(self).log@),
    {
        if self.cache.is_current_branch_set() {
            return self.cache.get_current_branch();
        }
        let head = self.get_head();
        let head_found = head.is_some();
        let read = match self.resolve_symbolic_reference(head) {
            Some(h) => {
                let ghost shown = h;
                let read = self.get_branch_name_for_reference(h);
                assert(read is Some ==> name_of_reference(&shown) == Some(read->0@));
                assert(read is Some ==> name_as_read(read->0@));
                read
            },
            None => None,
        };
        assert(read is Some ==> name_as_read(read->0@));
        let name_found = read.is_some();
        let name = name_or_empty(read);
        assert(name_as_read(name@));
        if !head_found {
            self.note(String::from_str("Can't get HEAD"));
        } else if !name_found {
            self.note(String::from_str("No branch name found"));
        }
        self.note(message_about("Current branch name = ", name.as_str()));
        let current_branch_name = Some(name);
        self.cache.set_current_branch_name(copy_text(&current_branch_name));
        current_branch_name
    }

    /// The remote-tracking branch that the branch `reference` follows.
    /// Its names are those that the full name of that branch holds.
    fn get_branch_remote(&self, reference: Reference) -> (pair: Option<RefPair>)
        ensures
            pair is Some ==> names_a_remote_branch(pair->0.remote_name@, pair->0.branch_name@),
    {
        let b = git::branch_wrap(reference);
        let upstream = match git::branch_upstream(&b) {
            Ok(u) => u,
            Err(_) => {
                return None;
            },
        };
        let upstream_reference = git::branch_into_reference(upstream);
        let oid = match git::reference_target(&upstream_reference) {
            Some(o) => o,
            None => {
                return None;
            },
        };
        match git::reference_name(&upstream_reference) {
            Some(n) => match remote_of_reference(n.as_str()) {
                Some((remote_name, branch_name)) => {
                    assert(remote_and_branch_of(n@) == Some((remote_name@, branch_name@)));
                    Some(RefPair { remote_name: remote_name, branch_name: branch_name, oid: oid })
                },
                None => None,
            },
            None => None,
        }
    }

    /// The remote-tracking branch that the current branch follows.
    /// Its names are those that the full name of that branch holds.
    fn get_current_branch_remote_oid(&self) -> (pair: Option<RefPair>)
        ensures
            pair is Some ==> names_a_remote_branch(pair->0.remote_name@, pair->0.branch_name@),
    {
        match self.get_head() {
            Some(r) => self.get_branch_remote(r),
            None => None,
        }
    }

    /// The branch of a remote to compare with: the one that `remote_branch`
    /// names, or else the one that the current branch follows. `None` where
    /// the repository has no such branch.
    fn get_remote_branch(&self, remote_branch: Option<RemoteBranch>) -> (pair: Option<RefPair>)
        ensures
            (pair is Some && remote_branch is Some) ==> {
                &&& pair->0.branch_name == remote_branch->0.remote_branch_name
                &&& pair->0.remote_name == remote_branch->0.remote_name
            },
            (pair is Some && remote_branch is None) ==> names_a_remote_branch(
                pair->0.remote_name@,
                pair->0.branch_name@,
            ),
    {
        match remote_branch {
            Some(b) => match git::find_remote_branch(&self.repo, b.remote_branch.as_str()) {
                Ok(o) => {
                    let reference = git::branch_into_reference(o);
                    match git::reference_target(&reference) {
                        Some(oid) => Some(
                            RefPair {
                                branch_name: b.remote_branch_name,
                                remote_name: b.remote_name,
                                oid: oid,
                            },
                        ),
                        None => None,
                    }
                },
                Err(_) => None,
            },
            None => self.get_current_branch_remote_oid(),
        }
    }

    /// How far the current branch is ahead of and behind a branch of a
    /// remote: the one that `remote_branch` names, or else the one that the
    /// current branch follows.
    ///
    /// The result is what `divergence_of` tells for what was read. Where no
    /// such remote branch is found, the result names no remote and both
    /// counts are zero. Where HEAD points to no commit, the result is
    /// `None`. Where the distance cannot be computed, both counts are zero.
    pub fn get_branch_ahead_behind(
        &mut self,
        remote_branch: Option<RemoteBranch>,
    ) -> (stats: Option<BranchAheadBehind>)
        ensures
            exists|remote: Option<(Seq<char>, Seq<char>)>, commit_found: bool, distance: Option<
                (nat, nat),
            >|
                {
                    &&& stats_text(stats) == #[trigger] divergence_of(
                        text_of(final(self).cache.current_branch_name),
                        remote,
                        commit_found,
                        distance,
                    )
                    &&& resolved_as(remote_branch, remote)
                },
            final(self).cache.current_branch_name is Some,
            stats is Some ==> stats->0.local_branch_name == final(self).cache.current_branch_name,
            stats is Some ==> (stats->0.remote_name is Some <==> stats->0.remote_branch_name
                is Some),
            (stats is Some && stats->0.remote_name is None) ==> stats->0.ahead == 0
                && stats->0.behind == 0,
            (stats is Some && stats->0.remote_name is Some && remote_branch is Some) ==> {
                &&& stats->0.remote_name == Some(remote_branch->0.remote_name)
                &&& stats->0.remote_branch_name == Some(remote_branch->0.remote_branch_name)
            },
            old(self).cache.current_branch_name is Some ==> final(self).cache.current_branch_name
                == old(self).cache.current_branch_name,
            final(self).cache.file_statuses == old(self).cache.file_statuses,
            final(self).cache.repository_operation == old(self).cache.repository_operation,
            final(self).cache.stash_count == old(self).cache.stash_count,
            final(self).repo == old(self).repo,
            final(self).debug == old(self).debug,
            log_grown(old(self).debug, old(self).log@, final(self).log@),
    {
        let current_branch_name = self.get_current_branch_name();
        let ghost local = text_of(current_branch_name);
        let ref_pair = match self.get_remote_branch(remote_branch) {
            Some(u) => u,
            None => {
                self.note(String::from_str("No remote branch found"));
                let ab = BranchAheadBehind::new(current_branch_name);
                assert(stats_text(Some(ab)) == divergence_of(local, None, true, None));
                return Some(ab);
            },
        };
        let ghost remote = Some((ref_pair.remote_name@, ref_pair.branch_name@));
        assert(resolved_as(remote_branch, remote));
        let oid = match self.get_current_branch_oid() {
            Some(r) => r,
            None => {
                self.note(String::from_str("Failed to find Oid for HEAD."));
                assert(stats_text(None) == divergence_of(local, remote, false, None));
                return None;
            },
        };
        let distance = match git::graph_ahead_behind(&self.repo, oid, ref_pair.oid) {
            Ok(d) => Some(d),
            Err(_) => None,
        };
        if distance.is_none() {
            self.note(
                message_about(
                    "Can't get ahead & behind stats for branch ",
                    ref_pair.branch_name.as_str(),
                ),
            );
        }
        let ab = BranchAheadBehind::compared(
            current_branch_name,
            ref_pair.remote_name,
            ref_pair.branch_name,
            distance,
        );
        assert(stats_text(Some(ab)) == divergence_of(
            local,
            remote,
            true,
            match distance {
                Some(d) => Some((d.0 as nat, d.1 as nat)),
                None => None,
            },
        ));
        Some(ab)
    }

    /// The status of the index and the working tree, untracked files
    /// included, read in one scan; `None` where it cannot be read.
    pub fn get_status(&self) -> (statuses: Option<Statuses<'_>>)
        ensures
            full_scan(statuses),
    {
        match git::repository_statuses(&self.repo, StatusScope::IndexAndWorkdir, true) {
            Ok(s) => Some(s),
            Err(_) => None,
        }
    }

    /// What the repository is in the middle of. It is read once: a later
    /// call gives what the first one found.
    pub fn get_repository_operation(&mut self) -> (operation: OperationState)
        ensures
            final(self).cache.repository_operation == Some(operation),
            old(self).cache.repository_operation is Some ==> old(self).cache.repository_operation
                == Some(operation),
            final(self).cache.current_branch_name == old(self).cache.current_branch_name,
            final(self).cache.file_statuses == old(self).cache.file_statuses,
            final(self).cache.stash_count == old(self).cache.stash_count,
            final(self).repo == old(self).repo,
            final(self).debug == old(self).debug,
            log_grown(old(self).debug, old(self).log@, final(self).log@),
    {
        match self.cache.repository_operation {
            Some(operation) => operation,
            None => {
                let operation = OperationState::from_git(git::repository_state(&self.repo));
                self.cache.repository_operation = Some(operation);
                operation
            },
        }
    }

    /// The word for what the repository is in the middle of; empty for a
    /// clean repository.
    pub fn get_repository_state(&mut self) -> (word: String)
        ensures
            final(self).cache.repository_operation is Some,
            word@ == final(self).cache.repository_operation->0.label_text(),
            old(self).cache.repository_operation is Some ==> final(self).cache.repository_operation
                == old(self).cache.repository_operation,
            final(self).cache.current_branch_name == old(self).cache.current_branch_name,
            final(self).cache.file_statuses == old(self).cache.file_statuses,
            final(self).cache.stash_count == old(self).cache.stash_count,
            final(self).repo == old(self).repo,
            final(self).debug == old(self).debug,
            log_grown(old(self).debug, old(self).log@, final(self).log@),
    {
        String::from_str(self.get_repository_operation().label())
    }

    /// Whether the status of the repository could be read, and the counts
    /// that `count_scan` gives for it.
    fn scan_counts(&self) -> (outcome: (bool, FileCounts))
        ensures
            !outcome.0 ==> outcome.1 == no_counts(),
            counts_of_full_scan(outcome.1),
    {
        let scan = self.get_status();
        let counts = count_scan(&scan);
        assert(full_scan(scan) && counts_of_scan(scan, counts));
        (scan.is_some(), counts)
    }

    /// The number of changed paths in each bucket, as `count_scan` gives it
    /// for the status of the repository: all zero where the status cannot
    /// be read. The result is never `None`. The status is read once: a
    /// later call gives what the first one found.
    pub fn get_file_status(&mut self) -> (counts: Option<FileCounts>)
        ensures
            counts is Some,
            final(self).cache.file_statuses == counts,
            old(self).cache.file_statuses is Some ==> counts == old(self).cache.file_statuses,
            old(self).cache.file_statuses is None ==> counts_of_full_scan(counts->0),
            final(self).cache.current_branch_name == old(self).cache.current_branch_name,
            final(self).cache.repository_operation == old(self).cache.repository_operation,
            final(self).cache.stash_count == old(self).cache.stash_count,
            final(self).repo == old(self).repo,
            final(self).debug == old(self).debug,
            log_grown(old(self).debug, old(self).log@, final(self).log@),
    {
        if self.cache.is_file_statuses_set() {
            return self.cache.get_file_statuses();
        }
        let (readable, d) = self.scan_counts();
        if !readable {
            self.note(String::from_str("Unable to get status of repository"));
        }
        self.cache.set_file_statuses(Some(d));
        Some(d)
    }

    /// The number of stashed states, which is the number of entries of the
    /// log of `refs/stash`; zero where that log cannot be read, and the
    /// largest number that fits where there are more. It is read once: a
    /// later call gives what the first one found.
    pub fn get_stash_count(&mut self) -> (count: u16)
        ensures
            final(self).cache.stash_count == Some(count),
            old(self).cache.stash_count is Some ==> old(self).cache.stash_count == Some(count),
            final(self).cache.current_branch_name == old(self).cache.current_branch_name,
            final(self).cache.file_statuses == old(self).cache.file_statuses,
            final(self).cache.repository_operation == old(self).cache.repository_operation,
            final(self).repo == old(self).repo,
            final(self).debug == old(self).debug,
            log_grown(old(self).debug, old(self).log@, final(self).log@),
    {
        match self.cache.stash_count {
            Some(count) => count,
            None => {
                let entries = match git::repository_reflog(&self.repo, "refs/stash") {
                    Ok(log) => Some(git::reflog_len(&log)),
                    Err(_) => None,
                };
                let count = stash_count_of(entries);
                if entries.is_some() {
                    let number = number_text(count as usize);
                    self.note(message_about("Stash entries: ", number.as_str()));
                } else {
                    self.note(String::from_str("There was an error while checking stash"));
                }
                self.cache.stash_count = Some(count);
                count
            },
        }
    }
}

/// The number of stashed states, given the number of entries of the log of
/// the stash: that number where it fits, zero where the log could not be
/// read.
pub fn stash_count_of(entries: Option<usize>) -> (count: u16)
    ensures
        count == match entries {
            Some(n) => saturated(n),
            None => 0,
        },
{
    match entries {
        Some(n) => saturate(n),
        None => 0,
    }
}

/// `n` where it fits, else the largest number that does.
pub open spec fn saturated(n: usize) -> u16 {
    if n > u16::MAX {
        u16::MAX
    } else {
        n as u16
    }
}

/// Narrows a count, stopping at the largest number that fits.
pub fn saturate(n: usize) -> (narrow: u16)
    ensures
        narrow == saturated(n),
{
    if n > 65535 {
        65535
    } else {
        n as u16
    }
}

} // verus!
