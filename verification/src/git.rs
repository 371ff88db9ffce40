//! The calls into `git2`. Nothing here is proved: each function hands one
//! call on. None promises anything of what the repository answers. A
//! reference or a status scan that was read is a value in memory: what it
//! holds has a name, and the functions that read it say so.

use vstd::prelude::*;
use git2::Branch;
use git2::BranchType;
use git2::Error;
use git2::Oid;
use git2::Reference;
use git2::Reflog;
use git2::Repository;
use git2::RepositoryState;
use git2::Status;
use git2::StatusOptions;
use git2::StatusShow;
use git2::Statuses;

verus! {

#[verifier::external_type_specification]
#[verifier::external_body]
pub struct ExRepository(Repository);

#[verifier::external_type_specification]
#[verifier::external_body]
pub struct ExReference<'repo>(Reference<'repo>);

#[verifier::external_type_specification]
#[verifier::external_body]
pub struct ExBranch<'repo>(Branch<'repo>);

#[verifier::external_type_specification]
#[verifier::external_body]
pub struct ExStatuses<'repo>(Statuses<'repo>);

#[verifier::external_type_specification]
#[verifier::external_body]
pub struct ExStatus(Status);

#[verifier::external_type_specification]
#[verifier::external_body]
pub struct ExOid(Oid);

#[verifier::external_type_specification]
#[verifier::external_body]
pub struct ExError(Error);

#[verifier::external_type_specification]
#[verifier::external_body]
pub struct ExReflog(Reflog);

/// What a repository is in the middle of, as `git2::RepositoryState` has it.
#[derive(Clone, Copy, Debug, PartialEq, Eq, Structural)]
pub enum GitState {
    Clean,
    Merge,
    Revert,
    RevertSequence,
    CherryPick,
    CherryPickSequence,
    Bisect,
    Rebase,
    RebaseInteractive,
    RebaseMerge,
    ApplyMailbox,
    ApplyMailboxOrRebase,
}

/// The flags that `git2::Status` holds for one path, but for "ignored".
#[derive(Clone, Copy, Debug, PartialEq, Eq, Structural)]
pub struct PathStatus {
    pub index_new: bool,
    pub index_modified: bool,
    pub index_deleted: bool,
    pub index_renamed: bool,
    pub index_typechange: bool,
    pub wt_new: bool,
    pub wt_modified: bool,
    pub wt_deleted: bool,
    pub wt_typechange: bool,
    pub wt_renamed: bool,
    pub conflicted: bool,
}

/// What a status scan compares, as `git2::StatusShow` has it.
#[derive(Clone, Copy, Debug, PartialEq, Eq, Structural)]
pub enum StatusScope {
    /// HEAD with the index.
    Index,
    /// The index with the working tree.
    Workdir,
    /// Both.
    IndexAndWorkdir,
}

/// The flags of the paths that a status scan holds, in the order of the
/// scan.
pub uninterp spec fn scan_flags(statuses: &Statuses<'_>) -> Seq<PathStatus>;

/// `Repository::head`: the reference that HEAD resolves to.
#[verifier::external_body]
pub(crate) fn repository_head<'r>(repo: &'r Repository) -> Result<Reference<'r>, Error> {
    repo.head()
}

/// `Repository::find_reference`: the reference of that full name.
#[verifier::external_body]
pub(crate) fn find_reference<'r>(repo: &'r Repository, name: &str) -> Result<Reference<'r>, Error> {
    repo.find_reference(name)
}

/// `Repository::find_branch` with `BranchType::Remote`: the remote-tracking
/// branch of that name.
#[verifier::external_body]
pub(crate) fn find_remote_branch<'r>(
    repo: &'r Repository,
    name: &str,
) -> Result<Branch<'r>, Error> {
    repo.find_branch(name, BranchType::Remote)
}

/// `Repository::graph_ahead_behind`: how many commits `local` has that
/// `upstream` lacks, and how many it lacks.
#[verifier::external_body]
pub(crate) fn graph_ahead_behind(
    repo: &Repository,
    local: Oid,
    upstream: Oid,
) -> Result<(usize, usize), Error> {
    repo.graph_ahead_behind(local, upstream)
}

/// `Repository::state`, variant for variant. `git2` panics there on a state
/// that it does not know; libgit2 reports none but these.
#[verifier::external_body]
pub(crate) fn repository_state(repo: &Repository) -> GitState {
    match repo.state() {
        RepositoryState::Clean => GitState::Clean,
        RepositoryState::Merge => GitState::Merge,
        RepositoryState::Revert => GitState::Revert,
        RepositoryState::RevertSequence => GitState::RevertSequence,
        RepositoryState::CherryPick => GitState::CherryPick,
        RepositoryState::CherryPickSequence => GitState::CherryPickSequence,
        RepositoryState::Bisect => GitState::Bisect,
        RepositoryState::Rebase => GitState::Rebase,
        RepositoryState::RebaseInteractive => GitState::RebaseInteractive,
        RepositoryState::RebaseMerge => GitState::RebaseMerge,
        RepositoryState::ApplyMailbox => GitState::ApplyMailbox,
        RepositoryState::ApplyMailboxOrRebase => GitState::ApplyMailboxOrRebase,
    }
}

/// What a status scan was asked to compare.
pub uninterp spec fn scan_scope(statuses: &Statuses<'_>) -> StatusScope;

/// Whether a status scan was asked to list untracked files.
pub uninterp spec fn scan_untracked(statuses: &Statuses<'_>) -> bool;

/// `Repository::statuses`, with options that say what is compared
/// (`StatusOptions::show`) and whether untracked files are listed
/// (`StatusOptions::include_untracked`). The contract claims that a scan
/// that was made is one of what was asked for: libgit2 keeps the options
/// in the list that it returns.
#[verifier::external_body]
pub(crate) fn repository_statuses<'r>(
    repo: &'r Repository,
    scope: StatusScope,
    include_untracked: bool,
) -> (scan: Result<Statuses<'r>, Error>)
    ensures
        scan matches Ok(s) ==> scan_scope(&s) == scope && scan_untracked(&s) == include_untracked,
{
    let mut options = StatusOptions::new();
    options.show(
        match scope {
            StatusScope::Index => StatusShow::Index,
            StatusScope::Workdir => StatusShow::Workdir,
            StatusScope::IndexAndWorkdir => StatusShow::IndexAndWorkdir,
        },
    );
    options.include_untracked(include_untracked);
    repo.statuses(Some(&mut options))
}

/// `Repository::reflog`: the log of the reference of that name; an empty
/// log where the reference has none.
#[verifier::external_body]
pub(crate) fn repository_reflog(repo: &Repository, name: &str) -> Result<Reflog, Error> {
    repo.reflog(name)
}

/// `Reflog::len`: the number of entries of the log.
#[verifier::external_body]
pub(crate) fn reflog_len(reflog: &Reflog) -> usize {
    reflog.len()
}

/// `Statuses::len`: the number of entries. The contract claims that this
/// is the length of `scan_flags`.
#[verifier::external_body]
pub(crate) fn statuses_len(statuses: &Statuses<'_>) -> (n: usize)
    ensures
        n == scan_flags(statuses).len(),
{
    statuses.len()
}

/// `Statuses::get` and `StatusEntry::status`: the flags of the entry at
/// `index`, which `git2` gives for every index below the length and for no
/// other. The contract claims that these are `scan_flags` at `index`.
#[verifier::external_body]
pub(crate) fn statuses_flags_at(
    statuses: &Statuses<'_>,
    index: usize,
) -> (flags: Option<PathStatus>)
    ensures
        index < scan_flags(statuses).len() ==> flags == Some(scan_flags(statuses)[index as int]),
        index >= scan_flags(statuses).len() ==> flags is None,
{
    statuses.get(index).map(|entry| path_status(entry.status()))
}

/// The flags of a `git2::Status`, each read by the method that `git2` has
/// for it. Nothing is claimed of the result.
#[verifier::external_body]
pub(crate) fn path_status(status: Status) -> PathStatus {
    PathStatus {
        index_new: status.is_index_new(),
        index_modified: status.is_index_modified(),
        index_deleted: status.is_index_deleted(),
        index_renamed: status.is_index_renamed(),
        index_typechange: status.is_index_typechange(),
        wt_new: status.is_wt_new(),
        wt_modified: status.is_wt_modified(),
        wt_deleted: status.is_wt_deleted(),
        wt_typechange: status.is_wt_typechange(),
        wt_renamed: status.is_wt_renamed(),
        conflicted: status.is_conflicted(),
    }
}

/// The object that a reference points to, where it is a direct one.
pub uninterp spec fn target_of(reference: &Reference<'_>) -> Option<Oid>;

/// The short name of a reference, where it is UTF-8.
pub uninterp spec fn shorthand_of(reference: &Reference<'_>) -> Option<Seq<char>>;

/// The full name that a reference points to, where it is a symbolic one
/// and that name is UTF-8.
pub uninterp spec fn symbolic_target_of(reference: &Reference<'_>) -> Option<Seq<char>>;

/// The full name of a reference, where it is UTF-8.
pub uninterp spec fn full_name_of(reference: &Reference<'_>) -> Option<Seq<char>>;

/// The hexadecimal text of an object id.
pub uninterp spec fn oid_hex(oid: Oid) -> Seq<char>;

/// `Reference::target`: the object that a direct reference points to. The
/// contract claims only that the answer is a function of what the
/// reference holds: it is `target_of`.
#[verifier::external_body]
pub(crate) fn reference_target(reference: &Reference<'_>) -> (target: Option<Oid>)
    ensures
        target == target_of(reference),
{
    reference.target()
}

/// `Reference::resolve`: the direct reference that a symbolic one leads to.
#[verifier::external_body]
pub(crate) fn reference_resolve<'r>(reference: &Reference<'r>) -> Result<Reference<'r>, Error> {
    reference.resolve()
}

/// `Reference::shorthand`: the short name, where it is UTF-8. The contract
/// claims only that the answer is `shorthand_of`.
#[verifier::external_body]
pub(crate) fn reference_shorthand(reference: &Reference<'_>) -> (name: Option<String>)
    ensures
        match name {
            Some(n) => shorthand_of(reference) == Some(n@),
            None => shorthand_of(reference) is None,
        },
{
    reference.shorthand().map(String::from)
}

/// `Reference::symbolic_target`: the full name that a symbolic reference
/// points to. The contract claims only that the answer is
/// `symbolic_target_of`.
#[verifier::external_body]
pub(crate) fn reference_symbolic_target(reference: &Reference<'_>) -> (name: Option<String>)
    ensures
        match name {
            Some(n) => symbolic_target_of(reference) == Some(n@),
            None => symbolic_target_of(reference) is None,
        },
{
    reference.symbolic_target().map(String::from)
}

/// `Reference::name`: the full name, where it is UTF-8. The contract claims
/// only that the answer is `full_name_of`.
#[verifier::external_body]
pub(crate) fn reference_name(reference: &Reference<'_>) -> (name: Option<String>)
    ensures
        match name {
            Some(n) => full_name_of(reference) == Some(n@),
            None => full_name_of(reference) is None,
        },
{
    reference.name().map(String::from)
}

/// The hexadecimal text of an object id, as its `Display` writes it. The
/// contract claims only that the text is `oid_hex` of the id.
#[verifier::external_body]
pub(crate) fn oid_text(oid: Oid) -> (text: String)
    ensures
        text@ == oid_hex(oid),
{
    oid.to_string()
}

/// `Branch::wrap`: the reference, seen as a branch.
#[verifier::external_body]
pub(crate) fn branch_wrap<'r>(reference: Reference<'r>) -> Branch<'r> {
    Branch::wrap(reference)
}

/// `Branch::upstream`: the remote-tracking branch that a local branch
/// follows.
#[verifier::external_body]
pub(crate) fn branch_upstream<'r>(branch: &Branch<'r>) -> Result<Branch<'r>, Error> {
    branch.upstream()
}

/// `Branch::into_reference`: the reference that the branch is.
#[verifier::external_body]
pub(crate) fn branch_into_reference<'r>(branch: Branch<'r>) -> Reference<'r> {
    branch.into_reference()
}

} // verus!
