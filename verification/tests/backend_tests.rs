use pretty_git_prompt::backend::{
    choose_branch_name, copy_text, count_scan, count_statuses, message_about, name_or_empty,
    remote_of_reference, saturate, short_name, stash_count_of, BranchAheadBehind, Cache, FileBucket,
    FileCounts, OperationState,
};
use pretty_git_prompt::constants::{
    default_config_path_components, CHANGED_KEY, CLI_DEFAULT_CONFIG_SUBC_NAME, CONFLICTS_KEY,
    CURRENT_CONFIG_VERSION, DEFAULT_CONFIG_NAME, NEW_KEY, STAGED_KEY,
};
use pretty_git_prompt::git::{GitState, PathStatus};

fn clear() -> PathStatus {
    PathStatus {
        index_new: false,
        index_modified: false,
        index_deleted: false,
        index_renamed: false,
        index_typechange: false,
        wt_new: false,
        wt_modified: false,
        wt_deleted: false,
        wt_typechange: false,
        wt_renamed: false,
        conflicted: false,
    }
}

#[test]
fn detached_head_is_named_by_seven_characters() {
    assert_eq!(
        choose_branch_name(Some("HEAD"), None, Some("abcdef1234")),
        Some(String::from("abcdef1"))
    );
    assert_eq!(choose_branch_name(None, None, Some("abcdef1234")), Some(String::from("abcdef1")));
    assert_eq!(choose_branch_name(None, None, Some("abc")), Some(String::from("abc")));
    assert_eq!(
        choose_branch_name(None, Some("refs/heads/x"), Some("0123456789abcdef")),
        Some(String::from("0123456"))
    );
}

#[test]
fn branch_is_named_by_its_short_name() {
    assert_eq!(
        choose_branch_name(Some("master"), None, Some("abcdef1234")),
        Some(String::from("master"))
    );
    assert_eq!(
        choose_branch_name(Some("feature/x"), Some("refs/heads/other"), None),
        Some(String::from("feature/x"))
    );
}

#[test]
fn symbolic_head_is_named_by_the_last_part_of_its_target() {
    assert_eq!(
        choose_branch_name(Some("HEAD"), Some("refs/heads/master"), None),
        Some(String::from("master"))
    );
    assert_eq!(
        choose_branch_name(Some("HEAD"), Some("refs/heads/feature/x"), Some("abcdef1234")),
        Some(String::from("feature/x"))
    );
    assert_eq!(
        choose_branch_name(Some("HEAD"), Some("refs/tags/v1"), None),
        Some(String::from("v1"))
    );
}

#[test]
fn short_name_follows_refs_heads() {
    assert_eq!(short_name("refs/heads/master"), "master");
    assert_eq!(short_name("refs/heads/feature/x"), "feature/x");
    assert_eq!(short_name("refs/heads/"), "");
    assert_eq!(short_name("refs/remotes/origin/master"), "master");
    assert_eq!(short_name("refs/heads"), "heads");
    assert_eq!(short_name("master"), "master");
    assert_eq!(short_name(""), "");
}

#[test]
fn reference_without_anything_has_no_name() {
    assert_eq!(choose_branch_name(None, None, None), None);
    assert_eq!(choose_branch_name(Some("HEAD"), None, None), None);
    assert_eq!(choose_branch_name(None, Some("refs/heads/master"), None), None);
}

#[test]
fn remote_reference_holds_remote_and_branch() {
    assert_eq!(
        remote_of_reference("refs/remotes/origin/master"),
        Some((String::from("origin"), String::from("master")))
    );
    assert_eq!(
        remote_of_reference("refs/remotes/upstream/feature/x"),
        Some((String::from("upstream"), String::from("feature/x")))
    );
    assert_eq!(remote_of_reference("refs/remotes/origin"), None);
    assert_eq!(remote_of_reference("refs/tags/origin/master"), None);
    assert_eq!(remote_of_reference("heads/refs/master"), None);
    assert_eq!(remote_of_reference("refs/heads"), None);
    assert_eq!(remote_of_reference("master"), None);
    assert_eq!(remote_of_reference(""), None);
}

#[test]
fn branch_of_the_repository_itself_has_a_dot_for_its_remote() {
    assert_eq!(
        remote_of_reference("refs/heads/master"),
        Some((String::from("."), String::from("master")))
    );
    assert_eq!(
        remote_of_reference("refs/heads/feature/x"),
        Some((String::from("."), String::from("feature/x")))
    );
    assert_eq!(remote_of_reference("refs/heads/"), Some((String::from("."), String::new())));
}

#[test]
fn message_about_joins_its_parts() {
    assert_eq!(message_about("display ", "new"), "display new");
    assert_eq!(message_about("", ""), "");
}

#[test]
fn unread_name_is_empty() {
    assert_eq!(name_or_empty(None), "");
    assert_eq!(name_or_empty(Some(String::from("master"))), "master");
    assert_eq!(name_or_empty(Some(String::new())), "");
}

#[test]
fn unread_status_counts_as_unchanged() {
    assert_eq!(
        count_scan(&None),
        FileCounts { changed: 0, new: 0, staged: 0, conflicts: 0 }
    );
}

#[test]
fn stash_count_of_the_log() {
    assert_eq!(stash_count_of(None), 0);
    assert_eq!(stash_count_of(Some(0)), 0);
    assert_eq!(stash_count_of(Some(3)), 3);
    assert_eq!(stash_count_of(Some(65535)), 65535);
    assert_eq!(stash_count_of(Some(70000)), 65535);
}

#[test]
fn git_states_map_to_operations() {
    assert_eq!(OperationState::from_git(GitState::Clean), OperationState::Clean);
    assert_eq!(OperationState::from_git(GitState::Merge), OperationState::Merge);
    assert_eq!(OperationState::from_git(GitState::Revert), OperationState::Revert);
    assert_eq!(OperationState::from_git(GitState::RevertSequence), OperationState::Revert);
    assert_eq!(OperationState::from_git(GitState::CherryPick), OperationState::CherryPick);
    assert_eq!(OperationState::from_git(GitState::CherryPickSequence), OperationState::CherryPick);
    assert_eq!(OperationState::from_git(GitState::Bisect), OperationState::Bisect);
    assert_eq!(OperationState::from_git(GitState::Rebase), OperationState::Rebase);
    assert_eq!(OperationState::from_git(GitState::RebaseInteractive), OperationState::Rebase);
    assert_eq!(OperationState::from_git(GitState::RebaseMerge), OperationState::Rebase);
    assert_eq!(OperationState::from_git(GitState::ApplyMailbox), OperationState::ApplyMailbox);
    assert_eq!(
        OperationState::from_git(GitState::ApplyMailboxOrRebase),
        OperationState::ApplyMailbox
    );
}

#[test]
fn operation_labels() {
    assert_eq!(OperationState::Clean.label(), "");
    assert_eq!(OperationState::Merge.label(), "merge");
    assert_eq!(OperationState::Revert.label(), "revert");
    assert_eq!(OperationState::CherryPick.label(), "cherry-pick");
    assert_eq!(OperationState::Bisect.label(), "bisect");
    assert_eq!(OperationState::Rebase.label(), "rebase");
    assert_eq!(OperationState::ApplyMailbox.label(), "apply");
}

#[test]
fn buckets_take_their_flags() {
    let status = PathStatus { wt_new: true, ..clear() };
    assert!(FileBucket::New.takes(&status));
    assert!(!FileBucket::Changed.takes(&status));
    assert!(!FileBucket::Staged.takes(&status));
    assert!(!FileBucket::Conflicts.takes(&status));
    for status in [
        PathStatus { wt_modified: true, ..clear() },
        PathStatus { wt_deleted: true, ..clear() },
        PathStatus { wt_typechange: true, ..clear() },
        PathStatus { wt_renamed: true, ..clear() },
    ] {
        assert!(FileBucket::Changed.takes(&status));
        assert!(!FileBucket::New.takes(&status));
        assert!(!FileBucket::Staged.takes(&status));
    }
    for status in [
        PathStatus { index_new: true, ..clear() },
        PathStatus { index_modified: true, ..clear() },
        PathStatus { index_deleted: true, ..clear() },
        PathStatus { index_renamed: true, ..clear() },
        PathStatus { index_typechange: true, ..clear() },
    ] {
        assert!(FileBucket::Staged.takes(&status));
        assert!(!FileBucket::Changed.takes(&status));
    }
    let status = PathStatus { conflicted: true, ..clear() };
    assert!(FileBucket::Conflicts.takes(&status));
    assert!(!FileBucket::Staged.takes(&status));
    assert!(!FileBucket::New.takes(&clear()));
}

#[test]
fn statuses_are_counted_per_bucket() {
    assert_eq!(
        count_statuses(&vec![]),
        FileCounts { changed: 0, new: 0, staged: 0, conflicts: 0 }
    );
    let statuses = vec![
        PathStatus { wt_new: true, ..clear() },
        PathStatus { wt_new: true, ..clear() },
        PathStatus { index_modified: true, ..clear() },
        PathStatus { index_new: true, wt_modified: true, ..clear() },
        PathStatus { conflicted: true, ..clear() },
        clear(),
    ];
    let counts = count_statuses(&statuses);
    assert_eq!(counts, FileCounts { changed: 1, new: 2, staged: 2, conflicts: 1 });
    assert_eq!(counts.get(FileBucket::Changed), 1);
    assert_eq!(counts.get(FileBucket::New), 2);
    assert_eq!(counts.get(FileBucket::Staged), 2);
    assert_eq!(counts.get(FileBucket::Conflicts), 1);
}

#[test]
fn stash_count_stops_at_the_largest_number() {
    assert_eq!(saturate(0), 0);
    assert_eq!(saturate(17), 17);
    assert_eq!(saturate(65535), 65535);
    assert_eq!(saturate(65536), 65535);
    assert_eq!(saturate(usize::MAX), 65535);
}

#[test]
fn new_cache_and_statistics_are_empty() {
    let cache = Cache::new();
    assert!(cache.current_branch_name.is_none());
    assert!(cache.file_statuses.is_none());
    assert!(cache.repository_operation.is_none());
    assert!(cache.stash_count.is_none());
    let stats = BranchAheadBehind::new(Some(String::from("master")));
    assert_eq!(stats.local_branch_name, Some(String::from("master")));
    assert_eq!(stats.remote_branch_name, None);
    assert_eq!(stats.remote_name, None);
    assert_eq!(stats.ahead, 0);
    assert_eq!(stats.behind, 0);
    let copy = stats.clone();
    assert_eq!(copy.local_branch_name, Some(String::from("master")));
    assert_eq!(copy_text(&Some(String::from("x"))), Some(String::from("x")));
    assert_eq!(copy_text(&None), None);
}

#[test]
fn compared_statistics_hold_names_and_distance() {
    let stats = BranchAheadBehind::compared(
        Some(String::from("master")),
        String::from("origin"),
        String::from("main"),
        Some((3, 1)),
    );
    assert_eq!(stats.local_branch_name, Some(String::from("master")));
    assert_eq!(stats.remote_name, Some(String::from("origin")));
    assert_eq!(stats.remote_branch_name, Some(String::from("main")));
    assert_eq!((stats.ahead, stats.behind), (3, 1));
    let stats = BranchAheadBehind::compared(None, String::from("o"), String::from("b"), None);
    assert_eq!(stats.local_branch_name, None);
    assert_eq!(stats.remote_name, Some(String::from("o")));
    assert_eq!(stats.remote_branch_name, Some(String::from("b")));
    assert_eq!((stats.ahead, stats.behind), (0, 0));
}

#[test]
fn default_config_path_follows_the_environment() {
    assert_eq!(
        default_config_path_components(Some(String::from("/x/cfg")), Some(String::from("/home/u"))),
        vec![String::from("/x/cfg"), String::from("pretty-git-prompt.yml")]
    );
    assert_eq!(
        default_config_path_components(None, Some(String::from("/home/u"))),
        vec![
            String::from("/home/u"),
            String::from(".config"),
            String::from("pretty-git-prompt.yml"),
        ]
    );
    assert_eq!(
        default_config_path_components(None, None),
        vec![String::from("/tmp"), String::from("pretty-git-prompt.yml")]
    );
}

#[test]
fn constants_have_their_values() {
    assert_eq!(CHANGED_KEY, "changed");
    assert_eq!(NEW_KEY, "new");
    assert_eq!(STAGED_KEY, "staged");
    assert_eq!(CONFLICTS_KEY, "conflicts");
    assert_eq!(CURRENT_CONFIG_VERSION, "1");
    assert_eq!(DEFAULT_CONFIG_NAME, "pretty-git-prompt.yml");
    assert_eq!(CLI_DEFAULT_CONFIG_SUBC_NAME, "create-default-config");
}
