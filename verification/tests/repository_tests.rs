use git2::build::CheckoutBuilder;
use git2::{Oid, Repository, RepositoryInitOptions, Signature};
use pretty_git_prompt::backend::{Backend, FileCounts, OperationState, RemoteBranch};
use pretty_git_prompt::conf::{get_configuration, Conf};
use pretty_git_prompt::error::ConfigError;
use pretty_git_prompt::models::{
    DisplayMaster, RemoteValue, RemoteValueKind, SimpleValue, ValueDescriptor, ValueKind,
};
use pretty_git_prompt::node::parse_document;
use std::path::Path;
use tempdir::TempDir;

fn signature() -> Signature<'static> {
    Signature::now("Git \"Pretty\" Prompter", "pretty-git-prompt@example.com").unwrap()
}

fn init(branch: &str) -> (TempDir, Repository) {
    let dir = TempDir::new("p-g-p").unwrap();
    let mut options = RepositoryInitOptions::new();
    options.initial_head(branch);
    let repo = Repository::init_opts(dir.path(), &options).unwrap();
    (dir, repo)
}

fn tree_of(repo: &Repository, files: &[(&str, &str)]) -> Oid {
    let mut builder = repo.treebuilder(None).unwrap();
    for (name, content) in files {
        let blob = repo.blob(content.as_bytes()).unwrap();
        builder.insert(name, blob, 0o100644).unwrap();
    }
    builder.write().unwrap()
}

fn commit(repo: &Repository, files: &[(&str, &str)], message: &str) -> Oid {
    let tree = repo.find_tree(tree_of(repo, files)).unwrap();
    let parents = match repo.head() {
        Ok(head) => vec![head.peel_to_commit().unwrap()],
        Err(_) => vec![],
    };
    let parents: Vec<&git2::Commit> = parents.iter().collect();
    let sig = signature();
    let id = repo.commit(Some("HEAD"), &sig, &sig, message, &tree, &parents).unwrap();
    let mut options = CheckoutBuilder::new();
    options.force();
    repo.checkout_head(Some(&mut options)).unwrap();
    id
}

fn check_out(repo: &Repository, files: &[(&str, &str)], untracked: &[&str]) {
    let tree = repo.find_object(tree_of(repo, files), None).unwrap();
    let mut options = CheckoutBuilder::new();
    options.force();
    repo.checkout_tree(&tree, Some(&mut options)).unwrap();
    let mut index = repo.index().unwrap();
    for name in untracked {
        index.remove_path(Path::new(name)).unwrap();
    }
    index.write().unwrap();
}

fn follow_origin(repo: &Repository, branch: &str, at: Oid) {
    repo.remote("origin", "https://example.com/origin.git").unwrap();
    repo.reference(&format!("refs/remotes/origin/{}", branch), at, true, "origin").unwrap();
    let mut local = repo.find_branch(branch, git2::BranchType::Local).unwrap();
    local.set_upstream(Some(&format!("origin/{}", branch))).unwrap();
}

fn simple(value_type: &str, pre: &str, post: &str) -> SimpleValue {
    SimpleValue {
        value_type: String::from(value_type),
        pre_format: String::from(pre),
        post_format: String::from(post),
    }
}

fn descriptor(kind: ValueKind, pre: &str, post: &str) -> ValueDescriptor {
    ValueDescriptor {
        kind,
        value: simple("", pre, post),
        children: vec![],
        remote_branch: None,
        display_if_uptodate: false,
    }
}

fn remote_descriptor(remote_branch: Option<&str>, display_if_uptodate: bool) -> ValueDescriptor {
    ValueDescriptor {
        kind: ValueKind::RemoteDifference,
        value: simple("remote_difference", "", ""),
        children: vec![
            RemoteValue {
                kind: RemoteValueKind::Name,
                value: simple("name", "<LOCAL_BRANCH>@<REMOTE>/<REMOTE_BRANCH>", ""),
            },
            RemoteValue { kind: RemoteValueKind::Ahead, value: simple("ahead", "↑", "") },
            RemoteValue { kind: RemoteValueKind::Behind, value: simple("behind", "↓", "") },
        ],
        remote_branch: remote_branch.map(|name| {
            let (remote, branch) = name.split_once('/').unwrap();
            RemoteBranch {
                remote_branch: String::from(name),
                remote_branch_name: String::from(branch),
                remote_name: String::from(remote),
            }
        }),
        display_if_uptodate,
    }
}

const SCENARIO: &str = "version: '1'
values:
  - type: repository_state
    pre_format: ''
    post_format: ''
  - type: separator
    display: surrounded
    pre_format: '|'
    post_format: ''
  - type: remote_difference
    display_if_uptodate: true
    pre_format: ''
    post_format: ''
    values:
      - type: name
        pre_format: '<LOCAL_BRANCH>'
        post_format: ''
      - type: ahead
        pre_format: '↑'
        post_format: ''
      - type: behind
        pre_format: '↓'
        post_format: ''
  - type: separator
    display: surrounded
    pre_format: '|'
    post_format: ''
  - type: new
    pre_format: '✚'
    post_format: ''
  - type: changed
    pre_format: 'Δ'
    post_format: ''
  - type: staged
    pre_format: '▶'
    post_format: ''
  - type: conflicts
    pre_format: '✖'
    post_format: ''
";

#[test]
fn test_values_is_present() {
    let config_text = "version: '1'
values: []";
    let (_dir, repo) = init("master");
    commit(&repo, &[], "init");
    let backend = Backend::new(repo, true);
    let dm: DisplayMaster = DisplayMaster::new(backend, true);
    let mut conf = Conf::new(parse_document(config_text).unwrap(), dm).unwrap();
    assert!(conf.values.is_empty());
    assert_eq!(conf.populate_values(), "");
}

#[test]
fn empty_config_lacks_a_version() {
    let (_dir, repo) = init("master");
    let dm = DisplayMaster::new(Backend::new(repo, true), true);
    let error = Conf::new(parse_document("{}").unwrap(), dm).err().unwrap();
    assert_eq!(error, ConfigError::MissingVersion);
    assert_eq!(error.message(), "'version' is missing in config file.");
}

#[test]
fn lower_version_is_refused() {
    let (_dir, repo) = init("master");
    let dm = DisplayMaster::new(Backend::new(repo, true), true);
    let error = Conf::new(parse_document("version: '0'").unwrap(), dm).err().unwrap();
    assert_eq!(error, ConfigError::UnsupportedVersion { found: String::from("0") });
    assert_eq!(error.message(), "Config should be using version '1', instead is using '0'");
}

#[test]
fn config_without_values_is_refused() {
    let (_dir, repo) = init("master");
    let dm = DisplayMaster::new(Backend::new(repo, false), false);
    let error = Conf::new(parse_document("version: '1'").unwrap(), dm).err().unwrap();
    assert_eq!(error, ConfigError::MissingValues);
    let (_dir, repo) = init("master");
    let dm = DisplayMaster::new(Backend::new(repo, false), false);
    let error = Conf::new(parse_document("version: '1'\nvalues: 3").unwrap(), dm).err().unwrap();
    assert_eq!(error, ConfigError::ValuesNotList);
}

#[test]
fn fault_in_a_later_value_stops_the_whole_configuration() {
    let (_dir, repo) = init("master");
    let dm = DisplayMaster::new(Backend::new(repo, false), false);
    let text = "version: '1'
values:
  - type: staged
    pre_format: ''
    post_format: ''
  - type: new
    post_format: ''
  - type: weather
";
    let error = Conf::new(parse_document(text).unwrap(), dm).err().unwrap();
    assert_eq!(
        error,
        ConfigError::MissingField {
            field: pretty_git_prompt::error::Field::PreFormat,
            declaration: String::from("new"),
        }
    );
}

#[test]
fn default_configuration_is_read_where_the_user_has_none() {
    let (_dir, repo) = init("master");
    commit(&repo, &[], "init");
    let dm = DisplayMaster::new(Backend::new(repo, true), true);
    let mut conf = get_configuration(None, dm).unwrap();
    assert_eq!(conf.values.len(), 11);
    assert_eq!(conf.populate_values(), "");
}

#[test]
fn configuration_is_read_from_the_given_text() {
    let (_dir, repo) = init("master");
    let dm = DisplayMaster::new(Backend::new(repo, true), true);
    let conf = get_configuration(Some(String::from(SCENARIO)), dm).unwrap();
    assert_eq!(conf.values.len(), 8);
    let (_dir, repo) = init("master");
    let dm = DisplayMaster::new(Backend::new(repo, true), true);
    assert_eq!(get_configuration(Some(String::from("a: [")), dm).err(), Some(ConfigError::Syntax));
    let (_dir, repo) = init("master");
    let dm = DisplayMaster::new(Backend::new(repo, true), true);
    assert_eq!(get_configuration(Some(String::new()), dm).err(), Some(ConfigError::NoDocument));
}

#[test]
fn branch_name_of_a_fresh_repository() {
    let (_dir, repo) = init("master");
    commit(&repo, &[], "init");
    let mut backend = Backend::new(repo, false);
    assert_eq!(backend.get_current_branch_name(), Some(String::from("master")));
    assert_eq!(backend.cache.current_branch_name, Some(String::from("master")));
    assert_eq!(backend.get_current_branch_name(), Some(String::from("master")));
}

#[test]
fn branch_name_before_the_first_commit() {
    let (_dir, repo) = init("trunk");
    let mut backend = Backend::new(repo, false);
    assert_eq!(backend.get_current_branch_name(), Some(String::from("trunk")));
}

#[test]
fn branch_with_a_slash_before_the_first_commit() {
    let (_dir, repo) = init("feature/x");
    let mut backend = Backend::new(repo, false);
    assert_eq!(backend.get_current_branch_name(), Some(String::from("feature/x")));
}

#[test]
fn branch_with_a_slash_after_a_commit() {
    let (_dir, repo) = init("feature/x");
    commit(&repo, &[], "init");
    let mut backend = Backend::new(repo, false);
    assert_eq!(backend.get_current_branch_name(), Some(String::from("feature/x")));
}

#[test]
fn branch_name_is_read_once() {
    let (_dir, repo) = init("master");
    commit(&repo, &[], "init");
    let mut backend = Backend::new(repo, false);
    assert_eq!(backend.get_current_branch_name(), Some(String::from("master")));
    backend.repo.set_head("refs/heads/other").unwrap();
    assert_eq!(backend.get_current_branch_name(), Some(String::from("master")));
}

#[test]
fn detached_head_is_named_by_its_commit() {
    let (_dir, repo) = init("master");
    let id = commit(&repo, &[], "init");
    repo.set_head_detached(id).unwrap();
    let hex = id.to_string();
    let mut backend = Backend::new(repo, false);
    let name = backend.get_current_branch_name().unwrap();
    assert_eq!(name.len(), 7);
    assert_eq!(name, &hex[..7]);
    let stats = backend.get_branch_ahead_behind(None).unwrap();
    assert_eq!(stats.local_branch_name, Some(name));
    assert_eq!(stats.remote_name, None);
    let mut dm = DisplayMaster::new(backend, false);
    assert_eq!(dm.display_value(&remote_descriptor(None, true)), None);
}

#[test]
fn clean_repository_has_no_state_word() {
    let (_dir, repo) = init("master");
    commit(&repo, &[], "init");
    let mut backend = Backend::new(repo, false);
    assert_eq!(backend.get_repository_operation(), OperationState::Clean);
    assert_eq!(backend.get_repository_state(), "");
    assert_eq!(backend.cache.repository_operation, Some(OperationState::Clean));
    let mut dm = DisplayMaster::new(backend, false);
    assert_eq!(dm.display_value(&descriptor(ValueKind::RepositoryState, "(", ")")), None);
}

#[test]
fn merge_in_progress_is_shown() {
    let (_dir, repo) = init("master");
    let base = commit(&repo, &[("a.txt", "a")], "init");
    commit(&repo, &[("a.txt", "a"), ("b.txt", "b")], "ours");
    let base_commit = repo.find_commit(base).unwrap();
    let tree = repo.find_tree(tree_of(&repo, &[("a.txt", "a"), ("c.txt", "c")])).unwrap();
    let sig = signature();
    let theirs = repo.commit(None, &sig, &sig, "theirs", &tree, &[&base_commit]).unwrap();
    let annotated = repo.find_annotated_commit(theirs).unwrap();
    repo.merge(&[&annotated], None, None).unwrap();
    drop(annotated);
    drop(tree);
    drop(base_commit);
    let mut backend = Backend::new(repo, false);
    assert_eq!(backend.get_repository_state(), "merge");
    let mut dm = DisplayMaster::new(backend, false);
    assert_eq!(
        dm.display_value(&descriptor(ValueKind::RepositoryState, "(", ")")),
        Some(String::from("(merge)"))
    );
}

#[test]
fn file_statuses_are_counted() {
    let (_dir, repo) = init("master");
    commit(&repo, &[("c.txt", "c")], "init");
    check_out(
        &repo,
        &[("a.txt", "a"), ("b.txt", "b"), ("c.txt", "changed")],
        &["a.txt", "b.txt"],
    );
    let mut backend = Backend::new(repo, false);
    assert!(backend.get_status().is_some());
    let counts = backend.get_file_status();
    assert_eq!(counts, Some(FileCounts { changed: 0, new: 2, staged: 1, conflicts: 0 }));
    assert_eq!(backend.cache.file_statuses, counts);
    let mut dm = DisplayMaster::new(backend, false);
    assert_eq!(dm.display_value(&descriptor(ValueKind::New, "✚", "")), Some(String::from("✚2")));
    assert_eq!(dm.display_value(&descriptor(ValueKind::Staged, "▶", "")), Some(String::from("▶1")));
    assert_eq!(dm.display_value(&descriptor(ValueKind::Changed, "Δ", "")), None);
    assert_eq!(dm.display_value(&descriptor(ValueKind::Conflicts, "✖", "")), None);
    assert_eq!(dm.display_value(&descriptor(ValueKind::Separator, "<", ">")), Some(String::from("<>")));
}

#[test]
fn clean_working_tree_has_zero_counts() {
    let (_dir, repo) = init("master");
    commit(&repo, &[("c.txt", "c")], "init");
    let mut backend = Backend::new(repo, false);
    assert_eq!(
        backend.get_file_status(),
        Some(FileCounts { changed: 0, new: 0, staged: 0, conflicts: 0 })
    );
}

#[test]
fn stash_is_counted() {
    let (_dir, mut repo) = init("master");
    commit(&repo, &[("c.txt", "c")], "init");
    let mut backend = Backend::new(repo, false);
    assert_eq!(backend.get_stash_count(), 0);
    repo = backend.repo;
    check_out(&repo, &[("c.txt", "changed")], &[]);
    repo.stash_save(&signature(), "first", None).unwrap();
    check_out(&repo, &[("c.txt", "changed again")], &[]);
    repo.stash_save(&signature(), "second", None).unwrap();
    let mut backend = Backend::new(repo, false);
    assert_eq!(backend.get_stash_count(), 2);
    assert_eq!(backend.cache.stash_count, Some(2));
    let mut dm = DisplayMaster::new(backend, false);
    assert_eq!(dm.display_value(&descriptor(ValueKind::Stash, "☐", "")), Some(String::from("☐2")));
}

#[test]
fn branch_without_upstream_names_no_remote() {
    let (_dir, repo) = init("master");
    commit(&repo, &[], "init");
    let mut backend = Backend::new(repo, false);
    let stats = backend.get_branch_ahead_behind(None).unwrap();
    assert_eq!(stats.local_branch_name, Some(String::from("master")));
    assert_eq!(stats.remote_name, None);
    assert_eq!(stats.remote_branch_name, None);
    assert_eq!((stats.ahead, stats.behind), (0, 0));
    let mut dm = DisplayMaster::new(backend, false);
    assert_eq!(dm.display_value(&remote_descriptor(None, true)), None);
}

#[test]
fn branch_ahead_of_its_upstream() {
    let (_dir, repo) = init("master");
    let first = commit(&repo, &[], "init");
    follow_origin(&repo, "master", first);
    commit(&repo, &[("a.txt", "1")], "one");
    commit(&repo, &[("a.txt", "2")], "two");
    commit(&repo, &[("a.txt", "3")], "three");
    let mut backend = Backend::new(repo, false);
    let stats = backend.get_branch_ahead_behind(None).unwrap();
    assert_eq!(stats.local_branch_name, Some(String::from("master")));
    assert_eq!(stats.remote_name, Some(String::from("origin")));
    assert_eq!(stats.remote_branch_name, Some(String::from("master")));
    assert_eq!((stats.ahead, stats.behind), (3, 0));
    let mut dm = DisplayMaster::new(backend, false);
    assert_eq!(
        dm.display_value(&remote_descriptor(None, false)),
        Some(String::from("master@origin/master↑3"))
    );
}

#[test]
fn branch_behind_a_named_remote_branch() {
    let (_dir, repo) = init("master");
    let first = commit(&repo, &[], "init");
    let second = commit(&repo, &[("a.txt", "1")], "one");
    repo.reference("refs/remotes/upstream/dev", second, true, "upstream").unwrap();
    repo.reference("refs/heads/master", first, true, "back").unwrap();
    let mut backend = Backend::new(repo, false);
    let named = remote_descriptor(Some("upstream/dev"), false);
    let stats = backend.get_branch_ahead_behind(named.remote_branch.clone()).unwrap();
    assert_eq!(stats.remote_name, Some(String::from("upstream")));
    assert_eq!(stats.remote_branch_name, Some(String::from("dev")));
    assert_eq!((stats.ahead, stats.behind), (0, 1));
    let mut dm = DisplayMaster::new(backend, false);
    assert_eq!(dm.display_value(&named), Some(String::from("master@upstream/dev↓1")));
    assert_eq!(dm.display_value(&remote_descriptor(Some("upstream/none"), true)), None);
}

#[test]
fn branch_that_follows_a_branch_of_the_repository_itself() {
    let (_dir, repo) = init("master");
    let first = commit(&repo, &[], "init");
    repo.reference("refs/heads/base", first, true, "base").unwrap();
    commit(&repo, &[("a.txt", "1")], "one");
    commit(&repo, &[("a.txt", "2")], "two");
    let mut local = repo.find_branch("master", git2::BranchType::Local).unwrap();
    local.set_upstream(Some("base")).unwrap();
    drop(local);
    let mut backend = Backend::new(repo, false);
    let stats = backend.get_branch_ahead_behind(None).unwrap();
    assert_eq!(stats.remote_name, Some(String::from(".")));
    assert_eq!(stats.remote_branch_name, Some(String::from("base")));
    assert_eq!((stats.ahead, stats.behind), (2, 0));
    let mut dm = DisplayMaster::new(backend, false);
    assert_eq!(
        dm.display_value(&remote_descriptor(None, false)),
        Some(String::from("master@./base↑2"))
    );
}

#[test]
fn uptodate_branch_is_shown_on_request_only() {
    let (_dir, repo) = init("master");
    let first = commit(&repo, &[], "init");
    follow_origin(&repo, "master", first);
    let mut dm = DisplayMaster::new(Backend::new(repo, false), false);
    assert_eq!(dm.display_value(&remote_descriptor(None, false)), None);
    assert_eq!(
        dm.display_value(&remote_descriptor(None, true)),
        Some(String::from("master@origin/master"))
    );
}

#[test]
fn diagnostics_are_collected_on_request_only() {
    let (_dir, repo) = init("master");
    commit(&repo, &[("c.txt", "c")], "init");
    let dm = DisplayMaster::new(Backend::new(repo, false), false);
    let mut quiet = get_configuration(Some(String::from(SCENARIO)), dm).unwrap();
    let shown = quiet.populate_values();
    assert!(quiet.display_master.backend.log.is_empty());

    let (_dir, repo) = init("master");
    commit(&repo, &[("c.txt", "c")], "init");
    let dm = DisplayMaster::new(Backend::new(repo, true), true);
    let mut loud = get_configuration(Some(String::from(SCENARIO)), dm).unwrap();
    assert_eq!(loud.populate_values(), shown);
    let log = &loud.display_master.backend.log;
    assert_eq!(
        log,
        &vec![
            String::from("display repository_state"),
            String::from("display remote_difference"),
            String::from("Current branch name = master"),
            String::from("No remote branch found"),
            String::from("display new"),
            String::from("display changed"),
            String::from("display staged"),
            String::from("display conflicts"),
        ]
    );
}

#[test]
fn diagnostics_of_the_stash() {
    let (_dir, repo) = init("master");
    commit(&repo, &[("c.txt", "c")], "init");
    let mut backend = Backend::new(repo, true);
    assert_eq!(backend.get_stash_count(), 0);
    assert_eq!(backend.log, vec![String::from("Stash entries: 0")]);
    backend.note(String::from("more"));
    assert_eq!(backend.log.len(), 2);
    assert_eq!(backend.get_stash_count(), 0);
    assert_eq!(backend.log.len(), 2);
}

#[test]
fn scenario_through_a_repository() {
    let (_dir, repo) = init("branchname");
    let first = commit(&repo, &[("c.txt", "c")], "init");
    follow_origin(&repo, "branchname", first);
    commit(&repo, &[("c.txt", "c"), ("d.txt", "1")], "one");
    commit(&repo, &[("c.txt", "c"), ("d.txt", "2")], "two");
    commit(&repo, &[("c.txt", "c"), ("d.txt", "3")], "three");
    check_out(
        &repo,
        &[("a.txt", "a"), ("b.txt", "b"), ("c.txt", "changed"), ("d.txt", "3")],
        &["a.txt", "b.txt"],
    );
    let dm = DisplayMaster::new(Backend::new(repo, false), false);
    let mut conf = get_configuration(Some(String::from(SCENARIO)), dm).unwrap();
    assert_eq!(conf.populate_values(), "branchname↑3|✚2▶1");
    let pieces = conf.render_pieces();
    assert_eq!(pieces.len(), 8);
}

#[test]
fn separators_through_a_repository() {
    let (_dir, repo) = init("master");
    commit(&repo, &[("c.txt", "c")], "init");
    check_out(&repo, &[("a.txt", "a"), ("c.txt", "c")], &["a.txt"]);
    let dm = DisplayMaster::new(Backend::new(repo, false), false);
    let mut conf = get_configuration(Some(String::from(SCENARIO)), dm).unwrap();
    assert_eq!(conf.populate_values(), "✚1");
}
