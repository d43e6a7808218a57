use git_release::errors::GRError;
use git_release::repository::Repository;

fn repo_init() -> (tempfile::TempDir, git2::Repository) {
    let td = tempfile::TempDir::new().unwrap();
    let mut opts = git2::RepositoryInitOptions::new();
    opts.initial_head("master");
    let repo = git2::Repository::init_opts(td.path(), &opts).unwrap();
    {
        let mut config = repo.config().unwrap();
        config.set_str("user.name", "name").unwrap();
        config.set_str("user.email", "email").unwrap();
        let mut index = repo.index().unwrap();
        let id = index.write_tree().unwrap();
        let tree = repo.find_tree(id).unwrap();
        let sig = repo.signature().unwrap();
        repo.commit(Some("HEAD"), &sig, &sig, "initial\n\nbody", &tree, &[])
            .unwrap();
    }
    (td, repo)
}

fn add_commit(repo: &git2::Repository, filename: &str, msg: Option<&str>) -> git2::Oid {
    let mut index = repo.index().unwrap();
    let entry = git2::IndexEntry {
        ctime: git2::IndexTime::new(0, 0),
        mtime: git2::IndexTime::new(0, 0),
        dev: 0,
        ino: 0,
        mode: 0o100644,
        uid: 0,
        gid: 0,
        file_size: 0,
        id: git2::Oid::zero(),
        flags: 0,
        flags_extended: 0,
        path: filename.as_bytes().to_vec(),
    };
    index.add_frombuffer(&entry, b"contents").unwrap();
    let tree_id = index.write_tree().unwrap();
    let tree = repo.find_tree(tree_id).unwrap();
    let sig = repo.signature().unwrap();
    let head_id = repo.refname_to_id("HEAD").unwrap();
    let parent = repo.find_commit(head_id).unwrap();
    let msg = msg.unwrap_or("some commit");
    repo.commit(Some("HEAD"), &sig, &sig, msg, &tree, &[&parent])
        .unwrap()
}

fn commit_tag(repo: &git2::Repository, filename: &str, tag: &str) -> (git2::Oid, git2::Oid) {
    let commit = add_commit(repo, filename, None);
    let obj = repo.find_object(commit, None).unwrap();
    let sig = repo.signature().unwrap();
    let tag = repo.tag(tag, &obj, &sig, "msg", false).unwrap();
    (commit, tag)
}

fn commit_lightweight_tag(
    repo: &git2::Repository,
    filename: &str,
    tag: &str,
) -> (git2::Oid, git2::Oid) {
    let commit = add_commit(repo, filename, None);
    let obj = repo.find_object(commit, None).unwrap();
    let tag = repo.tag_lightweight(tag, &obj, false).unwrap();
    (commit, tag)
}

fn open_ws(dir: &tempfile::TempDir) -> Repository {
    Repository::new(dir.path().to_str().unwrap()).unwrap()
}

#[test]
fn repository_test_no_tag_set() {
    let (dir, _) = repo_init();
    let ws = open_ws(&dir);
    assert!(ws.latest_tag().is_err());
}

#[test]
fn repository_test_one_tag() {
    let (dir, repo) = repo_init();
    let commit = add_commit(&repo, "file", None);
    let obj = repo.find_object(commit, None).unwrap();
    let sig = repo.signature().unwrap();
    let tag_name = "v0.6.6.6";
    repo.tag(tag_name, &obj, &sig, "msg", false).unwrap();

    let ws = open_ws(&dir);
    assert_eq!(tag_name, ws.latest_tag().unwrap());
}

#[test]
fn repository_test_two_tags() {
    let (dir, repo) = repo_init();
    commit_tag(&repo, "file", "tag1");
    let tag_name = "tag2";
    commit_tag(&repo, "file", tag_name);

    let ws = open_ws(&dir);
    assert_eq!(tag_name, ws.latest_tag().unwrap());
}

#[test]
fn repository_test_validate_tag_signed_not_valid() {
    let (dir, repo) = repo_init();
    commit_tag(&repo, "file", "tag");

    let ws = open_ws(&dir);
    assert!(ws.validate_tag("not_exists").is_err());
}

#[test]
fn repository_test_validate_tag_signed_valid() {
    let (dir, repo) = repo_init();
    let (_, oid) = commit_tag(&repo, "file", "tag");

    let ws = open_ws(&dir);
    let got = ws.validate_tag("tag").unwrap();
    assert_eq!(oid.to_string(), got);
}

#[test]
fn repository_test_validate_tag_lightweight_not_valid() {
    let (dir, repo) = repo_init();
    commit_lightweight_tag(&repo, "file", "tag");

    let ws = open_ws(&dir);
    assert!(ws.validate_tag("not_exists").is_err());
}

#[test]
fn repository_test_validate_tag_lightweight_valid() {
    let (dir, repo) = repo_init();
    let (_, oid) = commit_lightweight_tag(&repo, "file", "tag");

    let ws = open_ws(&dir);
    let got = ws.validate_tag("tag").unwrap();
    assert_eq!(oid.to_string(), got);
}

#[test]
fn repository_test_input_is_not_in_workspace() {
    let (dir, repo) = repo_init();
    commit_tag(&repo, "file", "tag");

    let ws = open_ws(&dir);
    assert!(ws.previous_tag("not_exists").is_err());
}

#[test]
fn repository_test_input_is_the_only_tag() {
    let (dir, repo) = repo_init();
    let root = repo.refname_to_id("HEAD").unwrap();
    let tag_name = "tag1";
    commit_tag(&repo, "file", tag_name);

    let ws = open_ws(&dir);
    let got = ws.previous_tag(tag_name).unwrap();
    assert_eq!(root.to_string(), got);
}

#[test]
fn repository_test_commit_in_the_middle() {
    let (dir, repo) = repo_init();
    add_commit(&repo, "file1", None);

    let tag1 = "tag1";
    commit_tag(&repo, "file2", tag1);

    add_commit(&repo, "file3", None);
    add_commit(&repo, "file4", None);

    let tag2 = "tag2";
    commit_tag(&repo, "file5", tag2);

    add_commit(&repo, "file5", None);
    add_commit(&repo, "file6", None);

    let ws = open_ws(&dir);
    let got = ws.previous_tag(tag2).unwrap();
    assert_eq!(tag1.to_string(), got);
}

#[test]
fn repository_test_from_tag_not_in_repo() {
    let (dir, repo) = repo_init();
    add_commit(&repo, "file1", None);

    let tag = "tag";
    commit_tag(&repo, "file2", tag);

    let ws = open_ws(&dir);
    assert!(ws.commits_between_tags("tag_not_found", tag).is_err());
}

#[test]
fn repository_test_to_tag_not_in_repo() {
    let (dir, repo) = repo_init();
    add_commit(&repo, "file1", None);

    let tag = "tag";
    commit_tag(&repo, "file2", tag);

    let ws = open_ws(&dir);
    assert!(ws.commits_between_tags(tag, "tag_not_found").is_err());
}

#[test]
fn repository_test_from_and_to_point_to_same_commit() {
    let (dir, repo) = repo_init();
    add_commit(&repo, "file1", None);

    let commit = add_commit(&repo, "file2", None);
    let obj = repo.find_object(commit, None).unwrap();
    let sig = repo.signature().unwrap();
    let tag1 = "tag1";
    repo.tag(tag1, &obj, &sig, "msg", false).unwrap();
    let tag2 = "tag2";
    repo.tag(tag2, &obj, &sig, "msg", false).unwrap();

    let ws = open_ws(&dir);
    assert!(ws.commits_between_tags(tag1, tag2).is_err());
}

#[test]
fn repository_test_adjacent_commits() {
    let (dir, repo) = repo_init();
    add_commit(&repo, "file1", None);

    let tag1 = "tag1";
    commit_tag(&repo, "file2", tag1);

    let tag2 = "tag2";
    let (commit2, _) = commit_tag(&repo, "file3", tag2);

    let ws = open_ws(&dir);
    let res: Vec<String> = ws
        .commits_between_tags(tag1, tag2)
        .unwrap()
        .iter()
        .map(|c| c.id.clone())
        .collect();
    assert_eq!(vec![commit2.to_string()], res);
}

#[test]
fn repository_test_multiple_commits() {
    let (dir, repo) = repo_init();
    add_commit(&repo, "file_p1", None);
    add_commit(&repo, "file_p2", None);

    let tag1 = "tag1";
    commit_tag(&repo, "file2", tag1);

    let commit2 = add_commit(&repo, "file3", None);
    let commit3 = add_commit(&repo, "file4", None);

    let tag2 = "tag2";
    let (commit4, _) = commit_tag(&repo, "file5", tag2);

    add_commit(&repo, "file5", None);
    add_commit(&repo, "file6", None);

    let ws = open_ws(&dir);
    let res: Vec<String> = ws
        .commits_between_tags(tag1, tag2)
        .unwrap()
        .iter()
        .map(|c| c.id.clone())
        .collect();
    assert_eq!(
        vec![
            commit2.to_string(),
            commit3.to_string(),
            commit4.to_string()
        ],
        res
    );
}

#[test]
fn repo_name() {
    let (dir, repo) = repo_init();
    repo.remote_set_url("origin", "git@github.com:arsham/shark.git")
        .unwrap();
    let ws = open_ws(&dir);
    let name = ws.repo_name("origin").unwrap();
    assert_eq!("shark", &name);
}

#[test]
fn username() {
    let (dir, repo) = repo_init();
    repo.remote_set_url("origin", "git@github.com:arsham/shark.git")
        .unwrap();
    let ws = open_ws(&dir);
    let name = ws.username("origin").unwrap();
    assert_eq!("arsham", &name);
}

#[test]
fn missing_tags_report_tag_not_found() {
    let (dir, _) = repo_init();
    let ws = open_ws(&dir);
    let err = ws.latest_tag().unwrap_err();
    assert!(matches!(err, GRError::TagNotFound(_)), "{err:?}");
}

#[test]
fn same_commit_reports_twin_tags() {
    let (dir, repo) = repo_init();
    let commit = add_commit(&repo, "file", None);
    let obj = repo.find_object(commit, None).unwrap();
    let sig = repo.signature().unwrap();
    repo.tag("tag1", &obj, &sig, "msg", false).unwrap();
    repo.tag("tag2", &obj, &sig, "msg", false).unwrap();

    let ws = open_ws(&dir);
    let err = ws.commits_between_tags("tag1", "tag2").unwrap_err();
    assert!(matches!(err, GRError::TwinTags), "{err:?}");
}

#[test]
fn unrecognized_url_falls_back_to_raw() {
    let (dir, repo) = repo_init();
    repo.remote_set_url("origin", "https://example.com/elsewhere.git")
        .unwrap();
    let ws = open_ws(&dir);
    assert_eq!(
        "https://example.com/elsewhere.git",
        ws.repo_name("origin").unwrap()
    );
    assert_eq!(
        "https://example.com/elsewhere.git",
        ws.username("origin").unwrap()
    );
}

#[test]
fn only_tag_walks_back_to_the_root_commit() {
    let (dir, repo) = repo_init();
    let root = repo.refname_to_id("HEAD").unwrap();
    add_commit(&repo, "file1", None);
    add_commit(&repo, "file2", None);
    commit_tag(&repo, "file3", "tag1");

    let ws = open_ws(&dir);
    let got = ws.previous_tag("tag1").unwrap();
    assert_eq!(root.to_string(), got);
}
