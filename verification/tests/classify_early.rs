use git_release::commit::Commit;
use git_release::commit::Reference;
use git_release::repository::commit_from_git;

fn repo_init() -> (tempfile::TempDir, git2::Repository) {
    let td = tempfile::TempDir::new().unwrap();
    let mut opts = git2::RepositoryInitOptions::new();
    opts.initial_head("master");
    let repo = git2::Repository::init_opts(td.path(), &opts).unwrap();
    {
        let mut config = repo.config().unwrap();
        config.set_str("user.name", "name").unwrap();
        config.set_str("user.email", "email").unwrap();
        let mut index = repo.index().unwrap();
        let id = index.write_tree().unwrap();
        let tree = repo.find_tree(id).unwrap();
        let sig = repo.signature().unwrap();
        repo.commit(Some("HEAD"), &sig, &sig, "initial\n\nbody", &tree, &[])
            .unwrap();
    }
    (td, repo)
}

fn add_commit(repo: &git2::Repository, filename: &str, msg: &str) -> git2::Oid {
    let mut index = repo.index().unwrap();
    let entry = git2::IndexEntry {
        ctime: git2::IndexTime::new(0, 0),
        mtime: git2::IndexTime::new(0, 0),
        dev: 0,
        ino: 0,
        mode: 0o100644,
        uid: 0,
        gid: 0,
        file_size: 0,
        id: git2::Oid::zero(),
        flags: 0,
        flags_extended: 0,
        path: filename.as_bytes().to_vec(),
    };
    index.add_frombuffer(&entry, b"contents").unwrap();
    let tree_id = index.write_tree().unwrap();
    let tree = repo.find_tree(tree_id).unwrap();
    let sig = repo.signature().unwrap();
    let head_id = repo.refname_to_id("HEAD").unwrap();
    let parent = repo.find_commit(head_id).unwrap();
    repo.commit(Some("HEAD"), &sig, &sig, msg, &tree, &[&parent])
        .unwrap()
}

fn classify(msg: &str) -> Commit {
    let (_td, repo) = repo_init();
    let oid = add_commit(&repo, "filename", msg);
    let c = repo.find_commit(oid).unwrap();
    commit_from_git(&c)
}

#[test]
fn commit_tests_message_is_one_line() {
    let title = "this is a title";
    let body = format!("{title}\n\nThis is the body");
    let commit = classify(&body);
    let res = commit.title().expect("no title");
    assert_eq!(title, res);
}

#[test]
fn commit_tests_no_verbs() {
    let tcs = vec![
        "nothing is here",
        "(and): so this one",
        "title\n\nignore: this",
    ];
    for body in tcs {
        let commit = classify(body);
        assert_eq!("Misc", commit.verb().name(), "{body}");
    }
}

#[test]
fn commit_tests_verb_with_no_section() {
    let tcs = vec![
        ("feat", "Feature"),
        ("feature", "Feature"),
        ("fix", "Fix"),
        ("fixed", "Fix"),
        ("fixes", "Fix"),
        ("ref", "Refactor"),
        ("refactor", "Refactor"),
        ("refactored", "Refactor"),
        ("chore", "Chore"),
        ("enhance", "Enhancements"),
        ("enhanced", "Enhancements"),
        ("enhancement", "Enhancements"),
        ("enhancements", "Enhancements"),
        ("improve", "Enhancements"),
        ("improved", "Enhancements"),
        ("improves", "Enhancements"),
        ("improvement", "Enhancements"),
        ("improvements", "Enhancements"),
        ("style", "Style"),
        ("ci", "CI"),
        ("CI", "CI"),
        ("doc", "Documentation"),
        ("docs", "Documentation"),
    ];
    for tc in tcs {
        let body = format!("{} something", tc.0);
        let commit = classify(&body);
        assert_eq!(tc.1, commit.verb().name(), "{}", tc.0);
    }
}

#[test]
fn commit_tests_verb_with_section() {
    let tcs = vec![
        "(repo) something",
        "(s3) something",
        "(repo): something",
        "(repo,server) something",
        "(s3,server) something",
        "(server,s3) something",
        "(repo, server) something",
        "(s3, server) something",
        "(server, s3) something",
        "(repo.exec): something",
        "(s3.exec): something",
        "(exec.s3): something",
        "(repo-exec): something",
        "(s3-exec): something",
        "(exec-s3): something",
        "(repo_exec): something",
        "(s3_exec): something",
        "(repo exec): something",
        "(s3 exec): something",
        "(repo/exec): something",
        "(s3/exec): something",
        "(exec/s3): something",
    ];
    for tc in tcs {
        let body = format!("feat{tc}");
        let commit = classify(&body);
        assert_eq!("Feature", commit.verb().name());
    }
}

#[test]
fn commit_tests_no_references() {
    let tcs = vec![
        "feat(commit): this is a title",
        "feat(commit): 123 this is a title",
        "feat(commit): #,123 this is a title",
        "feat(commit): # 123 this is a title",
        "feat(commit): #-123 this is a title",
        "feat(commit): #a123 this is a title",
    ];
    for body in tcs {
        let commit = classify(body);
        assert_eq!(Vec::<Reference>::new(), commit.references(), "{body}");
    }
}

#[test]
fn commit_tests_in_summary() {
    let body = "feat(commit): this links to #123\n\nSomething is here";
    let commit = classify(body);
    assert_eq!(vec![Reference(123)], commit.references(), "{body}");
}

#[test]
fn commit_tests_in_start_of_line() {
    let body = "feat:something 23\n\n#123: is the ref";
    let commit = classify(body);
    assert_eq!(vec![Reference(123)], commit.references(), "{body}");
}

#[test]
fn commit_tests_at_the_end_of_line() {
    let body = "feat:something 23\n\nRef #123";
    let commit = classify(body);
    assert_eq!(vec![Reference(123)], commit.references());
}

#[test]
fn commit_tests_multiple_refs_in_line() {
    let body = "feat:something 23\n\nRef #123, Close #456";
    let commit = classify(body);
    assert_eq!(vec![Reference(123), Reference(456)], commit.references());
}
