use git_release::commit::Commit;
use git_release::commit::Verb;
use git_release::release::Release;
use git_release::repository::commit_from_git;

fn repo_init() -> (tempfile::TempDir, git2::Repository) {
    let td = tempfile::TempDir::new().unwrap();
    let mut opts = git2::RepositoryInitOptions::new();
    opts.initial_head("master");
    let repo = git2::Repository::init_opts(td.path(), &opts).unwrap();
    {
        let mut config = repo.config().unwrap();
        config.set_str("user.name", "name").unwrap();
        config.set_str("user.email", "email").unwrap();
        let mut index = repo.index().unwrap();
        let id = index.write_tree().unwrap();
        let tree = repo.find_tree(id).unwrap();
        let sig = repo.signature().unwrap();
        repo.commit(Some("HEAD"), &sig, &sig, "initial\n\nbody", &tree, &[])
            .unwrap();
    }
    (td, repo)
}

fn add_commit(repo: &git2::Repository, filename: &str, msg: &str) -> git2::Oid {
    let mut index = repo.index().unwrap();
    let entry = git2::IndexEntry {
        ctime: git2::IndexTime::new(0, 0),
        mtime: git2::IndexTime::new(0, 0),
        dev: 0,
        ino: 0,
        mode: 0o100644,
        uid: 0,
        gid: 0,
        file_size: 0,
        id: git2::Oid::zero(),
        flags: 0,
        flags_extended: 0,
        path: filename.as_bytes().to_vec(),
    };
    index.add_frombuffer(&entry, b"contents").unwrap();
    let tree_id = index.write_tree().unwrap();
    let tree = repo.find_tree(tree_id).unwrap();
    let sig = repo.signature().unwrap();
    let head_id = repo.refname_to_id("HEAD").unwrap();
    let parent = repo.find_commit(head_id).unwrap();
    repo.commit(Some("HEAD"), &sig, &sig, msg, &tree, &[&parent])
        .unwrap()
}

fn library_commit(repo: &git2::Repository, oid: git2::Oid) -> Commit {
    let c = repo.find_commit(oid).unwrap();
    commit_from_git(&c)
}

#[test]
fn no_commits() {
    let release = Release::new(vec![]);
    assert!(release.get_verb_groups().is_empty());
}

#[test]
fn one_commit() {
    let body = "feat(repo): the title\n\nThe body.\n\nThe footer. Ref #123";
    let (_td, repo) = repo_init();
    let oid = add_commit(&repo, "filename", body);
    let commit = library_commit(&repo, oid);

    let release = Release::new(vec![commit.clone()]);
    let got = release.get_verb_groups();
    let entry = got
        .iter()
        .find(|e| e.0 == Verb::Feature)
        .expect("not found");
    let got_commit = entry.1.first().expect("not found");
    assert_eq!(commit, *got_commit);
}

#[test]
fn multiple_verbs() {
    let (_td, repo) = repo_init();

    let oid = add_commit(&repo, "filename1", "feat(repo): one");
    let commit1 = library_commit(&repo, oid);

    let oid = add_commit(&repo, "filename2", "fix(repo): two");
    let commit2 = library_commit(&repo, oid);

    let oid = add_commit(&repo, "filename3", "feat(repo): three");
    let commit3 = library_commit(&repo, oid);

    let release = Release::new(vec![commit1.clone(), commit2.clone(), commit3.clone()]);
    let want = vec![
        (Verb::Feature, vec![commit1, commit3]),
        (Verb::Fix, vec![commit2]),
    ];
    let got = release.get_verb_groups();
    assert_eq!(want, got);
}

#[test]
fn one_group_one_commit() {
    let body = "Feat(testing): this is a test";
    let (_td, repo) = repo_init();
    let oid = add_commit(&repo, "filename", body);
    let commit = library_commit(&repo, oid);

    let release = Release::new(vec![commit]);
    let want = "### Feature\n\n- **testing:** This is a test";
    assert_eq!(want, release.render().unwrap());
}

#[test]
fn one_group_multi_commit() {
    let (_td, repo) = repo_init();

    let oid = add_commit(&repo, "filename1", "Feat(testing): this is a test");
    let commit1 = library_commit(&repo, oid);

    let oid = add_commit(&repo, "filename2", "Feat(repo): this is another change");
    let commit2 = library_commit(&repo, oid);

    let release = Release::new(vec![commit1, commit2]);
    let want = "### Feature\n\n- **testing:** This is a test\n- **repo:** This is another change";
    assert_eq!(want, release.render().unwrap());
}

#[test]
fn multi_group() {
    let (_td, repo) = repo_init();

    let oid = add_commit(&repo, "filename1", "Feat(testing): this is a test");
    let commit1 = library_commit(&repo, oid);

    let oid = add_commit(&repo, "filename2", "Fix(repo): this is a fix");
    let commit2 = library_commit(&repo, oid);

    let oid = add_commit(&repo, "filename3", "Feat(repo,server): repo and server");
    let commit3 = library_commit(&repo, oid);

    let release = Release::new(vec![commit1, commit2, commit3]);
    let want = vec![
        "### Feature\n\n- **testing:** This is a test\n- **repo, server:** Repo and server",
        "### Fix\n\n- **repo:** This is a fix",
    ];
    let want1 = want.join("\n\n");
    let want2 = want.into_iter().rev().collect::<Vec<&str>>().join("\n\n");
    let got = release.render().unwrap();

    assert!(want1 == got || want2 == got, "unexpected rendering: {got}");
}
