use git_release::args::Command;
use git_release::args::Opt;
use git_release::args::Tag;
use git_release::commit::Commit;
use git_release::commit::Reference;
use git_release::commit::Verb;
use git_release::release::Release;

fn plain(summary: &str, body: Option<&str>) -> Commit {
    Commit::new(
        "0000000000000000000000000000000000000000".to_string(),
        Some(summary.to_string()),
        body.map(|b| b.to_string()),
    )
}

#[test]
fn render_single_feature_with_reference() {
    let commit = plain(
        "feat(repo): the title",
        Some("The body.\n\nThe footer. Ref #123"),
    );
    let release = Release::new(vec![commit]);
    let want = "### Feature\n\n- **repo:** The title (ref #123)";
    assert_eq!(want, release.render().unwrap());
}

#[test]
fn render_no_commits_is_empty() {
    let release = Release::new(vec![]);
    assert_eq!("", release.render().unwrap());
}

#[test]
fn render_keeps_every_commit_once() {
    let commits = vec![
        plain("feat: one", None),
        plain("fix: two", None),
        plain("three", None),
        plain("feat: four", None),
        plain("docs: five", None),
    ];
    let release = Release::new(commits);
    let groups = release.get_verb_groups();
    let total: usize = groups.iter().map(|g| g.1.len()).sum();
    assert_eq!(5, total);
    for (v, cs) in &groups {
        for c in cs {
            assert_eq!(*v, c.verb());
        }
    }
}

#[test]
fn uppercase_expansion_grows_title() {
    let commit = plain("\u{df}eta release notes", None);
    assert_eq!("SSeta release notes", commit.display().unwrap());
}

#[test]
fn issue_ref_has_pound_sign() {
    assert_eq!("#123", Reference(123).issue_ref());
    assert_eq!("#0", Reference(0).issue_ref());
    assert_eq!("#65535", Reference(65535).issue_ref());
}

#[test]
fn reference_too_large_is_dropped_but_stripped() {
    let commit = plain("title ref #70000", None);
    assert_eq!(Vec::<Reference>::new(), commit.references());
    assert_eq!("title", commit.title().unwrap());
}

#[test]
fn largest_reference_is_kept() {
    let commit = plain("title ref #65535", None);
    assert_eq!(vec![Reference(65535)], commit.references());
}

#[test]
fn no_summary_classifies_as_misc() {
    let commit = Commit::new("id".to_string(), None, Some("body".to_string()));
    assert_eq!(Verb::Misc, commit.verb());
    assert!(commit.title().is_none());
    assert!(commit.subjects().is_none());
    assert!(commit.display().is_none());
}

#[test]
fn breaking_needs_marker_on_last_line() {
    let c = plain("feat: a", Some("BREAKING CHANGE: early\nlater line"));
    assert!(!c.is_breaking());
    let c = plain("feat: a", Some("early line\nBREAKING CHANGE: late"));
    assert!(c.is_breaking());
}

#[test]
fn tag_default_is_unset() {
    assert!(matches!(Tag::default(), Tag::Unset));
}

#[test]
fn opt_without_tag_argument() {
    let opt = Opt::new(
        None,
        Some(Command::Publish),
        "origin".to_string(),
        false,
        "token".to_string(),
        false,
    );
    assert!(matches!(opt.tags, Tag::Unset));
    assert_eq!("origin", opt.remote);
}

#[test]
fn opt_single_tag() {
    let opt = Opt::new(
        Some("v0.1.0".to_string()),
        None,
        "origin".to_string(),
        false,
        String::new(),
        false,
    );
    match &opt.tags {
        Tag::Single(t) => assert_eq!("v0.1.0", t),
        other => panic!("expected a single tag, got {other:?}"),
    }
}

#[test]
fn opt_open_range() {
    let opt = Opt::new(
        Some("v0.1.0..".to_string()),
        None,
        "origin".to_string(),
        false,
        String::new(),
        false,
    );
    match &opt.tags {
        Tag::From(t) => assert_eq!("v0.1.0", t),
        other => panic!("expected an open range, got {other:?}"),
    }
}

#[test]
fn opt_full_range() {
    let opt = Opt::new(
        Some("v0.1.0..v0.5.0".to_string()),
        None,
        "origin".to_string(),
        false,
        String::new(),
        false,
    );
    match &opt.tags {
        Tag::Range(a, b) => {
            assert_eq!("v0.1.0", a);
            assert_eq!("v0.5.0", b);
        },
        other => panic!("expected a full range, got {other:?}"),
    }
}

#[test]
fn opt_range_with_extra_separator() {
    let opt = Opt::new(
        Some("a..b..c".to_string()),
        None,
        "origin".to_string(),
        false,
        String::new(),
        false,
    );
    match &opt.tags {
        Tag::Range(a, b) => {
            assert_eq!("a", a);
            assert_eq!("b", b);
        },
        other => panic!("expected a full range, got {other:?}"),
    }
}

#[test]
fn empty_scope_group_yields_no_subjects() {
    let commit = plain("ref(): something", None);
    assert!(commit.subjects().is_none());
}

#[test]
fn scope_whitespace_is_trimmed() {
    let commit = plain("feat(  a , b ,c  ): text", None);
    assert_eq!(commit.subjects().unwrap(), vec!["a", "b", "c"]);
}

#[test]
fn misc_group_renders_plain_title() {
    let release = Release::new(vec![plain("nothing is here", None)]);
    let want = "### Misc\n\n- Nothing is here";
    assert_eq!(want, release.render().unwrap());
}
