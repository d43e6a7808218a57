//! The repository adapter: tags, reference resolution and range walks.
//!
//! The backend calls stand behind small trusted wrappers; everything
//! decided on their results — picking the latest tag, scanning for a
//! predecessor, refusing a range whose endpoints coincide, reading owner
//! and project out of a remote URL — is verified.

use vstd::prelude::*;

use git2::Commit as GitCommit;
use git2::Repository as GitRepository;

use crate::commit::Commit;
use crate::errors::GRError;
use crate::remote::parse_remote_url;
use crate::remote::url_match;
use crate::text::chars_of;
use crate::text::eq_lit;
use crate::text::string_from_chars;

verus! {

/// Declares the backend repository handle; nothing is assumed about it.
#[verifier::external_type_specification]
#[verifier::external_body]
pub struct ExGitRepository(GitRepository);

/// Declares the backend commit handle; nothing is assumed about it.
#[verifier::external_type_specification]
#[verifier::external_body]
pub struct ExGitCommit<'a>(GitCommit<'a>);

/// Relies on `git2::Repository::open`: opens the repository at `path`.
#[verifier::external_body]
fn git_open(path: &str) -> Result<GitRepository, git2::Error> {
    git2::Repository::open(path)
}

/// Relies on `git2::Repository::tag_names`: lists all tag names in the
/// order the backend reports them; a name that is not valid UTF-8 is
/// reported as `None`.
#[verifier::external_body]
fn git_tag_names(repo: &GitRepository) -> Result<Vec<Option<String>>, git2::Error> {
    let tags = repo.tag_names(None)?;
    Ok(tags.iter().map(|t| t.ok().flatten().map(str::to_string)).collect())
}

/// Relies on `git2::Repository::revparse` and `git2::Revspec::from`:
/// resolves a revision expression and yields the identifier of its `from`
/// object as a hex string, `None` when the expression has no `from` side.
#[verifier::external_body]
fn git_revparse_from_id(repo: &GitRepository, expr: &str) -> Result<
    Option<String>,
    git2::Error,
> {
    let rev = repo.revparse(expr)?;
    Ok(rev.from().map(|o| o.id().to_string()))
}

/// Relies on `git2::Repository::head`, `git2::Reference::peel_to_commit`
/// and `git2::Repository::revwalk` with reverse sorting: the identifier
/// of the oldest commit reachable from the current branch head — the
/// repository's root commit.
#[verifier::external_body]
fn git_root_commit_id(repo: &GitRepository) -> Result<String, git2::Error> {
    let head = repo.head()?.peel_to_commit()?;
    let mut walk = repo.revwalk()?;
    walk.push(head.id())?;
    walk.set_sorting(git2::Sort::REVERSE)?;
    match walk.next() {
        Some(oid) => Ok(oid?.to_string()),
        None => Ok(head.id().to_string()),
    }
}

/// Relies on `git2::Repository::revparse_single`, `git2::Object::id` and
/// `git2::Object::peel_to_commit`: the identifier of the object a
/// revision expression names, and of the commit that object peels to.
#[verifier::external_body]
fn git_revparse_object_ids(repo: &GitRepository, expr: &str) -> Result<
    (String, String),
    git2::Error,
> {
    let obj = repo.revparse_single(expr)?;
    let commit = obj.peel_to_commit()?;
    Ok((obj.id().to_string(), commit.id().to_string()))
}

/// Relies on `git2::Repository::revwalk` with `push_range` and reverse
/// sorting, and `git2::Repository::find_commit`: the commits after `from`
/// up to and including `to`, oldest first, each as its identifier,
/// summary and body; entries that cannot be read are skipped.
#[verifier::external_body]
fn git_walk_range(repo: &GitRepository, from: &str, to: &str) -> Result<
    Vec<(String, Option<String>, Option<String>)>,
    git2::Error,
> {
    let mut walk = repo.revwalk()?;
    walk.push_range(&format!("{from}..{to}"))?;
    walk.set_sorting(git2::Sort::REVERSE)?;
    let mut out = Vec::new();
    for oid in walk.filter_map(Result::ok) {
        if let Ok(c) = repo.find_commit(oid) {
            let summary = c.summary().ok().flatten().map(str::to_string);
            let body = c.body().ok().flatten().map(str::to_string);
            out.push((c.id().to_string(), summary, body));
        }
    }
    Ok(out)
}

/// Relies on `git2::Repository::find_remote` and `git2::Remote::url`: the
/// URL of the named remote, `None` when it is not valid UTF-8.
#[verifier::external_body]
fn git_remote_url(repo: &GitRepository, name: &str) -> Result<Option<String>, git2::Error> {
    let remote = repo.find_remote(name)?;
    Ok(remote.url().ok().map(str::to_string))
}

/// Relies on `git2::Commit::id`, `git2::Commit::summary` and
/// `git2::Commit::body`: the plain fields of a commit object; a text that
/// is missing or not valid UTF-8 comes out as `None`.
#[verifier::external_body]
pub fn commit_from_git(c: &GitCommit<'_>) -> Commit {
    Commit {
        id: c.id().to_string(),
        summary: c.summary().ok().flatten().map(str::to_string),
        body: c.body().ok().flatten().map(str::to_string),
    }
}

/// The last entry of a reported tag list; the error when the list is
/// empty or its last name is unreadable.
pub fn latest_of(tags: &Vec<Option<String>>) -> (r: Result<String, GRError>)
    ensures
        match r {
            Ok(t) => tags@.len() > 0 && (tags@.last() matches Some(x) && t@ == x@),
            Err(e) => (tags@.len() == 0 || tags@.last() is None) && (
            e matches GRError::TagNotFound(m) && m@ == "latest"@),
        },
{
    if tags.len() == 0 {
        return Err(GRError::TagNotFound(String::from_str("latest")));
    }
    match &tags[tags.len() - 1] {
        Some(t) => Ok(t.clone()),
        None => Err(GRError::TagNotFound(String::from_str("latest"))),
    }
}

/// The last index before `e` whose entry is readable and names `cur`, or
/// `-1` when there is none.
pub open spec fn last_match(tags: Seq<Option<String>>, cur: Seq<char>, e: int) -> int
    decreases e,
{
    if e <= 0 || e > tags.len() {
        -1
    } else if tags[e - 1] matches Some(x) && x@ == cur {
        e - 1
    } else {
        last_match(tags, cur, e - 1)
    }
}

/// The entry just before the last occurrence of `cur` in the list, when
/// that occurrence exists, is not first, and the entry before it is
/// readable.
pub open spec fn prev_of(tags: Seq<Option<String>>, cur: Seq<char>) -> Option<Seq<char>> {
    let j = last_match(tags, cur, tags.len() as int);
    if j >= 1 {
        match tags[j - 1] {
            Some(x) => Some(x@),
            None => None,
        }
    } else {
        None
    }
}

/// Whether the entry is readable and names `cur`.
fn opt_names(o: &Option<String>, cur: &str) -> (r: bool)
    ensures
        r == (o matches Some(x) && x@ == cur@),
{
    match o {
        Some(x) => {
            let xv = chars_of(x.as_str());
            eq_lit(&xv, cur)
        },
        None => false,
    }
}

/// Scans the reported tag list backwards for the entry just before the
/// last occurrence of `current`.
pub fn previous_in_list(tags: &Vec<Option<String>>, current: &str) -> (r: Option<String>)
    ensures
        match r {
            Some(t) => prev_of(tags@, current@) matches Some(x) && t@ == x,
            None => prev_of(tags@, current@) is None,
        },
{
    let mut e = tags.len();
    while e > 0 && !opt_names(&tags[e - 1], current)
        invariant
            e <= tags@.len(),
            last_match(tags@, current@, tags@.len() as int) == last_match(
                tags@,
                current@,
                e as int,
            ),
        decreases e,
    {
        e = e - 1;
    }
    if e == 0 {
        return None;
    }
    let j = e - 1;
    if j == 0 {
        return None;
    }
    match &tags[j - 1] {
        Some(t) => Some(t.clone()),
        None => None,
    }
}

/// Refuses a range whose endpoints peel to the same commit.
pub fn distinct_endpoints(a: &String, b: &String) -> (r: Result<(), GRError>)
    ensures
        r is Ok <==> a@ != b@,
        r matches Err(e) ==> e matches GRError::TwinTags,
{
    let av = chars_of(a.as_str());
    if eq_lit(&av, b.as_str()) {
        Err(GRError::TwinTags)
    } else {
        Ok(())
    }
}

/// The workspace in a git repository: queries tags, resolves references
/// and walks commit ranges against the underlying database.
pub struct Repository {
    repo: GitRepository,
}

impl Repository {
    /// Opens the repository at `dir`.
    pub fn new(dir: &str) -> (r: Result<Repository, GRError>)
        ensures
            r matches Err(e) ==> e is Repository,
    {
        match git_open(dir) {
            Ok(repo) => Ok(Repository { repo }),
            Err(e) => Err(GRError::Repository(e)),
        }
    }

    /// The latest tag in backend-reported order; fails when there are no
    /// readable tags. A failure is either the tag list being unreadable,
    /// or the latest tag not being found.
    pub fn latest_tag(&self) -> (r: Result<String, GRError>)
        ensures
            r matches Err(e) ==> (e matches GRError::TagNotFound(m) && m@ == "latest"@) || (
            e is TagNameList),
    {
        match git_tag_names(&self.repo) {
            Ok(tags) => latest_of(&tags),
            Err(e) => Err(GRError::TagNameList(e)),
        }
    }

    /// Resolves a reference to a commit identifier; fails when it cannot
    /// be resolved, and the not-found error names the given reference.
    pub fn validate_tag(&self, tag: &str) -> (r: Result<String, GRError>)
        ensures
            r matches Err(e) ==> (e is Repository) || (e matches GRError::TagNotFound(m) && m@
                == tag@),
    {
        match git_revparse_from_id(&self.repo, tag) {
            Ok(Some(id)) => Ok(id),
            Ok(None) => Err(GRError::TagNotFound(tag.to_owned())),
            Err(e) => Err(GRError::Repository(e)),
        }
    }

    /// The tag before the given one in backend-reported order; when the
    /// given tag has no predecessor, the identifier of the repository's
    /// root commit — the oldest commit reachable from the current branch
    /// head. Fails when the given reference does not resolve, and the
    /// not-found error names it.
    pub fn previous_tag(&self, current: &str) -> (r: Result<String, GRError>)
        ensures
            r matches Err(e) ==> (e is Repository) || (e is TagNameList) || (
            e matches GRError::TagNotFound(m) && m@ == current@),
    {
        match self.validate_tag(current) {
            Ok(_) => {},
            Err(e) => {
                return Err(e);
            },
        }
        let tags = match git_tag_names(&self.repo) {
            Ok(t) => t,
            Err(e) => {
                return Err(GRError::TagNameList(e));
            },
        };
        match previous_in_list(&tags, current) {
            Some(t) => Ok(t),
            None => match git_root_commit_id(&self.repo) {
                Ok(id) => Ok(id),
                Err(e) => Err(GRError::Repository(e)),
            },
        }
    }

    /// The commits after `from` up to and including `to`, oldest first;
    /// entries that cannot be read are skipped. Fails when either
    /// endpoint does not resolve, or both peel to the same commit.
    pub fn commits_between_tags(&self, from: &str, to: &str) -> (r: Result<
        Vec<Commit>,
        GRError,
    >)
        ensures
            r matches Err(e) ==> (e is Repository) || (e is TwinTags),
    {
        let from_ids = match git_revparse_object_ids(&self.repo, from) {
            Ok(p) => p,
            Err(e) => {
                return Err(GRError::Repository(e));
            },
        };
        let to_ids = match git_revparse_object_ids(&self.repo, to) {
            Ok(p) => p,
            Err(e) => {
                return Err(GRError::Repository(e));
            },
        };
        match distinct_endpoints(&from_ids.1, &to_ids.1) {
            Ok(_) => {},
            Err(e) => {
                return Err(e);
            },
        }
        match git_walk_range(&self.repo, from_ids.0.as_str(), to_ids.0.as_str()) {
            Ok(triples) => {
                let mut out: Vec<Commit> = Vec::new();
                let mut i: usize = 0;
                while i < triples.len()
                    invariant
                        i <= triples@.len(),
                        out@.len() == i,
                        forall|k: int|
                            0 <= k < i ==> (#[trigger] out@[k]).id == triples@[k].0
                                && out@[k].summary == triples@[k].1 && out@[k].body
                                == triples@[k].2,
                    decreases triples@.len() - i,
                {
                    let t = &triples[i];
                    out.push(Commit::new(t.0.clone(), clone_text(&t.1), clone_text(&t.2)));
                    i = i + 1;
                }
                Ok(out)
            },
            Err(e) => Err(GRError::Repository(e)),
        }
    }

    /// Owner or project of the named remote's URL, or the raw URL when it
    /// does not have the expected shape.
    fn name_part(&self, remote: &str, want_owner: bool) -> (r: Result<String, GRError>)
        ensures
            r matches Err(e) ==> (e is Repository) || (e matches GRError::URLError(m) && m@
                == "could not get the url of the repository"@),
    {
        let url = match git_remote_url(&self.repo, remote) {
            Ok(Some(u)) => u,
            Ok(None) => {
                return Err(
                    GRError::URLError(
                        String::from_str("could not get the url of the repository"),
                    ),
                );
            },
            Err(e) => {
                return Err(GRError::Repository(e));
            },
        };
        Ok(identity_of(&url, want_owner))
    }

    /// The project name of the remote's URL, or the raw URL when it does
    /// not have the expected shape.
    pub fn repo_name(&self, remote: &str) -> (r: Result<String, GRError>)
        ensures
            r matches Err(e) ==> (e is Repository) || (e matches GRError::URLError(m) && m@
                == "could not get the url of the repository"@),
    {
        self.name_part(remote, false)
    }

    /// The owner — user or organisation — of the remote's URL, or the raw
    /// URL when it does not have the expected shape.
    pub fn username(&self, remote: &str) -> (r: Result<String, GRError>)
        ensures
            r matches Err(e) ==> (e is Repository) || (e matches GRError::URLError(m) && m@
                == "could not get the url of the repository"@),
    {
        self.name_part(remote, true)
    }
}

/// The owner or project segment of a remote URL, when it has the expected
/// shape; the raw URL unchanged when it does not — the fallback is
/// deliberate, not a failure.
pub fn identity_of(url: &String, want_owner: bool) -> (r: String)
    ensures
        match url_match(url@, 0) {
            Some(p) => r@ == (if want_owner {
                p.0
            } else {
                p.1
            }),
            None => r@ == url@,
        },
{
    let uv = chars_of(url.as_str());
    match parse_remote_url(&uv) {
        Some(p) => {
            if want_owner {
                string_from_chars(&p.0)
            } else {
                string_from_chars(&p.1)
            }
        },
        None => url.clone(),
    }
}

/// A fresh copy of an optional text.
fn clone_text(o: &Option<String>) -> (r: Option<String>)
    ensures
        r == *o,
{
    match o {
        Some(s) => Some(s.clone()),
        None => None,
    }
}

} // verus!
