//! Invocation options and the tag argument.
//!
//! The raw tag argument names a single tag, an open range `tag..`, or a
//! full range `from..to`; reading it is plain text logic and lives here.
//! Collecting the values from the command line is left to the caller.

use vstd::prelude::*;

use crate::text::chars_of;
use crate::text::copy_range;
use crate::text::string_from_chars;

verus! {

/// A subcommand of the program.
#[derive(Debug)]
pub enum Command {
    /// Print the application version.
    Version,
    /// Publish the release information.
    Publish,
}

/// The value of the tag argument.
#[derive(Debug)]
pub enum Tag {
    Unset,
    Single(String),
    From(String),
    Range(String, String),
}

impl Default for Tag {
    /// With no tag argument, no tags are named.
    fn default() -> (r: Self)
        ensures
            r matches Tag::Unset,
    {
        Tag::Unset
    }
}

/// The first index at or after `i` where `..` starts, or the length when
/// there is none.
pub open spec fn find_dotdot(s: Seq<char>, i: int) -> int
    decreases s.len() - i,
{
    if i < 0 || i + 1 >= s.len() {
        s.len() as int
    } else if s[i] == '.' && s[i + 1] == '.' {
        i
    } else {
        find_dotdot(s, i + 1)
    }
}

/// Whether the text holds `..` anywhere.
pub open spec fn has_dotdot(s: Seq<char>) -> bool {
    find_dotdot(s, 0) < s.len()
}

/// Whether the text ends with `..`.
pub open spec fn ends_dotdot(s: Seq<char>) -> bool {
    s.len() >= 2 && s[s.len() - 2] == '.' && s[s.len() - 1] == '.'
}

/// The `to` part of a range argument: what stands between the first `..`
/// and the next one, or the end.
pub open spec fn range_to(s: Seq<char>) -> Seq<char> {
    let i = find_dotdot(s, 0);
    let rest = s.subrange(i + 2, s.len() as int);
    rest.take(find_dotdot(rest, 0))
}

/// The first index at or after `from` where `..` starts in `v`, or the
/// length when there is none.
pub fn scan_dotdot(v: &Vec<char>, from: usize) -> (r: usize)
    requires
        from <= v@.len(),
    ensures
        r == find_dotdot(v@, from as int),
        from <= r <= v@.len(),
        r < v@.len() ==> r + 1 < v@.len() && v@[r as int] == '.' && v@[r as int + 1] == '.',
{
    let n = v.len();
    let mut i = from;
    while n > 0 && i < n - 1 && !(v[i] == '.' && v[i + 1] == '.')
        invariant
            from <= i <= v@.len(),
            n == v@.len(),
            find_dotdot(v@, from as int) == find_dotdot(v@, i as int),
        decreases v@.len() - i,
    {
        i = i + 1;
    }
    if n > 0 && i < n - 1 {
        i
    } else {
        n
    }
}

/// Options for one run of the program.
#[derive(Debug)]
pub struct Opt {
    /// The raw tag argument, as given.
    pub tag: Option<String>,
    pub sub_commands: Option<Command>,
    pub tags: Tag,
    /// The remote to operate on.
    pub remote: String,
    /// Whether to publish the release results.
    pub publish: bool,
    pub github_token: String,
    /// Whether a failed publication may overwrite the previous contents.
    pub force: bool,
}

impl Opt {
    /// Builds the options, reading the raw tag argument into `tags`: no
    /// argument names no tags, an argument without `..` names one tag,
    /// one ending in `..` names an open range, any other names the range
    /// from the part before the first `..` to the part between it and the
    /// next `..` or the end.
    pub fn new(
        tag: Option<String>,
        sub_commands: Option<Command>,
        remote: String,
        publish: bool,
        github_token: String,
        force: bool,
    ) -> (o: Opt)
        ensures
            o.sub_commands == sub_commands,
            o.remote == remote,
            o.publish == publish,
            o.github_token == github_token,
            o.force == force,
            match tag {
                None => o.tags matches Tag::Unset,
                Some(t) => {
                    if !has_dotdot(t@) {
                        o.tags matches Tag::Single(x) && x@ == t@
                    } else if ends_dotdot(t@) {
                        o.tags matches Tag::From(x) && x@ == t@.take(t@.len() - 2)
                    } else {
                        o.tags matches Tag::Range(a, b) && a@ == t@.take(find_dotdot(t@, 0))
                            && b@ == range_to(t@)
                    }
                },
            },
    {
        let tags: Tag = match &tag {
            None => Tag::Unset,
            Some(t) => {
                let v = chars_of(t.as_str());
                let i = scan_dotdot(&v, 0);
                if i >= v.len() {
                    Tag::Single(t.clone())
                } else if v.len() >= 2 && v[v.len() - 2] == '.' && v[v.len() - 1] == '.' {
                    let p = copy_range(&v, 0, v.len() - 2);
                    Tag::From(string_from_chars(&p))
                } else {
                    let a = copy_range(&v, 0, i);
                    let rest = copy_range(&v, i + 2, v.len());
                    let j = scan_dotdot(&rest, 0);
                    let b = copy_range(&rest, 0, j);
                    proof {
                        assert(rest@.take(j as int) =~= rest@.subrange(0, j as int));
                    }
                    Tag::Range(string_from_chars(&a), string_from_chars(&b))
                }
            },
        };
        Opt { tag, sub_commands, tags, remote, publish, github_token, force }
    }
}

} // verus!
