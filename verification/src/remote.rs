//! Reading owner and project out of a remote URL.
//!
//! A remote URL of the shape `host[:/]owner/project[.git]`, with the well
//! known host name, yields its owner and project segments: the owner is
//! everything up to the first slash after the separator, the project is
//! the shortest remainder that leaves an optional `.git`-like suffix and
//! an optional trailing line break. The text is scanned left to right and
//! the first position where the whole shape matches wins.

use vstd::prelude::*;

use crate::text::copy_all;
use crate::text::copy_range;
use crate::text::find_char;
use crate::text::scan_to_char;

verus! {

/// Whether the host marker sits at position `i`: the letters of the host
/// name with any non-break character in place of the dot, then `:` or `/`.
pub open spec fn host_at(s: Seq<char>, i: int) -> bool {
    &&& 0 <= i
    &&& i + 11 <= s.len()
    &&& s[i] == 'g'
    &&& s[i + 1] == 'i'
    &&& s[i + 2] == 't'
    &&& s[i + 3] == 'h'
    &&& s[i + 4] == 'u'
    &&& s[i + 5] == 'b'
    &&& s[i + 6] != '\n'
    &&& s[i + 7] == 'c'
    &&& s[i + 8] == 'o'
    &&& s[i + 9] == 'm'
    &&& (s[i + 10] == ':' || s[i + 10] == '/')
}

/// No line break anywhere in the text.
pub open spec fn no_nl(t: Seq<char>) -> bool {
    forall|j: int| 0 <= j < t.len() ==> t[j] != '\n'
}

/// The project segment of the remainder after the owner's slash: the
/// shortest non-empty break-free prefix that leaves one of the accepted
/// suffixes — any character and `git`, optionally followed by one line
/// break, or that line break alone, or nothing.
pub open spec fn repo_part(t: Seq<char>) -> Option<Seq<char>> {
    if t.len() >= 6 && t[t.len() - 1] == '\n' && t[t.len() - 2] == 't' && t[t.len() - 3] == 'i'
        && t[t.len() - 4] == 'g' && t[t.len() - 5] != '\n' && no_nl(t.take(t.len() - 5)) {
        Some(t.take(t.len() - 5))
    } else if t.len() >= 5 && t[t.len() - 1] == 't' && t[t.len() - 2] == 'i' && t[t.len() - 3]
        == 'g' && t[t.len() - 4] != '\n' && no_nl(t.take(t.len() - 4)) {
        Some(t.take(t.len() - 4))
    } else if t.len() >= 2 && t[t.len() - 1] == '\n' && no_nl(t.take(t.len() - 1)) {
        Some(t.take(t.len() - 1))
    } else if t.len() >= 1 && no_nl(t) {
        Some(t)
    } else {
        None
    }
}

/// The owner and project read at position `i`, when the whole shape
/// matches there.
pub open spec fn url_at(s: Seq<char>, i: int) -> Option<(Seq<char>, Seq<char>)> {
    if !host_at(s, i) {
        None
    } else {
        let u0 = i + 11;
        let k = find_char(s, '/', u0);
        if k >= s.len() || k == u0 {
            None
        } else {
            match repo_part(s.subrange(k + 1, s.len() as int)) {
                Some(rp) => Some((s.subrange(u0, k), rp)),
                None => None,
            }
        }
    }
}

/// The owner and project at the first position from `i` on where the
/// shape matches.
pub open spec fn url_match(s: Seq<char>, i: int) -> Option<(Seq<char>, Seq<char>)>
    decreases s.len() - i,
{
    if i < 0 || i >= s.len() {
        None
    } else {
        match url_at(s, i) {
            Some(p) => Some(p),
            None => url_match(s, i + 1),
        }
    }
}

fn host_at_exec(v: &Vec<char>, i: usize) -> (r: bool)
    requires
        i <= v@.len(),
    ensures
        r == host_at(v@, i as int),
{
    if v.len() < 11 || i > v.len() - 11 {
        return false;
    }
    v[i] == 'g' && v[i + 1] == 'i' && v[i + 2] == 't' && v[i + 3] == 'h' && v[i + 4] == 'u'
        && v[i + 5] == 'b' && v[i + 6] != '\n' && v[i + 7] == 'c' && v[i + 8] == 'o' && v[i + 9]
        == 'm' && (v[i + 10] == ':' || v[i + 10] == '/')
}

/// Whether `v[0..e]` is free of line breaks.
fn no_nl_upto(v: &Vec<char>, e: usize) -> (r: bool)
    requires
        e <= v@.len(),
    ensures
        r == no_nl(v@.take(e as int)),
{
    let mut j: usize = 0;
    while j < e
        invariant
            j <= e <= v@.len(),
            forall|k: int| 0 <= k < j ==> v@[k] != '\n',
        decreases e - j,
    {
        if v[j] == '\n' {
            proof {
                assert(v@.take(e as int)[j as int] == v@[j as int]);
                assert(!no_nl(v@.take(e as int)));
            }
            return false;
        }
        j = j + 1;
    }
    proof {
        assert forall|k: int| 0 <= k < v@.take(e as int).len() implies v@.take(e as int)[k]
            != '\n' by {
            assert(v@.take(e as int)[k] == v@[k]);
        }
    }
    true
}

fn repo_part_of(t: &Vec<char>) -> (r: Option<Vec<char>>)
    ensures
        match r {
            Some(p) => repo_part(t@) == Some(p@),
            None => repo_part(t@) is None,
        },
{
    let n = t.len();
    if n >= 6 && t[n - 1] == '\n' && t[n - 2] == 't' && t[n - 3] == 'i' && t[n - 4] == 'g' && t[n
        - 5] != '\n' && no_nl_upto(t, n - 5) {
        Some(copy_range(t, 0, n - 5))
    } else if n >= 5 && t[n - 1] == 't' && t[n - 2] == 'i' && t[n - 3] == 'g' && t[n - 4] != '\n'
        && no_nl_upto(t, n - 4) {
        Some(copy_range(t, 0, n - 4))
    } else if n >= 2 && t[n - 1] == '\n' && no_nl_upto(t, n - 1) {
        Some(copy_range(t, 0, n - 1))
    } else if n >= 1 && no_nl_upto(t, n) {
        proof {
            assert(t@.take(n as int) =~= t@);
        }
        Some(copy_all(t))
    } else {
        None
    }
}

fn url_at_exec(v: &Vec<char>, i: usize) -> (r: Option<(Vec<char>, Vec<char>)>)
    requires
        i <= v@.len(),
    ensures
        match r {
            Some(p) => url_at(v@, i as int) == Some((p.0@, p.1@)),
            None => url_at(v@, i as int) is None,
        },
{
    if !host_at_exec(v, i) {
        return None;
    }
    let n = v.len();
    proof {
        assert(i + 11 <= n);
    }
    let u0 = i + 11;
    let k = scan_to_char(v, '/', u0);
    if k >= v.len() || k == u0 {
        return None;
    }
    let rest = copy_range(v, k + 1, v.len());
    match repo_part_of(&rest) {
        Some(rp) => Some((copy_range(v, u0, k), rp)),
        None => None,
    }
}

/// The owner and project of a remote URL, or `None` when it does not have
/// the expected shape anywhere.
pub fn parse_remote_url(v: &Vec<char>) -> (r: Option<(Vec<char>, Vec<char>)>)
    ensures
        match r {
            Some(p) => url_match(v@, 0) == Some((p.0@, p.1@)),
            None => url_match(v@, 0) is None,
        },
{
    let mut i: usize = 0;
    while i < v.len()
        invariant
            i <= v@.len(),
            url_match(v@, 0) == url_match(v@, i as int),
        decreases v@.len() - i,
    {
        match url_at_exec(v, i) {
            Some(p) => {
                return Some(p);
            },
            None => {},
        }
        i = i + 1;
    }
    None
}

} // verus!
