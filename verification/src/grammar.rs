//! The summary-line grammar.
//!
//! A summary line is read as: optional leading blanks, a verb of one or more
//! word characters, an optional parenthesized scope group (spaces allowed
//! around it, its content drawn from the scope character class), an optional
//! breaking mark `!`, optional spaces, an optional `:` separator, and the
//! rest of the line. A line whose first non-blank character is not a word
//! character does not match the grammar at all.

use vstd::prelude::*;

use crate::text::blanks_end;
use crate::text::scan_blanks;
use crate::text::scan_scope;
use crate::text::scan_spaces;
use crate::text::scan_word;
use crate::text::scope_end;
use crate::text::spaces_end;
use crate::text::word_end;

verus! {

/// The parts captured by a grammar match, over the mathematical view.
pub struct SummaryParts {
    /// The verb: the maximal run of word characters after leading blanks.
    pub verb: Seq<char>,
    /// The scope group's content; `None` when the group is absent or empty.
    pub scope: Option<Seq<char>>,
    /// Whether the breaking mark `!` follows the verb or the scope group.
    pub bang: bool,
    /// Everything after the optional separator.
    pub rest: Seq<char>,
}

/// Reads a scope group at position `i`: spaces, `(`, scope characters, `)`,
/// spaces. Yields the group content (`None` when absent or empty) and the
/// position after the group, which is `i` itself when no group matches.
pub open spec fn scope_group(s: Seq<char>, i: int) -> (Option<Seq<char>>, int) {
    let j = spaces_end(s, i);
    if j < s.len() && s[j] == '(' {
        let k = scope_end(s, j + 1);
        if k < s.len() && s[k] == ')' {
            let m = spaces_end(s, k + 1);
            if k > j + 1 {
                (Some(s.subrange(j + 1, k)), m)
            } else {
                (None, m)
            }
        } else {
            (None, i)
        }
    } else {
        (None, i)
    }
}

/// Parses a summary line against the grammar; `None` when the line has no
/// verb, that is when its first non-blank character is not a word character.
pub open spec fn parse_summary(s: Seq<char>) -> Option<SummaryParts> {
    let i0 = blanks_end(s, 0);
    let i1 = word_end(s, i0);
    if i1 == i0 {
        None
    } else {
        let sg = scope_group(s, i1);
        let m = sg.1;
        let bang = m < s.len() && s[m] == '!';
        let b = if bang {
            m + 1
        } else {
            m
        };
        let a = spaces_end(s, b);
        let r = if a < s.len() && s[a] == ':' {
            a + 1
        } else {
            a
        };
        Some(
            SummaryParts {
                verb: s.subrange(i0, i1),
                scope: sg.0,
                bang: bang,
                rest: s.subrange(r, s.len() as int),
            },
        )
    }
}

/// The captured parts of a parsed summary line, in executable form.
pub struct ParsedSummary {
    pub verb: Vec<char>,
    pub scope: Option<Vec<char>>,
    pub bang: bool,
    pub rest: Vec<char>,
}

impl View for ParsedSummary {
    type V = SummaryParts;

    open spec fn view(&self) -> SummaryParts {
        SummaryParts {
            verb: self.verb@,
            scope: match self.scope {
                Some(v) => Some(v@),
                None => None,
            },
            bang: self.bang,
            rest: self.rest@,
        }
    }
}

/// Reads the scope group at position `i` of `v`.
fn scope_group_at(v: &Vec<char>, i: usize) -> (r: (Option<Vec<char>>, usize))
    requires
        i <= v@.len(),
    ensures
        r.1 <= v@.len(),
        i <= r.1,
        scope_group(v@, i as int) == (
            match r.0 {
                Some(c) => Some(c@),
                None => None::<Seq<char>>,
            },
            r.1 as int,
        ),
{
    let j = scan_spaces(v, i);
    if j < v.len() && v[j] == '(' {
        let k = scan_scope(v, j + 1);
        if k < v.len() && v[k] == ')' {
            let m = scan_spaces(v, k + 1);
            if k > j + 1 {
                (Some(crate::text::copy_range(v, j + 1, k)), m)
            } else {
                (None, m)
            }
        } else {
            (None, i)
        }
    } else {
        (None, i)
    }
}

/// Parses a summary line; mirrors `parse_summary` exactly.
pub fn parse(v: &Vec<char>) -> (r: Option<ParsedSummary>)
    ensures
        match r {
            Some(p) => parse_summary(v@) == Some(p@),
            None => parse_summary(v@) is None,
        },
{
    let i0 = scan_blanks(v, 0);
    let i1 = scan_word(v, i0);
    if i1 == i0 {
        return None;
    }
    let verb = crate::text::copy_range(v, i0, i1);
    let (scope, m) = scope_group_at(v, i1);
    let bang = m < v.len() && v[m] == '!';
    let b = if bang {
        m + 1
    } else {
        m
    };
    let a = scan_spaces(v, b);
    let r = if a < v.len() && v[a] == ':' {
        a + 1
    } else {
        a
    };
    let rest = crate::text::copy_range(v, r, v.len());
    Some(ParsedSummary { verb, scope, bang, rest })
}

} // verus!
