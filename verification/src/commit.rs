//! A commit and the classification of its message.
//!
//! A commit carries its identifier, the summary line of its message and the
//! message body. Everything else — category, subjects, breaking flag, issue
//! references, display title — is computed from those two texts; the
//! classification is total, so malformed text never fails, it degrades to
//! the `Misc` category with no subjects.

use vstd::prelude::*;

use crate::grammar::parse;
use crate::grammar::parse_summary;
use crate::refs::numbers_from;
use crate::refs::reference_numbers;
use crate::refs::strip_references;
use crate::refs::strip_refs;
use crate::text::char_upper;
use crate::text::chars_of;
use crate::text::copy_all;
use crate::text::copy_range;
use crate::text::eq_lit;
use crate::text::find_char;
use crate::text::has_prefix;
use crate::text::join_chars;
use crate::text::join_with;
use crate::text::lower_spec;
use crate::text::rfind_char;
use crate::text::scan_back_to_char;
use crate::text::scan_to_char;
use crate::text::split_commas;
use crate::text::split_from;
use crate::text::starts_with_lit;
use crate::text::string_from_chars;
use crate::text::to_lower;
use crate::text::trim;
use crate::text::trim_spec;
use crate::text::upper_of;
use crate::text::views;

verus! {

/// The category a commit's verb classifies it under.
#[derive(Debug, PartialEq, Eq, Hash, Clone, Copy, Structural)]
pub enum Verb {
    Feature,
    Fix,
    Refactor,
    Chore,
    Enhancements,
    Style,
    CI,
    Documentation,
    Misc,
}

/// The fixed, case-sensitive lookup from a lowercased verb to its category.
pub open spec fn verb_lookup(v: Seq<char>) -> Verb {
    if v == "feat"@ || v == "feature"@ {
        Verb::Feature
    } else if v == "fix"@ || v == "fixed"@ || v == "fixes"@ {
        Verb::Fix
    } else if v == "ref"@ || v == "refactor"@ || v == "refactored"@ {
        Verb::Refactor
    } else if v == "chore"@ {
        Verb::Chore
    } else if v == "enhance"@ || v == "enhanced"@ || v == "enhancement"@ || v == "enhancements"@
        || v == "improve"@ || v == "improved"@ || v == "improves"@ || v == "improvement"@ || v
        == "improvements"@ {
        Verb::Enhancements
    } else if v == "style"@ {
        Verb::Style
    } else if v == "ci"@ {
        Verb::CI
    } else if v == "doc"@ || v == "docs"@ {
        Verb::Documentation
    } else {
        Verb::Misc
    }
}

/// Maps an already-lowercased verb through the lookup table.
pub fn verb_from_chars(low: &Vec<char>) -> (r: Verb)
    ensures
        r == verb_lookup(low@),
{
    if eq_lit(low, "feat") || eq_lit(low, "feature") {
        Verb::Feature
    } else if eq_lit(low, "fix") || eq_lit(low, "fixed") || eq_lit(low, "fixes") {
        Verb::Fix
    } else if eq_lit(low, "ref") || eq_lit(low, "refactor") || eq_lit(low, "refactored") {
        Verb::Refactor
    } else if eq_lit(low, "chore") {
        Verb::Chore
    } else if eq_lit(low, "enhance") || eq_lit(low, "enhanced") || eq_lit(low, "enhancement")
        || eq_lit(low, "enhancements") || eq_lit(low, "improve") || eq_lit(low, "improved")
        || eq_lit(low, "improves") || eq_lit(low, "improvement") || eq_lit(low, "improvements") {
        Verb::Enhancements
    } else if eq_lit(low, "style") {
        Verb::Style
    } else if eq_lit(low, "ci") {
        Verb::CI
    } else if eq_lit(low, "doc") || eq_lit(low, "docs") {
        Verb::Documentation
    } else {
        Verb::Misc
    }
}

/// The category of a summary line: the lowercased verb mapped through the
/// lookup table; `Misc` when the line has no verb or there is no summary.
pub open spec fn verb_of(summary: Option<Seq<char>>) -> Verb {
    match summary {
        Some(s) => match parse_summary(s) {
            Some(p) => verb_lookup(lower_spec(p.verb)),
            None => Verb::Misc,
        },
        None => Verb::Misc,
    }
}

/// The summary with every reference token removed, then trimmed.
pub open spec fn title_spec(s: Seq<char>) -> Seq<char> {
    trim_spec(strip_refs(s, 0))
}

/// Each piece trimmed of surrounding blanks.
pub open spec fn trimmed_all(ps: Seq<Seq<char>>) -> Seq<Seq<char>> {
    ps.map_values(|t: Seq<char>| trim_spec(t))
}

/// The views of a sequence of strings.
pub open spec fn string_views(s: Seq<String>) -> Seq<Seq<char>> {
    s.map_values(|x: String| x@)
}

/// The numbers carried by a sequence of references.
pub open spec fn numbers_of(s: Seq<Reference>) -> Seq<u16> {
    s.map_values(|rf: Reference| rf.0)
}

/// The trimmed scope names of a summary line; `None` when the summary, the
/// grammar match or the scope group is absent, or the group is empty.
pub open spec fn subjects_spec(summary: Option<Seq<char>>) -> Option<Seq<Seq<char>>> {
    match summary {
        Some(s) => match parse_summary(s) {
            Some(p) => match p.scope {
                Some(content) => Some(trimmed_all(split_from(content, 0))),
                None => None,
            },
            None => None,
        },
        None => None,
    }
}

/// The last line of a text, as line iteration yields it: the part after the
/// last line break, where one trailing line break ends the final line and a
/// carriage return before that break belongs to the break.
pub open spec fn last_line(s: Seq<char>) -> Seq<char> {
    if s.len() == 0 {
        Seq::empty()
    } else if s.last() != '\n' {
        s.subrange(rfind_char(s, '\n', s.len() as int) + 1, s.len() as int)
    } else {
        let t = s.drop_last();
        let u = t.subrange(rfind_char(t, '\n', t.len() as int) + 1, t.len() as int);
        if u.len() > 0 && u.last() == '\r' {
            u.drop_last()
        } else {
            u
        }
    }
}

/// Whether a commit is breaking: the grammar captured the breaking mark in
/// the summary, or, failing that, the last body line starts with the
/// literal `BREAKING CHANGE:` marker.
pub open spec fn breaking_spec(summary: Option<Seq<char>>, body: Option<Seq<char>>) -> bool {
    (match summary {
        Some(s) => match parse_summary(s) {
            Some(p) => p.bang,
            None => false,
        },
        None => false,
    }) || (match body {
        Some(b) => has_prefix(last_line(b), "BREAKING CHANGE:"@),
        None => false,
    })
}

/// The text references are scanned over: summary, a line break, body.
pub open spec fn message_text(summary: Option<Seq<char>>, body: Option<Seq<char>>) -> Seq<char> {
    (match summary {
        Some(s) => s,
        None => Seq::empty(),
    }) + seq!['\n'] + (match body {
        Some(b) => b,
        None => Seq::empty(),
    })
}

/// A link to an issue, by its number.
#[derive(Debug, PartialEq, Eq, Structural)]
pub struct Reference(pub u16);

/// The decimal digit character for `d < 10`.
pub open spec fn dec_digit(d: nat) -> char {
    ((48 + d) as u8) as char
}

/// The decimal writing of `n`, most significant digit first.
pub open spec fn dec_spec(n: nat) -> Seq<char>
    decreases n,
{
    if n < 10 {
        seq![dec_digit(n)]
    } else {
        dec_spec(n / 10).push(dec_digit(n % 10))
    }
}

/// Appends the decimal writing of `n`.
pub fn push_dec(out: &mut Vec<char>, n: u16)
    ensures
        final(out)@ == old(out)@ + dec_spec(n as nat),
    decreases n,
{
    if n >= 10 {
        push_dec(out, n / 10);
    }
    let d = (48 + (n % 10) as u8) as char;
    out.push(d);
    proof {
        if n < 10 {
            assert(out@ =~= old(out)@ + dec_spec(n as nat));
        } else {
            assert(out@ =~= old(out)@ + dec_spec(n as nat / 10).push(dec_digit(n as nat % 10)));
            assert(out@ =~= old(out)@ + dec_spec(n as nat));
        }
    }
}

impl Reference {
    /// A pound sign followed by the issue number.
    pub fn issue_ref(&self) -> (r: String)
        ensures
            r@ == seq!['#'] + dec_spec(self.0 as nat),
    {
        let mut v: Vec<char> = Vec::new();
        v.push('#');
        push_dec(&mut v, self.0);
        string_from_chars(&v)
    }
}

/// One history entry: its identifier and the two texts of its message.
#[derive(Debug)]
pub struct Commit {
    pub id: String,
    pub summary: Option<String>,
    pub body: Option<String>,
}

impl Clone for Commit {
    /// A clone carries the same identifier and texts.
    fn clone(&self) -> (r: Self)
        ensures
            r == *self,
    {
        Commit {
            id: self.id.clone(),
            summary: match &self.summary {
                Some(s) => Some(s.clone()),
                None => None,
            },
            body: match &self.body {
                Some(b) => Some(b.clone()),
                None => None,
            },
        }
    }
}

impl PartialEq for Commit {
    /// Two commits are the same exactly when their identifiers agree.
    fn eq(&self, other: &Self) -> (r: bool) {
        self.id == other.id
    }
}

impl vstd::std_specs::cmp::PartialEqSpecImpl for Commit {
    open spec fn obeys_eq_spec() -> bool {
        true
    }

    open spec fn eq_spec(&self, other: &Commit) -> bool {
        self.id@ == other.id@
    }
}

impl Commit {
    /// The summary text, as a sequence of characters.
    pub open spec fn summary_view(&self) -> Option<Seq<char>> {
        match self.summary {
            Some(s) => Some(s@),
            None => None,
        }
    }

    /// The body text, as a sequence of characters.
    pub open spec fn body_view(&self) -> Option<Seq<char>> {
        match self.body {
            Some(b) => Some(b@),
            None => None,
        }
    }

    pub fn new(id: String, summary: Option<String>, body: Option<String>) -> (c: Commit)
        ensures
            c.id == id,
            c.summary == summary,
            c.body == body,
    {
        Commit { id, summary, body }
    }


    /// The summary with reference tokens stripped and blanks trimmed;
    /// `None` when the commit has no summary.
    pub fn title(&self) -> (r: Option<String>)
        ensures
            r is Some <==> self.summary is Some,
            self.summary matches Some(s) ==> r matches Some(t) && t@ == title_spec(s@),
    {
        match &self.summary {
            Some(s) => {
                let v = chars_of(s.as_str());
                let stripped = strip_references(&v);
                let trimmed = trim(&stripped);
                Some(string_from_chars(&trimmed))
            },
            None => None,
        }
    }

    /// The commit's category under the verb lookup table.
    pub fn verb(&self) -> (r: Verb)
        ensures
            r == verb_of(self.summary_view()),
    {
        match &self.summary {
            Some(s) => {
                let v = chars_of(s.as_str());
                match parse(&v) {
                    Some(p) => {
                        let low = to_lower(&p.verb);
                        verb_from_chars(&low)
                    },
                    None => Verb::Misc,
                }
            },
            None => Verb::Misc,
        }
    }

    /// The message text references are scanned over.
    fn message_chars(&self) -> (v: Vec<char>)
        ensures
            v@ == message_text(self.summary_view(), self.body_view()),
    {
        let mut text: Vec<char> = match &self.summary {
            Some(s) => chars_of(s.as_str()),
            None => Vec::new(),
        };
        text.push('\n');
        match &self.body {
            Some(b) => {
                let mut bv = chars_of(b.as_str());
                text.append(&mut bv);
            },
            None => {},
        }
        proof {
            assert(text@ =~= message_text(self.summary_view(), self.body_view()));
        }
        text
    }

    /// The issue references of the whole message, in discovery order,
    /// duplicates kept.
    pub fn references(&self) -> (r: Vec<Reference>)
        ensures
            numbers_of(r@) == numbers_from(
                message_text(self.summary_view(), self.body_view()),
                0,
            ),
    {
        let text = self.message_chars();
        let nums = reference_numbers(&text);
        let mut out: Vec<Reference> = Vec::new();
        let mut i: usize = 0;
        while i < nums.len()
            invariant
                i <= nums@.len(),
                numbers_of(out@) == nums@.take(i as int),
            decreases nums@.len() - i,
        {
            let ghost prev = out@;
            out.push(Reference(nums[i]));
            proof {
                assert(numbers_of(prev) == nums@.take(i as int));
                assert(numbers_of(prev).len() == prev.len());
                assert(nums@.take(i as int).len() == i as int);
                assert(prev.len() == i as int);
                assert(out@ == prev.push(Reference(nums@[i as int])));
                assert(out@.len() == i + 1);
                assert forall|j: int| 0 <= j < i + 1 implies numbers_of(out@)[j] == nums@.take(
                    i as int + 1,
                )[j] by {
                    if j < i {
                        assert(out@[j] == prev[j]);
                        assert(numbers_of(prev)[j] == prev[j].0);
                        assert(numbers_of(out@)[j] == out@[j].0);
                    } else {
                        assert(out@[j].0 == nums@[i as int]);
                        assert(numbers_of(out@)[j] == out@[j].0);
                    }
                }
                assert(numbers_of(out@) =~= nums@.take(i as int + 1));
            }
            i = i + 1;
        }
        proof {
            assert(nums@.take(nums@.len() as int) =~= nums@);
        }
        out
    }

    /// The trimmed scope names of the summary's scope group.
    pub fn subjects(&self) -> (r: Option<Vec<String>>)
        ensures
            r is Some <==> subjects_spec(self.summary_view()) is Some,
            r matches Some(v) ==> subjects_spec(self.summary_view()) matches Some(l)
                && string_views(v@) == l,
    {
        match &self.summary {
            Some(s) => {
                let cv = chars_of(s.as_str());
                match parse(&cv) {
                    Some(p) => match p.scope {
                        Some(content) => {
                            let pieces = split_commas(&content);
                            let ghost l = trimmed_all(split_from(content@, 0));
                            let mut out: Vec<String> = Vec::new();
                            let mut i: usize = 0;
                            while i < pieces.len()
                                invariant
                                    i <= pieces@.len(),
                                    views(pieces@) == split_from(content@, 0),
                                    l == trimmed_all(split_from(content@, 0)),
                                    string_views(out@) == l.take(i as int),
                                decreases pieces@.len() - i,
                            {
                                let t = trim(&pieces[i]);
                                let ghost prev = out@;
                                out.push(string_from_chars(&t));
                                proof {
                                    assert(views(pieces@)[i as int] == pieces@[i as int]@);
                                    assert(l[i as int] == trim_spec(pieces@[i as int]@));
                                    assert(string_views(prev).len() == prev.len());
                                    assert(prev.len() == i as int);
                                    assert forall|j: int| 0 <= j < i + 1 implies string_views(
                                        out@,
                                    )[j] == l.take(i as int + 1)[j] by {
                                        assert(string_views(out@)[j] == out@[j]@);
                                        if j < i {
                                            assert(out@[j] == prev[j]);
                                            assert(string_views(prev)[j] == prev[j]@);
                                        }
                                    }
                                    assert(string_views(out@) =~= l.take(i as int + 1));
                                }
                                i = i + 1;
                            }
                            proof {
                                assert(l.take(l.len() as int) =~= l);
                            }
                            Some(out)
                        },
                        None => None,
                    },
                    None => None,
                }
            },
            None => None,
        }
    }

    /// Whether the commit announces a breaking change, in its summary or in
    /// the last line of its body.
    pub fn is_breaking(&self) -> (r: bool)
        ensures
            r == breaking_spec(self.summary_view(), self.body_view()),
    {
        let tb = match &self.summary {
            Some(s) => {
                let v = chars_of(s.as_str());
                match parse(&v) {
                    Some(p) => p.bang,
                    None => false,
                }
            },
            None => false,
        };
        if tb {
            return true;
        }
        match &self.body {
            Some(b) => {
                let bv = chars_of(b.as_str());
                let ll = last_line_of(&bv);
                starts_with_lit(&ll, "BREAKING CHANGE:")
            },
            None => false,
        }
    }
}

/// The display name of each category, used for rendered group headings.
pub open spec fn verb_name(v: Verb) -> Seq<char> {
    match v {
        Verb::Feature => "Feature"@,
        Verb::Fix => "Fix"@,
        Verb::Refactor => "Refactor"@,
        Verb::Chore => "Chore"@,
        Verb::Enhancements => "Enhancements"@,
        Verb::Style => "Style"@,
        Verb::CI => "CI"@,
        Verb::Documentation => "Documentation"@,
        Verb::Misc => "Misc"@,
    }
}

impl Verb {
    /// The category's display name.
    pub fn name(&self) -> (r: String)
        ensures
            r@ == verb_name(*self),
    {
        match self {
            Verb::Feature => String::from_str("Feature"),
            Verb::Fix => String::from_str("Fix"),
            Verb::Refactor => String::from_str("Refactor"),
            Verb::Chore => String::from_str("Chore"),
            Verb::Enhancements => String::from_str("Enhancements"),
            Verb::Style => String::from_str("Style"),
            Verb::CI => String::from_str("CI"),
            Verb::Documentation => String::from_str("Documentation"),
            Verb::Misc => String::from_str("Misc"),
        }
    }
}

/// The text with its first character replaced by its uppercase expansion;
/// the expansion may be more than one character long.
pub open spec fn capitalized(t: Seq<char>) -> Seq<char> {
    if t.len() == 0 {
        t
    } else {
        upper_of(t[0]) + t.skip(1)
    }
}

/// Uppercases the first character in place.
pub fn first_letter_uppercase(s: &mut Vec<char>)
    ensures
        final (s)@ == capitalized(old(s)@),
{
    if s.len() == 0 {
        return ;
    }
    let first = s[0];
    let mut out = char_upper(first);
    let mut rest = copy_range(s, 1, s.len());
    out.append(&mut rest);
    proof {
        assert(out@ =~= capitalized(s@));
    }
    *s = out;
}

/// The part of the title a rendered bullet shows: the rest after the
/// separator when the stripped title holds a colon, else the whole
/// stripped title; `None` when it holds a colon but no longer matches the
/// grammar.
pub open spec fn display_title(s: Seq<char>) -> Option<Seq<char>> {
    let stripped = title_spec(s);
    if find_char(stripped, ':', 0) < stripped.len() {
        match parse_summary(stripped) {
            Some(p) => Some(trim_spec(p.rest)),
            None => None,
        }
    } else {
        Some(stripped)
    }
}

/// The rendered text of each reference: `ref #` and the number.
pub open spec fn ref_texts(nums: Seq<u16>) -> Seq<Seq<char>> {
    nums.map_values(|n: u16| "ref #"@ + dec_spec(n as nat))
}

/// The bullet text of a commit: the subject prefix, the capitalized title,
/// the breaking marker, and the parenthesized reference list.
pub open spec fn display_spec(summary: Option<Seq<char>>, body: Option<Seq<char>>) -> Option<
    Seq<char>,
> {
    match summary {
        None => None,
        Some(s) => match display_title(s) {
            None => None,
            Some(t0) => {
                let subj = match subjects_spec(summary) {
                    Some(list) => "**"@ + join_with(list, ", "@) + ":** "@,
                    None => Seq::<char>::empty(),
                };
                let brk: Seq<char> = if breaking_spec(summary, body) {
                    " [**BREAKING CHANGE**]"@
                } else {
                    Seq::<char>::empty()
                };
                let nums = numbers_from(message_text(summary, body), 0);
                let refs: Seq<char> = if nums.len() == 0 {
                    Seq::<char>::empty()
                } else {
                    " ("@ + join_with(ref_texts(nums), ", "@) + ")"@
                };
                Some(subj + capitalized(t0) + brk + refs)
            },
        },
    }
}

impl Commit {
    /// The bullet text of the commit, as the renderer prints it; `None`
    /// when the commit has no summary or its stripped title holds a colon
    /// but no longer matches the grammar.
    pub fn display(&self) -> (r: Option<String>)
        ensures
            r is Some <==> display_spec(self.summary_view(), self.body_view()) is Some,
            r matches Some(d) ==> display_spec(self.summary_view(), self.body_view()) matches Some(
                ds,
            ) && d@ == ds,
    {
        let s = match &self.summary {
            Some(s) => s,
            None => {
                return None;
            },
        };
        let sv = chars_of(s.as_str());
        let stripped0 = strip_references(&sv);
        let stripped = trim(&stripped0);
        let ghost t0_spec: Seq<char>;
        let colon = scan_to_char(&stripped, ':', 0) < stripped.len();
        let t0: Vec<char>;
        if colon {
            match parse(&stripped) {
                Some(p) => {
                    t0 = trim(&p.rest);
                    proof {
                        t0_spec = t0@;
                    }
                },
                None => {
                    return None;
                },
            }
        } else {
            t0 = stripped;
            proof {
                t0_spec = t0@;
            }
        }
        proof {
            assert(display_title(sv@) == Some(t0_spec));
        }
        let mut t = t0;
        first_letter_uppercase(&mut t);
        let mut out: Vec<char> = Vec::new();
        match parse(&sv) {
            Some(p) => match p.scope {
                Some(content) => {
                    let pieces = split_commas(&content);
                    let ghost l = trimmed_all(split_from(content@, 0));
                    let mut trimmed: Vec<Vec<char>> = Vec::new();
                    let mut i: usize = 0;
                    while i < pieces.len()
                        invariant
                            i <= pieces@.len(),
                            views(pieces@) == split_from(content@, 0),
                            l == trimmed_all(split_from(content@, 0)),
                            views(trimmed@) == l.take(i as int),
                        decreases pieces@.len() - i,
                    {
                        let ghost prev = trimmed@;
                        trimmed.push(trim(&pieces[i]));
                        proof {
                            assert(views(pieces@)[i as int] == pieces@[i as int]@);
                            assert(l[i as int] == trim_spec(pieces@[i as int]@));
                            assert(views(prev).len() == prev.len());
                            assert(prev.len() == i as int);
                            assert forall|j: int| 0 <= j < i + 1 implies views(trimmed@)[j]
                                == l.take(i as int + 1)[j] by {
                                assert(views(trimmed@)[j] == trimmed@[j]@);
                                if j < i {
                                    assert(trimmed@[j] == prev[j]);
                                    assert(views(prev)[j] == prev[j]@);
                                }
                            }
                            assert(views(trimmed@) =~= l.take(i as int + 1));
                        }
                        i = i + 1;
                    }
                    proof {
                        assert(l.take(l.len() as int) =~= l);
                    }
                    let mut pre = chars_of("**");
                    out.append(&mut pre);
                    let sep = chars_of(", ");
                    let mut joined = join_chars(&trimmed, &sep);
                    out.append(&mut joined);
                    let mut post = chars_of(":** ");
                    out.append(&mut post);
                    proof {
                        assert(out@ =~= "**"@ + join_with(l, ", "@) + ":** "@);
                    }
                },
                None => {},
            },
            None => {},
        }
        let ghost subj_txt = out@;
        proof {
            let subj_spec = match subjects_spec(self.summary_view()) {
                Some(list) => "**"@ + join_with(list, ", "@) + ":** "@,
                None => Seq::<char>::empty(),
            };
            assert(subj_txt =~= subj_spec);
        }
        out.append(&mut t);
        let ghost with_title = out@;
        if self.is_breaking() {
            let mut b = chars_of(" [**BREAKING CHANGE**]");
            out.append(&mut b);
        }
        let ghost with_brk = out@;
        proof {
            assert(with_brk == with_title + (if breaking_spec(
                self.summary_view(),
                self.body_view(),
            ) {
                " [**BREAKING CHANGE**]"@
            } else {
                Seq::<char>::empty()
            }));
        }
        let text = self.message_chars();
        let nums = reference_numbers(&text);
        if nums.len() > 0 {
            let mut op = chars_of(" (");
            out.append(&mut op);
            let mut parts: Vec<Vec<char>> = Vec::new();
            let mut i: usize = 0;
            while i < nums.len()
                invariant
                    i <= nums@.len(),
                    views(parts@) == ref_texts(nums@).take(i as int),
                decreases nums@.len() - i,
            {
                let mut part = chars_of("ref #");
                push_dec(&mut part, nums[i]);
                let ghost prev = parts@;
                parts.push(part);
                proof {
                    assert(ref_texts(nums@)[i as int] == "ref #"@ + dec_spec(
                        nums@[i as int] as nat,
                    ));
                    assert(views(prev).len() == prev.len());
                    assert(prev.len() == i as int);
                    assert forall|j: int| 0 <= j < i + 1 implies views(parts@)[j] == ref_texts(
                        nums@,
                    ).take(i as int + 1)[j] by {
                        assert(views(parts@)[j] == parts@[j]@);
                        if j < i {
                            assert(parts@[j] == prev[j]);
                            assert(views(prev)[j] == prev[j]@);
                        }
                    }
                    assert(views(parts@) =~= ref_texts(nums@).take(i as int + 1));
                }
                i = i + 1;
            }
            proof {
                assert(ref_texts(nums@).take(nums@.len() as int) =~= ref_texts(nums@));
            }
            let sep = chars_of(", ");
            let mut joined = join_chars(&parts, &sep);
            out.append(&mut joined);
            let mut cl = chars_of(")");
            out.append(&mut cl);
            proof {
                assert(out@ =~= with_brk + (" ("@ + join_with(ref_texts(nums@), ", "@) + ")"@));
            }
        }
        proof {
            let sview = self.summary_view();
            let bview = self.body_view();
            let brkseq: Seq<char> = if breaking_spec(sview, bview) {
                " [**BREAKING CHANGE**]"@
            } else {
                Seq::<char>::empty()
            };
            assert(with_brk == with_title + brkseq);
            assert(with_title == subj_txt + capitalized(t0_spec));
            let numsspec = numbers_from(message_text(sview, bview), 0);
            assert(nums@ == numsspec);
            let refsseq: Seq<char> = if numsspec.len() == 0 {
                Seq::<char>::empty()
            } else {
                " ("@ + join_with(ref_texts(numsspec), ", "@) + ")"@
            };
            if numsspec.len() == 0 {
                assert(out@ =~= with_brk + refsseq);
            }
            assert(out@ == subj_txt + capitalized(t0_spec) + brkseq + refsseq);
            assert(display_spec(sview, bview) == Some(
                subj_txt + capitalized(t0_spec) + brkseq + refsseq,
            ));
        }
        Some(string_from_chars(&out))
    }
}

/// A summary with no verb token classifies as `Misc` and has no subjects.
pub proof fn lemma_no_verb_misc(summary: Seq<char>)
    requires
        parse_summary(summary) is None,
    ensures
        verb_of(Some(summary)) == Verb::Misc,
        subjects_spec(Some(summary)) is None,
{
}

/// A summary that starts with a word of `n` characters — whatever scope
/// group, breaking mark or text follows — captures exactly that word as
/// its verb, and classifies under the lookup of its lowercased form.
pub proof fn lemma_verb_prefix(s: Seq<char>, n: int)
    requires
        0 < n <= s.len(),
        forall|j: int| 0 <= j < n ==> crate::text::is_word(s[j]),
        n == s.len() || !crate::text::is_word(s[n]),
    ensures
        parse_summary(s) matches Some(p) && p.verb == s.take(n),
        verb_of(Some(s)) == verb_lookup(lower_spec(s.take(n))),
{
    crate::text::lemma_word_not_blank(s[0]);
    assert(crate::text::blanks_end(s, 0) == 0);
    crate::text::lemma_word_end_is(s, 0, n);
    assert(s.subrange(0, n) =~= s.take(n));
}

/// Subjects are the comma-separated pieces of the scope group, each
/// trimmed: every subject is the trimmed form of its piece and carries no
/// surrounding blanks, and rejoining the untrimmed pieces with commas
/// restores the group content unchanged.
pub proof fn lemma_subjects_split(content: Seq<char>)
    ensures
        trimmed_all(split_from(content, 0)).len() == split_from(content, 0).len(),
        forall|k: int|
            0 <= k < split_from(content, 0).len() ==> #[trigger] trimmed_all(
                split_from(content, 0),
            )[k] == trim_spec(split_from(content, 0)[k]),
        forall|k: int|
            0 <= k < split_from(content, 0).len() ==> crate::text::is_trimmed(
                #[trigger] trimmed_all(split_from(content, 0))[k],
            ),
        crate::text::join_with(split_from(content, 0), seq![',']) == content,
{
    let ps = split_from(content, 0);
    assert forall|k: int| 0 <= k < ps.len() implies crate::text::is_trimmed(
        #[trigger] trimmed_all(ps)[k],
    ) by {
        assert(trimmed_all(ps)[k] == trim_spec(ps[k]));
        crate::text::lemma_trim_trimmed(ps[k]);
    }
    crate::text::lemma_split_join(content, 0);
    assert(content.subrange(0, content.len() as int) =~= content);
}

/// The last line of the text, as `last_line` defines it.
pub fn last_line_of(v: &Vec<char>) -> (r: Vec<char>)
    ensures
        r@ == last_line(v@),
{
    if v.len() == 0 {
        let r: Vec<char> = Vec::new();
        return r;
    }
    if v[v.len() - 1] != '\n' {
        match scan_back_to_char(v, '\n', v.len()) {
            Some(j) => copy_range(v, j + 1, v.len()),
            None => {
                let r = copy_all(v);
                proof {
                    assert(v@.subrange(0, v@.len() as int) =~= v@);
                }
                r
            },
        }
    } else {
        let t = copy_range(v, 0, v.len() - 1);
        proof {
            assert(t@ =~= v@.drop_last());
        }
        let u = match scan_back_to_char(&t, '\n', t.len()) {
            Some(j) => copy_range(&t, j + 1, t.len()),
            None => {
                let r = copy_all(&t);
                proof {
                    assert(t@.subrange(0, t@.len() as int) =~= t@);
                }
                r
            },
        };
        if u.len() > 0 && u[u.len() - 1] == '\r' {
            let w = copy_range(&u, 0, u.len() - 1);
            proof {
                assert(w@ =~= u@.drop_last());
            }
            w
        } else {
            u
        }
    }
}

} // verus!
