//! A release: classified commits grouped by category and rendered.
//!
//! Groups follow a fixed, documented category order — the order the
//! category enumeration declares — so rendering is deterministic; a
//! category appears only when at least one commit belongs to it.

use vstd::prelude::*;

use crate::commit::Commit;
use crate::commit::Verb;
use crate::commit::display_spec;
use crate::commit::verb_name;
use crate::commit::verb_of;
use crate::text::chars_of;
use crate::text::join_chars;
use crate::text::join_with;
use crate::text::string_from_chars;
use crate::text::views;

verus! {

/// The fixed category order groups are listed in.
pub open spec fn verb_order() -> Seq<Verb> {
    seq![
        Verb::Feature,
        Verb::Fix,
        Verb::Refactor,
        Verb::Chore,
        Verb::Enhancements,
        Verb::Style,
        Verb::CI,
        Verb::Documentation,
        Verb::Misc,
    ]
}

/// The category of a commit.
pub open spec fn commit_verb(c: Commit) -> Verb {
    verb_of(c.summary_view())
}

/// The commits of `commits` that classify under `v`, in input order.
pub open spec fn group_of(commits: Seq<Commit>, v: Verb) -> Seq<Commit> {
    commits.filter(|c: Commit| commit_verb(c) == v)
}

/// The categories of the group list, in list order.
pub open spec fn keys_of(r: Seq<(Verb, Vec<Commit>)>) -> Seq<Verb> {
    r.map_values(|p: (Verb, Vec<Commit>)| p.0)
}

/// The categories among the first `i` of the fixed order that have at
/// least one commit.
pub open spec fn present_verbs_upto(commits: Seq<Commit>, i: int) -> Seq<Verb>
    decreases i,
{
    if i <= 0 {
        Seq::empty()
    } else {
        let prev = present_verbs_upto(commits, i - 1);
        if i - 1 < verb_order().len() && group_of(commits, verb_order()[i - 1]).len() > 0 {
            prev.push(verb_order()[i - 1])
        } else {
            prev
        }
    }
}

/// The categories that have at least one commit, in the fixed order.
pub open spec fn present_verbs(commits: Seq<Commit>) -> Seq<Verb> {
    present_verbs_upto(commits, verb_order().len() as int)
}

/// One or more commits, grouped by the verbs in their titles.
pub struct Release {
    pub commits: Vec<Commit>,
}

/// Extending the commit list by one commit extends exactly the group of
/// that commit's category.
pub proof fn lemma_group_of_push(commits: Seq<Commit>, c: Commit, v: Verb)
    ensures
        group_of(commits.push(c), v) == (if commit_verb(c) == v {
            group_of(commits, v).push(c)
        } else {
            group_of(commits, v)
        }),
{
    reveal_with_fuel(Seq::<_>::filter, 2);
    let s = commits.push(c);
    assert(s.drop_last() =~= commits);
    assert(s.last() == c);
}

/// The commits of `commits` classifying under `v`, as a fresh vector.
fn commits_with_verb(commits: &Vec<Commit>, v: Verb) -> (r: Vec<Commit>)
    ensures
        r@ == group_of(commits@, v),
{
    let mut out: Vec<Commit> = Vec::new();
    let mut i: usize = 0;
    proof {
        reveal_with_fuel(Seq::<_>::filter, 1);
        assert(commits@.take(0) =~= Seq::<Commit>::empty());
        assert(out@ =~= group_of(commits@.take(0), v));
    }
    while i < commits.len()
        invariant
            i <= commits@.len(),
            out@ == group_of(commits@.take(i as int), v),
        decreases commits@.len() - i,
    {
        proof {
            assert(commits@.take(i as int + 1) =~= commits@.take(i as int).push(
                commits@[i as int],
            ));
            lemma_group_of_push(commits@.take(i as int), commits@[i as int], v);
        }
        if commits[i].verb() == v {
            out.push(commits[i].clone());
        }
        i = i + 1;
    }
    proof {
        assert(commits@.take(commits@.len() as int) =~= commits@);
    }
    out
}

impl Release {
    pub fn new(commits: Vec<Commit>) -> (r: Release)
        ensures
            r.commits == commits,
    {
        Release { commits }
    }

    /// Partitions the commits by category: one entry per category that has
    /// commits, in the fixed order, each holding exactly the commits of
    /// that category in input order.
    pub fn get_verb_groups(&self) -> (r: Vec<(Verb, Vec<Commit>)>)
        ensures
            keys_of(r@) == present_verbs(self.commits@),
            forall|k: int|
                0 <= k < r@.len() ==> (#[trigger] r@[k]).1@ == group_of(
                    self.commits@,
                    r@[k].0,
                ),
    {
        let order: Vec<Verb> = vec![
            Verb::Feature,
            Verb::Fix,
            Verb::Refactor,
            Verb::Chore,
            Verb::Enhancements,
            Verb::Style,
            Verb::CI,
            Verb::Documentation,
            Verb::Misc,
        ];
        proof {
            assert(order@ =~= verb_order());
        }
        let mut out: Vec<(Verb, Vec<Commit>)> = Vec::new();
        let mut i: usize = 0;
        proof {
            assert(keys_of(out@) =~= present_verbs_upto(self.commits@, 0));
        }
        while i < order.len()
            invariant
                i <= order@.len(),
                order@ == verb_order(),
                keys_of(out@) == present_verbs_upto(self.commits@, i as int),
                forall|k: int|
                    0 <= k < out@.len() ==> (#[trigger] out@[k]).1@ == group_of(
                        self.commits@,
                        out@[k].0,
                    ),
            decreases order@.len() - i,
        {
            let v = order[i];
            let g = commits_with_verb(&self.commits, v);
            proof {
                assert(v == verb_order()[i as int]);
                if group_of(self.commits@, v).len() > 0 {
                    assert(present_verbs_upto(self.commits@, i as int + 1) == present_verbs_upto(
                        self.commits@,
                        i as int,
                    ).push(v));
                } else {
                    assert(present_verbs_upto(self.commits@, i as int + 1) == present_verbs_upto(
                        self.commits@,
                        i as int,
                    ));
                }
            }
            if g.len() > 0 {
                let ghost prev = out@;
                out.push((v, g));
                proof {
                    assert(keys_of(prev).len() == prev.len());
                    assert forall|j: int|
                        0 <= j < out@.len() implies #[trigger] keys_of(out@)[j] == keys_of(
                        prev,
                    ).push(v)[j] by {
                        assert(keys_of(out@)[j] == out@[j].0);
                        if j < prev.len() {
                            assert(out@[j] == prev[j]);
                            assert(keys_of(prev)[j] == prev[j].0);
                        }
                    }
                    assert(keys_of(out@) =~= keys_of(prev).push(v));
                    assert(keys_of(out@) =~= present_verbs_upto(self.commits@, i as int + 1));
                }
            }
            i = i + 1;
        }
        out
    }
}

/// The total size of the groups of the given categories.
pub open spec fn group_len_sum(commits: Seq<Commit>, vs: Seq<Verb>) -> int
    decreases vs.len(),
{
    if vs.len() == 0 {
        0
    } else {
        group_of(commits, vs[0]).len() + group_len_sum(commits, vs.skip(1))
    }
}

proof fn lemma_sum_empty(vs: Seq<Verb>)
    ensures
        group_len_sum(Seq::<Commit>::empty(), vs) == 0,
    decreases vs.len(),
{
    reveal_with_fuel(Seq::<_>::filter, 1);
    if vs.len() > 0 {
        lemma_sum_empty(vs.skip(1));
    }
}

proof fn lemma_sum_push(commits: Seq<Commit>, c: Commit, vs: Seq<Verb>)
    requires
        vs.no_duplicates(),
    ensures
        group_len_sum(commits.push(c), vs) == group_len_sum(commits, vs) + (
        if vs.contains(commit_verb(c)) {
            1int
        } else {
            0int
        }),
    decreases vs.len(),
{
    if vs.len() > 0 {
        lemma_group_of_push(commits, c, vs[0]);
        assert forall|k: int| 0 <= k < vs.len() - 1 implies #[trigger] vs.skip(1)[k] == vs[k
            + 1] by {}
        lemma_sum_push(commits, c, vs.skip(1));
        let x = commit_verb(c);
        if x == vs[0] {
            assert(vs.contains(x));
            assert forall|k: int| 0 <= k < vs.skip(1).len() implies vs.skip(1)[k] != x by {
                assert(vs.skip(1)[k] == vs[k + 1]);
            }
            assert(!vs.skip(1).contains(x));
        } else {
            if vs.skip(1).contains(x) {
                let k = choose|k: int|
                    0 <= k < vs.skip(1).len() && vs.skip(1)[k] == x;
                assert(vs[k + 1] == x);
                assert(vs.contains(x));
            }
            if vs.contains(x) {
                let k = choose|k: int| 0 <= k < vs.len() && vs[k] == x;
                assert(k >= 1);
                assert(vs.skip(1)[k - 1] == x);
                assert(vs.skip(1).contains(x));
            }
        }
    }
}

/// Every category stands in the fixed order exactly once.
pub proof fn lemma_verb_order_complete(v: Verb)
    ensures
        verb_order().no_duplicates(),
        verb_order().contains(v),
{
    match v {
        Verb::Feature => assert(verb_order()[0] == v),
        Verb::Fix => assert(verb_order()[1] == v),
        Verb::Refactor => assert(verb_order()[2] == v),
        Verb::Chore => assert(verb_order()[3] == v),
        Verb::Enhancements => assert(verb_order()[4] == v),
        Verb::Style => assert(verb_order()[5] == v),
        Verb::CI => assert(verb_order()[6] == v),
        Verb::Documentation => assert(verb_order()[7] == v),
        Verb::Misc => assert(verb_order()[8] == v),
    }
}

/// The groups partition the commits: each commit classifies under exactly
/// one category, so over the fixed category order the group sizes add up
/// to the number of commits.
pub proof fn lemma_groups_partition(commits: Seq<Commit>)
    ensures
        group_len_sum(commits, verb_order()) == commits.len(),
    decreases commits.len(),
{
    if commits.len() == 0 {
        lemma_sum_empty(verb_order());
        assert(commits =~= Seq::<Commit>::empty());
    } else {
        let rest = commits.drop_last();
        let c = commits.last();
        lemma_groups_partition(rest);
        lemma_verb_order_complete(commit_verb(c));
        lemma_sum_push(rest, c, verb_order());
        assert(commits =~= rest.push(c));
    }
}

/// A group holds only commits of its own category, so no commit stands in
/// the groups of two different categories.
pub proof fn lemma_groups_disjoint(commits: Seq<Commit>, v1: Verb, v2: Verb)
    requires
        v1 != v2,
    ensures
        forall|x: Commit|
            group_of(commits, v1).contains(x) ==> !group_of(commits, v2).contains(x),
{
    broadcast use vstd::seq_lib::group_filter_ensures;

    assert forall|x: Commit| group_of(commits, v1).contains(x) implies !group_of(
        commits,
        v2,
    ).contains(x) by {
        let i = choose|i: int|
            0 <= i < group_of(commits, v1).len() && group_of(commits, v1)[i] == x;
        assert(commit_verb(x) == v1);
        if group_of(commits, v2).contains(x) {
            let j = choose|j: int|
                0 <= j < group_of(commits, v2).len() && group_of(commits, v2)[j] == x;
            assert(commit_verb(x) == v2);
        }
    }
}

/// The bullet lines of the commits from index `i` on, one per commit;
/// `None` when some commit cannot be displayed.
pub open spec fn bullets_from(cs: Seq<Commit>, i: int) -> Option<Seq<Seq<char>>>
    decreases cs.len() - i,
{
    if i < 0 || i >= cs.len() {
        Some(Seq::empty())
    } else {
        match display_spec(cs[i].summary_view(), cs[i].body_view()) {
            Some(d) => match bullets_from(cs, i + 1) {
                Some(rest) => Some(seq!["- "@ + d] + rest),
                None => None,
            },
            None => None,
        }
    }
}

/// One rendered block: a level-3 heading with the category name, a blank
/// line, and the bullet lines joined by line breaks.
pub open spec fn block_text(v: Verb, bs: Seq<Seq<char>>) -> Seq<char> {
    "### "@ + verb_name(v) + "\n\n"@ + join_with(bs, "\n"@)
}

/// The rendered blocks of the categories from index `i` on.
pub open spec fn blocks_from(commits: Seq<Commit>, vs: Seq<Verb>, i: int) -> Option<
    Seq<Seq<char>>,
>
    decreases vs.len() - i,
{
    if i < 0 || i >= vs.len() {
        Some(Seq::empty())
    } else {
        match bullets_from(group_of(commits, vs[i]), 0) {
            Some(bs) => match blocks_from(commits, vs, i + 1) {
                Some(rest) => Some(seq![block_text(vs[i], bs)] + rest),
                None => None,
            },
            None => None,
        }
    }
}

/// The whole rendered text: one block per category that has commits, in
/// the fixed order, joined by blank lines; `None` when some commit cannot
/// be displayed.
pub open spec fn render_spec(commits: Seq<Commit>) -> Option<Seq<char>> {
    match blocks_from(commits, present_verbs(commits), 0) {
        Some(bl) => Some(join_with(bl, "\n\n"@)),
        None => None,
    }
}

impl Release {
    /// Renders the release as markdown.
    #[verifier::loop_isolation(false)]
    pub fn render(&self) -> (r: Option<String>)
        ensures
            r is Some <==> render_spec(self.commits@) is Some,
            r matches Some(s) ==> render_spec(self.commits@) matches Some(rs) && s@ == rs,
    {
        let groups = self.get_verb_groups();
        let ghost pv = present_verbs(self.commits@);
        let mut blocks: Vec<Vec<char>> = Vec::new();
        let mut gi: usize = 0;
        proof {
            assert(keys_of(groups@).len() == groups@.len());
        }
        while gi < groups.len()
            invariant
                gi <= groups@.len(),
                match blocks_from(self.commits@, pv, gi as int) {
                    Some(rest) => blocks_from(self.commits@, pv, 0) == Some(
                        views(blocks@) + rest,
                    ),
                    None => blocks_from(self.commits@, pv, 0) is None,
                },
            decreases groups@.len() - gi,
        {
            let v = groups[gi].0;
            let cs = &groups[gi].1;
            proof {
                assert(keys_of(groups@)[gi as int] == groups@[gi as int].0);
                assert(pv[gi as int] == v);
                assert(cs@ == group_of(self.commits@, v));
            }
            let mut bullets: Vec<Vec<char>> = Vec::new();
            let mut j: usize = 0;
            while j < cs.len()
                invariant
                    j <= cs@.len(),
                    match bullets_from(cs@, j as int) {
                        Some(rest) => bullets_from(cs@, 0) == Some(views(bullets@) + rest),
                        None => bullets_from(cs@, 0) is None,
                    },
                decreases cs@.len() - j,
            {
                match cs[j].display() {
                    Some(d) => {
                        let mut b = chars_of("- ");
                        let mut dv = chars_of(d.as_str());
                        b.append(&mut dv);
                        let ghost prevb = bullets@;
                        bullets.push(b);
                        proof {
                            crate::text::lemma_views_push(prevb, b);
                            assert(views(bullets@) + (match bullets_from(cs@, j as int + 1) {
                                Some(rest) => rest,
                                None => Seq::empty(),
                            }) =~= views(prevb) + (seq![b@] + (match bullets_from(
                                cs@,
                                j as int + 1,
                            ) {
                                Some(rest) => rest,
                                None => Seq::empty(),
                            })));
                        }
                    },
                    None => {
                        proof {
                            assert(bullets_from(cs@, j as int) is None);
                            assert(blocks_from(self.commits@, pv, gi as int) is None);
                        }
                        return None;
                    },
                }
                j = j + 1;
            }
            proof {
                assert(bullets_from(cs@, cs@.len() as int) == Some(Seq::<Seq<char>>::empty()));
                assert(views(bullets@) + Seq::<Seq<char>>::empty() =~= views(bullets@));
                assert(bullets_from(cs@, 0) == Some(views(bullets@)));
            }
            let mut block = chars_of("### ");
            let name = v.name();
            let mut nv = chars_of(name.as_str());
            block.append(&mut nv);
            let mut hb = chars_of("\n\n");
            block.append(&mut hb);
            let sepn = chars_of("\n");
            let mut joined = join_chars(&bullets, &sepn);
            block.append(&mut joined);
            proof {
                assert(block@ =~= block_text(v, views(bullets@)));
            }
            let ghost prevblocks = blocks@;
            blocks.push(block);
            proof {
                crate::text::lemma_views_push(prevblocks, block);
                assert(views(blocks@) + (match blocks_from(self.commits@, pv, gi as int + 1) {
                    Some(rest) => rest,
                    None => Seq::empty(),
                }) =~= views(prevblocks) + (seq![block_text(v, views(bullets@))] + (
                match blocks_from(self.commits@, pv, gi as int + 1) {
                    Some(rest) => rest,
                    None => Seq::empty(),
                })));
            }
            gi = gi + 1;
        }
        proof {
            assert(blocks_from(self.commits@, pv, pv.len() as int) == Some(
                Seq::<Seq<char>>::empty(),
            ));
            assert(views(blocks@) + Seq::<Seq<char>>::empty() =~= views(blocks@));
            assert(blocks_from(self.commits@, pv, 0) == Some(views(blocks@)));
        }
        let sep2 = chars_of("\n\n");
        let joined = join_chars(&blocks, &sep2);
        Some(string_from_chars(&joined))
    }
}

} // verus!
