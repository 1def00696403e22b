//! The text that is left over beside the faces: joining runs that touch,
//! and laying the runs out again as one line.

use crate::body::fragment_of;
use crate::body::fragments_of;
use crate::body::Body;
use crate::body::Fragment;
use crate::text::push_char;
use crate::width::lemma_columns_concat;
use crate::width::lemma_columns_spaces;
use crate::width::spaces;
use crate::width::str_width;
use crate::width::text_columns;
use vstd::prelude::*;
use vstd::string::StringExecFns;

verus! {

/// The column just behind a fragment.
pub open spec fn fragment_end(f: Fragment) -> nat {
    f.start + text_columns(f.text)
}

/// Adds a fragment to a list: where it starts in the column at which the
/// last one ends, the two become one.
pub open spec fn merge_in(group: Seq<Fragment>, f: Fragment) -> Seq<Fragment> {
    if group.len() > 0 && fragment_end(group.last()) == f.start {
        group.drop_last().push(
            Fragment { start: group.last().start, text: group.last().text + f.text },
        )
    } else {
        group.push(f)
    }
}

/// Joins, from left to right, every fragment to the one before it where
/// the two touch.
pub open spec fn regroup(rest: Seq<Fragment>) -> Seq<Fragment>
    decreases rest.len(),
{
    if rest.len() == 0 {
        Seq::empty()
    } else {
        merge_in(regroup(rest.drop_last()), rest.last())
    }
}

/// Joins the fragments that touch: a fragment that starts in the column at
/// which the one before it ends is appended to it.
pub fn regroup_rest_text(rest_text: &Vec<(usize, String)>) -> (new_group: Vec<(usize, String)>)
    ensures
        fragments_of(new_group@) == regroup(fragments_of(rest_text@)),
        settled(fragments_of(new_group@)),
{
    let mut new_group: Vec<(usize, String)> = Vec::new();
    let mut i: usize = 0;
    while i < rest_text.len()
        invariant
            i <= rest_text.len(),
            fragments_of(new_group@) == regroup(fragments_of(rest_text@.take(i as int))),
        decreases rest_text.len() - i,
    {
        let start: usize = rest_text[i].0;
        let rest: String = rest_text[i].1.clone();
        let ghost before = fragments_of(new_group@);
        let ghost f = fragment_of(rest_text@[i as int]);
        proof {
            let upto = fragments_of(rest_text@.take(i + 1));
            assert(upto.drop_last() =~= fragments_of(rest_text@.take(i as int)));
            assert(upto.last() == f);
        }
        let mut joined: bool = false;
        if new_group.len() > 0 {
            let n: usize = new_group.len() - 1;
            let lastx: usize = new_group[n].0;
            let last_width: usize = str_width(new_group[n].1.as_str());
            assert(before.last() == fragment_of(new_group@[n as int]));
            if start >= lastx && start - lastx == last_width {
                let last = new_group.pop().unwrap();
                let mut merged: String = last.1;
                merged.append(rest.as_str());
                new_group.push((last.0, merged));
                joined = true;
                assert(fragments_of(new_group@) =~= merge_in(before, f));
            }
        }
        if !joined {
            new_group.push((start, rest));
            assert(fragments_of(new_group@) =~= merge_in(before, f));
        }
        i = i + 1;
    }
    proof {
        assert(rest_text@.take(rest_text.len() as int) =~= rest_text@);
        lemma_regroup_settled(fragments_of(rest_text@));
    }
    new_group
}

/// The spaces that bring a line of `columns` columns up to the column
/// `start`: none where the line already reaches it.
pub open spec fn padding(columns: nat, start: nat) -> Seq<char> {
    if start > columns {
        spaces((start - columns) as nat)
    } else {
        Seq::empty()
    }
}

/// The fragments laid out as one line: each is put behind the ones before
/// it, after the spaces that bring it to its column.
pub open spec fn unify(rest: Seq<Fragment>) -> Seq<char>
    decreases rest.len(),
{
    if rest.len() == 0 {
        Seq::empty()
    } else {
        let before = unify(rest.drop_last());
        before + padding(text_columns(before), rest.last().start) + rest.last().text
    }
}

impl Body {
    /// The leftover text as one line, every run at its own column.
    pub fn unify_rest_text(&self) -> (unified: String)
        ensures
            unified@ == unify(self@.rest),
    {
        let mut unified = String::new();
        let mut i: usize = 0;
        while i < self.rest_str.len()
            invariant
                i <= self.rest_str.len(),
                unified@ == unify(fragments_of(self.rest_str@.take(i as int))),
            decreases self.rest_str.len() - i,
        {
            let sx: usize = self.rest_str[i].0;
            let ghost before = unified@;
            proof {
                let upto = fragments_of(self.rest_str@.take(i + 1));
                assert(upto.drop_last() =~= fragments_of(self.rest_str@.take(i as int)));
                assert(upto.last() == fragment_of(self.rest_str@[i as int]));
            }
            let width: usize = str_width(unified.as_str());
            if sx > width {
                let lacks: usize = sx - width;
                let mut k: usize = 0;
                while k < lacks
                    invariant
                        k <= lacks,
                        unified@ == before + spaces(k as nat),
                    decreases lacks - k,
                {
                    push_char(&mut unified, ' ');
                    k = k + 1;
                    assert(unified@ =~= before + spaces(k as nat));
                }
            }
            assert(unified@ =~= before + padding(text_columns(before), sx as nat));
            unified.append(self.rest_str[i].1.as_str());
            i = i + 1;
        }
        proof {
            assert(self.rest_str@.take(self.rest_str.len() as int) =~= self.rest_str@);
        }
        unified
    }
}

/// No fragment starts in the column at which the one before it ends.
pub open spec fn settled(rest: Seq<Fragment>) -> bool {
    forall|i: int| 0 <= i < rest.len() - 1 ==> fragment_end(#[trigger] rest[i]) != rest[i + 1].start
}

/// No fragment starts before the one before it ends.
pub open spec fn ordered(rest: Seq<Fragment>) -> bool {
    forall|i: int| 0 <= i < rest.len() - 1 ==> fragment_end(#[trigger] rest[i]) <= rest[i + 1].start
}

/// After joining, no two neighbours touch.
pub proof fn lemma_regroup_settled(rest: Seq<Fragment>)
    ensures
        settled(regroup(rest)),
    decreases rest.len(),
{
    if rest.len() > 0 {
        lemma_regroup_settled(rest.drop_last());
        let g = regroup(rest.drop_last());
        let f = rest.last();
        let h = merge_in(g, f);
        assert forall|i: int| 0 <= i < h.len() - 1 implies fragment_end(#[trigger] h[i]) != h[i
            + 1].start by {
            if i < g.len() - 2 {
                assert(h[i] == g[i]);
                assert(h[i + 1] == g[i + 1]);
            } else if g.len() > 0 && fragment_end(g.last()) == f.start {
                assert(h[i] == g[i]);
                assert(h[i + 1].start == g[i + 1].start);
            } else if i == g.len() - 2 {
                assert(h[i] == g[i]);
                assert(h[i + 1] == g[i + 1]);
            } else {
                assert(h[i] == g.last());
            }
        }
    }
}

/// Where no two neighbours touch, joining changes nothing.
pub proof fn lemma_regroup_of_settled(rest: Seq<Fragment>)
    requires
        settled(rest),
    ensures
        regroup(rest) == rest,
    decreases rest.len(),
{
    if rest.len() > 0 {
        let g = rest.drop_last();
        assert forall|i: int| 0 <= i < g.len() - 1 implies fragment_end(#[trigger] g[i]) != g[i
            + 1].start by {
            assert(g[i] == rest[i]);
            assert(g[i + 1] == rest[i + 1]);
        }
        lemma_regroup_of_settled(g);
        if g.len() > 0 {
            assert(g.last() == rest[rest.len() - 2]);
        }
        assert(g.push(rest.last()) =~= rest);
    } else {
        assert(regroup(rest) =~= rest);
    }
}

/// Joining is idempotent: joined once, a list of fragments stays as it is
/// when it is joined again.
pub proof fn lemma_regroup_idempotent(rest: Seq<Fragment>)
    ensures
        regroup(regroup(rest)) == regroup(rest),
{
    lemma_regroup_settled(rest);
    lemma_regroup_of_settled(regroup(rest));
}

/// Joining does not change the line that the fragments lay out.
pub proof fn lemma_unify_regroup(rest: Seq<Fragment>)
    ensures
        unify(regroup(rest)) == unify(rest),
    decreases rest.len(),
{
    if rest.len() > 0 {
        lemma_unify_regroup(rest.drop_last());
        let g = regroup(rest.drop_last());
        let f = rest.last();
        if g.len() > 0 && fragment_end(g.last()) == f.start {
            let last = g.last();
            let merged = Fragment { start: last.start, text: last.text + f.text };
            let h = g.drop_last().push(merged);
            let u = unify(g.drop_last());
            let pad = padding(text_columns(u), last.start);
            assert(h.drop_last() =~= g.drop_last());
            assert(unify(h) == u + pad + (last.text + f.text));
            assert(unify(g) == u + pad + last.text);
            lemma_columns_concat(u, pad);
            lemma_columns_concat(u + pad, last.text);
            lemma_columns_spaces((last.start - text_columns(u)) as nat);
            assert(padding(text_columns(unify(g)), f.start) =~= Seq::<char>::empty());
            assert(unify(rest) =~= unify(h));
        } else {
            assert(g.push(f).drop_last() =~= g);
        }
    }
}

/// Laid out, fragments of which none starts before the last one ends reach
/// exactly to the end of the last of them.
pub proof fn lemma_unify_columns(rest: Seq<Fragment>)
    requires
        ordered(rest),
    ensures
        rest.len() == 0 ==> text_columns(unify(rest)) == 0,
        rest.len() > 0 ==> text_columns(unify(rest)) == fragment_end(rest.last()),
    decreases rest.len(),
{
    if rest.len() > 0 {
        let g = rest.drop_last();
        assert forall|i: int| 0 <= i < g.len() - 1 implies fragment_end(#[trigger] g[i]) <= g[i
            + 1].start by {
            assert(g[i] == rest[i]);
            assert(g[i + 1] == rest[i + 1]);
        }
        lemma_unify_columns(g);
        let u = unify(g);
        let f = rest.last();
        if g.len() > 0 {
            assert(g.last() == rest[rest.len() - 2]);
        }
        assert(text_columns(u) <= f.start);
        let pad = padding(text_columns(u), f.start);
        lemma_columns_spaces((f.start - text_columns(u)) as nat);
        lemma_columns_concat(u, pad);
        lemma_columns_concat(u + pad, f.text);
    }
}

} // verus!
