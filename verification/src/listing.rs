//! Lists of apps, in the order of their names.

use crate::model::{summaries_view, AppSummary, SummaryView};
use crate::text::{lemma_text_order, less, text_lt};
use vstd::prelude::*;

verus! {

/// How many of the leading apps in `s` do not come after `name`.
pub open spec fn rank(s: Seq<SummaryView>, name: Seq<char>) -> int
    decreases s.len(),
{
    if s.len() == 0 || text_lt(name, s[0].name) {
        0
    } else {
        1 + rank(s.skip(1), name)
    }
}

/// `s` in the order of the names; apps of one name keep their order.
pub open spec fn by_name(s: Seq<SummaryView>) -> Seq<SummaryView>
    decreases s.len(),
{
    if s.len() == 0 {
        s
    } else {
        let front = by_name(s.drop_last());
        front.insert(rank(front, s.last().name), s.last())
    }
}

/// Whether the names in `s` are in order.
pub open spec fn ordered(s: Seq<SummaryView>) -> bool {
    forall|i: int, j: int|
        0 <= i < j < s.len() ==> !text_lt(#[trigger] s[j].name, #[trigger] s[i].name)
}

proof fn lemma_rank(s: Seq<SummaryView>, name: Seq<char>)
    ensures
        0 <= rank(s, name) <= s.len(),
        rank(s, name) < s.len() ==> text_lt(name, s[rank(s, name)].name),
        forall|j: int| 0 <= j < rank(s, name) ==> !text_lt(name, (#[trigger] s[j]).name),
    decreases s.len(),
{
    if s.len() > 0 && !text_lt(name, s[0].name) {
        let t = s.skip(1);
        lemma_rank(t, name);
        assert forall|j: int| 0 <= j < rank(s, name) implies !text_lt(
            name,
            (#[trigger] s[j]).name,
        ) by {
            if j > 0 {
                assert(t[j - 1] == s[j]);
            }
        }
    }
}

proof fn lemma_rank_is(s: Seq<SummaryView>, name: Seq<char>, i: int)
    requires
        0 <= i <= s.len(),
        i < s.len() ==> text_lt(name, s[i].name),
        forall|j: int| 0 <= j < i ==> !text_lt(name, (#[trigger] s[j]).name),
    ensures
        rank(s, name) == i,
{
    lemma_rank(s, name);
    let p = rank(s, name);
    if p < i {
        assert(!text_lt(name, s[p].name));
    }
    if i < p {
        assert(!text_lt(name, s[i].name));
    }
}

/// A sorted list holds the same apps, in the order of their names.
pub proof fn law_by_name_sorts(s: Seq<SummaryView>)
    ensures
        ordered(by_name(s)),
        by_name(s).to_multiset() == s.to_multiset(),
        by_name(s).len() == s.len(),
    decreases s.len(),
{
    if s.len() > 0 {
        let front = by_name(s.drop_last());
        let x = s.last();
        let p = rank(front, x.name);
        law_by_name_sorts(s.drop_last());
        lemma_rank(front, x.name);
        let r = front.insert(p, x);
        assert forall|i: int, j: int| 0 <= i < j < r.len() implies !text_lt(
            #[trigger] r[j].name,
            #[trigger] r[i].name,
        ) by {
            if i == p {
                // The element after the place is greater, and so are all behind it.
                lemma_text_order(x.name, front[p].name, front[j - 1].name);
                lemma_text_order(front[j - 1].name, x.name, front[p].name);
                lemma_text_order(x.name, front[j - 1].name, x.name);
            } else if j == p {
                assert(!text_lt(x.name, front[i].name));
            } else {
                let a = if i < p {
                    i
                } else {
                    i - 1
                };
                let b = if j < p {
                    j
                } else {
                    j - 1
                };
                assert(r[i] == front[a] && r[j] == front[b]);
                assert(!text_lt(front[b].name, front[a].name));
            }
        }
        broadcast use vstd::seq_lib::group_to_multiset_ensures;

        assert(s =~= s.drop_last().push(x));
        assert(r.remove(p) =~= front);
        assert(r[p] == x);
        assert(r.to_multiset().count(x) > 0);
        assert(r.to_multiset() =~= front.to_multiset().insert(x));
    }
}

/// The apps in the order of their names; apps of one name keep their order.
pub fn sort_by_name(apps: Vec<AppSummary>) -> (r: Vec<AppSummary>)
    ensures
        summaries_view(r@) == by_name(summaries_view(apps@)),
{
    let ghost all = summaries_view(apps@);
    let mut rest = apps;
    let mut out: Vec<AppSummary> = Vec::new();
    let ghost mut done: int = 0;
    assert(summaries_view(out@) =~= by_name(all.take(0)));
    while rest.len() > 0
        invariant
            0 <= done <= all.len(),
            summaries_view(rest@) == all.skip(done),
            summaries_view(out@) == by_name(all.take(done)),
        decreases rest@.len(),
    {
        let ghost sorted = summaries_view(out@);
        let ghost left = summaries_view(rest@);
        assert(left.len() == rest@.len() && left.len() == all.len() - done);
        let x = rest.remove(0);
        assert(x@ == left[0]);
        let mut i: usize = 0;
        while i < out.len() && !less(x.name.as_str(), out[i].name.as_str())
            invariant
                i <= out@.len(),
                sorted == summaries_view(out@),
                forall|j: int| 0 <= j < i ==> !text_lt(x@.name, (#[trigger] sorted[j]).name),
            decreases out@.len() - i,
        {
            assert(sorted[i as int].name == out@[i as int].name@);
            i += 1;
        }
        proof {
            lemma_rank_is(sorted, x@.name, i as int);
            assert(all.take(done + 1).drop_last() =~= all.take(done));
            assert(all.take(done + 1).last() == x@);
            assert(summaries_view(rest@) =~= left.skip(1));
            assert(left.skip(1) =~= all.skip(done + 1));
            done = done + 1;
        }
        let ghost added = x@;
        out.insert(i, x);
        assert(summaries_view(out@) =~= sorted.insert(i as int, added));
    }
    assert(all.take(done) =~= all);
    out
}

} // verus!
