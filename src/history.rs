use vstd::prelude::*;

use crate::pagination::{stops_after, StopRule, MAX_PAGES};
use crate::text::same_str;
use crate::types::{HistoryValue, MeasureHistory};

verus! {

/// A metric's history seen as its name and its points.
pub open spec fn history_view(m: MeasureHistory) -> (Seq<char>, Seq<HistoryValue>) {
    (m.metric@, m.history@)
}

/// The histories of a list, as names and points.
pub open spec fn histories_view(s: Seq<MeasureHistory>) -> Seq<(Seq<char>, Seq<HistoryValue>)> {
    s.map_values(|m: MeasureHistory| history_view(m))
}

/// Index of the first entry of metric `name`.
pub open spec fn metric_index(acc: Seq<(Seq<char>, Seq<HistoryValue>)>, name: Seq<char>) -> Option<int>
    decreases acc.len(),
{
    if acc.len() == 0 {
        None
    } else if acc[0].0 == name {
        Some(0)
    } else {
        match metric_index(acc.drop_first(), name) {
            Some(i) => Some(i + 1),
            None => None,
        }
    }
}

/// Merges one metric's history into the accumulated ones: its points are
/// appended to the entry of the same name, or it becomes a new last entry.
pub open spec fn merge_one(
    acc: Seq<(Seq<char>, Seq<HistoryValue>)>,
    m: (Seq<char>, Seq<HistoryValue>),
) -> Seq<(Seq<char>, Seq<HistoryValue>)> {
    match metric_index(acc, m.0) {
        Some(i) => acc.update(i, (acc[i].0, acc[i].1 + m.1)),
        None => acc.push(m),
    }
}

/// Merges the histories of one page, in order, into the accumulated ones.
pub open spec fn merge_page(
    acc: Seq<(Seq<char>, Seq<HistoryValue>)>,
    page: Seq<(Seq<char>, Seq<HistoryValue>)>,
) -> Seq<(Seq<char>, Seq<HistoryValue>)>
    decreases page.len(),
{
    if page.len() == 0 {
        acc
    } else {
        merge_one(merge_page(acc, page.drop_last()), page.last())
    }
}

proof fn lemma_metric_index_bounds(acc: Seq<(Seq<char>, Seq<HistoryValue>)>, name: Seq<char>)
    ensures
        metric_index(acc, name) matches Some(i) ==> 0 <= i < acc.len() && acc[i].0 == name,
        metric_index(acc, name) is None ==> forall|j: int| 0 <= j < acc.len() ==> acc[j].0 != name,
    decreases acc.len(),
{
    if acc.len() > 0 {
        lemma_metric_index_bounds(acc.drop_first(), name);
        assert forall|j: int| 0 < j < acc.len() implies acc[j] == acc.drop_first()[j - 1] by {}
    }
}

proof fn lemma_metric_index_first(acc: Seq<(Seq<char>, Seq<HistoryValue>)>, name: Seq<char>, i: int)
    requires
        0 <= i < acc.len(),
        acc[i].0 == name,
        forall|j: int| 0 <= j < i ==> acc[j].0 != name,
    ensures
        metric_index(acc, name) == Some(i),
    decreases acc.len(),
{
    if i > 0 {
        assert forall|j: int| 0 <= j < i - 1 implies acc.drop_first()[j].0 != name by {
            assert(acc.drop_first()[j] == acc[j + 1]);
        }
        lemma_metric_index_first(acc.drop_first(), name, i - 1);
    }
}

/// Index of the first accumulated history of the metric named `name`.
fn find_metric(acc: &Vec<MeasureHistory>, name: &str) -> (r: Option<usize>)
    ensures
        r matches Some(i) ==> metric_index(histories_view(acc@), name@) == Some(i as int),
        r is None ==> metric_index(histories_view(acc@), name@) is None,
{
    let ghost v = histories_view(acc@);
    let mut i: usize = 0;
    while i < acc.len()
        invariant
            i <= acc@.len(),
            v == histories_view(acc@),
            forall|j: int| 0 <= j < i ==> v[j].0 != name@,
        decreases acc@.len() - i,
    {
        if same_str(acc[i].metric.as_str(), name) {
            proof {
                lemma_metric_index_first(v, name@, i as int);
            }
            return Some(i);
        }
        i = i + 1;
    }
    proof {
        lemma_metric_index_bounds(v, name@);
        if metric_index(v, name@) is Some {
            let k = metric_index(v, name@)->0;
            assert(v[k].0 != name@);
        }
    }
    None
}

/// Merges one page of measure histories into the accumulated ones: a metric
/// already present gets the page's points appended, in the order received;
/// a new metric is appended as a new entry.
pub fn merge_history(acc: &mut Vec<MeasureHistory>, page: Vec<MeasureHistory>)
    ensures
        histories_view(final(acc)@) == merge_page(histories_view(old(acc)@), histories_view(page@)),
{
    let ghost start = histories_view(acc@);
    let ghost all = page@;
    let mut rest = page;
    let ghost mut i: int = 0;
    while rest.len() > 0
        invariant
            0 <= i <= all.len(),
            rest@ == all.subrange(i, all.len() as int),
            histories_view(acc@) == merge_page(start, histories_view(all.subrange(0, i))),
        decreases rest@.len(),
    {
        let ghost pre = histories_view(all.subrange(0, i));
        let ghost post = histories_view(all.subrange(0, i + 1));
        assert(post.drop_last() =~= pre);
        let mut pm = rest.remove(0);
        assert(pm == all[i]);
        assert(post.last() == history_view(pm));
        let ghost before = histories_view(acc@);
        match find_metric(acc, pm.metric.as_str()) {
            Some(k) => {
                proof {
                    lemma_metric_index_bounds(before, pm.metric@);
                }
                let ghost added = pm.history@;
                let mut entry = acc.remove(k);
                assert(history_view(entry) == before[k as int]);
                entry.history.append(&mut pm.history);
                acc.insert(k, entry);
                assert(histories_view(acc@) =~= before.update(
                    k as int,
                    (before[k as int].0, before[k as int].1 + added),
                ));
            },
            None => {
                acc.push(pm);
                assert(histories_view(acc@) =~= before.push(history_view(pm)));
            },
        }
        proof {
            i = i + 1;
        }
        assert(rest@ =~= all.subrange(i, all.len() as int));
    }
    assert(all.subrange(0, all.len() as int) =~= all);
}

/// Merging two pages one after the other gives what merging their
/// histories in one go gives: where page boundaries fall does not change the
/// merged result.
pub proof fn law_merge_is_pagewise(
    acc: Seq<(Seq<char>, Seq<HistoryValue>)>,
    first: Seq<(Seq<char>, Seq<HistoryValue>)>,
    second: Seq<(Seq<char>, Seq<HistoryValue>)>,
)
    ensures
        merge_page(merge_page(acc, first), second) == merge_page(acc, first + second),
    decreases second.len(),
{
    if second.len() > 0 {
        law_merge_is_pagewise(acc, first, second.drop_last());
        assert((first + second).drop_last() =~= first + second.drop_last());
        assert((first + second).last() == second.last());
    } else {
        assert(first + second =~= first);
    }
}

/// History pagination stops exactly where the page-arithmetic rule stops on
/// a full page without a limit, so its fetch count is the one that
/// `law_full_pages_fetch_count` gives: `full_page_fetches(total, page_size)`.
pub proof fn law_history_stop_is_page_arithmetic(page: nat, page_size: nat, len: nat, total: nat)
    ensures
        (page * page_size >= total || page >= MAX_PAGES) == stops_after(
            StopRule::PageArithmetic,
            None,
            page,
            page_size,
            page_size,
            len,
            total,
        ),
{
}

/// Whether history pagination ends after page `page`: the pages fetched
/// cover the reported total of points, or the page ceiling is reached.
pub fn history_finished(page: usize, page_size: usize, total: usize) -> (r: bool)
    ensures
        r == (page * page_size >= total || page >= MAX_PAGES),
{
    if page >= MAX_PAGES {
        return true;
    }
    let p = page as u128;
    let s = page_size as u128;
    assert(p * s <= 100 * s) by (nonlinear_arith)
        requires
            p <= 100,
    ;
    p * s >= total as u128
}

} // verus!
