use vstd::prelude::*;

verus! {

/// Number of items requested per page.
pub const PAGE_SIZE: usize = 100;

/// Hard ceiling on the number of pages fetched for one aggregation.
pub const MAX_PAGES: usize = 100;

/// How the aggregator decides that the server-side collection is exhausted.
#[derive(Clone, Copy, Debug, PartialEq, Eq, Structural)]
pub enum StopRule {
    /// Stop once the accumulated item count reaches the reported total.
    ItemCount,
    /// Stop once `page * page_size` reaches the reported total; used where
    /// items are filtered after the fetch.
    PageArithmetic,
}

/// The list after appending a batch, cut down to `limit` where it is reached.
pub open spec fn capped<T>(s: Seq<T>, limit: Option<usize>) -> Seq<T> {
    match limit {
        Some(l) => if s.len() >= l { s.take(l as int) } else { s },
        None => s,
    }
}

/// Whether the limit is reached by a list of `len` items.
pub open spec fn limit_reached(len: nat, limit: Option<usize>) -> bool {
    match limit {
        Some(l) => len >= l,
        None => false,
    }
}

/// Whether the reported total says that nothing is left to fetch.
pub open spec fn total_reached(rule: StopRule, page: nat, page_size: nat, len: nat, total: nat) -> bool {
    match rule {
        StopRule::ItemCount => len >= total,
        StopRule::PageArithmetic => page * page_size >= total,
    }
}

/// Whether aggregation ends after page `page` was absorbed, where the page
/// returned `returned` raw items and the accumulated list (before any limit
/// cut) holds `len` items.
pub open spec fn stops_after(
    rule: StopRule,
    limit: Option<usize>,
    page: nat,
    page_size: nat,
    returned: nat,
    len: nat,
    total: nat,
) -> bool {
    limit_reached(len, limit) || returned < page_size || total_reached(rule, page, page_size, len, total)
        || page >= MAX_PAGES
}

/// An aggregation in the abstract: the page to fetch next, the items kept,
/// whether it has ended, and the pages fetched.
pub struct PageState<T> {
    pub page: nat,
    pub items: Seq<T>,
    pub done: bool,
    pub fetches: nat,
}

/// The state before the first fetch.
pub open spec fn start_state<T>() -> PageState<T> {
    PageState { page: 1, items: Seq::empty(), done: false, fetches: 0 }
}

/// The state after absorbing one page that returned `returned` items, of
/// which `batch` were kept, with `total` reported by the server.
pub open spec fn step<T>(
    rule: StopRule,
    limit: Option<usize>,
    page_size: nat,
    s: PageState<T>,
    returned: nat,
    batch: Seq<T>,
    total: nat,
) -> PageState<T> {
    let all = s.items + batch;
    let done = stops_after(rule, limit, s.page, page_size, returned, all.len(), total);
    PageState { page: if done { s.page } else { s.page + 1 }, items: capped(all, limit), done, fetches: s.fetches + 1 }
}

/// Runs an aggregation for at most `fuel` fetches against a server that
/// answers page `p` with `server(p) == (items returned, items kept, reported
/// total)`.
pub open spec fn run<T>(
    rule: StopRule,
    limit: Option<usize>,
    page_size: nat,
    server: spec_fn(nat) -> (nat, Seq<T>, nat),
    s: PageState<T>,
    fuel: nat,
) -> PageState<T>
    decreases fuel,
{
    if s.done || fuel == 0 {
        s
    } else {
        let answer = server(s.page);
        run(
            rule,
            limit,
            page_size,
            server,
            step(rule, limit, page_size, s, answer.0, answer.1, answer.2),
            (fuel - 1) as nat,
        )
    }
}

/// The smaller of two numbers.
pub open spec fn min_nat(a: nat, b: nat) -> nat {
    if a <= b {
        a
    } else {
        b
    }
}

/// Page `p` (1-based) of `items` cut into pages of `page_size`.
pub open spec fn page_of<T>(items: Seq<T>, page_size: nat, p: nat) -> Seq<T> {
    let n = items.len();
    items.subrange(min_nat(n, ((p - 1) * page_size) as nat) as int, min_nat(n, p * page_size) as int)
}

/// A well-behaved server holding `items`: each page in order, every item
/// kept, the true total reported.
pub open spec fn exact_server<T>(items: Seq<T>, page_size: nat) -> spec_fn(nat) -> (nat, Seq<T>, nat) {
    |p: nat| (page_of(items, page_size, p).len(), page_of(items, page_size, p), items.len())
}

/// A server that fills every page and reports `total`, of whose items
/// `kept(p)` are kept on page `p` (a filter may drop any of them).
pub open spec fn full_page_server<T>(page_size: nat, total: nat, kept: spec_fn(nat) -> Seq<T>) -> spec_fn(nat) -> (
    nat,
    Seq<T>,
    nat,
) {
    |p: nat| (page_size, kept(p), total)
}

/// Number of pages that `n` items fill, the last one possibly partial.
pub open spec fn pages_for(n: nat, page_size: nat) -> nat
    recommends
        page_size > 0,
{
    ((n + page_size - 1) as nat / page_size) as nat
}

/// Fetches made against full pages with a reported total of `total`: the
/// pages that total fills, at least one and at most `MAX_PAGES`.
pub open spec fn full_page_fetches(total: nat, page_size: nat) -> nat {
    let p = pages_for(total, page_size);
    if p <= 1 {
        1
    } else if p >= MAX_PAGES {
        MAX_PAGES as nat
    } else {
        p
    }
}

proof fn lemma_pages_for(n: nat, page_size: nat)
    requires
        page_size > 0,
    ensures
        pages_for(n, page_size) * page_size >= n,
        pages_for(n, page_size) > 0 ==> (pages_for(n, page_size) - 1) * page_size < n,
{
    let last = pages_for(n, page_size);
    let x = (n + page_size - 1) as nat;
    vstd::arithmetic::div_mod::lemma_fundamental_div_mod(x as int, page_size as int);
    vstd::arithmetic::div_mod::lemma_mod_bound(x as int, page_size as int);
    assert(page_size * last >= n);
    assert(last * page_size == page_size * last) by (nonlinear_arith);
    if last > 0 {
        assert((last - 1) * page_size == page_size * last - page_size) by (nonlinear_arith)
            requires
                last > 0,
        ;
    }
}

proof fn lemma_run_ends<T>(
    rule: StopRule,
    limit: Option<usize>,
    page_size: nat,
    server: spec_fn(nat) -> (nat, Seq<T>, nat),
    s: PageState<T>,
    fuel: nat,
)
    requires
        !s.done ==> 1 <= s.page <= MAX_PAGES && fuel >= MAX_PAGES - s.page + 1,
        !s.done ==> s.fetches == s.page - 1,
        s.done ==> s.fetches <= MAX_PAGES,
    ensures
        run(rule, limit, page_size, server, s, fuel).done,
        run(rule, limit, page_size, server, s, fuel).fetches <= MAX_PAGES,
    decreases fuel,
{
    if !s.done && fuel > 0 {
        let answer = server(s.page);
        lemma_run_ends(
            rule,
            limit,
            page_size,
            server,
            step(rule, limit, page_size, s, answer.0, answer.1, answer.2),
            (fuel - 1) as nat,
        );
    }
}

/// Whatever a server reports, even a total that can never be reached, an
/// aggregation ends within `MAX_PAGES` fetches.
pub proof fn law_pagination_is_bounded<T>(
    rule: StopRule,
    limit: Option<usize>,
    page_size: nat,
    server: spec_fn(nat) -> (nat, Seq<T>, nat),
)
    ensures
        run(rule, limit, page_size, server, start_state(), MAX_PAGES as nat).done,
        run(rule, limit, page_size, server, start_state(), MAX_PAGES as nat).fetches <= MAX_PAGES,
{
    lemma_run_ends(rule, limit, page_size, server, start_state::<T>(), MAX_PAGES as nat);
}

proof fn lemma_exact_run<T>(items: Seq<T>, page_size: nat, last: nat, k: nat, fuel: nat)
    requires
        page_size > 0,
        1 <= k <= last <= MAX_PAGES,
        (last - 1) * page_size < items.len() <= last * page_size,
        fuel >= last - k + 1,
    ensures
        run(
            StopRule::ItemCount,
            None,
            page_size,
            exact_server(items, page_size),
            PageState {
                page: k,
                items: items.take(((k - 1) * page_size) as int),
                done: false,
                fetches: (k - 1) as nat,
            },
            fuel,
        ) == (PageState { page: last, items: items, done: true, fetches: last }),
    decreases last - k,
{
    let n = items.len();
    let s = PageState {
        page: k,
        items: items.take(((k - 1) * page_size) as int),
        done: false,
        fetches: (k - 1) as nat,
    };
    let batch = page_of(items, page_size, k);
    assert((k - 1) * page_size + page_size == k * page_size) by (nonlinear_arith);
    assert((k - 1) * page_size <= (last - 1) * page_size) by (nonlinear_arith)
        requires
            k <= last,
    ;
    let all = s.items + batch;
    if k < last {
        assert(k * page_size <= (last - 1) * page_size) by (nonlinear_arith)
            requires
                k <= last - 1,
        ;
        assert(all =~= items.take((k * page_size) as int));
        let next = step(StopRule::ItemCount, None, page_size, s, batch.len(), batch, n);
        assert(!next.done);
        lemma_exact_run(items, page_size, last, k + 1, (fuel - 1) as nat);
        assert(next == (PageState {
            page: k + 1,
            items: items.take((((k + 1) - 1) * page_size) as int),
            done: false,
            fetches: ((k + 1) - 1) as nat,
        }));
    } else {
        assert(all =~= items);
        let next = step(StopRule::ItemCount, None, page_size, s, batch.len(), batch, n);
        assert(next.done);
        assert(next == (PageState { page: last, items: items, done: true, fetches: last }));
        reveal_with_fuel(run, 2);
    }
}

/// A server that holds `items` and reports them faithfully is drained in
/// exactly `pages_for(n, page_size)` fetches, which return all its items, in
/// order, none dropped or repeated.
pub proof fn law_pagination_is_exact<T>(items: Seq<T>, page_size: nat)
    requires
        page_size > 0,
        0 < items.len() <= MAX_PAGES * page_size,
    ensures
        run(StopRule::ItemCount, None, page_size, exact_server(items, page_size), start_state(), MAX_PAGES as nat)
            == (PageState {
            page: pages_for(items.len(), page_size),
            items: items,
            done: true,
            fetches: pages_for(items.len(), page_size),
        }),
{
    let n = items.len();
    let last = pages_for(n, page_size);
    lemma_pages_for(n, page_size);
    assert(last >= 1) by (nonlinear_arith)
        requires
            last * page_size >= n,
            n > 0,
    ;
    assert(last <= MAX_PAGES) by (nonlinear_arith)
        requires
            (last - 1) * page_size < n,
            n <= MAX_PAGES * page_size,
            page_size > 0,
    ;
    lemma_exact_run(items, page_size, last, 1, MAX_PAGES as nat);
    assert(items.take(((1 - 1) * page_size) as int) =~= Seq::<T>::empty());
}

proof fn lemma_full_run<T>(
    rule: StopRule,
    page_size: nat,
    total: nat,
    kept: spec_fn(nat) -> Seq<T>,
    s: PageState<T>,
    fuel: nat,
)
    requires
        page_size > 0,
        rule == StopRule::ItemCount ==> forall|p: nat| #[trigger] kept(p).len() == page_size,
        !s.done,
        1 <= s.page <= full_page_fetches(total, page_size),
        s.fetches == s.page - 1,
        rule == StopRule::ItemCount ==> s.items.len() == (s.page - 1) * page_size,
        fuel >= full_page_fetches(total, page_size) - s.page + 1,
    ensures
        run(rule, None, page_size, full_page_server(page_size, total, kept), s, fuel).done,
        run(rule, None, page_size, full_page_server(page_size, total, kept), s, fuel).fetches == full_page_fetches(
            total,
            page_size,
        ),
        rule == StopRule::ItemCount ==> run(
            rule,
            None,
            page_size,
            full_page_server(page_size, total, kept),
            s,
            fuel,
        ).items.len() == full_page_fetches(total, page_size) * page_size,
    decreases fuel,
{
    let last = full_page_fetches(total, page_size);
    let p = pages_for(total, page_size);
    let k = s.page;
    lemma_pages_for(total, page_size);
    let batch = kept(k);
    let next = step(rule, None, page_size, s, page_size, batch, total);
    assert((k - 1) * page_size + page_size == k * page_size) by (nonlinear_arith);
    if k < last {
        assert(k < p && k < MAX_PAGES);
        assert(k * page_size <= (p - 1) * page_size) by (nonlinear_arith)
            requires
                k <= p - 1,
        ;
        assert(!next.done);
        lemma_full_run(rule, page_size, total, kept, next, (fuel - 1) as nat);
    } else {
        if k < MAX_PAGES {
            if p == 0 {
                assert(total == 0) by (nonlinear_arith)
                    requires
                        p * page_size >= total,
                        p == 0,
                ;
            } else {
                assert(k == p);
            }
        }
        assert(next.done);
        reveal_with_fuel(run, 2);
    }
}

/// Against full pages and a reported total of `total`, an aggregation
/// without a limit makes exactly `full_page_fetches(total, page_size)`
/// fetches, whatever a filter keeps of each page when the page-arithmetic
/// rule is used: it stops once `page * page_size` reaches the total, and at
/// the page ceiling where the total can never be reached. Under the
/// item-count rule every item of each page is kept.
pub proof fn law_full_pages_fetch_count<T>(
    rule: StopRule,
    page_size: nat,
    total: nat,
    kept: spec_fn(nat) -> Seq<T>,
)
    requires
        page_size > 0,
        rule == StopRule::ItemCount ==> forall|p: nat| #[trigger] kept(p).len() == page_size,
    ensures
        ({
            let r = run(rule, None, page_size, full_page_server(page_size, total, kept), start_state(), MAX_PAGES as nat);
            &&& r.done
            &&& r.fetches == full_page_fetches(total, page_size)
            &&& rule == StopRule::ItemCount ==> r.items.len() == r.fetches * page_size
        }),
{
    lemma_full_run(rule, page_size, total, kept, start_state::<T>(), MAX_PAGES as nat);
}

/// Accumulates the pages of one paginated resource and decides when to stop.
///
/// The caller fetches page `page` while `done` is false and hands each result
/// to `absorb`.
pub struct Paginator<T> {
    pub rule: StopRule,
    pub page_size: usize,
    pub limit: Option<usize>,
    /// The page to fetch next (1-based); the last page fetched once `done`.
    pub page: usize,
    pub items: Vec<T>,
    pub done: bool,
    /// Number of pages absorbed so far.
    pub fetches: usize,
}

impl<T> Paginator<T> {
    /// The aggregation in the abstract.
    pub open spec fn state(&self) -> PageState<T> {
        PageState { page: self.page as nat, items: self.items@, done: self.done, fetches: self.fetches as nat }
    }

    pub open spec fn wf(&self) -> bool {
        &&& self.page_size > 0
        &&& 1 <= self.page <= MAX_PAGES
        &&& self.fetches == if self.done { self.page as int } else { self.page - 1 }
        &&& self.limit matches Some(l) ==> self.items@.len() <= l
    }

    /// Starts an aggregation at page 1 with nothing accumulated.
    pub fn new(rule: StopRule, page_size: usize, limit: Option<usize>) -> (r: Self)
        requires
            page_size > 0,
        ensures
            r.wf(),
            r.rule == rule,
            r.page_size == page_size,
            r.limit == limit,
            r.page == 1,
            r.items@ == Seq::<T>::empty(),
            r.fetches == 0,
            !r.done,
    {
        Paginator { rule, page_size, limit, page: 1, items: Vec::new(), done: false, fetches: 0 }
    }

    /// Absorbs the result of fetching page `self.page`: `batch` holds the
    /// items kept from it, `returned` the number of items the server sent,
    /// and `total` the total the server reported.
    pub fn absorb(&mut self, batch: Vec<T>, returned: usize, total: usize)
        requires
            old(self).wf(),
            !old(self).done,
        ensures
            final(self).wf(),
            final(self).rule == old(self).rule,
            final(self).page_size == old(self).page_size,
            final(self).limit == old(self).limit,
            final(self).items@ == capped(old(self).items@ + batch@, old(self).limit),
            final(self).done == stops_after(
                old(self).rule,
                old(self).limit,
                old(self).page as nat,
                old(self).page_size as nat,
                returned as nat,
                (old(self).items@.len() + batch@.len()) as nat,
                total as nat,
            ),
            final(self).page == if final(self).done { old(self).page as int } else { old(self).page + 1 },
            final(self).fetches == old(self).fetches + 1,
            final(self).state() == step(
                old(self).rule,
                old(self).limit,
                old(self).page_size as nat,
                old(self).state(),
                returned as nat,
                batch@,
                total as nat,
            ),
    {
        let ghost before = self.items@;
        let ghost added = batch@;
        let mut batch = batch;
        self.items.append(&mut batch);
        assert(self.items@ == before + added);
        let len = self.items.len();
        let mut stop = false;
        if let Some(l) = self.limit {
            if len >= l {
                self.items.truncate(l);
                stop = true;
            }
        }
        if returned < self.page_size {
            stop = true;
        }
        match self.rule {
            StopRule::ItemCount => {
                if len >= total {
                    stop = true;
                }
            },
            StopRule::PageArithmetic => {
                let page = self.page as u128;
                let size = self.page_size as u128;
                assert(page * size <= 100 * size) by (nonlinear_arith)
                    requires page <= 100;
                if page * size >= total as u128 {
                    stop = true;
                }
            },
        }
        if self.page >= MAX_PAGES {
            stop = true;
        }
        self.fetches = self.fetches + 1;
        if stop {
            self.done = true;
        } else {
            self.page = self.page + 1;
        }
    }
}

} // verus!
