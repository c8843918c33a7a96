use sonar_cli::history::{history_finished, merge_history};
use sonar_cli::pagination::{Paginator, StopRule, MAX_PAGES, PAGE_SIZE};
use sonar_cli::types::{HistoryValue, MeasureHistory};

/// Serves `n` items in pages of `page_size`, reporting `total`; returns the
/// items kept and the number of fetches.
fn drain(n: usize, total: usize, page_size: usize, limit: Option<usize>) -> (Vec<usize>, usize) {
    let mut p = Paginator::new(StopRule::ItemCount, page_size, limit);
    let mut fetches = 0;
    while !p.done {
        let start = (p.page - 1) * page_size;
        let end = std::cmp::min(n, start + page_size);
        let batch: Vec<usize> = if start < end { (start..end).collect() } else { Vec::new() };
        let returned = batch.len();
        p.absorb(batch, returned, total);
        fetches += 1;
    }
    assert_eq!(fetches, p.fetches);
    (p.items, fetches)
}

#[test]
fn pagination_101_items_takes_two_fetches() {
    let (items, fetches) = drain(101, 101, PAGE_SIZE, None);
    assert_eq!(items.len(), 101);
    assert_eq!(fetches, 2);
    assert_eq!(items, (0..101).collect::<Vec<_>>());
}

#[test]
fn pagination_exact_multiple_of_page_size() {
    let (items, fetches) = drain(200, 200, PAGE_SIZE, None);
    assert_eq!(items.len(), 200);
    assert_eq!(fetches, 2);
}

#[test]
fn pagination_single_partial_page() {
    let (items, fetches) = drain(5, 5, PAGE_SIZE, None);
    assert_eq!(items.len(), 5);
    assert_eq!(fetches, 1);
}

#[test]
fn pagination_empty_resource_takes_one_fetch() {
    let (items, fetches) = drain(0, 0, PAGE_SIZE, None);
    assert!(items.is_empty());
    assert_eq!(fetches, 1);
}

#[test]
fn pagination_stops_at_page_ceiling() {
    // Every page is full and the total is never reached.
    let mut p = Paginator::new(StopRule::ItemCount, 2, None);
    let mut fetches = 0;
    while !p.done {
        p.absorb(vec![0u8, 0u8], 2, usize::MAX);
        fetches += 1;
    }
    assert_eq!(fetches, MAX_PAGES);
    assert_eq!(p.items.len(), 2 * MAX_PAGES);
}

#[test]
fn pagination_limit_truncates() {
    let (items, fetches) = drain(5, 5, PAGE_SIZE, Some(2));
    assert_eq!(items, vec![0, 1]);
    assert_eq!(fetches, 1);
}

#[test]
fn pagination_limit_stops_before_more_pages() {
    let (items, fetches) = drain(250, 250, PAGE_SIZE, Some(150));
    assert_eq!(items.len(), 150);
    assert_eq!(fetches, 2);
}

#[test]
fn page_arithmetic_rule_counts_pages_not_items() {
    // Only one item of each full page is kept, as a filter would do.
    let mut p = Paginator::new(StopRule::PageArithmetic, 10, None);
    let mut fetches = 0;
    while !p.done {
        p.absorb(vec![p.page], 10, 30);
        fetches += 1;
    }
    assert_eq!(fetches, 3);
    assert_eq!(p.items, vec![1, 2, 3]);
}

fn point(date: &str) -> HistoryValue {
    HistoryValue { date: date.to_string(), value: Some("1".to_string()) }
}

fn history(metric: &str, dates: &[&str]) -> MeasureHistory {
    MeasureHistory { metric: metric.to_string(), history: dates.iter().map(|d| point(d)).collect() }
}

#[test]
fn history_merge_across_pages() {
    let mut acc = Vec::new();
    merge_history(&mut acc, vec![history("coverage", &["d1"])]);
    merge_history(&mut acc, vec![history("coverage", &["d2"]), history("bugs", &["d3"])]);
    assert_eq!(acc.len(), 2);
    assert_eq!(acc[0].metric, "coverage");
    let dates: Vec<&str> = acc[0].history.iter().map(|h| h.date.as_str()).collect();
    assert_eq!(dates, vec!["d1", "d2"]);
    assert_eq!(acc[1].metric, "bugs");
    assert_eq!(acc[1].history.len(), 1);
    assert_eq!(acc[1].history[0].date, "d3");
}

#[test]
fn history_pagination_stop() {
    assert!(!history_finished(1, 100, 150));
    assert!(history_finished(2, 100, 150));
    assert!(history_finished(1, 100, 100));
    assert!(history_finished(100, 100, usize::MAX));
}

#[test]
fn page_arithmetic_with_filter_stops_at_ceiling() {
    // Every page is full, the filter keeps nothing, and the total is never reached.
    let mut p: Paginator<u32> = Paginator::new(StopRule::PageArithmetic, PAGE_SIZE, None);
    let mut fetches = 0;
    while !p.done {
        p.absorb(Vec::new(), PAGE_SIZE, 20_000);
        fetches += 1;
    }
    assert_eq!(fetches, MAX_PAGES);
    assert!(p.items.is_empty());
}

#[test]
fn page_arithmetic_with_filter_counts_pages() {
    let mut p: Paginator<u32> = Paginator::new(StopRule::PageArithmetic, PAGE_SIZE, None);
    let mut fetches = 0;
    while !p.done {
        p.absorb(vec![1], PAGE_SIZE, 250);
        fetches += 1;
    }
    assert_eq!(fetches, 3);
    assert_eq!(p.items.len(), 3);
}

#[test]
fn item_count_full_pages_unreachable_total() {
    let mut p = Paginator::new(StopRule::ItemCount, PAGE_SIZE, None);
    let mut fetches = 0;
    while !p.done {
        p.absorb(vec![0u8; PAGE_SIZE], PAGE_SIZE, 20_000);
        fetches += 1;
    }
    assert_eq!(fetches, 100);
    assert_eq!(p.items.len(), 10_000);
}
