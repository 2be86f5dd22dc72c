use k6r::summary::{find_stat, summary_cells, summary_rows, SummaryItem, SummaryRow};

fn metric(name: &str, stats: &[(&str, i64)]) -> (String, Vec<(String, i64)>) {
    (name.to_string(), stats.iter().map(|(k, v)| (k.to_string(), *v)).collect())
}

#[test]
fn summary_rows_follow_fixed_order() {
    let metrics = vec![
        metric("vus", &[("value", 10), ("min", 1)]),
        metric("http_reqs", &[("count", 100), ("rate", 10)]),
        metric("http_req_failed", &[("fails", 3), ("rate", 1)]),
        metric("http_req_duration", &[("avg", 150), ("p(95)", 300)]),
        metric("iterations", &[("count", 50)]),
    ];
    let rows = summary_rows(&metrics);
    let items: Vec<SummaryItem> = rows.iter().map(|r| r.item).collect();
    assert_eq!(
        items,
        vec![
            SummaryItem::TotalRequests,
            SummaryItem::RequestRate,
            SummaryItem::FailedRequests,
            SummaryItem::AvgResponseTime,
            SummaryItem::P95ResponseTime,
            SummaryItem::Iterations,
            SummaryItem::VirtualUsers,
        ]
    );
    assert_eq!(rows[0], SummaryRow { item: SummaryItem::TotalRequests, value: 100, extra: None });
    assert_eq!(rows[2], SummaryRow { item: SummaryItem::FailedRequests, value: 3, extra: Some(1) });
    assert_eq!(rows[6].value, 10);
}

#[test]
fn summary_rows_omit_missing_sources() {
    let metrics = vec![
        metric("http_reqs", &[("count", 7)]),
        metric("http_req_failed", &[("rate", 1)]),
        metric("checks", &[("rate", 1)]),
    ];
    let rows = summary_rows(&metrics);
    assert_eq!(rows, vec![SummaryRow { item: SummaryItem::TotalRequests, value: 7, extra: None }]);
    assert!(summary_rows::<i64>(&Vec::new()).is_empty());
}

#[test]
fn failed_requests_without_rate() {
    let metrics = vec![metric("http_req_failed", &[("fails", 4)])];
    let rows = summary_rows(&metrics);
    assert_eq!(rows, vec![SummaryRow { item: SummaryItem::FailedRequests, value: 4, extra: None }]);
}

#[test]
fn stat_lookup() {
    let metrics = vec![metric("a", &[("x", 1), ("y", 2)]), metric("b", &[("x", 3)])];
    assert_eq!(find_stat(&metrics, "a", "y"), Some(2));
    assert_eq!(find_stat(&metrics, "b", "x"), Some(3));
    assert_eq!(find_stat(&metrics, "b", "y"), None);
    assert_eq!(find_stat(&metrics, "c", "x"), None);
}

#[test]
fn summary_row_cells() {
    assert_eq!(summary_cells(SummaryItem::TotalRequests, "1.50K", "x"), vec!["Total Requests", "1.50K"]);
    assert_eq!(
        summary_cells(SummaryItem::FailedRequests, "3", "0.30%"),
        vec!["Failed Requests", "3 (0.30%)"]
    );
    assert_eq!(summary_cells(SummaryItem::VirtualUsers, "10", ""), vec!["Virtual Users", "10"]);
    assert_eq!(summary_cells(SummaryItem::P95ResponseTime, "1.00ms", ""), vec!["P95 Response Time", "1.00ms"]);
}
