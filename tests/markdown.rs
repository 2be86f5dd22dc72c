use k6r::markdown::{
    all_metrics_section, checks_section, generate_report, http_section, stat_table, summary_section,
    table_row,
    GeneralTables,
};

fn row(cells: &[&str]) -> Vec<String> {
    cells.iter().map(|c| c.to_string()).collect()
}

#[test]
fn row_layout() {
    assert_eq!(table_row(&row(&["a", "b"])), "| a | b |\n");
    assert_eq!(table_row(&row(&["x"])), "| x |\n");
    assert_eq!(table_row(&Vec::new()), "|\n");
}

#[test]
fn stat_table_layout() {
    let t = stat_table(&vec![row(&["avg", "1.50ms"]), row(&["min", "1.00ms"])]);
    assert_eq!(t, "| Stat | Value |\n|------|-------|\n| avg | 1.50ms |\n| min | 1.00ms |\n\n");
}

#[test]
fn all_metrics_skips_empty_kinds() {
    let t = GeneralTables {
        counters: vec![row(&["iterations", "50", "5.00/s"])],
        rates: Vec::new(),
        gauges: vec![row(&["vus", "10.00", "1.00", "10.00"])],
        trends: vec![("iteration_duration".to_string(), vec![row(&["avg", "2.00s"])])],
    };
    assert_eq!(
        all_metrics_section(&t),
        "## All Metrics\n\n\
         ### Counters\n\n| Metric | Count | Rate |\n|--------|-------|------|\n| iterations | 50 | 5.00/s |\n\n\
         ### Gauges\n\n| Metric | Value | Min | Max |\n|--------|-------|-----|-----|\n| vus | 10.00 | 1.00 | 10.00 |\n\n\
         ### Trends\n\n**iteration_duration**\n\n| Stat | Value |\n|------|-------|\n| avg | 2.00s |\n\n"
    );
    let empty = GeneralTables { counters: Vec::new(), rates: Vec::new(), gauges: Vec::new(), trends: Vec::new() };
    assert_eq!(all_metrics_section(&empty), "## All Metrics\n\n");
}

#[test]
fn http_section_layout() {
    let ms = vec![("http_reqs".to_string(), "counter".to_string(), vec![row(&["count", "100"])])];
    assert_eq!(
        http_section(&ms),
        "## HTTP Metrics\n\n### http_reqs (counter)\n\n| Stat | Value |\n|------|-------|\n| count | 100 |\n\n---\n\n"
    );
    assert_eq!(http_section(&Vec::new()), "");
}

#[test]
fn checks_and_summary_layout() {
    assert_eq!(checks_section(&Vec::new()), "");
    assert_eq!(
        checks_section(&vec![row(&["\u{2713} ok", "3", "0", "100.00%"])]),
        "## Checks\n\n| Check | Passes | Fails | Success Rate |\n|-------|--------|-------|-------------|\n\
         | \u{2713} ok | 3 | 0 | 100.00% |\n\n---\n\n"
    );
    assert_eq!(
        summary_section(&vec![row(&["Total Requests", "100"])]),
        "## Summary\n\n| Metric | Value |\n|--------|-------|\n| Total Requests | 100 |\n\n---\n\n"
    );
    assert_eq!(summary_section(&Vec::new()), "## Summary\n\n| Metric | Value |\n|--------|-------|\n\n---\n\n");
}

#[test]
fn test_generate_report_not_empty() {
    let summary = summary_section(&vec![row(&["Total Requests", "100"]), row(&["Request Rate", "10.00/s"])]);
    let all = all_metrics_section(&GeneralTables {
        counters: Vec::new(),
        rates: Vec::new(),
        gauges: Vec::new(),
        trends: Vec::new(),
    });
    let http = http_section(&vec![(
        "http_reqs".to_string(),
        "counter".to_string(),
        vec![row(&["count", "100"]), row(&["rate", "10.00/s"])],
    )]);
    let report = generate_report(&Some("10.00s".to_string()), &summary, "", &http, "", &all);

    assert!(report.contains("# K6 Load Test Report"));
    assert!(report.contains("10.00s"));
    assert!(report.contains("100"));
}

#[test]
fn report_sections_in_fixed_order() {
    let report = generate_report(&None, "S", "T", "H", "C", "A");
    assert_eq!(report, "# K6 Load Test Report\n\n---\n\nSTHCA");
    let timed = generate_report(&Some("1.50m".to_string()), "", "", "", "", "");
    assert_eq!(timed, "# K6 Load Test Report\n\n**Test Duration:** 1.50m\n\n---\n\n");
}
