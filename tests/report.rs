use k6r::model::check_cells;
use k6r::text::decimal;
use k6r::model::{collect_checks, Check, Group, MetricType};
use k6r::report::{
    generate_thresholds_section, group_general_metrics, http_metrics, is_general_metric,
    is_http_metric, order_stats, order_thresholds, stat_rank,
};

fn check(name: &str, passes: u64, fails: u64) -> Check {
    Check { name: name.to_string(), passes, fails }
}

#[test]
fn checks_are_collected_in_pre_order() {
    let root = Group {
        name: String::new(),
        groups: vec![
            Group {
                name: "a".to_string(),
                groups: vec![Group { name: "a1".to_string(), groups: vec![], checks: vec![check("deep", 1, 0)] }],
                checks: vec![check("in a", 2, 1)],
            },
            Group { name: "b".to_string(), groups: vec![], checks: vec![check("in b", 0, 3)] },
        ],
        checks: vec![check("top", 5, 0)],
    };
    let names: Vec<&str> = collect_checks(&root).iter().map(|c| c.name.as_str()).collect();
    assert_eq!(names, vec!["top", "in a", "deep", "in b"]);
}

#[test]
fn empty_group_has_no_checks() {
    let root = Group { name: "r".to_string(), groups: vec![], checks: vec![] };
    assert!(collect_checks(&root).is_empty());
}

#[test]
fn failing_thresholds_come_first() {
    let rows = vec![
        ("b_metric".to_string(), "x<1".to_string(), true),
        ("z_metric".to_string(), "y<2".to_string(), false),
        ("a_metric".to_string(), "z<3".to_string(), true),
        ("c_metric".to_string(), "w<4".to_string(), false),
    ];
    let ordered: Vec<(String, bool)> =
        order_thresholds(rows).into_iter().map(|(_, n, (_, ok))| (n, ok)).collect();
    assert_eq!(
        ordered,
        vec![
            ("c_metric".to_string(), false),
            ("z_metric".to_string(), false),
            ("a_metric".to_string(), true),
            ("b_metric".to_string(), true),
        ]
    );
}

#[test]
fn thresholds_section_text() {
    let rows = vec![
        ("http_req_duration".to_string(), "p(95)<500".to_string(), true),
        ("checks".to_string(), "rate>0.9".to_string(), false),
    ];
    let text = generate_thresholds_section(rows);
    assert_eq!(
        text,
        "## Thresholds\n\n| Metric | Threshold | Status |\n|--------|-----------|--------|\n\
         | checks | `rate>0.9` | \u{2717} **FAIL** |\n\
         | http_req_duration | `p(95)<500` | \u{2713} PASS |\n\n---\n\n"
    );
    assert_eq!(generate_thresholds_section(Vec::new()), "");
}

#[test]
fn stats_priority_then_name() {
    let values = vec![
        ("p(99)".to_string(), 9),
        ("zeta".to_string(), 1),
        ("avg".to_string(), 2),
        ("count".to_string(), 3),
        ("max".to_string(), 4),
        ("med".to_string(), 5),
        ("min".to_string(), 6),
    ];
    let keys: Vec<String> = order_stats(values).into_iter().map(|(_, k, _)| k).collect();
    assert_eq!(keys, vec!["avg", "min", "med", "max", "p(99)", "count", "zeta"]);
    assert_eq!(stat_rank(&"p(90)".to_string()), 4);
    assert_eq!(stat_rank(&"rate".to_string()), 7);
}

#[test]
fn metric_sections_select_by_name() {
    assert!(is_http_metric("http_reqs"));
    assert!(!is_http_metric("http_reqs{status:200}"));
    assert!(!is_http_metric("vus"));
    assert!(is_general_metric("vus"));
    assert!(!is_general_metric("http_reqs"));
    assert!(!is_general_metric("checks{tag:x}"));
}

#[test]
fn http_metrics_sorted_by_name() {
    let metrics = vec![
        ("http_reqs".to_string(), 1),
        ("vus".to_string(), 2),
        ("http_req_duration".to_string(), 3),
        ("http_req_duration{expected_response:true}".to_string(), 4),
    ];
    let picked: Vec<(String, i32)> = http_metrics(metrics).into_iter().map(|(_, n, m)| (n, m)).collect();
    assert_eq!(picked, vec![("http_req_duration".to_string(), 3), ("http_reqs".to_string(), 1)]);
}

#[test]
fn general_metrics_grouped_by_kind() {
    let metrics = vec![
        ("vus".to_string(), MetricType::Gauge, 1),
        ("iterations".to_string(), MetricType::Counter, 2),
        ("checks".to_string(), MetricType::Rate, 3),
        ("data_sent".to_string(), MetricType::Counter, 4),
        ("iteration_duration".to_string(), MetricType::Trend, 5),
        ("http_reqs".to_string(), MetricType::Counter, 6),
        ("checks{x:y}".to_string(), MetricType::Rate, 7),
    ];
    let g = group_general_metrics(metrics);
    let names = |v: &Vec<(u64, String, i32)>| v.iter().map(|r| r.1.clone()).collect::<Vec<_>>();
    assert_eq!(names(&g.counters), vec!["data_sent", "iterations"]);
    assert_eq!(names(&g.rates), vec!["checks"]);
    assert_eq!(names(&g.gauges), vec!["vus"]);
    assert_eq!(names(&g.trends), vec!["iteration_duration"]);
}

#[test]
fn check_row_cells() {
    assert_eq!(check_cells(&check("status is 200", 120, 0), "100.00%"), vec!["\u{2713} status is 200", "120", "0", "100.00%"]);
    assert_eq!(check_cells(&check("body", 7, 3), "70.00%"), vec!["\u{2717} body", "7", "3", "70.00%"]);
}

#[test]
fn decimal_numerals() {
    assert_eq!(decimal(0), "0");
    assert_eq!(decimal(9), "9");
    assert_eq!(decimal(10), "10");
    assert_eq!(decimal(1234567890), "1234567890");
    assert_eq!(decimal(u64::MAX), u64::MAX.to_string());
}
