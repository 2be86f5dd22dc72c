use k6r::events::{
    metric_type_from_name, placeholder_thresholds, record_lines, replay_records,
    sub_metric_tags, time_fields, EventLog, EventRecord,
};
use k6r::model::MetricType;

fn declaration(metric: &str, kind: &str, contains: &str, thresholds: &[&str]) -> EventRecord<f64> {
    EventRecord {
        line_type: "Metric".to_string(),
        metric: metric.to_string(),
        declared_type: Some(kind.to_string()),
        contains: Some(contains.to_string()),
        thresholds: thresholds.iter().map(|t| t.to_string()).collect(),
        time: None,
        value: None,
        tag_keys: None,
    }
}

fn point(metric: &str, time: Option<&str>, value: f64, tags: Option<&[&str]>) -> EventRecord<f64> {
    EventRecord {
        line_type: "Point".to_string(),
        metric: metric.to_string(),
        declared_type: None,
        contains: None,
        thresholds: Vec::new(),
        time: time.map(|t| t.to_string()),
        value: Some(value),
        tag_keys: tags.map(|ks| ks.iter().map(|k| k.to_string()).collect()),
    }
}

#[test]
fn trend_declaration_then_two_points() {
    let records = vec![
        declaration("d", "trend", "time", &[]),
        point("d", Some("2024-01-01T10:00:00.000+00:00"), 100.0, None),
        point("d", Some("2024-01-01T10:00:01.000+00:00"), 200.0, None),
    ];
    let log = replay_records(records);
    assert_eq!(log.first_time().as_deref(), Some("2024-01-01T10:00:00.000+00:00"));
    assert_eq!(log.last_time().as_deref(), Some("2024-01-01T10:00:01.000+00:00"));
    let (names, collectors) = log.into_parts();
    assert_eq!(names, vec!["d".to_string()]);
    assert_eq!(collectors[0].metric_type, MetricType::Trend);
    assert_eq!(collectors[0].contains, "time");
    assert_eq!(collectors[0].values, vec![100.0, 200.0]);
}

#[test]
fn first_declaration_wins() {
    let records = vec![
        declaration("c", "counter", "default", &["count>1"]),
        declaration("c", "gauge", "time", &[]),
    ];
    let (names, collectors) = replay_records(records).into_parts();
    assert_eq!(names.len(), 1);
    assert_eq!(collectors[0].metric_type, MetricType::Counter);
    assert_eq!(collectors[0].contains, "default");
    assert_eq!(collectors[0].thresholds, vec!["count>1".to_string()]);
}

#[test]
fn undeclared_point_opens_a_trend() {
    let mut log = EventLog::new();
    log.add(point("x", None, 7.0, None));
    assert_eq!(log.first_time(), &None);
    let (names, collectors) = log.into_parts();
    assert_eq!(names, vec!["x".to_string()]);
    assert_eq!(collectors[0].metric_type, MetricType::Trend);
    assert_eq!(collectors[0].contains, "");
    assert_eq!(collectors[0].values, vec![7.0]);
}

#[test]
fn sub_metric_points_are_skipped_but_timed() {
    let records = vec![
        point("r", Some("T1"), 1.0, Some(&["expected_response"])),
        point("r", Some("T2"), 2.0, Some(&["group"])),
        point("r", Some("T3"), 3.0, Some(&[])),
    ];
    let log = replay_records(records);
    assert_eq!(log.first_time().as_deref(), Some("T1"));
    assert_eq!(log.last_time().as_deref(), Some("T3"));
    let (_, collectors) = log.into_parts();
    assert_eq!(collectors[0].values, vec![2.0, 3.0]);
}

#[test]
fn other_records_and_valueless_points_change_nothing() {
    let mut other = point("z", Some("T"), 1.0, None);
    other.line_type = "Summary".to_string();
    let mut empty = point("z", Some("T"), 1.0, None);
    empty.value = None;
    let log = replay_records(vec![other, empty]);
    assert_eq!(log.first_time(), &None);
    assert!(log.into_parts().0.is_empty());
}

#[test]
fn kind_names() {
    assert_eq!(metric_type_from_name(&Some("counter".to_string())), MetricType::Counter);
    assert_eq!(metric_type_from_name(&Some("rate".to_string())), MetricType::Rate);
    assert_eq!(metric_type_from_name(&Some("gauge".to_string())), MetricType::Gauge);
    assert_eq!(metric_type_from_name(&Some("trend".to_string())), MetricType::Trend);
    assert_eq!(metric_type_from_name(&Some("histogram".to_string())), MetricType::Trend);
    assert_eq!(metric_type_from_name(&None), MetricType::Trend);
    assert_eq!(MetricType::Gauge.label(), "gauge");
    assert_eq!(MetricType::default(), MetricType::Trend);
}

#[test]
fn sub_metric_tag_rule() {
    assert!(!sub_metric_tags(&None));
    assert!(!sub_metric_tags(&Some(vec![])));
    assert!(!sub_metric_tags(&Some(vec!["group".to_string()])));
    assert!(sub_metric_tags(&Some(vec!["group".to_string(), "status".to_string()])));
}

#[test]
fn record_lines_trim_and_drop_blanks() {
    let content = "  {\"a\":1}\r\n\n   \n{\"b\":2}";
    assert_eq!(record_lines(content), vec!["{\"a\":1}".to_string(), "{\"b\":2}".to_string()]);
    assert!(record_lines("").is_empty());
    assert_eq!(record_lines("\t a b \r\n\t\n"), vec!["a b".to_string()]);
}

#[test]
fn timestamp_fields() {
    assert_eq!(
        time_fields("2017-05-09T14:34:45.625742514+02:00"),
        Some(vec!["14".to_string(), "34".to_string(), "45.625742514".to_string()])
    );
    assert_eq!(
        time_fields("2017-05-09T14:34:45.5-05:00"),
        Some(vec!["14".to_string(), "34".to_string(), "45.5".to_string()])
    );
    assert_eq!(time_fields("2017-05-09 14:34:45"), None);
    assert_eq!(time_fields("2017-05-09T14:34"), None);
    assert_eq!(time_fields("T1T2"), None);
}

#[test]
fn thresholds_from_event_log_pass() {
    let t = placeholder_thresholds(&vec!["p(95)<500".to_string(), "rate<0.01".to_string()]);
    assert_eq!(t.len(), 2);
    assert_eq!(t[0].0, "p(95)<500");
    assert!(t[0].1.ok && t[1].1.ok);
    assert_eq!(t[1].0, "rate<0.01");
}
