//! The rows of the report's summary table: which named metrics and
//! statistics feed it, in a fixed order, leaving out any row whose source
//! is missing. The values pass through untouched.
use vstd::prelude::*;
use vstd::string::StringExecFns;

verus! {

broadcast use vstd::std_specs::vec::group_vec_axioms;

/// The rows the summary table can hold, in table order.
#[derive(Clone, Copy, Debug, PartialEq, Eq, Structural)]
pub enum SummaryItem {
    TotalRequests,
    RequestRate,
    FailedRequests,
    AvgResponseTime,
    P95ResponseTime,
    Iterations,
    VirtualUsers,
}

/// One row: the item, its value, and for failed requests the failure rate
/// if the metric has one.
#[derive(Clone, Copy, Debug, PartialEq)]
pub struct SummaryRow<V> {
    pub item: SummaryItem,
    pub value: V,
    pub extra: Option<V>,
}

/// The value under the first entry named `name`.
pub open spec fn lookup<T>(s: Seq<(String, T)>, name: Seq<char>) -> Option<T>
    decreases s.len(),
{
    if s.len() == 0 {
        None
    } else if s[0].0@ == name {
        Some(s[0].1)
    } else {
        lookup(s.drop_first(), name)
    }
}

/// The statistic `stat` of the metric `metric`, if both exist.
pub open spec fn stat_of<V>(metrics: Seq<(String, Vec<(String, V)>)>, metric: Seq<char>, stat: Seq<char>) -> Option<V> {
    match lookup(metrics, metric) {
        Some(stats) => lookup(stats@, stat),
        None => None,
    }
}

/// A row for `item` where its value exists, else nothing.
pub open spec fn row_if<V>(item: SummaryItem, value: Option<V>, extra: Option<V>) -> Seq<SummaryRow<V>> {
    match value {
        Some(v) => seq![SummaryRow { item, value: v, extra }],
        None => Seq::empty(),
    }
}

/// The summary table: total requests and request rate from `http_reqs`,
/// failed requests from `http_req_failed`, average and 95th-percentile
/// response time from `http_req_duration`, iterations, and virtual users
/// from `vus`.
pub open spec fn summary_spec<V>(m: Seq<(String, Vec<(String, V)>)>) -> Seq<SummaryRow<V>> {
    row_if(SummaryItem::TotalRequests, stat_of(m, "http_reqs"@, "count"@), None)
        + row_if(SummaryItem::RequestRate, stat_of(m, "http_reqs"@, "rate"@), None)
        + row_if(
        SummaryItem::FailedRequests,
        stat_of(m, "http_req_failed"@, "fails"@),
        stat_of(m, "http_req_failed"@, "rate"@),
    ) + row_if(SummaryItem::AvgResponseTime, stat_of(m, "http_req_duration"@, "avg"@), None)
        + row_if(SummaryItem::P95ResponseTime, stat_of(m, "http_req_duration"@, "p(95)"@), None)
        + row_if(SummaryItem::Iterations, stat_of(m, "iterations"@, "count"@), None)
        + row_if(SummaryItem::VirtualUsers, stat_of(m, "vus"@, "value"@), None)
}

/// The position of the first entry named `name`.
fn position<T>(s: &Vec<(String, T)>, name: &str) -> (r: Option<usize>)
    ensures
        match r {
            Some(i) => i < s@.len() && lookup(s@, name@) == Some(s@[i as int].1),
            None => lookup(s@, name@) is None,
        },
{
    let key = String::from_str(name);
    let mut i: usize = 0;
    proof {
        assert(s@.subrange(0, s@.len() as int) =~= s@);
    }
    while i < s.len()
        invariant
            i <= s@.len(),
            key@ == name@,
            lookup(s@, name@) == lookup(s@.subrange(i as int, s@.len() as int), name@),
        decreases s@.len() - i,
    {
        if s[i].0 == key {
            return Some(i);
        }
        proof {
            assert(s@.subrange(i as int, s@.len() as int).drop_first() =~= s@.subrange(
                i + 1,
                s@.len() as int,
            ));
        }
        i = i + 1;
    }
    None
}

/// The statistic `stat` of the metric `metric`, if both exist.
pub fn find_stat<V: Copy>(metrics: &Vec<(String, Vec<(String, V)>)>, metric: &str, stat: &str) -> (r: Option<V>)
    ensures
        r == stat_of(metrics@, metric@, stat@),
{
    match position(metrics, metric) {
        Some(i) => {
            let stats = &metrics[i].1;
            match position(stats, stat) {
                Some(j) => Some(stats[j].1),
                None => None,
            }
        },
        None => None,
    }
}

/// Appends a row for `item` where its value exists.
fn push_row<V: Copy>(rows: &mut Vec<SummaryRow<V>>, item: SummaryItem, value: Option<V>, extra: Option<V>)
    ensures
        final(rows)@ == old(rows)@ + row_if(item, value, extra),
{
    match value {
        Some(v) => {
            rows.push(SummaryRow { item, value: v, extra });
            assert(final(rows)@ =~= old(rows)@ + row_if(item, value, extra));
        },
        None => {
            assert(final(rows)@ =~= old(rows)@ + row_if(item, value, extra));
        },
    }
}

/// The rows of the summary table, in order, each present exactly when its
/// metric and statistic exist.
pub fn summary_rows<V: Copy>(metrics: &Vec<(String, Vec<(String, V)>)>) -> (r: Vec<SummaryRow<V>>)
    ensures
        r@ == summary_spec(metrics@),
{
    let mut rows: Vec<SummaryRow<V>> = Vec::new();
    push_row(&mut rows, SummaryItem::TotalRequests, find_stat(metrics, "http_reqs", "count"), None);
    push_row(&mut rows, SummaryItem::RequestRate, find_stat(metrics, "http_reqs", "rate"), None);
    push_row(
        &mut rows,
        SummaryItem::FailedRequests,
        find_stat(metrics, "http_req_failed", "fails"),
        find_stat(metrics, "http_req_failed", "rate"),
    );
    push_row(&mut rows, SummaryItem::AvgResponseTime, find_stat(metrics, "http_req_duration", "avg"), None);
    push_row(&mut rows, SummaryItem::P95ResponseTime, find_stat(metrics, "http_req_duration", "p(95)"), None);
    push_row(&mut rows, SummaryItem::Iterations, find_stat(metrics, "iterations", "count"), None);
    push_row(&mut rows, SummaryItem::VirtualUsers, find_stat(metrics, "vus", "value"), None);
    assert(rows@ =~= summary_spec(metrics@));
    rows
}

/// The label of a summary row.
pub open spec fn item_label(item: SummaryItem) -> Seq<char> {
    match item {
        SummaryItem::TotalRequests => "Total Requests"@,
        SummaryItem::RequestRate => "Request Rate"@,
        SummaryItem::FailedRequests => "Failed Requests"@,
        SummaryItem::AvgResponseTime => "Avg Response Time"@,
        SummaryItem::P95ResponseTime => "P95 Response Time"@,
        SummaryItem::Iterations => "Iterations"@,
        SummaryItem::VirtualUsers => "Virtual Users"@,
    }
}

/// The value cell of a summary row: the failed-requests row shows the
/// failure rate in parentheses after the count.
pub open spec fn item_value(item: SummaryItem, value: Seq<char>, rate: Seq<char>) -> Seq<char> {
    if item == SummaryItem::FailedRequests {
        value + " ("@ + rate + ")"@
    } else {
        value
    }
}

/// The cells of a summary row from its formatted value, and for failed
/// requests its formatted failure rate.
pub fn summary_cells(item: SummaryItem, value: &str, rate: &str) -> (r: Vec<String>)
    ensures
        r@.len() == 2,
        r@[0]@ == item_label(item),
        r@[1]@ == item_value(item, value@, rate@),
{
    let label = match item {
        SummaryItem::TotalRequests => String::from_str("Total Requests"),
        SummaryItem::RequestRate => String::from_str("Request Rate"),
        SummaryItem::FailedRequests => String::from_str("Failed Requests"),
        SummaryItem::AvgResponseTime => String::from_str("Avg Response Time"),
        SummaryItem::P95ResponseTime => String::from_str("P95 Response Time"),
        SummaryItem::Iterations => String::from_str("Iterations"),
        SummaryItem::VirtualUsers => String::from_str("Virtual Users"),
    };
    let mut cell = String::from_str(value);
    if item == SummaryItem::FailedRequests {
        cell.append(" (");
        cell.append(rate);
        cell.append(")");
    }
    let mut r: Vec<String> = Vec::new();
    r.push(label);
    r.push(cell);
    r
}

} // verus!
