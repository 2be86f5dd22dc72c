//! The rules that decide what the report shows and in which order, and the
//! thresholds table, which holds no measured numbers.
use vstd::prelude::*;
use crate::model::MetricType;
use crate::order::{key_lt, key_of, sort_by_key, sorted_by_key};
use crate::text::{has_char, has_prefix, starts_with, text_lt};
use vstd::string::StringExecFns;

verus! {

broadcast use vstd::std_specs::vec::group_vec_axioms;

/// Whether a metric belongs to the HTTP section: its name starts with
/// `http_` and names no sub-metric (no `{`).
pub open spec fn is_http_name(name: Seq<char>) -> bool {
    starts_with(name, "http_"@) && !name.contains('{')
}

/// Whether a metric belongs to the all-metrics section: not an HTTP metric
/// and not a sub-metric.
pub open spec fn is_general_name(name: Seq<char>) -> bool {
    !starts_with(name, "http_"@) && !name.contains('{')
}

/// Whether a metric goes to the HTTP section.
pub fn is_http_metric(name: &str) -> (r: bool)
    ensures
        r == is_http_name(name@),
{
    has_prefix(name, "http_") && !has_char(name, '{')
}

/// Whether a metric goes to the all-metrics section.
pub fn is_general_metric(name: &str) -> (r: bool)
    ensures
        r == is_general_name(name@),
{
    !has_prefix(name, "http_") && !has_char(name, '{')
}

/// The statistics shown first, in this order; the others follow by name.
pub open spec fn priority_stats() -> Seq<Seq<char>> {
    seq!["avg"@, "min"@, "med"@, "max"@, "p(90)"@, "p(95)"@, "p(99)"@]
}

/// The rank of a statistic's name: its place among the priority names, or
/// one past them.
pub open spec fn stat_rank_of(key: Seq<char>) -> u64 {
    if exists|i: int| 0 <= i < 7 && priority_stats()[i] == key {
        (choose|i: int| 0 <= i < 7 && priority_stats()[i] == key) as u64
    } else {
        7
    }
}

/// The rank of a statistic's name in its table.
pub fn stat_rank(key: &String) -> (r: u64)
    ensures
        r == stat_rank_of(key@),
{
    let names = [
        String::from_str("avg"),
        String::from_str("min"),
        String::from_str("med"),
        String::from_str("max"),
        String::from_str("p(90)"),
        String::from_str("p(95)"),
        String::from_str("p(99)"),
    ];
    let ghost ps = priority_stats();
    assert(forall|k: int| 0 <= k < 7 ==> names@[k]@ == ps[k]);
    proof {
        assert forall|a: int, b: int| 0 <= a < b < 7 implies ps[a] != ps[b] by {
            reveal_strlit("avg");
            reveal_strlit("min");
            reveal_strlit("med");
            reveal_strlit("max");
            reveal_strlit("p(90)");
            reveal_strlit("p(95)");
            reveal_strlit("p(99)");
            if ps[a] == ps[b] {
                assert(ps[a].len() == ps[b].len());
                assert(ps[a][0] == ps[b][0]);
                assert(ps[a][1] == ps[b][1]);
                if ps[a].len() == 5 {
                    assert(ps[a][3] == ps[b][3]);
                }
            }
        }
    }
    let mut i: usize = 0;
    while i < 7
        invariant
            i <= 7,
            ps == priority_stats(),
            ps.len() == 7,
            forall|k: int| 0 <= k < 7 ==> names@[k]@ == ps[k],
            forall|k: int| 0 <= k < i ==> ps[k] != key@,
            forall|a: int, b: int| 0 <= a < b < 7 ==> ps[a] != ps[b],
        decreases 7 - i,
    {
        if names[i] == *key {
            proof {
                assert(ps[i as int] == key@);
                let c = choose|c: int| 0 <= c < 7 && priority_stats()[c] == key@;
                assert(c == i as int);
            }
            return i as u64;
        }
        i = i + 1;
    }
    7
}

/// Statistic rows with their ranks.
pub open spec fn ranked_stats<V>(s: Seq<(String, V)>) -> Seq<(u64, String, V)> {
    s.map_values(|p: (String, V)| (stat_rank_of(p.0@), p.0, p.1))
}

/// Orders the statistics of a metric for its table: the priority names in
/// their fixed order, then the rest by name.
pub fn order_stats<V>(values: Vec<(String, V)>) -> (r: Vec<(u64, String, V)>)
    ensures
        sorted_by_key(r@),
        r@.to_multiset() == ranked_stats(values@).to_multiset(),
{
    let ghost orig = values@;
    let mut rest = values;
    let mut ranked: Vec<(u64, String, V)> = Vec::new();
    while rest.len() > 0
        invariant
            ranked_stats(orig) == ranked_stats(rest@) + ranked@.reverse(),
        decreases rest@.len(),
    {
        let ghost before = rest@;
        let ghost before_ranked = ranked@;
        let (key, v) = rest.pop().unwrap();
        let rank = stat_rank(&key);
        ranked.push((rank, key, v));
        proof {
            assert(ranked_stats(before) =~= ranked_stats(rest@).push(ranked@.last()));
            assert(ranked@.reverse() =~= seq![ranked@.last()] + before_ranked.reverse());
            assert(ranked_stats(rest@).push(ranked@.last()) + before_ranked.reverse()
                =~= ranked_stats(rest@) + ranked@.reverse());
        }
    }
    proof {
        assert(ranked_stats(rest@) =~= Seq::<(u64, String, V)>::empty());
        assert(ranked_stats(orig) =~= ranked@.reverse());
        ranked@.lemma_reverse_to_multiset();
    }
    sort_by_key(ranked)
}

/// A threshold row keyed for sorting: failing rows rank before passing
/// ones, then rows go by metric name.
pub open spec fn keyed_thresholds(s: Seq<(String, String, bool)>) -> Seq<(u64, String, (String, bool))> {
    s.map_values(|t: (String, String, bool)| ((if t.2 { 1u64 } else { 0u64 }), t.0, (t.1, t.2)))
}

/// Orders threshold rows (metric name, expression, passed): failing rows
/// first, each group by metric name.
pub fn order_thresholds(rows: Vec<(String, String, bool)>) -> (r: Vec<(u64, String, (String, bool))>)
    ensures
        sorted_by_key(r@),
        r@.to_multiset() == keyed_thresholds(rows@).to_multiset(),
{
    let ghost orig = rows@;
    let mut rest = rows;
    let mut keyed: Vec<(u64, String, (String, bool))> = Vec::new();
    while rest.len() > 0
        invariant
            keyed_thresholds(orig) == keyed_thresholds(rest@) + keyed@.reverse(),
        decreases rest@.len(),
    {
        let ghost before = rest@;
        let ghost before_keyed = keyed@;
        let (metric, expr, ok) = rest.pop().unwrap();
        let rank: u64 = if ok { 1 } else { 0 };
        keyed.push((rank, metric, (expr, ok)));
        proof {
            assert(keyed_thresholds(before) =~= keyed_thresholds(rest@).push(keyed@.last()));
            assert(keyed@.reverse() =~= seq![keyed@.last()] + before_keyed.reverse());
            assert(keyed_thresholds(rest@).push(keyed@.last()) + before_keyed.reverse()
                =~= keyed_thresholds(rest@) + keyed@.reverse());
        }
    }
    proof {
        assert(keyed_thresholds(rest@) =~= Seq::<(u64, String, (String, bool))>::empty());
        assert(keyed_thresholds(orig) =~= keyed@.reverse());
        keyed@.lemma_reverse_to_multiset();
    }
    sort_by_key(keyed)
}

/// In a sorted threshold table every failing row comes before every
/// passing row, and rows of the same outcome go by metric name.
pub proof fn lemma_failing_thresholds_first(
    rows: Seq<(String, String, bool)>,
    s: Seq<(u64, String, (String, bool))>,
)
    requires
        sorted_by_key(s),
        s.to_multiset() == keyed_thresholds(rows).to_multiset(),
    ensures
        forall|i: int, j: int| 0 <= i < j < s.len() && !s[j].2.1 ==> !s[i].2.1,
        forall|i: int, j: int|
            0 <= i < j < s.len() && s[i].2.1 == s[j].2.1 ==> !text_lt(s[j].1@, s[i].1@),
{
    assert forall|i: int| 0 <= i < s.len() implies s[i].0 == (if s[i].2.1 {
        1u64
    } else {
        0u64
    }) by {
        vstd::seq_lib::to_multiset_contains(s, s[i]);
        vstd::seq_lib::to_multiset_contains(keyed_thresholds(rows), s[i]);
        assert(s.contains(s[i]));
        let k = keyed_thresholds(rows);
        let j = choose|j: int| 0 <= j < k.len() && k[j] == s[i];
        assert(k[j] == ((if rows[j].2 { 1u64 } else { 0u64 }), rows[j].0, (rows[j].1, rows[j].2)));
    }
    assert forall|i: int, j: int| 0 <= i < j < s.len() && !s[j].2.1 implies !s[i].2.1 by {
        assert(!key_lt(key_of(s[j]), key_of(s[i])));
    }
    assert forall|i: int, j: int|
        0 <= i < j < s.len() && s[i].2.1 == s[j].2.1 implies !text_lt(s[j].1@, s[i].1@) by {
        assert(!key_lt(key_of(s[j]), key_of(s[i])));
    }
}

/// One row of the thresholds table.
pub open spec fn threshold_line(metric: Seq<char>, expr: Seq<char>, ok: bool) -> Seq<char> {
    "| "@ + metric + " | `"@ + expr + "` | "@ + (if ok {
        "\u{2713} PASS"@
    } else {
        "\u{2717} **FAIL**"@
    }) + " |\n"@
}

/// The rows of the thresholds table, in the given order.
pub open spec fn threshold_lines(s: Seq<(u64, String, (String, bool))>) -> Seq<char>
    decreases s.len(),
{
    if s.len() == 0 {
        Seq::empty()
    } else {
        threshold_lines(s.drop_last()) + threshold_line(s.last().1@, s.last().2.0@, s.last().2.1)
    }
}

/// The thresholds section around its rows.
pub open spec fn thresholds_text(s: Seq<(u64, String, (String, bool))>) -> Seq<char> {
    "## Thresholds\n\n| Metric | Threshold | Status |\n|--------|-----------|--------|\n"@
        + threshold_lines(s) + "\n---\n\n"@
}

/// Writes the thresholds section for rows in the given order.
pub fn render_thresholds(rows: &Vec<(u64, String, (String, bool))>) -> (r: String)
    ensures
        r@ == thresholds_text(rows@),
{
    let mut out = String::new();
    out.append("## Thresholds\n\n| Metric | Threshold | Status |\n|--------|-----------|--------|\n");
    let ghost head = out@;
    let mut i: usize = 0;
    proof {
        assert(rows@.subrange(0, 0) =~= Seq::<(u64, String, (String, bool))>::empty());
        assert(out@ =~= head + threshold_lines(rows@.subrange(0, 0)));
    }
    while i < rows.len()
        invariant
            i <= rows@.len(),
            head == "## Thresholds\n\n| Metric | Threshold | Status |\n|--------|-----------|--------|\n"@,
            out@ == head + threshold_lines(rows@.subrange(0, i as int)),
        decreases rows@.len() - i,
    {
        let row = &rows[i];
        let ghost before = out@;
        out.append("| ");
        out.append(row.1.as_str());
        out.append(" | `");
        out.append((row.2).0.as_str());
        out.append("` | ");
        if (row.2).1 {
            out.append("\u{2713} PASS");
        } else {
            out.append("\u{2717} **FAIL**");
        }
        out.append(" |\n");
        proof {
            assert(rows@.subrange(0, i + 1).drop_last() =~= rows@.subrange(0, i as int));
            assert(out@ =~= before + threshold_line(row.1@, row.2.0@, row.2.1));
        }
        i = i + 1;
    }
    out.append("\n---\n\n");
    proof {
        assert(rows@.subrange(0, rows@.len() as int) =~= rows@);
    }
    out
}

/// The thresholds section: nothing when there are no thresholds, else the
/// table of all rows, failing ones first and each group by metric name.
pub fn generate_thresholds_section(rows: Vec<(String, String, bool)>) -> (r: String)
    ensures
        rows@.len() == 0 ==> r@ == Seq::<char>::empty(),
        rows@.len() > 0 ==> exists|s: Seq<(u64, String, (String, bool))>|
            sorted_by_key(s) && s.to_multiset() == keyed_thresholds(rows@).to_multiset()
                && r@ == thresholds_text(s),
{
    if rows.len() == 0 {
        return String::new();
    }
    let ordered = order_thresholds(rows);
    render_thresholds(&ordered)
}

/// The metrics of the HTTP section, in input order, keyed by name.
pub open spec fn http_rows<T>(s: Seq<(String, T)>) -> Seq<(u64, String, T)>
    decreases s.len(),
{
    if s.len() == 0 {
        Seq::empty()
    } else {
        let rest = http_rows(s.drop_last());
        if is_http_name(s.last().0@) {
            rest.push((0u64, s.last().0, s.last().1))
        } else {
            rest
        }
    }
}

/// The metrics of the HTTP section, sorted by name.
pub fn http_metrics<T>(metrics: Vec<(String, T)>) -> (r: Vec<(u64, String, T)>)
    ensures
        sorted_by_key(r@),
        r@.to_multiset() == http_rows(metrics@).to_multiset(),
{
    let ghost orig = metrics@;
    let mut rest = metrics;
    let mut picked: Vec<(u64, String, T)> = Vec::new();
    proof {
        assert(orig =~= rest@);
        assert(http_rows(orig) =~= http_rows(rest@) + picked@.reverse());
    }
    while rest.len() > 0
        invariant
            http_rows(orig) == http_rows(rest@) + picked@.reverse(),
        decreases rest@.len(),
    {
        let ghost before = rest@;
        let ghost before_picked = picked@;
        let (name, m) = rest.pop().unwrap();
        proof {
            assert(before.drop_last() =~= rest@);
        }
        if is_http_metric(name.as_str()) {
            picked.push((0, name, m));
            proof {
                assert(picked@.reverse() =~= seq![picked@.last()] + before_picked.reverse());
                assert(http_rows(rest@).push(picked@.last()) + before_picked.reverse()
                    =~= http_rows(rest@) + picked@.reverse());
            }
        }
    }
    proof {
        assert(http_rows(rest@) =~= Seq::<(u64, String, T)>::empty());
        assert(http_rows(orig) =~= picked@.reverse());
        picked@.lemma_reverse_to_multiset();
    }
    sort_by_key(picked)
}

/// The metrics of one kind in the all-metrics section, in input order,
/// keyed by name.
pub open spec fn kind_rows<T>(s: Seq<(String, MetricType, T)>, kind: MetricType) -> Seq<
    (u64, String, T),
>
    decreases s.len(),
{
    if s.len() == 0 {
        Seq::empty()
    } else {
        let rest = kind_rows(s.drop_last(), kind);
        if is_general_name(s.last().0@) && s.last().1 == kind {
            rest.push((0u64, s.last().0, s.last().2))
        } else {
            rest
        }
    }
}

/// The all-metrics section's tables: one per kind, each sorted by name.
pub struct KindGroups<T> {
    pub counters: Vec<(u64, String, T)>,
    pub rates: Vec<(u64, String, T)>,
    pub gauges: Vec<(u64, String, T)>,
    pub trends: Vec<(u64, String, T)>,
}

/// Whether a table holds exactly the given rows, sorted by name.
pub open spec fn holds_sorted<T>(v: Seq<(u64, String, T)>, rows: Seq<(u64, String, T)>) -> bool {
    sorted_by_key(v) && v.to_multiset() == rows.to_multiset()
}

/// Splits the general metrics (neither HTTP nor sub-metrics) by kind, each
/// group sorted by name.
pub fn group_general_metrics<T>(metrics: Vec<(String, MetricType, T)>) -> (r: KindGroups<T>)
    ensures
        holds_sorted(r.counters@, kind_rows(metrics@, MetricType::Counter)),
        holds_sorted(r.rates@, kind_rows(metrics@, MetricType::Rate)),
        holds_sorted(r.gauges@, kind_rows(metrics@, MetricType::Gauge)),
        holds_sorted(r.trends@, kind_rows(metrics@, MetricType::Trend)),
{
    let ghost orig = metrics@;
    let mut rest = metrics;
    let mut c: Vec<(u64, String, T)> = Vec::new();
    let mut ra: Vec<(u64, String, T)> = Vec::new();
    let mut g: Vec<(u64, String, T)> = Vec::new();
    let mut t: Vec<(u64, String, T)> = Vec::new();
    while rest.len() > 0
        invariant
            kind_rows(orig, MetricType::Counter) == kind_rows(rest@, MetricType::Counter)
                + c@.reverse(),
            kind_rows(orig, MetricType::Rate) == kind_rows(rest@, MetricType::Rate) + ra@.reverse(),
            kind_rows(orig, MetricType::Gauge) == kind_rows(rest@, MetricType::Gauge)
                + g@.reverse(),
            kind_rows(orig, MetricType::Trend) == kind_rows(rest@, MetricType::Trend)
                + t@.reverse(),
        decreases rest@.len(),
    {
        let ghost before = rest@;
        let ghost (c0, r0, g0, t0) = (c@, ra@, g@, t@);
        let (name, kind, m) = rest.pop().unwrap();
        proof {
            assert(before.drop_last() =~= rest@);
        }
        if is_general_metric(name.as_str()) {
            match kind {
                MetricType::Counter => c.push((0, name, m)),
                MetricType::Rate => ra.push((0, name, m)),
                MetricType::Gauge => g.push((0, name, m)),
                MetricType::Trend => t.push((0, name, m)),
            }
        }
        proof {
            assert(c@.reverse() =~= if c@.len() > c0.len() {
                seq![c@.last()] + c0.reverse()
            } else {
                c0.reverse()
            });
            assert(ra@.reverse() =~= if ra@.len() > r0.len() {
                seq![ra@.last()] + r0.reverse()
            } else {
                r0.reverse()
            });
            assert(g@.reverse() =~= if g@.len() > g0.len() {
                seq![g@.last()] + g0.reverse()
            } else {
                g0.reverse()
            });
            assert(t@.reverse() =~= if t@.len() > t0.len() {
                seq![t@.last()] + t0.reverse()
            } else {
                t0.reverse()
            });
            if c@.len() > c0.len() {
                assert(kind_rows(rest@, MetricType::Counter).push(c@.last()) + c0.reverse()
                    =~= kind_rows(rest@, MetricType::Counter) + c@.reverse());
            }
            if ra@.len() > r0.len() {
                assert(kind_rows(rest@, MetricType::Rate).push(ra@.last()) + r0.reverse()
                    =~= kind_rows(rest@, MetricType::Rate) + ra@.reverse());
            }
            if g@.len() > g0.len() {
                assert(kind_rows(rest@, MetricType::Gauge).push(g@.last()) + g0.reverse()
                    =~= kind_rows(rest@, MetricType::Gauge) + g@.reverse());
            }
            if t@.len() > t0.len() {
                assert(kind_rows(rest@, MetricType::Trend).push(t@.last()) + t0.reverse()
                    =~= kind_rows(rest@, MetricType::Trend) + t@.reverse());
            }
        }
    }
    proof {
        assert(kind_rows(rest@, MetricType::Counter) =~= Seq::<(u64, String, T)>::empty());
        assert(kind_rows(rest@, MetricType::Rate) =~= Seq::<(u64, String, T)>::empty());
        assert(kind_rows(rest@, MetricType::Gauge) =~= Seq::<(u64, String, T)>::empty());
        assert(kind_rows(rest@, MetricType::Trend) =~= Seq::<(u64, String, T)>::empty());
        assert(kind_rows(orig, MetricType::Counter) =~= c@.reverse());
        assert(kind_rows(orig, MetricType::Rate) =~= ra@.reverse());
        assert(kind_rows(orig, MetricType::Gauge) =~= g@.reverse());
        assert(kind_rows(orig, MetricType::Trend) =~= t@.reverse());
        c@.lemma_reverse_to_multiset();
        ra@.lemma_reverse_to_multiset();
        g@.lemma_reverse_to_multiset();
        t@.lemma_reverse_to_multiset();
    }
    KindGroups {
        counters: sort_by_key(c),
        rates: sort_by_key(ra),
        gauges: sort_by_key(g),
        trends: sort_by_key(t),
    }
}

} // verus!
