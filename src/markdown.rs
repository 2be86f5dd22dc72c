//! The Markdown text of the report's tables, from cells that are already
//! formatted: headings, column headers, row layout, and which subsections
//! appear.
use vstd::prelude::*;
use vstd::string::StringExecFns;
use crate::events::opt_view;

verus! {

broadcast use vstd::std_specs::vec::group_vec_axioms;

/// The cells of a row, each followed by a column bar.
pub open spec fn row_body(cells: Seq<String>) -> Seq<char>
    decreases cells.len(),
{
    if cells.len() == 0 {
        Seq::empty()
    } else {
        row_body(cells.drop_last()) + " "@ + cells.last()@ + " |"@
    }
}

/// One table row: `| a | b |` and a line break.
pub open spec fn row_text(cells: Seq<String>) -> Seq<char> {
    "|"@ + row_body(cells) + "\n"@
}

/// Rows one after another.
pub open spec fn rows_text(rows: Seq<Vec<String>>) -> Seq<char>
    decreases rows.len(),
{
    if rows.len() == 0 {
        Seq::empty()
    } else {
        rows_text(rows.drop_last()) + row_text(rows.last()@)
    }
}

/// Writes one table row.
pub fn table_row(cells: &Vec<String>) -> (r: String)
    ensures
        r@ == row_text(cells@),
{
    let mut out = String::from_str("|");
    let mut i: usize = 0;
    proof {
        assert(cells@.subrange(0, 0) =~= Seq::<String>::empty());
        assert(out@ =~= "|"@ + row_body(cells@.subrange(0, 0)));
    }
    while i < cells.len()
        invariant
            i <= cells@.len(),
            out@ == "|"@ + row_body(cells@.subrange(0, i as int)),
        decreases cells@.len() - i,
    {
        let ghost before = out@;
        out.append(" ");
        out.append(cells[i].as_str());
        out.append(" |");
        proof {
            assert(cells@.subrange(0, i + 1).drop_last() =~= cells@.subrange(0, i as int));
            assert(out@ =~= before + " "@ + cells@[i as int]@ + " |"@);
        }
        i = i + 1;
    }
    proof {
        assert(cells@.subrange(0, cells@.len() as int) =~= cells@);
    }
    out.append("\n");
    out
}

/// Appends rows to a text.
fn append_rows(out: &mut String, rows: &Vec<Vec<String>>)
    ensures
        final(out)@ == old(out)@ + rows_text(rows@),
{
    let ghost start = out@;
    let mut i: usize = 0;
    proof {
        assert(rows@.subrange(0, 0) =~= Seq::<Vec<String>>::empty());
        assert(out@ =~= start + rows_text(rows@.subrange(0, 0)));
    }
    while i < rows.len()
        invariant
            i <= rows@.len(),
            out@ == start + rows_text(rows@.subrange(0, i as int)),
        decreases rows@.len() - i,
    {
        let row = table_row(&rows[i]);
        let ghost before = out@;
        out.append(row.as_str());
        proof {
            assert(rows@.subrange(0, i + 1).drop_last() =~= rows@.subrange(0, i as int));
            assert(out@ =~= before + row_text(rows@[i as int]@));
        }
        i = i + 1;
    }
    proof {
        assert(rows@.subrange(0, rows@.len() as int) =~= rows@);
    }
}

/// The table of one metric's statistics.
pub open spec fn stat_table_text(rows: Seq<Vec<String>>) -> Seq<char> {
    "| Stat | Value |\n|------|-------|\n"@ + rows_text(rows) + "\n"@
}

/// Writes the table of one metric's statistics, rows of key and value.
pub fn stat_table(rows: &Vec<Vec<String>>) -> (r: String)
    ensures
        r@ == stat_table_text(rows@),
{
    let mut out = String::from_str("| Stat | Value |\n|------|-------|\n");
    append_rows(&mut out, rows);
    out.append("\n");
    out
}

/// A titled table that appears only when it has rows.
pub open spec fn subsection_text(head: Seq<char>, rows: Seq<Vec<String>>) -> Seq<char> {
    if rows.len() == 0 {
        Seq::empty()
    } else {
        head + rows_text(rows) + "\n"@
    }
}

/// Appends a titled table when it has rows.
fn append_subsection(out: &mut String, head: &str, rows: &Vec<Vec<String>>)
    ensures
        final(out)@ == old(out)@ + subsection_text(head@, rows@),
{
    if rows.len() > 0 {
        out.append(head);
        append_rows(out, rows);
        out.append("\n");
    }
    assert(final(out)@ =~= old(out)@ + subsection_text(head@, rows@));
}

/// The formatted rows of the all-metrics section. Each row of a counter,
/// rate or gauge table starts with the metric name; a trend carries its
/// name and the rows of its statistics table.
pub struct GeneralTables {
    pub counters: Vec<Vec<String>>,
    pub rates: Vec<Vec<String>>,
    pub gauges: Vec<Vec<String>>,
    pub trends: Vec<(String, Vec<Vec<String>>)>,
}

/// The trend tables, each under its metric's name in bold.
pub open spec fn trends_body(trends: Seq<(String, Vec<Vec<String>>)>) -> Seq<char>
    decreases trends.len(),
{
    if trends.len() == 0 {
        Seq::empty()
    } else {
        trends_body(trends.drop_last()) + "**"@ + trends.last().0@ + "**\n\n"@ + stat_table_text(
            trends.last().1@,
        )
    }
}

/// The all-metrics section: counters, rates, gauges and trends in that
/// order, each only when it has metrics.
pub open spec fn all_metrics_text(t: GeneralTables) -> Seq<char> {
    "## All Metrics\n\n"@ + subsection_text(
        "### Counters\n\n| Metric | Count | Rate |\n|--------|-------|------|\n"@,
        t.counters@,
    ) + subsection_text(
        "### Rates\n\n| Metric | Rate | Passes | Fails |\n|--------|------|--------|-------|\n"@,
        t.rates@,
    ) + subsection_text(
        "### Gauges\n\n| Metric | Value | Min | Max |\n|--------|-------|-----|-----|\n"@,
        t.gauges@,
    ) + if t.trends@.len() == 0 {
        Seq::empty()
    } else {
        "### Trends\n\n"@ + trends_body(t.trends@)
    }
}

/// Writes the all-metrics section.
pub fn all_metrics_section(t: &GeneralTables) -> (r: String)
    ensures
        r@ == all_metrics_text(*t),
{
    let mut out = String::from_str("## All Metrics\n\n");
    append_subsection(
        &mut out,
        "### Counters\n\n| Metric | Count | Rate |\n|--------|-------|------|\n",
        &t.counters,
    );
    append_subsection(
        &mut out,
        "### Rates\n\n| Metric | Rate | Passes | Fails |\n|--------|------|--------|-------|\n",
        &t.rates,
    );
    append_subsection(
        &mut out,
        "### Gauges\n\n| Metric | Value | Min | Max |\n|--------|-------|-----|-----|\n",
        &t.gauges,
    );
    let ghost before_trends = out@;
    if t.trends.len() > 0 {
        out.append("### Trends\n\n");
        let ghost start = out@;
        let mut i: usize = 0;
        proof {
            assert(t.trends@.subrange(0, 0) =~= Seq::<(String, Vec<Vec<String>>)>::empty());
            assert(out@ =~= start + trends_body(t.trends@.subrange(0, 0)));
        }
        while i < t.trends.len()
            invariant
                i <= t.trends@.len(),
                out@ == start + trends_body(t.trends@.subrange(0, i as int)),
            decreases t.trends@.len() - i,
        {
            let ghost before = out@;
            out.append("**");
            out.append(t.trends[i].0.as_str());
            out.append("**\n\n");
            let table = stat_table(&t.trends[i].1);
            out.append(table.as_str());
            proof {
                assert(t.trends@.subrange(0, i + 1).drop_last() =~= t.trends@.subrange(0, i as int));
                assert(out@ =~= before + "**"@ + t.trends@[i as int].0@ + "**\n\n"@
                    + stat_table_text(t.trends@[i as int].1@));
            }
            i = i + 1;
        }
        proof {
            assert(t.trends@.subrange(0, t.trends@.len() as int) =~= t.trends@);
        }
    }
    assert(out@ =~= all_metrics_text(*t));
    out
}

/// One HTTP metric's table under its name and kind.
pub open spec fn http_body(ms: Seq<(String, String, Vec<Vec<String>>)>) -> Seq<char>
    decreases ms.len(),
{
    if ms.len() == 0 {
        Seq::empty()
    } else {
        http_body(ms.drop_last()) + "### "@ + ms.last().0@ + " ("@ + ms.last().1@ + ")\n\n"@
            + stat_table_text(ms.last().2@)
    }
}

/// The HTTP section: nothing without HTTP metrics, else each metric's
/// table under its name and kind.
pub open spec fn http_section_text(ms: Seq<(String, String, Vec<Vec<String>>)>) -> Seq<char> {
    if ms.len() == 0 {
        Seq::empty()
    } else {
        "## HTTP Metrics\n\n"@ + http_body(ms) + "---\n\n"@
    }
}

/// Writes the HTTP section from each metric's name, kind label and
/// formatted statistics rows.
pub fn http_section(ms: &Vec<(String, String, Vec<Vec<String>>)>) -> (r: String)
    ensures
        r@ == http_section_text(ms@),
{
    if ms.len() == 0 {
        return String::new();
    }
    let mut out = String::from_str("## HTTP Metrics\n\n");
    let ghost start = out@;
    let mut i: usize = 0;
    proof {
        assert(ms@.subrange(0, 0) =~= Seq::<(String, String, Vec<Vec<String>>)>::empty());
        assert(out@ =~= start + http_body(ms@.subrange(0, 0)));
    }
    while i < ms.len()
        invariant
            i <= ms@.len(),
            out@ == start + http_body(ms@.subrange(0, i as int)),
        decreases ms@.len() - i,
    {
        let ghost before = out@;
        out.append("### ");
        out.append(ms[i].0.as_str());
        out.append(" (");
        out.append(ms[i].1.as_str());
        out.append(")\n\n");
        let table = stat_table(&ms[i].2);
        out.append(table.as_str());
        proof {
            assert(ms@.subrange(0, i + 1).drop_last() =~= ms@.subrange(0, i as int));
            assert(out@ =~= before + "### "@ + ms@[i as int].0@ + " ("@ + ms@[i as int].1@
                + ")\n\n"@ + stat_table_text(ms@[i as int].2@));
        }
        i = i + 1;
    }
    proof {
        assert(ms@.subrange(0, ms@.len() as int) =~= ms@);
    }
    out.append("---\n\n");
    out
}

/// The checks section: nothing without checks, else their table.
pub open spec fn checks_section_text(rows: Seq<Vec<String>>) -> Seq<char> {
    if rows.len() == 0 {
        Seq::empty()
    } else {
        "## Checks\n\n| Check | Passes | Fails | Success Rate |\n|-------|--------|-------|-------------|\n"@
            + rows_text(rows) + "\n---\n\n"@
    }
}

/// Writes the checks section from formatted rows.
pub fn checks_section(rows: &Vec<Vec<String>>) -> (r: String)
    ensures
        r@ == checks_section_text(rows@),
{
    if rows.len() == 0 {
        return String::new();
    }
    let mut out = String::from_str(
        "## Checks\n\n| Check | Passes | Fails | Success Rate |\n|-------|--------|-------|-------------|\n",
    );
    append_rows(&mut out, rows);
    out.append("\n---\n\n");
    out
}

/// The summary section: its table, present even without rows.
pub open spec fn summary_section_text(rows: Seq<Vec<String>>) -> Seq<char> {
    "## Summary\n\n| Metric | Value |\n|--------|-------|\n"@ + rows_text(rows) + "\n---\n\n"@
}

/// Writes the summary section from formatted rows.
pub fn summary_section(rows: &Vec<Vec<String>>) -> (r: String)
    ensures
        r@ == summary_section_text(rows@),
{
    let mut out = String::from_str("## Summary\n\n| Metric | Value |\n|--------|-------|\n");
    append_rows(&mut out, rows);
    out.append("\n---\n\n");
    out
}

/// The whole report: the title, the test duration where it is known, a
/// rule, then the summary, thresholds, HTTP metrics, checks and all-metrics
/// sections in that order.
pub open spec fn report_text(
    duration: Option<Seq<char>>,
    summary: Seq<char>,
    thresholds: Seq<char>,
    http: Seq<char>,
    checks: Seq<char>,
    all: Seq<char>,
) -> Seq<char> {
    "# K6 Load Test Report\n\n"@ + (match duration {
        Some(d) => "**Test Duration:** "@ + d + "\n\n"@,
        None => Seq::empty(),
    }) + "---\n\n"@ + summary + thresholds + http + checks + all
}

/// Puts the report together from its formatted duration and its sections.
pub fn generate_report(
    duration: &Option<String>,
    summary: &str,
    thresholds: &str,
    http: &str,
    checks: &str,
    all: &str,
) -> (r: String)
    ensures
        r@ == report_text(opt_view(*duration), summary@, thresholds@, http@, checks@, all@),
{
    let mut out = String::from_str("# K6 Load Test Report\n\n");
    match duration {
        Some(d) => {
            out.append("**Test Duration:** ");
            out.append(d.as_str());
            out.append("\n\n");
        },
        None => {},
    }
    out.append("---\n\n");
    out.append(summary);
    out.append(thresholds);
    out.append(http);
    out.append(checks);
    out.append(all);
    assert(out@ =~= report_text(opt_view(*duration), summary@, thresholds@, http@, checks@, all@));
    out
}

} // verus!
