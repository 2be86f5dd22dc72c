use vstd::prelude::*;
use vstd::string::StringExecFns;
use crate::text::{decimal, decimal_text};

verus! {

broadcast use vstd::std_specs::vec::group_vec_axioms;

/// The kind of a metric; the set of statistics a metric carries depends on it.
#[derive(Clone, Copy, Debug, PartialEq, Eq, Structural)]
pub enum MetricType {
    Counter,
    Rate,
    Gauge,
    Trend,
}

impl Default for MetricType {
    fn default() -> (r: MetricType)
        ensures
            r == MetricType::Trend,
    {
        MetricType::Trend
    }
}

/// The lower-case name of a kind, as it is written in inputs and reports.
pub open spec fn kind_label(k: MetricType) -> Seq<char> {
    match k {
        MetricType::Counter => "counter"@,
        MetricType::Rate => "rate"@,
        MetricType::Gauge => "gauge"@,
        MetricType::Trend => "trend"@,
    }
}

impl MetricType {
    /// The lower-case name of the kind.
    pub fn label(&self) -> (r: String)
        ensures
            r@ == kind_label(*self),
    {
        match self {
            MetricType::Counter => String::from_str("counter"),
            MetricType::Rate => String::from_str("rate"),
            MetricType::Gauge => String::from_str("gauge"),
            MetricType::Trend => String::from_str("trend"),
        }
    }
}

/// The outcome of one threshold expression.
#[derive(Clone, Copy, Debug, PartialEq, Eq, Structural)]
pub struct Threshold {
    pub ok: bool,
}

/// A named assertion with its cumulative pass and fail counts.
#[derive(Debug)]
pub struct Check {
    pub name: String,
    pub passes: u64,
    pub fails: u64,
}

/// A node of the group tree: its own checks and its child groups.
#[derive(Debug)]
pub struct Group {
    pub name: String,
    pub groups: Vec<Group>,
    pub checks: Vec<Check>,
}

/// The checks of a group in pre-order: the group's own checks, then those
/// of each child group in turn.
pub open spec fn flatten_checks(g: Group) -> Seq<Check>
    decreases g,
{
    g.checks@ + flatten_groups(g.groups@)
}

/// The checks of a sequence of groups, each flattened in pre-order.
pub open spec fn flatten_groups(gs: Seq<Group>) -> Seq<Check>
    decreases gs,
{
    if gs.len() == 0 {
        Seq::empty()
    } else {
        flatten_checks(gs[0]) + flatten_groups(gs.drop_first())
    }
}

/// Every check of the tree under `group`, in pre-order: a group's own checks
/// come before those of its child groups.
pub fn collect_checks(group: &Group) -> (r: Vec<&Check>)
    ensures
        r@.len() == flatten_checks(*group).len(),
        forall|i: int| 0 <= i < r@.len() ==> *r@[i] == flatten_checks(*group)[i],
    decreases group,
{
    let mut checks: Vec<&Check> = Vec::new();
    let mut i: usize = 0;
    while i < group.checks.len()
        invariant
            i <= group.checks@.len(),
            checks@.len() == i,
            forall|k: int| 0 <= k < i ==> *checks@[k] == group.checks@[k],
        decreases group.checks@.len() - i,
    {
        checks.push(&group.checks[i]);
        i = i + 1;
    }
    let mut j: usize = 0;
    while j < group.groups.len()
        invariant
            j <= group.groups@.len(),
            checks@.len() == group.checks@.len() + flatten_groups(group.groups@.subrange(0, j as int)).len(),
            forall|k: int|
                0 <= k < checks@.len() ==> *checks@[k] == (group.checks@ + flatten_groups(
                    group.groups@.subrange(0, j as int),
                ))[k],
        decreases group.groups@.len() - j,
    {
        let sub = collect_checks(&group.groups[j]);
        proof {
            lemma_flatten_groups_push(group.groups@.subrange(0, j as int), group.groups@[j as int]);
            assert(group.groups@.subrange(0, j as int).push(group.groups@[j as int])
                =~= group.groups@.subrange(0, j as int + 1));
        }
        let ghost before = checks@;
        let mut k: usize = 0;
        while k < sub.len()
            invariant
                k <= sub@.len(),
                checks@.len() == before.len() + k,
                forall|m: int| 0 <= m < before.len() ==> checks@[m] == before[m],
                forall|m: int| 0 <= m < k ==> checks@[before.len() + m] == sub@[m],
                before.len() == group.checks@.len() + flatten_groups(
                    group.groups@.subrange(0, j as int),
                ).len(),
                forall|m: int|
                    0 <= m < before.len() ==> *before[m] == (group.checks@ + flatten_groups(
                        group.groups@.subrange(0, j as int),
                    ))[m],
            decreases sub@.len() - k,
        {
            checks.push(sub[k]);
            k = k + 1;
        }
        proof {
            let old_flat = group.checks@ + flatten_groups(group.groups@.subrange(0, j as int));
            let new_flat = group.checks@ + flatten_groups(group.groups@.subrange(0, j as int + 1));
            assert(new_flat =~= old_flat + flatten_checks(group.groups@[j as int]));
            assert forall|m: int| 0 <= m < checks@.len() implies *checks@[m] == new_flat[m] by {
                if m >= before.len() {
                    assert(checks@[m] == sub@[m - before.len()]);
                    assert(*sub@[m - before.len()] == flatten_checks(group.groups@[j as int])[m
                        - before.len()]);
                } else {
                    assert(checks@[m] == before[m]);
                }
            }
        }
        j = j + 1;
    }
    proof {
        assert(group.groups@.subrange(0, group.groups@.len() as int) =~= group.groups@);
    }
    checks
}

/// Flattening one more group appends that group's checks.
proof fn lemma_flatten_groups_push(gs: Seq<Group>, g: Group)
    ensures
        flatten_groups(gs.push(g)) == flatten_groups(gs) + flatten_checks(g),
    decreases gs.len(),
{
    if gs.len() == 0 {
        assert(gs.push(g).drop_first() =~= Seq::<Group>::empty());
        assert(flatten_groups(Seq::<Group>::empty()) == Seq::<Check>::empty());
        assert(flatten_checks(g) + Seq::<Check>::empty() =~= flatten_checks(g));
        assert(Seq::<Check>::empty() + flatten_checks(g) =~= flatten_checks(g));
    } else {
        assert(gs.push(g).drop_first() =~= gs.drop_first().push(g));
        lemma_flatten_groups_push(gs.drop_first(), g);
        assert(flatten_checks(gs[0]) + (flatten_groups(gs.drop_first()) + flatten_checks(g))
            =~= (flatten_checks(gs[0]) + flatten_groups(gs.drop_first())) + flatten_checks(g));
    }
}

/// The mark of a check: a tick when it never failed, else a cross.
pub open spec fn check_mark(c: Check) -> Seq<char> {
    if c.fails == 0 {
        "\u{2713}"@
    } else {
        "\u{2717}"@
    }
}

/// The cells of a check's table row, given its formatted success rate: the
/// mark and name, the pass count, the fail count, and the rate.
pub fn check_cells(check: &Check, rate: &str) -> (r: Vec<String>)
    ensures
        r@.len() == 4,
        r@[0]@ == check_mark(*check) + " "@ + check.name@,
        r@[1]@ == decimal_text(check.passes as nat),
        r@[2]@ == decimal_text(check.fails as nat),
        r@[3]@ == rate@,
{
    let mut first = if check.fails == 0 {
        String::from_str("\u{2713}")
    } else {
        String::from_str("\u{2717}")
    };
    first.append(" ");
    first.append(check.name.as_str());
    let mut r: Vec<String> = Vec::new();
    r.push(first);
    r.push(decimal(check.passes));
    r.push(decimal(check.fails));
    r.push(String::from_str(rate));
    r
}

} // verus!
