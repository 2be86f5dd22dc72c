//! Rebuilding per-metric sample streams from an event log: a sequence of
//! records that declare metrics and carry single samples.
//!
//! The aggregator is generic over the sample type: it only routes samples
//! to their metric, and never looks inside one.
use vstd::prelude::*;
use crate::model::{MetricType, Threshold};
use crate::order::reversed;
use crate::text::{views, split_text, trim_text, trimmed, split_spec};

verus! {

broadcast use vstd::std_specs::vec::group_vec_axioms;

/// One decoded line of an event log.
pub struct EventRecord<V> {
    /// `"Metric"` declares a metric, `"Point"` carries a sample; other
    /// values are ignored.
    pub line_type: String,
    pub metric: String,
    /// The declared kind of a metric, by name.
    pub declared_type: Option<String>,
    pub contains: Option<String>,
    pub thresholds: Vec<String>,
    pub time: Option<String>,
    pub value: Option<V>,
    /// The keys of the record's tag mapping, if it has one.
    pub tag_keys: Option<Vec<String>>,
}

/// The content of a record as plain values.
pub struct RecordView<V> {
    pub line_type: Seq<char>,
    pub metric: Seq<char>,
    pub declared_type: Option<Seq<char>>,
    pub contains: Option<Seq<char>>,
    pub thresholds: Seq<Seq<char>>,
    pub time: Option<Seq<char>>,
    pub value: Option<V>,
    pub tag_keys: Option<Seq<Seq<char>>>,
}

/// The view of an optional string.
pub open spec fn opt_view(o: Option<String>) -> Option<Seq<char>> {
    match o {
        Some(s) => Some(s@),
        None => None,
    }
}

impl<V> View for EventRecord<V> {
    type V = RecordView<V>;

    open spec fn view(&self) -> RecordView<V> {
        RecordView {
            line_type: self.line_type@,
            metric: self.metric@,
            declared_type: opt_view(self.declared_type),
            contains: opt_view(self.contains),
            thresholds: views(self.thresholds@),
            time: opt_view(self.time),
            value: self.value,
            tag_keys: match self.tag_keys {
                Some(k) => Some(views(k@)),
                None => None,
            },
        }
    }
}

/// The kind a metric declaration names; an unknown or absent name means
/// a trend.
pub open spec fn kind_named(name: Option<Seq<char>>) -> MetricType {
    match name {
        Some(n) => if n == "counter"@ {
            MetricType::Counter
        } else if n == "rate"@ {
            MetricType::Rate
        } else if n == "gauge"@ {
            MetricType::Gauge
        } else {
            MetricType::Trend
        },
        None => MetricType::Trend,
    }
}

/// The kind that a declared type name stands for.
pub fn metric_type_from_name(name: &Option<String>) -> (r: MetricType)
    ensures
        r == kind_named(opt_view(*name)),
{
    match name {
        Some(n) => {
            if *n == String::from_str("counter") {
                MetricType::Counter
            } else if *n == String::from_str("rate") {
                MetricType::Rate
            } else if *n == String::from_str("gauge") {
                MetricType::Gauge
            } else {
                MetricType::Trend
            }
        },
        None => MetricType::Trend,
    }
}

/// A point whose tags hold any key besides `group` is a breakdown of its
/// metric, not a sample of the metric itself.
pub open spec fn is_sub_metric(tag_keys: Option<Seq<Seq<char>>>) -> bool {
    match tag_keys {
        Some(keys) => has_key_besides_group(keys),
        None => false,
    }
}

/// Whether some key differs from `group`.
pub open spec fn has_key_besides_group(keys: Seq<Seq<char>>) -> bool {
    exists|i: int| 0 <= i < keys.len() && #[trigger] keys[i] != "group"@
}

/// Whether a point with these tag keys is a sub-metric breakdown.
pub fn sub_metric_tags(tag_keys: &Option<Vec<String>>) -> (r: bool)
    ensures
        r == is_sub_metric(
            match *tag_keys {
                Some(k) => Some(views(k@)),
                None => None,
            },
        ),
{
    match tag_keys {
        Some(keys) => {
            let group = String::from_str("group");
            let mut i: usize = 0;
            while i < keys.len()
                invariant
                    i <= keys@.len(),
                    group@ == "group"@,
                    *tag_keys == Some(*keys),
                    forall|k: int| 0 <= k < i ==> views(keys@)[k] == "group"@,
                decreases keys@.len() - i,
            {
                if !(keys[i] == group) {
                    assert(views(keys@).len() == keys@.len());
                    assert(views(keys@)[i as int] != "group"@);
                    return true;
                }
                i = i + 1;
            }
            false
        },
        None => false,
    }
}

/// The declarations and samples gathered for one metric.
pub struct MetricCollector<V> {
    pub metric_type: MetricType,
    pub contains: String,
    pub values: Vec<V>,
    pub thresholds: Vec<String>,
}

/// A collector as plain values.
pub struct CollectorView<V> {
    pub kind: MetricType,
    pub contains: Seq<char>,
    pub values: Seq<V>,
    pub thresholds: Seq<Seq<char>>,
}

impl<V> View for MetricCollector<V> {
    type V = CollectorView<V>;

    open spec fn view(&self) -> CollectorView<V> {
        CollectorView {
            kind: self.metric_type,
            contains: self.contains@,
            values: self.values@,
            thresholds: views(self.thresholds@),
        }
    }
}

/// The state of an event-log replay: one collector per metric name, in the
/// order the names were first seen, and the first and last sample times.
pub struct EventLog<V> {
    names: Vec<String>,
    collectors: Vec<MetricCollector<V>>,
    first_time: Option<String>,
    last_time: Option<String>,
}

/// A replay state as plain values.
pub struct LogView<V> {
    pub names: Seq<Seq<char>>,
    pub collectors: Seq<CollectorView<V>>,
    pub first_time: Option<Seq<char>>,
    pub last_time: Option<Seq<char>>,
}

impl<V> View for EventLog<V> {
    type V = LogView<V>;

    closed spec fn view(&self) -> LogView<V> {
        LogView {
            names: views(self.names@),
            collectors: self.collectors@.map_values(|c: MetricCollector<V>| c@),
            first_time: opt_view(self.first_time),
            last_time: opt_view(self.last_time),
        }
    }
}

/// No metric and no sample time yet.
pub open spec fn empty_log<V>() -> LogView<V> {
    LogView { names: Seq::empty(), collectors: Seq::empty(), first_time: None, last_time: None }
}

/// The collector that a metric declaration opens.
pub open spec fn declared<V>(r: RecordView<V>) -> CollectorView<V> {
    CollectorView {
        kind: kind_named(r.declared_type),
        contains: match r.contains {
            Some(c) => c,
            None => Seq::empty(),
        },
        values: Seq::empty(),
        thresholds: r.thresholds,
    }
}

/// Opens a collector for `name` unless one exists: the first declaration wins.
pub open spec fn register<V>(l: LogView<V>, name: Seq<char>, c: CollectorView<V>) -> LogView<V> {
    if l.names.contains(name) {
        l
    } else {
        LogView { names: l.names.push(name), collectors: l.collectors.push(c), ..l }
    }
}

/// Appends a sample to the collector of `name`, opening a trend collector
/// for an undeclared name.
pub open spec fn add_sample<V>(l: LogView<V>, name: Seq<char>, v: V) -> LogView<V> {
    if l.names.contains(name) {
        let i = choose|i: int| 0 <= i < l.names.len() && l.names[i] == name;
        let c = l.collectors[i];
        LogView {
            collectors: l.collectors.update(i, CollectorView { values: c.values.push(v), ..c }),
            ..l
        }
    } else {
        LogView {
            names: l.names.push(name),
            collectors: l.collectors.push(
                CollectorView {
                    kind: MetricType::Trend,
                    contains: Seq::empty(),
                    values: seq![v],
                    thresholds: Seq::empty(),
                },
            ),
            ..l
        }
    }
}

/// Records the time of a sample: the first one stays, the last one moves.
pub open spec fn note_time<V>(l: LogView<V>, t: Option<Seq<char>>) -> LogView<V> {
    match t {
        Some(t) => LogView {
            first_time: if l.first_time is None {
                Some(t)
            } else {
                l.first_time
            },
            last_time: Some(t),
            ..l
        },
        None => l,
    }
}

/// The effect of one record. A declaration opens a collector; a point with
/// a value counts its time and, unless it is a sub-metric breakdown, adds
/// its value to its metric; anything else changes nothing.
pub open spec fn step<V>(l: LogView<V>, r: RecordView<V>) -> LogView<V> {
    if r.line_type == "Metric"@ {
        register(l, r.metric, declared(r))
    } else if r.line_type == "Point"@ && r.value is Some {
        let timed = note_time(l, r.time);
        if is_sub_metric(r.tag_keys) {
            timed
        } else {
            add_sample(timed, r.metric, r.value->0)
        }
    } else {
        l
    }
}

/// The state after replaying records in order from the empty state.
pub open spec fn replay<V>(rs: Seq<RecordView<V>>) -> LogView<V>
    decreases rs.len(),
{
    if rs.len() == 0 {
        empty_log()
    } else {
        step(replay(rs.drop_last()), rs.last())
    }
}

impl<V> EventLog<V> {
    /// One collector per name, and no name twice.
    pub closed spec fn wf(&self) -> bool {
        &&& self.names@.len() == self.collectors@.len()
        &&& forall|i: int, j: int|
            0 <= i < j < self.names@.len() ==> self.names@[i]@ != self.names@[j]@
    }

    pub fn new() -> (r: EventLog<V>)
        ensures
            r.wf(),
            r@ == empty_log::<V>(),
    {
        let r = EventLog {
            names: Vec::new(),
            collectors: Vec::new(),
            first_time: None,
            last_time: None,
        };
        assert(r@.names =~= Seq::<Seq<char>>::empty());
        assert(r@.collectors =~= Seq::<CollectorView<V>>::empty());
        r
    }

    /// The position of `name`, if it has a collector.
    fn find(&self, name: &String) -> (r: Option<usize>)
        requires
            self.wf(),
        ensures
            match r {
                Some(i) => i < self.names@.len() && self@.names[i as int] == name@,
                None => !self@.names.contains(name@),
            },
    {
        let mut i: usize = 0;
        while i < self.names.len()
            invariant
                i <= self.names@.len(),
                forall|k: int| 0 <= k < i ==> self.names@[k]@ != name@,
            decreases self.names@.len() - i,
        {
            if self.names[i] == *name {
                return Some(i);
            }
            i = i + 1;
        }
        None
    }

    /// Takes in one record.
    pub fn add(&mut self, rec: EventRecord<V>)
        requires
            old(self).wf(),
        ensures
            final(self).wf(),
            final(self)@ == step(old(self)@, rec@),
    {
        let ghost r = rec@;
        let metric_word = String::from_str("Metric");
        let point_word = String::from_str("Point");
        if rec.line_type == metric_word {
            let kind = metric_type_from_name(&rec.declared_type);
            if self.find(&rec.metric).is_none() {
                let contains = match rec.contains {
                    Some(c) => c,
                    None => String::new(),
                };
                let c = MetricCollector {
                    metric_type: kind,
                    contains,
                    values: Vec::new(),
                    thresholds: rec.thresholds,
                };
                assert(c@ =~= declared(r));
                self.push_collector(rec.metric, c);
            }
        } else if rec.line_type == point_word && rec.value.is_some() {
            if let Some(t) = rec.time {
                if self.first_time.is_none() {
                    self.first_time = Some(t.clone());
                }
                self.last_time = Some(t);
            }
            assert(self@ == note_time(old(self)@, r.time));
            let skip = sub_metric_tags(&rec.tag_keys);
            if !skip {
                let v = rec.value.unwrap();
                match self.find(&rec.metric) {
                    Some(i) => {
                        let ghost l = self@;
                        proof {
                            let k = choose|k: int| 0 <= k < l.names.len() && l.names[k] == r.metric;
                            assert(self.names@[k]@ == self.names@[i as int]@);
                        }
                        self.collectors[i].values.push(v);
                        assert(self@.collectors =~= add_sample(l, r.metric, v).collectors);
                    },
                    None => {
                        let mut values = Vec::new();
                        values.push(v);
                        let c = MetricCollector {
                            metric_type: MetricType::Trend,
                            contains: String::new(),
                            values,
                            thresholds: Vec::new(),
                        };
                        assert(c@.values =~= seq![v]);
                        assert(c@.thresholds =~= Seq::<Seq<char>>::empty());
                        self.push_collector(rec.metric, c);
                    },
                }
            }
        }
    }

    /// The time of the first sample that carried one.
    pub fn first_time(&self) -> (r: &Option<String>)
        ensures
            opt_view(*r) == self@.first_time,
    {
        &self.first_time
    }

    /// The time of the last sample that carried one.
    pub fn last_time(&self) -> (r: &Option<String>)
        ensures
            opt_view(*r) == self@.last_time,
    {
        &self.last_time
    }

    /// The metric names and their collectors, position for position.
    pub fn into_parts(self) -> (r: (Vec<String>, Vec<MetricCollector<V>>))
        requires
            self.wf(),
        ensures
            views(r.0@) == self@.names,
            r.1@.map_values(|c: MetricCollector<V>| c@) == self@.collectors,
            r.0@.len() == r.1@.len(),
    {
        (self.names, self.collectors)
    }

    /// Appends a collector for a name that has none.
    fn push_collector(&mut self, name: String, c: MetricCollector<V>)
        requires
            old(self).wf(),
            !old(self)@.names.contains(name@),
        ensures
            final(self).wf(),
            final(self)@ == (LogView {
                names: old(self)@.names.push(name@),
                collectors: old(self)@.collectors.push(c@),
                ..old(self)@
            }),
    {
        let ghost nm = name@;
        self.names.push(name);
        self.collectors.push(c);
        proof {
            assert(self@.names =~= old(self)@.names.push(nm));
            assert(self@.collectors =~= old(self)@.collectors.push(c@));
            assert forall|i: int, j: int|
                0 <= i < j < self.names@.len() implies self.names@[i]@ != self.names@[j]@ by {
                if j == self.names@.len() - 1 {
                    assert(old(self)@.names[i] == self.names@[i]@);
                }
            }
        }
    }
}

/// The views of a sequence of records.
pub open spec fn record_views<V>(rs: Seq<EventRecord<V>>) -> Seq<RecordView<V>> {
    rs.map_values(|r: EventRecord<V>| r@)
}

/// Replays records in order from the empty state.
pub fn replay_records<V>(records: Vec<EventRecord<V>>) -> (r: EventLog<V>)
    ensures
        r.wf(),
        r@ == replay(record_views(records@)),
{
    let ghost all = record_views(records@);
    let mut backwards = reversed(records);
    let mut log = EventLog::new();
    let ghost mut done: int = 0;
    proof {
        assert(all.subrange(0, 0) =~= Seq::<RecordView<V>>::empty());
    }
    while backwards.len() > 0
        invariant
            log.wf(),
            0 <= done <= all.len(),
            done + backwards@.len() == all.len(),
            log@ == replay(all.subrange(0, done)),
            forall|k: int|
                0 <= k < backwards@.len() ==> #[trigger] backwards@[k]@ == all[all.len() - 1 - k],
        decreases backwards@.len(),
    {
        let x = backwards.pop().unwrap();
        proof {
            assert(x@ == all[done]);
            assert(all.subrange(0, done + 1).drop_last() =~= all.subrange(0, done));
        }
        log.add(x);
        proof {
            done = done + 1;
        }
    }
    assert(all.subrange(0, all.len() as int) =~= all);
    log
}

/// A threshold result for each expression, all marked as passing: an event
/// log declares thresholds but does not record their outcome.
pub fn placeholder_thresholds(exprs: &Vec<String>) -> (r: Vec<(String, Threshold)>)
    ensures
        r@.len() == exprs@.len(),
        forall|i: int| #![trigger r@[i]] 0 <= i < r@.len() ==> r@[i].0@ == exprs@[i]@ && r@[i].1.ok,
{
    let mut out: Vec<(String, Threshold)> = Vec::new();
    let mut i: usize = 0;
    while i < exprs.len()
        invariant
            i <= exprs@.len(),
            out@.len() == i,
            forall|k: int| 0 <= k < i ==> out@[k].0@ == exprs@[k]@ && out@[k].1.ok,
        decreases exprs@.len() - i,
    {
        out.push((exprs[i].clone(), Threshold { ok: true }));
        i = i + 1;
    }
    out
}

/// The record texts of an event log: each line (the text split at line
/// breaks) trimmed, blank lines left out. A carriage return before a break
/// is whitespace, so trimming removes it.
pub open spec fn kept_lines(pieces: Seq<Seq<char>>) -> Seq<Seq<char>>
    decreases pieces.len(),
{
    if pieces.len() == 0 {
        Seq::empty()
    } else {
        let rest = kept_lines(pieces.drop_last());
        let t = trimmed(pieces.last());
        if t.len() > 0 {
            rest.push(t)
        } else {
            rest
        }
    }
}

/// Frames an event log into the texts of its records.
pub fn record_lines(content: &str) -> (r: Vec<String>)
    ensures
        views(r@) == kept_lines(split_spec(content@, '\n')),
{
    let pieces = split_text(content, '\n');
    let ghost ps = views(pieces@);
    let mut out: Vec<String> = Vec::new();
    let mut i: usize = 0;
    proof {
        assert(ps.subrange(0, 0) =~= Seq::<Seq<char>>::empty());
    }
    while i < pieces.len()
        invariant
            i <= pieces@.len(),
            ps == views(pieces@),
            views(out@) == kept_lines(ps.subrange(0, i as int)),
        decreases pieces@.len() - i,
    {
        let t = trim_text(pieces[i].as_str());
        proof {
            assert(ps.subrange(0, i + 1).drop_last() =~= ps.subrange(0, i as int));
            assert(ps[i as int] == pieces@[i as int]@);
        }
        if !t.as_str().is_empty() {
            proof {
                assert(views(out@.push(t)) =~= views(out@).push(t@));
            }
            out.push(t);
        }
        i = i + 1;
    }
    proof {
        assert(ps.subrange(0, pieces@.len() as int) =~= ps);
    }
    out
}

/// The clock fields of a timestamp `<date>T<time><offset>`: the part after
/// the `T`, cut at the first `+` and then at the first `-`, split at `:`.
/// There are fields only where the text has exactly one `T` and the time
/// has exactly three parts. Dates are not read: spans across midnight are
/// out of reach of this reading.
pub open spec fn clock_fields(ts: Seq<char>) -> Option<Seq<Seq<char>>> {
    let halves = split_spec(ts, 'T');
    if halves.len() != 2 {
        None
    } else {
        let time = split_spec(split_spec(halves[1], '+')[0], '-')[0];
        let fields = split_spec(time, ':');
        if fields.len() == 3 {
            Some(fields)
        } else {
            None
        }
    }
}

/// The hour, minute and second fields of a timestamp, as texts.
pub fn time_fields(ts: &str) -> (r: Option<Vec<String>>)
    ensures
        match r {
            Some(v) => clock_fields(ts@) == Some(views(v@)),
            None => clock_fields(ts@) is None,
        },
{
    let halves = split_text(ts, 'T');
    if halves.len() != 2 {
        return None;
    }
    let before_plus = split_text(halves[1].as_str(), '+');
    let before_minus = split_text(before_plus[0].as_str(), '-');
    let fields = split_text(before_minus[0].as_str(), ':');
    if fields.len() == 3 {
        Some(fields)
    } else {
        None
    }
}

} // verus!
