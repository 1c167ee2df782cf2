//! The reporting pipeline.
//!
//! Each finished span and each event is taken through the same steps. The
//! sampler is asked whether its trace is kept. If it is, the span or event is
//! turned into a record and the record is handed to the sink, once. If it is
//! not, nothing is handed over and nothing is said about it.
//!
//! The pipeline notes each hand-off, so that what it has handed over can be
//! spoken of whatever the sink is. A sink that keeps account of its own says
//! the same of itself.

use crate::deterministic_sampler::{keep, Sampler};
use crate::record::{Fields, Record};
use crate::sink::Sink;
use crate::trace_id::TraceId;
use crate::visitor::{
    event_record, event_to_values, span_record, span_to_values, Event, HoneycombVisitor, Span,
};
use vstd::prelude::*;

verus! {

/// Telemetry capability that publishes events and spans to some backend.
pub struct HoneycombTelemetry<R> {
    reporter: R,
    sampler: Sampler,
    handed: Ghost<Seq<Fields>>,
}

/// What a sink has been handed once one more record was dealt with: the
/// record comes last if its trace is kept, and nothing changes if not.
pub open spec fn delivery(log: Seq<Fields>, kept: bool, record: Fields) -> Seq<Fields> {
    if kept {
        log.push(record)
    } else {
        log
    }
}

/// One thing that was reported: the trace it belongs to, and its record.
pub struct Reported {
    pub trace_id: Seq<char>,
    pub record: Fields,
}

/// What a sink has been handed once each of `reported` was dealt with in turn.
pub open spec fn deliveries(
    log: Seq<Fields>,
    sample_rate: Option<u32>,
    reported: Seq<Reported>,
) -> Seq<Fields>
    decreases reported.len(),
{
    if reported.len() == 0 {
        log
    } else {
        delivery(
            deliveries(log, sample_rate, reported.drop_last()),
            keep(reported.last().trace_id, sample_rate),
            reported.last().record,
        )
    }
}

/// Where every trace is kept, every record reaches the sink, once and in order.
pub proof fn lemma_kept_are_delivered(
    log: Seq<Fields>,
    sample_rate: Option<u32>,
    reported: Seq<Reported>,
)
    requires
        forall|i: int| 0 <= i < reported.len() ==> keep((#[trigger] reported[i]).trace_id, sample_rate),
    ensures
        deliveries(log, sample_rate, reported) == log + reported.map_values(
            |r: Reported| r.record,
        ),
        deliveries(log, sample_rate, reported).len() == log.len() + reported.len(),
    decreases reported.len(),
{
    let records = reported.map_values(|r: Reported| r.record);
    if reported.len() == 0 {
        assert(log + records =~= log);
    } else {
        let front = reported.drop_last();
        assert forall|i: int| 0 <= i < front.len() implies keep(
            (#[trigger] front[i]).trace_id,
            sample_rate,
        ) by {
            assert(front[i] == reported[i]);
        }
        lemma_kept_are_delivered(log, sample_rate, front);
        assert(keep(reported[reported.len() - 1].trace_id, sample_rate));
        assert((log + front.map_values(|r: Reported| r.record)).push(reported.last().record) =~= log
            + records);
    }
}

/// Where no trace is kept, no record reaches the sink.
pub proof fn lemma_dropped_are_not_delivered(
    log: Seq<Fields>,
    sample_rate: Option<u32>,
    reported: Seq<Reported>,
)
    requires
        forall|i: int|
            0 <= i < reported.len() ==> !keep((#[trigger] reported[i]).trace_id, sample_rate),
    ensures
        deliveries(log, sample_rate, reported) == log,
    decreases reported.len(),
{
    if reported.len() > 0 {
        let front = reported.drop_last();
        assert forall|i: int| 0 <= i < front.len() implies !keep(
            (#[trigger] front[i]).trace_id,
            sample_rate,
        ) by {
            assert(front[i] == reported[i]);
        }
        lemma_dropped_are_not_delivered(log, sample_rate, front);
        assert(!keep(reported[reported.len() - 1].trace_id, sample_rate));
    }
}

/// What reaches a sink is what was reported of the traces that are kept, in
/// the order of the reports: each record of a kept trace once, and no record
/// of any other trace.
pub proof fn lemma_deliveries_are_the_kept(
    log: Seq<Fields>,
    sample_rate: Option<u32>,
    reported: Seq<Reported>,
)
    ensures
        deliveries(log, sample_rate, reported) == log + reported.filter(
            |r: Reported| keep(r.trace_id, sample_rate),
        ).map_values(|r: Reported| r.record),
    decreases reported.len(),
{
    reveal(Seq::filter);
    let kept = |r: Reported| keep(r.trace_id, sample_rate);
    let record = |r: Reported| r.record;
    if reported.len() == 0 {
        assert(log + reported.filter(kept).map_values(record) =~= log);
    } else {
        let front = reported.drop_last();
        lemma_deliveries_are_the_kept(log, sample_rate, front);
        if keep(reported.last().trace_id, sample_rate) {
            assert((log + front.filter(kept).map_values(record)).push(reported.last().record)
                =~= log + reported.filter(kept).map_values(record));
        }
    }
}

/// A trace is never split: at one rate, whatever belongs to one trace is
/// either kept, all of it, or dropped, all of it.
pub proof fn lemma_trace_is_never_split(sample_rate: Option<u32>, reported: Seq<Reported>)
    ensures
        forall|i: int, j: int|
            0 <= i < reported.len() && 0 <= j < reported.len() && (#[trigger] reported[i]).trace_id
                == (#[trigger] reported[j]).trace_id ==> keep(reported[i].trace_id, sample_rate)
                == keep(reported[j].trace_id, sample_rate),
{
}

impl<R: Sink> HoneycombTelemetry<R> {
    /// The sink that the records go to.
    pub closed spec fn sink(self) -> R {
        self.reporter
    }

    /// The sample rate, if any.
    pub closed spec fn rate(self) -> Option<u32> {
        self.sampler.rate()
    }

    /// The records that the pipeline has handed to its sink, oldest first.
    pub closed spec fn handed(self) -> Seq<Fields> {
        self.handed@
    }

    /// The pipeline that reports to `reporter` about one trace in
    /// `sample_rate`, or nothing at all where there is no rate.
    pub fn new(reporter: R, sample_rate: Option<u32>) -> (telemetry: Self)
        requires
            sample_rate != Some(0u32),
        ensures
            telemetry.sink() == reporter,
            telemetry.rate() == sample_rate,
            telemetry.handed() == Seq::<Fields>::empty(),
    {
        HoneycombTelemetry {
            reporter,
            sampler: Sampler::new(sample_rate),
            handed: Ghost(Seq::empty()),
        }
    }

    fn report_data(&mut self, data: Record)
        ensures
            final(self).rate() == old(self).rate(),
            final(self).handed() == old(self).handed().push(data@),
            old(self).sink().keeps_account() ==> final(self).sink().keeps_account(),
            old(self).sink().keeps_account() ==> final(self).sink().delivered() == delivery(
                old(self).sink().delivered(),
                true,
                data@,
            ),
    {
        self.handed = Ghost(self.handed@.push(data@));
        self.reporter.report_data(data);
    }

    /// Whether what belongs to the trace is reported.
    pub fn should_report(&self, trace_id: &TraceId) -> (kept: bool)
        ensures
            kept == keep(trace_id@, self.rate()),
            self.rate() is None ==> !kept,
            self.rate() == Some(1u32) ==> kept,
    {
        self.sampler.keep(trace_id)
    }

    /// A visitor for the attributes of the next span or event.
    pub fn mk_visitor(&self) -> (visitor: HoneycombVisitor)
        ensures
            visitor@ == Fields::empty(),
    {
        HoneycombVisitor::new()
    }

    /// Reports a finished span: its record reaches the sink once if its
    /// trace is kept, and the sink is left alone if not.
    pub fn report_span(&mut self, span: Span)
        ensures
            final(self).rate() == old(self).rate(),
            final(self).handed() == delivery(
                old(self).handed(),
                keep(span.trace_id@, old(self).rate()),
                span_record(span),
            ),
            old(self).sink().keeps_account() ==> final(self).sink().keeps_account(),
            old(self).sink().keeps_account() ==> final(self).sink().delivered() == delivery(
                old(self).sink().delivered(),
                keep(span.trace_id@, old(self).rate()),
                span_record(span),
            ),
            !keep(span.trace_id@, old(self).rate()) ==> final(self).sink() == old(self).sink(),
    {
        if self.should_report(&span.trace_id) {
            let data = span_to_values(span);
            self.report_data(data);
        }
    }

    /// Reports an event: its record reaches the sink once if its trace is
    /// kept, and the sink is left alone if not.
    pub fn report_event(&mut self, event: Event)
        ensures
            final(self).rate() == old(self).rate(),
            final(self).handed() == delivery(
                old(self).handed(),
                keep(event.trace_id@, old(self).rate()),
                event_record(event),
            ),
            old(self).sink().keeps_account() ==> final(self).sink().keeps_account(),
            old(self).sink().keeps_account() ==> final(self).sink().delivered() == delivery(
                old(self).sink().delivered(),
                keep(event.trace_id@, old(self).rate()),
                event_record(event),
            ),
            !keep(event.trace_id@, old(self).rate()) ==> final(self).sink() == old(self).sink(),
    {
        if self.should_report(&event.trace_id) {
            let data = event_to_values(event);
            self.report_data(data);
        }
    }

    /// The sink that the records go to.
    pub fn reporter(&self) -> (reporter: &R)
        ensures
            *reporter == self.sink(),
    {
        &self.reporter
    }

    /// Gives up the pipeline for its sink.
    pub fn into_reporter(self) -> (reporter: R)
        ensures
            reporter == self.sink(),
    {
        self.reporter
    }
}

} // verus!
