use vstd::prelude::*;

use crate::drift::{
    compute_drift, drift_ms, measured_duration, measured_span, valid_interval, DriftError,
    SpanUnit,
};
use crate::movement::Movement;
use crate::sample::{CalendarDate, WatchTimePair};

verus! {

/// One timing session of a watch: the synchronisation that opened it, the
/// one that closed it, and the drift computed from the two, in milliseconds
/// per unit of the watch's movement.
#[derive(Clone, Copy, Debug, PartialEq, Eq, Structural)]
pub struct Measure {
    pub drift: Option<i128>,
    pub measure_start: Option<WatchTimePair>,
    pub measure_end: Option<WatchTimePair>,
}

/// Why an operation on a watch was refused. The watch is left as it was.
#[derive(Clone, Copy, Debug, PartialEq, Eq, Structural)]
pub enum WatchError {
    /// A measure would end at or before the real time that it started at.
    InvalidInterval,
    /// There is no measure to end.
    NoActiveMeasure,
    /// A name query is not a pattern that compiles.
    InvalidPattern,
}

impl Measure {
    /// Both synchronisations are present.
    pub open spec fn has_samples(self) -> bool {
        self.measure_start is Some && self.measure_end is Some
    }

    pub open spec fn spec_is_complete(self) -> bool {
        self.has_samples() && self.drift is Some
    }

    pub open spec fn spec_is_in_progress(self) -> bool {
        self.measure_start is Some && self.measure_end is None
    }

    /// A drift can be computed for the measure, or none is owed.
    pub open spec fn can_reconcile(self) -> bool {
        self.has_samples() ==> valid_interval(
            self.measure_start->Some_0,
            self.measure_end->Some_0,
        )
    }

    /// The measure with its drift recomputed against `unit_ms`: the drift of
    /// its two synchronisations where it has both, no drift otherwise.
    pub open spec fn reconciled(self, unit_ms: int) -> Measure {
        Measure {
            drift: if self.has_samples() {
                Some(
                    drift_ms(self.measure_start->Some_0, self.measure_end->Some_0, unit_ms) as i128,
                )
            } else {
                None
            },
            measure_start: self.measure_start,
            measure_end: self.measure_end,
        }
    }

    /// A measure that has just been started.
    pub fn started(sample: WatchTimePair) -> (r: Measure)
        ensures
            r == (Measure { drift: None, measure_start: Some(sample), measure_end: None }),
    {
        Measure { drift: None, measure_start: Some(sample), measure_end: None }
    }

    pub fn is_complete(&self) -> (r: bool)
        ensures
            r == self.spec_is_complete(),
    {
        self.measure_start.is_some() && self.measure_end.is_some() && self.drift.is_some()
    }

    pub fn is_in_progress(&self) -> (r: bool)
        ensures
            r == self.spec_is_in_progress(),
    {
        self.measure_start.is_some() && self.measure_end.is_none()
    }

    /// Recomputes the drift against `unit_ms`; refused, with the measure left
    /// as it was, where its real time does not move forward.
    pub fn recompute(&mut self, unit_ms: u32) -> (r: Result<(), DriftError>)
        ensures
            r is Ok <==> old(self).can_reconcile(),
            r is Ok ==> *final(self) == old(self).reconciled(unit_ms as int),
            r is Err ==> *final(self) == *old(self) && r == Err::<(), DriftError>(
                DriftError::InvalidInterval,
            ),
    {
        match (self.measure_start, self.measure_end) {
            (Some(start), Some(end)) => match compute_drift(&start, &end, unit_ms) {
                Ok(d) => {
                    self.drift = Some(d);
                    Ok(())
                },
                Err(e) => Err(e),
            },
            _ => {
                self.drift = None;
                Ok(())
            },
        }
    }

    /// The real time that the measure spans, in hundredths of a day, or of an
    /// hour where it is under a day.
    pub fn get_measure_time(&self) -> (r: (i64, SpanUnit))
        requires
            self.has_samples(),
        ensures
            r.0 == measured_span(self.measure_start->Some_0, self.measure_end->Some_0).0,
            r.1 == measured_span(self.measure_start->Some_0, self.measure_end->Some_0).1,
    {
        match (self.measure_start, self.measure_end) {
            (Some(start), Some(end)) => measured_duration(&start, &end),
            _ => {
                proof {
                    assert(false);
                }
                (0, SpanUnit::Hours)
            },
        }
    }
}

/// Every measure can be reconciled.
pub open spec fn all_reconcilable(measures: Seq<Measure>) -> bool {
    forall|i: int| 0 <= i < measures.len() ==> #[trigger] measures[i].can_reconcile()
}

/// Every measure reconciled against `unit_ms`.
pub open spec fn recalculated(measures: Seq<Measure>, unit_ms: int) -> Seq<Measure> {
    measures.map_values(|m: Measure| m.reconciled(unit_ms))
}

/// The last measure of the sequence that is complete.
pub open spec fn last_complete(measures: Seq<Measure>) -> Option<Measure>
    decreases measures.len(),
{
    if measures.len() == 0 {
        None
    } else if measures.last().spec_is_complete() {
        Some(measures.last())
    } else {
        last_complete(measures.drop_last())
    }
}

/// The wear log after `date` is logged: unchanged where it holds the date.
pub open spec fn with_date_logged(logs: Seq<CalendarDate>, date: CalendarDate) -> Seq<
    CalendarDate,
> {
    if logs.contains(date) {
        logs
    } else {
        logs.push(date)
    }
}

/// Recomputing every drift twice in a row gives what recomputing once gave:
/// the second pass succeeds wherever the first did, and leaves each measure,
/// its drift included, as the first pass left it.
pub proof fn lemma_recalculate_idempotent(measures: Seq<Measure>, unit_ms: int)
    requires
        all_reconcilable(measures),
    ensures
        all_reconcilable(recalculated(measures, unit_ms)),
        recalculated(recalculated(measures, unit_ms), unit_ms) == recalculated(measures, unit_ms),
{
    let once = recalculated(measures, unit_ms);
    assert forall|i: int| 0 <= i < once.len() implies #[trigger] once[i].can_reconcile() by {
        assert(measures[i].can_reconcile());
    }
    assert(recalculated(once, unit_ms) =~= once);
}

/// Logging a day twice leaves it logged exactly once, where it was logged at
/// most once before; the second logging changes nothing.
pub proof fn lemma_log_same_day_twice(logs: Seq<CalendarDate>, date: CalendarDate)
    requires
        forall|i: int, j: int|
            0 <= i < logs.len() && 0 <= j < logs.len() && logs[i] == date && logs[j] == date ==> i
                == j,
    ensures
        with_date_logged(with_date_logged(logs, date), date) == with_date_logged(logs, date),
        with_date_logged(logs, date).contains(date),
        forall|i: int, j: int|
            0 <= i < with_date_logged(logs, date).len() && 0 <= j < with_date_logged(
                logs,
                date,
            ).len() && with_date_logged(logs, date)[i] == date && with_date_logged(logs, date)[j]
                == date ==> i == j,
{
    let once = with_date_logged(logs, date);
    if !logs.contains(date) {
        assert(once[logs.len() as int] == date);
        assert forall|i: int| 0 <= i < logs.len() implies once[i] != date by {
            assert(once[i] == logs[i]);
        }
    }
}

/// Logging two different days that are not logged yet adds two entries, one
/// for each day, in the order logged.
pub proof fn lemma_log_two_days(logs: Seq<CalendarDate>, first: CalendarDate, second: CalendarDate)
    requires
        first != second,
        !logs.contains(first),
        !logs.contains(second),
    ensures
        with_date_logged(with_date_logged(logs, first), second) == logs.push(first).push(second),
        with_date_logged(with_date_logged(logs, first), second).len() == logs.len() + 2,
{
    let once = logs.push(first);
    assert forall|i: int| 0 <= i < once.len() implies once[i] != second by {
        if i < logs.len() {
            assert(once[i] == logs[i]);
        }
    }
}

/// A watch with its history of measures (oldest first) and the days it was
/// worn on.
pub struct Watch {
    pub name: String,
    pub movement: Movement,
    pub logs: Vec<CalendarDate>,
    pub measures: Vec<Measure>,
}

/// What a watch holds, as mathematical values.
pub struct WatchView {
    pub name: Seq<char>,
    pub movement: Movement,
    pub logs: Seq<CalendarDate>,
    pub measures: Seq<Measure>,
}

impl View for Watch {
    type V = WatchView;

    open spec fn view(&self) -> WatchView {
        WatchView {
            name: self.name@,
            movement: self.movement,
            logs: self.logs@,
            measures: self.measures@,
        }
    }
}

impl WatchView {
    /// The drift unit of the watch's movement, in milliseconds.
    pub open spec fn unit_ms(self) -> int {
        self.movement.unit_ms()
    }
}

impl Watch {
    /// A watch with no measures and no wears.
    pub fn new(name: String, movement: Movement) -> (r: Watch)
        ensures
            r@ == (WatchView {
                name: name@,
                movement,
                logs: Seq::empty(),
                measures: Seq::empty(),
            }),
    {
        Watch { name, movement, logs: Vec::new(), measures: Vec::new() }
    }

    /// The same watch, field for field.
    pub fn duplicate(&self) -> (r: Watch)
        ensures
            r@ == self@,
    {
        let mut logs: Vec<CalendarDate> = Vec::new();
        let mut i: usize = 0;
        while i < self.logs.len()
            invariant
                i <= self.logs@.len(),
                logs@ == self.logs@.subrange(0, i as int),
            decreases self.logs@.len() - i,
        {
            logs.push(self.logs[i]);
            i = i + 1;
        }
        let mut measures: Vec<Measure> = Vec::new();
        let mut j: usize = 0;
        while j < self.measures.len()
            invariant
                j <= self.measures@.len(),
                measures@ == self.measures@.subrange(0, j as int),
            decreases self.measures@.len() - j,
        {
            measures.push(self.measures[j]);
            j = j + 1;
        }
        assert(logs@ == self.logs@);
        assert(measures@ == self.measures@);
        Watch { name: self.name.clone(), movement: self.movement, logs, measures }
    }

    /// Opens a new measure at the end of the history. An earlier measure left
    /// in progress stays as it is.
    pub fn start_measure(&mut self, sample: WatchTimePair)
        ensures
            final(self)@ == (WatchView {
                measures: old(self)@.measures.push(
                    Measure { drift: None, measure_start: Some(sample), measure_end: None },
                ),
                ..old(self)@
            }),
    {
        self.measures.push(Measure::started(sample));
    }

    /// Sets the end of the last measure and recomputes its drift. Refused
    /// where there is no measure, or where the last one has a start that is
    /// not before `sample` in real time.
    pub fn end_measure(&mut self, sample: WatchTimePair) -> (r: Result<(), WatchError>)
        ensures
            old(self)@.measures.len() == 0 ==> r == Err::<(), WatchError>(
                WatchError::NoActiveMeasure,
            ),
            old(self)@.measures.len() > 0 ==> {
                let last = old(self)@.measures.last();
                let ended = Measure { measure_end: Some(sample), ..last };
                &&& r is Ok <==> ended.can_reconcile()
                &&& r is Ok ==> final(self)@ == (WatchView {
                    measures: old(self)@.measures.update(
                        old(self)@.measures.len() - 1,
                        ended.reconciled(old(self)@.unit_ms()),
                    ),
                    ..old(self)@
                })
                &&& r is Err ==> r == Err::<(), WatchError>(WatchError::InvalidInterval)
            },
            r is Err ==> final(self)@ == old(self)@,
    {
        let n = self.measures.len();
        if n == 0 {
            return Err(WatchError::NoActiveMeasure);
        }
        let mut ended = self.measures[n - 1];
        ended.measure_end = Some(sample);
        let unit = self.movement.unit() as u32;
        match ended.recompute(unit) {
            Ok(()) => {
                self.measures.set(n - 1, ended);
                Ok(())
            },
            Err(_) => Err(WatchError::InvalidInterval),
        }
    }

    /// Recomputes the drift of every measure against the watch's movement.
    /// Refused, with the watch left as it was, where a measure's real time
    /// does not move forward.
    pub fn update_running(&mut self) -> (r: Result<(), WatchError>)
        ensures
            r is Ok <==> all_reconcilable(old(self)@.measures),
            r is Ok ==> final(self)@ == (WatchView {
                measures: recalculated(old(self)@.measures, old(self)@.unit_ms()),
                ..old(self)@
            }),
            r is Err ==> final(self)@ == old(self)@ && r == Err::<(), WatchError>(
                WatchError::InvalidInterval,
            ),
    {
        let unit = self.movement.unit() as u32;
        let mut updated: Vec<Measure> = Vec::new();
        let mut i: usize = 0;
        while i < self.measures.len()
            invariant
                i <= self.measures@.len(),
                unit == self@.unit_ms(),
                all_reconcilable(self@.measures.subrange(0, i as int)),
                updated@ == recalculated(self@.measures.subrange(0, i as int), unit as int),
            decreases self.measures@.len() - i,
        {
            let mut m = self.measures[i];
            match m.recompute(unit) {
                Ok(()) => {},
                Err(_) => {
                    assert(!self@.measures[i as int].can_reconcile());
                    return Err(WatchError::InvalidInterval);
                },
            }
            updated.push(m);
            assert(self@.measures.subrange(0, i + 1) == self@.measures.subrange(
                0,
                i as int,
            ).push(self@.measures[i as int]));
            i = i + 1;
        }
        assert(self@.measures.subrange(0, i as int) == self@.measures);
        self.measures = updated;
        Ok(())
    }

    /// The start of the last measure, if there is one.
    pub fn measure_start(&self) -> (r: Option<WatchTimePair>)
        ensures
            self@.measures.len() == 0 ==> r is None,
            self@.measures.len() > 0 ==> r == self@.measures.last().measure_start,
    {
        let n = self.measures.len();
        if n == 0 {
            None
        } else {
            self.measures[n - 1].measure_start
        }
    }

    /// The drift of the last measure, if there is one.
    pub fn drift(&self) -> (r: Option<i128>)
        ensures
            self@.measures.len() == 0 ==> r is None,
            self@.measures.len() > 0 ==> r == self@.measures.last().drift,
    {
        let n = self.measures.len();
        if n == 0 {
            None
        } else {
            self.measures[n - 1].drift
        }
    }

    /// The most recent measure that is complete.
    pub fn last_complete_measure(&self) -> (r: Option<Measure>)
        ensures
            r == last_complete(self@.measures),
    {
        let mut i: usize = self.measures.len();
        assert(self@.measures.subrange(0, i as int) == self@.measures);
        while i > 0
            invariant
                i <= self@.measures.len(),
                last_complete(self@.measures) == last_complete(
                    self@.measures.subrange(0, i as int),
                ),
            decreases i,
        {
            let ghost prefix = self@.measures.subrange(0, i as int);
            assert(prefix.drop_last() == self@.measures.subrange(0, i - 1));
            if self.measures[i - 1].is_complete() {
                return Some(self.measures[i - 1]);
            }
            i = i - 1;
        }
        None
    }

    /// Logs a wear on `date`, unless that day is logged already. Tells
    /// whether it was added.
    pub fn log_wear(&mut self, date: CalendarDate) -> (r: bool)
        ensures
            r == !old(self)@.logs.contains(date),
            final(self)@ == (WatchView {
                logs: with_date_logged(old(self)@.logs, date),
                ..old(self)@
            }),
    {
        let mut i: usize = 0;
        while i < self.logs.len()
            invariant
                i <= self@.logs.len(),
                forall|j: int| 0 <= j < i ==> self@.logs[j] != date,
            decreases self@.logs.len() - i,
        {
            if self.logs[i] == date {
                assert(self@.logs.contains(date));
                return false;
            }
            i = i + 1;
        }
        self.logs.push(date);
        true
    }
}

} // verus!
