//! The event ledger: an append-only sequence of iteration events and the
//! queries derived from it. The ledger is the only source of the iteration
//! number: the next iteration is always one more than the largest recorded.

use vstd::prelude::*;
use vstd::string::*;
use crate::error::RalphError;
use crate::text::{blank, chars_of, decimal, is_blank, push_decimal, push_str, str_eq, string_of};

verus! {

/// What an event records about a requirement.
#[derive(Debug, Clone, Copy, PartialEq, Eq, Structural)]
pub enum EventStatus {
    Started,
    InProgress,
    Done,
    Failed,
}

/// A point in time: whole seconds since 1970-01-01T00:00:00Z, and the
/// nanoseconds past that second.
#[derive(Debug, Clone, Copy, PartialEq, Eq, Structural)]
pub struct Timestamp {
    pub secs: i64,
    pub nanos: u32,
}

/// One event of the ledger. Events are never changed once appended.
#[derive(Debug, Clone, PartialEq, Eq)]
pub struct LedgerEvent {
    /// When the event occurred.
    pub timestamp: Timestamp,
    /// Iteration number, counted from 1.
    pub iteration: u32,
    /// The id of the requirement that the event is about.
    pub requirement: String,
    /// What happened.
    pub status: EventStatus,
    /// Whether validation passed, where it was run.
    pub validation_passed: Option<bool>,
    /// A message or details, where there are any.
    pub message: Option<String>,
}

/// The mathematical value of a [`LedgerEvent`].
pub struct LedgerEventView {
    pub timestamp: Timestamp,
    pub iteration: u32,
    pub requirement: Seq<char>,
    pub status: EventStatus,
    pub validation_passed: Option<bool>,
    pub message: Option<Seq<char>>,
}

/// The view of an optional string.
pub open spec fn opt_text(s: Option<String>) -> Option<Seq<char>> {
    match s {
        Some(t) => Some(t@),
        None => None,
    }
}

impl View for LedgerEvent {
    type V = LedgerEventView;

    open spec fn view(&self) -> LedgerEventView {
        LedgerEventView {
            timestamp: self.timestamp,
            iteration: self.iteration,
            requirement: self.requirement@,
            status: self.status,
            validation_passed: self.validation_passed,
            message: opt_text(self.message),
        }
    }
}

/// The views of a sequence of events.
pub open spec fn event_views(events: Seq<LedgerEvent>) -> Seq<LedgerEventView> {
    Seq::new(events.len(), |i: int| events[i]@)
}

/// The views of a sequence of borrowed events.
pub open spec fn event_ref_views(events: Seq<&LedgerEvent>) -> Seq<LedgerEventView> {
    Seq::new(events.len(), |i: int| events[i]@)
}

/// The largest iteration number among the events, 0 when there is none.
pub open spec fn max_iteration(events: Seq<LedgerEventView>) -> u32
    decreases events.len(),
{
    if events.len() == 0 {
        0
    } else {
        let rest = max_iteration(events.drop_last());
        if events.last().iteration > rest {
            events.last().iteration
        } else {
            rest
        }
    }
}

/// The events about requirement `id`, in the order of the ledger.
pub open spec fn events_of(events: Seq<LedgerEventView>, id: Seq<char>) -> Seq<LedgerEventView> {
    events.filter(|e: LedgerEventView| e.requirement == id)
}

/// The last event about requirement `id`, if there is one.
pub open spec fn last_event_of(events: Seq<LedgerEventView>, id: Seq<char>) -> Option<
    LedgerEventView,
> {
    if events_of(events, id).len() > 0 {
        Some(events_of(events, id).last())
    } else {
        None
    }
}

/// Whether the last event about requirement `id` is a failure.
pub open spec fn requirement_failed(events: Seq<LedgerEventView>, id: Seq<char>) -> bool {
    match last_event_of(events, id) {
        Some(e) => e.status == EventStatus::Failed,
        None => false,
    }
}

/// The message stored with the last event about requirement `id`, where that
/// event is a failure and carries one.
pub open spec fn last_failure_message(events: Seq<LedgerEventView>, id: Seq<char>) -> Option<
    Seq<char>,
> {
    match last_event_of(events, id) {
        Some(e) => if e.status == EventStatus::Failed {
            e.message
        } else {
            None
        },
        None => None,
    }
}

/// How often the full sweep runs: on every iteration that this number
/// divides.
pub const FULL_SWEEP_EVERY: u32 = 5;

/// Whether an event belongs to a full sweep whose validation was recorded.
pub open spec fn is_full_test(e: LedgerEventView) -> bool {
    e.iteration % FULL_SWEEP_EVERY == 0 && e.validation_passed is Some
}

/// How many events belong to a full sweep whose validation was recorded.
pub open spec fn full_tests(events: Seq<LedgerEventView>) -> nat {
    events.filter(|e: LedgerEventView| is_full_test(e)).len()
}

/// Iteration numbers never go down along the sequence.
pub open spec fn monotone(events: Seq<LedgerEventView>) -> bool {
    forall|i: int, j: int|
        0 <= i <= j < events.len() ==> (#[trigger] events[i]).iteration <= (
        #[trigger] events[j]).iteration
}

/// Reads the clock.
///
/// Trusted: wraps chrono's `Utc::now` and hands the result over as the plain
/// numbers that `DateTime::timestamp` and `DateTime::timestamp_subsec_nanos`
/// give for it. Nothing is claimed of the value: it is the time of the call.
#[verifier::external_body]
fn current_time() -> (t: Timestamp) {
    let now = chrono::Utc::now();
    Timestamp { secs: now.timestamp(), nanos: now.timestamp_subsec_nanos() }
}

/// The text that chrono writes for the UTC time `secs` seconds and `nanos`
/// nanoseconds after 1970-01-01T00:00:00Z under the strftime pattern
/// `pattern`; `None` where chrono has no such time or cannot use the pattern.
pub uninterp spec fn formatted_time(secs: i64, nanos: u32, pattern: Seq<char>) -> Option<Seq<char>>;

/// Writes a time as text.
///
/// Trusted: wraps chrono's `DateTime::from_timestamp`, `DateTime::format` and
/// `DelayedFormat::write_to`. The result is named, not described: it is
/// `None` where `from_timestamp` gives no time or `write_to` reports an error,
/// else the text that `write_to` wrote.
#[verifier::external_body]
fn format_time(secs: i64, nanos: u32, pattern: &str) -> (r: Option<String>)
    ensures
        opt_text(r) == formatted_time(secs, nanos, pattern@),
{
    let time = chrono::DateTime::from_timestamp(secs, nanos)?;
    let mut text = String::new();
    time.format(pattern).write_to(&mut text).ok()?;
    Some(text)
}

/// The RFC 3339 text that chrono writes for the UTC time `secs` seconds and
/// `nanos` nanoseconds after 1970-01-01T00:00:00Z; `None` where chrono has no
/// such time.
pub uninterp spec fn rfc3339_time(secs: i64, nanos: u32) -> Option<Seq<char>>;

/// Writes a time as RFC 3339 text.
///
/// Trusted: wraps chrono's `DateTime::from_timestamp` and
/// `DateTime::to_rfc3339`. The result is named, not described: it is `None`
/// where `from_timestamp` gives no time, else what `to_rfc3339` returns.
#[verifier::external_body]
fn rfc3339_of(secs: i64, nanos: u32) -> (r: Option<String>)
    ensures
        opt_text(r) == rfc3339_time(secs, nanos),
{
    chrono::DateTime::from_timestamp(secs, nanos).map(|time| time.to_rfc3339())
}

impl Timestamp {
    /// The current time, as the clock of the machine gives it.
    pub fn now() -> Timestamp {
        current_time()
    }

    /// The time as RFC 3339 text, in UTC.
    pub fn to_rfc3339(&self) -> (r: Option<String>)
        ensures
            opt_text(r) == rfc3339_time(self.secs, self.nanos),
    {
        rfc3339_of(self.secs, self.nanos)
    }

    /// The time written under the strftime pattern `pattern`, in UTC.
    pub fn format(&self, pattern: &str) -> (r: Option<String>)
        ensures
            opt_text(r) == formatted_time(self.secs, self.nanos, pattern@),
    {
        format_time(self.secs, self.nanos, pattern)
    }
}

impl LedgerEvent {
    /// An event stamped with the current time, without validation result or
    /// message.
    pub fn new(iteration: u32, requirement: &str, status: EventStatus) -> (e: Self)
        ensures
            e@.iteration == iteration,
            e@.requirement == requirement@,
            e@.status == status,
            e@.validation_passed is None,
            e@.message is None,
    {
        LedgerEvent::at(Timestamp::now(), iteration, requirement, status)
    }

    /// An event with the given time stamp, without validation result or
    /// message.
    pub fn at(timestamp: Timestamp, iteration: u32, requirement: &str, status: EventStatus) -> (e:
        Self)
        ensures
            e@ == (LedgerEventView {
                timestamp,
                iteration,
                requirement: requirement@,
                status,
                validation_passed: None,
                message: None,
            }),
    {
        LedgerEvent {
            timestamp,
            iteration,
            requirement: requirement.to_owned(),
            status,
            validation_passed: None,
            message: None,
        }
    }

    /// The same event with the validation result set.
    pub fn with_validation(self, passed: bool) -> (e: Self)
        ensures
            e@ == (LedgerEventView { validation_passed: Some(passed), ..self@ }),
    {
        let mut e = self;
        e.validation_passed = Some(passed);
        e
    }

    /// The same event with the message set.
    pub fn with_message(self, message: &str) -> (e: Self)
        ensures
            e@ == (LedgerEventView { message: Some(message@), ..self@ }),
    {
        let mut e = self;
        e.message = Some(message.to_owned());
        e
    }

    /// The same event with the summary of a failed validation as its message.
    pub fn with_validation_output(self, output: String) -> (e: Self)
        ensures
            e@ == (LedgerEventView { message: Some(output@), ..self@ }),
    {
        let mut e = self;
        e.message = Some(output);
        e
    }

    /// A copy of the event.
    pub fn duplicate(&self) -> (e: Self)
        ensures
            e@ == self@,
    {
        let message = match &self.message {
            Some(m) => Some(m.clone()),
            None => None,
        };
        LedgerEvent {
            timestamp: self.timestamp,
            iteration: self.iteration,
            requirement: self.requirement.clone(),
            status: self.status,
            validation_passed: self.validation_passed,
            message,
        }
    }
}

/// The append-only ledger of iteration events. Insertion order is causal
/// order; events are only ever added at the end.
#[derive(Debug, Default)]
pub struct Ledger {
    events: Vec<LedgerEvent>,
}

impl View for Ledger {
    type V = Seq<LedgerEventView>;

    closed spec fn view(&self) -> Seq<LedgerEventView> {
        event_views(self.events@)
    }
}

impl Ledger {
    /// An empty ledger.
    pub fn new() -> (l: Self)
        ensures
            l@ == Seq::<LedgerEventView>::empty(),
    {
        let l = Ledger { events: Vec::new() };
        assert(l@ =~= Seq::<LedgerEventView>::empty());
        l
    }

    /// A ledger that holds the given events, in their order.
    pub fn from_events(events: Vec<LedgerEvent>) -> (l: Self)
        ensures
            l@ == event_views(events@),
    {
        Ledger { events }
    }

    /// All events, oldest first.
    pub fn events(&self) -> (r: &[LedgerEvent])
        ensures
            event_views(r@) == self@,
    {
        self.events.as_slice()
    }

    /// How many events the ledger holds.
    pub fn len(&self) -> (n: usize)
        ensures
            n == self@.len(),
    {
        self.events.len()
    }

    /// Adds an event at the end. An in-memory ledger takes every event, so the
    /// result is always `Ok`.
    pub fn append(&mut self, event: LedgerEvent) -> (r: Result<(), RalphError>)
        ensures
            r is Ok,
            final(self)@ == old(self)@.push(event@),
    {
        self.events.push(event);
        assert(self@ =~= old(self)@.push(event@));
        Ok(())
    }

    /// Adds an event at the end once `persist` has stored it durably. Where
    /// `persist` fails, its error is returned and the ledger is left as it was:
    /// the in-memory sequence never runs ahead of durable storage.
    pub fn append_with<F: FnOnce(&LedgerEvent) -> Result<(), RalphError>>(
        &mut self,
        event: LedgerEvent,
        persist: F,
    ) -> (r: Result<(), RalphError>)
        requires
            persist.requires((&event,)),
        ensures
            persist.ensures((&event,), r),
            r is Ok ==> final(self)@ == old(self)@.push(event@),
            r is Err ==> final(self)@ == old(self)@,
    {
        let stored = persist(&event);
        if stored.is_ok() {
            self.events.push(event);
            assert(self@ =~= old(self)@.push(event@));
        }
        stored
    }

    /// The largest iteration number recorded, 0 for an empty ledger.
    pub fn latest_iteration(&self) -> (r: u32)
        ensures
            r == max_iteration(self@),
            self@.len() == 0 ==> r == 0,
            forall|i: int| 0 <= i < self@.len() ==> (#[trigger] self@[i]).iteration <= r,
            self@.len() > 0 ==> exists|i: int| 0 <= i < self@.len() && (#[trigger] self@[i]).iteration == r,
    {
        let mut best: u32 = 0;
        let mut i: usize = 0;
        while i < self.events.len()
            invariant
                i <= self.events.len(),
                best == max_iteration(self@.take(i as int)),
            decreases self.events.len() - i,
        {
            assert(self@.take(i + 1).drop_last() =~= self@.take(i as int));
            if self.events[i].iteration > best {
                best = self.events[i].iteration;
            }
            i += 1;
        }
        assert(self@.take(i as int) =~= self@);
        proof {
            lemma_max_iteration(self@);
        }
        best
    }

    /// The events about requirement `req_id`, in the order of the ledger.
    pub fn events_for_requirement(&self, req_id: &str) -> (r: Vec<&LedgerEvent>)
        ensures
            event_ref_views(r@) == events_of(self@, req_id@),
    {
        let mut out: Vec<&LedgerEvent> = Vec::new();
        let mut i: usize = 0;
        proof {
            reveal(Seq::filter);
        }
        assert(self@.take(0) =~= Seq::<LedgerEventView>::empty());
        assert(event_ref_views(out@) =~= events_of(self@.take(0), req_id@));
        while i < self.events.len()
            invariant
                i <= self.events.len(),
                event_ref_views(out@) == events_of(self@.take(i as int), req_id@),
            decreases self.events.len() - i,
        {
            let ghost before = event_ref_views(out@);
            proof {
                reveal(Seq::filter);
                assert(self@.take(i + 1).drop_last() =~= self@.take(i as int));
                assert(self@.take(i + 1).last() == self@[i as int]);
            }
            if str_eq(self.events[i].requirement.as_str(), req_id) {
                out.push(&self.events[i]);
                assert(event_ref_views(out@) =~= before.push(self@[i as int]));
            }
            i += 1;
        }
        assert(self@.take(i as int) =~= self@);
        out
    }

    /// Whether the last event about requirement `req_id` is a failure.
    pub fn is_requirement_failed(&self, req_id: &str) -> (r: bool)
        ensures
            r == requirement_failed(self@, req_id@),
    {
        let found = self.events_for_requirement(req_id);
        let n: usize = found.len();
        if n == 0 {
            false
        } else {
            assert(event_ref_views(found@).last() == found@[n - 1]@);
            found[n - 1].status == EventStatus::Failed
        }
    }

    /// The message stored with the last event about requirement `req_id`,
    /// where that event is a failure and carries one.
    pub fn get_last_validation_failure(&self, req_id: &str) -> (r: Option<String>)
        ensures
            opt_text(r) == last_failure_message(self@, req_id@),
    {
        let found = self.events_for_requirement(req_id);
        let n: usize = found.len();
        if n == 0 {
            None
        } else {
            assert(event_ref_views(found@).last() == found@[n - 1]@);
            let last: &LedgerEvent = found[n - 1];
            if last.status == EventStatus::Failed {
                match &last.message {
                    Some(m) => Some(m.clone()),
                    None => None,
                }
            } else {
                None
            }
        }
    }

    /// How many events belong to a full sweep (every fifth iteration) whose
    /// validation was recorded.
    pub fn full_test_count(&self) -> (n: usize)
        ensures
            n == full_tests(self@),
    {
        let mut n: usize = 0;
        let mut i: usize = 0;
        proof {
            reveal(Seq::filter);
        }
        assert(self@.take(0) =~= Seq::<LedgerEventView>::empty());
        while i < self.events.len()
            invariant
                i <= self.events.len(),
                n <= i,
                n == full_tests(self@.take(i as int)),
            decreases self.events.len() - i,
        {
            proof {
                reveal(Seq::filter);
                assert(self@.take(i + 1).drop_last() =~= self@.take(i as int));
                assert(self@.take(i + 1).last() == self@[i as int]);
            }
            if self.events[i].iteration % FULL_SWEEP_EVERY == 0
                && self.events[i].validation_passed.is_some() {
                n += 1;
            }
            i += 1;
        }
        assert(self@.take(i as int) =~= self@);
        n
    }
}

/// The largest iteration number bounds every event's and, in a ledger that
/// is not empty, is the number of one of its events.
pub proof fn lemma_max_iteration(events: Seq<LedgerEventView>)
    ensures
        events.len() == 0 ==> max_iteration(events) == 0,
        forall|i: int| 0 <= i < events.len() ==> (#[trigger] events[i]).iteration <= max_iteration(events),
        events.len() > 0 ==> exists|i: int| 0 <= i < events.len() && (#[trigger] events[i]).iteration == max_iteration(events),
    decreases events.len(),
{
    if events.len() > 0 {
        let rest = events.drop_last();
        lemma_max_iteration(rest);
        assert forall|i: int| 0 <= i < events.len() implies (#[trigger] events[i]).iteration
            <= max_iteration(events) by {
            if i < events.len() - 1 {
                assert(events[i] == rest[i]);
            }
        }
        if events.last().iteration > max_iteration(rest) || rest.len() == 0 {
            assert(events[events.len() - 1].iteration == max_iteration(events));
        } else {
            let i = choose|i: int| 0 <= i < rest.len() && (#[trigger] rest[i]).iteration == max_iteration(rest);
            assert(events[i] == rest[i]);
        }
    }
}

/// The last appended event decides: after an event is appended it is the
/// last one about its requirement, so that requirement counts as failed
/// exactly if the event is a failure (a `Done` event appended after a failure
/// clears it), and nothing changes for any other requirement. The largest
/// iteration number is the larger of the old one and the event's.
pub proof fn lemma_append_event(events: Seq<LedgerEventView>, e: LedgerEventView, id: Seq<char>)
    ensures
        events_of(events.push(e), id) == if e.requirement == id {
            events_of(events, id).push(e)
        } else {
            events_of(events, id)
        },
        last_event_of(events.push(e), e.requirement) == Some(e),
        requirement_failed(events.push(e), e.requirement) == (e.status == EventStatus::Failed),
        last_failure_message(events.push(e), e.requirement) == if e.status == EventStatus::Failed {
            e.message
        } else {
            None
        },
        id != e.requirement ==> requirement_failed(events.push(e), id) == requirement_failed(
            events,
            id,
        ),
        max_iteration(events.push(e)) == if e.iteration > max_iteration(events) {
            e.iteration
        } else {
            max_iteration(events)
        },
{
    events.lemma_filter_push(e, |x: LedgerEventView| x.requirement == id);
    events.lemma_filter_push(e, |x: LedgerEventView| x.requirement == e.requirement);
    assert(events.push(e).drop_last() =~= events);
}

/// Appending an event whose iteration number is at least the largest so far
/// keeps the iteration numbers in order.
pub proof fn lemma_append_keeps_order(events: Seq<LedgerEventView>, e: LedgerEventView)
    requires
        monotone(events),
        max_iteration(events) <= e.iteration,
    ensures
        monotone(events.push(e)),
{
    lemma_max_iteration(events);
    let after = events.push(e);
    assert forall|i: int, j: int| 0 <= i <= j < after.len() implies (#[trigger] after[i]).iteration
        <= (#[trigger] after[j]).iteration by {
        if j < events.len() {
            assert(after[i] == events[i]);
            assert(after[j] == events[j]);
        } else if i < events.len() {
            assert(after[i] == events[i]);
        }
    }
}

/// The text of the error for a line that cannot be read as an event.
pub open spec fn parse_error_text(line_number: nat, detail: Seq<char>) -> Seq<char> {
    "Failed to parse line "@ + decimal(line_number) + ": "@ + detail
}

/// `events` is what reading the first `n` lines with `parse` can give when
/// none of them is malformed: blank lines are passed over, and every other
/// line gives one event, in order.
pub open spec fn is_reading<F: Fn(&String) -> Result<LedgerEvent, String>>(
    parse: &F,
    lines: Seq<String>,
    n: int,
    events: Seq<LedgerEvent>,
) -> bool
    decreases n,
{
    if n <= 0 || n > lines.len() {
        events.len() == 0
    } else if is_blank(lines[n - 1]@) {
        is_reading(parse, lines, n - 1, events)
    } else {
        &&& events.len() > 0
        &&& parse.ensures((&lines[n - 1],), Ok(events.last()))
        &&& is_reading(parse, lines, n - 1, events.drop_last())
    }
}

/// `r` is what loading the lines with `parse` can give: a ledger of the
/// events that the lines gave, or the error for the first line that `parse`
/// could not read, with every line before it read.
pub open spec fn is_loaded<F: Fn(&String) -> Result<LedgerEvent, String>>(
    parse: &F,
    lines: Seq<String>,
    r: Result<Ledger, RalphError>,
) -> bool {
    match r {
        Ok(ledger) => exists|events: Seq<LedgerEvent>|
            is_reading(parse, lines, lines.len() as int, events) && ledger@ == event_views(events),
        Err(e) => exists|k: int, events: Seq<LedgerEvent>, detail: String|
            {
                &&& 0 <= k < lines.len()
                &&& is_reading(parse, lines, k, events)
                &&& !is_blank(lines[k]@)
                &&& parse.ensures((&lines[k],), Err(detail))
                &&& e matches RalphError::Ledger(text) && text@ == parse_error_text(
                    (k + 1) as nat,
                    detail@,
                )
            },
    }
}

/// `lines` holds one line for each of `events`, in order, none of them blank,
/// and `parse` can read each line as its event.
pub open spec fn is_stored<F: Fn(&String) -> Result<LedgerEvent, String>>(
    parse: &F,
    lines: Seq<String>,
    events: Seq<LedgerEvent>,
) -> bool {
    &&& lines.len() == events.len()
    &&& forall|i: int|
        0 <= i < lines.len() ==> !is_blank((#[trigger] lines[i])@) && parse.ensures(
            (&lines[i],),
            Ok(events[i]),
        )
}

/// `parse` gives one result for each line.
pub open spec fn is_single_valued<F: Fn(&String) -> Result<LedgerEvent, String>>(parse: &F) -> bool {
    forall|line: &String, a: Result<LedgerEvent, String>, b: Result<LedgerEvent, String>|
        #[trigger] parse.ensures((line,), a) && #[trigger] parse.ensures((line,), b) ==> a == b
}

proof fn lemma_reading_is_the_events<F: Fn(&String) -> Result<LedgerEvent, String>>(
    parse: &F,
    lines: Seq<String>,
    events: Seq<LedgerEvent>,
    n: int,
    read: Seq<LedgerEvent>,
)
    requires
        is_stored(parse, lines, events),
        is_single_valued(parse),
        0 <= n <= lines.len(),
        is_reading(parse, lines, n, read),
    ensures
        read == events.take(n),
    decreases n,
{
    if n == 0 {
        assert(read =~= events.take(0));
    } else {
        assert(!is_blank(lines[n - 1]@));
        assert(parse.ensures((&lines[n - 1],), Ok(events[n - 1])));
        assert(parse.ensures((&lines[n - 1],), Ok(read.last())));
        lemma_reading_is_the_events(parse, lines, events, n - 1, read.drop_last());
        assert(read =~= read.drop_last().push(read.last()));
        assert(events.take(n) =~= events.take(n - 1).push(events[n - 1]));
    }
}

/// Reloading gives back what was stored: where the lines hold one line for
/// each of `events`, in order, and `parse` reads each line as its event and
/// gives one result for each line, loading the lines succeeds with exactly
/// those events in that order.
pub proof fn lemma_reload<F: Fn(&String) -> Result<LedgerEvent, String>>(
    parse: &F,
    lines: Seq<String>,
    events: Seq<LedgerEvent>,
    r: Result<Ledger, RalphError>,
)
    requires
        is_stored(parse, lines, events),
        is_single_valued(parse),
        is_loaded(parse, lines, r),
    ensures
        r matches Ok(ledger) && ledger@ == event_views(events),
{
    match r {
        Ok(ledger) => {
            let read = choose|read: Seq<LedgerEvent>|
                is_reading(parse, lines, lines.len() as int, read) && ledger@ == event_views(read);
            lemma_reading_is_the_events(parse, lines, events, lines.len() as int, read);
            assert(events.take(lines.len() as int) =~= events);
        },
        Err(e) => {
            let (k, read, detail) = choose|k: int, read: Seq<LedgerEvent>, detail: String|
                {
                    &&& 0 <= k < lines.len()
                    &&& is_reading(parse, lines, k, read)
                    &&& !is_blank(lines[k]@)
                    &&& parse.ensures((&lines[k],), Err(detail))
                    &&& e matches RalphError::Ledger(text) && text@ == parse_error_text(
                        (k + 1) as nat,
                        detail@,
                    )
                };
            assert(parse.ensures((&lines[k],), Ok(events[k])));
            assert(parse.ensures((&lines[k],), Err(detail)));
            assert(false);
        },
    }
}

impl Ledger {
    /// Builds the ledger from the lines of its file, oldest first, reading
    /// each line that is not blank with `parse`. A line that `parse` cannot
    /// read is fatal: the error names the line, counted from 1 over all
    /// lines, and carries what `parse` said of it; no line after it is read.
    pub fn from_lines<F: Fn(&String) -> Result<LedgerEvent, String>>(
        lines: &Vec<String>,
        parse: &F,
    ) -> (r: Result<Ledger, RalphError>)
        requires
            forall|i: int|
                0 <= i < lines.len() && !is_blank((#[trigger] lines[i])@) ==> parse.requires(
                    (&lines[i],),
                ),
        ensures
            is_loaded(parse, lines@, r),
    {
        let mut events: Vec<LedgerEvent> = Vec::new();
        let mut i: usize = 0;
        while i < lines.len()
            invariant
                i <= lines.len(),
                forall|k: int|
                    0 <= k < lines.len() && !is_blank((#[trigger] lines[k])@) ==> parse.requires(
                        (&lines[k],),
                    ),
                is_reading(parse, lines@, i as int, events@),
            decreases lines.len() - i,
        {
            let text = chars_of(lines[i].as_str());
            if !blank(&text) {
                match parse(&lines[i]) {
                    Ok(event) => {
                        let ghost before = events@;
                        events.push(event);
                        assert(events@.drop_last() =~= before);
                    },
                    Err(detail) => {
                        let mut out: Vec<char> = Vec::new();
                        push_str(&mut out, "Failed to parse line ");
                        push_decimal(&mut out, i + 1);
                        push_str(&mut out, ": ");
                        push_str(&mut out, detail.as_str());
                        assert(out@ =~= parse_error_text((i + 1) as nat, detail@));
                        return Err(RalphError::Ledger(string_of(&out)));
                    },
                }
            }
            i += 1;
        }
        let ledger = Ledger { events };
        assert(is_reading(parse, lines@, lines.len() as int, ledger.events@));
        assert(ledger@ == event_views(ledger.events@));
        Ok(ledger)
    }
}

} // verus!
