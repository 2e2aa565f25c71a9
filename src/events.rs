//! The calendar endpoint: a range read from two timestamps, and one event per
//! course of the resulting schedule.
use vstd::prelude::*;
use crate::calendar::{hms_text, iso_date_of, parsed_timestamp_of, timestamp_date};
use crate::models::Course;
use crate::schedule::{QuerySession, Schedule, Stage, StoreError};

verus! {

/// One calendar event.
#[derive(Debug)]
pub struct EndpointResult {
    pub start: String,
    pub end: String,
    pub title: String,
    pub background_color: String,
}

impl View for EndpointResult {
    type V = (Seq<char>, Seq<char>, Seq<char>, Seq<char>);

    open spec fn view(&self) -> (Seq<char>, Seq<char>, Seq<char>, Seq<char>) {
        (self.start@, self.end@, self.title@, self.background_color@)
    }
}

/// `[BTS] subject - teacher (classroom)`, without the marker for other courses.
pub open spec fn title_text(c: Course) -> Seq<char> {
    (if c.bts { "[BTS]"@ } else { Seq::empty() }) + " "@ + c.subject@ + " - "@ + c.teacher@ + " ("@
        + c.classroom@ + ")"@
}

/// The event that shows a course.
pub open spec fn event(c: Course) -> (Seq<char>, Seq<char>, Seq<char>, Seq<char>) {
    (
        iso_date_of(c.date.days as int) + " "@ + hms_text(c.start.secs as int),
        iso_date_of(c.date.days as int) + " "@ + hms_text(c.end.secs as int),
        title_text(c),
        c.category.web_color_spec(),
    )
}

/// Why the endpoint could not answer.
#[derive(Clone, Copy, Debug, PartialEq, Eq, Structural)]
pub enum EdtError {
    /// A timestamp is not of the form `YYYY-MM-DDTHH:MM:SS`.
    MalformedInput,
    /// The store could not give the schedule.
    Store(StoreError),
}

impl EdtError {
    pub open spec fn status_spec(self) -> u16 {
        match self {
            EdtError::MalformedInput => 400,
            EdtError::Store(_) => 500,
        }
    }

    /// The HTTP status of the answer: a client error for malformed input, a
    /// server error for a store failure.
    pub fn status(&self) -> (r: u16)
        ensures
            r == self.status_spec(),
    {
        match self {
            EdtError::MalformedInput => 400,
            EdtError::Store(_) => 500,
        }
    }
}

/// Reads the range of a request; only the date part of each timestamp counts.
/// No store exchange begins when a timestamp is malformed.
pub fn edt_query(start: &str, end: &str) -> (r: Result<QuerySession, EdtError>)
    ensures
        r is Err <==> (parsed_timestamp_of(start@) is None || parsed_timestamp_of(end@) is None),
        r matches Err(e) ==> e == EdtError::MalformedInput,
        r matches Ok(q) ==> (q.wf() && q.stage == Stage::Probing
            && q.schedule.start.days == parsed_timestamp_of(start@).unwrap().0
            && q.schedule.end.days == parsed_timestamp_of(end@).unwrap().0
            && forall|cat| (#[trigger] q.schedule.courses_of(cat)).len() == 0),
{
    let s = match timestamp_date(start) {
        Some(d) => d,
        None => return Err(EdtError::MalformedInput),
    };
    let e = match timestamp_date(end) {
        Some(d) => d,
        None => return Err(EdtError::MalformedInput),
    };
    Ok(Schedule::query_between(s, e))
}

/// The event that shows a course.
pub fn event_of(c: &Course) -> (r: EndpointResult)
    requires
        c.valid(),
    ensures
        r@ == event(*c),
{
    let day = c.date.iso_text();
    let mut start = day.clone();
    start.append(" ");
    let st = c.start.hms_text();
    start.append(st.as_str());
    let mut end = day;
    end.append(" ");
    let et = c.end.hms_text();
    end.append(et.as_str());
    let mut title = if c.bts { String::from_str("[BTS]") } else { String::new() };
    title.append(" ");
    title.append(c.subject.as_str());
    title.append(" - ");
    title.append(c.teacher.as_str());
    title.append(" (");
    title.append(c.classroom.as_str());
    title.append(")");
    EndpointResult { start, end, title, background_color: c.category.web_color() }
}

fn push_events(out: &mut Vec<EndpointResult>, courses: &Vec<Course>)
    requires
        forall|k: int| 0 <= k < courses@.len() ==> (#[trigger] courses@[k]).valid(),
    ensures
        final(out)@.map_values(|r: EndpointResult| r@) == old(out)@.map_values(|r: EndpointResult| r@)
            + courses@.map_values(|c: Course| event(c)),
{
    let ghost o = old(out)@.map_values(|r: EndpointResult| r@);
    let mut i: usize = 0;
    while i < courses.len()
        invariant
            forall|k: int| 0 <= k < courses@.len() ==> (#[trigger] courses@[k]).valid(),
            0 <= i <= courses@.len(),
            out@.map_values(|r: EndpointResult| r@) == o + courses@.subrange(0, i as int).map_values(|c: Course| event(c)),
        decreases courses@.len() - i,
    {
        let ev = event_of(&courses[i]);
        let ghost prev = out@;
        let ghost evv = ev@;
        out.push(ev);
        assert(out@.map_values(|r: EndpointResult| r@) =~= prev.map_values(|r: EndpointResult| r@).push(evv));
        assert(courses@.subrange(0, i + 1) == courses@.subrange(0, i as int).push(courses@[i as int]));
        assert(courses@.subrange(0, i + 1).map_values(|c: Course| event(c)) =~= courses@.subrange(0, i as int).map_values(|c: Course| event(c)).push(event(courses@[i as int])));
        assert(out@.map_values(|r: EndpointResult| r@) =~= o + courses@.subrange(0, i + 1).map_values(|c: Course| event(c)));
        i = i + 1;
    }
    assert(courses@.subrange(0, i as int) == courses@);
}

/// The events of a schedule, all categories merged in display order.
pub fn events_of(s: &Schedule) -> (r: Vec<EndpointResult>)
    requires
        s.wf(),
    ensures
        r@.map_values(|e: EndpointResult| e@) == s.flat().map_values(|c: Course| event(c)),
{
    proof {
        crate::schedule::lemma_sequences_valid(*s);
    }
    let mut out: Vec<EndpointResult> = Vec::new();
    push_events(&mut out, &s.dev_courses);
    push_events(&mut out, &s.infra_courses);
    push_events(&mut out, &s.dev_infra_courses);
    push_events(&mut out, &s.common_courses);
    push_events(&mut out, &s.marketing_courses);
    assert(out@.map_values(|e: EndpointResult| e@) =~= s.flat().map_values(|c: Course| event(c)));
    out
}

/// The answer to a request once the store exchange is over.
pub fn edt_response(outcome: Result<Schedule, StoreError>) -> (r: Result<Vec<EndpointResult>, EdtError>)
    requires
        outcome matches Ok(s) ==> s.wf(),
    ensures
        outcome matches Err(e) ==> r == Err::<Vec<EndpointResult>, EdtError>(EdtError::Store(e)),
        outcome matches Ok(s) ==> (r matches Ok(v)
            && v@.map_values(|e: EndpointResult| e@) == s.flat().map_values(|c: Course| event(c))),
{
    match outcome {
        Ok(s) => Ok(events_of(&s)),
        Err(e) => Err(EdtError::Store(e)),
    }
}

} // verus!
