//! A week's (or any range's) courses, grouped by category, and the exchange
//! with the store that fills it.
use vstd::prelude::*;
use crate::calendar::{Date, week_start};
use crate::category::{Category, display_order, load_order};
use crate::models::Course;

verus! {

/// The courses whose date falls in `[start, end]`, one sequence per category,
/// each in the order in which the store returned it.
#[derive(Debug)]
pub struct Schedule {
    pub start: Date,
    pub end: Date,
    pub dev_courses: Vec<Course>,
    pub infra_courses: Vec<Course>,
    pub dev_infra_courses: Vec<Course>,
    pub marketing_courses: Vec<Course>,
    pub common_courses: Vec<Course>,
}

/// A course of category `cat`, valid, dated within `[start, end]`.
pub open spec fn belongs(c: Course, cat: Category, start: int, end: int) -> bool {
    c.category == cat && c.valid() && start <= c.date.days <= end
}

/// Every course of `s` belongs to `cat` and the range.
pub open spec fn all_belong(s: Seq<Course>, cat: Category, start: int, end: int) -> bool {
    forall|i: int| 0 <= i < s.len() ==> #[trigger] belongs(s[i], cat, start, end)
}

impl Schedule {
    /// The sequence of one category.
    pub open spec fn courses_of(self, cat: Category) -> Seq<Course> {
        match cat {
            Category::Dev => self.dev_courses@,
            Category::Infra => self.infra_courses@,
            Category::DevInfra => self.dev_infra_courses@,
            Category::Marketing => self.marketing_courses@,
            Category::Common => self.common_courses@,
        }
    }

    /// Each sequence holds only courses of its own category within the range.
    pub open spec fn wf(self) -> bool {
        &&& self.start.valid()
        &&& self.end.valid()
        &&& forall|cat: Category| all_belong(#[trigger] self.courses_of(cat), cat,
                self.start.days as int, self.end.days as int)
    }

    /// All courses, in display order: Dev, Infra, DevInfra, Common, Marketing.
    pub open spec fn flat(self) -> Seq<Course> {
        self.dev_courses@ + self.infra_courses@ + self.dev_infra_courses@ + self.common_courses@
            + self.marketing_courses@
    }

    /// An empty schedule for `[start, end]`.
    pub fn empty(start: Date, end: Date) -> (r: Schedule)
        requires
            start.valid(),
            end.valid(),
        ensures
            r.wf(),
            r.start == start,
            r.end == end,
            forall|cat: Category| (#[trigger] r.courses_of(cat)).len() == 0,
    {
        Schedule {
            start,
            end,
            dev_courses: Vec::new(),
            infra_courses: Vec::new(),
            dev_infra_courses: Vec::new(),
            marketing_courses: Vec::new(),
            common_courses: Vec::new(),
        }
    }

    /// Starts reading the courses of the Monday-to-Sunday week that holds `date`.
    pub fn query_week(date: Date) -> (r: QuerySession)
        requires
            date.week_fits(),
        ensures
            r.wf(),
            r.stage == Stage::Probing,
            r.schedule.start.days == week_start(date.days as int),
            r.schedule.end.days == r.schedule.start.days + 6,
            r.schedule.start.days <= date.days <= r.schedule.end.days,
            crate::calendar::weekday_index(r.schedule.start.days as int) == 0,
            crate::calendar::weekday_index(r.schedule.end.days as int) == 6,
            forall|cat: Category| (#[trigger] r.schedule.courses_of(cat)).len() == 0,
    {
        let (first, last) = date.week_bounds();
        Self::query_between(first, last)
    }

    /// Starts reading the courses dated within `[start, end]` (none when
    /// `end` comes before `start`).
    pub fn query_between(start: Date, end: Date) -> (r: QuerySession)
        requires
            start.valid(),
            end.valid(),
        ensures
            r.wf(),
            r.stage == Stage::Probing,
            r.schedule.start == start,
            r.schedule.end == end,
            forall|cat: Category| (#[trigger] r.schedule.courses_of(cat)).len() == 0,
    {
        QuerySession { stage: Stage::Probing, schedule: Schedule::empty(start, end) }
    }

    /// All courses in display order, as one sequence.
    pub fn into_flat(self) -> (r: Vec<Course>)
        ensures
            r@ == self.flat(),
    {
        let mut s = self;
        let mut all = s.dev_courses;
        all.append(&mut s.infra_courses);
        all.append(&mut s.dev_infra_courses);
        all.append(&mut s.common_courses);
        all.append(&mut s.marketing_courses);
        all
    }
}

/// The course at position `k` of the display order sits in the sequence of its
/// own category, so it is valid and dated within the range.
pub proof fn lemma_flat_member(s: Schedule, k: int)
    requires
        s.wf(),
        0 <= k < s.flat().len(),
    ensures
        belongs(s.flat()[k], s.flat()[k].category, s.start.days as int, s.end.days as int),
        s.courses_of(s.flat()[k].category).contains(s.flat()[k]),
{
    let a = s.dev_courses@;
    let b = s.infra_courses@;
    let c = s.dev_infra_courses@;
    let d = s.common_courses@;
    let e = s.marketing_courses@;
    let st = s.start.days as int;
    let en = s.end.days as int;
    assert(all_belong(s.courses_of(Category::Dev), Category::Dev, st, en));
    assert(all_belong(s.courses_of(Category::Infra), Category::Infra, st, en));
    assert(all_belong(s.courses_of(Category::DevInfra), Category::DevInfra, st, en));
    assert(all_belong(s.courses_of(Category::Common), Category::Common, st, en));
    assert(all_belong(s.courses_of(Category::Marketing), Category::Marketing, st, en));
    let x = s.flat()[k];
    if k < a.len() {
        assert(x == a[k]);
        assert(belongs(a[k], Category::Dev, st, en));
    } else if k < a.len() + b.len() {
        assert(x == b[k - a.len()]);
        assert(belongs(b[k - a.len()], Category::Infra, st, en));
    } else if k < a.len() + b.len() + c.len() {
        assert(x == c[k - a.len() - b.len()]);
        assert(belongs(c[k - a.len() - b.len()], Category::DevInfra, st, en));
    } else if k < a.len() + b.len() + c.len() + d.len() {
        assert(x == d[k - a.len() - b.len() - c.len()]);
        assert(belongs(d[k - a.len() - b.len() - c.len()], Category::Common, st, en));
    } else {
        assert(x == e[k - a.len() - b.len() - c.len() - d.len()]);
        assert(belongs(e[k - a.len() - b.len() - c.len() - d.len()], Category::Marketing, st, en));
    }
}

/// Every course of every sequence of a well-formed schedule is valid.
pub proof fn lemma_sequences_valid(s: Schedule)
    requires
        s.wf(),
    ensures
        forall|cat: Category, k: int| 0 <= k < s.courses_of(cat).len() ==>
            (#[trigger] s.courses_of(cat)[k]).valid(),
        forall|k: int| 0 <= k < s.dev_courses@.len() ==> (#[trigger] s.dev_courses@[k]).valid(),
        forall|k: int| 0 <= k < s.infra_courses@.len() ==> (#[trigger] s.infra_courses@[k]).valid(),
        forall|k: int| 0 <= k < s.dev_infra_courses@.len() ==> (#[trigger] s.dev_infra_courses@[k]).valid(),
        forall|k: int| 0 <= k < s.common_courses@.len() ==> (#[trigger] s.common_courses@[k]).valid(),
        forall|k: int| 0 <= k < s.marketing_courses@.len() ==> (#[trigger] s.marketing_courses@[k]).valid(),
{
    assert forall|cat: Category, k: int| 0 <= k < s.courses_of(cat).len() implies
        (#[trigger] s.courses_of(cat)[k]).valid() by {
        assert(all_belong(s.courses_of(cat), cat, s.start.days as int, s.end.days as int));
        assert(belongs(s.courses_of(cat)[k], cat, s.start.days as int, s.end.days as int));
    }
    assert(s.courses_of(Category::Dev) == s.dev_courses@);
    assert(s.courses_of(Category::Infra) == s.infra_courses@);
    assert(s.courses_of(Category::DevInfra) == s.dev_infra_courses@);
    assert(s.courses_of(Category::Common) == s.common_courses@);
    assert(s.courses_of(Category::Marketing) == s.marketing_courses@);
}

/// Why the store could not give a schedule.
#[derive(Clone, Copy, Debug, PartialEq, Eq, Structural)]
pub enum StoreError {
    /// The liveness probe failed and so did the one reconnect attempt.
    StoreUnavailable,
    /// A category query failed, or returned a course that it was not asked for.
    QueryFailed,
}

/// Where an exchange with the store stands.
#[derive(Clone, Copy, Debug, PartialEq, Eq, Structural)]
pub enum Stage {
    /// The connection is being probed.
    Probing,
    /// The probe failed; one reconnect is being attempted.
    Reconnecting,
    /// The query for `load_order()[k]` is running.
    Loading(usize),
    /// All five categories were read.
    Complete,
    Failed(StoreError),
}

/// What the caller is to do next with the store.
#[derive(Clone, Copy, Debug, PartialEq, Eq, Structural)]
pub enum StoreAction {
    /// Run a cheap query to see whether the connection is alive.
    Probe,
    /// Replace the connection by a new one.
    Reconnect,
    /// Read the courses of this category whose date lies in `[start, end]`,
    /// ordered by date and then start time.
    Load(Category),
    /// Nothing more: the exchange is over.
    Finish,
}

/// What came of the last action.
#[derive(Debug)]
pub enum StoreEvent {
    Succeeded,
    Failed,
    Rows(Vec<Course>),
}

/// An exchange with the store: a probe, at most one reconnect, then one query
/// per category. Whoever holds the connection performs `action()` and reports
/// the outcome to `on_event`.
#[derive(Debug)]
pub struct QuerySession {
    pub stage: Stage,
    pub schedule: Schedule,
}

/// The category read at step `k` of the loads.
pub fn load_category(k: usize) -> (r: Category)
    requires
        k < 5,
    ensures
        r == load_order()[k as int],
{
    if k == 0 {
        Category::Dev
    } else if k == 1 {
        Category::Infra
    } else if k == 2 {
        Category::DevInfra
    } else if k == 3 {
        Category::Marketing
    } else {
        Category::Common
    }
}

/// The action that a stage asks for.
pub open spec fn action_of(stage: Stage) -> StoreAction {
    match stage {
        Stage::Probing => StoreAction::Probe,
        Stage::Reconnecting => StoreAction::Reconnect,
        Stage::Loading(k) => StoreAction::Load(load_order()[k as int]),
        _ => StoreAction::Finish,
    }
}

/// Whether the rows answer the query for `cat` over `[start, end]`.
pub open spec fn rows_fit(rows: Seq<Course>, cat: Category, start: int, end: int) -> bool {
    all_belong(rows, cat, start, end)
}

/// The stage that follows `stage` on an outcome, given whether the rows (if
/// any) fit the query.
pub open spec fn next_stage(stage: Stage, ev: StoreEvent, fit: bool) -> Stage {
    match stage {
        Stage::Probing => match ev {
            StoreEvent::Failed => Stage::Reconnecting,
            _ => Stage::Loading(0),
        },
        Stage::Reconnecting => match ev {
            StoreEvent::Failed => Stage::Failed(StoreError::StoreUnavailable),
            _ => Stage::Loading(0),
        },
        Stage::Loading(k) => match ev {
            StoreEvent::Rows(_) => if !fit {
                Stage::Failed(StoreError::QueryFailed)
            } else if k + 1 < 5 {
                Stage::Loading((k + 1) as usize)
            } else {
                Stage::Complete
            },
            _ => Stage::Failed(StoreError::QueryFailed),
        },
        _ => stage,
    }
}

impl QuerySession {
    pub open spec fn wf(self) -> bool {
        &&& self.schedule.wf()
        &&& self.stage matches Stage::Loading(k) ==> k < 5
    }

    /// What the holder of the connection is to do next.
    pub fn action(&self) -> (r: StoreAction)
        requires
            self.wf(),
        ensures
            r == action_of(self.stage),
    {
        match self.stage {
            Stage::Probing => StoreAction::Probe,
            Stage::Reconnecting => StoreAction::Reconnect,
            Stage::Loading(k) => StoreAction::Load(load_category(k)),
            _ => StoreAction::Finish,
        }
    }

    /// Takes in the outcome of the last action. Rows are kept only when every
    /// one of them answers the query; otherwise the exchange fails with
    /// `QueryFailed`.
    pub fn on_event(&mut self, ev: StoreEvent)
        requires
            old(self).wf(),
        ensures
            final(self).wf(),
            final(self).schedule.start == old(self).schedule.start,
            final(self).schedule.end == old(self).schedule.end,
            final(self).stage == next_stage(old(self).stage, ev, match ev {
                StoreEvent::Rows(rows) => match old(self).stage {
                    Stage::Loading(k) => rows_fit(rows@, load_order()[k as int],
                        old(self).schedule.start.days as int, old(self).schedule.end.days as int),
                    _ => true,
                },
                _ => true,
            }),
            forall|cat: Category| (#[trigger] final(self).schedule.courses_of(cat)) == (
                match (old(self).stage, ev) {
                    (Stage::Loading(k), StoreEvent::Rows(rows)) =>
                        if cat == load_order()[k as int] && final(self).stage != Stage::Failed(StoreError::QueryFailed) {
                            old(self).schedule.courses_of(cat) + rows@
                        } else {
                            old(self).schedule.courses_of(cat)
                        },
                    _ => old(self).schedule.courses_of(cat),
                }),
    {
        match self.stage {
            Stage::Probing => {
                match ev {
                    StoreEvent::Failed => self.stage = Stage::Reconnecting,
                    _ => self.stage = Stage::Loading(0),
                }
            },
            Stage::Reconnecting => {
                match ev {
                    StoreEvent::Failed => self.stage = Stage::Failed(StoreError::StoreUnavailable),
                    _ => self.stage = Stage::Loading(0),
                }
            },
            Stage::Loading(k) => {
                match ev {
                    StoreEvent::Rows(rows) => {
                        let cat = load_category(k);
                        let start = self.schedule.start.days;
                        let end = self.schedule.end.days;
                        if rows_answer(&rows, cat, start, end) {
                            self.take_rows(cat, rows);
                            if k + 1 < 5 {
                                self.stage = Stage::Loading(k + 1);
                            } else {
                                self.stage = Stage::Complete;
                            }
                        } else {
                            self.stage = Stage::Failed(StoreError::QueryFailed);
                        }
                    },
                    _ => self.stage = Stage::Failed(StoreError::QueryFailed),
                }
            },
            _ => {},
        }
    }

    fn take_rows(&mut self, cat: Category, rows: Vec<Course>)
        requires
            old(self).wf(),
            rows_fit(rows@, cat, old(self).schedule.start.days as int, old(self).schedule.end.days as int),
        ensures
            final(self).stage == old(self).stage,
            final(self).schedule.wf(),
            final(self).schedule.start == old(self).schedule.start,
            final(self).schedule.end == old(self).schedule.end,
            forall|c: Category| (#[trigger] final(self).schedule.courses_of(c)) == if c == cat {
                old(self).schedule.courses_of(c) + rows@
            } else {
                old(self).schedule.courses_of(c)
            },
    {
        let mut rows = rows;
        let ghost s0 = self.schedule;
        let ghost r0 = rows@;
        match cat {
            Category::Dev => self.schedule.dev_courses.append(&mut rows),
            Category::Infra => self.schedule.infra_courses.append(&mut rows),
            Category::DevInfra => self.schedule.dev_infra_courses.append(&mut rows),
            Category::Marketing => self.schedule.marketing_courses.append(&mut rows),
            Category::Common => self.schedule.common_courses.append(&mut rows),
        }
        proof {
            let s = self.schedule;
            assert forall|c: Category| all_belong(#[trigger] s.courses_of(c), c,
                s.start.days as int, s.end.days as int) by {
                assert(all_belong(s0.courses_of(c), c, s.start.days as int, s.end.days as int));
                if c == cat {
                    let a = s0.courses_of(c);
                    assert forall|i: int| 0 <= i < s.courses_of(c).len() implies
                        #[trigger] belongs(s.courses_of(c)[i], c, s.start.days as int, s.end.days as int) by {
                        if i >= a.len() {
                            assert(s.courses_of(c)[i] == r0[i - a.len()]);
                        }
                    }
                }
            }
        }
    }

    /// The schedule, once every category was read; the error otherwise.
    pub fn finish(self) -> (r: Result<Schedule, StoreError>)
        requires
            self.wf(),
        ensures
            self.stage == Stage::Complete ==> r == Ok::<Schedule, StoreError>(self.schedule),
            self.stage matches Stage::Failed(e) ==> r == Err::<Schedule, StoreError>(e),
            self.stage != Stage::Complete && !(self.stage is Failed) ==> r == Err::<Schedule, StoreError>(StoreError::QueryFailed),
            r matches Ok(s) ==> s.wf(),
    {
        match self.stage {
            Stage::Complete => Ok(self.schedule),
            Stage::Failed(e) => Err(e),
            _ => Err(StoreError::QueryFailed),
        }
    }
}

/// Whether every row is of category `cat` and dated within `[start, end]`.
fn rows_answer(rows: &Vec<Course>, cat: Category, start: i32, end: i32) -> (r: bool)
    ensures
        r == rows_fit(rows@, cat, start as int, end as int),
{
    let mut i: usize = 0;
    while i < rows.len()
        invariant
            0 <= i <= rows@.len(),
            forall|j: int| 0 <= j < i ==> #[trigger] belongs(rows@[j], cat, start as int, end as int),
        decreases rows@.len() - i,
    {
        let c = &rows[i];
        if !(c.category == cat && crate::calendar::MIN_DAY <= c.date.days && c.date.days <= crate::calendar::MAX_DAY
            && c.start.secs < crate::calendar::SECONDS_PER_DAY && c.end.secs < crate::calendar::SECONDS_PER_DAY
            && start <= c.date.days && c.date.days <= end) {
            assert(!belongs(rows@[i as int], cat, start as int, end as int));
            return false;
        }
        i = i + 1;
    }
    true
}

} // verus!

verus! {

/// Whether a course's date lies in `[start, end]`.
pub open spec fn in_range(c: Course, start: int, end: int) -> bool {
    start <= c.date.days <= end
}

/// Keeping the courses of `s` that satisfy `p` keeps them all when all do.
proof fn lemma_filter_all(s: Seq<Course>, p: spec_fn(Course) -> bool)
    requires
        forall|i: int| 0 <= i < s.len() ==> p(#[trigger] s[i]),
    ensures
        s.filter(p) == s,
    decreases s.len(),
{
    reveal(Seq::filter);
    if s.len() > 0 {
        lemma_filter_all(s.drop_last(), p);
        assert(p(s[s.len() - 1]));
        assert(s.drop_last().push(s.last()) =~= s);
    } else {
        assert(s =~= Seq::<Course>::empty());
    }
}

/// Every course of a schedule sits in exactly one of the five sequences, the
/// one of its own category.
pub proof fn lemma_each_course_in_one_sequence(s: Schedule, k: int)
    requires
        s.wf(),
        0 <= k < s.flat().len(),
    ensures
        s.courses_of(s.flat()[k].category).contains(s.flat()[k]),
        forall|cat: Category| cat != s.flat()[k].category ==> !(#[trigger] s.courses_of(cat)).contains(s.flat()[k]),
        forall|cat: Category, i: int| 0 <= i < s.courses_of(cat).len() ==> (#[trigger] s.courses_of(cat)[i]).category == cat,
{
    lemma_flat_member(s, k);
    let x = s.flat()[k];
    assert forall|cat: Category, i: int| 0 <= i < s.courses_of(cat).len() implies
        (#[trigger] s.courses_of(cat)[i]).category == cat by {
        assert(all_belong(s.courses_of(cat), cat, s.start.days as int, s.end.days as int));
        assert(belongs(s.courses_of(cat)[i], cat, s.start.days as int, s.end.days as int));
    }
    assert forall|cat: Category| cat != x.category implies !(#[trigger] s.courses_of(cat)).contains(x) by {
        if s.courses_of(cat).contains(x) {
            let i = choose|i: int| 0 <= i < s.courses_of(cat).len() && s.courses_of(cat)[i] == x;
            assert(s.courses_of(cat)[i].category == cat);
        }
    }
}

/// The display-order concatenation of a schedule is a partition of its five
/// sequences: nothing is lost or added, its length is the sum of theirs, and
/// keeping only the courses dated within the schedule's range keeps them all.
pub proof fn lemma_flat_partition(s: Schedule)
    requires
        s.wf(),
    ensures
        s.flat().filter(|c: Course| in_range(c, s.start.days as int, s.end.days as int)) == s.flat(),
        s.flat() == s.courses_of(display_order()[0]) + s.courses_of(display_order()[1])
            + s.courses_of(display_order()[2]) + s.courses_of(display_order()[3])
            + s.courses_of(display_order()[4]),
        s.flat().len() == s.dev_courses@.len() + s.infra_courses@.len() + s.dev_infra_courses@.len()
            + s.common_courses@.len() + s.marketing_courses@.len(),
        forall|c: Course| s.flat().contains(c) <==> exists|cat: Category| (#[trigger] s.courses_of(cat)).contains(c),
{
    let f = s.flat();
    let p = |c: Course| in_range(c, s.start.days as int, s.end.days as int);
    lemma_flat_in_range(s);
    assert forall|i: int| 0 <= i < f.len() implies p(#[trigger] f[i]) by {}
    lemma_filter_all(f, p);
    assert forall|c: Course| f.contains(c) <==> exists|cat: Category| (#[trigger] s.courses_of(cat)).contains(c) by {
        lemma_flat_contains(s, c);
    }
}

/// Every course of the display-order concatenation is dated within the range.
proof fn lemma_flat_in_range(s: Schedule)
    requires
        s.wf(),
    ensures
        forall|i: int| 0 <= i < s.flat().len() ==> in_range(#[trigger] s.flat()[i], s.start.days as int, s.end.days as int),
{
    assert forall|i: int| 0 <= i < s.flat().len() implies in_range(#[trigger] s.flat()[i], s.start.days as int, s.end.days as int) by {
        lemma_flat_member(s, i);
    }
}

/// A course is in the display-order concatenation exactly when it is in one of
/// the five sequences.
proof fn lemma_flat_contains(s: Schedule, c: Course)
    requires
        s.wf(),
    ensures
        s.flat().contains(c) <==> exists|cat: Category| (#[trigger] s.courses_of(cat)).contains(c),
{
    let f = s.flat();
    if f.contains(c) {
        let k = choose|k: int| 0 <= k < f.len() && f[k] == c;
        lemma_flat_member(s, k);
    }
    if exists|cat: Category| (#[trigger] s.courses_of(cat)).contains(c) {
        let cat = choose|cat: Category| (#[trigger] s.courses_of(cat)).contains(c);
        lemma_sequence_in_flat(s, cat, c);
    }
}

/// A course of any of the five sequences is in the display-order concatenation.
proof fn lemma_sequence_in_flat(s: Schedule, cat: Category, x: Course)
    requires
        s.courses_of(cat).contains(x),
    ensures
        s.flat().contains(x),
{
    let f = s.flat();
    let a = s.dev_courses@;
    let b = s.infra_courses@;
    let c = s.dev_infra_courses@;
    let d = s.common_courses@;
    let q = s.courses_of(cat);
    let i = choose|i: int| 0 <= i < q.len() && q[i] == x;
    match cat {
        Category::Dev => assert(f[i] == x),
        Category::Infra => assert(f[a.len() + i] == x),
        Category::DevInfra => assert(f[a.len() + b.len() + i] == x),
        Category::Common => assert(f[a.len() + b.len() + c.len() + i] == x),
        Category::Marketing => assert(f[a.len() + b.len() + c.len() + d.len() + i] == x),
    }
}

/// One reconnect stands for a failed probe: after it succeeds the loads go as
/// if the probe had; after it fails the exchange ends with `StoreUnavailable`
/// and asks for no further query, whatever comes next.
pub proof fn lemma_reconnect(ev: StoreEvent, fit: bool)
    ensures
        next_stage(next_stage(Stage::Probing, StoreEvent::Failed, true), StoreEvent::Succeeded, true)
            == next_stage(Stage::Probing, StoreEvent::Succeeded, true),
        next_stage(Stage::Probing, StoreEvent::Succeeded, true) == Stage::Loading(0),
        next_stage(next_stage(Stage::Probing, StoreEvent::Failed, true), StoreEvent::Failed, true)
            == Stage::Failed(StoreError::StoreUnavailable),
        action_of(Stage::Failed(StoreError::StoreUnavailable)) == StoreAction::Finish,
        next_stage(Stage::Failed(StoreError::StoreUnavailable), ev, fit) == Stage::Failed(StoreError::StoreUnavailable),
{
}

} // verus!
