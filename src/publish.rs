//! Chat messages for a schedule: one embed per course, posted after the
//! channel's recent messages are cleared.
use vstd::prelude::*;
use crate::calendar::{french_weekday, hm_text, weekday_index};
use crate::models::Course;
use crate::schedule::{Schedule, StoreError};

verus! {

/// How many of the channel's most recent messages a publication clears.
pub const RECENT_LIMIT: usize = 20;

/// A labelled field of an embed.
#[derive(Debug)]
pub struct EmbedField {
    pub name: String,
    pub value: String,
    pub inline: bool,
}

/// A colored chat message with a title and fields.
#[derive(Debug)]
pub struct Embed {
    pub title: String,
    pub color: u32,
    pub fields: Vec<EmbedField>,
}

/// What an embed shows.
pub struct EmbedView {
    pub title: Seq<char>,
    pub color: u32,
    pub fields: Seq<(Seq<char>, Seq<char>, bool)>,
}

impl View for EmbedField {
    type V = (Seq<char>, Seq<char>, bool);

    open spec fn view(&self) -> (Seq<char>, Seq<char>, bool) {
        (self.name@, self.value@, self.inline)
    }
}

impl View for Embed {
    type V = EmbedView;

    open spec fn view(&self) -> EmbedView {
        EmbedView {
            title: self.title@,
            color: self.color,
            fields: self.fields@.map_values(|f: EmbedField| f@),
        }
    }
}

/// The name of the badge field of a course of the alternate track.
pub open spec fn bts_field() -> (Seq<char>, Seq<char>, bool) {
    ("BTS"@, Seq::empty(), true)
}

/// `weekday [HH:MM-HH:MM]`, the weekday in French.
pub open spec fn when_text(c: Course) -> Seq<char> {
    french_weekday(weekday_index(c.date.days as int)) + " ["@ + hm_text(c.start.secs as int) + "-"@
        + hm_text(c.end.secs as int) + "]"@
}

/// The message that announces a course.
pub open spec fn rendered(c: Course) -> EmbedView {
    EmbedView {
        title: c.subject@,
        color: c.category.embed_color_spec(),
        fields: seq![
            ("Date"@, when_text(c), true),
            ("Intervenant"@, c.teacher@, true),
            ("Salle"@, c.classroom@, true),
            ("Spécialité"@, c.category.label_spec(), true),
        ] + if c.bts { seq![bts_field()] } else { Seq::empty() },
    }
}

/// The messages that announce a schedule, in display order.
pub open spec fn posts_of(s: Schedule) -> Seq<EmbedView> {
    s.flat().map_values(|c: Course| rendered(c))
}

/// The channel (oldest message first) once its most recent `RECENT_LIMIT`
/// messages are deleted and `posts` are sent.
pub open spec fn after_publish(channel: Seq<EmbedView>, posts: Seq<EmbedView>) -> Seq<EmbedView> {
    let kept = if channel.len() > RECENT_LIMIT { channel.len() - RECENT_LIMIT } else { 0 };
    channel.subrange(0, kept) + posts
}

fn field(name: &str, value: String) -> (r: EmbedField)
    ensures
        r@ == (name@, value@, true),
{
    EmbedField { name: String::from_str(name), value, inline: true }
}

/// The message that announces a course.
pub fn render_course(c: &Course) -> (r: Embed)
    requires
        c.valid(),
    ensures
        r@ == rendered(*c),
{
    let mut when = c.date.french_day_name();
    when.append(" [");
    let s = c.start.hm_text();
    when.append(s.as_str());
    when.append("-");
    let e = c.end.hm_text();
    when.append(e.as_str());
    when.append("]");
    let ghost w = when@;
    let f0 = field("Date", when);
    let f1 = field("Intervenant", c.teacher.clone());
    let f2 = field("Salle", c.classroom.clone());
    let f3 = field("Spécialité", c.category.label());
    let ghost base = seq![f0@, f1@, f2@, f3@];
    let mut fields: Vec<EmbedField> = Vec::new();
    fields.push(f0);
    fields.push(f1);
    fields.push(f2);
    fields.push(f3);
    assert(fields@.map_values(|f: EmbedField| f@) =~= base);
    if c.bts {
        let f4 = field("BTS", String::new());
        fields.push(f4);
        assert(fields@.map_values(|f: EmbedField| f@) =~= base.push(bts_field()));
    }
    let r = Embed { title: c.subject.clone(), color: c.category.embed_color(), fields };
    assert(w == when_text(*c));
    assert(r@.fields =~= rendered(*c).fields);
    r
}

/// One step of a publication.
#[derive(Debug)]
pub enum ChannelOp {
    /// Delete the message with this identifier.
    Delete(u64),
    /// Send this message.
    Post(Embed),
}

/// Whether `op` sends the message that announces `c`.
pub open spec fn posts_course(op: ChannelOp, c: Course) -> bool {
    op matches ChannelOp::Post(e) && e@ == rendered(c)
}

/// The steps that publish a schedule to a channel whose most recent messages
/// (newest first) are `recent`: delete the first `RECENT_LIMIT` of them, then
/// post one message per course in display order.
pub fn publish_plan(recent: &Vec<u64>, schedule: Schedule) -> (r: Vec<ChannelOp>)
    requires
        schedule.wf(),
    ensures
        ({
            let d = if recent@.len() > RECENT_LIMIT { RECENT_LIMIT as int } else { recent@.len() as int };
            &&& r@.len() == d + schedule.flat().len()
            &&& forall|i: int| 0 <= i < d ==> r@[i] == ChannelOp::Delete(recent@[i])
            &&& forall|j: int| 0 <= j < schedule.flat().len() ==>
                posts_course(r@[d + j], #[trigger] schedule.flat()[j])
        }),
{
    proof {
        schedule_courses_valid(schedule);
    }
    let ghost flat = schedule.flat();
    let courses = schedule.into_flat();
    let mut ops: Vec<ChannelOp> = Vec::new();
    let mut i: usize = 0;
    while i < recent.len() && i < RECENT_LIMIT
        invariant
            0 <= i <= recent@.len(),
            i <= RECENT_LIMIT,
            ops@.len() == i,
            forall|k: int| 0 <= k < i ==> ops@[k] == ChannelOp::Delete(recent@[k]),
        decreases recent@.len() - i,
    {
        ops.push(ChannelOp::Delete(recent[i]));
        i = i + 1;
    }
    let d = i;
    let mut j: usize = 0;
    while j < courses.len()
        invariant
            courses@ == flat,
            forall|k: int| 0 <= k < flat.len() ==> (#[trigger] flat[k]).valid(),
            0 <= j <= courses@.len(),
            ops@.len() == d + j,
            forall|k: int| 0 <= k < d ==> ops@[k] == ChannelOp::Delete(recent@[k]),
            d <= recent@.len(),
            d == (if recent@.len() > RECENT_LIMIT { RECENT_LIMIT as int } else { recent@.len() as int }),
            forall|k: int| 0 <= k < j ==> posts_course(ops@[d + k], #[trigger] flat[k]),
        decreases courses@.len() - j,
    {
        let e = render_course(&courses[j]);
        ops.push(ChannelOp::Post(e));
        j = j + 1;
    }
    ops
}

/// Every course of a well-formed schedule is valid.
proof fn schedule_courses_valid(s: Schedule)
    requires
        s.wf(),
    ensures
        forall|k: int| 0 <= k < s.flat().len() ==> (#[trigger] s.flat()[k]).valid(),
{
    assert forall|k: int| 0 <= k < s.flat().len() implies (#[trigger] s.flat()[k]).valid() by {
        crate::schedule::lemma_flat_member(s, k);
    }
}

impl StoreError {
    pub open spec fn message_spec(self) -> Seq<char> {
        match self {
            StoreError::StoreUnavailable => "the course store is unavailable"@,
            StoreError::QueryFailed => "a course query failed"@,
        }
    }

    /// A sentence that describes the error.
    pub fn message(&self) -> (r: String)
        ensures
            r@ == self.message_spec(),
    {
        match self {
            StoreError::StoreUnavailable => String::from_str("the course store is unavailable"),
            StoreError::QueryFailed => String::from_str("a course query failed"),
        }
    }
}

/// The direct message sent to the administrator when a schedule could not be read.
pub fn failure_notice(e: StoreError) -> (r: String)
    ensures
        r@ == "Failed to execute command: "@ + e.message_spec(),
{
    let mut r = String::from_str("Failed to execute command: ");
    let m = e.message();
    r.append(m.as_str());
    r
}

} // verus!

verus! {

/// Publishing the same schedule twice in a row leaves the channel as one
/// publication does, when the channel held no more than `RECENT_LIMIT`
/// messages and the schedule has no more than `RECENT_LIMIT` courses.
pub proof fn lemma_publish_idempotent(channel: Seq<EmbedView>, s: Schedule)
    requires
        channel.len() <= RECENT_LIMIT,
        posts_of(s).len() <= RECENT_LIMIT,
    ensures
        after_publish(after_publish(channel, posts_of(s)), posts_of(s)) == after_publish(channel, posts_of(s)),
        after_publish(channel, posts_of(s)) == posts_of(s),
{
    let p = posts_of(s);
    assert(channel.subrange(0, 0) + p =~= p);
}

/// A course of the alternate track gets the badge field, as its last field;
/// any other course has no field of that name.
pub proof fn lemma_bts_badge(c: Course)
    ensures
        c.bts ==> rendered(c).fields.contains(bts_field()),
        c.bts ==> rendered(c).fields.last() == bts_field(),
        !c.bts ==> forall|i: int| 0 <= i < rendered(c).fields.len() ==> (#[trigger] rendered(c).fields[i]).0 != bts_field().0,
{
    reveal_strlit("BTS");
    reveal_strlit("Date");
    reveal_strlit("Intervenant");
    reveal_strlit("Salle");
    reveal_strlit("Spécialité");
    let f = rendered(c).fields;
    if c.bts {
        assert(f[4] == bts_field());
    } else {
        assert forall|i: int| 0 <= i < f.len() implies (#[trigger] f[i]).0 != bts_field().0 by {
            assert(f[i].0.len() != 3 || f[i].0[0] != 'B');
        }
    }
}

} // verus!
