//! The bot's settings and the weekly publication's choice of week.
use vstd::prelude::*;
use crate::calendar::{Date, MAX_DAY, MIN_DAY};
use crate::schedule::{QuerySession, Schedule};

verus! {

/// What std's `str::parse::<u64>` reads from a text.
pub uninterp spec fn parsed_u64_of(s: Seq<char>) -> Option<u64>;

/// Relies on std's `str::parse::<u64>`: the outcome depends on the text alone.
#[verifier::external_body]
fn parse_u64(s: &str) -> (r: Option<u64>)
    ensures
        r == parsed_u64_of(s@),
{
    s.parse::<u64>().ok()
}

/// The chat identities that the bot works with.
#[derive(Clone, Copy, Debug, PartialEq, Eq, Structural)]
pub struct Data {
    /// The channel that receives the schedule.
    pub channel: u64,
    /// The user told of failures.
    pub admin: u64,
}

/// A setting that is not a number.
#[derive(Clone, Copy, Debug, PartialEq, Eq, Structural)]
pub enum ConfigError {
    BadChannel,
    BadAdmin,
}

impl Data {
    /// Reads the channel and administrator identities from their settings' text.
    pub fn new(channel: &str, admin: &str) -> (r: Result<Data, ConfigError>)
        ensures
            parsed_u64_of(channel@) is None ==> r == Err::<Data, ConfigError>(ConfigError::BadChannel),
            parsed_u64_of(channel@) is Some && parsed_u64_of(admin@) is None
                ==> r == Err::<Data, ConfigError>(ConfigError::BadAdmin),
            parsed_u64_of(channel@) is Some && parsed_u64_of(admin@) is Some ==> r == Ok::<Data, ConfigError>(
                Data { channel: parsed_u64_of(channel@).unwrap(), admin: parsed_u64_of(admin@).unwrap() }),
    {
        let channel = match parse_u64(channel) {
            Some(c) => c,
            None => return Err(ConfigError::BadChannel),
        };
        let admin = match parse_u64(admin) {
            Some(a) => a,
            None => return Err(ConfigError::BadAdmin),
        };
        Ok(Data { channel, admin })
    }
}

/// Starts reading the schedule that a publication on `today` announces: the
/// week that holds the day one week later. `None` when that week cannot be
/// represented.
pub fn next_week_query(today: Date) -> (r: Option<QuerySession>)
    requires
        today.valid(),
    ensures
        r is Some <==> (today.days + 7 <= MAX_DAY && (Date { days: (today.days + 7) as i32 }).week_fits()),
        r matches Some(q) ==> (q.wf() && q.stage == crate::schedule::Stage::Probing
            && q.schedule.start.days == crate::calendar::week_start(today.days + 7)
            && q.schedule.end.days == q.schedule.start.days + 6
            && forall|cat| (#[trigger] q.schedule.courses_of(cat)).len() == 0),
{
    if today.days > MAX_DAY - 7 {
        return None;
    }
    let target = today.plus_days(7);
    let w = target.weekday() as i32;
    if target.days - w < MIN_DAY || target.days - w > MAX_DAY - 6 {
        return None;
    }
    Some(Schedule::query_week(target))
}

} // verus!
