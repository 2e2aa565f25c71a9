//! A scheduled course, as read from the store.
use vstd::prelude::*;
use crate::calendar::{Date, Time};
use crate::category::Category;

verus! {

/// One scheduled session. The store assigns `id`; this library only reads courses.
#[derive(Debug)]
pub struct Course {
    pub id: i32,
    pub date: Date,
    pub category: Category,
    pub start: Time,
    pub end: Time,
    pub subject: String,
    pub teacher: String,
    pub classroom: String,
    pub remote: bool,
    pub bts: bool,
}

impl Course {
    /// Dates and times that the calendar functions can write.
    pub open spec fn valid(self) -> bool {
        self.date.valid() && self.start.valid() && self.end.valid()
    }
}

} // verus!
