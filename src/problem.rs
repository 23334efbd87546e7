//! The reviewable item and its life cycle: creation and review updates.

use vstd::prelude::*;
use crate::level::Level;
use crate::scheduler::{
    clock_now, day_text, in_calendar, next_review_from, next_review_text,
    MILLIS_PER_DAY,
};

verus! {

/// One reviewable item, such as a coding exercise.
#[derive(Clone, Debug)]
pub struct Problem {
    /// Creation instant in milliseconds since the Unix epoch.
    pub id: i64,
    pub name: String,
    pub url: Option<String>,
    pub tags: Vec<String>,
    pub memo: String,
    pub level: Level,
    /// Creation date, `YYYY-MM-DD`.
    pub created_at: String,
    /// Date of the next review, `YYYY-MM-DD`.
    pub next_review_at: String,
}

/// `p` is the record created at instant `id` on epoch day `day` from the
/// given fields.
pub open spec fn created_as(
    p: Problem,
    id: i64,
    day: int,
    name: String,
    url: Option<String>,
    tags: Vec<String>,
    memo: String,
    level: Level,
) -> bool {
    &&& p.id == id
    &&& p.name == name
    &&& p.url == url
    &&& p.tags == tags
    &&& p.memo == memo
    &&& p.level == level
    &&& p.created_at@ == day_text(day)
    &&& next_review_text(day, level) == Some(p.next_review_at@)
}

/// `q` is `p` after a review rated `level` on epoch day `day`.
pub open spec fn reviewed_as(q: Problem, p: Problem, level: Level, day: int) -> bool {
    &&& q.id == p.id
    &&& q.name == p.name
    &&& q.url == p.url
    &&& q.tags == p.tags
    &&& q.memo == p.memo
    &&& q.created_at == p.created_at
    &&& q.level == level
    &&& next_review_text(day, level) == Some(q.next_review_at@)
}

impl Problem {
    /// The record created at instant `id` (milliseconds) on epoch day `day`.
    /// `None` where `day` or the first review date lies outside the dates
    /// chrono represents.
    pub fn created_on(
        id: i64,
        day: i32,
        name: String,
        url: Option<String>,
        tags: Vec<String>,
        memo: String,
        level: Level,
    ) -> (r: Option<Problem>)
        ensures
            r is Some <==> in_calendar(day as int) && next_review_text(day as int, level) is Some,
            r matches Some(p) ==> created_as(p, id, day as int, name, url, tags, memo, level),
    {
        let created_at = match crate::scheduler::format_day(day) {
            Some(t) => t,
            None => return None,
        };
        let next_review_at = match next_review_from(day, level) {
            Some(t) => t,
            None => return None,
        };
        Some(Problem { id, name, url, tags, memo, level, created_at, next_review_at })
    }

    /// Creates a record now: its id is the current instant in milliseconds,
    /// its creation date today's UTC date, and its first review falls the
    /// level's interval after that. `None` only where that review date would
    /// lie past the last date chrono represents.
    pub fn new(name: String, url: Option<String>, tags: Vec<String>, memo: String, level: Level) -> (r:
        Option<Problem>)
        ensures
            r matches Some(p) ==> created_as(
                p,
                p.id,
                p.id as int / MILLIS_PER_DAY as int,
                name,
                url,
                tags,
                memo,
                level,
            ),
            r is None ==> exists|day: int|
                in_calendar(day) && #[trigger] next_review_text(day, level) is None,
    {
        let (id, day) = clock_now();
        let r = Problem::created_on(id, day, name, url, tags, memo, level);
        assert(r is None ==> next_review_text(day as int, level) is None);
        r
    }

    /// This record after a review rated `level` on epoch day `day`: the level
    /// is replaced and the next review is counted from `day`, whatever the
    /// record held before. `None` where that date lies past the last date
    /// chrono represents.
    pub fn reviewed_on(self, level: Level, day: i32) -> (r: Option<Problem>)
        ensures
            r is Some <==> next_review_text(day as int, level) is Some,
            r matches Some(q) ==> reviewed_as(q, self, level, day as int),
    {
        let next_review_at = match next_review_from(day, level) {
            Some(t) => t,
            None => return None,
        };
        let mut q = self;
        q.level = level;
        q.next_review_at = next_review_at;
        Some(q)
    }
}

} // verus!
