//! Spaced-repetition bookkeeping: difficulty levels, a fixed-interval review
//! scheduler, problem records and stateless operations over lists of them.

pub mod collection;
pub mod level;
pub mod problem;
pub mod scheduler;
pub mod text;

pub use collection::{
    add_problem, filter_problems, get_today_reviews, matches_search, sort_by_key, sort_problems,
    update_review, update_review_on, SortKey,
};
pub use level::Level;
pub use problem::Problem;
pub use scheduler::{
    calculate_next_review, format_day, next_review_from, next_review_on, parse_day, review_interval,
    FIRST_EPOCH_DAY, LAST_EPOCH_DAY, MILLIS_PER_DAY,
};
pub use text::{contains_text, text_less};
