//! Difficulty levels, rated after each review of a problem.

use vstd::prelude::*;
use vstd::string::StringExecFns;
use crate::text::is_ascii_text;

verus! {

/// Self-reported difficulty of a review, from hardest to easiest.
#[allow(non_camel_case_types)]
#[derive(Clone, Copy, Debug, PartialEq, Eq, Structural)]
pub enum Level {
    AGAIN,
    HARD,
    GOOD,
    EASY,
}

/// The canonical (upper-case) name of a level.
pub open spec fn level_name(l: Level) -> Seq<char> {
    match l {
        Level::AGAIN => "AGAIN"@,
        Level::HARD => "HARD"@,
        Level::GOOD => "GOOD"@,
        Level::EASY => "EASY"@,
    }
}

/// The level whose canonical name is exactly `u`, if any.
pub open spec fn level_named(u: Seq<char>) -> Option<Level> {
    if u == "AGAIN"@ {
        Some(Level::AGAIN)
    } else if u == "HARD"@ {
        Some(Level::HARD)
    } else if u == "GOOD"@ {
        Some(Level::GOOD)
    } else if u == "EASY"@ {
        Some(Level::EASY)
    } else {
        None
    }
}

/// What `str::to_uppercase` returns for a text.
pub uninterp spec fn upper_of(s: Seq<char>) -> Seq<char>;

/// Upper-casing of one ASCII character; other characters are left alone.
pub open spec fn ascii_upper_char(c: char) -> char {
    if 'a' <= c && c <= 'z' {
        ((c as u32) - 32) as char
    } else {
        c
    }
}

/// ASCII upper-casing of a whole text.
pub open spec fn ascii_upper(s: Seq<char>) -> Seq<char> {
    Seq::new(s.len(), |i: int| ascii_upper_char(s[i]))
}

/// Relies on `str::to_uppercase`: the result depends on the characters alone,
/// and on ASCII text it maps `a`..`z` to `A`..`Z` and keeps everything else.
#[verifier::external_body]
fn uppercase(s: &str) -> (r: String)
    ensures
        r@ == upper_of(s@),
        is_ascii_text(s@) ==> r@ == ascii_upper(s@),
{
    s.to_uppercase()
}

impl Level {
    /// The level whose canonical name is exactly `u` (no case folding).
    pub fn from_canonical(u: &str) -> (r: Option<Level>)
        ensures
            r == level_named(u@),
    {
        let u = String::from_str(u);
        if u == String::from_str("AGAIN") {
            Some(Level::AGAIN)
        } else if u == String::from_str("HARD") {
            Some(Level::HARD)
        } else if u == String::from_str("GOOD") {
            Some(Level::GOOD)
        } else if u == String::from_str("EASY") {
            Some(Level::EASY)
        } else {
            None
        }
    }

    /// Parses a level name in any letter case. A text that names no level is
    /// refused with a message that quotes it.
    pub fn from_str(s: &str) -> (r: Result<Level, String>)
        ensures
            match r {
                Ok(l) => level_named(upper_of(s@)) == Some(l),
                Err(e) => level_named(upper_of(s@)) is None && e@ == "Invalid level: "@ + s@,
            },
            is_ascii_text(s@) ==> match r {
                Ok(l) => ascii_upper(s@) == level_name(l),
                Err(_) => level_named(ascii_upper(s@)) is None,
            },
    {
        let upper = uppercase(s);
        proof {
            if let Some(l) = level_named(upper@) {
                lemma_name_of_named(upper@, l);
            }
        }
        match Level::from_canonical(upper.as_str()) {
            Some(l) => Ok(l),
            None => Err(String::from_str("Invalid level: ").concat(s)),
        }
    }

    /// The canonical name of this level.
    pub fn as_str(&self) -> (r: &'static str)
        ensures
            r@ == level_name(*self),
    {
        match self {
            Level::AGAIN => "AGAIN",
            Level::HARD => "HARD",
            Level::GOOD => "GOOD",
            Level::EASY => "EASY",
        }
    }
}

proof fn lemma_name_of_named(u: Seq<char>, l: Level)
    requires
        level_named(u) == Some(l),
    ensures
        u == level_name(l),
{
}

/// Every level's canonical name parses back to that level.
pub proof fn lemma_level_name_parses(l: Level)
    ensures
        level_named(level_name(l)) == Some(l),
        level_name(l) == ascii_upper(level_name(l)),
        is_ascii_text(level_name(l)),
{
    reveal_strlit("AGAIN");
    reveal_strlit("HARD");
    reveal_strlit("GOOD");
    reveal_strlit("EASY");
    assert(level_name(l) =~= ascii_upper(level_name(l)));
    assert("HARD"@.len() != "AGAIN"@.len());
    assert("GOOD"@.len() != "AGAIN"@.len());
    assert("EASY"@.len() != "AGAIN"@.len());
    assert("GOOD"@[0] != "HARD"@[0]);
    assert("EASY"@[0] != "HARD"@[0]);
    assert("EASY"@[0] != "GOOD"@[0]);
}

} // verus!
