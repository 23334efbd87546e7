//! Stateless operations over lists of problems: due selection, search,
//! ordering, and the create / review entry points.

use vstd::prelude::*;
use vstd::string::StringExecFns;
use crate::level::{ascii_upper, ascii_upper_char, upper_of, level_named, Level};
use crate::problem::{created_as, reviewed_as, Problem};
use crate::scheduler::{clock_now, in_calendar, next_review_text, MILLIS_PER_DAY};
use crate::text::{
    ascii_lower, ascii_lower_char, contains_text, has_substring, is_ascii_text, lemma_empty_is_substring, lemma_text_lt_irreflexive,
    lemma_text_lt_transitive, lower_of, lowercase, text_le, text_less, text_lt,
};

verus! {

/// `p` is due on `today`: its next review date is on or before it.
pub open spec fn is_due(p: Problem, today: Seq<char>) -> bool {
    text_le(p.next_review_at@, today)
}

/// The problems of `ps` that are due on `today`, in their order.
pub open spec fn due_list(ps: Seq<Problem>, today: Seq<char>) -> Seq<Problem> {
    ps.filter(|p: Problem| is_due(p, today))
}

/// `p`'s name or one of its tags, lower-cased, holds `folded`.
pub open spec fn matches_folded(p: Problem, folded: Seq<char>) -> bool {
    has_substring(lower_of(p.name@), folded) || exists|k: int|
        0 <= k < p.tags@.len() && has_substring(#[trigger] lower_of(p.tags@[k]@), folded)
}

/// The problems of `ps` that match the lower-cased search term `folded`.
pub open spec fn search_list(ps: Seq<Problem>, folded: Seq<char>) -> Seq<Problem> {
    ps.filter(|p: Problem| matches_folded(p, folded))
}

/// A field to order problems by.
#[derive(Clone, Copy, Debug, PartialEq, Eq, Structural)]
pub enum SortKey {
    /// Soonest next review first.
    NextReview,
    /// Newest creation date first.
    CreatedAt,
    /// Names in ascending order.
    Name,
}

/// The sort key that a criterion text names, if any.
pub open spec fn sort_key_named(s: Seq<char>) -> Option<SortKey> {
    if s == "next_review"@ {
        Some(SortKey::NextReview)
    } else if s == "created_at"@ {
        Some(SortKey::CreatedAt)
    } else if s == "name"@ {
        Some(SortKey::Name)
    } else {
        None
    }
}

/// `a` goes strictly before `b` in the order of `key`.
pub open spec fn goes_before(key: SortKey, a: Problem, b: Problem) -> bool {
    match key {
        SortKey::NextReview => text_lt(a.next_review_at@, b.next_review_at@),
        SortKey::CreatedAt => text_lt(b.created_at@, a.created_at@),
        SortKey::Name => text_lt(a.name@, b.name@),
    }
}

/// `a` and `b` tie in the order of `key`.
pub open spec fn same_key(key: SortKey, a: Problem, b: Problem) -> bool {
    match key {
        SortKey::NextReview => a.next_review_at@ == b.next_review_at@,
        SortKey::CreatedAt => a.created_at@ == b.created_at@,
        SortKey::Name => a.name@ == b.name@,
    }
}

/// `out` is `orig` rearranged by `perm` (`out[i]` is `orig[perm[i]]`), in the
/// order of `key`, with ties kept in their order in `orig`.
pub open spec fn sorts_by(key: SortKey, orig: Seq<Problem>, out: Seq<Problem>, perm: Seq<int>) -> bool {
    &&& out.len() == orig.len()
    &&& perm.len() == orig.len()
    &&& forall|i: int| 0 <= i < perm.len() ==> 0 <= #[trigger] perm[i] < orig.len()
    &&& forall|i: int, j: int| 0 <= i < j < perm.len() ==> perm[i] != perm[j]
    &&& forall|i: int| 0 <= i < out.len() ==> #[trigger] out[i] == orig[perm[i]]
    &&& forall|i: int, j: int| 0 <= i < j < out.len() ==> !goes_before(key, out[j], out[i])
    &&& forall|i: int, j: int|
        0 <= i < j < out.len() && same_key(key, out[i], out[j]) ==> perm[i] < perm[j]
}

/// `out` is a stable sort of `orig` in the order of `key`.
pub open spec fn is_stable_sort(key: SortKey, orig: Seq<Problem>, out: Seq<Problem>) -> bool {
    exists|perm: Seq<int>| sorts_by(key, orig, out, perm)
}

proof fn lemma_goes_before_transitive(key: SortKey, a: Problem, b: Problem, c: Problem)
    requires
        goes_before(key, a, b),
        goes_before(key, b, c),
    ensures
        goes_before(key, a, c),
{
    match key {
        SortKey::NextReview => lemma_text_lt_transitive(a.next_review_at@, b.next_review_at@, c.next_review_at@),
        SortKey::CreatedAt => lemma_text_lt_transitive(c.created_at@, b.created_at@, a.created_at@),
        SortKey::Name => lemma_text_lt_transitive(a.name@, b.name@, c.name@),
    }
}

proof fn lemma_goes_before_irreflexive(key: SortKey, a: Problem)
    ensures
        !goes_before(key, a, a),
{
    lemma_text_lt_irreflexive(a.next_review_at@);
    lemma_text_lt_irreflexive(a.created_at@);
    lemma_text_lt_irreflexive(a.name@);
}

impl SortKey {
    /// The key that `s` names; any other text is refused with a message that
    /// quotes it.
    pub fn from_str(s: &str) -> (r: Result<SortKey, String>)
        ensures
            match r {
                Ok(k) => sort_key_named(s@) == Some(k),
                Err(e) => sort_key_named(s@) is None && e@ == "Invalid sort criteria: "@ + s@,
            },
    {
        let t = String::from_str(s);
        if t == String::from_str("next_review") {
            Ok(SortKey::NextReview)
        } else if t == String::from_str("created_at") {
            Ok(SortKey::CreatedAt)
        } else if t == String::from_str("name") {
            Ok(SortKey::Name)
        } else {
            Err(String::from_str("Invalid sort criteria: ").concat(s))
        }
    }

    /// Whether `a` goes strictly before `b` in this order.
    pub fn before(self, a: &Problem, b: &Problem) -> (r: bool)
        ensures
            r == goes_before(self, *a, *b),
    {
        match self {
            SortKey::NextReview => text_less(a.next_review_at.as_str(), b.next_review_at.as_str()),
            SortKey::CreatedAt => text_less(b.created_at.as_str(), a.created_at.as_str()),
            SortKey::Name => text_less(a.name.as_str(), b.name.as_str()),
        }
    }
}

/// Sorts `problems` stably in the order of `key` (insertion sort).
pub fn sort_by_key(problems: Vec<Problem>, key: SortKey) -> (r: Vec<Problem>)
    ensures
        is_stable_sort(key, problems@, r@),
{
    let ghost orig = problems@;
    let n = problems.len();
    let mut rest = problems;
    let mut out: Vec<Problem> = Vec::new();
    let ghost mut perm: Seq<int> = Seq::empty();
    let mut k: usize = 0;
    while k < n
        invariant
            n == orig.len(),
            k <= n,
            rest@ == orig.skip(k as int),
            out@.len() == k,
            perm.len() == k,
            forall|i: int| 0 <= i < k ==> 0 <= #[trigger] perm[i] < k,
            forall|i: int, j: int| 0 <= i < j < k ==> perm[i] != perm[j],
            forall|i: int| 0 <= i < k ==> #[trigger] out@[i] == orig[perm[i]],
            forall|i: int, j: int| 0 <= i < j < k ==> !goes_before(key, out@[j], out@[i]),
            forall|i: int, j: int|
                0 <= i < j < k && same_key(key, out@[i], out@[j]) ==> perm[i] < perm[j],
        decreases n - k,
    {
        let p = rest.remove(0);
        assert(orig.skip(k as int).remove(0) =~= orig.skip(k + 1));
        let mut pos: usize = 0;
        while pos < out.len() && !key.before(&p, &out[pos])
            invariant
                pos <= out@.len(),
                forall|m: int| 0 <= m < pos ==> !goes_before(key, p, #[trigger] out@[m]),
            decreases out@.len() - pos,
        {
            pos = pos + 1;
        }
        let ghost old_out = out@;
        let ghost old_perm = perm;
        out.insert(pos, p);
        proof {
            perm = perm.insert(pos as int, k as int);
            assert forall|i: int| 0 <= i < k + 1 implies #[trigger] out@[i] == (if i < pos {
                old_out[i]
            } else if i == pos {
                p
            } else {
                old_out[i - 1]
            }) && perm[i] == (if i < pos {
                old_perm[i]
            } else if i == pos {
                k as int
            } else {
                old_perm[i - 1]
            }) by {}
            assert forall|i: int, j: int| 0 <= i < j < k + 1 implies !goes_before(
                key,
                out@[j],
                out@[i],
            ) by {
                if i == pos && j > pos {
                    let q = old_out[j - 1];
                    lemma_goes_before_irreflexive(key, q);
                    if goes_before(key, q, p) {
                        lemma_goes_before_transitive(key, q, p, old_out[pos as int]);
                    }
                }
            }
            assert forall|i: int, j: int|
                0 <= i < j < k + 1 && same_key(key, out@[i], out@[j]) implies perm[i] < perm[j] by {
                if i == pos && j > pos {
                    let q = old_out[j - 1];
                    let f = old_out[pos as int];
                    assert(goes_before(key, p, f));
                    assert(!goes_before(key, q, f)) by {
                        lemma_goes_before_irreflexive(key, f);
                    }
                    assert(goes_before(key, q, f));
                } else if i < pos && j == pos {
                    assert(old_perm[i] < k);
                }
            }
        }
        k = k + 1;
    }
    assert(sorts_by(key, orig, out@, perm));
    out
}

/// Orders `problems` by the criterion `criteria` (`next_review`, `created_at`
/// or `name`), stably. Any other criterion is refused.
pub fn sort_problems(problems: Vec<Problem>, criteria: &str) -> (r: Result<Vec<Problem>, String>)
    ensures
        match r {
            Ok(out) => sort_key_named(criteria@) matches Some(k) && is_stable_sort(k, problems@, out@),
            Err(e) => sort_key_named(criteria@) is None && e@ == "Invalid sort criteria: "@ + criteria@,
        },
{
    match SortKey::from_str(criteria) {
        Ok(k) => Ok(sort_by_key(problems, k)),
        Err(e) => Err(e),
    }
}

/// The message of the failure where a review date would lie past the last
/// date chrono represents.
pub open spec fn out_of_range_message() -> Seq<char> {
    "next review date out of range"@
}

/// Creates a problem now, with the level that `level` names in any letter
/// case. A text that names no level is refused with a message that quotes it.
pub fn add_problem(name: String, url: Option<String>, tags: Vec<String>, memo: String, level: &str) -> (r:
    Result<Problem, String>)
    ensures
        match level_named(upper_of(level@)) {
            None => r matches Err(e) && e@ == "Invalid level: "@ + level@,
            Some(l) => match r {
                Ok(p) => created_as(
                    p,
                    p.id,
                    p.id as int / MILLIS_PER_DAY as int,
                    name,
                    url,
                    tags,
                    memo,
                    l,
                ),
                Err(e) => e@ == out_of_range_message() && exists|day: int|
                    in_calendar(day) && #[trigger] next_review_text(day, l) is None,
            },
        },
{
    let l = match Level::from_str(level) {
        Ok(l) => l,
        Err(e) => return Err(e),
    };
    match Problem::new(name, url, tags, memo, l) {
        Some(p) => Ok(p),
        None => Err(String::from_str("next review date out of range")),
    }
}

/// Records a review of `problem`, held on epoch day `today`, rated by the
/// level that `new_level` names in any letter case: the level is replaced and
/// the next review is counted from `today`, whatever the record held before.
/// Id and creation date are kept. A text that names no level is refused with
/// a message that quotes it.
pub fn update_review_on(problem: Problem, new_level: &str, today: i32) -> (r: Result<Problem, String>)
    ensures
        match level_named(upper_of(new_level@)) {
            None => r matches Err(e) && e@ == "Invalid level: "@ + new_level@,
            Some(l) => match r {
                Ok(q) => reviewed_as(q, problem, l, today as int),
                Err(e) => e@ == out_of_range_message() && next_review_text(today as int, l) is None,
            },
        },
{
    let l = match Level::from_str(new_level) {
        Ok(l) => l,
        Err(e) => return Err(e),
    };
    match problem.reviewed_on(l, today) {
        Some(q) => Ok(q),
        None => Err(String::from_str("next review date out of range")),
    }
}

/// Records a review of `problem` rated by the level that `new_level` names in
/// any letter case: the level is replaced and the next review is counted
/// from today's UTC date. Id and creation date are kept. A text that names no
/// level is refused with a message that quotes it.
pub fn update_review(problem: Problem, new_level: &str) -> (r: Result<Problem, String>)
    ensures
        match level_named(upper_of(new_level@)) {
            None => r matches Err(e) && e@ == "Invalid level: "@ + new_level@,
            Some(l) => match r {
                Ok(q) => exists|day: int|
                    in_calendar(day) && #[trigger] reviewed_as(q, problem, l, day),
                Err(e) => e@ == out_of_range_message() && exists|day: int|
                    in_calendar(day) && #[trigger] next_review_text(day, l) is None,
            },
        },
{
    let today = clock_now().1;
    let ghost old_problem = problem;
    let r = update_review_on(problem, new_level, today);
    proof {
        if let Some(l) = level_named(upper_of(new_level@)) {
            if r is Ok {
                assert(reviewed_as(r->Ok_0, old_problem, l, today as int));
            } else {
                assert(next_review_text(today as int, l) is None);
            }
        }
    }
    r
}

/// Selects the problems due on `today` (a `YYYY-MM-DD` text), keeping their
/// order. Dates compare as text, which for `YYYY-MM-DD` is date order.
pub fn get_today_reviews(problems: Vec<Problem>, today: &str) -> (r: Vec<Problem>)
    ensures
        r@ == due_list(problems@, today@),
{
    let ghost orig = problems@;
    let n = problems.len();
    let mut rest = problems;
    let mut out: Vec<Problem> = Vec::new();
    let mut i: usize = 0;
    while i < n
        invariant
            n == orig.len(),
            i <= n,
            rest@ == orig.skip(i as int),
            out@ == due_list(orig.take(i as int), today@),
        decreases n - i,
    {
        let p = rest.remove(0);
        let due = !text_less(today, p.next_review_at.as_str());
        proof {
            reveal(Seq::filter);
            assert(orig.take(i + 1).drop_last() =~= orig.take(i as int));
            assert(orig.skip(i as int).remove(0) =~= orig.skip(i + 1));
        }
        if due {
            out.push(p);
        }
        i = i + 1;
    }
    assert(orig.take(n as int) =~= orig);
    out
}

/// The due selection holds exactly the due problems of the input, and
/// nothing when the input is empty.
pub proof fn lemma_due_list_members(ps: Seq<Problem>, today: Seq<char>, x: Problem)
    ensures
        due_list(ps, today).contains(x) <==> ps.contains(x) && is_due(x, today),
        ps.len() == 0 ==> due_list(ps, today).len() == 0,
    decreases ps.len(),
{
    reveal(Seq::filter);
    if ps.len() > 0 {
        let dl = ps.drop_last();
        let last = ps.last();
        lemma_due_list_members(dl, today, x);
        let sub = due_list(dl, today);
        let all = due_list(ps, today);
        assert(all == if is_due(last, today) { sub.push(last) } else { sub });
        if all.contains(x) {
            let i = choose|i: int| 0 <= i < all.len() && all[i] == x;
            if i < sub.len() {
                assert(sub.contains(x));
                let j = choose|j: int| 0 <= j < dl.len() && dl[j] == x;
                assert(ps[j] == x);
            } else {
                assert(ps[ps.len() - 1] == x);
            }
        }
        if ps.contains(x) && is_due(x, today) {
            let i = choose|i: int| 0 <= i < ps.len() && ps[i] == x;
            if i < dl.len() {
                assert(dl[i] == x);
                let j = choose|j: int| 0 <= j < sub.len() && sub[j] == x;
                assert(all[j] == x);
            } else {
                assert(all[all.len() - 1] == x);
            }
        }
    }
}

/// Whether `p`'s name or one of its tags, lower-cased, holds `folded`.
pub fn matches_search(p: &Problem, folded: &str) -> (r: bool)
    ensures
        r == matches_folded(*p, folded@),
{
    let name = lowercase(p.name.as_str());
    if contains_text(name.as_str(), folded) {
        return true;
    }
    let mut k: usize = 0;
    while k < p.tags.len()
        invariant
            k <= p.tags@.len(),
            forall|m: int| 0 <= m < k ==> !has_substring(#[trigger] lower_of(p.tags@[m]@), folded@),
        decreases p.tags@.len() - k,
    {
        let tag = lowercase(p.tags[k].as_str());
        if contains_text(tag.as_str(), folded) {
            return true;
        }
        k = k + 1;
    }
    false
}

/// The problems whose name or one of whose tags holds `search_term`, letter
/// case aside (both sides lower-cased), in their order.
pub fn filter_problems(problems: Vec<Problem>, search_term: &str) -> (r: Vec<Problem>)
    ensures
        r@ == search_list(problems@, lower_of(search_term@)),
        is_ascii_text(search_term@) ==> r@ == search_list(problems@, ascii_lower(search_term@)),
        search_term@.len() == 0 ==> r@ == problems@,
{
    let folded = lowercase(search_term);
    let ghost orig = problems@;
    let n = problems.len();
    let mut rest = problems;
    let mut out: Vec<Problem> = Vec::new();
    let mut i: usize = 0;
    while i < n
        invariant
            n == orig.len(),
            i <= n,
            rest@ == orig.skip(i as int),
            out@ == search_list(orig.take(i as int), folded@),
        decreases n - i,
    {
        let p = rest.remove(0);
        let keep = matches_search(&p, folded.as_str());
        proof {
            reveal(Seq::filter);
            assert(orig.take(i + 1).drop_last() =~= orig.take(i as int));
            assert(orig.skip(i as int).remove(0) =~= orig.skip(i + 1));
        }
        if keep {
            out.push(p);
        }
        i = i + 1;
    }
    assert(orig.take(n as int) =~= orig);
    proof {
        if search_term@.len() == 0 {
            assert(folded@ =~= Seq::<char>::empty());
            lemma_search_empty_keeps_all(orig);
        }
    }
    out
}

/// An empty (lower-cased) search term keeps every problem, in order.
pub proof fn lemma_search_empty_keeps_all(ps: Seq<Problem>)
    ensures
        search_list(ps, Seq::empty()) == ps,
    decreases ps.len(),
{
    reveal(Seq::filter);
    if ps.len() > 0 {
        lemma_search_empty_keeps_all(ps.drop_last());
        lemma_empty_is_substring(lower_of(ps.last().name@));
        assert(ps.drop_last().push(ps.last()) =~= ps);
    } else {
        assert(search_list(ps, Seq::empty()) =~= ps);
    }
}

proof fn lemma_ascii_char_case(c: char)
    requires
        (c as u32) < 128,
    ensures
        (ascii_upper_char(c) as u32) < 128,
        (ascii_lower_char(c) as u32) < 128,
        ascii_lower_char(ascii_upper_char(c)) == ascii_lower_char(c),
        ascii_lower_char(ascii_lower_char(c)) == ascii_lower_char(c),
{
}

/// Letter case of an ASCII search term does not matter: the term, its
/// upper-cased form and its lower-cased form are all ASCII, and they select
/// the same problems.
pub proof fn lemma_search_ignores_ascii_case(ps: Seq<Problem>, t: Seq<char>)
    requires
        is_ascii_text(t),
    ensures
        is_ascii_text(ascii_upper(t)),
        is_ascii_text(ascii_lower(t)),
        search_list(ps, ascii_lower(ascii_upper(t))) == search_list(ps, ascii_lower(t)),
        search_list(ps, ascii_lower(ascii_lower(t))) == search_list(ps, ascii_lower(t)),
{
    assert forall|i: int| 0 <= i < t.len() implies (#[trigger] ascii_upper(t)[i] as u32) < 128
        && (ascii_lower(t)[i] as u32) < 128 && ascii_lower(ascii_upper(t))[i] == ascii_lower(t)[i]
        && ascii_lower(ascii_lower(t))[i] == ascii_lower(t)[i] by {
        lemma_ascii_char_case(t[i]);
    }
    assert(ascii_lower(ascii_upper(t)) =~= ascii_lower(t));
    assert(ascii_lower(ascii_lower(t)) =~= ascii_lower(t));
}

} // verus!
