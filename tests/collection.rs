use chrono::{Duration, Utc};
use spaced_review::{
    add_problem, contains_text, filter_problems, get_today_reviews, parse_day, sort_problems,
    text_less, update_review, update_review_on, Level, Problem, SortKey,
};

fn problem(id: i64, name: &str, tags: &[&str], created: &str, next: &str) -> Problem {
    Problem {
        id,
        name: name.to_string(),
        url: None,
        tags: tags.iter().map(|t| t.to_string()).collect(),
        memo: String::new(),
        level: Level::GOOD,
        created_at: created.to_string(),
        next_review_at: next.to_string(),
    }
}

fn ids(ps: &[Problem]) -> Vec<i64> {
    ps.iter().map(|p| p.id).collect()
}

fn today_plus(days: i64) -> String {
    (Utc::now().date_naive() + Duration::days(days)).format("%Y-%m-%d").to_string()
}

#[test]
fn due_selection_keeps_order() {
    let ps = vec![
        problem(1, "a", &[], "2025-10-01", "2025-11-05"),
        problem(2, "b", &[], "2025-10-01", "2025-11-02"),
        problem(3, "c", &[], "2025-10-01", "2025-11-03"),
        problem(4, "d", &[], "2025-10-01", "2025-10-30"),
    ];
    assert_eq!(ids(&get_today_reviews(ps, "2025-11-02")), vec![2, 4]);
}

#[test]
fn due_selection_of_nothing_is_empty() {
    assert!(get_today_reviews(Vec::new(), "2025-11-02").is_empty());
}

#[test]
fn search_ignores_case_over_name_and_tags() {
    let ps = vec![
        problem(1, "Two Sum", &["array"], "2025-10-01", "2025-11-05"),
        problem(2, "Dijkstra", &["Graph", "heap"], "2025-10-01", "2025-11-05"),
        problem(3, "Course Schedule", &["graph"], "2025-10-01", "2025-11-05"),
        problem(4, "Merge Intervals", &[], "2025-10-01", "2025-11-05"),
    ];
    assert_eq!(ids(&filter_problems(ps.clone(), "GRAPH")), vec![2, 3]);
    assert_eq!(ids(&filter_problems(ps.clone(), "sum")), vec![1]);
    assert_eq!(ids(&filter_problems(ps.clone(), "zzz")), Vec::<i64>::new());
}

#[test]
fn empty_search_keeps_everything() {
    let ps = vec![
        problem(3, "c", &[], "2025-10-01", "2025-11-05"),
        problem(1, "a", &[], "2025-10-01", "2025-11-05"),
        problem(2, "b", &[], "2025-10-01", "2025-11-05"),
    ];
    assert_eq!(ids(&filter_problems(ps, "")), vec![3, 1, 2]);
}

#[test]
fn sort_by_name_is_stable() {
    let ps = vec![
        problem(1, "b", &[], "2025-10-01", "2025-11-05"),
        problem(2, "a", &[], "2025-10-02", "2025-11-05"),
        problem(3, "b", &[], "2025-10-03", "2025-11-05"),
        problem(4, "a", &[], "2025-10-04", "2025-11-05"),
    ];
    assert_eq!(ids(&sort_problems(ps, "name").unwrap()), vec![2, 4, 1, 3]);
}

#[test]
fn sort_by_created_at_newest_first() {
    let ps = vec![
        problem(1, "x", &[], "2025-10-01", "2025-11-05"),
        problem(2, "x", &[], "2025-10-03", "2025-11-05"),
        problem(3, "x", &[], "2025-10-02", "2025-11-05"),
        problem(4, "x", &[], "2025-10-03", "2025-11-05"),
    ];
    assert_eq!(ids(&sort_problems(ps, "created_at").unwrap()), vec![2, 4, 3, 1]);
}

#[test]
fn sort_by_next_review_soonest_first() {
    let ps = vec![
        problem(1, "x", &[], "2025-10-01", "2025-11-09"),
        problem(2, "x", &[], "2025-10-01", "2025-11-03"),
        problem(3, "x", &[], "2025-10-01", "2025-12-01"),
    ];
    assert_eq!(ids(&sort_problems(ps, "next_review").unwrap()), vec![2, 1, 3]);
}

#[test]
fn sort_refuses_unknown_criterion() {
    let ps = vec![problem(1, "x", &[], "2025-10-01", "2025-11-09")];
    assert_eq!(sort_problems(ps, "bogus").unwrap_err(), "Invalid sort criteria: bogus");
    assert!(SortKey::from_str("Name").is_err());
}

#[test]
fn review_keeps_identity_and_restarts_from_today() {
    let p = problem(42, "x", &["t"], "2025-01-01", "2025-01-08");
    let q = update_review(p, "easy").unwrap();
    assert_eq!(q.id, 42);
    assert_eq!(q.created_at, "2025-01-01");
    assert_eq!(q.level, Level::EASY);
    assert_eq!(q.next_review_at, today_plus(30));
    assert_eq!(q.tags, vec!["t".to_string()]);
}

#[test]
fn review_refuses_unknown_level() {
    let p = problem(42, "x", &[], "2025-01-01", "2025-01-08");
    assert_eq!(update_review(p, "meh").unwrap_err(), "Invalid level: meh");
}

#[test]
fn add_problem_schedules_from_today() {
    let p = add_problem("Two Sum".to_string(), None, vec![], String::new(), "hard").unwrap();
    assert_eq!(p.level, Level::HARD);
    assert_eq!(p.created_at, today_plus(0));
    assert_eq!(p.next_review_at, today_plus(3));
    assert!(p.id > 0);
    assert_eq!(parse_day(&p.created_at), Some((p.id / 86_400_000) as i32));
}

#[test]
fn add_problem_refuses_unknown_level() {
    let r = add_problem("x".to_string(), None, vec![], String::new(), "soon");
    assert_eq!(r.unwrap_err(), "Invalid level: soon");
}

#[test]
fn create_then_review_end_to_end() {
    let created = parse_day("2025-11-02").unwrap();
    let p = Problem::created_on(7, created, "p".to_string(), None, vec![], String::new(), Level::GOOD)
        .unwrap();
    assert_eq!(p.created_at, "2025-11-02");
    assert_eq!(p.next_review_at, "2025-11-09");
    let review_day = parse_day("2025-11-09").unwrap();
    let q = p.reviewed_on(Level::EASY, review_day).unwrap();
    assert_eq!(q.next_review_at, "2025-12-09");
    assert_eq!(q.created_at, "2025-11-02");
    assert_eq!(q.id, 7);
}

#[test]
fn text_primitives() {
    assert!(text_less("2025-11-02", "2025-11-03"));
    assert!(!text_less("2025-11-03", "2025-11-03"));
    assert!(text_less("abc", "abcd"));
    assert!(!text_less("b", "abc"));
    assert!(contains_text("dijkstra", "jks"));
    assert!(contains_text("abc", ""));
    assert!(!contains_text("ab", "abc"));
}

#[test]
fn review_on_given_day_restarts_interval() {
    let p = problem(9, "x", &[], "2025-01-01", "2025-03-01");
    let day = parse_day("2025-11-09").unwrap();
    let q = update_review_on(p, "Easy", day).unwrap();
    assert_eq!(q.next_review_at, "2025-12-09");
    assert_eq!(q.created_at, "2025-01-01");
    assert_eq!(q.id, 9);
    assert_eq!(q.level, Level::EASY);
    let p = problem(9, "x", &[], "2025-01-01", "2025-03-01");
    assert_eq!(update_review_on(p, "later", day).unwrap_err(), "Invalid level: later");
}

#[test]
fn search_term_case_does_not_matter() {
    let ps = vec![
        problem(1, "Two Sum", &["array"], "2025-10-01", "2025-11-05"),
        problem(2, "Three Sum", &["Two-Pointers"], "2025-10-01", "2025-11-05"),
        problem(3, "Merge", &[], "2025-10-01", "2025-11-05"),
    ];
    assert_eq!(ids(&filter_problems(ps.clone(), "two SUM")), vec![1]);
    assert_eq!(ids(&filter_problems(ps.clone(), "TWO")), vec![1, 2]);
    assert_eq!(ids(&filter_problems(ps.clone(), "two")), vec![1, 2]);
}
