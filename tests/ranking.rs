use git_stats::ranking::rank_users;
use git_stats::stats::update_user_stats;
use git_stats::users::{get_users, CommitRecord, Ratio, UserInfo};

// 2024-03-01 12:00:00 UTC
const MARCH_1_NOON: i64 = 1_709_294_400;
const DAY: i64 = 86_400;

fn user(name: &str, commits: u64, added: u64) -> UserInfo {
    let mut u = UserInfo::new(name.to_string(), format!("{}@x", name));
    u.stats.total_commits = commits;
    u.stats.total_lines_added = added;
    u
}

fn names(users: &[UserInfo]) -> Vec<String> {
    users.iter().map(|u| u.name.clone()).collect()
}

fn value(r: Ratio) -> f64 {
    r.numerator as f64 / r.denominator as f64
}

#[test]
fn ten_commits_are_excluded_and_eleven_retained() {
    let ranked = rank_users(vec![user("ten", 10, 50), user("eleven", 11, 50)]);
    assert_eq!(names(&ranked), vec!["eleven"]);
}

#[test]
fn inactive_authors_are_dropped() {
    let ranked = rank_users(vec![user("idle", 0, 0), user("busy", 12, 0)]);
    assert_eq!(names(&ranked), vec!["busy"]);
}

#[test]
fn ranking_sorts_descending_and_keeps_ties_in_order() {
    let ranked = rank_users(vec![
        user("a", 12, 1),
        user("b", 30, 1),
        user("c", 12, 1),
        user("d", 5, 1),
        user("e", 30, 1),
        user("f", 20, 1),
    ]);
    assert_eq!(names(&ranked), vec!["b", "e", "f", "a", "c"]);
}

#[test]
fn ranking_of_nobody_is_empty() {
    assert!(rank_users(vec![]).is_empty());
}

#[test]
fn two_authors_only_the_active_one_remains() {
    let mut commits: Vec<CommitRecord> = Vec::new();
    for day in 0..3 {
        for k in 0..5 {
            commits.push(CommitRecord {
                name: "X".to_string(),
                email: "x@x".to_string(),
                seconds: MARCH_1_NOON + day * DAY + k * 60,
                offset_minutes: 0,
                insertions: 2,
                deletions: 1,
            });
        }
    }
    for k in 0..5 {
        commits.push(CommitRecord {
            name: "Y".to_string(),
            email: "y@x".to_string(),
            seconds: MARCH_1_NOON + k * 60,
            offset_minutes: 0,
            insertions: 1,
            deletions: 0,
        });
    }
    let mut users = get_users(&commits);
    assert_eq!(users.len(), 2);
    assert_eq!(update_user_stats(&mut users, &commits), Ok(()));
    let ranked = rank_users(users);
    assert_eq!(names(&ranked), vec!["X"]);
    let s = &ranked[0].stats;
    assert_eq!(s.total_commits, 15);
    assert_eq!(value(s.average_commits_per_day), 5.0);
    assert_eq!(value(s.average_commits_per_month), 15.0);
    assert_eq!(value(s.average_commits_per_year), 15.0);
}
