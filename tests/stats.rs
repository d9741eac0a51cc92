use git_stats::calendar::{commit_date, CalendarDate};
use git_stats::stats::{update_user_stats, StatsError};
use git_stats::users::{get_users, lines_changed, CommitRecord, DiffStat, Ratio, UserInfo};

// 2024-03-01 12:00:00 UTC
const MARCH_1_NOON: i64 = 1_709_294_400;
const DAY: i64 = 86_400;

fn record(name: &str, email: &str, seconds: i64, insertions: u64, deletions: u64) -> CommitRecord {
    CommitRecord {
        name: name.to_string(),
        email: email.to_string(),
        seconds,
        offset_minutes: 0,
        insertions,
        deletions,
    }
}

fn value(r: Ratio) -> f64 {
    r.numerator as f64 / r.denominator as f64
}

#[test]
fn local_date_follows_the_recorded_offset() {
    // 2024-03-01 23:30 UTC is already 2 March two hours east of UTC.
    let late = MARCH_1_NOON + 11 * 3600 + 1800;
    assert_eq!(commit_date(late, 0), Some(CalendarDate { year: 2024, month: 3, day: 1 }));
    assert_eq!(commit_date(late, 120), Some(CalendarDate { year: 2024, month: 3, day: 2 }));
    // 2024-03-01 00:30 UTC is still 29 February five hours west of UTC.
    let early = MARCH_1_NOON - 11 * 3600 - 1800;
    assert_eq!(commit_date(early, -300), Some(CalendarDate { year: 2024, month: 2, day: 29 }));
}

#[test]
fn extreme_but_bounded_times_have_a_date() {
    let bound = 8_000_000_000_000;
    assert!(commit_date(bound, 1439).is_some());
    assert!(commit_date(-bound, -1439).is_some());
    assert!(commit_date(i64::MAX, 0).is_none());
}

#[test]
fn offset_of_a_full_day_has_no_date() {
    assert_eq!(commit_date(MARCH_1_NOON, 1440), None);
    assert_eq!(commit_date(MARCH_1_NOON, -1440), None);
    assert_eq!(commit_date(MARCH_1_NOON, i32::MAX), None);
}

#[test]
fn merge_commit_sums_every_parent() {
    let diffs = vec![
        DiffStat { insertions: 3, deletions: 1 },
        DiffStat { insertions: 2, deletions: 0 },
    ];
    assert_eq!(lines_changed(&diffs), Some(DiffStat { insertions: 5, deletions: 1 }));
}

#[test]
fn root_commit_counts_its_one_diff() {
    let diffs = vec![DiffStat { insertions: 7, deletions: 0 }];
    assert_eq!(lines_changed(&diffs), Some(DiffStat { insertions: 7, deletions: 0 }));
    assert_eq!(lines_changed(&vec![]), Some(DiffStat { insertions: 0, deletions: 0 }));
}

#[test]
fn lines_changed_overflow_is_none() {
    let diffs = vec![
        DiffStat { insertions: u64::MAX, deletions: 0 },
        DiffStat { insertions: 1, deletions: 0 },
    ];
    assert_eq!(lines_changed(&diffs), None);
}

#[test]
fn get_users_deduplicates_by_name_and_email() {
    let commits = vec![
        record("Ann", "ann@example.com", MARCH_1_NOON, 1, 0),
        record("Bob", "bob@example.com", MARCH_1_NOON, 1, 0),
        record("Ann", "ann@example.com", MARCH_1_NOON, 1, 0),
        record("Ann", "ann@work.example", MARCH_1_NOON, 1, 0),
    ];
    let users = get_users(&commits);
    let ids: Vec<(String, String)> =
        users.iter().map(|u| (u.name.clone(), u.email.clone())).collect();
    assert_eq!(
        ids,
        vec![
            ("Ann".to_string(), "ann@example.com".to_string()),
            ("Bob".to_string(), "bob@example.com".to_string()),
            ("Ann".to_string(), "ann@work.example".to_string()),
        ]
    );
    assert!(users.iter().all(|u| u.stats.total_commits == 0));
}

#[test]
fn totals_and_averages_of_one_author() {
    let commits = vec![
        record("Ann", "a@x", MARCH_1_NOON, 10, 2),
        record("Ann", "a@x", MARCH_1_NOON + 60, 4, 4),
        record("Ann", "a@x", MARCH_1_NOON + DAY, 6, 0),
    ];
    let mut users = get_users(&commits);
    assert_eq!(update_user_stats(&mut users, &commits), Ok(()));
    let s = &users[0].stats;
    assert_eq!(s.total_commits, 3);
    assert_eq!(s.total_lines_added, 20);
    assert_eq!(s.total_lines_removed, 6);
    assert_eq!(s.average_commits_per_day, Ratio { numerator: 3, denominator: 2 });
    assert_eq!(value(s.average_commits_per_day), 1.5);
    assert_eq!(value(s.average_lines_added_per_day), 10.0);
    assert_eq!(value(s.average_lines_removed_per_day), 3.0);
    assert_eq!(value(s.average_lines_added_per_month), 20.0);
    assert_eq!(value(s.average_lines_removed_per_year), 6.0);
    assert_eq!(s.line_changes_per_day.get(&1), Some(&20));
    assert_eq!(s.line_changes_per_day.get(&2), Some(&6));
    assert_eq!(s.line_changes_per_month.get(&3), Some(&26));
    assert_eq!(s.line_changes_per_year.get(&2024), Some(&26));
}

#[test]
fn commits_of_unknown_authors_are_skipped() {
    let commits = vec![
        record("Ann", "a@x", MARCH_1_NOON, 1, 1),
        record("Eve", "e@x", MARCH_1_NOON, 9, 9),
        record("Ann", "other@x", MARCH_1_NOON, 9, 9),
    ];
    let mut users = vec![UserInfo::new("Ann".to_string(), "a@x".to_string())];
    assert_eq!(update_user_stats(&mut users, &commits), Ok(()));
    assert_eq!(users[0].stats.total_commits, 1);
    assert_eq!(users[0].stats.total_lines_added, 1);
}

#[test]
fn author_without_commits_has_zero_averages() {
    let commits = vec![record("Ann", "a@x", MARCH_1_NOON, 5, 5)];
    let mut users = vec![
        UserInfo::new("Ann".to_string(), "a@x".to_string()),
        UserInfo::new("Bob".to_string(), "b@x".to_string()),
    ];
    assert_eq!(update_user_stats(&mut users, &commits), Ok(()));
    let s = &users[1].stats;
    assert_eq!(s.total_commits, 0);
    for r in [
        s.average_commits_per_day,
        s.average_commits_per_month,
        s.average_commits_per_year,
        s.average_lines_added_per_day,
        s.average_lines_removed_per_day,
        s.average_lines_added_per_month,
        s.average_lines_removed_per_month,
        s.average_lines_added_per_year,
        s.average_lines_removed_per_year,
    ] {
        assert_eq!(value(r), 0.0);
        assert!(value(r).is_finite());
    }
    assert!(users[1].has_not_stats());
    assert!(!users[0].has_not_stats());
}

#[test]
fn commit_count_does_not_depend_on_order() {
    let forward = vec![
        record("Ann", "a@x", MARCH_1_NOON, 1, 0),
        record("Bob", "b@x", MARCH_1_NOON + DAY, 2, 0),
        record("Ann", "a@x", MARCH_1_NOON + 2 * DAY, 3, 0),
    ];
    let backward = vec![
        record("Ann", "a@x", MARCH_1_NOON + 2 * DAY, 3, 0),
        record("Bob", "b@x", MARCH_1_NOON + DAY, 2, 0),
        record("Ann", "a@x", MARCH_1_NOON, 1, 0),
    ];
    let mut a = vec![UserInfo::new("Ann".to_string(), "a@x".to_string())];
    let mut b = vec![UserInfo::new("Ann".to_string(), "a@x".to_string())];
    assert_eq!(update_user_stats(&mut a, &forward), Ok(()));
    assert_eq!(update_user_stats(&mut b, &backward), Ok(()));
    assert_eq!(a[0].stats.total_commits, 2);
    assert_eq!(b[0].stats.total_commits, 2);
}

#[test]
fn month_and_day_buckets_collapse_across_years() {
    // 2020-03-05 and 2021-03-05, both at noon UTC.
    let commits = vec![
        record("Ann", "a@x", 1_583_409_600, 1, 1),
        record("Ann", "a@x", 1_614_945_600, 3, 0),
    ];
    let mut users = get_users(&commits);
    assert_eq!(update_user_stats(&mut users, &commits), Ok(()));
    let s = &users[0].stats;
    assert_eq!(s.line_changes_per_month.len(), 1);
    assert_eq!(s.line_changes_per_month.get(&3), Some(&5));
    assert_eq!(s.line_changes_per_day.get(&5), Some(&5));
    assert_eq!(s.line_changes_per_year.get(&2020), Some(&2));
    assert_eq!(s.line_changes_per_year.get(&2021), Some(&3));
    assert_eq!(value(s.average_commits_per_month), 2.0);
    assert_eq!(value(s.average_commits_per_year), 1.0);
    assert_eq!(value(s.average_commits_per_day), 1.0);
}

#[test]
fn invalid_commit_time_is_an_error() {
    let mut bad = record("Ann", "a@x", MARCH_1_NOON, 1, 0);
    bad.offset_minutes = 2000;
    let commits = vec![record("Ann", "a@x", MARCH_1_NOON, 1, 0), bad];
    let mut users = get_users(&commits);
    assert_eq!(update_user_stats(&mut users, &commits), Err(StatsError::InvalidCommitTime));
    assert_eq!(users[0].stats.total_commits, 0);
}

#[test]
fn oversized_history_is_an_overflow() {
    let commits = vec![
        record("Ann", "a@x", MARCH_1_NOON, u64::MAX - 10, 0),
        record("Ann", "a@x", MARCH_1_NOON, 20, 0),
    ];
    let mut users = get_users(&commits);
    assert_eq!(update_user_stats(&mut users, &commits), Err(StatsError::Overflow));
    assert_eq!(users[0].stats.total_commits, 0);
}

#[test]
fn empty_repository_has_no_authors() {
    let commits: Vec<CommitRecord> = vec![];
    let mut users = get_users(&commits);
    assert!(users.is_empty());
    assert_eq!(update_user_stats(&mut users, &commits), Ok(()));
    assert!(users.is_empty());
}

#[test]
fn unknown_author_with_invalid_time_is_skipped() {
    let mut stray = record("Eve", "e@x", MARCH_1_NOON, 4, 4);
    stray.offset_minutes = i32::MAX;
    let commits = vec![record("Ann", "a@x", MARCH_1_NOON, 1, 0), stray];
    let mut users = vec![UserInfo::new("Ann".to_string(), "a@x".to_string())];
    assert_eq!(update_user_stats(&mut users, &commits), Ok(()));
    assert_eq!(users[0].stats.total_commits, 1);
    assert_eq!(users[0].stats.total_lines_added, 1);
}

#[test]
fn unknown_author_with_huge_counts_is_skipped() {
    let commits = vec![
        record("Ann", "a@x", MARCH_1_NOON, 2, 0),
        record("Eve", "e@x", MARCH_1_NOON, u64::MAX, u64::MAX),
        record("Eve", "e@x", MARCH_1_NOON, u64::MAX, u64::MAX),
    ];
    let mut users = vec![UserInfo::new("Ann".to_string(), "a@x".to_string())];
    assert_eq!(update_user_stats(&mut users, &commits), Ok(()));
    assert_eq!(users[0].stats.total_lines_added, 2);
}

#[test]
fn stats_do_not_depend_on_order() {
    let walk = |order: &[usize]| {
        let all = [
            record("Ann", "a@x", MARCH_1_NOON, 1, 2),
            record("Ann", "a@x", MARCH_1_NOON + 40 * DAY, 3, 0),
            record("Bob", "b@x", MARCH_1_NOON, 9, 9),
            record("Ann", "a@x", MARCH_1_NOON + 400 * DAY, 5, 1),
        ];
        let commits: Vec<CommitRecord> = order
            .iter()
            .map(|&i| {
                let c = &all[i];
                record(&c.name, &c.email, c.seconds, c.insertions, c.deletions)
            })
            .collect();
        let mut users = vec![UserInfo::new("Ann".to_string(), "a@x".to_string())];
        assert_eq!(update_user_stats(&mut users, &commits), Ok(()));
        users.pop().unwrap().stats
    };
    let a = walk(&[0, 1, 2, 3]);
    let b = walk(&[3, 2, 0, 1]);
    assert_eq!(a.total_commits, 3);
    assert_eq!(a.total_commits, b.total_commits);
    assert_eq!(a.total_lines_added, b.total_lines_added);
    assert_eq!(a.total_lines_removed, b.total_lines_removed);
    assert_eq!(a.average_commits_per_day, b.average_commits_per_day);
    assert_eq!(a.average_commits_per_month, b.average_commits_per_month);
    assert_eq!(a.average_lines_added_per_year, b.average_lines_added_per_year);
    assert_eq!(a.line_changes_per_year, b.line_changes_per_year);
    assert_eq!(a.line_changes_per_month, b.line_changes_per_month);
    assert_eq!(a.line_changes_per_day, b.line_changes_per_day);
}
