use git_stats::app::{App as View, Mode};
use git_stats::options::{Args, Options};
use git_stats::tui::app::App;
use git_stats::tui::event::{Event, InputPump, Key, DEBOUNCE_MS};
use git_stats::tui::ui::{contribution_percentage, render_percentage_bar, total_project_commits};
use git_stats::users::UserInfo;

fn authors(n: usize) -> Vec<UserInfo> {
    (0..n).map(|i| UserInfo::new(format!("u{}", i), format!("u{}@x", i))).collect()
}

#[test]
fn next_len_times_returns_to_start() {
    let mut app = App::new(authors(5));
    app.next();
    app.next();
    assert_eq!(app.selected_user_index, Some(2));
    for _ in 0..5 {
        app.next();
    }
    assert_eq!(app.selected_user_index, Some(2));
}

#[test]
fn previous_from_first_wraps_to_last() {
    let mut app = App::new(authors(5));
    assert_eq!(app.selected_user_index, Some(0));
    app.previous();
    assert_eq!(app.selected_user_index, Some(4));
    app.next();
    assert_eq!(app.selected_user_index, Some(0));
}

#[test]
fn empty_dashboard_has_no_selection_and_navigation_is_harmless() {
    let mut app = App::new(vec![]);
    assert_eq!(app.selected_user_index, None);
    app.next();
    app.previous();
    app.toggle_focus();
    app.on_tick();
    assert_eq!(app.selected_user_index, None);
    assert!(app.selected_user().is_none());
    assert_eq!(total_project_commits(&app.users), Some(0));
    assert_eq!(contribution_percentage(0, 0), 0);
}

#[test]
fn keys_drive_the_dashboard() {
    let mut app = App::new(authors(3));
    assert!(app.focus_users);
    app.apply(Event::Input(Key::Down));
    assert_eq!(app.selected_user_index, Some(1));
    assert_eq!(app.selected_user().map(|u| u.name.clone()), Some("u1".to_string()));
    app.apply(Event::Input(Key::Up));
    app.apply(Event::Input(Key::Up));
    assert_eq!(app.selected_user_index, Some(2));
    app.apply(Event::Input(Key::Tab));
    assert!(!app.focus_users);
    assert_eq!(app.selected_user_index, Some(2));
    app.apply(Event::Tick);
    app.apply(Event::Input(Key::Char('x')));
    assert!(!app.should_quit);
    assert_eq!(app.selected_user_index, Some(2));
    app.apply(Event::Input(Key::Esc));
    assert!(app.should_quit);
    let mut other = App::new(authors(2));
    other.handle_key(Key::Char('q'));
    assert!(!other.should_quit);
    assert_eq!(other.selected_user_index, Some(0));
    assert!(other.focus_users);
    let mut third = App::new(authors(1));
    third.quit();
    assert!(third.should_quit);
}

#[test]
fn repeated_key_is_debounced() {
    let mut pump = InputPump::new(250, 1000);
    assert!(pump.accept_key(Key::Down, 1010));
    assert!(!pump.accept_key(Key::Down, 1010 + DEBOUNCE_MS));
    assert!(pump.accept_key(Key::Up, 1020));
    assert!(pump.accept_key(Key::Down, 1030));
    assert!(pump.accept_key(Key::Down, 1030 + DEBOUNCE_MS + 1));
}

#[test]
fn ticks_come_at_the_tick_rate() {
    let mut pump = InputPump::new(250, 1000);
    assert_eq!(pump.poll_timeout(1000), 250);
    assert_eq!(pump.poll_timeout(1100), 150);
    assert!(!pump.tick_due(1100));
    assert_eq!(pump.poll_timeout(1300), 0);
    assert!(pump.tick_due(1300));
    assert_eq!(pump.last_tick_ms, 1300);
    assert_eq!(pump.poll_timeout(1300), 250);
}

#[test]
fn percentage_bar_draws_filled_and_empty_cells() {
    assert_eq!(render_percentage_bar(0), format!("[{}] 0%", "░".repeat(20)));
    assert_eq!(
        render_percentage_bar(35),
        format!("[{}{}] 35%", "█".repeat(7), "░".repeat(13))
    );
    assert_eq!(render_percentage_bar(100), format!("[{}] 100%", "█".repeat(20)));
}

#[test]
fn contribution_percentage_rounds_down() {
    assert_eq!(contribution_percentage(1, 3), 33);
    assert_eq!(contribution_percentage(29, 100), 29);
    assert_eq!(contribution_percentage(7, 7), 100);
    let mut users = authors(2);
    users[0].stats.total_commits = 30;
    users[1].stats.total_commits = 12;
    assert_eq!(total_project_commits(&users), Some(42));
    users[1].stats.total_commits = u64::MAX;
    assert_eq!(total_project_commits(&users), None);
}

#[test]
fn view_runs_until_escape() {
    let mut view = View::new();
    assert!(view.is_running());
    view.handle_key_press(Key::Char('q'));
    assert!(view.is_running());
    view.handle_key_press(Key::Esc);
    assert_eq!(view.mode, Mode::Quit);
    assert!(!view.is_running());
}

#[test]
fn options_default_to_current_directory_and_head() {
    let o = Options::default();
    assert_eq!((o.path.as_str(), o.branch.as_str(), o.tui), (".", "HEAD", false));
    let a = Args::default();
    assert_eq!((a.repo.as_str(), a.branch.as_str(), a.tui), (".", "HEAD", false));
}
