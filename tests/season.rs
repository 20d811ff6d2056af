use level_tracker::tracker::{Model, Msg};
use level_tracker::window::{time_progress_basis_points, ProgressWindow};

const DAY_MS: i64 = 86_400_000;
// 2020-10-13T00:00:00Z and 2021-01-11T00:00:00Z
const ACT_START_MS: i64 = 1_602_547_200_000;
const ACT_END_MS: i64 = 1_610_323_200_000;

fn act_window() -> ProgressWindow {
    ProgressWindow::new(ACT_START_MS, ACT_END_MS, "ends 2021-01-11".to_string())
}

#[test]
fn act_window_spans_ninety_days() {
    assert_eq!(ACT_END_MS - ACT_START_MS, 90 * DAY_MS);
    let w = act_window();
    assert_eq!(w.start_ms(), ACT_START_MS);
    assert_eq!(w.end_ms(), ACT_END_MS);
    assert_eq!(w.label(), "ends 2021-01-11");
}

#[test]
fn twenty_five_days_into_the_act() {
    // 2020-11-07T00:00:00Z: 25 of 90 days, 27.77...%
    let now = ACT_START_MS + 25 * DAY_MS;
    assert_eq!(now, 1_604_707_200_000);
    assert_eq!(time_progress_basis_points(ACT_START_MS, ACT_END_MS, now), 2777);
    assert_eq!(act_window().progress_at(now), 2777);
}

#[test]
fn progress_at_start_and_end() {
    assert_eq!(time_progress_basis_points(ACT_START_MS, ACT_END_MS, ACT_START_MS), 0);
    assert_eq!(time_progress_basis_points(ACT_START_MS, ACT_END_MS, ACT_END_MS), 10000);
}

#[test]
fn progress_is_not_clamped() {
    let before = ACT_START_MS - 45 * DAY_MS;
    assert_eq!(time_progress_basis_points(ACT_START_MS, ACT_END_MS, before), -5000);
    let after = ACT_END_MS + 90 * DAY_MS;
    assert_eq!(time_progress_basis_points(ACT_START_MS, ACT_END_MS, after), 20000);
}

#[test]
fn negative_progress_rounds_down() {
    assert_eq!(time_progress_basis_points(0, 3, -1), -3334);
    assert_eq!(time_progress_basis_points(0, 3, 1), 3333);
    assert_eq!(time_progress_basis_points(0, 3, -3), -10000);
}

#[test]
fn progress_at_extreme_instants() {
    assert_eq!(time_progress_basis_points(i64::MIN, i64::MAX, i64::MAX), 10000);
    assert_eq!(time_progress_basis_points(i64::MIN, i64::MAX, i64::MIN), 0);
    assert_eq!(
        time_progress_basis_points(-1, 0, i64::MAX),
        (i64::MAX as i128 + 1) * 10000
    );
}

#[test]
fn tracker_starts_at_level_fifteen() {
    let m = Model::create(act_window());
    assert_eq!(m.level, "15");
    assert_eq!(m.level(), 15);
}

#[test]
fn update_replaces_the_level_text() {
    let mut m = Model::create(act_window());
    assert!(m.update(Msg::Update("20".to_string())));
    assert_eq!(m.level, "20");
    assert_eq!(m.level(), 20);
    assert!(m.update(Msg::Update("abc".to_string())));
    assert_eq!(m.level(), 0);
    assert_eq!(m.window.start_ms(), ACT_START_MS);
}

#[test]
fn view_of_default_tracker() {
    let m = Model::create(act_window());
    let now = ACT_START_MS + 25 * DAY_MS;
    let v = m.view(now);
    assert_eq!(v.level, 15);
    assert_eq!(v.level_xp, 17000);
    assert_eq!(v.cumulative_xp, 147000);
    assert_eq!(v.total_xp, 1372000);
    assert_eq!(v.xp_percent, 1071);
    assert_eq!(v.time_percent, 2777);
    assert_eq!(v.elapsed_ms, 25 * DAY_MS as i128);
    assert_eq!(v.span_ms, 90 * DAY_MS as i128);
}

#[test]
fn view_of_unparseable_level() {
    let mut m = Model::create(act_window());
    m.update(Msg::Update("99".to_string()));
    let v = m.view(ACT_END_MS);
    assert_eq!(v.level, 0);
    assert_eq!(v.level_xp, 0);
    assert_eq!(v.cumulative_xp, 0);
    assert_eq!(v.xp_percent, 0);
    assert_eq!(v.time_percent, 10000);
}

#[test]
fn rerender_repeats_xp_and_follows_the_clock() {
    let m = Model::create(act_window());
    let first = m.view(ACT_START_MS + 25 * DAY_MS);
    let second = m.view(ACT_START_MS + 26 * DAY_MS);
    assert_eq!(first.level, second.level);
    assert_eq!(first.cumulative_xp, second.cumulative_xp);
    assert_eq!(first.xp_percent, second.xp_percent);
    assert_ne!(first.time_percent, second.time_percent);
    assert!(first.time_percent < second.time_percent);
    let again = m.view(ACT_START_MS + 25 * DAY_MS);
    assert_eq!(first.time_percent, again.time_percent);
    assert_eq!(first.xp_percent, again.xp_percent);
}
