use capture_scheduler::config::{add_schedule_time, parse_schedule_time, remove_schedule_time, Config, ScheduleTime};
use capture_scheduler::controller::{may_poll, controller_step, AppEvent, AppMessage, AppState};
use capture_scheduler::geometry::{to_physical, Rect};
use capture_scheduler::schedule::{poll_schedule, ClockTime, TriggerState};
use capture_scheduler::selector::{
    apply_selection, bounding_box, selector_step, Pos, SelectorEvent, SelectorState, SelectorStep,
    Selection,
};

fn chars(s: &str) -> Vec<char> {
    s.chars().collect()
}

fn rect(x: i32, y: i32, w: u32, h: u32, scale_milli: u32) -> Rect {
    Rect { x, y, width: w, height: h, scale_milli }
}

fn at(hour: u32, minute: u32, second: u32, epoch_seconds: i64) -> ClockTime {
    ClockTime { year: 2024, month: 1, day: 2, hour, minute, second, epoch_seconds }
}

#[test]
fn physical_conversion_is_rounded_componentwise() {
    let p = to_physical(&rect(10, 10, 200, 150, 1000));
    assert_eq!((p.x, p.y, p.width, p.height), (10, 10, 200, 150));

    // 10 * 1.5 = 15, 5 * 1.5 = 7.5 rounds away from zero to 8
    let p = to_physical(&rect(10, 5, 3, 1, 1500));
    assert_eq!((p.x, p.y, p.width, p.height), (15, 8, 5, 2));

    // negative coordinates round half away from zero: -3 * 1.5 = -4.5 -> -5
    let p = to_physical(&rect(-3, -2, 0, 0, 1500));
    assert_eq!((p.x, p.y, p.width, p.height), (-5, -3, 0, 0));
}

#[test]
fn unit_scale_conversion_is_idempotent_other_scales_not() {
    let once = to_physical(&rect(10, 20, 30, 40, 1000));
    let again = to_physical(&rect(
        once.x as i32,
        once.y as i32,
        once.width as u32,
        once.height as u32,
        1000,
    ));
    assert_eq!((once.x, once.y, once.width, once.height), (10, 20, 30, 40));
    assert_eq!((again.x, again.y, again.width, again.height), (10, 20, 30, 40));

    // a non-unit scale is not idempotent on this input
    let once = to_physical(&rect(10, 0, 0, 0, 2000));
    assert_eq!(once.x, 20);
    let again = to_physical(&rect(once.x as i32, 0, 0, 0, 2000));
    assert_eq!(again.x, 40);
}

#[test]
fn trigger_fires_first_match_once_per_poll() {
    let schedules = vec![
        ScheduleTime { hour: 8, minute: 0, second: 0 },
        ScheduleTime { hour: 9, minute: 0, second: 0 },
        ScheduleTime { hour: 9, minute: 0, second: 0 },
    ];
    let mut st = TriggerState::new();
    let fired = poll_schedule(&mut st, &at(9, 0, 0, 100), &schedules);
    assert_eq!(fired, Some(1)); // first matching entry in stored order
    assert_eq!(st.last_fired, Some(100));
}

#[test]
fn trigger_cooldown_blocks_same_instant() {
    let schedules = vec![ScheduleTime { hour: 9, minute: 0, second: 0 }];
    let mut st = TriggerState::new();
    assert_eq!(poll_schedule(&mut st, &at(9, 0, 0, 100), &schedules), Some(0));
    // a second poll within the same wall-clock second fires nothing
    assert_eq!(poll_schedule(&mut st, &at(9, 0, 0, 100), &schedules), None);
    // a poll at a strictly later instant may fire again
    assert_eq!(poll_schedule(&mut st, &at(9, 0, 0, 101), &schedules), Some(0));
}

#[test]
fn trigger_no_match_no_fire() {
    let schedules = vec![ScheduleTime { hour: 9, minute: 0, second: 0 }];
    let mut st = TriggerState::new();
    assert_eq!(poll_schedule(&mut st, &at(9, 0, 1, 100), &schedules), None);
    assert_eq!(st.last_fired, None);
}

#[test]
fn selector_drag_yields_normalized_bounding_box() {
    // dragging bottom-right to top-left yields the same rectangle
    let a = Pos { x: 50, y: 70 };
    let b = Pos { x: 10, y: 20 };
    assert_eq!(bounding_box(a, b), bounding_box(b, a));
    assert_eq!(
        bounding_box(a, b),
        Selection { x: 10, y: 20, width: 40, height: 50 }
    );

    let mut st = SelectorState::Idle;
    assert_eq!(selector_step(&mut st, SelectorEvent::PointerDown(a)), SelectorStep::Pending);
    // a second press while dragging is a no-op: the start stays sticky
    assert_eq!(
        selector_step(&mut st, SelectorEvent::PointerDown(Pos { x: 0, y: 0 })),
        SelectorStep::Pending
    );
    let done = selector_step(&mut st, SelectorEvent::PointerUp(b));
    assert_eq!(done, SelectorStep::Selected(Selection { x: 10, y: 20, width: 40, height: 50 }));
    assert_eq!(st, SelectorState::Idle);
}

#[test]
fn selector_zero_area_selection_is_valid() {
    let p = Pos { x: 5, y: 5 };
    let mut st = SelectorState::Idle;
    selector_step(&mut st, SelectorEvent::PointerDown(p));
    let done = selector_step(&mut st, SelectorEvent::PointerUp(p));
    assert_eq!(done, SelectorStep::Selected(Selection { x: 5, y: 5, width: 0, height: 0 }));
}

#[test]
fn cancel_before_release_leaves_capture_area_unchanged() {
    let mut st = SelectorState::Idle;
    selector_step(&mut st, SelectorEvent::PointerDown(Pos { x: 1, y: 2 }));
    let done = selector_step(&mut st, SelectorEvent::Abort);
    assert_eq!(done, SelectorStep::Cancelled);

    let prior = Some(rect(7, 8, 9, 10, 1000));
    let mut config = Config::default();
    config.capture_area = prior;
    apply_selection(&mut config, &done, 1000);
    assert_eq!(config.capture_area, prior);
}

#[test]
fn finished_selection_replaces_capture_area() {
    let mut config = Config::default();
    config.capture_area = Some(rect(7, 8, 9, 10, 1000));
    let step = SelectorStep::Selected(Selection { x: 1, y: 2, width: 3, height: 4 });
    apply_selection(&mut config, &step, 1250);
    assert_eq!(config.capture_area, Some(rect(1, 2, 3, 4, 1250)));
}

#[test]
fn parse_schedule_time_accepts_three_fields_in_range() {
    assert_eq!(
        parse_schedule_time(&chars("09:00:00")),
        Some(ScheduleTime { hour: 9, minute: 0, second: 0 })
    );
    assert_eq!(
        parse_schedule_time(&chars("23:59:59")),
        Some(ScheduleTime { hour: 23, minute: 59, second: 59 })
    );
    assert_eq!(
        parse_schedule_time(&chars("9:5:7")),
        Some(ScheduleTime { hour: 9, minute: 5, second: 7 })
    );
}

#[test]
fn parse_schedule_time_rejects_malformed_input() {
    assert_eq!(parse_schedule_time(&chars("")), None);
    assert_eq!(parse_schedule_time(&chars("09:00")), None);
    assert_eq!(parse_schedule_time(&chars("09:00:00:01")), None);
    assert_eq!(parse_schedule_time(&chars("24:00:00")), None);
    assert_eq!(parse_schedule_time(&chars("09:60:00")), None);
    assert_eq!(parse_schedule_time(&chars("09:00:60")), None);
    assert_eq!(parse_schedule_time(&chars("aa:bb:cc")), None);
    assert_eq!(parse_schedule_time(&chars("09::00")), None);
    assert_eq!(parse_schedule_time(&chars("HH:MM:SS")), None);
}

#[test]
fn default_config_uses_a_captures_folder() {
    let c = Config::default();
    assert!(c.capture_area.is_none());
    assert!(c.schedule_times.is_empty());
    assert!(c.base_filename.is_none());
    let dir: String = c.save_directory.iter().collect();
    assert!(dir.ends_with("Captures"));
    // the part before the folder name is empty or ends with a separator
    let prefix = &dir[..dir.len() - "Captures".len()];
    assert!(prefix.is_empty() || prefix.ends_with('/'));
}

#[test]
fn controller_gates_polling_to_hidden() {
    assert!(may_poll(&AppState::Hidden));
    assert!(!may_poll(&AppState::Settings));
    assert!(!may_poll(&AppState::WaitingForCapture));
    assert!(!may_poll(&AppState::Selecting));
}

#[test]
fn controller_transitions() {
    let mut st = AppState::Hidden;
    controller_step(&mut st, &AppEvent::Message(AppMessage::OpenSettings));
    assert_eq!(st, AppState::Settings);
    controller_step(&mut st, &AppEvent::RegionPickRequested);
    assert_eq!(st, AppState::WaitingForCapture);
    // a second pick request while a snapshot is pending is ignored
    controller_step(&mut st, &AppEvent::RegionPickRequested);
    assert_eq!(st, AppState::WaitingForCapture);
    controller_step(&mut st, &AppEvent::SnapshotReady(true));
    assert_eq!(st, AppState::Selecting);
    controller_step(&mut st, &AppEvent::SelectionFinished);
    assert_eq!(st, AppState::Settings);
    controller_step(&mut st, &AppEvent::SaveAndHide);
    assert_eq!(st, AppState::Hidden);

    // a snapshot that fails to load falls back to the settings form
    let mut st = AppState::WaitingForCapture;
    controller_step(&mut st, &AppEvent::SnapshotReady(false));
    assert_eq!(st, AppState::Settings);
}

#[test]
fn schedule_list_editing_keeps_order() {
    let mut config = Config::default();
    let a = ScheduleTime { hour: 1, minute: 2, second: 3 };
    let b = ScheduleTime { hour: 4, minute: 5, second: 6 };
    let c = ScheduleTime { hour: 7, minute: 8, second: 9 };
    add_schedule_time(&mut config, a);
    add_schedule_time(&mut config, b);
    add_schedule_time(&mut config, c);
    assert_eq!(config.schedule_times, vec![a, b, c]);
    remove_schedule_time(&mut config, 1);
    assert_eq!(config.schedule_times, vec![a, c]);
}
