use bloomin8_desktop::datetime::{CivilDate, LocalDateTime};
use bloomin8_desktop::scheduler::{
    attempt_outcome, begin_run, default_true, delete_schedule, enabled_schedules, end_run,
    failure_notification_content, image_push, last_push_record, newest_first, run_result_effect,
    schedule_for_run_now, schedule_name, unresolved_device_entry, upsert_schedule, HistoryEntry,
    RunStatus, RunningSet, Schedule,
};
use bloomin8_desktop::tray::{
    device_status_text, menu_action, refresh_menu_id, refresh_menu_label, tooltip_text,
    DeviceStatus, FailureBadge, MenuAction,
};
use bloomin8_desktop::widgets::config::{
    PanelOrientation, RotateDirection, WidgetConfig, WidgetRenderConfig,
};

fn fixed_now() -> LocalDateTime {
    LocalDateTime { date: CivilDate { year: 2026, month: 7, day: 7 }, hour: 9, minute: 0, second: 0 }
}

fn later() -> LocalDateTime {
    LocalDateTime { date: CivilDate { year: 2026, month: 7, day: 7 }, hour: 9, minute: 1, second: 30 }
}

fn success(i: u32) -> HistoryEntry {
    HistoryEntry {
        schedule_id: "s1".to_string(),
        started_at: fixed_now(),
        finished_at: fixed_now(),
        status: RunStatus::Success,
        error: None,
        filename: Some(format!("run-{i}.jpg")),
    }
}

fn weather_widget() -> WidgetRenderConfig {
    WidgetRenderConfig {
        widget: WidgetConfig::Weather {
            lat: "25.033".into(),
            lon: "121.565".into(),
            city: "Taipei".into(),
            force_icon: None,
        },
        orientation: PanelOrientation::Portrait,
        rotate: RotateDirection::Cw,
    }
}

fn schedule(id: &str, name: &str, enabled: bool) -> Schedule {
    Schedule {
        id: id.to_string(),
        name: name.to_string(),
        device_id: String::new(),
        widget: weather_widget(),
        cron: "0 */30 * * * *".to_string(),
        enabled,
    }
}

#[test]
fn failure_notification_content_includes_schedule_name_and_error() {
    let entry = HistoryEntry {
        schedule_id: "s1".to_string(),
        started_at: fixed_now(),
        finished_at: fixed_now(),
        status: RunStatus::Failed,
        error: Some("attempt 1 failed: timeout; retry failed: timeout".to_string()),
        filename: None,
    };

    let (title, body) = failure_notification_content("Weather every 30m", &entry);

    assert!(title.contains("Weather every 30m"), "title was {title:?}");
    assert!(title.to_lowercase().contains("failed"), "title was {title:?}");
    assert!(body.contains("timeout"), "body was {body:?}");
}

#[test]
fn failure_notification_content_falls_back_when_error_missing() {
    let entry = HistoryEntry {
        schedule_id: "s1".to_string(),
        started_at: fixed_now(),
        finished_at: fixed_now(),
        status: RunStatus::Failed,
        error: None,
        filename: None,
    };

    let (_, body) = failure_notification_content("Crypto hourly", &entry);

    assert!(!body.is_empty());
}

#[test]
fn history_appends_and_reads_back_newest_first() {
    let appended: Vec<HistoryEntry> = (0..3u32).map(success).collect();
    let history = newest_first(appended, 10);
    assert_eq!(history.len(), 3);
    assert_eq!(history[0].filename.as_deref(), Some("run-2.jpg"));
    assert_eq!(history[2].filename.as_deref(), Some("run-0.jpg"));
}

#[test]
fn history_read_respects_limit() {
    let appended: Vec<HistoryEntry> = (0..5u32).map(success).collect();
    let history = newest_first(appended, 2);
    assert_eq!(history.len(), 2);
    assert_eq!(history[0].filename.as_deref(), Some("run-4.jpg"));
}

#[test]
fn enabled_is_the_default() {
    assert!(default_true());
}

#[test]
fn a_run_of_an_idle_schedule_goes_ahead_and_ends() {
    let mut running = RunningSet::new();
    assert!(begin_run(&mut running, "s1", fixed_now()).is_none());
    assert!(running.contains("s1"));
    assert!(!running.contains("s2"));
    end_run(&mut running, "s1");
    assert!(!running.contains("s1"));
}

#[test]
fn a_run_while_one_is_in_flight_is_skipped() {
    let mut running = RunningSet::new();
    assert!(begin_run(&mut running, "s1", fixed_now()).is_none());
    let skipped = begin_run(&mut running, "s1", later()).expect("overlap is skipped");
    assert_eq!(skipped.status, RunStatus::Skipped);
    assert_eq!(skipped.started_at, later());
    assert_eq!(skipped.finished_at, later());
    assert_eq!(
        skipped.error.as_deref(),
        Some("a previous run of this schedule is still in flight")
    );
    assert!(skipped.filename.is_none());
    assert!(running.contains("s1"));
}

#[test]
fn first_success_is_recorded() {
    let e = attempt_outcome("s1", fixed_now(), later(), None, Ok("w_1.jpg".to_string()))
        .expect("a success is final");
    assert_eq!(e.status, RunStatus::Success);
    assert_eq!(e.filename.as_deref(), Some("w_1.jpg"));
    assert_eq!(e.error, None);
    assert_eq!(e.finished_at, later());
}

#[test]
fn first_failure_asks_for_a_retry() {
    assert!(attempt_outcome("s1", fixed_now(), later(), None, Err("timeout".to_string())).is_none());
}

#[test]
fn retry_success_is_recorded_as_success() {
    let e = attempt_outcome(
        "s1",
        fixed_now(),
        later(),
        Some("timeout".to_string()),
        Ok("w_2.jpg".to_string()),
    )
    .unwrap();
    assert_eq!(e.status, RunStatus::Success);
    assert_eq!(e.filename.as_deref(), Some("w_2.jpg"));
}

#[test]
fn two_failures_are_recorded_with_both_errors() {
    let e = attempt_outcome(
        "s1",
        fixed_now(),
        later(),
        Some("timeout".to_string()),
        Err("refused".to_string()),
    )
    .unwrap();
    assert_eq!(e.status, RunStatus::Failed);
    assert_eq!(e.error.as_deref(), Some("attempt 1 failed: timeout; retry failed: refused"));
    assert!(e.filename.is_none());
}

#[test]
fn unresolved_device_is_a_skip() {
    let e = unresolved_device_entry("s1", fixed_now(), "device no longer configured");
    assert_eq!(e.status, RunStatus::Skipped);
    assert_eq!(e.error.as_deref(), Some("run skipped: device no longer configured"));
}

#[test]
fn run_results_drive_badge_and_notification() {
    let f = run_result_effect(RunStatus::Failed);
    assert_eq!((f.badge, f.notify), (Some(true), true));
    let s = run_result_effect(RunStatus::Success);
    assert_eq!((s.badge, s.notify), (Some(false), false));
    let k = run_result_effect(RunStatus::Skipped);
    assert_eq!((k.badge, k.notify), (None, false));
}

#[test]
fn saving_replaces_by_id_or_appends() {
    let mut list = vec![schedule("a", "A", true), schedule("b", "B", true)];
    upsert_schedule(&mut list, schedule("b", "B2", false));
    assert_eq!(list.len(), 2);
    assert_eq!(list[1].name, "B2");
    assert!(!list[1].enabled);
    upsert_schedule(&mut list, schedule("c", "C", true));
    assert_eq!(list.len(), 3);
    assert_eq!(list[2].id, "c");
}

#[test]
fn deleting_removes_every_schedule_of_the_id() {
    let mut list = vec![schedule("a", "A", true), schedule("b", "B", true), schedule("a", "A2", true)];
    delete_schedule(&mut list, "a");
    assert_eq!(list.len(), 1);
    assert_eq!(list[0].id, "b");
    delete_schedule(&mut list, "zzz");
    assert_eq!(list.len(), 1);
}

#[test]
fn only_enabled_schedules_get_jobs() {
    let list = vec![schedule("a", "A", true), schedule("b", "B", false), schedule("c", "C", true)];
    let ids: Vec<String> = enabled_schedules(list).into_iter().map(|s| s.id).collect();
    assert_eq!(ids, vec!["a".to_string(), "c".to_string()]);
}

#[test]
fn schedule_names_fall_back_to_the_id() {
    let list = vec![schedule("a", "Weather every 30m", true)];
    assert_eq!(schedule_name(&list, "a"), "Weather every 30m");
    assert_eq!(schedule_name(&list, "gone"), "gone");
}

#[test]
fn run_now_of_an_unknown_schedule_is_an_error() {
    let list = vec![schedule("a", "A", true)];
    assert_eq!(schedule_for_run_now(&list, "a").unwrap().name, "A");
    assert_eq!(schedule_for_run_now(&list, "x").unwrap_err(), "no schedule with id \"x\"");
}

#[test]
fn image_schedules_push_their_library_image() {
    let req = WidgetRenderConfig {
        widget: WidgetConfig::Image {
            library_id: "lib-1".into(),
            mode: "fill".into(),
            border: "black".into(),
        },
        orientation: PanelOrientation::Landscape,
        rotate: RotateDirection::Ccw,
    };
    let push = image_push(&req).expect("an image schedule");
    assert_eq!(push.library_id, "lib-1");
    assert_eq!(push.mode, "fill");
    assert!(push.settings.landscape);
    assert!(push.settings.rotate_cw);
    assert!(!push.settings.border_white);
    assert!(image_push(&weather_widget()).is_none());
}

#[test]
fn only_successful_runs_are_remembered_as_last_push() {
    let ok = success(1);
    let (id, push) =
        last_push_record(&ok, Some("dev-1".to_string()), PanelOrientation::Landscape).unwrap();
    assert_eq!(id, "dev-1");
    assert_eq!(push.filename, "run-1.jpg");
    assert_eq!(push.orientation, "landscape");
    assert!(last_push_record(&ok, None, PanelOrientation::Portrait).is_none());
    let mut failed = success(2);
    failed.status = RunStatus::Failed;
    assert!(last_push_record(&failed, Some("dev-1".to_string()), PanelOrientation::Portrait).is_none());
}

#[test]
fn tray_texts_and_menu_ids() {
    assert_eq!(device_status_text(Some(87)), "Online \u{b7} 87%");
    assert_eq!(device_status_text(None), "Online");
    assert_eq!(tooltip_text("", false), "Bloomin8 \u{2014} Status unknown");
    assert_eq!(tooltip_text("Online", true), "Bloomin8 \u{2014} \u{26A0} Online");
    assert_eq!(refresh_menu_id("s1"), "refresh:s1");
    assert_eq!(refresh_menu_label("Weather"), "Refresh Weather now");
    assert_eq!(menu_action("quit"), MenuAction::Quit);
    assert_eq!(menu_action("open-app"), MenuAction::OpenApp);
    assert_eq!(menu_action(&refresh_menu_id("s1")), MenuAction::Refresh("s1".to_string()));
    assert_eq!(menu_action("something"), MenuAction::Ignore);
}

#[test]
fn badge_and_status_remember_the_last_value() {
    let mut badge = FailureBadge::default();
    assert!(!badge.get());
    badge.set(true);
    assert!(badge.get());
    let mut status = DeviceStatus::default();
    assert_eq!(status.get(), "");
    status.set("Online".to_string());
    assert_eq!(status.get(), "Online");
}
