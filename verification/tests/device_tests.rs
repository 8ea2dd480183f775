use bloomin8_desktop::device::client::{
    cleanup_targets, device_failure, gallery_path, stamps_playlist_name, upload_filename,
    upload_query, verify_display, wait_ready_step, wake_poll_step, DeviceClient, WaitStep,
};
use bloomin8_desktop::device::error::DeviceError;
use bloomin8_desktop::device::types::{DeviceState, PlayType, ShowRequest, UploadAndShowResult};
use bloomin8_desktop::device::wake::{
    effective_hint, matching_indices, pick_target, sort_by_signal, wake_char_uuid_text, BleMatch,
};

#[test]
fn wake_char_uuid_matches_spec() {
    assert_eq!(wake_char_uuid_text(), "0000f001-0000-1000-8000-00805f9b34fb");
}

#[test]
fn effective_hint_defaults_when_blank() {
    assert_eq!(effective_hint(""), "Bloomin8");
    assert_eq!(effective_hint("   "), "Bloomin8");
    assert_eq!(effective_hint(" Dopiz "), "Dopiz");
}

#[test]
fn pick_target_prefers_exact_name_match_over_stronger_signal() {
    let candidates = vec![
        ("Other Bloomin8".to_string(), -40i16),
        ("Dopiz Bloomin8".to_string(), -70i16),
    ];
    assert_eq!(pick_target(&candidates, Some("Dopiz Bloomin8")), 1);
    assert_eq!(pick_target(&candidates, Some("dopiz bloomin8")), 1);
}

#[test]
fn pick_target_falls_back_to_strongest_rssi() {
    let candidates = vec![
        ("Bloomin8 A".to_string(), -80i16),
        ("Bloomin8 B".to_string(), -35i16),
        ("Bloomin8 C".to_string(), -60i16),
    ];
    assert_eq!(pick_target(&candidates, None), 1);
    assert_eq!(pick_target(&candidates, Some("Not Present")), 1);
}

#[test]
fn pick_target_of_no_candidates_is_zero() {
    assert_eq!(pick_target(&[], Some("x")), 0);
}

#[test]
fn device_state_is_ready_only_at_status_100() {
    assert!(DeviceState { status: 100, msg: String::new() }.is_ready());
    assert!(!DeviceState { status: 0, msg: "idle".to_string() }.is_ready());
}

#[test]
fn play_types_carry_the_protocol_numbers() {
    assert_eq!(PlayType::Image.as_u8(), 0);
    assert_eq!(PlayType::Gallery.as_u8(), 1);
    assert_eq!(PlayType::Playlist.as_u8(), 2);
    let req = ShowRequest::Gallery { gallery: "g".to_string(), duration: 30 };
    assert_eq!(req.play_type(), PlayType::Gallery);
}

#[test]
fn show_request_bodies_are_the_protocol_json() {
    let image = ShowRequest::Image { image: "/gallerys/default/a.jpg".to_string() };
    assert_eq!(image.to_json(), r#"{"play_type":0,"image":"/gallerys/default/a.jpg"}"#);
    let gallery = ShowRequest::Gallery { gallery: "say \"hi\"".to_string(), duration: 30 };
    assert_eq!(gallery.to_json(), r#"{"play_type":1,"gallery":"say \"hi\"","duration":30}"#);
    let playlist = ShowRequest::Playlist { playlist: "morning".to_string() };
    assert_eq!(playlist.to_json(), r#"{"play_type":2,"playlist":"morning"}"#);
}

#[test]
fn client_urls_join_base_and_path() {
    let client = DeviceClient::new("http://127.0.0.1:8080".to_string());
    assert_eq!(client.url("/deviceInfo"), "http://127.0.0.1:8080/deviceInfo");
}

#[test]
fn client_wake_hint_falls_back_to_the_default_name() {
    let client = DeviceClient::new("http://x".to_string());
    assert_eq!(client.wake_hint(), "Bloomin8");
    let client = client.with_ble("  ".to_string(), Some(" ".to_string()));
    assert_eq!(client.wake_hint(), "Bloomin8");
    let client = DeviceClient::new("http://x".to_string()).with_ble("Dopiz".to_string(), None);
    assert_eq!(client.wake_hint(), "Dopiz");
}

#[test]
fn upload_filenames_follow_prefix_and_timestamp() {
    assert_eq!(upload_filename("widget-crypto", "20260707_090000"), "widget-crypto_20260707_090000.jpg");
}

#[test]
fn upload_query_lists_filename_gallery_and_show_now() {
    let q = upload_query("a.jpg", "default", true);
    assert_eq!(
        q,
        vec![
            ("filename".to_string(), "a.jpg".to_string()),
            ("gallery".to_string(), "default".to_string()),
            ("show_now".to_string(), "1".to_string()),
        ]
    );
    assert_eq!(upload_query("a.jpg", "g", false)[2].1, "0");
}

#[test]
fn verify_display_accepts_only_the_uploaded_file() {
    let ok = verify_display(
        "p_1.jpg".to_string(),
        "default",
        Some("/gallerys/default/p_1.jpg".to_string()),
    );
    assert_eq!(
        ok,
        Ok(UploadAndShowResult { filename: "p_1.jpg".to_string(), gallery: "default".to_string() })
    );
    let stale = verify_display(
        "p_2.jpg".to_string(),
        "default",
        Some("/gallerys/default/p_1.jpg".to_string()),
    );
    assert_eq!(
        stale,
        Err(DeviceError::DisplayVerificationFailed {
            expected: "p_2.jpg".to_string(),
            actual: Some("/gallerys/default/p_1.jpg".to_string()),
        })
    );
    assert!(verify_display("p_3.jpg".to_string(), "default", None).is_err());
}

#[test]
fn cleanup_rejects_empty_or_missing_keep() {
    let names = vec!["w_1.jpg".to_string(), "w_2.jpg".to_string()];
    assert_eq!(cleanup_targets("w_", None, &names), Err(DeviceError::CleanupRefused));
    assert_eq!(cleanup_targets("w_", Some(""), &names), Err(DeviceError::CleanupRefused));
    assert_eq!(cleanup_targets("w_", Some("   "), &names), Err(DeviceError::CleanupRefused));
}

#[test]
fn cleanup_selects_prefix_matches_except_keep() {
    let names = vec![
        "w_1.jpg".to_string(),
        "other.jpg".to_string(),
        "w_2.jpg".to_string(),
        "w_3.jpg".to_string(),
    ];
    assert_eq!(
        cleanup_targets("w_", Some("w_2.jpg"), &names),
        Ok(vec!["w_1.jpg".to_string(), "w_3.jpg".to_string()])
    );
}

#[test]
fn device_failure_prefers_the_device_message() {
    let e = device_failure(500, r#"{"status":"fail","msg":"NAME_TOO_LONG"}"#);
    assert_eq!(e, DeviceError::Device("NAME_TOO_LONG".to_string()));
    let e = device_failure(500, r#"{"status":"fail","msg":""}"#);
    assert_eq!(e, DeviceError::Device("device returned HTTP 500".to_string()));
    let e = device_failure(404, "not json");
    assert_eq!(e, DeviceError::Device("device returned HTTP 404".to_string()));
}

#[test]
fn wait_ready_steps_until_ready_or_deadline() {
    let ready = DeviceState { status: 100, msg: "ok".to_string() };
    let busy = DeviceState { status: 1, msg: "busy".to_string() };
    assert_eq!(wait_ready_step(None, Some(ready.clone()), true, 60000), WaitStep::Done(Ok(ready)));
    assert_eq!(
        wait_ready_step(None, Some(busy.clone()), false, 60000),
        WaitStep::Continue(Some(busy.clone()))
    );
    assert_eq!(
        wait_ready_step(Some(busy.clone()), None, false, 60000),
        WaitStep::Continue(Some(busy.clone()))
    );
    assert_eq!(
        wait_ready_step(Some(busy.clone()), None, true, 60000),
        WaitStep::Done(Err(DeviceError::NotReady(60000, Some(busy))))
    );
}

#[test]
fn wake_poll_stops_on_answer_or_budget() {
    assert_eq!(wake_poll_step(true, true, 45000), Some(Ok(())));
    assert_eq!(wake_poll_step(false, true, 45000), Some(Err(DeviceError::WakeTimeout(45000))));
    assert_eq!(wake_poll_step(false, false, 45000), None);
}

#[test]
fn device_error_messages_read_like_the_user_sees_them() {
    assert_eq!(
        DeviceError::WakeTimeout(45000).message(),
        "device did not wake within 45s"
    );
    assert_eq!(
        DeviceError::NotReady(2500, None).message(),
        "device did not reach Ready within 2.5s (last state: None)"
    );
    assert_eq!(
        DeviceError::NotReady(250, Some(DeviceState { status: 3, msg: "busy".to_string() }))
            .message(),
        "device did not reach Ready within 250ms (last state: Some(DeviceState { status: 3, msg: \"busy\" }))"
    );
    assert_eq!(
        DeviceError::DisplayVerificationFailed {
            expected: "a.jpg".to_string(),
            actual: Some("/g/b.jpg".to_string()),
        }
        .message(),
        "display verification failed: expected image ending in 'a.jpg', device reports Some(\"/g/b.jpg\")"
    );
    assert_eq!(
        DeviceError::CleanupRefused.message(),
        "cleanup refused: 'keep' filename is empty (did the preceding upload fail?)"
    );
    assert_eq!(DeviceError::Device("NAME_TOO_LONG".to_string()).message(), "NAME_TOO_LONG");
    assert_eq!(
        DeviceError::Request("boom".to_string()).message(),
        "http request failed: boom"
    );
}

#[test]
fn gallery_paths_and_playlist_name_stamping() {
    assert_eq!(gallery_path("default", "a.jpg"), "/gallerys/default/a.jpg");
    assert!(stamps_playlist_name(true, false));
    assert!(!stamps_playlist_name(true, true));
    assert!(!stamps_playlist_name(false, false));
}

#[test]
fn scan_filter_matches_names_containing_the_hint_ignoring_case() {
    let names = vec![
        "Bloomin8-ABCD".to_string(),
        "Speaker".to_string(),
        "my bloomin8".to_string(),
    ];
    assert_eq!(matching_indices(&names, "BLOOMIN8"), vec![0, 2]);
    assert_eq!(matching_indices(&names, "nothing"), Vec::<usize>::new());
}

#[test]
fn scan_results_are_ordered_strongest_first_and_stably() {
    let m = |name: &str, rssi: i16| BleMatch { name: name.to_string(), rssi };
    let sorted = sort_by_signal(vec![m("a", -80), m("b", -35), m("c", -60), m("d", -35)]);
    let names: Vec<&str> = sorted.iter().map(|x| x.name.as_str()).collect();
    assert_eq!(names, vec!["b", "d", "c", "a"]);
}

#[test]
fn clients_can_take_shorter_timeouts() {
    let client = DeviceClient::new("http://x".to_string()).with_timeouts(100, 200, 300);
    assert_eq!(
        (client.info_timeout_ms, client.state_timeout_ms, client.action_timeout_ms),
        (100, 200, 300)
    );
}

#[test]
fn upload_names_differ_by_timestamp() {
    assert_ne!(upload_filename("photo", "20260707_090000"), upload_filename("photo", "20260707_090001"));
}
