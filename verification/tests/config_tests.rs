use bloomin8_desktop::commands::{
    active_client, active_device_id, client_for_device, image_cache_bucket,
    resolved_schedule_device_id,
};
use bloomin8_desktop::config::{AppConfig, DeviceEntry};
use bloomin8_desktop::last_push::{last_push, LastPush, LastPushStore};
use bloomin8_desktop::launch::{holds_exit, launch_mode, parse_port_arg, parse_u16, LaunchMode};

fn sample_config() -> AppConfig {
    AppConfig {
        devices: vec![DeviceEntry {
            id: "dev-1".to_string(),
            name: "Living Room".to_string(),
            lan_ip: "192.168.1.42".to_string(),
            ble_name: "Bloomin8-ABCD".to_string(),
        }],
        active_device_id: Some("dev-1".to_string()),
    }
}

fn two_device_config() -> AppConfig {
    AppConfig {
        devices: vec![
            DeviceEntry {
                id: "dev-1".to_string(),
                name: "Living Room".to_string(),
                lan_ip: "192.168.1.42".to_string(),
                ble_name: "Bloomin8-AAAA".to_string(),
            },
            DeviceEntry {
                id: "dev-2".to_string(),
                name: "Bedroom".to_string(),
                lan_ip: "192.168.1.99".to_string(),
                ble_name: "Bloomin8-BBBB".to_string(),
            },
        ],
        active_device_id: Some("dev-1".to_string()),
    }
}

#[test]
fn active_device_falls_back_to_first_when_id_unset() {
    let mut config = sample_config();
    config.active_device_id = None;

    assert_eq!(config.active_device(), config.devices.first());
}

#[test]
fn active_device_falls_back_to_first_when_id_unknown() {
    let mut config = sample_config();
    config.active_device_id = Some("does-not-exist".to_string());

    assert_eq!(config.active_device(), config.devices.first());
}

#[test]
fn device_for_schedule_resolves_its_own_device_not_the_active_one() {
    let config = two_device_config();
    let dev2 = config.device_for_schedule("dev-2").expect("dev-2 resolves");
    assert_eq!(dev2.id, "dev-2");
    assert_eq!(dev2.lan_ip, "192.168.1.99");
    assert_ne!(dev2.lan_ip, config.active_device().unwrap().lan_ip);
}

#[test]
fn device_for_schedule_empty_id_falls_back_to_active() {
    let config = two_device_config();
    assert_eq!(config.device_for_schedule(""), config.active_device());
}

#[test]
fn device_for_schedule_unknown_id_yields_none() {
    let config = two_device_config();
    assert_eq!(config.device_for_schedule("deleted-device"), None);
}

#[test]
fn active_device_prefers_the_named_device() {
    let mut config = two_device_config();
    config.active_device_id = Some("dev-2".to_string());
    assert_eq!(config.active_device().unwrap().id, "dev-2");
}

#[test]
fn active_device_is_none_without_devices() {
    let config = AppConfig::default();
    assert_eq!(config.active_device(), None);
    assert_eq!(config.device_for_schedule(""), None);
    assert_eq!(config.device_for_schedule("dev-1"), None);
}

#[test]
fn blank_schedule_device_id_is_treated_like_empty() {
    let config = two_device_config();
    assert_eq!(config.device_for_schedule("   "), config.active_device());
}

#[test]
fn active_client_uses_the_active_device_address() {
    let config = two_device_config();
    let client = active_client(&config).expect("a device is configured");
    assert_eq!(client.url("/deviceInfo"), "http://192.168.1.42/deviceInfo");
}

#[test]
fn active_client_without_devices_is_an_error() {
    assert!(active_client(&AppConfig::default()).is_err());
}

#[test]
fn client_for_device_reaches_the_bound_device() {
    let config = two_device_config();
    let client = client_for_device(&config, "dev-2").expect("dev-2 resolves");
    assert_eq!(client.url("/state"), "http://192.168.1.99/state");
    assert_eq!(
        client_for_device(&config, "gone").unwrap_err(),
        "device no longer configured"
    );
}

#[test]
fn device_ids_resolve_for_commands_and_schedules() {
    let config = two_device_config();
    assert_eq!(active_device_id(&config), Some("dev-1".to_string()));
    assert_eq!(resolved_schedule_device_id(&config, ""), Some("dev-1".to_string()));
    assert_eq!(resolved_schedule_device_id(&config, "dev-2"), Some("dev-2".to_string()));
    assert_eq!(resolved_schedule_device_id(&config, "gone"), None);
}

#[test]
fn image_cache_bucket_is_the_safe_active_id_or_default() {
    assert_eq!(image_cache_bucket(&two_device_config()), "dev-1");
    assert_eq!(image_cache_bucket(&AppConfig::default()), "default");
    let mut config = sample_config();
    config.devices[0].id = "../escape".to_string();
    config.active_device_id = None;
    assert_eq!(image_cache_bucket(&config), "default");
}

#[test]
fn last_push_store_reads_back_what_was_recorded() {
    let mut store = LastPushStore::new();
    assert_eq!(store.get("dev-1"), None);
    store.record(
        "dev-1".to_string(),
        LastPush { filename: "a.jpg".to_string(), orientation: "portrait".to_string() },
    );
    store.record(
        "dev-2".to_string(),
        LastPush { filename: "b.jpg".to_string(), orientation: "landscape".to_string() },
    );
    store.record(
        "dev-1".to_string(),
        LastPush { filename: "c.jpg".to_string(), orientation: "landscape".to_string() },
    );
    assert_eq!(
        store.get("dev-1"),
        Some(LastPush { filename: "c.jpg".to_string(), orientation: "landscape".to_string() })
    );
    assert_eq!(store.get("dev-2").unwrap().filename, "b.jpg");
    assert!(store.remove("dev-1"));
    assert_eq!(store.get("dev-1"), None);
    assert!(!store.remove("dev-1"));
    assert_eq!(store.get("dev-2").unwrap().filename, "b.jpg");
}

#[test]
fn last_push_follows_the_active_device() {
    let mut store = LastPushStore::new();
    store.record(
        "dev-2".to_string(),
        LastPush { filename: "b.jpg".to_string(), orientation: "landscape".to_string() },
    );
    let mut config = two_device_config();
    assert_eq!(last_push(&config, &store), None);
    config.active_device_id = Some("dev-2".to_string());
    assert_eq!(last_push(&config, &store).unwrap().orientation, "landscape");
    assert_eq!(last_push(&AppConfig::default(), &store), None);
}

#[test]
fn launch_modes_follow_the_debug_flags() {
    let args = |v: &[&str]| v.iter().map(|s| s.to_string()).collect::<Vec<String>>();
    assert_eq!(launch_mode(&args(&["app"])), LaunchMode::Windowed);
    assert_eq!(launch_mode(&args(&["app", "--capture-spike", "--widgets-e2e", "u"])), LaunchMode::CaptureSpike);
    assert_eq!(
        launch_mode(&args(&["app", "--widgets-e2e", "http://127.0.0.1:1", "--scheduler-e2e", "x"])),
        LaunchMode::WidgetsE2e("http://127.0.0.1:1".to_string())
    );
    assert_eq!(
        launch_mode(&args(&["app", "--widgets-e2e", "--scheduler-e2e", "x"])),
        LaunchMode::WidgetsE2e("--scheduler-e2e".to_string())
    );
    assert_eq!(
        launch_mode(&args(&["app", "--scheduler-e2e", "http://m"])),
        LaunchMode::SchedulerE2e("http://m".to_string())
    );
    assert_eq!(launch_mode(&args(&["app", "--scheduler-e2e"])), LaunchMode::Windowed);
}

#[test]
fn only_window_closing_exits_wait_for_captures() {
    assert!(holds_exit(None, true));
    assert!(!holds_exit(None, false));
    assert!(!holds_exit(Some(0), true));
}

#[test]
fn mock_device_ports_parse_like_u16() {
    let args = |v: &[&str]| v.iter().map(|s| s.to_string()).collect::<Vec<String>>();
    assert_eq!(parse_port_arg(&args(&["mockdevice", "--port", "18080"])), Some(18080));
    assert_eq!(parse_port_arg(&args(&["mockdevice", "--port", "+80"])), Some(80));
    assert_eq!(parse_port_arg(&args(&["mockdevice", "--port", "65536"])), None);
    assert_eq!(parse_port_arg(&args(&["mockdevice", "--port", "12a"])), None);
    assert_eq!(parse_port_arg(&args(&["mockdevice", "--port"])), None);
    assert_eq!(parse_port_arg(&args(&["mockdevice"])), None);
    for text in ["0", "65535", "+", "", "-1", " 1", "007", "99999999999"] {
        assert_eq!(parse_u16(text), text.parse::<u16>().ok(), "{text:?}");
    }
}
