use bloomin8_desktop::capture::{
    capture_size, panel_rotation, CaptureState, Orientation, Rotation,
};
use bloomin8_desktop::commands::{
    check_image_request, check_purge_device_id, decode_data_url as decode_push_source,
    fills_canvas, ip_location_error, is_safe_component, normalize_base_url, orientation_str,
    panel_size, place_label, push_canvas, push_settings, to_jpeg_data_url,
};
use bloomin8_desktop::device::types::DeviceInfo;
use bloomin8_desktop::encoding::data_uri;
use bloomin8_desktop::library::{
    add_item, decode_data_url, delete_item, display_name, ext_for_mime, find_item,
    image_data_url, item_file_name, item_for_schedule, item_for_view, mime_for,
    mime_of_data_url, new_item, now_ms, payload_of_data_url, LibraryItem,
};
use bloomin8_desktop::widgets::config::PanelOrientation;

fn item(id: &str, ext: &str) -> LibraryItem {
    LibraryItem { id: id.to_string(), name: format!("{id}.{ext}"), added: 1, ext: ext.to_string() }
}

#[test]
fn data_urls_split_into_mime_and_payload() {
    assert_eq!(mime_of_data_url("data:image/png;base64,AAAA"), "image/png");
    assert_eq!(mime_of_data_url("image/png;base64,AAAA"), "");
    assert_eq!(mime_of_data_url("data:image/webp"), "image/webp");
    assert_eq!(payload_of_data_url("data:image/png;base64,AAAA"), "AAAA");
    assert_eq!(payload_of_data_url("a,b,c"), "c");
    assert_eq!(payload_of_data_url("QUJD"), "QUJD");
}

#[test]
fn stored_extensions_follow_the_mime_type() {
    assert_eq!(ext_for_mime("image/png"), "png");
    assert_eq!(ext_for_mime("image/webp"), "webp");
    assert_eq!(ext_for_mime("image/gif"), "gif");
    assert_eq!(ext_for_mime("image/bmp"), "bmp");
    assert_eq!(ext_for_mime("image/tiff"), "tiff");
    assert_eq!(ext_for_mime("image/jpeg"), "jpg");
    assert_eq!(ext_for_mime(""), "jpg");
    assert_eq!(mime_for("png"), "image/png");
    assert_eq!(mime_for("jpg"), "image/jpeg");
    assert_eq!(mime_for("whatever"), "image/jpeg");
}

#[test]
fn decoding_a_data_url_gives_bytes_and_extension() {
    let (bytes, ext) = decode_data_url("data:image/png;base64,QUJD").unwrap();
    assert_eq!(bytes, b"ABC".to_vec());
    assert_eq!(ext, "png");
    let err = decode_data_url("data:image/png;base64,!!!").unwrap_err();
    assert!(err.starts_with("could not decode image data: "), "{err}");
    assert_eq!(decode_push_source("data:image/jpeg;base64,QUJD").unwrap(), b"ABC".to_vec());
    assert!(decode_push_source("data:image/jpeg;base64,%%").is_err());
}

#[test]
fn base64_round_trips_through_the_crate() {
    let url = data_uri("image/png", &[0, 1, 2, 250]);
    assert_eq!(url, "data:image/png;base64,AAEC+g==");
    assert_eq!(decode_data_url(&url).unwrap(), (vec![0, 1, 2, 250], "png".to_string()));
    assert_eq!(data_uri("image/png", b"ABC"), "data:image/png;base64,QUJD");
    assert_eq!(to_jpeg_data_url(b"ABC"), "data:image/jpeg;base64,QUJD");
}

#[test]
fn blank_upload_names_become_image() {
    assert_eq!(display_name("  ".to_string()), "image");
    assert_eq!(display_name("cat.png".to_string()), "cat.png");
}

#[test]
fn new_items_get_a_fresh_hex_id() {
    let (a, bytes) = new_item(" ".to_string(), "data:image/gif;base64,QUJD").unwrap();
    let (b, _) = new_item("x".to_string(), "data:image/gif;base64,QUJD").unwrap();
    assert_eq!(bytes, b"ABC".to_vec());
    assert_eq!(a.id.len(), 32);
    assert!(a.id.chars().all(|c| c.is_ascii_digit() || ('a'..='f').contains(&c)));
    assert_ne!(a.id, b.id);
    assert_eq!(a.name, "image");
    assert_eq!(a.ext, "gif");
    assert!(a.added > 0);
    assert!(new_item("x".to_string(), "data:image/gif;base64,***").is_err());
}

#[test]
fn the_clock_reads_after_the_epoch() {
    assert!(now_ms() > 1_600_000_000_000);
}

#[test]
fn the_index_is_newest_first_and_deletes_by_id() {
    let mut items = vec![item("old", "jpg")];
    add_item(&mut items, item("new", "png"));
    assert_eq!(items[0].id, "new");
    assert_eq!(find_item(&items, "old"), Some(1));
    let removed = delete_item(&mut items, "new").unwrap();
    assert_eq!(removed.ext, "png");
    assert_eq!(items.len(), 1);
    assert!(delete_item(&mut items, "new").is_none());
    assert_eq!(items.len(), 1);
}

#[test]
fn library_lookups_report_missing_images() {
    let items = vec![item("a", "png")];
    assert_eq!(item_for_schedule(&items, "a").unwrap().ext, "png");
    assert_eq!(
        item_for_schedule(&items, "b").unwrap_err(),
        "image \"b\" is no longer in the library"
    );
    assert_eq!(item_for_view(&items, "b").unwrap_err(), "image not found in library");
    assert_eq!(item_file_name(&items[0]), "a.png");
    assert_eq!(image_data_url(&items[0], b"ABC"), "data:image/png;base64,QUJD");
}

#[test]
fn base_urls_get_a_scheme_and_lose_trailing_slashes() {
    assert_eq!(normalize_base_url("192.168.1.42"), "http://192.168.1.42");
    assert_eq!(normalize_base_url(" http://10.0.0.2/ "), "http://10.0.0.2");
    assert_eq!(normalize_base_url("https://host//"), "https://host");
}

#[test]
fn path_components_cannot_escape() {
    assert!(is_safe_component("a.jpg"));
    assert!(!is_safe_component(""));
    assert!(!is_safe_component(".."));
    assert!(!is_safe_component("a/b"));
    assert!(!is_safe_component("a\\b"));
    assert!(!is_safe_component("x..y"));
    assert!(check_image_request("default", "a.jpg").is_ok());
    assert_eq!(
        check_image_request("default", "../a.jpg").unwrap_err(),
        "invalid gallery or image name"
    );
    assert_eq!(check_purge_device_id("..").unwrap_err(), "invalid device id");
}

#[test]
fn orientation_texts() {
    assert_eq!(orientation_str(PanelOrientation::Portrait), "portrait");
    assert_eq!(orientation_str(PanelOrientation::Landscape), "landscape");
}

#[test]
fn panel_size_defaults_without_a_reading() {
    assert_eq!(panel_size(None), (1200, 1600));
    let info = DeviceInfo {
        width: 800,
        height: 480,
        battery: None,
        image: None,
        gallery: None,
        max_idle: None,
    };
    assert_eq!(panel_size(Some(&info)), (800, 480));
}

#[test]
fn push_dialog_settings() {
    let s = push_settings("landscape", "ccw", "white");
    assert!(s.landscape && !s.rotate_cw && s.border_white);
    let s = push_settings("portrait", "anything", "black");
    assert!(!s.landscape && s.rotate_cw && !s.border_white);
    assert!(fills_canvas("fill", 2000, 1000));
    assert!(!fills_canvas("fit", 1000, 2000));
    assert!(fills_canvas("auto", 1000, 2000));
    assert!(!fills_canvas("auto", 2000, 1000));
    assert_eq!(push_canvas(1200, 1600, false), (1200, 1600));
    assert_eq!(push_canvas(1200, 1600, true), (1600, 1200));
}

#[test]
fn capture_geometry() {
    assert_eq!(capture_size(Orientation::Portrait, 1200, 1600), (1200, 1600));
    assert_eq!(capture_size(Orientation::Landscape(Rotation::Cw), 1200, 1600), (1600, 1200));
    assert_eq!(panel_rotation(true, Orientation::Landscape(Rotation::Ccw)), Some(Rotation::Ccw));
    assert_eq!(panel_rotation(false, Orientation::Landscape(Rotation::Ccw)), None);
    assert_eq!(panel_rotation(true, Orientation::Portrait), None);
}

#[test]
fn capture_activity_is_counted_in_and_out() {
    let mut state = CaptureState::new();
    assert!(!state.is_active());
    let g = state.hold_active();
    assert!(state.is_active());
    state.release(g);
    assert!(!state.is_active());
}

#[test]
fn geolocation_replies_are_checked() {
    assert_eq!(ip_location_error("success", None, true), None);
    assert_eq!(
        ip_location_error("success", None, false).as_deref(),
        Some("location response was missing coordinates")
    );
    assert_eq!(
        ip_location_error("fail", Some("private range".to_string()), true).as_deref(),
        Some("private range")
    );
    assert_eq!(ip_location_error("fail", None, true).as_deref(), Some("location lookup failed"));
}

#[test]
fn place_labels_prefer_the_most_specific_name() {
    assert_eq!(
        place_label(Some(" Taipei ".to_string()), Some("Da'an".to_string()), None),
        "Taipei"
    );
    assert_eq!(
        place_label(Some("  ".to_string()), None, Some("Taiwan".to_string())),
        "Taiwan"
    );
    assert_eq!(place_label(None, None, None), "");
}

#[test]
fn library_image_urls_push_back_the_original_bytes() {
    let original: Vec<u8> = (0u8..=255).collect();
    for ext in ["png", "jpg", "webp", "weird"] {
        let url = image_data_url(&item("x", ext), &original);
        assert_eq!(decode_push_source(&url).unwrap(), original);
    }
}
