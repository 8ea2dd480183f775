//! Decisions behind the application's commands: which device a command or a
//! schedule talks to and at which base URL, which names are safe as path
//! components, how an image push is laid out on the panel, and the default
//! values the commands fall back to.

use vstd::prelude::*;
use crate::config::{active_index, entry_at, schedule_index, AppConfig, DeviceEntry};
use crate::device::client::{non_blank, DeviceClient, DEFAULT_ACTION_TIMEOUT_MS,
    DEFAULT_INFO_TIMEOUT_MS, DEFAULT_STATE_TIMEOUT_MS};
use crate::device::types::{DeviceInfo, ShowRequest};
use crate::device::client::gallery_path;
use crate::text::{
    blank, chars_of, contains, contains_seq, has_prefix, is_blank, push_str, starts_with,
    str_eq, string_from_chars, trim, trimmed,
};
use crate::encoding::{base64_decode, base64_text, data_uri, data_uri_text, is_base64};
use crate::library::{data_url_payload, decode_failure, payload_of_data_url};
use crate::widgets::config::PanelOrientation;

verus! {

/// Seconds per image of a gallery slideshow started from the Gallery page.
pub const DEFAULT_SLIDESHOW_DURATION_SECS: u32 = 30;
/// Panel width assumed while no device answers (portrait-native panel).
pub const DEFAULT_PANEL_WIDTH: u32 = 1200;
/// Panel height assumed while no device answers.
pub const DEFAULT_PANEL_HEIGHT: u32 = 1600;
/// Gallery every widget and photo push lands in.
pub const WIDGET_GALLERY: &'static str = "default";
/// Number of history entries the Schedules page reads by default.
pub const DEFAULT_HISTORY_LIMIT: usize = 200;
/// JPEG quality of pushed photos.
pub const IMAGE_JPEG_QUALITY: u8 = 92;

/// `s` without its trailing `/` characters.
pub open spec fn without_trailing_slashes(s: Seq<char>) -> Seq<char>
    decreases s.len(),
{
    if s.len() > 0 && s.last() == '/' {
        without_trailing_slashes(s.drop_last())
    } else {
        s
    }
}

/// The base URL of a user-entered address: trimmed, without trailing
/// slashes, with `http://` put in front unless it already names `http://`
/// or `https://`.
pub open spec fn base_url_text(input: Seq<char>) -> Seq<char> {
    let t = without_trailing_slashes(trimmed(input));
    if has_prefix(t, "http://"@) || has_prefix(t, "https://"@) {
        t
    } else {
        "http://"@ + t
    }
}

/// Normalises a user-entered address (`192.168.1.42`,
/// `192.168.1.42:8080`, `http://192.168.1.42/`) into the
/// `http://host[:port]` base URL the device client expects.
pub fn normalize_base_url(input: &str) -> (u: String)
    ensures
        u@ == base_url_text(input@),
{
    let v = chars_of(input);
    let t = trim(&v);
    let mut n: usize = t.len();
    assert(t@.take(n as int) == t@);
    while n > 0 && t[n - 1] == '/'
        invariant
            n <= t.len(),
            without_trailing_slashes(t@) == without_trailing_slashes(t@.take(n as int)),
        decreases n,
    {
        assert(t@.take(n as int).drop_last() == t@.take(n - 1));
        n = n - 1;
    }
    let mut s: Vec<char> = Vec::new();
    let mut i: usize = 0;
    while i < n
        invariant
            i <= n,
            n <= t.len(),
            s@ == t@.take(i as int),
        decreases n - i,
    {
        s.push(t[i]);
        assert(t@.take(i + 1) == t@.take(i as int).push(t@[i as int]));
        i = i + 1;
    }
    assert(without_trailing_slashes(t@.take(n as int)) == t@.take(n as int));
    let http = chars_of("http://");
    let https = chars_of("https://");
    if starts_with(&s, &http) || starts_with(&s, &https) {
        string_from_chars(&s)
    } else {
        let mut out = http;
        let mut k: usize = 0;
        while k < s.len()
            invariant
                k <= s.len(),
                out@ == "http://"@ + s@.take(k as int),
            decreases s.len() - k,
        {
            out.push(s[k]);
            assert(s@.take(k + 1) == s@.take(k as int).push(s@[k as int]));
            k = k + 1;
        }
        assert(s@.take(s@.len() as int) == s@);
        string_from_chars(&out)
    }
}

/// A name that cannot escape its directory: not empty, not `.` or `..`, and
/// without `/`, `\` or `..` inside.
pub open spec fn safe_component(s: Seq<char>) -> bool {
    &&& s.len() > 0
    &&& s != "."@
    &&& s != ".."@
    &&& !contains_seq(s, "/"@)
    &&& !contains_seq(s, "\\"@)
    &&& !contains_seq(s, ".."@)
}

/// Rejects names that could escape the cache directory or the device's
/// gallery path.
pub fn is_safe_component(s: &str) -> (b: bool)
    ensures
        b == safe_component(s@),
{
    let v = chars_of(s);
    let slash = chars_of("/");
    let backslash = chars_of("\\");
    let dots = chars_of("..");
    v.len() > 0 && !str_eq(s, ".") && !str_eq(s, "..") && !contains(&v, &slash) && !contains(
        &v,
        &backslash,
    ) && !contains(&v, &dots)
}

/// The `portrait` / `landscape` text of a panel orientation.
pub open spec fn orientation_text(o: PanelOrientation) -> Seq<char> {
    match o {
        PanelOrientation::Landscape => "landscape"@,
        PanelOrientation::Portrait => "portrait"@,
    }
}

/// `PanelOrientation` as the text the last-push store and the UI use.
pub fn orientation_str(orientation: PanelOrientation) -> (s: &'static str)
    ensures
        s@ == orientation_text(orientation),
{
    match orientation {
        PanelOrientation::Landscape => "landscape",
        PanelOrientation::Portrait => "portrait",
    }
}

/// The client a device entry is reached with: its normalised LAN address,
/// the default timeouts and its BLE name hint and real name.
pub open spec fn client_of(d: DeviceEntry, c: DeviceClient) -> bool {
    &&& c.base_url@ == base_url_text(d.lan_ip@)
    &&& c.info_timeout_ms == DEFAULT_INFO_TIMEOUT_MS
    &&& c.state_timeout_ms == DEFAULT_STATE_TIMEOUT_MS
    &&& c.action_timeout_ms == DEFAULT_ACTION_TIMEOUT_MS
    &&& c.ble_hint == non_blank(Some(d.ble_name))
    &&& c.ble_name == non_blank(Some(d.name))
}

/// A device's client wakes it by the entry's BLE name: that name (when not
/// blank) is the scan hint, and the entry's display name (when not blank)
/// is the stored real name that tells several matches apart. A blank BLE
/// name leaves the default hint.
pub proof fn law_client_wakes_by_ble_name(d: DeviceEntry, c: DeviceClient)
    requires
        client_of(d, c),
    ensures
        c.ble_hint matches Some(h) ==> h@ == d.ble_name@,
        !is_blank(d.ble_name@) ==> (c.ble_hint matches Some(h) && h@ == d.ble_name@),
        is_blank(d.ble_name@) ==> c.ble_hint is None,
        c.ble_name matches Some(n) ==> n@ == d.name@,
        !is_blank(d.name@) ==> (c.ble_name matches Some(n) && n@ == d.name@),
        c.base_url@ == base_url_text(d.lan_ip@),
{
}

/// The message of a device entry without a LAN address.
pub open spec fn empty_ip_message() -> Seq<char> {
    "device LAN IP is empty \u{2014} save the connection settings first"@
}

fn client_for_entry(d: &DeviceEntry) -> (r: Result<DeviceClient, String>)
    ensures
        is_blank(d.lan_ip@) ==> (r matches Err(m) && m@ == empty_ip_message()),
        !is_blank(d.lan_ip@) ==> (r matches Ok(c) && client_of(*d, c)),
{
    if blank(d.lan_ip.as_str()) {
        return Err(
            string_from_chars(
                &chars_of("device LAN IP is empty \u{2014} save the connection settings first"),
            ),
        );
    }
    let url = normalize_base_url(d.lan_ip.as_str());
    Ok(DeviceClient::new(url).with_ble(d.ble_name.clone(), Some(d.name.clone())))
}

/// The client of the active device; an error when no device is configured
/// or its LAN address is empty.
pub fn active_client(cfg: &AppConfig) -> (r: Result<DeviceClient, String>)
    ensures
        entry_at(*cfg, active_index(*cfg)) is None ==> (r matches Err(m) && m@
            == "no device configured yet \u{2014} save the connection settings first"@),
        entry_at(*cfg, active_index(*cfg)) matches Some(d) ==> (if is_blank(d.lan_ip@) {
            r matches Err(m) && m@ == empty_ip_message()
        } else {
            r matches Ok(c) && client_of(d, c)
        }),
{
    match cfg.active_device() {
        None => Err(
            string_from_chars(
                &chars_of("no device configured yet \u{2014} save the connection settings first"),
            ),
        ),
        Some(d) => client_for_entry(d),
    }
}

/// The client a schedule bound to `device_id` pushes to: its own device
/// (the active one for a blank id); an error when that device is no longer
/// configured or has no LAN address.
pub fn client_for_device(cfg: &AppConfig, device_id: &str) -> (r: Result<DeviceClient, String>)
    ensures
        entry_at(*cfg, schedule_index(*cfg, device_id@)) is None ==> (r matches Err(m) && m@
            == "device no longer configured"@),
        entry_at(*cfg, schedule_index(*cfg, device_id@)) matches Some(d) ==> (if is_blank(
            d.lan_ip@,
        ) {
            r matches Err(m) && m@ == empty_ip_message()
        } else {
            r matches Ok(c) && client_of(d, c)
        }),
{
    match cfg.device_for_schedule(device_id) {
        None => Err(string_from_chars(&chars_of("device no longer configured"))),
        Some(d) => client_for_entry(d),
    }
}

/// The id of the active device, if any.
pub fn active_device_id(cfg: &AppConfig) -> (r: Option<String>)
    ensures
        r matches Some(id) ==> (entry_at(*cfg, active_index(*cfg)) matches Some(d) && id == d.id),
        r is None ==> entry_at(*cfg, active_index(*cfg)) is None,
{
    match cfg.active_device() {
        Some(d) => Some(d.id.clone()),
        None => None,
    }
}

/// The id of the device a schedule bound to `device_id` pushes to.
pub fn resolved_schedule_device_id(cfg: &AppConfig, device_id: &str) -> (r: Option<String>)
    ensures
        r matches Some(id) ==> (entry_at(*cfg, schedule_index(*cfg, device_id@)) matches Some(d)
            && id == d.id),
        r is None ==> entry_at(*cfg, schedule_index(*cfg, device_id@)) is None,
{
    match cfg.device_for_schedule(device_id) {
        Some(d) => Some(d.id.clone()),
        None => None,
    }
}

/// The bucket of the on-disk image cache: the active device's id when it
/// is a safe path component, else `default`.
pub fn image_cache_bucket(cfg: &AppConfig) -> (s: String)
    ensures
        s@ == (match entry_at(*cfg, active_index(*cfg)) {
            Some(d) => if safe_component(d.id@) { d.id@ } else { "default"@ },
            None => "default"@,
        }),
{
    match cfg.active_device() {
        Some(d) => if is_safe_component(d.id.as_str()) {
            d.id.clone()
        } else {
            string_from_chars(&chars_of("default"))
        },
        None => string_from_chars(&chars_of("default")),
    }
}

/// The panel size of a `/deviceInfo` reading, or the default portrait panel
/// when the device did not answer.
pub fn panel_size(info: Option<&DeviceInfo>) -> (r: (u32, u32))
    ensures
        r == (match info {
            Some(i) => (i.width, i.height),
            None => (DEFAULT_PANEL_WIDTH, DEFAULT_PANEL_HEIGHT),
        }),
{
    match info {
        Some(i) => (i.width, i.height),
        None => (DEFAULT_PANEL_WIDTH, DEFAULT_PANEL_HEIGHT),
    }
}

/// Display settings of an image push, from the push dialog's choices.
#[derive(Debug, Clone, Copy, PartialEq, Eq)]
pub struct PushSettings {
    /// Mount the frame sideways.
    pub landscape: bool,
    /// Rotate a landscape composition clockwise (else counter-clockwise).
    pub rotate_cw: bool,
    /// Pad with white (else black).
    pub border_white: bool,
}

/// Reads the push dialog's choices: `landscape` orientation, any rotation
/// but `ccw` is clockwise, `white` border.
pub fn push_settings(orientation: &str, rotate: &str, border: &str) -> (s: PushSettings)
    ensures
        s.landscape == (orientation@ == "landscape"@),
        s.rotate_cw == (rotate@ != "ccw"@),
        s.border_white == (border@ == "white"@),
{
    PushSettings {
        landscape: str_eq(orientation, "landscape"),
        rotate_cw: !str_eq(rotate, "ccw"),
        border_white: str_eq(border, "white"),
    }
}

/// Whether an image is scaled to cover the canvas (`fill`) rather than
/// fitted inside it with a border (`fit`); `auto` (any other mode) fills a
/// portrait-shaped source (height at least width) and fits a landscape one.
pub fn fills_canvas(mode: &str, image_width: u32, image_height: u32) -> (b: bool)
    ensures
        mode@ == "fill"@ ==> b,
        mode@ != "fill"@ && mode@ == "fit"@ ==> !b,
        mode@ != "fill"@ && mode@ != "fit"@ ==> b == (image_height >= image_width),
{
    if str_eq(mode, "fill") {
        true
    } else if str_eq(mode, "fit") {
        false
    } else {
        image_height >= image_width
    }
}

/// The canvas a push is composed on: the panel size, swapped for a
/// landscape mount.
pub open spec fn canvas_of(panel_width: u32, panel_height: u32, landscape: bool) -> (u32, u32) {
    if landscape {
        (panel_height, panel_width)
    } else {
        (panel_width, panel_height)
    }
}

/// The canvas a push is composed on.
pub fn push_canvas(panel_width: u32, panel_height: u32, landscape: bool) -> (r: (u32, u32))
    ensures
        r == canvas_of(panel_width, panel_height, landscape),
{
    if landscape {
        (panel_height, panel_width)
    } else {
        (panel_width, panel_height)
    }
}

/// The orientation recorded for a photo push: `landscape` when chosen,
/// `portrait` otherwise.
pub fn push_orientation_label(orientation: &str) -> (s: &'static str)
    ensures
        s@ == (if orientation@ == "landscape"@ { "landscape"@ } else { "portrait"@ }),
{
    if str_eq(orientation, "landscape") {
        "landscape"
    } else {
        "portrait"
    }
}

/// `POST /show` with `play_type=0` for an image stored in a gallery.
pub fn show_image_request(gallery: &str, image: &str) -> (r: ShowRequest)
    ensures
        r matches ShowRequest::Image { image: p } && p@ == "/gallerys/"@ + gallery@ + "/"@ + image@,
{
    ShowRequest::Image { image: gallery_path(gallery, image) }
}

/// `POST /show` with `play_type=1`: a slideshow of a gallery at the default
/// duration.
pub fn show_gallery_request(gallery: String) -> (r: ShowRequest)
    ensures
        r == (ShowRequest::Gallery { gallery, duration: DEFAULT_SLIDESHOW_DURATION_SECS }),
{
    ShowRequest::Gallery { gallery, duration: DEFAULT_SLIDESHOW_DURATION_SECS }
}

/// The image bytes of a `data:...;base64,<payload>` URL the UI sends for a
/// preview or a push. Fails exactly when the payload is not base64.
pub fn decode_data_url(data_url: &str) -> (r: Result<Vec<u8>, String>)
    ensures
        r is Ok <==> is_base64(data_url_payload(data_url@)),
        r matches Ok(bytes) ==> base64_text(bytes@) == data_url_payload(data_url@),
        r matches Err(m) ==> m@ == decode_failure(data_url@),
{
    let payload = payload_of_data_url(data_url);
    match base64_decode(payload.as_str()) {
        Ok(bytes) => Ok(bytes),
        Err(e) => {
            let mut m = chars_of("could not decode image data: ");
            push_str(&mut m, e.as_str());
            Err(string_from_chars(&m))
        },
    }
}

/// A device image as a `data:image/jpeg;base64,...` URL.
pub fn to_jpeg_data_url(bytes: &[u8]) -> (u: String)
    ensures
        u@ == data_uri_text("image/jpeg"@, bytes@),
{
    data_uri("image/jpeg", bytes)
}

/// Checks the gallery and image names of an image request before they are
/// used as path components.
pub fn check_image_request(gallery: &str, name: &str) -> (r: Result<(), String>)
    ensures
        r is Ok <==> (safe_component(gallery@) && safe_component(name@)),
        r matches Err(m) ==> m@ == "invalid gallery or image name"@,
{
    if !is_safe_component(gallery) || !is_safe_component(name) {
        return Err("invalid gallery or image name".to_owned());
    }
    Ok(())
}

/// Checks the id of a device whose local data is about to be removed: it
/// names a directory of the image cache.
pub fn check_purge_device_id(device_id: &str) -> (r: Result<(), String>)
    ensures
        r is Ok <==> safe_component(device_id@),
        r matches Err(m) ==> m@ == "invalid device id"@,
{
    if !is_safe_component(device_id) {
        return Err("invalid device id".to_owned());
    }
    Ok(())
}

/// Why an IP geolocation reply is not usable, if it is not: a status other
/// than `success` reports the service's message (or a stock one), and a
/// successful reply must carry both coordinates.
pub fn ip_location_error(status: &str, message: Option<String>, has_coordinates: bool) -> (r:
    Option<String>)
    ensures
        status@ != "success"@ ==> (r matches Some(m) && m@ == (match message {
            Some(t) => t@,
            None => "location lookup failed"@,
        })),
        status@ == "success"@ && !has_coordinates ==> (r matches Some(m) && m@
            == "location response was missing coordinates"@),
        status@ == "success"@ && has_coordinates ==> r is None,
{
    if !str_eq(status, "success") {
        return match message {
            Some(m) => Some(m),
            None => Some("location lookup failed".to_owned()),
        };
    }
    if !has_coordinates {
        return Some("location response was missing coordinates".to_owned());
    }
    None
}

/// The first of the candidate names that is not blank, without its
/// surrounding whitespace; empty when all are blank or missing.
pub open spec fn first_named(names: Seq<Option<String>>) -> Seq<char>
    decreases names.len(),
{
    if names.len() == 0 {
        Seq::empty()
    } else {
        match names[0] {
            Some(n) => if trimmed(n@).len() > 0 {
                trimmed(n@)
            } else {
                first_named(names.skip(1))
            },
            None => first_named(names.skip(1)),
        }
    }
}

/// The label of a reverse-geocoded point: its city, else its locality, else
/// its principal subdivision.
pub fn place_label(city: Option<String>, locality: Option<String>, subdivision: Option<String>) -> (r:
    String)
    ensures
        r@ == first_named(seq![city, locality, subdivision]),
{
    let ghost names = seq![city, locality, subdivision];
    assert(names.skip(1) =~= seq![locality, subdivision]);
    assert(names.skip(1).skip(1) =~= seq![subdivision]);
    assert(names.skip(1).skip(1).skip(1) =~= Seq::<Option<String>>::empty());
    proof {
        reveal_with_fuel(first_named, 4);
    }
    if let Some(c) = &city {
        let t = trim(&chars_of(c.as_str()));
        if t.len() > 0 {
            return string_from_chars(&t);
        }
    }
    if let Some(l) = &locality {
        let t = trim(&chars_of(l.as_str()));
        if t.len() > 0 {
            return string_from_chars(&t);
        }
    }
    if let Some(p) = &subdivision {
        let t = trim(&chars_of(p.as_str()));
        if t.len() > 0 {
            return string_from_chars(&t);
        }
    }
    string_from_chars(&Vec::new())
}

/// A pushed photo always fits the panel exactly: a landscape composition,
/// turned a quarter either way, has the panel's size, and a portrait one
/// has it as composed.
pub proof fn law_push_fits_the_panel(panel_width: u32, panel_height: u32, landscape: bool)
    ensures
        ({
            let (cw, ch) = canvas_of(panel_width, panel_height, landscape);
            if landscape {
                (ch, cw) == (panel_width, panel_height)
            } else {
                (cw, ch) == (panel_width, panel_height)
            }
        }),
{
}

} // verus!
