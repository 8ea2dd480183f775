//! The device client's settings and the decisions it takes around each
//! request: which URL to call, which filename to upload under, whether the
//! device really shows what was uploaded, which images a cleanup deletes,
//! and when polling for Ready or for a wake-up stops.

use vstd::prelude::*;
use crate::text::{
    blank, chars_of, dec_u64, decimal, ends_with, has_prefix, has_suffix, is_blank, push_chars,
    push_str, starts_with, str_eq, string_from_chars,
};
use super::error::DeviceError;
use super::types::{DeviceState, UploadAndShowResult};
use super::wake::DEFAULT_BLE_NAME;

verus! {

/// Timeout of `GET /deviceInfo`, short so that a sleeping device fails fast.
pub const DEFAULT_INFO_TIMEOUT_MS: u64 = 3000;
/// Timeout of `GET /state`.
pub const DEFAULT_STATE_TIMEOUT_MS: u64 = 5000;
/// Timeout of power and settings actions.
pub const DEFAULT_ACTION_TIMEOUT_MS: u64 = 15000;
/// Timeout of `POST /upload`.
pub const DEFAULT_UPLOAD_TIMEOUT_MS: u64 = 30000;
/// Budget of the poll for Ready after an upload.
pub const DEFAULT_WAIT_READY_TIMEOUT_MS: u64 = 60000;
/// Interval between two polls for Ready.
pub const DEFAULT_WAIT_READY_INTERVAL_MS: u64 = 2000;
/// Page size used by cleanup when listing a gallery.
pub const CLEANUP_LIST_LIMIT: u32 = 200;
/// Budget of the poll for `/deviceInfo` after a wake pulse.
pub const DEFAULT_WAKE_BUDGET_MS: u64 = 45000;
/// Interval between two polls while waiting for the device to wake.
pub const DEFAULT_WAKE_POLL_INTERVAL_MS: u64 = 2000;

/// Settings of a client of one device's LAN protocol.
#[derive(Debug, Clone, PartialEq)]
pub struct DeviceClient {
    /// The device's HTTP origin, e.g. `http://192.168.1.42`.
    pub base_url: String,
    pub info_timeout_ms: u64,
    pub state_timeout_ms: u64,
    pub action_timeout_ms: u64,
    /// The BLE match hint (substring); `None` uses the default hint.
    pub ble_hint: Option<String>,
    /// The device's stored real name, to tell several matches apart.
    pub ble_name: Option<String>,
}

/// `Some(s)` when `s` is not blank, otherwise `None`.
pub open spec fn non_blank(s: Option<String>) -> Option<String> {
    match s {
        Some(x) => if is_blank(x@) { None } else { Some(x) },
        None => None,
    }
}

impl DeviceClient {
    /// A client of the device at `base_url` with the default timeouts and no
    /// BLE settings.
    pub fn new(base_url: String) -> (c: Self)
        ensures
            c.base_url == base_url,
            c.info_timeout_ms == DEFAULT_INFO_TIMEOUT_MS,
            c.state_timeout_ms == DEFAULT_STATE_TIMEOUT_MS,
            c.action_timeout_ms == DEFAULT_ACTION_TIMEOUT_MS,
            c.ble_hint is None,
            c.ble_name is None,
    {
        DeviceClient {
            base_url,
            info_timeout_ms: DEFAULT_INFO_TIMEOUT_MS,
            state_timeout_ms: DEFAULT_STATE_TIMEOUT_MS,
            action_timeout_ms: DEFAULT_ACTION_TIMEOUT_MS,
            ble_hint: None,
            ble_name: None,
        }
    }

    /// Overrides the per-request timeouts (milliseconds).
    pub fn with_timeouts(self, info_ms: u64, state_ms: u64, action_ms: u64) -> (c: Self)
        ensures
            c == (DeviceClient {
                info_timeout_ms: info_ms,
                state_timeout_ms: state_ms,
                action_timeout_ms: action_ms,
                ..self
            }),
    {
        DeviceClient {
            info_timeout_ms: info_ms,
            state_timeout_ms: state_ms,
            action_timeout_ms: action_ms,
            ..self
        }
    }

    /// Attaches the BLE wake settings: a blank `hint` means the default hint
    /// at wake time, and a blank `name` is dropped.
    pub fn with_ble(self, hint: String, name: Option<String>) -> (c: Self)
        ensures
            c == (DeviceClient { ble_hint: non_blank(Some(hint)), ble_name: non_blank(name), ..self }),
    {
        let ble_hint = if blank(hint.as_str()) {
            None
        } else {
            Some(hint)
        };
        let ble_name = match name {
            Some(n) => if blank(n.as_str()) {
                None
            } else {
                Some(n)
            },
            None => None,
        };
        DeviceClient { ble_hint, ble_name, ..self }
    }

    /// The URL of `path` on this device.
    pub fn url(&self, path: &str) -> (u: String)
        ensures
            u@ == self.base_url@ + path@,
    {
        let mut v = chars_of(self.base_url.as_str());
        push_str(&mut v, path);
        string_from_chars(&v)
    }

    /// The BLE hint used by a wake: the configured hint or the default name.
    pub fn wake_hint(&self) -> (h: String)
        ensures
            h@ == (match self.ble_hint {
                Some(x) => x@,
                None => DEFAULT_BLE_NAME@,
            }),
    {
        match &self.ble_hint {
            Some(h) => h.clone(),
            None => {
                let v = chars_of(DEFAULT_BLE_NAME);
                string_from_chars(&v)
            },
        }
    }
}

/// `<prefix>_<timestamp>.jpg`.
pub open spec fn upload_name(prefix: Seq<char>, timestamp: Seq<char>) -> Seq<char> {
    prefix + "_"@ + timestamp + ".jpg"@
}

/// The fresh filename an upload-and-show uses: `<prefix>_<timestamp>.jpg`.
/// The firmware caches rendered images by filename, so a name is never
/// reused.
pub fn upload_filename(prefix: &str, timestamp: &str) -> (f: String)
    ensures
        f@ == upload_name(prefix@, timestamp@),
{
    let mut v = chars_of(prefix);
    push_str(&mut v, "_");
    push_str(&mut v, timestamp);
    push_str(&mut v, ".jpg");
    string_from_chars(&v)
}

/// Uploads of one lineage at different timestamps never share a filename,
/// so the firmware's per-filename cache never serves a stale image.
pub proof fn law_upload_names_never_repeat(prefix: Seq<char>, t1: Seq<char>, t2: Seq<char>)
    ensures
        upload_name(prefix, t1) == upload_name(prefix, t2) ==> t1 == t2,
{
    reveal_strlit("_");
    reveal_strlit(".jpg");
    let a = upload_name(prefix, t1);
    let b = upload_name(prefix, t2);
    if a == b {
        let k = prefix.len() + 1;
        assert(a.len() == k + t1.len() + 4);
        assert(b.len() == k + t2.len() + 4);
        assert(a.subrange(k as int, (k + t1.len()) as int) =~= t1);
        assert(b.subrange(k as int, (k + t2.len()) as int) =~= t2);
    }
}

/// What `/deviceInfo` shows, with a missing image read as empty text.
pub open spec fn shown_text(shown: Option<String>) -> Seq<char> {
    match shown {
        Some(s) => s@,
        None => Seq::empty(),
    }
}

/// Checks, after an upload with `show_now`, that the device shows the
/// uploaded file: the reported image must end with `filename`. A mismatch
/// means the firmware still serves a stale image although `/state` looked
/// Ready.
pub fn verify_display(filename: String, gallery: &str, shown: Option<String>) -> (r: Result<
    UploadAndShowResult,
    DeviceError,
>)
    ensures
        has_suffix(shown_text(shown), filename@) ==> r == Ok::<UploadAndShowResult, DeviceError>(
            UploadAndShowResult { filename, gallery: r->Ok_0.gallery },
        ) && r->Ok_0.gallery@ == gallery@,
        !has_suffix(shown_text(shown), filename@) ==> r == Err::<UploadAndShowResult, DeviceError>(
            DeviceError::DisplayVerificationFailed { expected: filename, actual: shown },
        ),
{
    let shown_chars = match &shown {
        Some(s) => chars_of(s.as_str()),
        None => Vec::new(),
    };
    let name_chars = chars_of(filename.as_str());
    if ends_with(&shown_chars, &name_chars) {
        let g = chars_of(gallery);
        Ok(UploadAndShowResult { filename, gallery: string_from_chars(&g) })
    } else {
        Err(DeviceError::DisplayVerificationFailed { expected: filename, actual: shown })
    }
}

/// Whether a cleanup deletes the image called `name`.
pub open spec fn deleted_by_cleanup(name: Seq<char>, prefix: Seq<char>, keep: Seq<char>) -> bool {
    has_prefix(name, prefix) && name != keep
}

/// The names, in listing order, that a cleanup deletes.
pub open spec fn cleanup_selection(names: Seq<Seq<char>>, prefix: Seq<char>, keep: Seq<char>) -> Seq<
    Seq<char>,
>
    decreases names.len(),
{
    if names.len() == 0 {
        Seq::empty()
    } else {
        let rest = cleanup_selection(names.drop_last(), prefix, keep);
        if deleted_by_cleanup(names.last(), prefix, keep) {
            rest.push(names.last())
        } else {
            rest
        }
    }
}

/// The text of an optional `keep`, with a missing one read as empty.
pub open spec fn keep_text(keep: Option<&str>) -> Seq<char> {
    match keep {
        Some(k) => k@,
        None => Seq::empty(),
    }
}

/// Which images of a gallery listing a cleanup deletes: every name that
/// starts with `prefix`, except `keep`. Refuses with
/// [`DeviceError::CleanupRefused`] when `keep` is missing or blank, since a
/// failed upload piped into cleanup would otherwise delete every same-prefix
/// image, the one on screen included.
pub fn cleanup_targets(prefix: &str, keep: Option<&str>, names: &Vec<String>) -> (r: Result<
    Vec<String>,
    DeviceError,
>)
    ensures
        is_blank(keep_text(keep)) <==> r == Err::<Vec<String>, DeviceError>(
            DeviceError::CleanupRefused,
        ),
        !is_blank(keep_text(keep)) ==> r is Ok,
        r matches Ok(v) ==> v@.map_values(|s: String| s@) == cleanup_selection(
            names@.map_values(|s: String| s@),
            prefix@,
            keep_text(keep),
        ),
{
    let keep_str: &str = match keep {
        Some(k) => k,
        None => "",
    };
    proof {
        reveal_strlit("");
    }
    if blank(keep_str) {
        return Err(DeviceError::CleanupRefused);
    }
    let p = chars_of(prefix);
    let ghost ns = names@.map_values(|s: String| s@);
    let mut out: Vec<String> = Vec::new();
    let mut i: usize = 0;
    while i < names.len()
        invariant
            i <= names.len(),
            p@ == prefix@,
            keep_str@ == keep_text(keep),
            ns == names@.map_values(|s: String| s@),
            out@.map_values(|s: String| s@) == cleanup_selection(
                ns.take(i as int),
                prefix@,
                keep_text(keep),
            ),
        decreases names.len() - i,
    {
        let n = chars_of(names[i].as_str());
        let selected = starts_with(&n, &p) && !str_eq(names[i].as_str(), keep_str);
        proof {
            assert(ns.take(i + 1).drop_last() == ns.take(i as int));
            assert(ns.take(i + 1).last() == names@[i as int]@);
        }
        if selected {
            out.push(names[i].clone());
            assert(out@.map_values(|s: String| s@) == cleanup_selection(
                ns.take(i as int),
                prefix@,
                keep_text(keep),
            ).push(names@[i as int]@));
        }
        i = i + 1;
    }
    assert(ns.take(names.len() as int) == ns);
    Ok(out)
}

/// Every name a cleanup deletes starts with the prefix and is not `keep`, so
/// the image just uploaded (and shown) is never deleted.
pub proof fn law_cleanup_spares_keep(names: Seq<Seq<char>>, prefix: Seq<char>, keep: Seq<char>)
    ensures
        forall|i: int|
            0 <= i < cleanup_selection(names, prefix, keep).len() ==> deleted_by_cleanup(
                #[trigger] cleanup_selection(names, prefix, keep)[i],
                prefix,
                keep,
            ),
        forall|i: int|
            0 <= i < cleanup_selection(names, prefix, keep).len() ==> names.contains(
                #[trigger] cleanup_selection(names, prefix, keep)[i],
            ),
    decreases names.len(),
{
    if names.len() > 0 {
        law_cleanup_spares_keep(names.drop_last(), prefix, keep);
        let rest = cleanup_selection(names.drop_last(), prefix, keep);
        assert forall|i: int| 0 <= i < rest.len() implies names.contains(#[trigger] rest[i]) by {
            let j = choose|j: int| 0 <= j < names.drop_last().len() && names.drop_last()[j] == rest[i];
            assert(names[j] == rest[i]);
        }
        assert(names[names.len() - 1] == names.last());
    }
}

/// The message surfaced for a device's failure reply: its `msg` field when
/// it is a non-empty string, else `device returned HTTP <code>`.
pub open spec fn failure_message(status_code: u16, msg: Option<Seq<char>>) -> Seq<char> {
    match msg {
        Some(m) => if m.len() > 0 { m } else { "device returned HTTP "@ + decimal(status_code as nat) },
        None => "device returned HTTP "@ + decimal(status_code as nat),
    }
}

/// The `msg` string field of a JSON object text, as `serde_json` reads it.
pub uninterp spec fn json_msg_field(body: Seq<char>) -> Option<Seq<char>>;

/// Parses `body` with `serde_json` and returns its top-level `"msg"` field
/// when the body is a JSON object whose `msg` is a string. What counts as
/// valid JSON is `serde_json`'s business and is not restated.
#[verifier::external_body]
fn msg_field(body: &str) -> (r: Option<String>)
    ensures
        r matches Some(m) ==> json_msg_field(body@) == Some(m@),
        r is None ==> json_msg_field(body@) is None,
{
    serde_json::from_str::<serde_json::Value>(body).ok().and_then(
        |v| v.get("msg").and_then(|m| m.as_str()).map(|s| s.to_string()),
    )
}

/// The error a non-2xx `/settings` reply turns into: the device's own `msg`
/// (e.g. `NAME_TOO_LONG`) when present, else the bare HTTP status.
pub fn device_failure(status_code: u16, body: &str) -> (e: DeviceError)
    ensures
        e matches DeviceError::Device(m) && m@ == failure_message(status_code, json_msg_field(body@)),
{
    let m = msg_field(body);
    let text = match m {
        Some(s) => if !s.as_str().is_empty() {
            Some(s)
        } else {
            None
        },
        None => None,
    };
    proof {
        if text is Some {
            assert(text->0@.len() > 0);
        }
    }
    match text {
        Some(s) => DeviceError::Device(s),
        None => {
            let mut v = chars_of("device returned HTTP ");
            let d = dec_u64(status_code as u64);
            push_chars(&mut v, &d);
            DeviceError::Device(string_from_chars(&v))
        },
    }
}

/// One step of the poll for Ready.
#[derive(Debug, PartialEq)]
pub enum WaitStep {
    /// The poll is over with this result.
    Done(Result<DeviceState, DeviceError>),
    /// Sleep one interval and poll again, remembering this last state.
    Continue(Option<DeviceState>),
}

/// The decision after one `/state` poll: `polled` is the state read (or
/// `None` when the request failed, which is retried, not fatal), `last` the
/// last state read before, and `deadline_passed` whether the budget
/// (`timeout_ms`) is spent.
pub fn wait_ready_step(
    last: Option<DeviceState>,
    polled: Option<DeviceState>,
    deadline_passed: bool,
    timeout_ms: u64,
) -> (s: WaitStep)
    ensures
        (polled matches Some(st) && st.status == 100) ==> s == WaitStep::Done(Ok(polled->0)),
        !(polled matches Some(st) && st.status == 100) ==> ({
            let last2 = if polled is Some { polled } else { last };
            if deadline_passed {
                s == WaitStep::Done(Err(DeviceError::NotReady(timeout_ms, last2)))
            } else {
                s == WaitStep::Continue(last2)
            }
        }),
{
    let last2 = match polled {
        Some(st) => {
            if st.is_ready() {
                return WaitStep::Done(Ok(st));
            }
            Some(st)
        },
        None => last,
    };
    if deadline_passed {
        WaitStep::Done(Err(DeviceError::NotReady(timeout_ms, last2)))
    } else {
        WaitStep::Continue(last2)
    }
}

/// The decision after one `/deviceInfo` poll while waiting for a wake-up:
/// done as soon as the device answers, a [`DeviceError::WakeTimeout`] once
/// the budget is spent, otherwise `None` (poll again).
pub fn wake_poll_step(info_ok: bool, deadline_passed: bool, budget_ms: u64) -> (r: Option<
    Result<(), DeviceError>,
>)
    ensures
        info_ok ==> r == Some(Ok::<(), DeviceError>(())),
        !info_ok && deadline_passed ==> r == Some(
            Err::<(), DeviceError>(DeviceError::WakeTimeout(budget_ms)),
        ),
        !info_ok && !deadline_passed ==> r is None,
{
    if info_ok {
        Some(Ok(()))
    } else if deadline_passed {
        Some(Err(DeviceError::WakeTimeout(budget_ms)))
    } else {
        None
    }
}

/// `/gallerys/<gallery>/<name>`: the device path of a stored image.
pub fn gallery_path(gallery: &str, name: &str) -> (p: String)
    ensures
        p@ == "/gallerys/"@ + gallery@ + "/"@ + name@,
{
    let mut v = chars_of("/gallerys/");
    push_str(&mut v, gallery);
    push_str(&mut v, "/");
    push_str(&mut v, name);
    string_from_chars(&v)
}

/// The query of `POST /upload`: the filename, the gallery, and `show_now` as
/// `1` or `0`.
pub fn upload_query(filename: &str, gallery: &str, show_now: bool) -> (q: Vec<(String, String)>)
    ensures
        q@.len() == 3,
        q@[0].0@ == "filename"@ && q@[0].1@ == filename@,
        q@[1].0@ == "gallery"@ && q@[1].1@ == gallery@,
        q@[2].0@ == "show_now"@ && q@[2].1@ == (if show_now { "1"@ } else { "0"@ }),
{
    let mut q: Vec<(String, String)> = Vec::new();
    q.push(("filename".to_owned(), filename.to_owned()));
    q.push(("gallery".to_owned(), gallery.to_owned()));
    q.push(("show_now".to_owned(), (if show_now { "1" } else { "0" }).to_owned()));
    q
}

/// Whether `PUT /playlist` stamps the playlist's name into its JSON body:
/// only an object body without a `name` key gets one.
pub fn stamps_playlist_name(body_is_object: bool, body_has_name: bool) -> (b: bool)
    ensures
        b == (body_is_object && !body_has_name),
{
    body_is_object && !body_has_name
}

} // verus!
