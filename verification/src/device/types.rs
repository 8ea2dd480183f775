//! Device protocol message types.

use vstd::prelude::*;
use crate::text::{
    chars_of, decimal, dec_u64, hex_digit_char, push_chars, push_str, string_from_chars,
};

verus! {

/// The parts of a `GET /deviceInfo` reply that the application reads.
#[derive(Debug, Clone, PartialEq)]
pub struct DeviceInfo {
    pub width: u32,
    pub height: u32,
    pub battery: Option<i64>,
    /// Path of the image currently displayed, e.g.
    /// `/gallerys/default/frame_20260101_120000.jpg`.
    pub image: Option<String>,
    pub gallery: Option<String>,
    pub max_idle: Option<u64>,
}

/// `GET /state` reply. `status == 100` means Ready.
#[derive(Debug, Clone, PartialEq)]
pub struct DeviceState {
    pub status: i64,
    pub msg: String,
}

/// The firmware's "Ready" status code.
pub const STATUS_READY: i64 = 100;

impl DeviceState {
    /// Whether the device reports Ready.
    pub fn is_ready(&self) -> (r: bool)
        ensures
            r == (self.status == STATUS_READY),
    {
        self.status == STATUS_READY
    }
}

/// Body for `POST /settings`; unset fields are left out of the request.
#[derive(Debug, Clone, Default, PartialEq)]
pub struct DeviceSettingsUpdate {
    pub name: Option<String>,
    pub sleep_duration: Option<u64>,
    pub max_idle: Option<u64>,
    pub idx_wake_sens: Option<u64>,
}

/// A successful upload-and-show: the fresh filename, verified as displayed.
#[derive(Debug, Clone, PartialEq)]
pub struct UploadAndShowResult {
    pub filename: String,
    pub gallery: String,
}

/// `play_type` values accepted by `POST /show`.
#[derive(Debug, Clone, Copy, PartialEq, Eq)]
pub enum PlayType {
    Image,
    Gallery,
    Playlist,
}

/// The protocol number of a play type.
pub open spec fn play_type_code(p: PlayType) -> u8 {
    match p {
        PlayType::Image => 0,
        PlayType::Gallery => 1,
        PlayType::Playlist => 2,
    }
}

impl PlayType {
    /// The protocol number: 0 image, 1 gallery, 2 playlist.
    pub fn as_u8(self) -> (r: u8)
        ensures
            r == play_type_code(self),
    {
        match self {
            PlayType::Image => 0,
            PlayType::Gallery => 1,
            PlayType::Playlist => 2,
        }
    }
}

/// Body for `POST /show`: a single image, a gallery slideshow, or a playlist.
#[derive(Debug, Clone, PartialEq)]
pub enum ShowRequest {
    /// `{"play_type": 0, "image": <device path>}`
    Image { image: String },
    /// `{"play_type": 1, "gallery": <name>, "duration": <seconds per image>}`
    Gallery { gallery: String, duration: u32 },
    /// `{"play_type": 2, "playlist": <name>}`
    Playlist { playlist: String },
}

/// The play type that a show request carries.
pub open spec fn request_play_type(r: ShowRequest) -> PlayType {
    match r {
        ShowRequest::Image { .. } => PlayType::Image,
        ShowRequest::Gallery { .. } => PlayType::Gallery,
        ShowRequest::Playlist { .. } => PlayType::Playlist,
    }
}

/// How `serde_json` writes one character inside a string literal: quote,
/// backslash and the control characters below U+0020 are escaped (the short
/// forms where JSON has them, `\u00XX` with lower-case hexadecimal digits
/// otherwise); every other character is written as it is.
pub open spec fn json_escape(c: char) -> Seq<char> {
    if c == '"' {
        seq!['\\', '"']
    } else if c == '\\' {
        seq!['\\', '\\']
    } else if c == '\u{8}' {
        seq!['\\', 'b']
    } else if c == '\u{c}' {
        seq!['\\', 'f']
    } else if c == '\n' {
        seq!['\\', 'n']
    } else if c == '\r' {
        seq!['\\', 'r']
    } else if c == '\t' {
        seq!['\\', 't']
    } else if (c as u32) < 0x20 {
        seq!['\\', 'u', '0', '0', hex_digit_char((c as u32 / 16) as nat), hex_digit_char((c as u32 % 16) as nat)]
    } else {
        seq![c]
    }
}

/// The escaped characters of a text.
pub open spec fn json_escaped(s: Seq<char>) -> Seq<char>
    decreases s.len(),
{
    if s.len() == 0 {
        Seq::empty()
    } else {
        json_escaped(s.drop_last()) + json_escape(s.last())
    }
}

/// The JSON string literal of a text: its escaped characters in quotes.
pub open spec fn json_string(s: Seq<char>) -> Seq<char> {
    seq!['"'] + json_escaped(s) + seq!['"']
}

/// `serde_json::to_string(s)` for a string slice: its JSON string literal.
/// Serialising a `str` cannot fail.
#[verifier::external_body]
fn json_quote(s: &str) -> (q: String)
    ensures
        q@ == json_string(s@),
{
    serde_json::to_string(s).unwrap_or_default()
}

/// The `POST /show` body of a request, keys in the order the protocol lists
/// them.
pub open spec fn show_body(r: ShowRequest) -> Seq<char> {
    match r {
        ShowRequest::Image { image } => "{\"play_type\":0,\"image\":"@ + json_string(image@) + "}"@,
        ShowRequest::Gallery { gallery, duration } => "{\"play_type\":1,\"gallery\":"@
            + json_string(gallery@) + ",\"duration\":"@ + decimal(duration as nat) + "}"@,
        ShowRequest::Playlist { playlist } => "{\"play_type\":2,\"playlist\":"@ + json_string(
            playlist@,
        ) + "}"@,
    }
}

impl ShowRequest {
    /// The JSON body of `POST /show` for this request: its play type and its
    /// image, gallery (with the slideshow duration in seconds) or playlist.
    pub fn to_json(&self) -> (body: String)
        ensures
            body@ == show_body(*self),
    {
        match self {
            ShowRequest::Image { image } => {
                let mut v = chars_of("{\"play_type\":0,\"image\":");
                push_str(&mut v, json_quote(image.as_str()).as_str());
                push_str(&mut v, "}");
                string_from_chars(&v)
            },
            ShowRequest::Gallery { gallery, duration } => {
                let mut v = chars_of("{\"play_type\":1,\"gallery\":");
                push_str(&mut v, json_quote(gallery.as_str()).as_str());
                push_str(&mut v, ",\"duration\":");
                push_chars(&mut v, &dec_u64(*duration as u64));
                push_str(&mut v, "}");
                string_from_chars(&v)
            },
            ShowRequest::Playlist { playlist } => {
                let mut v = chars_of("{\"play_type\":2,\"playlist\":");
                push_str(&mut v, json_quote(playlist.as_str()).as_str());
                push_str(&mut v, "}");
                string_from_chars(&v)
            },
        }
    }

    /// The play type of this request.
    pub fn play_type(&self) -> (p: PlayType)
        ensures
            p == request_play_type(*self),
    {
        match self {
            ShowRequest::Image { .. } => PlayType::Image,
            ShowRequest::Gallery { .. } => PlayType::Gallery,
            ShowRequest::Playlist { .. } => PlayType::Playlist,
        }
    }
}

} // verus!
