//! Choices around one widget render or push: the capture orientation of a
//! render configuration, the target date of a countdown, and the upload
//! timestamp.

use vstd::prelude::*;
use crate::capture::{Orientation, Rotation};
use crate::datetime::{
    chrono_date_parse_error, chrono_formatted, chrono_parsed_date, format_datetime, parse_date,
    valid_date, valid_datetime, CivilDate, LocalDateTime,
};
use crate::text::{chars_of, debug_quoted, debug_str, push_str, string_from_chars};
use crate::widgets::config::{widget_kind, PanelOrientation, RotateDirection, WidgetConfig, WidgetKind};

verus! {

/// A successful push: the fresh filename, verified as displayed, and its
/// gallery.
#[derive(Debug, Clone, PartialEq)]
pub struct PushOutcome {
    pub filename: String,
    pub gallery: String,
}

/// The message of asking for the page of an image widget.
pub open spec fn image_widget_message() -> Seq<char> {
    "image widgets are pushed directly, not rendered as HTML"@
}

/// Whether a widget has an HTML page: image widgets have none and are
/// refused with [`image_widget_message`]; every other kind is rendered.
pub fn check_renders_as_html(widget: &WidgetConfig) -> (r: Result<(), String>)
    ensures
        widget_kind(*widget) == WidgetKind::Image <==> r is Err,
        r matches Err(m) ==> m@ == image_widget_message(),
{
    match widget.kind() {
        WidgetKind::Image => {
            let m = chars_of("image widgets are pushed directly, not rendered as HTML");
            Err(string_from_chars(&m))
        },
        _ => Ok(()),
    }
}

/// The capture orientation of a panel orientation and rotate direction.
pub open spec fn capture_orientation(o: PanelOrientation, r: RotateDirection) -> Orientation {
    match o {
        PanelOrientation::Portrait => Orientation::Portrait,
        PanelOrientation::Landscape => Orientation::Landscape(
            match r {
                RotateDirection::Cw => Rotation::Cw,
                RotateDirection::Ccw => Rotation::Ccw,
            },
        ),
    }
}

/// Maps the user's orientation choice onto the capture pipeline's: portrait
/// ignores the rotate direction.
pub fn to_capture_orientation(orientation: PanelOrientation, rotate: RotateDirection) -> (r:
    Orientation)
    ensures
        r == capture_orientation(orientation, rotate),
{
    match orientation {
        PanelOrientation::Portrait => Orientation::Portrait,
        PanelOrientation::Landscape => Orientation::Landscape(
            match rotate {
                RotateDirection::Cw => Rotation::Cw,
                RotateDirection::Ccw => Rotation::Ccw,
            },
        ),
    }
}

/// The message of a target date that does not parse.
pub open spec fn bad_target_date_message(s: Seq<char>) -> Seq<char> {
    "invalid target_date "@ + debug_quoted(s) + " (expected YYYY-MM-DD): "@
        + chrono_date_parse_error(s, "%Y-%m-%d"@)
}

/// Parses a countdown's `YYYY-MM-DD` target date.
pub fn parse_target_date(s: &str) -> (r: Result<CivilDate, String>)
    ensures
        r matches Ok(d) ==> chrono_parsed_date(s@, "%Y-%m-%d"@) == Some((d.year, d.month, d.day))
            && valid_date(d),
        r matches Err(m) ==> chrono_parsed_date(s@, "%Y-%m-%d"@) is None && m@
            == bad_target_date_message(s@),
{
    match parse_date(s, "%Y-%m-%d") {
        Ok(d) => Ok(d),
        Err(e) => {
            let mut m = chars_of("invalid target_date ");
            let q = debug_str(s);
            push_str(&mut m, q.as_str());
            push_str(&mut m, " (expected YYYY-MM-DD): ");
            push_str(&mut m, e.as_str());
            Err(string_from_chars(&m))
        },
    }
}

/// The timestamp of an upload filename: `YYYYmmdd_HHMMSS` of `now`.
pub fn push_timestamp(now: &LocalDateTime) -> (s: String)
    requires
        valid_datetime(*now),
    ensures
        s@ == chrono_formatted(
            now.date.year,
            now.date.month,
            now.date.day,
            now.hour,
            now.minute,
            now.second,
            "%Y%m%d_%H%M%S"@,
        ),
{
    format_datetime(now, "%Y%m%d_%H%M%S")
}

/// The "updated at" stamp of the crypto dashboard: `YYYY-mm-dd HH:MM`.
pub fn updated_at_stamp(now: &LocalDateTime) -> (s: String)
    requires
        valid_datetime(*now),
    ensures
        s@ == chrono_formatted(
            now.date.year,
            now.date.month,
            now.date.day,
            now.hour,
            now.minute,
            now.second,
            "%Y-%m-%d %H:%M"@,
        ),
{
    format_datetime(now, "%Y-%m-%d %H:%M")
}

} // verus!
