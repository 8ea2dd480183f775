//! Widget configuration shared by the Widgets page and the scheduler: which
//! kind of widget, in which panel orientation, rotated which way.

use vstd::prelude::*;

verus! {

/// The kinds of widget a render configuration can describe.
#[derive(Debug, Clone, Copy, PartialEq, Eq)]
pub enum WidgetKind {
    Crypto,
    Weather,
    Countdown,
    /// A fixed image from the local library, pushed without rendering.
    Image,
}

/// The upload filename prefix of each widget kind.
pub open spec fn prefix_of(k: WidgetKind) -> Seq<char> {
    match k {
        WidgetKind::Crypto => "widget-crypto"@,
        WidgetKind::Weather => "widget-weather"@,
        WidgetKind::Countdown => "widget-countdown"@,
        WidgetKind::Image => "photo"@,
    }
}

/// Per-widget parameters. Weather coordinates are kept as the decimal text
/// of the degrees (the shortest text that reads back as the same number),
/// which the fetcher parses; nothing here computes with them.
#[derive(Debug, Clone, PartialEq)]
pub enum WidgetConfig {
    Crypto {
        /// Symbols such as `BTC` or `ETHUSDT`.
        symbols: Vec<String>,
        /// One of `24h`, `7d`, `30d`.
        range: String,
    },
    Weather {
        lat: String,
        lon: String,
        city: String,
        /// Preview-only condition override.
        force_icon: Option<String>,
    },
    Countdown {
        /// `YYYY-MM-DD`.
        target_date: String,
        title: String,
        bg_query: String,
        /// Path of a local photo; when set, no artwork is fetched.
        bg_photo: Option<String>,
    },
    /// A fixed image from the local library, pushed with the push dialog's
    /// display settings instead of being rendered.
    Image {
        library_id: String,
        /// `auto`, `fit` or `fill`.
        mode: String,
        /// `white` or `black`.
        border: String,
    },
}

/// The kind of a widget configuration.
pub open spec fn widget_kind(w: WidgetConfig) -> WidgetKind {
    match w {
        WidgetConfig::Crypto { .. } => WidgetKind::Crypto,
        WidgetConfig::Weather { .. } => WidgetKind::Weather,
        WidgetConfig::Countdown { .. } => WidgetKind::Countdown,
        WidgetConfig::Image { .. } => WidgetKind::Image,
    }
}

impl WidgetConfig {
    /// The kind of this configuration.
    pub fn kind(&self) -> (k: WidgetKind)
        ensures
            k == widget_kind(*self),
    {
        match self {
            WidgetConfig::Crypto { .. } => WidgetKind::Crypto,
            WidgetConfig::Weather { .. } => WidgetKind::Weather,
            WidgetConfig::Countdown { .. } => WidgetKind::Countdown,
            WidgetConfig::Image { .. } => WidgetKind::Image,
        }
    }

    /// Stable filename prefix (`<prefix>_<timestamp>.jpg`) so each widget
    /// kind keeps its own upload lineage on the device; library images use
    /// the manual push dialog's `photo` lineage.
    pub fn upload_prefix(&self) -> (p: &'static str)
        ensures
            p@ == prefix_of(widget_kind(*self)),
    {
        match self {
            WidgetConfig::Crypto { .. } => "widget-crypto",
            WidgetConfig::Weather { .. } => "widget-weather",
            WidgetConfig::Countdown { .. } => "widget-countdown",
            WidgetConfig::Image { .. } => "photo",
        }
    }
}

/// Pushes of different widget kinds never share an upload lineage: the
/// prefix determines the kind.
pub proof fn law_upload_prefix_distinct(a: WidgetKind, b: WidgetKind)
    ensures
        prefix_of(a) == prefix_of(b) ==> a == b,
{
    reveal_strlit("widget-crypto");
    reveal_strlit("widget-weather");
    reveal_strlit("widget-countdown");
    reveal_strlit("photo");
    if a != b {
        match (a, b) {
            (WidgetKind::Crypto, WidgetKind::Weather) | (WidgetKind::Weather, WidgetKind::Crypto) => {
                assert(prefix_of(a)[7] != prefix_of(b)[7]);
            },
            (WidgetKind::Crypto, WidgetKind::Countdown) | (
                WidgetKind::Countdown,
                WidgetKind::Crypto,
            ) => {
                assert(prefix_of(a)[8] != prefix_of(b)[8]);
            },
            (WidgetKind::Weather, WidgetKind::Countdown) | (
                WidgetKind::Countdown,
                WidgetKind::Weather,
            ) => {
                assert(prefix_of(a)[7] != prefix_of(b)[7]);
            },
            _ => {
                assert(prefix_of(a)[0] != prefix_of(b)[0]);
            },
        }
    }
}

/// Panel orientation as chosen by the user.
#[derive(Debug, Clone, Copy, PartialEq, Eq)]
pub enum PanelOrientation {
    Portrait,
    Landscape,
}

/// Which way a landscape capture is rotated back to the portrait-native
/// panel; irrelevant in portrait.
#[derive(Debug, Clone, Copy, PartialEq, Eq)]
pub enum RotateDirection {
    Cw,
    Ccw,
}

impl Default for RotateDirection {
    fn default() -> (r: Self)
        ensures
            r == RotateDirection::Cw,
    {
        RotateDirection::Cw
    }
}

/// Everything one widget render needs: the widget, and how it is captured.
#[derive(Debug, Clone, PartialEq)]
pub struct WidgetRenderConfig {
    pub widget: WidgetConfig,
    pub orientation: PanelOrientation,
    pub rotate: RotateDirection,
}

} // verus!
