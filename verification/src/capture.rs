//! Geometry of the offscreen widget capture: the size a widget is captured
//! at and the rotation that turns a landscape capture into the
//! portrait-native panel bitmap.

use vstd::prelude::*;

verus! {

/// JPEG quality of captured widgets.
pub const JPEG_QUALITY: u8 = 92;

/// Which way a landscape capture is rotated back to portrait-native.
#[derive(Debug, Clone, Copy, PartialEq, Eq)]
pub enum Rotation {
    /// 90 degrees clockwise.
    Cw,
    /// 90 degrees counter-clockwise.
    Ccw,
}

/// How a widget is captured.
#[derive(Debug, Clone, Copy, PartialEq, Eq)]
pub enum Orientation {
    /// Captured directly at the panel size.
    Portrait,
    /// Captured at the swapped size, then rotated back.
    Landscape(Rotation),
}

/// The page a capture window loads.
#[derive(Debug, Clone, PartialEq)]
pub struct CapturePayload {
    pub html: String,
}

/// The logical size a widget is captured at: the panel size in portrait,
/// the swapped size in landscape.
pub fn capture_size(orientation: Orientation, panel_width: u32, panel_height: u32) -> (r: (
    u32,
    u32,
))
    ensures
        orientation == Orientation::Portrait ==> r == (panel_width, panel_height),
        orientation is Landscape ==> r == (panel_height, panel_width),
{
    match orientation {
        Orientation::Portrait => (panel_width, panel_height),
        Orientation::Landscape(_) => (panel_height, panel_width),
    }
}

/// The rotation applied to a capture: none for an upright preview or a
/// portrait capture; for a landscape capture bound for the panel, its
/// rotation.
pub fn panel_rotation(rotate_to_panel: bool, orientation: Orientation) -> (r: Option<Rotation>)
    ensures
        r == (match (rotate_to_panel, orientation) {
            (true, Orientation::Landscape(rot)) => Some(rot),
            _ => None,
        }),
{
    match (rotate_to_panel, orientation) {
        (true, Orientation::Landscape(rot)) => Some(rot),
        _ => None,
    }
}

/// The size of the bitmap after [`panel_rotation`]: a quarter turn swaps the
/// dimensions.
pub open spec fn rotated_size(size: (u32, u32), rot: Option<Rotation>) -> (u32, u32) {
    match rot {
        Some(_) => (size.1, size.0),
        None => size,
    }
}

/// A capture bound for the panel always ends up exactly at the panel size,
/// whatever the orientation; an upright preview keeps the capture size.
pub proof fn law_panel_bitmap_has_panel_size(
    orientation: Orientation,
    panel_width: u32,
    panel_height: u32,
)
    ensures
        ({
            let size = if orientation == Orientation::Portrait {
                (panel_width, panel_height)
            } else {
                (panel_height, panel_width)
            };
            let rot = match orientation {
                Orientation::Landscape(r) => Some(r),
                _ => None,
            };
            rotated_size(size, rot) == (panel_width, panel_height)
        }),
{
}

/// The number of captures (or capture batches) in flight. While one is, the
/// application must not exit when its last window, a hidden capture window,
/// closes.
#[derive(Debug, Default)]
pub struct CaptureState {
    pub active: usize,
}

/// Proof that a capture was counted in: handed back to
/// [`CaptureState::release`] when the capture ends.
#[derive(Debug)]
pub struct CaptureActivityGuard {
    held: bool,
}

impl CaptureState {
    /// No capture in flight.
    pub fn new() -> (s: Self)
        ensures
            s.active == 0,
    {
        CaptureState { active: 0 }
    }

    /// Counts a capture in.
    pub fn hold_active(&mut self) -> (g: CaptureActivityGuard)
        requires
            old(self).active < usize::MAX,
        ensures
            final(self).active == old(self).active + 1,
    {
        self.active = self.active + 1;
        CaptureActivityGuard { held: true }
    }

    /// Counts a capture out.
    pub fn release(&mut self, guard: CaptureActivityGuard)
        requires
            old(self).active > 0,
        ensures
            final(self).active == old(self).active - 1,
    {
        let CaptureActivityGuard { held: _ } = guard;
        self.active = self.active - 1;
    }

    /// Whether any capture is in flight.
    pub fn is_active(&self) -> (b: bool)
        ensures
            b == (self.active > 0),
    {
        self.active > 0
    }
}

/// Counting a capture in and out again leaves the count as it was; while it
/// is counted in, the application is busy.
pub proof fn law_hold_release_restores(
    before: CaptureState,
    during: CaptureState,
    after: CaptureState,
)
    requires
        during.active == before.active + 1,
        after.active == during.active - 1,
    ensures
        after.active == before.active,
        during.active > 0,
{
}

} // verus!
