//! What a capture hands to the rest of the library: the pixels, the cursor
//! layer and the metadata of the moment.
use vstd::prelude::*;
use crate::clock::CivilTime;
use crate::image::RgbaImage;
use crate::px::Px;
use crate::text::copy_optional;

verus! {

/// A rectangle of the virtual desktop, in physical pixels.
#[derive(Debug, Clone, Copy, PartialEq, Eq, Structural)]
pub struct Rect {
    pub x: i32,
    pub y: i32,
    pub width: u32,
    pub height: u32,
}

/// One monitor of the virtual desktop.
#[derive(Debug, Clone, Copy, PartialEq, Eq, Structural)]
pub struct MonitorInfo {
    pub rect: Rect,
    pub scale_factor: Px,
    pub is_primary: bool,
}

/// The circumstances of a capture.
#[derive(Debug)]
pub struct CaptureMetadata {
    /// When the capture was taken, in UTC.
    pub captured_at: CivilTime,
    pub foreground_title: Option<String>,
    pub foreground_process: Option<String>,
    pub os_version: String,
    pub monitors: Vec<MonitorInfo>,
    pub capture_rect: Rect,
}

/// The metadata as plain values.
pub struct MetadataView {
    pub captured_at: CivilTime,
    pub foreground_title: Option<Seq<char>>,
    pub foreground_process: Option<Seq<char>>,
    pub os_version: Seq<char>,
    pub monitors: Seq<MonitorInfo>,
    pub capture_rect: Rect,
}

impl View for CaptureMetadata {
    type V = MetadataView;

    open spec fn view(&self) -> MetadataView {
        MetadataView {
            captured_at: self.captured_at,
            foreground_title: crate::text::optional_text(self.foreground_title),
            foreground_process: crate::text::optional_text(self.foreground_process),
            os_version: self.os_version@,
            monitors: self.monitors@,
            capture_rect: self.capture_rect,
        }
    }
}

impl Clone for CaptureMetadata {
    fn clone(&self) -> (r: Self)
        ensures
            r@ == self@,
    {
        let mut monitors: Vec<MonitorInfo> = Vec::new();
        let mut i: usize = 0;
        while i < self.monitors.len()
            invariant
                i <= self.monitors@.len(),
                monitors@ == self.monitors@.take(i as int),
            decreases self.monitors@.len() - i,
        {
            monitors.push(self.monitors[i]);
            i += 1;
            assert(self.monitors@.take(i as int) =~= self.monitors@.take(i - 1).push(
                self.monitors@[i - 1],
            ));
        }
        assert(self.monitors@.take(i as int) =~= self.monitors@);
        CaptureMetadata {
            captured_at: self.captured_at,
            foreground_title: copy_optional(&self.foreground_title),
            foreground_process: copy_optional(&self.foreground_process),
            os_version: self.os_version.clone(),
            monitors,
            capture_rect: self.capture_rect,
        }
    }
}

/// The cursor as captured, with the position of its top-left corner relative
/// to the base image.
#[derive(Debug)]
pub struct CursorLayer {
    pub image: RgbaImage,
    pub x: i32,
    pub y: i32,
}

/// A finished capture.
#[derive(Debug)]
pub struct CaptureResult {
    pub base: RgbaImage,
    pub cursor: Option<CursorLayer>,
    pub metadata: CaptureMetadata,
}

/// What is to be captured.
#[derive(Debug, Clone, Copy, PartialEq, Eq, Structural)]
pub enum CaptureTarget {
    Fullscreen,
    /// The user drags a region, or picks a window where that is allowed.
    Interactive { allow_windows: bool },
}

/// A capture that is asked for.
#[derive(Debug, Clone, Copy, PartialEq, Eq, Structural)]
pub struct CaptureRequest {
    pub target: CaptureTarget,
    pub delay_ms: u32,
    pub include_cursor: bool,
}

} // verus!
