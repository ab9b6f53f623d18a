//! Flattening a capture and encoding it as PNG.
use vstd::prelude::*;
use crate::capture::{CaptureResult, CursorLayer};
use crate::codec::encode_png;
use crate::editor::document::{document_with_id, Document, EncodeFault, NodeId};
use crate::image::{draw_over, RgbaImage};
use crate::px::Rgba;

verus! {

/// The flattened capture at one pixel: the cursor over the base image.
pub open spec fn flattened_at(result: &CaptureResult, x: int, y: int) -> Rgba {
    match result.cursor {
        Some(c) => crate::image::drawn_over(
            &result.base,
            &c.image,
            c.x as int,
            c.y as int,
            x,
            y,
        ),
        None => result.base.at(x, y),
    }
}

/// Composites the cursor layer onto an image; what lies outside is cut off.
pub fn composite_over(dst: &mut RgbaImage, cursor: &CursorLayer)
    requires
        old(dst).wf(),
        cursor.image.wf(),
    ensures
        final(dst).wf(),
        final(dst).same_size(old(dst)),
        forall|x: int, y: int|
            final(dst).inside(x, y) ==> #[trigger] final(dst).at(x, y) == crate::image::drawn_over(
                old(dst),
                &cursor.image,
                cursor.x as int,
                cursor.y as int,
                x,
                y,
            ),
{
    draw_over(dst, &cursor.image, cursor.x as i64, cursor.y as i64);
}

/// Composites the cursor layer onto a copy of the base image.
pub fn flatten(result: &CaptureResult) -> (r: RgbaImage)
    requires
        crate::editor::document::capture_wf(result),
    ensures
        r.wf(),
        r.same_size(&result.base),
        forall|x: int, y: int|
            r.inside(x, y) ==> #[trigger] r.at(x, y) == flattened_at(result, x, y),
{
    let mut out = result.base.clone();
    match &result.cursor {
        Some(c) => composite_over(&mut out, c),
        None => {},
    }
    out
}

/// Why a capture could not be saved.
#[derive(Debug, Clone, Copy, PartialEq, Eq, Structural)]
pub struct PngRefused;

/// The PNG file of the flattened capture.
pub fn save_png(result: &CaptureResult) -> (r: Result<Vec<u8>, PngRefused>)
    requires
        crate::editor::document::capture_wf(result),
    ensures
        exists|flat: RgbaImage| #[trigger]
            flat.wf() && flat.same_size(&result.base) && (forall|x: int, y: int|
                flat.inside(x, y) ==> #[trigger] flat.at(x, y) == flattened_at(result, x, y))
                && match r {
                Ok(bytes) => crate::editor::document::png_of(flat) == Some(bytes@),
                Err(_) => crate::editor::document::png_of(flat) is None,
            } && (crate::codec::is_ordinary(&result.base) ==> r is Ok && crate::codec::reads_as(
                r->Ok_0@,
                &flat,
            )),
{
    let flat = flatten(result);
    match encode_png(&flat) {
        Some(bytes) => Ok(bytes),
        None => Err(PngRefused),
    }
}

/// The document stored beside the PNG, with the cursor on its own layer.
pub fn save_from_capture(result: &CaptureResult, id: NodeId) -> (r: Result<Document, EncodeFault>)
    requires
        crate::editor::document::capture_wf(result),
    ensures
        crate::editor::document::outcome_view(r) == crate::editor::document::document_of(
            *result,
            id,
        ),
        crate::editor::document::is_ordinary_capture(result) ==> r is Ok
            && crate::editor::document::holds_capture(r->Ok_0@, result),
{
    document_with_id(result, id)
}

/// Compositing touches no pixel outside the cursor, and none where the cursor
/// is fully transparent.
pub proof fn law_composite_local(result: &CaptureResult, c: CursorLayer, x: int, y: int)
    requires
        result.cursor == Some(c),
        !c.image.inside(x - c.x, y - c.y) || c.image.at(x - c.x, y - c.y).a == 0,
    ensures
        flattened_at(result, x, y) == result.base.at(x, y),
{
    crate::image::law_blend_extremes(result.base.at(x, y), c.image.at(x - c.x, y - c.y));
}

} // verus!
