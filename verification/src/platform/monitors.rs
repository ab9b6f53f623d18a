//! The monitors of the virtual desktop.
use vstd::prelude::*;
use crate::capture::{MonitorInfo, Rect};
use crate::px::Px;

verus! {

/// The flag that marks the primary monitor.
pub const PRIMARY: u32 = 1;

/// A monitor as the operating system describes it: the edges of its rectangle, its
/// flags and its scale.
#[derive(Debug, Clone, Copy, PartialEq, Eq, Structural)]
pub struct RawMonitor {
    pub left: i32,
    pub top: i32,
    pub right: i32,
    pub bottom: i32,
    pub flags: u32,
    pub scale_factor: Px,
}

/// A length that is at least 0.
pub open spec fn length(n: int) -> int {
    if n < 0 {
        0
    } else {
        n
    }
}

impl RawMonitor {
    /// The sides can be computed.
    pub open spec fn fits(self) -> bool {
        &&& i32::MIN <= self.right - self.left <= i32::MAX
        &&& i32::MIN <= self.bottom - self.top <= i32::MAX
    }

    /// The monitor in the library's terms. A rectangle that is turned inside out is
    /// empty.
    pub open spec fn info(self) -> MonitorInfo {
        MonitorInfo {
            rect: Rect {
                x: self.left,
                y: self.top,
                width: length(self.right - self.left) as u32,
                height: length(self.bottom - self.top) as u32,
            },
            scale_factor: self.scale_factor,
            is_primary: self.flags % 2 == 1,
        }
    }
}

fn clamped(n: i32) -> (r: u32)
    ensures
        r == length(n as int),
{
    if n < 0 {
        0
    } else {
        n as u32
    }
}

/// The monitors that the operating system reports, in its order.
pub fn enumerate(raw: &[RawMonitor]) -> (r: Vec<MonitorInfo>)
    requires
        forall|i: int| 0 <= i < raw@.len() ==> (#[trigger] raw@[i]).fits(),
    ensures
        r@ == raw@.map_values(|m: RawMonitor| m.info()),
{
    let mut out: Vec<MonitorInfo> = Vec::new();
    let mut i: usize = 0;
    while i < raw.len()
        invariant
            i <= raw@.len(),
            forall|k: int| 0 <= k < raw@.len() ==> (#[trigger] raw@[k]).fits(),
            out@ == raw@.take(i as int).map_values(|m: RawMonitor| m.info()),
        decreases raw@.len() - i,
    {
        let m = raw[i];
        assert(raw@[i as int].fits());
        let f = m.flags;
        assert((f & 1u32 != 0) == (f % 2 == 1)) by (bit_vector);
        out.push(
            MonitorInfo {
                rect: Rect {
                    x: m.left,
                    y: m.top,
                    width: clamped(m.right - m.left),
                    height: clamped(m.bottom - m.top),
                },
                scale_factor: m.scale_factor,
                is_primary: (m.flags & PRIMARY) != 0,
            },
        );
        assert(out@ =~= raw@.take(i + 1).map_values(|m: RawMonitor| m.info()));
        i += 1;
    }
    assert(raw@.take(i as int) =~= raw@);
    out
}

/// The rectangle of the whole virtual desktop, from its corner and its sides.
pub fn virtual_desktop_rect(x: i32, y: i32, width: i32, height: i32) -> (r: Rect)
    ensures
        r == (Rect {
            x,
            y,
            width: length(width as int) as u32,
            height: length(height as int) as u32,
        }),
{
    Rect { x, y, width: clamped(width), height: clamped(height) }
}

/// A monitor lies where its sides say: its left side and its width give its
/// right side back, its top and its height its bottom. One whose sides are the
/// wrong way round has no extent. The lowest flag marks the primary one.
pub proof fn law_monitor_lies_between_its_sides(m: RawMonitor)
    requires
        m.fits(),
    ensures
        ({
            let r = m.info().rect;
            &&& r.x == m.left && r.y == m.top
            &&& m.left <= m.right ==> r.x + r.width == m.right
            &&& m.top <= m.bottom ==> r.y + r.height == m.bottom
            &&& m.left > m.right ==> r.width == 0
            &&& m.top > m.bottom ==> r.height == 0
            &&& m.info().scale_factor == m.scale_factor
            &&& m.info().is_primary <==> m.flags - 2 * (m.flags / 2) == PRIMARY
        }),
{
}

} // verus!
