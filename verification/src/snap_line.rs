//! The thin line that stands for the collapsed main window.

use vstd::prelude::*;

verus! {

/// The line's window holds no state of its own.
pub struct SnapLineManager {}

impl SnapLineManager {
    pub fn new() -> (r: Self) {
        SnapLineManager {}
    }
}

/// The region, relative to a window's outer frame, that shows only the part
/// `(vx, vy, w, h)` of its content: the content starts at the client origin
/// less the frame's corner.
pub fn exact_region(frame_left: i32, frame_top: i32, client_x: i32, client_y: i32, vx: i32, vy: i32, width: i32, height: i32) -> (r: (i32, i32, i32, i32))
    requires
        i32::MIN <= client_x - frame_left + vx,
        client_x - frame_left + vx + width <= i32::MAX,
        i32::MIN <= client_y - frame_top + vy,
        client_y - frame_top + vy + height <= i32::MAX,
        i32::MIN <= client_x - frame_left <= i32::MAX,
        i32::MIN <= client_y - frame_top <= i32::MAX,
        i32::MIN <= client_x - frame_left + vx + width,
        client_x - frame_left + vx <= i32::MAX,
        i32::MIN <= client_y - frame_top + vy + height,
        client_y - frame_top + vy <= i32::MAX,
    ensures
        r.0 == client_x - frame_left + vx,
        r.1 == client_y - frame_top + vy,
        r.2 == client_x - frame_left + vx + width,
        r.3 == client_y - frame_top + vy + height,
{
    let ox = client_x - frame_left + vx;
    let oy = client_y - frame_top + vy;
    (ox, oy, ox + width, oy + height)
}

} // verus!
