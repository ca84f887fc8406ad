//! Maps the window-space cursor into world space through the camera.
use vstd::prelude::*;
use crate::geometry::{COORD_LIMIT, Point};

verus! {

/// The latest cursor position in world space.
#[derive(Clone, Copy, Debug, PartialEq, Eq)]
pub struct MouseScreenCoords {
    pub position: Point,
}

/// Window size, in thousandths of a pixel.
#[derive(Clone, Copy, Debug, PartialEq, Eq)]
pub struct WindowSize {
    pub width: u32,
    pub height: u32,
}

/// A 2D camera without rotation: where it sits in world space, and how many
/// thousandths of a world step one screen step spans.
#[derive(Clone, Copy, Debug, PartialEq, Eq)]
pub struct CameraTransform {
    pub translation: Point,
    pub scale: u32,
}

/// `v` scaled by `scale / 1000`, rounded toward zero.
pub open spec fn scaled(v: int, scale: nat) -> int {
    if v >= 0 {
        v * scale / 1000
    } else {
        -((-v) * scale / 1000)
    }
}

/// World position of a window-space cursor: centred on the window, then
/// scaled and moved by the camera.
pub open spec fn screen_to_world(cursor: Point, window: WindowSize, camera: CameraTransform) -> Point {
    Point {
        x: (camera.translation.x + scaled(cursor.x - window.width / 2, camera.scale as nat)) as i64,
        y: (camera.translation.y + scaled(cursor.y - window.height / 2, camera.scale as nat)) as i64,
    }
}

/// The cursor lies in the window.
pub open spec fn in_window(cursor: Point, window: WindowSize) -> bool {
    0 <= cursor.x <= window.width && 0 <= cursor.y <= window.height
}

impl MouseScreenCoords {
    /// The cursor at the world origin.
    pub fn new() -> (r: MouseScreenCoords)
        ensures
            r.position == (Point { x: 0, y: 0 }),
    {
        MouseScreenCoords { position: Point { x: 0, y: 0 } }
    }
}

fn scale_axis(v: i64, scale: u32) -> (r: i64)
    requires
        -0x1_0000_0000 <= v <= 0x1_0000_0000,
    ensures
        r == scaled(v as int, scale as nat),
        -0x80_0000_0000_0000 <= r <= 0x80_0000_0000_0000,
{
    let m: u128 = if v >= 0 { v as u128 } else { (-v) as u128 };
    assert(m * (scale as u128) <= 0x1_0000_0000u128 * 0x1_0000_0000u128) by (nonlinear_arith)
        requires
            m <= 0x1_0000_0000u128,
            scale <= 0xffff_ffffu32,
    ;
    let q = m * (scale as u128) / 1000;
    if v >= 0 {
        q as i64
    } else {
        -(q as i64)
    }
}

/// Updates the stored cursor position from the window cursor; where the
/// cursor is outside the window (`None`) the previous value stays.
pub fn cursor_to_world_camera(
    coords: &mut MouseScreenCoords,
    cursor: Option<Point>,
    window: WindowSize,
    camera: CameraTransform,
)
    requires
        camera.translation.bounded(),
        cursor matches Some(c) ==> in_window(c, window),
    ensures
        final(coords).position == match cursor {
            Some(c) => screen_to_world(c, window, camera),
            None => old(coords).position,
        },
{
    if let Some(c) = cursor {
        let cx = scale_axis(c.x - (window.width / 2) as i64, camera.scale);
        let cy = scale_axis(c.y - (window.height / 2) as i64, camera.scale);
        coords.position = Point { x: camera.translation.x + cx, y: camera.translation.y + cy };
    }
}

} // verus!
