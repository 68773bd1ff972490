//! The camera: it follows the player, and its view is fitted inside the
//! level so that nothing outside the level shows.

use vstd::prelude::*;
use crate::fixed::{wide_product, LIMIT, UNIT};
use crate::vec2::{Vec2, Vec3};

verus! {

/// The size of the window, in pixels.
#[derive(Clone, Copy, Debug, PartialEq, Eq, Structural)]
pub struct Window {
    pub width: u32,
    pub height: u32,
}

/// A level of the map: where it lies in the world and its size in pixels,
/// one pixel being one world unit.
#[derive(Clone, Copy, Debug, PartialEq, Eq, Structural)]
pub struct Level {
    pub transform: Vec3,
    pub px_wid: i32,
    pub px_hei: i32,
}

/// How the camera sizes what it shows.
#[derive(Clone, Copy, Debug, PartialEq, Eq, Structural)]
pub enum ScalingMode {
    WindowSize,
    Fixed { width: i64, height: i64 },
}

/// The camera: what it shows and from where. Sizes and places are in
/// thousandths of a unit.
#[derive(Clone, Copy, Debug, PartialEq, Eq, Structural)]
pub struct Camera {
    pub viewport_origin: Vec2,
    pub scaling_mode: ScalingMode,
    pub transform: Vec3,
}

/// `v` held between `low` and `high`.
pub open spec fn clamp(v: int, low: int, high: int) -> int {
    if v < low {
        low
    } else if v > high {
        high
    } else {
        v
    }
}

/// `size` rounded to the nearest multiple of `grid`, halves upward.
pub open spec fn snap(size: int, grid: int) -> int {
    (size + grid / 2) / grid * grid
}

/// Whether the level is wider, for its height, than the window.
pub open spec fn level_is_wider(window: Window, level: Level) -> bool {
    level.px_wid * window.height > level.px_hei * window.width
}

/// Width of the view in thousandths of a unit. For a level wider than the
/// window the view takes the level's height, snapped to a multiple of 9, and
/// the width that the window's shape gives it. Otherwise it takes the
/// level's width, snapped to a multiple of 16.
pub open spec fn view_width(window: Window, level: Level) -> int {
    if level_is_wider(window, level) {
        view_height(window, level) * window.width / (window.height as int)
    } else {
        snap(level.px_wid as int, 16) * UNIT
    }
}

/// Height of the view in thousandths of a unit.
pub open spec fn view_height(window: Window, level: Level) -> int {
    if level_is_wider(window, level) {
        snap(level.px_hei as int, 9) * UNIT
    } else {
        snap(level.px_wid as int, 16) * UNIT * window.height / (window.width as int)
    }
}

/// The window and the level have positive sizes, the level lies within
/// `LIMIT`, and the view is no larger than the level along the axis on
/// which the camera moves.
pub open spec fn view_fits(window: Window, level: Level) -> bool {
    &&& window.width > 0
    &&& window.height > 0
    &&& level.px_wid > 0
    &&& level.px_hei > 0
    &&& level.transform.planar().within(LIMIT as int)
    &&& if level_is_wider(window, level) {
        view_width(window, level) <= level.px_wid * UNIT
    } else {
        view_height(window, level) <= level.px_hei * UNIT
    }
}

/// The camera fitted inside the level around the player. Along the axis on
/// which the view is smaller than the level, the view is centred on the
/// player as far as the level's edges allow; along the other it starts at
/// the level's edge. The drawing layer of the camera is kept.
pub open spec fn fitted(window: Window, player: Vec3, level: Level, camera: Camera) -> Camera {
    let width = view_width(window, level);
    let height = view_height(window, level);
    let x = if level_is_wider(window, level) {
        clamp(player.x - level.transform.x - width / 2, 0, level.px_wid * UNIT - width)
    } else {
        0
    };
    let y = if level_is_wider(window, level) {
        0
    } else {
        clamp(player.y - level.transform.y - height / 2, 0, level.px_hei * UNIT - height)
    };
    Camera {
        viewport_origin: Vec2 { x: 0, y: 0 },
        scaling_mode: ScalingMode::Fixed { width: width as i64, height: height as i64 },
        transform: Vec3 {
            x: (x + level.transform.x) as i64,
            y: (y + level.transform.y) as i64,
            z: camera.transform.z,
        },
    }
}

/// Along the axis on which it moves, the fitted view never leaves the
/// level: it starts at or after the level's near edge and ends at or before
/// its far edge. Along the other axis it starts at the level's near edge.
pub proof fn lemma_view_stays_inside(window: Window, player: Vec3, level: Level, camera: Camera)
    requires
        view_fits(window, level),
        player.planar().within(LIMIT as int),
    ensures
        ({
            let fit = fitted(window, player, level, camera);
            if level_is_wider(window, level) {
                &&& level.transform.x <= fit.transform.x
                &&& fit.transform.x + view_width(window, level) <= level.transform.x + level.px_wid
                    * UNIT
                &&& fit.transform.y == level.transform.y
            } else {
                &&& level.transform.y <= fit.transform.y
                &&& fit.transform.y + view_height(window, level) <= level.transform.y
                    + level.px_hei * UNIT
                &&& fit.transform.x == level.transform.x
            }
        }),
{
}

/// Puts the camera where the player is.
pub fn following_cam(player: Vec3, camera: &mut Camera)
    ensures
        *final(camera) == (Camera { transform: player, ..*old(camera) }),
{
    camera.transform = player;
}

/// `size` rounded to the nearest multiple of `grid`, in thousandths.
fn snapped(size: i32, grid: i64) -> (r: i64)
    requires
        size > 0,
        grid == 9 || grid == 16,
    ensures
        r == snap(size as int, grid as int) * UNIT,
        0 <= r <= (size + grid) * UNIT,
{
    let cells: i64 = (size as i64 + grid / 2) / grid;
    cells * grid * UNIT
}

/// `a * b / d` for a positive `d`, or nothing if it exceeds `bound`.
fn ratio_within(a: u64, b: u64, d: u64, bound: u64) -> (r: Option<u64>)
    requires
        d > 0,
    ensures
        match r {
            Some(q) => q == a * b / (d as int) && q <= bound,
            None => a * b / (d as int) > bound,
        },
{
    let q: u128 = wide_product(a, b) / (d as u128);
    if q <= bound as u128 {
        Some(q as u64)
    } else {
        None
    }
}

/// Whether the level is wider, for its height, than the window.
fn is_wider(window: Window, level: Level) -> (r: bool)
    requires
        level.px_wid > 0,
        level.px_hei > 0,
    ensures
        r == level_is_wider(window, level),
{
    wide_product(level.px_wid as u64, window.height as u64) > wide_product(
        level.px_hei as u64,
        window.width as u64,
    )
}

/// The size of the view, if the view fits the level.
pub fn view_size(window: Window, level: Level) -> (r: Option<(i64, i64)>)
    ensures
        match r {
            Some((width, height)) => view_fits(window, level) && width == view_width(
                window,
                level,
            ) && height == view_height(window, level),
            None => !view_fits(window, level),
        },
{
    if window.width == 0 || window.height == 0 || level.px_wid <= 0 || level.px_hei <= 0 {
        return None;
    }
    if level.transform.x < -LIMIT || level.transform.x > LIMIT || level.transform.y < -LIMIT
        || level.transform.y > LIMIT {
        return None;
    }
    let wider = is_wider(window, level);
    if wider {
        let height = snapped(level.px_hei, 9);
        let bound = level.px_wid as i64 * UNIT;
        match ratio_within(height as u64, window.width as u64, window.height as u64, bound as u64) {
            Some(width) => Some((width as i64, height)),
            None => None,
        }
    } else {
        let width = snapped(level.px_wid, 16);
        let bound = level.px_hei as i64 * UNIT;
        match ratio_within(width as u64, window.height as u64, window.width as u64, bound as u64) {
            Some(height) => Some((width, height as i64)),
            None => None,
        }
    }
}

/// `v` held between `low` and `high`.
fn clamped(v: i64, low: i64, high: i64) -> (r: i64)
    requires
        low <= high,
    ensures
        r == clamp(v as int, low as int, high as int),
{
    if v < low {
        low
    } else if v > high {
        high
    } else {
        v
    }
}

/// Fits the camera inside the level around the player. Without a player
/// the camera is left as it is.
pub fn camera_fit_inside_current_level(
    window: Window,
    player: Option<Vec3>,
    level: Level,
    camera: &mut Camera,
)
    requires
        view_fits(window, level),
        player matches Some(p) ==> p.planar().within(LIMIT as int),
    ensures
        *final(camera) == match player {
            Some(p) => fitted(window, p, level, *old(camera)),
            None => *old(camera),
        },
{
    let p = match player {
        Some(p) => p,
        None => {
            return ;
        },
    };
    let size = view_size(window, level);
    let (width, height) = match size {
        Some(s) => s,
        None => {
            return ;
        },
    };
    let wider = is_wider(window, level);
    let mut x: i64 = 0;
    let mut y: i64 = 0;
    if wider {
        x = clamped(p.x - level.transform.x - width / 2, 0, level.px_wid as i64 * UNIT - width);
    } else {
        y = clamped(p.y - level.transform.y - height / 2, 0, level.px_hei as i64 * UNIT - height);
    }
    camera.viewport_origin = Vec2 { x: 0, y: 0 };
    camera.scaling_mode = ScalingMode::Fixed { width, height };
    camera.transform.x = x + level.transform.x;
    camera.transform.y = y + level.transform.y;
}

} // verus!
