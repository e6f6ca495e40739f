//! The viewport over the world: world and screen coordinates, and a smoothed
//! follow that keeps the view inside the world.
use vstd::prelude::*;
use crate::geometry::Point;

verus! {

/// Width of the screen in pixels.
pub const SCREEN_WIDTH: i32 = 240;

/// Height of the screen in pixels.
pub const SCREEN_HEIGHT: i32 = 160;

/// The viewport: `position` is the world point shown at the screen's
/// top-left corner.
#[derive(Clone, Copy, Debug, PartialEq, Eq, Structural)]
pub struct Camera {
    pub position: Point,
    pub world_width: i32,
    pub world_height: i32,
}

pub open spec fn to_screen(c: Camera, p: Point) -> Point {
    Point { x: (p.x - c.position.x) as i32, y: (p.y - c.position.y) as i32 }
}

pub open spec fn to_world(c: Camera, p: Point) -> Point {
    Point { x: (p.x + c.position.x) as i32, y: (p.y + c.position.y) as i32 }
}

pub open spec fn fits_i32(v: int) -> bool {
    i32::MIN <= v <= i32::MAX
}

/// The largest camera coordinate on an axis: the world's extent past one
/// screen, or zero where the world is no larger than the screen.
pub open spec fn axis_upper(world: int, screen: int) -> int {
    if world - screen > 0 {
        world - screen
    } else {
        0
    }
}

pub open spec fn clamp_axis(v: int, upper: int) -> int {
    if v < 0 {
        0
    } else if v > upper {
        upper
    } else {
        v
    }
}

/// `smoothness` percent of the distance `d`, rounded toward zero.
pub open spec fn smoothed(d: int, smoothness: int) -> int {
    if d >= 0 {
        d * smoothness / 100
    } else {
        -((-d) * smoothness / 100)
    }
}

/// Camera position on one axis after following a target at `target`.
pub open spec fn follow_axis(pos: int, target: int, screen: int, world: int, smoothness: int) -> int {
    clamp_axis(pos + smoothed(target - screen / 2 - pos, smoothness), axis_upper(world, screen))
}

/// Screen and world coordinates convert into each other without loss.
pub proof fn lemma_screen_world_inverse(c: Camera, p: Point)
    ensures
        fits_i32(p.x + c.position.x) && fits_i32(p.y + c.position.y) ==> to_screen(
            c,
            to_world(c, p),
        ) == p,
        fits_i32(p.x - c.position.x) && fits_i32(p.y - c.position.y) ==> to_world(
            c,
            to_screen(c, p),
        ) == p,
{
}

impl Camera {
    pub fn new(world_width: i32, world_height: i32) -> (r: Camera)
        ensures
            r.position == (Point { x: 0, y: 0 }),
            r.world_width == world_width,
            r.world_height == world_height,
    {
        Camera { position: Point { x: 0, y: 0 }, world_width, world_height }
    }

    pub fn set_camera_position(&mut self, position: Point)
        ensures
            *final(self) == (Camera { position, ..*old(self) }),
    {
        self.position = position;
    }

    pub fn world_to_screen(&self, world_pos: Point) -> (r: Point)
        requires
            fits_i32(world_pos.x - self.position.x),
            fits_i32(world_pos.y - self.position.y),
        ensures
            r == to_screen(*self, world_pos),
    {
        Point { x: world_pos.x - self.position.x, y: world_pos.y - self.position.y }
    }

    pub fn screen_to_world(&self, screen_pos: Point) -> (r: Point)
        requires
            fits_i32(screen_pos.x + self.position.x),
            fits_i32(screen_pos.y + self.position.y),
        ensures
            r == to_world(*self, screen_pos),
    {
        Point { x: screen_pos.x + self.position.x, y: screen_pos.y + self.position.y }
    }

    fn clamp_coordinate(v: i64, world: i32, screen: i32) -> (r: i32)
        requires
            0 < screen,
        ensures
            r == clamp_axis(v as int, axis_upper(world as int, screen as int)),
    {
        let extent = world as i64 - screen as i64;
        let upper: i64 = if extent > 0 { extent } else { 0 };
        if v < 0 {
            0
        } else if v > upper {
            upper as i32
        } else {
            v as i32
        }
    }

    /// Moves the camera `smoothness` percent of the way toward centring
    /// `target_pos` on the screen, then keeps it inside the world.
    pub fn follow_player(&mut self, target_pos: Point, smoothness: u32)
        requires
            smoothness <= 100,
        ensures
            final(self).world_width == old(self).world_width,
            final(self).world_height == old(self).world_height,
            final(self).position.x == follow_axis(
                old(self).position.x as int,
                target_pos.x as int,
                SCREEN_WIDTH as int,
                old(self).world_width as int,
                smoothness as int,
            ),
            final(self).position.y == follow_axis(
                old(self).position.y as int,
                target_pos.y as int,
                SCREEN_HEIGHT as int,
                old(self).world_height as int,
                smoothness as int,
            ),
            0 <= final(self).position.x <= axis_upper(
                old(self).world_width as int,
                SCREEN_WIDTH as int,
            ),
            0 <= final(self).position.y <= axis_upper(
                old(self).world_height as int,
                SCREEN_HEIGHT as int,
            ),
    {
        let target_x: i64 = target_pos.x as i64 - (SCREEN_WIDTH / 2) as i64;
        let target_y: i64 = target_pos.y as i64 - (SCREEN_HEIGHT / 2) as i64;
        let new_x = self.position.x as i64 + smooth(target_x - self.position.x as i64, smoothness);
        let new_y = self.position.y as i64 + smooth(target_y - self.position.y as i64, smoothness);
        self.position = Point {
            x: Self::clamp_coordinate(new_x, self.world_width, SCREEN_WIDTH),
            y: Self::clamp_coordinate(new_y, self.world_height, SCREEN_HEIGHT),
        };
    }
}

fn smooth(d: i64, smoothness: u32) -> (r: i64)
    requires
        -0x2_0000_0000 <= d <= 0x2_0000_0000,
        smoothness <= 100,
    ensures
        r == smoothed(d as int, smoothness as int),
        -0x2_0000_0000 <= r <= 0x2_0000_0000,
{
    let s = smoothness as i64;
    if d >= 0 {
        assert(0 <= d * s <= 100 * 0x2_0000_0000) by (nonlinear_arith)
            requires 0 <= d <= 0x2_0000_0000, 0 <= s <= 100,
        {}
        assert(d * s / 100 <= d) by (nonlinear_arith)
            requires 0 <= d, 0 <= s <= 100,
        {}
        d * s / 100
    } else {
        let e = -d;
        assert(0 <= e * s <= 100 * 0x2_0000_0000) by (nonlinear_arith)
            requires 0 <= e <= 0x2_0000_0000, 0 <= s <= 100,
        {}
        assert(e * s / 100 <= e) by (nonlinear_arith)
            requires 0 <= e, 0 <= s <= 100,
        {}
        -(e * s / 100)
    }
}

} // verus!
