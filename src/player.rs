//! A player's agent: a light that moves with the touch pad through open
//! tiles, points its attraction target ahead, and takes a color from the
//! buttons.
use vstd::prelude::*;
use crate::geometry::{
    coords_ok, floor_sqrt, is_bearing_of, step_remainder, step_target, Angle, Point, MAX_STEP,
    SUBPIXELS,
};
use crate::palette::{Palette, WORLD_HEIGHT, WORLD_WIDTH};
use crate::camera::{to_screen, Camera};
use crate::random::Random;
use crate::world::{World, WorldView};

verus! {

/// Pad readings lie in `[-PAD_LIMIT, PAD_LIMIT]` on each axis.
pub const PAD_LIMIT: i32 = 1000;

/// Pad magnitude that a reading must exceed to move the player.
pub const MOVE_THRESHOLD: u32 = 100;

/// Distance from the player to its attraction target, in sub-pixel units.
pub const ATTRACTION_LENGTH: u32 = 20 * SUBPIXELS;

/// Sub-pixel units moved per frame for each unit of pad magnitude, as a
/// fraction: `SPEED_NUMERATOR / SPEED_DENOMINATOR`.
pub const SPEED_NUMERATOR: u32 = 512;

pub const SPEED_DENOMINATOR: u32 = 1000;

/// With the light cone on, the player moves at this fraction of its speed:
/// `LIGHT_SLOWDOWN_NUMERATOR / LIGHT_SLOWDOWN_DENOMINATOR`.
pub const LIGHT_SLOWDOWN_NUMERATOR: u32 = 2;

pub const LIGHT_SLOWDOWN_DENOMINATOR: u32 = 5;

/// Opaque identity of a participant.
#[derive(Clone, Copy, Debug, PartialEq, Eq, Structural)]
pub struct PeerId(pub u8);

/// A touch pad reading: x to the right, y up.
#[derive(Clone, Copy, Debug, PartialEq, Eq, Structural)]
pub struct Pad {
    pub x: i32,
    pub y: i32,
}

/// Which of the four direction buttons are held.
#[derive(Clone, Copy, Debug, PartialEq, Eq, Structural)]
pub struct Buttons {
    pub n: bool,
    pub e: bool,
    pub s: bool,
    pub w: bool,
}

impl Buttons {
    pub fn none() -> (r: Buttons)
        ensures
            !r.any_spec(),
    {
        Buttons { n: false, e: false, s: false, w: false }
    }

    pub open spec fn any_spec(&self) -> bool {
        self.n || self.e || self.s || self.w
    }

    pub open spec fn pressed_since(&self, previous: Buttons) -> Buttons {
        Buttons {
            n: self.n && !previous.n,
            e: self.e && !previous.e,
            s: self.s && !previous.s,
            w: self.w && !previous.w,
        }
    }

    /// The buttons held now that were not held in `previous`.
    pub fn just_pressed(&self, previous: &Buttons) -> (r: Buttons)
        ensures
            r == self.pressed_since(*previous),
    {
        Buttons {
            n: self.n && !previous.n,
            e: self.e && !previous.e,
            s: self.s && !previous.s,
            w: self.w && !previous.w,
        }
    }

    pub fn any(&self) -> (r: bool)
        ensures
            r == self.any_spec(),
    {
        self.n || self.e || self.s || self.w
    }
}

/// Light color after the buttons go from `previous` to `current`: a newly
/// pressed button picks its color (west over south over east over north),
/// and releasing all of them puts the light out.
pub open spec fn light_color(color: Option<Palette>, previous: Buttons, current: Buttons) -> Option<
    Palette,
> {
    let pressed = current.pressed_since(previous);
    if !current.any_spec() {
        None
    } else if pressed.w {
        Some(Palette::BrightBlue)
    } else if pressed.s {
        Some(Palette::BrightGreen)
    } else if pressed.e {
        Some(Palette::BrightMagenta)
    } else if pressed.n {
        Some(Palette::SoftRed)
    } else {
        color
    }
}

/// The sign of `amount`: the one-pixel step toward it.
pub fn movement_to_step(amount: i32) -> (r: i32)
    ensures
        r == if amount > 0 {
            1int
        } else if amount < 0 {
            -1int
        } else {
            0int
        },
{
    if amount > 0 {
        1
    } else if amount < 0 {
        -1
    } else {
        0
    }
}

/// Where `k` one-pixel steps of `step` along x from `p` end: each step is
/// taken only into an open point.
pub open spec fn sweep_x(w: WorldView, p: Point, step: int, k: nat) -> Point
    decreases k,
{
    if k == 0 {
        p
    } else {
        let q = sweep_x(w, p, step, (k - 1) as nat);
        let t = Point { x: (q.x + step) as i32, y: q.y };
        if !w.blocked(t) {
            t
        } else {
            q
        }
    }
}

/// Where `k` one-pixel steps of `step` along y from `p` end.
pub open spec fn sweep_y(w: WorldView, p: Point, step: int, k: nat) -> Point
    decreases k,
{
    if k == 0 {
        p
    } else {
        let q = sweep_y(w, p, step, (k - 1) as nat);
        let t = Point { x: q.x, y: (q.y + step) as i32 };
        if !w.blocked(t) {
            t
        } else {
            q
        }
    }
}

pub open spec fn sign(v: int) -> int {
    if v > 0 {
        1
    } else if v < 0 {
        -1
    } else {
        0
    }
}

pub open spec fn abs(v: int) -> nat {
    if v < 0 {
        (-v) as nat
    } else {
        v as nat
    }
}

/// A sweep ends where it started or at an open point.
pub proof fn lemma_sweep_x_open(w: WorldView, p: Point, step: int, k: nat)
    ensures
        sweep_x(w, p, step, k) == p || !w.blocked(sweep_x(w, p, step, k)),
    decreases k,
{
    if k > 0 {
        lemma_sweep_x_open(w, p, step, (k - 1) as nat);
    }
}

/// A sweep ends where it started or at an open point.
pub proof fn lemma_sweep_y_open(w: WorldView, p: Point, step: int, k: nat)
    ensures
        sweep_y(w, p, step, k) == p || !w.blocked(sweep_y(w, p, step, k)),
    decreases k,
{
    if k > 0 {
        lemma_sweep_y_open(w, p, step, (k - 1) as nat);
    }
}

proof fn lemma_sweep_x_bounds(w: WorldView, p: Point, step: int, k: nat)
    requires
        -1 <= step <= 1,
        coords_ok(p),
        k <= 0x1000_0000,
    ensures
        sweep_x(w, p, step, k).y == p.y,
        step == 0 ==> sweep_x(w, p, step, k) == p,
        step > 0 ==> p.x <= sweep_x(w, p, step, k).x <= p.x + k,
        step < 0 ==> p.x - k <= sweep_x(w, p, step, k).x <= p.x,
    decreases k,
{
    if k > 0 {
        lemma_sweep_x_bounds(w, p, step, (k - 1) as nat);
    }
}

proof fn lemma_sweep_y_bounds(w: WorldView, p: Point, step: int, k: nat)
    requires
        -1 <= step <= 1,
        coords_ok(p),
        k <= 0x1000_0000,
    ensures
        sweep_y(w, p, step, k).x == p.x,
        step == 0 ==> sweep_y(w, p, step, k) == p,
        step > 0 ==> p.y <= sweep_y(w, p, step, k).y <= p.y + k,
        step < 0 ==> p.y - k <= sweep_y(w, p, step, k).y <= p.y,
    decreases k,
{
    if k > 0 {
        lemma_sweep_y_bounds(w, p, step, (k - 1) as nat);
    }
}

pub open spec fn in_field(p: Point) -> bool {
    0 <= p.x < WORLD_WIDTH && 0 <= p.y < WORLD_HEIGHT
}

/// A point brought into the playing field.
pub open spec fn clamp_to_field(p: Point) -> Point {
    Point {
        x: if p.x < 0 {
            0
        } else if p.x >= WORLD_WIDTH {
            (WORLD_WIDTH - 1) as i32
        } else {
            p.x
        },
        y: if p.y < 0 {
            0
        } else if p.y >= WORLD_HEIGHT {
            (WORLD_HEIGHT - 1) as i32
        } else {
            p.y
        },
    }
}

/// Brings a point into the playing field.
pub fn clamp_point_to_field(p: Point) -> (r: Point)
    ensures
        r == clamp_to_field(p),
        in_field(r),
{
    Point {
        x: if p.x < 0 {
            0
        } else if p.x >= WORLD_WIDTH {
            WORLD_WIDTH - 1
        } else {
            p.x
        },
        y: if p.y < 0 {
            0
        } else if p.y >= WORLD_HEIGHT {
            WORLD_HEIGHT - 1
        } else {
            p.y
        },
    }
}

/// Sub-pixel distance that a pad magnitude moves the player in one frame,
/// before the carried remainder is added.
pub open spec fn stride(speed: int, light_on: bool) -> int {
    let base = speed * SPEED_NUMERATOR / SPEED_DENOMINATOR as int;
    if light_on {
        base * LIGHT_SLOWDOWN_NUMERATOR / LIGHT_SLOWDOWN_DENOMINATOR as int
    } else {
        base
    }
}

pub open spec fn min_int(a: int, b: int) -> int {
    if a < b {
        a
    } else {
        b
    }
}

#[derive(Clone, Copy, Debug)]
pub struct Player {
    pub attraction_target: Point,
    pub buttons: Buttons,
    pub color: Option<Palette>,
    pub direction: Angle,
    pub peer: PeerId,
    pub points: i32,
    pub position: Point,
    /// Carried sub-pixel distance.
    pub remainder: u32,
    /// Pad magnitude of the last reading.
    pub speed: u32,
}

/// The point a light at `p` facing `d` attracts fireflies to.
pub open spec fn attraction_point(p: Point, d: Angle) -> Point {
    step_target(p, ATTRACTION_LENGTH as int, d)
}

impl Player {
    pub open spec fn wf(&self) -> bool {
        &&& in_field(self.position)
        &&& self.direction.wf()
        &&& self.remainder <= MAX_STEP
        &&& coords_ok(self.attraction_target)
    }

    /// A player at a random open point of the world, facing along x; at the
    /// origin when the world has no open point.
    pub fn new(peer: PeerId, world: &World, rng: &mut Random) -> (r: Player)
        requires
            world@.wf(),
        ensures
            r.wf(),
            r.peer == peer,
            r.points == 0,
            r.color.is_none(),
            r.direction.deg() == 0,
            r.remainder == 0,
            r.speed == 0,
            r.attraction_target == attraction_point(r.position, r.direction),
            !world@.blocked(r.position) || forall|p: Point|
                in_field(p) ==> #[trigger] world@.blocked(p),
    {
        let direction = Angle::zero();
        let position = match world.random_unblocked_point(rng) {
            Some(p) => p,
            None => Point { x: 0, y: 0 },
        };
        proof {
            assert forall|p: Point| in_field(p) implies crate::geometry::rect_contains(
                World::rect_spec(),
                p,
            ) by {}
        }
        Player {
            attraction_target: Self::calculate_attraction_target(position, direction),
            buttons: Buttons::none(),
            color: None,
            direction,
            peer,
            points: 0,
            position,
            remainder: 0,
            speed: 0,
        }
    }

    /// Zero points, and a fresh random open point when the world has one.
    pub fn reset(&mut self, world: &World, rng: &mut Random)
        requires
            world@.wf(),
            old(self).wf(),
        ensures
            final(self).wf(),
            final(self).points == 0,
            !world@.blocked(final(self).position) || (final(self).position == old(self).position
                && forall|p: Point| in_field(p) ==> #[trigger] world@.blocked(p)),
            (Player { points: 0, position: final(self).position, ..*old(self) }) == *final(self),
    {
        self.points = 0;
        match world.random_unblocked_point(rng) {
            Some(p) => {
                self.position = p;
            },
            None => {
                assert forall|p: Point| in_field(p) implies #[trigger] world@.blocked(p) by {
                    assert(crate::geometry::rect_contains(World::rect_spec(), p));
                }
            },
        }
    }

    pub fn calculate_attraction_target(position: Point, direction: Angle) -> (r: Point)
        requires
            in_field(position),
            direction.wf(),
        ensures
            r == attraction_point(position, direction),
            coords_ok(r),
    {
        let (target, _remainder) = position.point_from_distance_and_angle(
            ATTRACTION_LENGTH,
            direction,
        );
        target
    }

    pub fn move_horizontally(&mut self, target_position: Point, world: &World)
        requires
            world@.wf(),
            in_field(old(self).position),
            in_field(target_position),
        ensures
            *final(self) == (Player {
                position: sweep_x(
                    world@,
                    old(self).position,
                    sign(target_position.x - old(self).position.x),
                    abs(target_position.x - old(self).position.x),
                ),
                ..*old(self)
            }),
            final(self).position.y == old(self).position.y,
            in_field(final(self).position),
    {
        let ghost start = self.position;
        let amount = target_position.x - self.position.x;
        let step = movement_to_step(amount);
        let n: i32 = if amount < 0 { -amount } else { amount };
        let mut i: i32 = 0;
        while i < n
            invariant
                0 <= i <= n,
                n == abs(amount as int),
                amount == target_position.x - start.x,
                step == sign(amount as int),
                world@.wf(),
                in_field(start),
                in_field(target_position),
                *self == (Player {
                    position: sweep_x(world@, start, step as int, i as nat),
                    ..*old(self)
                }),
                start == old(self).position,
            decreases n - i,
        {
            proof {
                lemma_sweep_x_bounds(world@, start, step as int, i as nat);
            }
            let test_pos = self.position.addx(step);
            if !world.is_blocked(test_pos) {
                self.position.x = test_pos.x;
            }
            i = i + 1;
        }
        proof {
            lemma_sweep_x_bounds(world@, start, step as int, n as nat);
        }
    }

    pub fn move_vertically(&mut self, target_position: Point, world: &World)
        requires
            world@.wf(),
            in_field(old(self).position),
            in_field(target_position),
        ensures
            *final(self) == (Player {
                position: sweep_y(
                    world@,
                    old(self).position,
                    sign(target_position.y - old(self).position.y),
                    abs(target_position.y - old(self).position.y),
                ),
                ..*old(self)
            }),
            final(self).position.x == old(self).position.x,
            in_field(final(self).position),
    {
        let ghost start = self.position;
        let amount = target_position.y - self.position.y;
        let step = movement_to_step(amount);
        let n: i32 = if amount < 0 { -amount } else { amount };
        let mut i: i32 = 0;
        while i < n
            invariant
                0 <= i <= n,
                n == abs(amount as int),
                amount == target_position.y - start.y,
                step == sign(amount as int),
                world@.wf(),
                in_field(start),
                in_field(target_position),
                *self == (Player {
                    position: sweep_y(world@, start, step as int, i as nat),
                    ..*old(self)
                }),
                start == old(self).position,
            decreases n - i,
        {
            proof {
                lemma_sweep_y_bounds(world@, start, step as int, i as nat);
            }
            let test_pos = self.position.addy(step);
            if !world.is_blocked(test_pos) {
                self.position.y = test_pos.y;
            }
            i = i + 1;
        }
        proof {
            lemma_sweep_y_bounds(world@, start, step as int, n as nat);
        }
    }

    /// Reads the pad: its magnitude becomes the speed and its bearing, with
    /// y turned to point down, the direction. A reading above the threshold
    /// moves the player one pixel at a time toward the point that the step
    /// reaches, kept inside the field, stopping at solid tiles.
    pub fn update_position(&mut self, world: &World, pad: Option<Pad>)
        requires
            world@.wf(),
            old(self).wf(),
            pad.is_some() ==> pad_ok(pad.unwrap()),
        ensures
            final(self).wf(),
            pad.is_none() ==> *final(self) == *old(self),
            pad.is_some() ==> position_update(*old(self), *final(self), world@, pad.unwrap()),
    {
        if let Some(pad) = pad {
            let origin = Point { x: 0, y: 0 };
            let speed = origin.distance(&Point { x: pad.x, y: pad.y });
            let direction = origin.angle_to(&Point { x: pad.x, y: -pad.y });
            proof {
                let (px, py) = (pad.x as int, pad.y as int);
                assert(crate::geometry::distance_squared(origin, Point { x: pad.x, y: pad.y })
                    == (0 - px) * (0 - px) + (0 - py) * (0 - py));
                assert((0 - px) * (0 - px) + (0 - py) * (0 - py) == px * px + py * py)
                    by (nonlinear_arith);
                lemma_pad_radius(pad, speed as int);
            }
            self.direction = direction;
            self.speed = speed as u32;
            if self.speed > MOVE_THRESHOLD {
                let base = self.speed * SPEED_NUMERATOR / SPEED_DENOMINATOR;
                let stride = if self.color.is_some() {
                    base * LIGHT_SLOWDOWN_NUMERATOR / LIGHT_SLOWDOWN_DENOMINATOR
                } else {
                    base
                };
                let total = stride as u64 + self.remainder as u64;
                let distance: u32 = if total > MAX_STEP as u64 { MAX_STEP } else { total as u32 };
                let (new_position, remainder) = self.position.point_from_distance_and_angle(
                    distance,
                    self.direction,
                );
                self.remainder = remainder;
                let target = clamp_point_to_field(new_position);
                let old_position = self.position;
                self.move_horizontally(target, world);
                self.move_vertically(target, world);
                if self.position != old_position {
                    self.attraction_target = Self::calculate_attraction_target(
                        self.position,
                        self.direction,
                    );
                }
            } else {
                self.remainder = 0;
            }
        }
    }

    /// Takes the light color from the buttons.
    pub fn update_light_cone(&mut self, buttons: Buttons)
        ensures
            *final(self) == (Player {
                color: light_color(old(self).color, old(self).buttons, buttons),
                buttons,
                ..*old(self)
            }),
    {
        let just_pressed = buttons.just_pressed(&self.buttons);
        self.buttons = buttons;
        if just_pressed.n {
            self.color = Some(Palette::SoftRed);
        }
        if just_pressed.e {
            self.color = Some(Palette::BrightMagenta);
        }
        if just_pressed.s {
            self.color = Some(Palette::BrightGreen);
        }
        if just_pressed.w {
            self.color = Some(Palette::BrightBlue);
        }
        if !self.buttons.any() {
            self.color = None;
        }
    }

    /// One frame: movement from the pad, then the light from the buttons.
    /// The player never enters a solid tile.
    pub fn update(&mut self, world: &World, pad: Option<Pad>, buttons: Buttons)
        requires
            world@.wf(),
            old(self).wf(),
            pad.is_some() ==> pad_ok(pad.unwrap()),
        ensures
            final(self).wf(),
            player_frame(*old(self), *final(self), world@, pad, buttons),
            final(self).position != old(self).position ==> !world@.blocked(final(self).position),
    {
        let ghost start = *self;
        self.update_position(world, pad);
        let ghost moved = *self;
        proof {
            if pad.is_some() {
                lemma_position_update_open(start, moved, world@, pad.unwrap());
            }
        }
        self.update_light_cone(buttons);
    }
}

/// What one frame of input does to a player: the pad moves it, the buttons
/// set its light, and its points and identity stay.
pub open spec fn player_frame(
    before: Player,
    after: Player,
    w: WorldView,
    pad: Option<Pad>,
    buttons: Buttons,
) -> bool {
    &&& after.color == light_color(before.color, before.buttons, buttons)
    &&& after.buttons == buttons
    &&& match pad {
        None => after == (Player { color: after.color, buttons, ..before }),
        Some(pad) => position_update(
            before,
            Player { color: before.color, buttons: before.buttons, ..after },
            w,
            pad,
        ),
    }
}

pub open spec fn pad_ok(pad: Pad) -> bool {
    -PAD_LIMIT <= pad.x <= PAD_LIMIT && -PAD_LIMIT <= pad.y <= PAD_LIMIT
}

/// Magnitude of a pad reading, rounded down.
pub open spec fn pad_radius(pad: Pad) -> int {
    floor_sqrt(pad.x * pad.x + pad.y * pad.y)
}

proof fn lemma_pad_radius(pad: Pad, r: int)
    requires
        pad_ok(pad),
        crate::geometry::is_floor_sqrt(pad.x * pad.x + pad.y * pad.y, r),
    ensures
        r == pad_radius(pad),
        0 <= r <= 1415,
{
    let n = pad.x * pad.x + pad.y * pad.y;
    assert(0 <= n <= 2_000_000) by (nonlinear_arith)
        requires -1000 <= pad.x <= 1000, -1000 <= pad.y <= 1000, n == pad.x * pad.x + pad.y * pad.y,
    {}
    crate::geometry::lemma_floor_sqrt_unique(n, r, pad_radius(pad));
    if r > 1415 {
        assert(r * r >= 1416 * 1416) by (nonlinear_arith)
            requires r > 1415,
        {}
    }
}

/// Where a move that aims at `target` from `p` ends: first along x, then
/// along y, one open pixel at a time.
pub open spec fn swept(w: WorldView, p: Point, target: Point) -> Point {
    let px = sweep_x(w, p, sign(target.x - p.x), abs(target.x - p.x));
    sweep_y(w, px, sign(target.y - px.y), abs(target.y - px.y))
}

/// What one pad reading does to a player's movement state.
pub open spec fn position_update(before: Player, after: Player, w: WorldView, pad: Pad) -> bool {
    let speed = pad_radius(pad);
    &&& after.speed == speed
    &&& is_bearing_of(pad.x as int, -pad.y, after.direction.deg())
    &&& after.color == before.color
    &&& after.buttons == before.buttons
    &&& after.points == before.points
    &&& after.peer == before.peer
    &&& if speed > MOVE_THRESHOLD {
        let distance = min_int(
            stride(speed, before.color.is_some()) + before.remainder,
            MAX_STEP as int,
        );
        let reached = step_target(before.position, distance, after.direction);
        &&& after.remainder == step_remainder(before.position, reached, distance)
        &&& after.position == swept(w, before.position, clamp_to_field(reached))
        &&& after.attraction_target == if after.position != before.position {
            attraction_point(after.position, after.direction)
        } else {
            before.attraction_target
        }
    } else {
        &&& after.remainder == 0
        &&& after.position == before.position
        &&& after.attraction_target == before.attraction_target
    }
}

/// A player's position changes only to an open point.
pub proof fn lemma_position_update_open(before: Player, after: Player, w: WorldView, pad: Pad)
    requires
        position_update(before, after, w, pad),
    ensures
        after.position != before.position ==> !w.blocked(after.position),
{
    let speed = pad_radius(pad);
    if speed > MOVE_THRESHOLD {
        let distance = min_int(
            stride(speed, before.color.is_some()) + before.remainder,
            MAX_STEP as int,
        );
        let target = clamp_to_field(step_target(before.position, distance, after.direction));
        let p = before.position;
        let px = sweep_x(w, p, sign(target.x - p.x), abs(target.x - p.x));
        lemma_sweep_x_open(w, p, sign(target.x - p.x), abs(target.x - p.x));
        lemma_sweep_y_open(w, px, sign(target.y - px.y), abs(target.y - px.y));
    }
}

/// Length of the drawn light cone, in sub-pixel units.
pub const CONE_LENGTH: u32 = 25 * SUBPIXELS;

/// Half the opening of the drawn light cone, in degrees.
pub const CONE_HALF_ANGLE: i32 = 9;

impl Player {
    /// The light cone as a screen triangle: the lamp, the two far corners,
    /// and the light's color; none while the light is off.
    pub fn light_cone(&self, camera: &Camera) -> (r: Option<(Point, Point, Point, Palette)>)
        requires
            self.wf(),
            coords_ok(camera.position),
            coords_ok(to_screen(*camera, self.position)),
        ensures
            r.is_none() == self.color.is_none(),
            r.is_some() ==> {
                let (a, b, c, color) = r.unwrap();
                &&& a == to_screen(*camera, self.position)
                &&& b == step_target(
                    a,
                    CONE_LENGTH as int,
                    Angle { degrees: ((self.direction.deg() - CONE_HALF_ANGLE) % 360) as u32 },
                )
                &&& c == step_target(
                    a,
                    CONE_LENGTH as int,
                    Angle { degrees: ((self.direction.deg() + CONE_HALF_ANGLE) % 360) as u32 },
                )
                &&& Some(color) == self.color
            },
    {
        match self.color {
            Some(color) => {
                let a = camera.world_to_screen(self.position);
                let (b, _) = a.point_from_distance_and_angle(
                    CONE_LENGTH,
                    self.direction.turn(-CONE_HALF_ANGLE),
                );
                let (c, _) = a.point_from_distance_and_angle(
                    CONE_LENGTH,
                    self.direction.turn(CONE_HALF_ANGLE),
                );
                Some((a, b, c, color))
            },
            None => None,
        }
    }

    /// Where the lamp's circle is drawn on screen, and its fill: the light's
    /// color, or yellow while the light is off.
    pub fn lamp(&self, camera: &Camera) -> (r: (Point, Palette))
        requires
            coords_ok(camera.position),
            coords_ok(self.position),
        ensures
            r.0 == (Point {
                x: (self.position.x - camera.position.x - 2) as i32,
                y: (self.position.y - camera.position.y - 2) as i32,
            }),
            r.1 == match self.color {
                Some(c) => c,
                None => Palette::Yellow,
            },
    {
        let p = camera.world_to_screen(self.position);
        let fill = match self.color {
            Some(c) => c,
            None => Palette::Yellow,
        };
        (Point { x: p.x - 2, y: p.y - 2 }, fill)
    }
}

} // verus!
