//! Integer plane geometry: points, rectangles, whole-degree angles,
//! bearings and movement with a carried sub-pixel remainder.
use vstd::prelude::*;
use crate::random::{random_range, range_next, range_pick, xorshift, Random};
use vstd::arithmetic::div_mod::{lemma_hoist_over_denominator, lemma_mod_multiples_vanish};

verus! {

/// Sub-pixel resolution of carried distances: one pixel is this many units.
pub const SUBPIXELS: u32 = 256;

/// Fixed-point scale of the sine table: a sine of one is this value.
pub const TRIG_SCALE: i64 = 1024;

/// A point in pixel space.
#[derive(Clone, Copy, Debug, PartialEq, Eq, Structural)]
pub struct Point {
    pub x: i32,
    pub y: i32,
}

impl Point {
    pub fn new(x: i32, y: i32) -> (r: Point)
        ensures
            r.x == x,
            r.y == y,
    {
        Point { x, y }
    }

    pub fn addx(&self, x: i32) -> (r: Point)
        requires
            i32::MIN <= self.x + x <= i32::MAX,
        ensures
            r.x == self.x + x,
            r.y == self.y,
    {
        Point { x: self.x + x, y: self.y }
    }

    pub fn addy(&self, y: i32) -> (r: Point)
        requires
            i32::MIN <= self.y + y <= i32::MAX,
        ensures
            r.x == self.x,
            r.y == self.y + y,
    {
        Point { x: self.x, y: self.y + y }
    }
}

/// Sine of the whole degrees 0 to 90, scaled by `TRIG_SCALE` and rounded.
pub open spec fn quarter_sine_table() -> Seq<int> {
    seq![
        0, 18, 36, 54, 71, 89, 107, 125, 143, 160, 178, 195, 213, 230, 248, 265, 282, 299, 316,
        333, 350, 367, 384, 400, 416, 433, 449, 465, 481, 496, 512, 527, 543, 558, 573, 587, 602,
        616, 630, 644, 658, 672, 685, 698, 711, 724, 737, 749, 761, 773, 784, 796, 807, 818, 828,
        839, 849, 859, 868, 878, 887, 896, 904, 912, 920, 928, 935, 943, 949, 956, 962, 968, 974,
        979, 984, 989, 994, 998, 1002, 1005, 1008, 1011, 1014, 1016, 1018, 1020, 1022, 1023, 1023,
        1024, 1024,
    ]
}

/// Scaled sine of a whole-degree angle in `[0, 360)`.
pub open spec fn sine_of(d: int) -> int {
    if d <= 90 {
        quarter_sine_table()[d]
    } else if d <= 180 {
        quarter_sine_table()[180 - d]
    } else if d <= 270 {
        -quarter_sine_table()[d - 180]
    } else {
        -quarter_sine_table()[360 - d]
    }
}

/// Scaled cosine of a whole-degree angle in `[0, 360)`.
pub open spec fn cosine_of(d: int) -> int {
    if d <= 270 {
        sine_of(d + 90 - if d + 90 >= 360 { 360int } else { 0int })
    } else {
        sine_of(d - 270)
    }
}

fn quarter_sine(d: u32) -> (r: i64)
    requires
        d <= 90,
    ensures
        r == quarter_sine_table()[d as int],
        0 <= r <= TRIG_SCALE,
{
    let table: [i64; 91] = [
        0, 18, 36, 54, 71, 89, 107, 125, 143, 160, 178, 195, 213, 230, 248, 265, 282, 299, 316,
        333, 350, 367, 384, 400, 416, 433, 449, 465, 481, 496, 512, 527, 543, 558, 573, 587, 602,
        616, 630, 644, 658, 672, 685, 698, 711, 724, 737, 749, 761, 773, 784, 796, 807, 818, 828,
        839, 849, 859, 868, 878, 887, 896, 904, 912, 920, 928, 935, 943, 949, 956, 962, 968, 974,
        979, 984, 989, 994, 998, 1002, 1005, 1008, 1011, 1014, 1016, 1018, 1020, 1022, 1023, 1023,
        1024, 1024,
    ];
    proof {
        assert(table@ =~= quarter_sine_table().map_values(|v: int| v as i64));
    }
    table[d as usize]
}

/// A direction in whole degrees, kept in `[0, 360)`. Degrees grow clockwise
/// on screen: 90 points down the y axis.
#[derive(Clone, Copy, Debug, PartialEq, Eq, Structural)]
pub struct Angle {
    pub degrees: u32,
}

impl Angle {
    pub open spec fn wf(&self) -> bool {
        self.degrees < 360
    }

    pub open spec fn deg(&self) -> int {
        self.degrees as int
    }

    /// Zero degrees: along the x axis.
    pub fn zero() -> (r: Angle)
        ensures
            r.wf(),
            r.deg() == 0,
    {
        Angle { degrees: 0 }
    }

    /// The angle of `d` degrees, brought into `[0, 360)`.
    pub fn from_degrees(d: i32) -> (r: Angle)
        ensures
            r.wf(),
            r.deg() == (d as int) % 360,
    {
        let v: i64 = d as i64 + 360 * 6_000_000;
        let n = v % 360;
        proof {
            lemma_mod_multiples_vanish(6_000_000, d as int, 360);
        }
        Angle { degrees: n as u32 }
    }

    pub fn degrees(&self) -> (r: u32)
        ensures
            r == self.degrees,
    {
        self.degrees
    }

    /// This angle turned by `d` degrees.
    pub fn turn(&self, d: i32) -> (r: Angle)
        requires
            self.wf(),
        ensures
            r.wf(),
            r.deg() == (self.deg() + d) % 360,
    {
        let v: i64 = self.degrees as i64 + d as i64 + 360 * 6_000_000;
        let n = v % 360;
        proof {
            lemma_mod_multiples_vanish(6_000_000, self.deg() + d, 360);
        }
        Angle { degrees: n as u32 }
    }

    /// Scaled sine of this angle.
    pub fn sine(&self) -> (r: i64)
        requires
            self.wf(),
        ensures
            r == sine_of(self.deg()),
    {
        let d = self.degrees;
        if d <= 90 {
            quarter_sine(d)
        } else if d <= 180 {
            quarter_sine(180 - d)
        } else if d <= 270 {
            -quarter_sine(d - 180)
        } else {
            -quarter_sine(360 - d)
        }
    }

    /// Scaled cosine of this angle.
    pub fn cosine(&self) -> (r: i64)
        requires
            self.wf(),
        ensures
            r == cosine_of(self.deg()),
    {
        let d = self.degrees;
        let q = if d <= 270 {
            Angle { degrees: if d + 90 >= 360 { d + 90 - 360 } else { d + 90 } }
        } else {
            Angle { degrees: d - 270 }
        };
        q.sine()
    }
}

/// Largest coordinate magnitude that the movement arithmetic accepts.
pub const COORD_LIMIT: i32 = 0x1000_0000;

/// Largest distance, in sub-pixel units, that one movement step accepts.
pub const MAX_STEP: u32 = 0x10_0000;

pub open spec fn coords_ok(p: Point) -> bool {
    -COORD_LIMIT <= p.x <= COORD_LIMIT && -COORD_LIMIT <= p.y <= COORD_LIMIT
}

/// How far the direction `d` agrees with the vector `(dx, dy)`.
pub open spec fn dot_at(dx: int, dy: int, d: int) -> int {
    dx * cosine_of(d) + dy * sine_of(d)
}

/// How far the direction `d` deviates sideways from the vector `(dx, dy)`.
pub open spec fn cross_at(dx: int, dy: int, d: int) -> int {
    let c = dy * cosine_of(d) - dx * sine_of(d);
    if c < 0 {
        -c
    } else {
        c
    }
}

/// `r` is the bearing of the vector `(dx, dy)`: among the whole degrees that
/// point into its half-plane, the first one that deviates least from it. The
/// zero vector has bearing zero.
pub open spec fn is_bearing_of(dx: int, dy: int, r: int) -> bool {
    &&& 0 <= r < 360
    &&& if dx == 0 && dy == 0 {
        r == 0
    } else {
        &&& dot_at(dx, dy, r) > 0
        &&& forall|e: int|
            0 <= e < 360 && #[trigger] dot_at(dx, dy, e) > 0 ==> cross_at(dx, dy, r) <= cross_at(
                dx,
                dy,
                e,
            )
        &&& forall|e: int|
            0 <= e < r && #[trigger] dot_at(dx, dy, e) > 0 ==> cross_at(dx, dy, r) < cross_at(
                dx,
                dy,
                e,
            )
    }
}

/// The bearing of the vector `(dx, dy)` in whole degrees.
pub open spec fn bearing_of(dx: int, dy: int) -> int {
    choose|r: int| is_bearing_of(dx, dy, r)
}

/// A vector has exactly one bearing.
pub proof fn lemma_bearing_unique(dx: int, dy: int, a: int, b: int)
    requires
        is_bearing_of(dx, dy, a),
        is_bearing_of(dx, dy, b),
    ensures
        a == b,
{
    if !(dx == 0 && dy == 0) {
        if a < b {
            assert(dot_at(dx, dy, a) > 0);
        } else if b < a {
            assert(dot_at(dx, dy, b) > 0);
        }
    }
}

pub open spec fn is_floor_sqrt(n: int, r: int) -> bool {
    0 <= r && r * r <= n < (r + 1) * (r + 1)
}

/// The integer square root, rounded down.
pub open spec fn floor_sqrt(n: int) -> int {
    choose|r: int| is_floor_sqrt(n, r)
}

/// A number has exactly one integer square root.
pub proof fn lemma_floor_sqrt_unique(n: int, a: int, b: int)
    requires
        is_floor_sqrt(n, a),
        is_floor_sqrt(n, b),
    ensures
        a == b,
{
    if a < b {
        assert((a + 1) * (a + 1) <= b * b) by (nonlinear_arith)
            requires 0 <= a, a + 1 <= b,
        {}
    } else if b < a {
        assert((b + 1) * (b + 1) <= a * a) by (nonlinear_arith)
            requires 0 <= b, b + 1 <= a,
        {}
    }
}

/// Integer square root of `n`, rounded down.
pub fn isqrt(n: u64) -> (r: u64)
    requires
        n < 0x4000_0000_0000_0000,
    ensures
        r == floor_sqrt(n as int),
        is_floor_sqrt(n as int, r as int),
{
    let mut lo: u64 = 0;
    let mut hi: u64 = 0x8000_0000;
    assert(hi * hi == 0x4000_0000_0000_0000) by (nonlinear_arith)
        requires hi == 0x8000_0000,
    {}
    while hi - lo > 1
        invariant
            lo < hi <= 0x8000_0000,
            lo * lo <= n,
            n < hi * hi,
        decreases hi - lo,
    {
        let mid = lo + (hi - lo) / 2;
        assert(mid * mid <= 0x4000_0000_0000_0000) by (nonlinear_arith)
            requires mid <= 0x8000_0000,
        {}
        if mid * mid <= n {
            lo = mid;
        } else {
            hi = mid;
        }
    }
    proof {
        assert(hi == lo + 1);
        assert(is_floor_sqrt(n as int, lo as int));
        lemma_floor_sqrt_unique(n as int, lo as int, floor_sqrt(n as int));
    }
    lo
}

pub open spec fn distance_squared(p: Point, q: Point) -> int {
    (p.x - q.x) * (p.x - q.x) + (p.y - q.y) * (p.y - q.y)
}

fn scaled(v: i64, c: i64) -> (r: i64)
    requires
        -0x2_0000_0000 <= v <= 0x2_0000_0000,
        -TRIG_SCALE <= c <= TRIG_SCALE,
    ensures
        r == v * c,
        -0x800_0000_0000 <= r <= 0x800_0000_0000,
{
    assert(-0x800_0000_0000 <= v * c <= 0x800_0000_0000) by (nonlinear_arith)
        requires -0x2_0000_0000 <= v <= 0x2_0000_0000, -1024 <= c <= 1024,
    {}
    v * c
}

/// Scaled cross product magnitude of the vector against direction `e`.
fn deviation(dx: i64, dy: i64, e: Angle) -> (r: (i64, i64))
    requires
        e.wf(),
        -0x1_0000_0000 <= dx <= 0x1_0000_0000,
        -0x1_0000_0000 <= dy <= 0x1_0000_0000,
    ensures
        r.0 == dot_at(dx as int, dy as int, e.deg()),
        r.1 == cross_at(dx as int, dy as int, e.deg()),
{
    let c = e.cosine();
    let s = e.sine();
    let dot = scaled(dx, c) + scaled(dy, s);
    let cross = scaled(dy, c) - scaled(dx, s);
    (dot, if cross < 0 { -cross } else { cross })
}

pub open spec fn point_spec(x: int, y: int) -> Point {
    Point { x: x as i32, y: y as i32 }
}

/// Sub-pixel units times the trigonometric scale.
pub open spec fn step_divisor() -> int {
    SUBPIXELS as int * TRIG_SCALE as int
}

/// Where a step of `dist` sub-pixel units from `p` in direction `a` lands,
/// each coordinate rounded down to a pixel.
pub open spec fn step_target(p: Point, dist: int, a: Angle) -> Point {
    point_spec(
        p.x + (dist * cosine_of(a.deg())) / step_divisor(),
        p.y + (dist * sine_of(a.deg())) / step_divisor(),
    )
}

/// The part of a step of `dist` sub-pixel units that reaching `q` from `p`
/// did not use: all of it when the point did not change.
pub open spec fn step_remainder(p: Point, q: Point, dist: int) -> int {
    if p == q {
        dist
    } else {
        let used = floor_sqrt(distance_squared(p, q) * (SUBPIXELS as int * SUBPIXELS as int));
        if dist - used > 0 {
            dist - used
        } else {
            0
        }
    }
}

/// Offset in whole pixels, rounded down, of a scaled sub-pixel distance.
fn pixel_offset(v: i64) -> (r: i32)
    requires
        -0x4000_0000 <= v <= 0x4000_0000,
    ensures
        r == v as int / step_divisor(),
        -0x1000 <= r <= 0x1000,
{
    let shifted = v + 0x4000_0000;
    let q = shifted / 0x4_0000;
    proof {
        lemma_hoist_over_denominator(v as int, 0x1000, 0x4_0000);
    }
    (q - 0x1000) as i32
}

impl Point {
    /// Bearing from this point to `other`, in whole degrees.
    pub fn angle_to(&self, other: &Point) -> (r: Angle)
        ensures
            r.wf(),
            is_bearing_of(other.x - self.x, other.y - self.y, r.deg()),
            r.deg() == bearing_of(other.x - self.x, other.y - self.y),
    {
        let dx: i64 = other.x as i64 - self.x as i64;
        let dy: i64 = other.y as i64 - self.y as i64;
        let ghost gx = dx as int;
        let ghost gy = dy as int;
        let mut best: u32 = 0;
        let mut best_err: i64 = 0;
        let mut found = false;
        let mut e: u32 = 0;
        while e < 360
            invariant
                e <= 360,
                best < 360,
                gx == dx,
                gy == dy,
                -0x1_0000_0000 <= dx <= 0x1_0000_0000,
                -0x1_0000_0000 <= dy <= 0x1_0000_0000,
                found ==> best < e && dot_at(gx, gy, best as int) > 0 && best_err == cross_at(
                    gx,
                    gy,
                    best as int,
                ),
                found ==> forall|k: int|
                    0 <= k < e && #[trigger] dot_at(gx, gy, k) > 0 ==> best_err <= cross_at(
                        gx,
                        gy,
                        k,
                    ),
                found ==> forall|k: int|
                    0 <= k < best && #[trigger] dot_at(gx, gy, k) > 0 ==> best_err < cross_at(
                        gx,
                        gy,
                        k,
                    ),
                !found ==> best == 0,
                !found ==> forall|k: int| 0 <= k < e ==> #[trigger] dot_at(gx, gy, k) <= 0,
            decreases 360 - e,
        {
            let (dot, err) = deviation(dx, dy, Angle { degrees: e });
            if dot > 0 && (!found || err < best_err) {
                best = e;
                best_err = err;
                found = true;
            }
            e = e + 1;
        }
        proof {
            if !(gx == 0 && gy == 0) {
                assert(found) by {
                    assert(quarter_sine_table()[0] == 0);
                    assert(quarter_sine_table()[90] == 1024);
                    assert(sine_of(0) == 0 && cosine_of(0) == 1024);
                    assert(sine_of(90) == 1024 && cosine_of(90) == 0);
                    assert(sine_of(180) == 0 && cosine_of(180) == -1024);
                    assert(sine_of(270) == -1024 && cosine_of(270) == 0);
                    if gx > 0 {
                        assert(dot_at(gx, gy, 0) > 0);
                    } else if gx < 0 {
                        assert(dot_at(gx, gy, 180) > 0);
                    } else if gy > 0 {
                        assert(dot_at(gx, gy, 90) > 0);
                    } else {
                        assert(dot_at(gx, gy, 270) > 0);
                    }
                }
            }
        }
        proof {
            lemma_bearing_unique(gx, gy, best as int, bearing_of(gx, gy));
        }
        Angle { degrees: best }
    }

    /// Whole-pixel distance from this point to `other`, rounded down.
    pub fn distance(&self, other: &Point) -> (r: u64)
        requires
            coords_ok(*self),
            coords_ok(*other),
        ensures
            r == floor_sqrt(distance_squared(*self, *other)),
            is_floor_sqrt(distance_squared(*self, *other), r as int),
    {
        let dx: i64 = self.x as i64 - other.x as i64;
        let dy: i64 = self.y as i64 - other.y as i64;
        assert(0 <= dx * dx <= 0x400_0000_0000_0000 && 0 <= dy * dy <= 0x400_0000_0000_0000)
            by (nonlinear_arith)
            requires -0x2000_0000 <= dx <= 0x2000_0000, -0x2000_0000 <= dy <= 0x2000_0000,
        {}
        let n = (dx * dx + dy * dy) as u64;
        isqrt(n)
    }

    /// The point reached by going `dist` sub-pixel units in direction
    /// `angle`, with the part of the distance that the whole-pixel move did
    /// not use.
    pub fn point_from_distance_and_angle(&self, dist: u32, angle: Angle) -> (r: (Point, u32))
        requires
            angle.wf(),
            coords_ok(*self),
            dist <= MAX_STEP,
        ensures
            r.0 == step_target(*self, dist as int, angle),
            r.1 == step_remainder(*self, r.0, dist as int),
            r.1 <= dist,
            -0x1000 <= r.0.x - self.x <= 0x1000,
            -0x1000 <= r.0.y - self.y <= 0x1000,
    {
        let c = angle.cosine();
        let s = angle.sine();
        assert(-0x4000_0000 <= dist * c <= 0x4000_0000 && -0x4000_0000 <= dist * s <= 0x4000_0000)
            by (nonlinear_arith)
            requires 0 <= dist <= 0x10_0000, -1024 <= c <= 1024, -1024 <= s <= 1024,
        {}
        let ox = pixel_offset(scaled(dist as i64, c));
        let oy = pixel_offset(scaled(dist as i64, s));
        let target = Point { x: self.x + ox, y: self.y + oy };
        if target == *self {
            (target, dist)
        } else {
            let ax = ox as i64;
            let ay = oy as i64;
            assert(0 <= ax * ax <= 0x100_0000 && 0 <= ay * ay <= 0x100_0000) by (nonlinear_arith)
                requires -0x1000 <= ax <= 0x1000, -0x1000 <= ay <= 0x1000,
            {}
            let n: u64 = ((ax * ax + ay * ay) as u64) * 0x1_0000;
            let used = isqrt(n);
            proof {
                let px = self.x as int;
                let py = self.y as int;
                assert(distance_squared(*self, target) == ax * ax + ay * ay) by (nonlinear_arith)
                    requires target.x == px + ax, target.y == py + ay,
                        distance_squared(*self, target) == (px - target.x) * (px - target.x) + (py - target.y) * (py - target.y),
                {}
            }
            if (dist as u64) > used {
                (target, (dist as u64 - used) as u32)
            } else {
                (target, 0)
            }
        }
    }
}

/// An axis-aligned rectangle: its top-left point and its size in pixels.
#[derive(Clone, Copy, Debug, PartialEq, Eq, Structural)]
pub struct Rectangle {
    pub point: Point,
    pub width: i32,
    pub height: i32,
}

/// `p` lies inside `r`, edges included.
pub open spec fn rect_contains(r: Rectangle, p: Point) -> bool {
    r.point.x <= p.x < r.point.x + r.width && r.point.y <= p.y < r.point.y + r.height
}

impl Rectangle {
    pub fn new(point: Point, width: i32, height: i32) -> (r: Rectangle)
        ensures
            r == (Rectangle { point, width, height }),
    {
        Rectangle { point, width, height }
    }

    pub fn x(&self) -> (r: i32)
        ensures
            r == self.point.x,
    {
        self.point.x
    }

    pub fn y(&self) -> (r: i32)
        ensures
            r == self.point.y,
    {
        self.point.y
    }

    /// The last pixel inside the rectangle.
    pub fn bottom_right(&self) -> (r: Point)
        requires
            i32::MIN <= self.point.x + self.width - 1 <= i32::MAX,
            i32::MIN <= self.point.y + self.height - 1 <= i32::MAX,
        ensures
            r.x == self.point.x + self.width - 1,
            r.y == self.point.y + self.height - 1,
    {
        let x = (self.point.x as i64 + self.width as i64 - 1) as i32;
        let y = (self.point.y as i64 + self.height as i64 - 1) as i32;
        Point { x, y }
    }
}

impl Point {
    /// This point moved by up to half of `modifier` on each axis, at random.
    pub fn scatter(&self, modifier: u32, rng: &mut Random) -> (r: Point)
        requires
            coords_ok(*self),
            modifier <= 0x1000,
        ensures
            r.x == self.x + range_pick(xorshift(old(rng).state), 0, modifier) - modifier / 2,
            r.y == self.y + range_pick(
                xorshift(range_next(old(rng).state, 0, modifier)),
                0,
                modifier,
            ) - modifier / 2,
            final(rng).state == range_next(range_next(old(rng).state, 0, modifier), 0, modifier),
            -(modifier as int) <= r.x - self.x <= modifier,
            -(modifier as int) <= r.y - self.y <= modifier,
    {
        let half = (modifier / 2) as i32;
        let dx = random_range(rng, 0, modifier) as i32 - half;
        let dy = random_range(rng, 0, modifier) as i32 - half;
        Point { x: self.x + dx, y: self.y + dy }
    }
}

} // verus!
