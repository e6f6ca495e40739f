//! The static tile grid: which tiles block movement, which score, and the
//! point queries and spawn sampling built on them.
use vstd::prelude::*;
use crate::camera::{to_screen, Camera, SCREEN_HEIGHT, SCREEN_WIDTH};
use crate::geometry::{coords_ok, Point, Rectangle, rect_contains};
use crate::palette::{WORLD_HEIGHT, WORLD_WIDTH};
use crate::random::{random_range, range_next, range_pick, xorshift, Random};

verus! {

/// Width of a tile in pixels.
pub const TILE_WIDTH: i32 = 16;

/// Height of a tile in pixels.
pub const TILE_HEIGHT: i32 = 16;

/// Most rows, and most tiles per row, that a world may have: tile pixel
/// positions stay within the coordinate range of the geometry.
pub const MAX_GRID: usize = 0x100_0000;

/// Most tiles that a world may have: tile indices are computed in `i32`.
pub const MAX_TILES: usize = 0x7FFF_FFFF;

/// How many random points a spawn search draws before it scans.
pub const SAMPLE_ATTEMPTS: u32 = 64;

/// Sprites of floor and path tiles: these do not block movement.
pub open spec fn is_open_sprite(s: i32) -> bool {
    s == 0 || s == 16 || s == 17 || s == 24 || s == 25
}

/// Sprites of the score pad.
pub open spec fn is_goal_sprite(s: i32) -> bool {
    s == 24 || s == 25
}

/// One cell of the grid; `position` is its top-left pixel.
#[derive(Clone, Copy, Debug, PartialEq, Eq, Structural)]
pub struct Tile {
    pub position: Point,
    pub sprite_index: i32,
    pub solid: bool,
    pub goal: bool,
}

pub open spec fn tile_spec(gx: int, gy: int, sprite: i32) -> Tile {
    Tile {
        position: Point { x: (gx * 16) as i32, y: (gy * 16) as i32 },
        sprite_index: sprite,
        solid: !is_open_sprite(sprite),
        goal: is_goal_sprite(sprite),
    }
}

impl Tile {
    pub fn new(grid_x: i32, grid_y: i32, sprite_index: i32) -> (r: Tile)
        requires
            0 <= grid_x < MAX_GRID,
            0 <= grid_y < MAX_GRID,
        ensures
            r == tile_spec(grid_x as int, grid_y as int, sprite_index),
    {
        let open = sprite_index == 0 || sprite_index == 16 || sprite_index == 17
            || sprite_index == 24 || sprite_index == 25;
        Tile {
            position: Point { x: grid_x * TILE_WIDTH, y: grid_y * TILE_HEIGHT },
            sprite_index,
            solid: !open,
            goal: sprite_index == 24 || sprite_index == 25,
        }
    }

    pub fn is_solid(&self) -> (r: bool)
        ensures
            r == self.solid,
    {
        self.solid
    }

    pub fn is_goal(&self) -> (r: bool)
        ensures
            r == self.goal,
    {
        self.goal
    }
}

/// What a world is: its size in tiles and its tiles, row by row.
pub struct WorldView {
    pub width: int,
    pub height: int,
    pub tiles: Seq<Tile>,
}

/// The tile grid.
pub struct World {
    tiles: Vec<Tile>,
    width: i32,
    height: i32,
}

impl View for World {
    type V = WorldView;

    closed spec fn view(&self) -> WorldView {
        WorldView { width: self.width as int, height: self.height as int, tiles: self.tiles@ }
    }
}

/// The tile coordinate of a pixel coordinate: the pixel divided by the tile
/// size, rounded toward zero.
pub open spec fn tile_coord(v: int) -> int {
    if v >= 0 {
        v / 16
    } else {
        -((-v) / 16)
    }
}

impl WorldView {
    /// Sizes fit, and tile `i` stands at column `i % width`, row `i / width`.
    pub open spec fn wf(&self) -> bool {
        &&& 0 <= self.width <= MAX_GRID
        &&& 0 <= self.height <= MAX_GRID
        &&& self.width * self.height <= MAX_TILES
        &&& self.tiles.len() == self.width * self.height
        &&& forall|gx: int, gy: int|
            0 <= gx < self.width && 0 <= gy < self.height ==> #[trigger] self.tiles[gy * self.width
                + gx] == tile_spec(gx, gy, self.tiles[gy * self.width + gx].sprite_index)
    }

    pub open spec fn on_grid(&self, gx: int, gy: int) -> bool {
        0 <= gx < self.width && 0 <= gy < self.height
    }

    pub open spec fn tile_at(&self, gx: int, gy: int) -> Tile {
        self.tiles[gy * self.width + gx]
    }

    /// The point lies in a solid tile; points off the grid are open.
    pub open spec fn blocked(&self, p: Point) -> bool {
        let gx = tile_coord(p.x as int);
        let gy = tile_coord(p.y as int);
        self.on_grid(gx, gy) && self.tile_at(gx, gy).solid
    }

    /// The point lies in a goal tile; points off the grid score nothing.
    pub open spec fn in_goal(&self, p: Point) -> bool {
        let gx = tile_coord(p.x as int);
        let gy = tile_coord(p.y as int);
        self.on_grid(gx, gy) && self.tile_at(gx, gy).goal
    }

    /// Width of the grid in pixels.
    pub open spec fn pixel_width(&self) -> int {
        self.width * 16
    }

    /// Height of the grid in pixels.
    pub open spec fn pixel_height(&self) -> int {
        self.height * 16
    }
}

/// The first open point among `attempts` uniform draws inside `rect`, x
/// then y each time, from generator state `s`; none when all are blocked.
pub open spec fn first_open_draw(w: WorldView, rect: Rectangle, s: u32, attempts: nat) -> Option<
    Point,
>
    decreases attempts,
{
    if attempts == 0 {
        None
    } else {
        let x_lo = rect.point.x as u32;
        let x_hi = (rect.point.x + rect.width - 1) as u32;
        let y_lo = rect.point.y as u32;
        let y_hi = (rect.point.y + rect.height - 1) as u32;
        let s1 = range_next(s, x_lo, x_hi);
        let p = Point {
            x: range_pick(xorshift(s), x_lo, x_hi) as i32,
            y: range_pick(xorshift(s1), y_lo, y_hi) as i32,
        };
        if !w.blocked(p) {
            Some(p)
        } else {
            first_open_draw(w, rect, range_next(s1, y_lo, y_hi), (attempts - 1) as nat)
        }
    }
}

/// Rows of the grid read as a rectangle of sprite indices.
pub open spec fn grid_is_rectangular(data: Seq<&[i32]>) -> bool {
    forall|i: int| 0 <= i < data.len() ==> (#[trigger] data[i])@.len() == data[0]@.len()
}

fn tile_index(x: i32, y: i32, width: i32, height: i32) -> (r: usize)
    requires
        0 <= x < width <= MAX_GRID,
        0 <= y < height <= MAX_GRID,
        width * height <= MAX_TILES,
    ensures
        r == y * width + x,
{
    assert(0 <= y * width && y * width + x < width * height) by (nonlinear_arith)
        requires 0 <= y < height, 0 <= x < width,
    {}
    (y * width + x) as usize
}

impl World {
    /// The rectangle covering the playing field.
    pub fn rect() -> (r: Rectangle)
        ensures
            r == (Rectangle { point: Point { x: 0, y: 0 }, width: WORLD_WIDTH, height: WORLD_HEIGHT }),
    {
        Rectangle { point: Point { x: 0, y: 0 }, width: WORLD_WIDTH, height: WORLD_HEIGHT }
    }

    /// A world from rows of sprite indices. Empty input gives an empty world.
    pub fn new_from_2d_array(data: &[&[i32]]) -> (r: World)
        requires
            data@.len() <= MAX_GRID,
            data@.len() > 0 ==> data@[0]@.len() <= MAX_GRID,
            data@.len() > 0 ==> data@.len() * data@[0]@.len() <= MAX_TILES,
            grid_is_rectangular(data@),
        ensures
            r@.wf(),
            r@.height == data@.len(),
            r@.width == if data@.len() == 0 { 0 } else { data@[0]@.len() as int },
            forall|gx: int, gy: int|
                r@.on_grid(gx, gy) ==> #[trigger] r@.tile_at(gx, gy) == tile_spec(
                    gx,
                    gy,
                    data@[gy]@[gx],
                ),
    {
        let height = data.len() as i32;
        let width: i32 = if data.len() == 0 { 0 } else { data[0].len() as i32 };
        assert(width * height <= MAX_TILES) by (nonlinear_arith)
            requires data@.len() > 0 ==> data@.len() * data@[0]@.len() <= MAX_TILES,
                height == data@.len(), width == (if data@.len() == 0 { 0 } else { data@[0]@.len() as int }),
        {}
        let mut tiles: Vec<Tile> = Vec::new();
        let mut y: i32 = 0;
        while y < height
            invariant
                0 <= y <= height,
                height == data@.len() <= MAX_GRID,
                width * height <= MAX_TILES,
                width == if data@.len() == 0 { 0 } else { data@[0]@.len() as int },
                0 <= width <= MAX_GRID,
                grid_is_rectangular(data@),
                tiles@.len() == y * width,
                forall|gx: int, gy: int|
                    0 <= gx < width && 0 <= gy < y ==> #[trigger] tiles@[gy * width + gx]
                        == tile_spec(gx, gy, data@[gy]@[gx]),
            decreases height - y,
        {
            let row: &[i32] = data[y as usize];
            assert(row@.len() == width);
            let mut x: i32 = 0;
            while x < width
                invariant
                    0 <= x <= width,
                    0 <= y < height,
                    height == data@.len() <= MAX_GRID,
                    0 <= width <= MAX_GRID,
                    width * height <= MAX_TILES,
                    row@ == data@[y as int]@,
                    row@.len() == width,
                    tiles@.len() == y * width + x,
                    forall|gx: int, gy: int|
                        0 <= gx < width && 0 <= gy < y ==> #[trigger] tiles@[gy * width + gx]
                            == tile_spec(gx, gy, data@[gy]@[gx]),
                    forall|gx: int| 0 <= gx < x ==> #[trigger] tiles@[y * width + gx]
                        == tile_spec(gx, y as int, data@[y as int]@[gx]),
                decreases width - x,
            {
                let ghost before = tiles@;
                tiles.push(Tile::new(x, y, row[x as usize]));
                proof {
                    assert forall|gx: int, gy: int|
                        0 <= gx < width && 0 <= gy < y implies #[trigger] tiles@[gy * width + gx]
                            == tile_spec(gx, gy, data@[gy]@[gx]) by {
                        assert(gy * width + gx < y * width) by (nonlinear_arith)
                            requires 0 <= gx < width, 0 <= gy < y,
                        {}
                        assert(tiles@[gy * width + gx] == before[gy * width + gx]);
                    }
                }
                x = x + 1;
            }
            proof {
                assert forall|gx: int, gy: int|
                    0 <= gx < width && 0 <= gy < y + 1 implies #[trigger] tiles@[gy * width + gx]
                        == tile_spec(gx, gy, data@[gy]@[gx]) by {
                    if gy == y {
                    }
                }
                assert((y + 1) * width == y * width + width) by (nonlinear_arith);
            }
            y = y + 1;
        }
        let r = World { tiles, width, height };
        proof {
            assert(tiles@.len() == width * height) by (nonlinear_arith)
                requires tiles@.len() == y * width, y == height,
            {}
            assert forall|gx: int, gy: int|
                0 <= gx < r@.width && 0 <= gy < r@.height implies #[trigger] r@.tiles[gy * r@.width
                    + gx] == tile_spec(gx, gy, r@.tiles[gy * r@.width + gx].sprite_index) by {
                assert(tiles@[gy * width + gx] == tile_spec(gx, gy, data@[gy]@[gx]));
            }
        }
        r
    }

    pub fn width(&self) -> (r: i32)
        ensures
            r == self@.width,
    {
        self.width
    }

    pub fn height(&self) -> (r: i32)
        ensures
            r == self@.height,
    {
        self.height
    }

    fn convert_pos_to_index(x: i32, y: i32, width: i32, height: i32) -> (r: Option<usize>)
        requires
            0 <= width <= MAX_GRID,
            0 <= height <= MAX_GRID,
            width * height <= MAX_TILES,
        ensures
            r.is_some() == (0 <= x < width && 0 <= y < height),
            r.is_some() ==> r.unwrap() as int == y * width + x,
    {
        if x >= 0 && x < width && y >= 0 && y < height {
            Some(tile_index(x, y, width, height))
        } else {
            None
        }
    }

    fn get_tile(&self, x: i32, y: i32) -> (r: Option<Tile>)
        requires
            self@.wf(),
        ensures
            r.is_some() == self@.on_grid(x as int, y as int),
            r.is_some() ==> r.unwrap() == self@.tile_at(x as int, y as int),
    {
        match Self::convert_pos_to_index(x, y, self.width, self.height) {
            Some(index) => {
                assert(index < self.tiles@.len()) by {
                    assert(y * self.width + x < self.width * self.height) by (nonlinear_arith)
                        requires 0 <= x < self.width, 0 <= y < self.height,
                    {}
                }
                assert(index as int == y * self.width + x);
                assert(self@.tile_at(x as int, y as int) == self.tiles@[index as int]);
                Some(self.tiles[index])
            },
            None => None,
        }
    }

    /// The point lies in a solid tile. Points off the grid are open.
    pub fn is_blocked(&self, point: Point) -> (r: bool)
        requires
            self@.wf(),
        ensures
            r == self@.blocked(point),
    {
        match self.get_tile(tile_coord_of(point.x), tile_coord_of(point.y)) {
            Some(t) => t.is_solid(),
            None => false,
        }
    }

    /// The point lies in a goal tile. Points off the grid are in none.
    pub fn is_in_goal(&self, point: Point) -> (r: bool)
        requires
            self@.wf(),
        ensures
            r == self@.in_goal(point),
    {
        match self.get_tile(tile_coord_of(point.x), tile_coord_of(point.y)) {
            Some(t) => t.is_goal(),
            None => false,
        }
    }

    /// A random open point of the playing field, if it has one.
    pub fn random_unblocked_point(&self, rng: &mut Random) -> (r: Option<Point>)
        requires
            self@.wf(),
        ensures
            match r {
                Some(p) => rect_contains(World::rect_spec(), p) && !self@.blocked(p),
                None => forall|p: Point|
                    rect_contains(World::rect_spec(), p) ==> #[trigger] self@.blocked(p),
            },
    {
        self.random_unblocked_point_in_rectangle(Self::rect(), rng)
    }

    pub open spec fn rect_spec() -> Rectangle {
        Rectangle { point: Point { x: 0, y: 0 }, width: WORLD_WIDTH, height: WORLD_HEIGHT }
    }

    /// A random open point inside `rect`. Uniform draws are tried first; if
    /// none of them is open, the rectangle is scanned, so the result is
    /// `None` only when every point of it is blocked.
    pub fn random_unblocked_point_in_rectangle(&self, rect: Rectangle, rng: &mut Random) -> (r:
        Option<Point>)
        requires
            self@.wf(),
            rect.point.x >= 0,
            rect.point.y >= 0,
            rect.width >= 0,
            rect.height >= 0,
            rect.point.x + rect.width <= i32::MAX,
            rect.point.y + rect.height <= i32::MAX,
        ensures
            match r {
                Some(p) => rect_contains(rect, p) && !self@.blocked(p),
                None => forall|p: Point| rect_contains(rect, p) ==> #[trigger] self@.blocked(p),
            },
            rect.width > 0 && rect.height > 0 && first_open_draw(
                self@,
                rect,
                old(rng).state,
                SAMPLE_ATTEMPTS as nat,
            ).is_some() ==> r == first_open_draw(self@, rect, old(rng).state, SAMPLE_ATTEMPTS as nat),
    {
        if rect.width == 0 || rect.height == 0 {
            return None;
        }
        let bottom_right = rect.bottom_right();
        let mut attempt: u32 = 0;
        while attempt < SAMPLE_ATTEMPTS
            invariant
                self@.wf(),
                bottom_right.x == rect.point.x + rect.width - 1,
                bottom_right.y == rect.point.y + rect.height - 1,
                rect.point.x >= 0,
                rect.point.y >= 0,
                rect.width > 0,
                rect.height > 0,
                attempt <= SAMPLE_ATTEMPTS,
                first_open_draw(self@, rect, old(rng).state, SAMPLE_ATTEMPTS as nat) == first_open_draw(
                    self@,
                    rect,
                    rng.state,
                    (SAMPLE_ATTEMPTS - attempt) as nat,
                ),
            decreases SAMPLE_ATTEMPTS - attempt,
        {
            let ghost s0 = rng.state;
            let xr = random_range(rng, rect.x() as u32, bottom_right.x as u32);
            let ghost s1 = rng.state;
            let yr = random_range(rng, rect.y() as u32, bottom_right.y as u32);
            let point = Point { x: xr as i32, y: yr as i32 };
            proof {
                let left = (SAMPLE_ATTEMPTS - attempt) as nat;
                let x_lo = rect.point.x as u32;
                let x_hi = (rect.point.x + rect.width - 1) as u32;
                let y_lo = rect.point.y as u32;
                let y_hi = (rect.point.y + rect.height - 1) as u32;
                assert(s1 == range_next(s0, x_lo, x_hi));
                assert(point == Point {
                    x: range_pick(xorshift(s0), x_lo, x_hi) as i32,
                    y: range_pick(xorshift(s1), y_lo, y_hi) as i32,
                });
                assert(rng.state == range_next(s1, y_lo, y_hi));
                assert(first_open_draw(self@, rect, s0, left) == if !self@.blocked(point) {
                    Some(point)
                } else {
                    first_open_draw(self@, rect, rng.state, (left - 1) as nat)
                });
            }
            if !self.is_blocked(point) {
                return Some(point);
            }
            attempt = attempt + 1;
        }
        assert(first_open_draw(self@, rect, old(rng).state, SAMPLE_ATTEMPTS as nat).is_none());
        let mut y: i32 = rect.point.y;
        while y <= bottom_right.y
            invariant
                self@.wf(),
                bottom_right.x == rect.point.x + rect.width - 1,
                bottom_right.y == rect.point.y + rect.height - 1,
                rect.point.x + rect.width <= i32::MAX,
                rect.point.y + rect.height <= i32::MAX,
                rect.point.y <= y <= bottom_right.y + 1,
                rect.width > 0,
                first_open_draw(self@, rect, old(rng).state, SAMPLE_ATTEMPTS as nat).is_none(),
                forall|p: Point|
                    rect_contains(rect, p) && p.y < y ==> #[trigger] self@.blocked(p),
            decreases bottom_right.y + 1 - y,
        {
            let mut x: i32 = rect.point.x;
            while x <= bottom_right.x
                invariant
                    self@.wf(),
                    bottom_right.x == rect.point.x + rect.width - 1,
                    bottom_right.y == rect.point.y + rect.height - 1,
                    rect.point.x + rect.width <= i32::MAX,
                    rect.point.y <= y <= bottom_right.y,
                    rect.point.x <= x <= bottom_right.x + 1,
                    first_open_draw(self@, rect, old(rng).state, SAMPLE_ATTEMPTS as nat).is_none(),
                    forall|p: Point|
                        rect_contains(rect, p) && p.y < y ==> #[trigger] self@.blocked(p),
                    forall|p: Point|
                        rect_contains(rect, p) && p.y == y && p.x < x ==> #[trigger] self@.blocked(
                            p,
                        ),
                decreases bottom_right.x + 1 - x,
            {
                let point = Point { x, y };
                if !self.is_blocked(point) {
                    return Some(point);
                }
                x = x + 1;
            }
            y = y + 1;
        }
        None
    }
}

/// Tile coordinate of a pixel coordinate, rounded toward zero.
fn tile_coord_of(v: i32) -> (r: i32)
    ensures
        r == tile_coord(v as int),
{
    if v >= 0 {
        v / TILE_WIDTH
    } else {
        (-((-(v as i64)) / 16)) as i32
    }
}

/// The span of tile columns, or rows, that a screen starting at pixel `start`
/// and `screen` pixels long touches on a grid `size` tiles long.
pub open spec fn view_span(start: int, screen: int, size: int) -> (int, int) {
    let first = tile_coord(start);
    let last = tile_coord(start + screen) + 1;
    (if first > 0 {
        first
    } else {
        0
    }, if last < size {
        last
    } else {
        size
    })
}

impl World {
    /// The tiles that the camera sees, row by row, each with the screen
    /// point of its top-left corner.
    pub fn tiles_in_view(&self, camera: &Camera) -> (r: Vec<(Tile, Point)>)
        requires
            self@.wf(),
            coords_ok(camera.position),
        ensures
            ({
                let (sx, ex) = view_span(camera.position.x as int, SCREEN_WIDTH as int, self@.width);
                let (sy, ey) = view_span(camera.position.y as int, SCREEN_HEIGHT as int, self@.height);
                let cols = if ex > sx { ex - sx } else { 0 };
                let rows = if ey > sy { ey - sy } else { 0 };
                &&& r@.len() == cols * rows
                &&& forall|gx: int, gy: int|
                    sx <= gx < ex && sy <= gy < ey ==> #[trigger] r@[(gy - sy) * cols + (gx - sx)]
                        == (self@.tile_at(gx, gy), to_screen(*camera, self@.tile_at(gx, gy).position))
            }),
    {
        let start_x0 = tile_coord_of(camera.position.x);
        let start_y0 = tile_coord_of(camera.position.y);
        let end_x0 = tile_coord_of(camera.position.x + SCREEN_WIDTH) + 1;
        let end_y0 = tile_coord_of(camera.position.y + SCREEN_HEIGHT) + 1;
        let start_x = if start_x0 > 0 { start_x0 } else { 0 };
        let start_y = if start_y0 > 0 { start_y0 } else { 0 };
        let end_x = if end_x0 < self.width { end_x0 } else { self.width };
        let end_y = if end_y0 < self.height { end_y0 } else { self.height };
        let cols: i32 = if end_x > start_x { end_x - start_x } else { 0 };
        let ghost rows: int = if end_y > start_y { end_y - start_y } else { 0 };
        let mut out: Vec<(Tile, Point)> = Vec::new();
        let mut y = start_y;
        while y < end_y
            invariant
                self@.wf(),
                coords_ok(camera.position),
                0 <= start_x,
                0 <= start_y <= y,
                end_x <= self@.width,
                end_y <= self@.height,
                y <= end_y || end_y <= start_y,
                end_y <= start_y ==> y == start_y,
                cols == if end_x > start_x { end_x - start_x } else { 0 },
                out@.len() == (y - start_y) * cols,
                forall|gx: int, gy: int|
                    start_x <= gx < end_x && start_y <= gy < y ==> #[trigger] out@[(gy - start_y)
                        * cols + (gx - start_x)] == (self@.tile_at(gx, gy), to_screen(
                        *camera,
                        self@.tile_at(gx, gy).position,
                    )),
            decreases end_y - y,
        {
            let mut x = start_x;
            let ghost row_start = out@.len();
            while x < end_x
                invariant
                    self@.wf(),
                    coords_ok(camera.position),
                    0 <= start_x <= x,
                    x <= end_x || end_x <= start_x,
                    end_x <= start_x ==> x == start_x,
                    0 <= start_y <= y < end_y,
                    end_x <= self@.width,
                    end_y <= self@.height,
                    cols == if end_x > start_x { end_x - start_x } else { 0 },
                    row_start == (y - start_y) * cols,
                    out@.len() == row_start + (x - start_x),
                    forall|gx: int, gy: int|
                        start_x <= gx < end_x && start_y <= gy < y ==> #[trigger] out@[(gy - start_y)
                            * cols + (gx - start_x)] == (self@.tile_at(gx, gy), to_screen(
                            *camera,
                            self@.tile_at(gx, gy).position,
                        )),
                    forall|gx: int|
                        start_x <= gx < x ==> #[trigger] out@[row_start + (gx - start_x)] == (
                            self@.tile_at(gx, y as int),
                            to_screen(*camera, self@.tile_at(gx, y as int).position),
                        ),
                decreases end_x - x,
            {
                let tile = self.get_tile(x, y).unwrap();
                proof {
                    assert(tile_spec(x as int, y as int, tile.sprite_index) == tile);
                }
                let screen = camera.world_to_screen(tile.position);
                let ghost before = out@;
                out.push((tile, screen));
                proof {
                    assert forall|gx: int, gy: int|
                        start_x <= gx < end_x && start_y <= gy < y implies #[trigger] out@[(gy
                            - start_y) * cols + (gx - start_x)] == (self@.tile_at(gx, gy), to_screen(
                            *camera,
                            self@.tile_at(gx, gy).position,
                        )) by {
                        assert((gy - start_y) * cols + (gx - start_x) < row_start) by (nonlinear_arith)
                            requires start_x <= gx < end_x, start_y <= gy < y, cols == end_x - start_x,
                                row_start == (y - start_y) * cols,
                        {}
                        assert(out@[(gy - start_y) * cols + (gx - start_x)] == before[(gy - start_y)
                            * cols + (gx - start_x)]);
                    }
                }
                x = x + 1;
            }
            proof {
                assert forall|gx: int, gy: int|
                    start_x <= gx < end_x && start_y <= gy < y + 1 implies #[trigger] out@[(gy
                        - start_y) * cols + (gx - start_x)] == (self@.tile_at(gx, gy), to_screen(
                        *camera,
                        self@.tile_at(gx, gy).position,
                    )) by {
                    if gy == y {
                    } else {
                        assert((gy - start_y) * cols + (gx - start_x) < row_start) by (nonlinear_arith)
                            requires start_x <= gx < end_x, start_y <= gy < y, cols == end_x - start_x,
                                row_start == (y - start_y) * cols,
                        {}
                    }
                }
                assert((y + 1 - start_y) * cols == (y - start_y) * cols + cols) by (nonlinear_arith);
            }
            y = y + 1;
        }
        proof {
            assert((y - start_y) * cols == cols * rows) by (nonlinear_arith)
                requires rows == (if end_y > start_y { end_y - start_y } else { 0 }),
                    end_y <= start_y ==> y == start_y, end_y > start_y ==> y == end_y,
            {}
        }
        out
    }
}

} // verus!
