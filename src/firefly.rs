//! A firefly: wanders at random, steers toward the nearest light of its
//! color that is in reach, bounces off solid tiles, and trails particles.
use vstd::prelude::*;
use crate::geometry::{
    bearing_of, coords_ok, distance_squared, floor_sqrt, step_remainder, step_target, Angle, Point,
    MAX_STEP,
};
use crate::geometry::rect_contains;
use crate::palette::{color_for_roll, color_palette, color_points, color_region, FireflyColor, Palette};
use crate::particles::{active_count, ParticleSystem};
use crate::player::{clamp_point_to_field, clamp_to_field, in_field, min_int, Player};
use crate::random::{random_range, range_pick, xorshift, Random};
use crate::world::{World, WorldView};

verus! {

/// Most fireflies alive at once.
pub const MAX_COUNT: usize = 20;

/// A light attracts fireflies closer than this many pixels.
pub const ATTRACTION_DISTANCE: u64 = 40;

/// Distance a firefly flies per frame, in sub-pixel units.
pub const SPEED: u32 = 256;

/// Frames that a nearest-target result is reused before it is looked up
/// again.
pub const CACHE_THRESHOLD: u8 = 5;

/// Particles in a firefly's own trail pool.
pub const TRAIL_CAPACITY: usize = 20;

pub struct Firefly {
    pub attracted_to: Option<Point>,
    pub color: FireflyColor,
    pub direction: Angle,
    pub particles: ParticleSystem,
    pub position: Point,
    /// Carried sub-pixel distance.
    pub remainder: u32,
    /// The nearest target found at the last lookup.
    pub cached_pos: Option<Point>,
    /// Frames since the last lookup.
    pub cache_age: u8,
}

/// Whole-pixel distance between two points, rounded down.
pub open spec fn pixel_distance(p: Point, q: Point) -> int {
    floor_sqrt(distance_squared(p, q))
}

/// The player's light is of `color` and its target is in reach of `pos`.
pub open spec fn attracts(pos: Point, color: Palette, player: Player) -> bool {
    player.color == Some(color) && pixel_distance(pos, player.attraction_target)
        < ATTRACTION_DISTANCE
}

/// The attraction target nearest to `pos` among the players whose light is
/// of `color` and in reach; the first of them where several are nearest.
pub open spec fn closest_target(pos: Point, color: Palette, players: Seq<Player>) -> Option<Point>
    decreases players.len(),
{
    if players.len() == 0 {
        None
    } else {
        let best = closest_target(pos, color, players.drop_last());
        let p = players.last();
        if attracts(pos, color, p) && (best.is_none() || pixel_distance(pos, p.attraction_target)
            < pixel_distance(pos, best.unwrap())) {
            Some(p.attraction_target)
        } else {
            best
        }
    }
}

pub open spec fn players_ok(players: Seq<Player>) -> bool {
    forall|i: int| 0 <= i < players.len() ==> (#[trigger] players[i]).wf()
}

/// The cache after one frame: its age goes up by one, and past the
/// threshold the nearest target is looked up again and the age restarts.
pub open spec fn refresh_cache(f: Firefly, players: Seq<Player>) -> Firefly {
    let age = if f.cache_age < 255 {
        f.cache_age + 1
    } else {
        255
    };
    if age > CACHE_THRESHOLD {
        Firefly {
            cached_pos: closest_target(f.position, color_palette(f.color), players),
            cache_age: 0,
            ..f
        }
    } else {
        Firefly { cache_age: age as u8, ..f }
    }
}

/// Heading after a turn of `d` degrees from `a`.
pub open spec fn turned(a: Angle, d: int) -> Angle {
    Angle { degrees: ((a.deg() + d) % 360) as u32 }
}

/// Steering with the generator in state `s`: toward a cached target; a
/// fresh random heading when the target was just lost; else a random turn
/// of at most five degrees either way. Returns the generator's next state.
pub open spec fn steer(f: Firefly, s: u32) -> (Firefly, u32) {
    match f.cached_pos {
        Some(t) => (
            Firefly {
                attracted_to: Some(t),
                direction: Angle {
                    degrees: bearing_of(t.x - f.position.x, t.y - f.position.y) as u32,
                },
                ..f
            },
            s,
        ),
        None => if f.attracted_to.is_some() {
            (
                Firefly {
                    attracted_to: None,
                    direction: Angle { degrees: (range_pick(xorshift(s), 0, 360) % 360) as u32 },
                    ..f
                },
                xorshift(s),
            )
        } else {
            (
                Firefly { direction: turned(f.direction, range_pick(xorshift(s), 0, 10) - 5), ..f },
                xorshift(s),
            )
        },
    }
}

/// Heading after bumping into a wall on the way from `p` to `q`: a quarter
/// turn away from the direction of travel, plus `spread` degrees.
pub open spec fn wall_deflection(p: Point, q: Point, spread: int) -> Angle {
    let base: int = if q.x > p.x {
        90
    } else if q.x < p.x {
        270
    } else if q.y > p.y {
        180
    } else {
        0
    };
    Angle { degrees: ((base + spread) % 360) as u32 }
}

/// Degrees of spread that a wall bounce adds lie in `[0, WALL_SPREAD)`.
pub const WALL_SPREAD: u32 = 120;

/// Movement with the generator in state `s`: none when the firefly sits on
/// its target; else a step at `SPEED` plus the carried remainder. The step
/// is taken, kept in the field, only when neither the point it reaches nor
/// that point brought into the field is in a solid tile; else the firefly
/// stays and bounces.
pub open spec fn move_step(f: Firefly, w: WorldView, s: u32) -> (Firefly, u32) {
    if f.attracted_to == Some(f.position) {
        (Firefly { remainder: 0, ..f }, s)
    } else {
        let d = min_int(SPEED + f.remainder, MAX_STEP as int);
        let reached = step_target(f.position, d, f.direction);
        let remainder = step_remainder(f.position, reached, d) as u32;
        let candidate = clamp_to_field(reached);
        if w.blocked(reached) || w.blocked(candidate) {
            (
                Firefly {
                    remainder,
                    direction: wall_deflection(
                        f.position,
                        reached,
                        range_pick(xorshift(s), 0, (WALL_SPREAD - 1) as u32),
                    ),
                    ..f
                },
                xorshift(s),
            )
        } else {
            (Firefly { remainder, position: candidate, ..f }, s)
        }
    }
}

/// One frame of a firefly's movement, with the generator in state `s`.
pub open spec fn movement(f: Firefly, w: WorldView, players: Seq<Player>, s: u32) -> (Firefly, u32) {
    let cached = refresh_cache(f, players);
    let (steered, s1) = steer(cached, s);
    move_step(steered, w, s1)
}

/// A firefly never moves into a solid tile.
pub proof fn lemma_move_stays_open(f: Firefly, w: WorldView, s: u32)
    ensures
        move_step(f, w, s).0.position != f.position ==> !w.blocked(move_step(f, w, s).0.position),
{
}

/// A firefly that bumps into a wall while going right turns to a heading in
/// `[90, 210)` degrees: down and back, never on through the wall.
pub proof fn lemma_wall_bounce_right(p: Point, q: Point, spread: int)
    requires
        q.x > p.x,
        0 <= spread < WALL_SPREAD,
    ensures
        90 <= wall_deflection(p, q, spread).deg() < 210,
{
}

/// A firefly whose step would reach a solid tile to its right stays where
/// it is and turns to a heading in `[90, 210)` degrees.
pub proof fn lemma_bounce_from_the_left(f: Firefly, w: WorldView, s: u32)
    requires
        f.attracted_to != Some(f.position),
        w.blocked(step_target(f.position, min_int(SPEED + f.remainder, MAX_STEP as int), f.direction)),
        step_target(f.position, min_int(SPEED + f.remainder, MAX_STEP as int), f.direction).x
            > f.position.x,
    ensures
        move_step(f, w, s).0.position == f.position,
        90 <= move_step(f, w, s).0.direction.deg() < 210,
{
}

/// The nearest target in use is never older than the threshold: after each
/// frame the age is at most `CACHE_THRESHOLD`; at age zero the cache holds
/// the nearest target of this frame's players, and otherwise it holds what
/// it held one frame before, one frame younger.
pub proof fn lemma_cache_staleness(f: Firefly, players: Seq<Player>)
    ensures
        refresh_cache(f, players).cache_age <= CACHE_THRESHOLD,
        refresh_cache(f, players).cache_age == 0 ==> refresh_cache(f, players).cached_pos
            == closest_target(f.position, color_palette(f.color), players),
        refresh_cache(f, players).cache_age > 0 ==> refresh_cache(f, players).cached_pos
            == f.cached_pos && refresh_cache(f, players).cache_age == f.cache_age + 1,
{
}

impl Firefly {
    pub open spec fn wf(&self) -> bool {
        &&& in_field(self.position)
        &&& self.direction.wf()
        &&& self.remainder <= MAX_STEP
        &&& self.particles.wf()
        &&& self.cached_pos.is_some() ==> coords_ok(self.cached_pos.unwrap())
        &&& self.attracted_to.is_some() ==> coords_ok(self.attracted_to.unwrap())
    }

    /// A heading of a whole number of degrees drawn from `[0, 360]`, where
    /// 360 is 0.
    pub fn random_direction(rng: &mut Random) -> (r: Angle)
        ensures
            r.wf(),
            r.deg() == range_pick(xorshift(old(rng).state), 0, 360) % 360,
            final(rng).state == xorshift(old(rng).state),
    {
        Angle::from_degrees(random_range(rng, 0, 360) as i32)
    }

    /// A firefly of random color at a random open point of its color's
    /// region; none when that region has no open point.
    pub fn new_random(world: &World, rng: &mut Random) -> (r: Option<Firefly>)
        requires
            world@.wf(),
        ensures
            r.is_some() ==> r.unwrap().wf(),
            r.is_some() ==> !world@.blocked(r.unwrap().position),
            r.is_some() ==> r.unwrap().attracted_to.is_none() && r.unwrap().cached_pos.is_none()
                && r.unwrap().remainder == 0 && r.unwrap().cache_age == 255,
            r.is_some() ==> r.unwrap().color != FireflyColor::Plain,
            r.is_some() ==> r.unwrap().particles@.len() == TRAIL_CAPACITY,
            r.is_some() ==> active_count(r.unwrap().particles@) == 0,
            r.is_some() ==> forall|i: int|
                0 <= i < TRAIL_CAPACITY ==> !(#[trigger] r.unwrap().particles@[i]).active,
            r.is_some() ==> r.unwrap().color == color_for_roll(
                range_pick(xorshift(old(rng).state), 0, 36),
            ),
            r.is_some() ==> r.unwrap().direction.deg() == range_pick(
                xorshift(xorshift(old(rng).state)),
                0,
                360,
            ) % 360,
            r.is_some() ==> rect_contains(color_region(r.unwrap().color), r.unwrap().position),
            r.is_none() ==> forall|p: Point|
                rect_contains(
                    color_region(color_for_roll(range_pick(xorshift(old(rng).state), 0, 36))),
                    p,
                ) ==> #[trigger] world@.blocked(p),
    {
        let color = FireflyColor::random(rng);
        let direction = Self::random_direction(rng);
        let rect = color.starting_rect();
        match world.random_unblocked_point_in_rectangle(rect, rng) {
            Some(position) => Some(
                Firefly {
                    attracted_to: None,
                    color,
                    direction,
                    particles: ParticleSystem::new(TRAIL_CAPACITY),
                    position,
                    remainder: 0,
                    cached_pos: None,
                    cache_age: 255,
                },
            ),
            None => None,
        }
    }

    pub fn is_in_goal(&self, world: &World) -> (r: bool)
        requires
            world@.wf(),
        ensures
            r == world@.in_goal(self.position),
    {
        world.is_in_goal(self.position)
    }

    pub fn points(&self) -> (r: i32)
        ensures
            r == color_points(self.color),
    {
        self.color.points()
    }

    pub fn color(&self) -> (r: Palette)
        ensures
            r == color_palette(self.color),
    {
        self.color.color()
    }

    /// The player's light has this firefly's color.
    pub fn matches_player(&self, player: &Player) -> (r: bool)
        ensures
            r == (player.color == Some(color_palette(self.color))),
    {
        let c = self.color();
        match player.color {
            Some(pc) => pc == c,
            None => false,
        }
    }

    fn within_attraction_distance(&self, distance: u64) -> (r: bool)
        ensures
            r == (distance < ATTRACTION_DISTANCE),
    {
        distance < ATTRACTION_DISTANCE
    }

    fn distance_to(&self, point: Point) -> (r: u64)
        requires
            coords_ok(self.position),
            coords_ok(point),
        ensures
            r == pixel_distance(self.position, point),
    {
        self.position.distance(&point)
    }

    /// The nearest attraction target in reach among the players with this
    /// firefly's color.
    pub fn find_closest_target(&self, players: &Vec<Player>) -> (r: Option<Point>)
        requires
            coords_ok(self.position),
            players_ok(players@),
        ensures
            r == closest_target(self.position, color_palette(self.color), players@),
            r.is_some() ==> coords_ok(r.unwrap()),
    {
        let ghost color = color_palette(self.color);
        let mut best: Option<(Point, u64)> = None;
        let mut i: usize = 0;
        while i < players.len()
            invariant
                i <= players@.len(),
                coords_ok(self.position),
                players_ok(players@),
                color == color_palette(self.color),
                best.is_none() == closest_target(self.position, color, players@.subrange(0, i as int)).is_none(),
                best.is_some() ==> Some(best.unwrap().0) == closest_target(
                    self.position,
                    color,
                    players@.subrange(0, i as int),
                ),
                best.is_some() ==> best.unwrap().1 == pixel_distance(self.position, best.unwrap().0),
                best.is_some() ==> coords_ok(best.unwrap().0),
            decreases players@.len() - i,
        {
            proof {
                assert(players@.subrange(0, i as int + 1).drop_last() =~= players@.subrange(0, i as int));
            }
            let player = &players[i];
            assert(player.wf());
            if self.matches_player(player) {
                let distance = self.distance_to(player.attraction_target);
                if self.within_attraction_distance(distance) {
                    let closer = match best {
                        None => true,
                        Some((_, d)) => distance < d,
                    };
                    if closer {
                        best = Some((player.attraction_target, distance));
                    }
                }
            }
            i = i + 1;
        }
        proof {
            assert(players@.subrange(0, players@.len() as int) =~= players@);
        }
        match best {
            Some((p, _)) => Some(p),
            None => None,
        }
    }

    /// Chooses the heading for this frame from the cached target.
    fn change_direction(&mut self, rng: &mut Random)
        requires
            old(self).wf(),
        ensures
            final(self).wf(),
            (*final(self), final(rng).state) == steer(*old(self), old(rng).state),
    {
        match self.cached_pos {
            Some(attraction_target) => {
                self.attracted_to = Some(attraction_target);
                self.direction = self.position.angle_to(&attraction_target);
            },
            None => {
                if self.attracted_to.is_some() {
                    self.attracted_to = None;
                    self.direction = Self::random_direction(rng);
                } else {
                    let change = random_range(rng, 0, 10) as i32 - 5;
                    self.direction = self.direction.turn(change);
                }
            },
        }
    }

    /// Turns away from a wall that the step to `new_position` ran into.
    pub fn change_direction_on_wall_hit(&mut self, new_position: Point, rng: &mut Random)
        requires
            old(self).wf(),
        ensures
            final(self).wf(),
            *final(self) == (Firefly {
                direction: wall_deflection(
                    old(self).position,
                    new_position,
                    range_pick(xorshift(old(rng).state), 0, (WALL_SPREAD - 1) as u32),
                ),
                ..*old(self)
            }),
            final(rng).state == xorshift(old(rng).state),
    {
        let spread = random_range(rng, 0, WALL_SPREAD - 1) as i32;
        let base: i32 = if new_position.x > self.position.x {
            90
        } else if new_position.x < self.position.x {
            270
        } else if new_position.y > self.position.y {
            180
        } else {
            0
        };
        self.direction = Angle::from_degrees(base + spread);
    }

    /// One frame of movement: refresh the cache, steer, then step or bounce.
    pub fn update_movement(&mut self, world: &World, players: &Vec<Player>, rng: &mut Random)
        requires
            old(self).wf(),
            world@.wf(),
            players_ok(players@),
        ensures
            final(self).wf(),
            (*final(self), final(rng).state) == movement(
                *old(self),
                world@,
                players@,
                old(rng).state,
            ),
            final(self).position != old(self).position ==> !world@.blocked(final(self).position),
            final(self).cache_age <= CACHE_THRESHOLD,
    {
        let ghost start = *self;
        if self.cache_age < 255 {
            self.cache_age = self.cache_age + 1;
        }
        if self.cache_age > CACHE_THRESHOLD {
            self.cached_pos = self.find_closest_target(players);
            self.cache_age = 0;
        }
        assert(*self == refresh_cache(start, players@));
        proof {
            lemma_cache_staleness(start, players@);
        }
        self.change_direction(rng);
        let ghost steered = *self;
        let ghost s1 = rng.state;
        if Some(self.position) == self.attracted_to {
            self.remainder = 0;
            return;
        }
        let total = SPEED as u64 + self.remainder as u64;
        let distance: u32 = if total > MAX_STEP as u64 { MAX_STEP } else { total as u32 };
        let (new_position, remainder) = self.position.point_from_distance_and_angle(
            distance,
            self.direction,
        );
        self.remainder = remainder;
        let candidate = clamp_point_to_field(new_position);
        if world.is_blocked(new_position) || world.is_blocked(candidate) {
            self.change_direction_on_wall_hit(new_position, rng);
        } else {
            self.position = candidate;
        }
        proof {
            lemma_move_stays_open(steered, world@, s1);
        }
    }

    /// Drops trail particles now and then, and more rarely a burst, then
    /// moves the trail on by one frame.
    fn spawn_particles(&mut self, rng: &mut Random)
        requires
            old(self).wf(),
        ensures
            active_count(final(self).particles@) <= active_count(old(self).particles@) + 15,
            final(self).wf(),
            final(self).particles@.len() == old(self).particles@.len(),
            *final(self) == (Firefly { particles: final(self).particles, ..*old(self) }),
    {
        self.spawn_trail_particles(rng);
        self.spawn_firefly_flash_particles(rng);
        self.particles.update();
    }

    fn spawn_trail_particles(&mut self, rng: &mut Random)
        requires
            old(self).wf(),
        ensures
            active_count(final(self).particles@) <= active_count(old(self).particles@) + 1,
            final(self).wf(),
            final(self).particles@.len() == old(self).particles@.len(),
            *final(self) == (Firefly { particles: final(self).particles, ..*old(self) }),
    {
        if random_range(rng, 0, 60) < 20 {
            let color = self.color();
            self.particles.spawn(self.position.x, self.position.y, 0, 0, 30, color, 1);
        }
    }

    fn spawn_firefly_flash_particles(&mut self, rng: &mut Random)
        requires
            old(self).wf(),
        ensures
            active_count(final(self).particles@) <= active_count(old(self).particles@) + 14,
            final(self).wf(),
            final(self).particles@.len() == old(self).particles@.len(),
            *final(self) == (Firefly { particles: final(self).particles, ..*old(self) }),
    {
        if random_range(rng, 0, 60) < 10 {
            let count = random_range(rng, 8, 14) as u8;
            let speed = random_range(rng, 1, 2) as i16;
            let color = self.color();
            self.particles.spawn_radial_burst(
                self.position.x,
                self.position.y,
                count,
                speed,
                2,
                color,
                rng,
            );
        }
    }

    /// One frame: movement, then particles.
    pub fn update(&mut self, world: &World, players: &Vec<Player>, rng: &mut Random)
        requires
            old(self).wf(),
            world@.wf(),
            players_ok(players@),
        ensures
            active_count(final(self).particles@) <= active_count(old(self).particles@) + 15,
            final(self).wf(),
            final(self).position != old(self).position ==> !world@.blocked(final(self).position),
            final(self).cache_age <= CACHE_THRESHOLD,
            final(self).particles@.len() == old(self).particles@.len(),
            (Firefly {
                particles: final(self).particles,
                ..movement(*old(self), world@, players@, old(rng).state).0
            }) == *final(self),
    {
        self.update_movement(world, players, rng);
        self.spawn_particles(rng);
    }
}

} // verus!
