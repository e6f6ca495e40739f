//! A fixed-capacity pool of short-lived particles with fixed-point
//! velocities: spawning into free slots, integration and expiry.
use vstd::prelude::*;
use vstd::arithmetic::div_mod::lemma_hoist_over_denominator;
use crate::camera::{to_screen, Camera};
use crate::geometry::{coords_ok, Point, COORD_LIMIT};
use crate::palette::{Palette, WORLD_HEIGHT, WORLD_WIDTH};
use crate::random::{random_range, Random};

verus! {

/// Velocities are stored scaled by two to this power: each update moves a
/// particle by its velocity shifted right by it.
pub const FIXED_POINT_SHIFT: u32 = 4;

/// How far past the world's edge a particle may go before it expires.
pub const BOUNDS_MARGIN: i32 = 5;

/// Scaled sine of the sixteen burst directions.
pub open spec fn burst_sine() -> Seq<int> {
    seq![0, 6, 11, 15, 16, 15, 11, 6, 0, -6, -11, -15, -16, -15, -11, -6]
}

/// Scaled cosine of the sixteen burst directions.
pub open spec fn burst_cosine() -> Seq<int> {
    seq![16, 15, 11, 6, 0, -6, -11, -15, -16, -15, -11, -6, 0, 6, 11, 15]
}

fn burst_direction(dir: usize) -> (r: (i16, i16))
    requires
        dir < 16,
    ensures
        r.0 == burst_cosine()[dir as int],
        r.1 == burst_sine()[dir as int],
        -16 <= r.0 <= 16,
        -16 <= r.1 <= 16,
{
    let cos_table: [i16; 16] = [16, 15, 11, 6, 0, -6, -11, -15, -16, -15, -11, -6, 0, 6, 11, 15];
    let sin_table: [i16; 16] = [0, 6, 11, 15, 16, 15, 11, 6, 0, -6, -11, -15, -16, -15, -11, -6];
    proof {
        assert(cos_table@ =~= burst_cosine().map_values(|v: int| v as i16));
        assert(sin_table@ =~= burst_sine().map_values(|v: int| v as i16));
    }
    (cos_table[dir], sin_table[dir])
}

#[derive(Clone, Copy, Debug, PartialEq, Eq, Structural)]
pub struct Particle {
    pub x: i32,
    pub y: i32,
    pub vx: i16,
    pub vy: i16,
    pub lifetime: u8,
    pub max_lifetime: u8,
    pub color: Palette,
    pub size: u8,
    pub active: bool,
}

/// Whole pixels that a scaled velocity moves per update, rounded down.
pub open spec fn velocity_step(v: i16) -> int {
    v as int / 16
}

pub open spec fn outside_world(x: int, y: int) -> bool {
    x < -BOUNDS_MARGIN || x > WORLD_WIDTH + BOUNDS_MARGIN || y < -BOUNDS_MARGIN || y > WORLD_HEIGHT
        + BOUNDS_MARGIN
}

/// A particle after one update: an inactive one stays as it is; an active
/// one moves, ages by one, and expires when its lifetime runs out or it has
/// left the world by more than the margin.
pub open spec fn step_particle(p: Particle) -> Particle {
    if !p.active {
        p
    } else {
        let x = p.x + velocity_step(p.vx);
        let y = p.y + velocity_step(p.vy);
        let lifetime = if p.lifetime > 0 {
            p.lifetime - 1
        } else {
            0
        };
        if lifetime == 0 || outside_world(x, y) {
            Particle { x: x as i32, y: y as i32, lifetime: 0, active: false, ..p }
        } else {
            Particle { x: x as i32, y: y as i32, lifetime: lifetime as u8, ..p }
        }
    }
}

/// A particle after `k` updates.
pub open spec fn particle_after(p: Particle, k: nat) -> Particle
    decreases k,
{
    if k == 0 {
        p
    } else {
        step_particle(particle_after(p, (k - 1) as nat))
    }
}

pub open spec fn particle_ok(p: Particle) -> bool {
    p.active ==> -COORD_LIMIT <= p.x <= COORD_LIMIT && -COORD_LIMIT <= p.y <= COORD_LIMIT
}

pub open spec fn deactivated(p: Particle) -> Particle {
    Particle { active: false, lifetime: 0, ..p }
}

pub open spec fn spawned(
    x: i32,
    y: i32,
    vx: i16,
    vy: i16,
    lifetime: u8,
    color: Palette,
    size: u8,
) -> Particle {
    Particle { x, y, vx, vy, lifetime, max_lifetime: lifetime, color, size, active: true }
}

/// `q` is a particle of a radial burst from `(x, y)`: one of the sixteen
/// table directions, scaled by `speed`.
pub open spec fn is_burst_particle(
    q: Particle,
    x: i32,
    y: i32,
    speed: i16,
    lifetime: u8,
    color: Palette,
) -> bool {
    &&& q.active
    &&& q.x == x && q.y == y
    &&& q.lifetime == lifetime && q.max_lifetime == lifetime
    &&& q.color == color && q.size == 1
    &&& exists|d: int|
        0 <= d < 16 && q.vx == speed * burst_cosine()[d] && q.vy == speed * burst_sine()[d]
}

/// Number of active particles.
pub open spec fn active_count(s: Seq<Particle>) -> nat
    decreases s.len(),
{
    if s.len() == 0 {
        0
    } else {
        active_count(s.drop_last()) + if s.last().active {
            1nat
        } else {
            0nat
        }
    }
}

/// Index of the first inactive particle; the length when all are active.
pub open spec fn first_free(s: Seq<Particle>) -> int {
    if exists|i: int| 0 <= i < s.len() && !s[i].active {
        choose|i: int| 0 <= i < s.len() && !s[i].active && forall|j: int| 0 <= j < i ==> s[j].active
    } else {
        s.len() as int
    }
}

/// The particles that a renderer draws: each active one at its screen
/// position, in pool order.
pub open spec fn visible(s: Seq<Particle>, c: Camera) -> Seq<(Point, Palette)>
    decreases s.len(),
{
    if s.len() == 0 {
        seq![]
    } else {
        let rest = visible(s.drop_last(), c);
        if s.last().active {
            rest.push((to_screen(c, Point { x: s.last().x, y: s.last().y }), s.last().color))
        } else {
            rest
        }
    }
}

/// A pool never holds more active particles than it has slots.
pub proof fn lemma_active_count_bound(s: Seq<Particle>)
    ensures
        active_count(s) <= s.len(),
    decreases s.len(),
{
    if s.len() > 0 {
        lemma_active_count_bound(s.drop_last());
    }
}

proof fn lemma_active_count_all(s: Seq<Particle>)
    requires
        forall|i: int| 0 <= i < s.len() ==> #[trigger] s[i].active,
    ensures
        active_count(s) == s.len(),
    decreases s.len(),
{
    if s.len() > 0 {
        lemma_active_count_all(s.drop_last());
    }
}

proof fn lemma_active_count_none(s: Seq<Particle>)
    requires
        forall|i: int| 0 <= i < s.len() ==> !(#[trigger] s[i].active),
    ensures
        active_count(s) == 0,
    decreases s.len(),
{
    if s.len() > 0 {
        lemma_active_count_none(s.drop_last());
    }
}

proof fn lemma_active_count_update(s: Seq<Particle>, i: int, p: Particle)
    requires
        0 <= i < s.len(),
    ensures
        active_count(s.update(i, p)) + (if s[i].active {
            1int
        } else {
            0int
        }) == active_count(s) + (if p.active {
            1int
        } else {
            0int
        }),
    decreases s.len(),
{
    let t = s.update(i, p);
    if i == s.len() - 1 {
        assert(t.drop_last() =~= s.drop_last());
    } else {
        assert(t.drop_last() =~= s.drop_last().update(i, p));
        lemma_active_count_update(s.drop_last(), i, p);
    }
}

/// A pool in which no particle became active holds no more active ones.
pub proof fn lemma_active_count_mono(a: Seq<Particle>, b: Seq<Particle>)
    requires
        a.len() == b.len(),
        forall|i: int| 0 <= i < a.len() && (#[trigger] b[i]).active ==> a[i].active,
    ensures
        active_count(b) <= active_count(a),
    decreases a.len(),
{
    if a.len() > 0 {
        lemma_active_count_mono(a.drop_last(), b.drop_last());
    }
}

/// Every particle of a pool expires: spawned with lifetime `L`, it is
/// inactive after `L` updates (after one, when `L` is zero), and updates
/// never bring an inactive particle back.
pub proof fn lemma_particle_expires(p: Particle, k: nat)
    requires
        k >= p.lifetime,
        k >= 1,
    ensures
        !particle_after(p, k).active,
    decreases k,
{
    if k == 1 {
        assert(particle_after(p, 0) == p);
    } else {
        let q = particle_after(p, 1);
        assert(particle_after(p, 0) == p);
        lemma_particle_after_shift(p, (k - 1) as nat);
        if q.active {
            assert(q.lifetime == p.lifetime - 1);
            lemma_particle_expires(q, (k - 1) as nat);
        } else {
            lemma_inactive_stays(q, (k - 1) as nat);
        }
    }
}

proof fn lemma_particle_after_shift(p: Particle, k: nat)
    ensures
        particle_after(p, k + 1) == particle_after(step_particle(p), k),
    decreases k,
{
    if k > 0 {
        lemma_particle_after_shift(p, (k - 1) as nat);
    } else {
        assert(particle_after(p, 0) == p);
        assert(particle_after(step_particle(p), 0) == step_particle(p));
    }
}

/// An inactive particle stays inactive, and unchanged, under any number of
/// updates.
pub proof fn lemma_inactive_stays(p: Particle, k: nat)
    requires
        !p.active,
    ensures
        particle_after(p, k) == p,
    decreases k,
{
    if k > 0 {
        lemma_inactive_stays(p, (k - 1) as nat);
    }
}

/// Rounded-down whole-pixel step of a scaled velocity.
fn shift_velocity(v: i16) -> (r: i32)
    ensures
        r == velocity_step(v),
        -2048 <= r <= 2047,
{
    let shifted = v as i32 + 0x8000;
    proof {
        lemma_hoist_over_denominator(v as int, 0x800, 16);
    }
    shifted / 16 - 0x800
}

impl Particle {
    pub fn empty() -> (r: Particle)
        ensures
            !r.active,
            r.lifetime == 0,
    {
        Particle {
            x: 0,
            y: 0,
            vx: 0,
            vy: 0,
            lifetime: 0,
            max_lifetime: 0,
            color: Palette::Empty,
            size: 0,
            active: false,
        }
    }

    /// Remaining life on a scale of 0 to 255.
    pub fn calculate_lifetime(&self) -> (r: u8)
        requires
            self.lifetime <= self.max_lifetime,
        ensures
            self.max_lifetime == 0 ==> r == 0,
            self.max_lifetime > 0 ==> r == self.lifetime as int * 255 / self.max_lifetime as int,
    {
        if self.max_lifetime == 0 {
            return 0;
        }
        let l = self.lifetime as u16;
        assert(l as int * 255 / (self.max_lifetime as int) <= 255) by (nonlinear_arith)
            requires l <= self.max_lifetime, self.max_lifetime > 0,
        {}
        ((l * 255) / self.max_lifetime as u16) as u8
    }

    fn deactivate_particle(&mut self)
        ensures
            *final(self) == deactivated(*old(self)),
    {
        self.active = false;
        self.lifetime = 0;
    }

    fn stepped(&self) -> (r: Particle)
        requires
            particle_ok(*self),
        ensures
            r == step_particle(*self),
            r.active ==> !outside_world(r.x as int, r.y as int),
    {
        if !self.active {
            return *self;
        }
        let mut p = *self;
        p.x = self.x + shift_velocity(self.vx);
        p.y = self.y + shift_velocity(self.vy);
        p.lifetime = if self.lifetime > 0 { self.lifetime - 1 } else { 0 };
        let out_of_bounds = p.x < -BOUNDS_MARGIN || p.x > WORLD_WIDTH + BOUNDS_MARGIN || p.y
            < -BOUNDS_MARGIN || p.y > WORLD_HEIGHT + BOUNDS_MARGIN;
        if p.lifetime == 0 || out_of_bounds {
            p.deactivate_particle();
        }
        p
    }
}

/// A pool of particles whose size is fixed when it is made.
pub struct ParticleSystem {
    particles: Vec<Particle>,
}

impl View for ParticleSystem {
    type V = Seq<Particle>;

    closed spec fn view(&self) -> Seq<Particle> {
        self.particles@
    }
}

impl ParticleSystem {
    /// Active particles lie within the coordinate range that updates accept.
    pub open spec fn wf(&self) -> bool {
        forall|i: int| 0 <= i < self@.len() ==> particle_ok(#[trigger] self@[i])
    }

    /// A pool of `max_particles` inactive particles.
    pub fn new(max_particles: usize) -> (r: ParticleSystem)
        ensures
            r.wf(),
            r@.len() == max_particles,
            forall|i: int| 0 <= i < r@.len() ==> !(#[trigger] r@[i]).active,
            active_count(r@) == 0,
    {
        let mut particles: Vec<Particle> = Vec::new();
        let mut i: usize = 0;
        while i < max_particles
            invariant
                i <= max_particles,
                particles@.len() == i,
                forall|j: int| 0 <= j < i ==> !(#[trigger] particles@[j]).active,
            decreases max_particles - i,
        {
            particles.push(Particle::empty());
            i = i + 1;
        }
        proof {
            lemma_active_count_none(particles@);
        }
        ParticleSystem { particles }
    }

    pub fn capacity(&self) -> (r: usize)
        ensures
            r == self@.len(),
    {
        self.particles.len()
    }

    /// Moves, ages and expires every active particle.
    pub fn update(&mut self)
        requires
            old(self).wf(),
        ensures
            final(self).wf(),
            final(self)@.len() == old(self)@.len(),
            forall|i: int|
                0 <= i < old(self)@.len() ==> #[trigger] final(self)@[i] == step_particle(
                    old(self)@[i],
                ),
            active_count(final(self)@) <= active_count(old(self)@),
    {
        let ghost start = self@;
        let n = self.particles.len();
        let mut i: usize = 0;
        while i < n
            invariant
                i <= n == self@.len() == start.len(),
                forall|j: int| 0 <= j < i ==> #[trigger] self@[j] == step_particle(start[j]),
                forall|j: int| i <= j < n ==> #[trigger] self@[j] == start[j],
                forall|j: int| 0 <= j < n ==> particle_ok(#[trigger] self@[j]),
            decreases n - i,
        {
            let p = self.particles[i].stepped();
            self.particles.set(i, p);
            i = i + 1;
        }
        proof {
            lemma_active_count_mono(start, self@);
        }
    }

    /// Claims the first inactive slot for a new particle; when every slot is
    /// active the pool is left as it is.
    pub fn spawn(
        &mut self,
        x: i32,
        y: i32,
        vx: i16,
        vy: i16,
        lifetime: u8,
        color: Palette,
        size: u8,
    )
        requires
            old(self).wf(),
            coords_ok(Point { x, y }),
        ensures
            final(self).wf(),
            final(self)@.len() == old(self)@.len(),
            first_free(old(self)@) == old(self)@.len() ==> final(self)@ == old(self)@,
            first_free(old(self)@) < old(self)@.len() ==> final(self)@ == old(self)@.update(
                first_free(old(self)@),
                spawned(x, y, vx, vy, lifetime, color, size),
            ),
            active_count(final(self)@) == if active_count(old(self)@) < old(self)@.len() {
                active_count(old(self)@) + 1int
            } else {
                active_count(old(self)@) as int
            },
    {
        let ghost start = self@;
        assert(start == old(self)@);
        let n = self.particles.len();
        let mut i: usize = 0;
        while i < n
            invariant
                i <= n == self@.len(),
                self@ == start,
                start == old(self)@,
                coords_ok(Point { x, y }),
                forall|j: int| 0 <= j < n ==> particle_ok(#[trigger] start[j]),
                forall|j: int| 0 <= j < i ==> (#[trigger] start[j]).active,
            decreases n - i,
        {
            if !self.particles[i].active {
                let p = Particle {
                    x,
                    y,
                    vx,
                    vy,
                    lifetime,
                    max_lifetime: lifetime,
                    color,
                    size,
                    active: true,
                };
                self.particles.set(i, p);
                proof {
                    let ii = i as int;
                    assert(0 <= ii < start.len() && !start[ii].active);
                    assert(!start[ii].active && forall|j: int| 0 <= j < ii ==> start[j].active);
                    let f = first_free(start);
                    assert(0 <= f < start.len() && !start[f].active && forall|j: int|
                        0 <= j < f ==> start[j].active);
                    if f < ii {
                        assert(start[f].active);
                    } else if f > ii {
                        assert(start[ii].active);
                    }
                    assert(f == ii);
                    assert(self@ == start.update(ii, p));
                    lemma_active_count_update(start, ii, p);
                    lemma_active_count_bound(self@);
                    assert(p == spawned(x, y, vx, vy, lifetime, color, size));
                }
                return;
            }
            i = i + 1;
        }
        proof {
            lemma_active_count_all(start);
        }
    }

    /// Spawns up to `count` particles at `(x, y)`, as many as there are free
    /// slots, each in one of sixteen table directions scaled by `speed`.
    pub fn spawn_radial_burst(
        &mut self,
        x: i32,
        y: i32,
        count: u8,
        speed: i16,
        lifetime: u8,
        color: Palette,
        rng: &mut Random,
    )
        requires
            old(self).wf(),
            coords_ok(Point { x, y }),
            -2047 <= speed <= 2047,
        ensures
            final(self).wf(),
            final(self)@.len() == old(self)@.len(),
            forall|i: int|
                0 <= i < old(self)@.len() && (#[trigger] old(self)@[i]).active ==> final(self)@[i]
                    == old(self)@[i],
            forall|i: int|
                0 <= i < old(self)@.len() && !(#[trigger] old(self)@[i]).active ==> final(self)@[i]
                    == old(self)@[i] || is_burst_particle(
                    final(self)@[i],
                    x,
                    y,
                    speed,
                    lifetime,
                    color,
                ),
            forall|i: int, j: int|
                0 <= i < j < old(self)@.len() && !old(self)@[i].active
                    && #[trigger] final(self)@[j] != old(self)@[j]
                    ==> #[trigger] final(self)@[i] != old(self)@[i],
            active_count(final(self)@) == active_count(old(self)@) + if count <= old(self)@.len()
                - active_count(old(self)@) {
                count as int
            } else {
                old(self)@.len() - active_count(old(self)@)
            },
    {
        let ghost start = self@;
        let n = self.particles.len();
        let mut spawned_particles: u8 = 0;
        let mut i: usize = 0;
        proof {
            lemma_active_count_bound(start);
        }
        while i < n && spawned_particles < count
            invariant
                i <= n == self@.len() == start.len(),
                spawned_particles <= count,
                -2047 <= speed <= 2047,
                coords_ok(Point { x, y }),
                active_count(self@) == active_count(start) + spawned_particles,
                forall|j: int| 0 <= j < n ==> particle_ok(#[trigger] self@[j]),
                forall|j: int| i <= j < n ==> #[trigger] self@[j] == start[j],
                forall|j: int| 0 <= j < i && (#[trigger] start[j]).active ==> self@[j] == start[j],
                forall|j: int| 0 <= j < i && !(#[trigger] start[j]).active ==> is_burst_particle(
                    self@[j],
                    x,
                    y,
                    speed,
                    lifetime,
                    color,
                ),
            decreases n - i,
        {
            if !self.particles[i].active {
                let dir = random_range(rng, 0, 15) as usize;
                let (c, s) = burst_direction(dir);
                assert(-32767 <= speed * c <= 32767 && -32767 <= speed * s <= 32767)
                    by (nonlinear_arith)
                    requires -2047 <= speed <= 2047, -16 <= c <= 16, -16 <= s <= 16,
                {}
                let p = Particle {
                    x,
                    y,
                    vx: speed * c,
                    vy: speed * s,
                    lifetime,
                    max_lifetime: lifetime,
                    color,
                    size: 1,
                    active: true,
                };
                proof {
                    lemma_active_count_update(self@, i as int, p);
                    assert(is_burst_particle(p, x, y, speed, lifetime, color)) by {
                        assert(0 <= dir < 16);
                    }
                }
                self.particles.set(i, p);
                spawned_particles = spawned_particles + 1;
            }
            i = i + 1;
        }
        proof {
            lemma_active_count_bound(self@);
            if spawned_particles < count {
                assert forall|j: int| 0 <= j < self@.len() implies #[trigger] self@[j].active by {
                    if !start[j].active {
                        assert(is_burst_particle(self@[j], x, y, speed, lifetime, color));
                    }
                }
                lemma_active_count_all(self@);
            }
        }
    }

    /// Deactivates every particle.
    pub fn clear(&mut self)
        requires
            old(self).wf(),
        ensures
            final(self).wf(),
            final(self)@.len() == old(self)@.len(),
            forall|i: int|
                0 <= i < old(self)@.len() ==> #[trigger] final(self)@[i] == deactivated(
                    old(self)@[i],
                ),
            active_count(final(self)@) == 0,
    {
        let ghost start = self@;
        let n = self.particles.len();
        let mut i: usize = 0;
        while i < n
            invariant
                i <= n == self@.len() == start.len(),
                forall|j: int| 0 <= j < i ==> #[trigger] self@[j] == deactivated(start[j]),
                forall|j: int| i <= j < n ==> #[trigger] self@[j] == start[j],
            decreases n - i,
        {
            let mut p = self.particles[i];
            p.deactivate_particle();
            self.particles.set(i, p);
            i = i + 1;
        }
        proof {
            lemma_active_count_none(self@);
        }
    }

    /// Number of active particles.
    pub fn count(&self) -> (r: usize)
        ensures
            r == active_count(self@),
    {
        let n = self.particles.len();
        let mut c: usize = 0;
        let mut i: usize = 0;
        while i < n
            invariant
                i <= n == self@.len(),
                c == active_count(self@.subrange(0, i as int)),
                c <= i,
            decreases n - i,
        {
            proof {
                assert(self@.subrange(0, i as int + 1).drop_last() =~= self@.subrange(0, i as int));
            }
            if self.particles[i].active {
                c = c + 1;
            }
            i = i + 1;
        }
        proof {
            assert(self@.subrange(0, n as int) =~= self@);
        }
        c
    }

    /// Screen positions and colors of the active particles, for drawing.
    pub fn render(&self, camera: &Camera) -> (r: Vec<(Point, Palette)>)
        requires
            self.wf(),
            coords_ok(camera.position),
        ensures
            r@ == visible(self@, *camera),
    {
        let n = self.particles.len();
        let mut out: Vec<(Point, Palette)> = Vec::new();
        let mut i: usize = 0;
        while i < n
            invariant
                i <= n == self@.len(),
                self.wf(),
                coords_ok(camera.position),
                out@ == visible(self@.subrange(0, i as int), *camera),
            decreases n - i,
        {
            proof {
                assert(self@.subrange(0, i as int + 1).drop_last() =~= self@.subrange(0, i as int));
            }
            let p = self.particles[i];
            if p.active {
                assert(particle_ok(self@[i as int]));
                out.push((camera.world_to_screen(Point { x: p.x, y: p.y }), p.color));
            }
            i = i + 1;
        }
        proof {
            assert(self@.subrange(0, n as int) =~= self@);
        }
        out
    }
}

} // verus!
