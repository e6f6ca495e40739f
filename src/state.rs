//! The simulation context: players, flock, shared particles, labels and the
//! screen state machine, advanced one frame at a time.
use vstd::prelude::*;
use crate::camera::Camera;
use crate::fireflies::{collectible, collected, flock_moved_on, flock_ok, remaining, Fireflies};
use crate::firefly::{players_ok, Firefly};
use crate::geometry::COORD_LIMIT;
use crate::palette::{color_palette, color_points, WORLD_HEIGHT, WORLD_WIDTH};
use crate::particles::{active_count, is_burst_particle, ParticleSystem};
use crate::player::{in_field, player_frame, Buttons, Pad, PeerId, Player, pad_ok};
use crate::random::{random_range, range_pick, xorshift, Random};
use crate::text::{kept_labels, Text, MAX_AGE};
use crate::world::World;

verus! {

/// Points that win the game.
pub const WIN_POINTS: i32 = 20;

/// Size of the shared particle pool.
pub const SHARED_PARTICLES: usize = 200;

/// Percent of the way the camera closes on its player each frame.
pub const CAMERA_SMOOTHNESS: u32 = 20;

/// Pixels by which a score label is scattered around its firefly.
pub const LABEL_SCATTER: u32 = 12;

#[derive(Clone, Copy, Debug, PartialEq, Eq, Structural)]
pub enum GameState {
    Title,
    Credits,
    Info,
    Playing,
    Died,
    /// The game is over; `true` when this device's player won.
    GameOver(bool),
}

/// Something the simulation asks its surroundings to do.
#[derive(Clone, Copy, Debug, PartialEq, Eq, Structural)]
pub enum Action {
    /// A firefly was collected: play the collection sound.
    CollectSound,
    /// This participant won: record it.
    AwardWin(PeerId),
}

/// One frame's input: the buttons of all participants together, and each
/// player's pad and buttons, in player order.
pub struct FrameInput {
    pub combined: Buttons,
    pub pads: Vec<Option<Pad>>,
    pub buttons: Vec<Buttons>,
}

pub open spec fn text_ok(t: Text) -> bool {
    &&& t.wf()
    &&& 0 <= t.age <= MAX_AGE
    &&& -COORD_LIMIT - t.age <= t.position.y <= COORD_LIMIT
}

pub open spec fn texts_ok(ts: Seq<Text>) -> bool {
    forall|i: int| 0 <= i < ts.len() ==> text_ok(#[trigger] ts[i])
}

/// Index of the first player whose attraction target is `t`; the number of
/// players when there is none.
pub open spec fn first_at_target(players: Seq<Player>, t: crate::geometry::Point) -> int
    decreases players.len(),
{
    if players.len() == 0 {
        0
    } else if first_at_target(players.drop_last(), t) < players.len() - 1 {
        first_at_target(players.drop_last(), t)
    } else if players.last().attraction_target == t {
        players.len() - 1
    } else {
        players.len() as int
    }
}

/// Index of the first player with at least `WIN_POINTS`; the number of
/// players when there is none.
pub open spec fn first_winner(players: Seq<Player>) -> int
    decreases players.len(),
{
    if players.len() == 0 {
        0
    } else if first_winner(players.drop_last()) < players.len() - 1 {
        first_winner(players.drop_last())
    } else if players.last().points >= WIN_POINTS {
        players.len() - 1
    } else {
        players.len() as int
    }
}

/// Index of the first player of `peer`; the number of players when there is
/// none.
pub open spec fn first_of_peer(players: Seq<Player>, peer: PeerId) -> int
    decreases players.len(),
{
    if players.len() == 0 {
        0
    } else if first_of_peer(players.drop_last(), peer) < players.len() - 1 {
        first_of_peer(players.drop_last(), peer)
    } else if players.last().peer == peer {
        players.len() - 1
    } else {
        players.len() as int
    }
}

proof fn lemma_first_at_range(players: Seq<Player>, t: crate::geometry::Point)
    ensures
        0 <= first_at_target(players, t) <= players.len(),
    decreases players.len(),
{
    if players.len() > 0 {
        lemma_first_at_range(players.drop_last(), t);
    }
}

proof fn lemma_first_step(players: Seq<Player>, i: int)
    requires
        0 <= i < players.len(),
    ensures
        players.subrange(0, i + 1).drop_last() == players.subrange(0, i),
{
    assert(players.subrange(0, i + 1).drop_last() =~= players.subrange(0, i));
}

/// `a + b`, held within the range of `i32`.
pub open spec fn capped_sum(a: int, b: int) -> int {
    if a + b > i32::MAX {
        i32::MAX as int
    } else if a + b < i32::MIN {
        i32::MIN as int
    } else {
        a + b
    }
}

fn capped_add(a: i32, b: i32) -> (r: i32)
    ensures
        r == capped_sum(a as int, b as int),
{
    let sum = a as i64 + b as i64;
    if sum > i32::MAX as i64 {
        i32::MAX
    } else if sum < i32::MIN as i64 {
        i32::MIN
    } else {
        sum as i32
    }
}

pub struct State {
    /// The combined buttons of the previous frame.
    pub buttons: Buttons,
    pub camera: Camera,
    pub debug: bool,
    pub fireflies: Fireflies,
    pub game_state: GameState,
    pub me: Option<PeerId>,
    pub particles: ParticleSystem,
    pub players: Vec<Player>,
    pub texts: Vec<Text>,
    pub world: World,
    pub rng: Random,
}

impl State {
    pub open spec fn wf(&self) -> bool {
        &&& self.world@.wf()
        &&& players_ok(self.players@)
        &&& self.fireflies.wf()
        &&& self.particles.wf()
        &&& texts_ok(self.texts@)
    }

    /// A game on `world` for the players of `peers`, showing the title.
    pub fn new(me: PeerId, peers: &Vec<PeerId>, world: World, seed: u32) -> (r: State)
        requires
            world@.wf(),
        ensures
            r.wf(),
            r.game_state == GameState::Title,
            r.me == Some(me),
            r.players@.len() == peers@.len(),
            forall|i: int| 0 <= i < peers@.len() ==> (#[trigger] r.players@[i]).peer == peers@[i]
                && r.players@[i].points == 0,
            r.fireflies.fireflies@.len() == 0,
            r.texts@.len() == 0,
            active_count(r.particles@) == 0,
            r.particles@.len() == SHARED_PARTICLES,
    {
        let mut rng = Random::new(seed);
        let mut players: Vec<Player> = Vec::new();
        let mut i: usize = 0;
        while i < peers.len()
            invariant
                world@.wf(),
                i <= peers@.len(),
                players@.len() == i,
                players_ok(players@),
                forall|j: int| 0 <= j < i ==> (#[trigger] players@[j]).peer == peers@[j]
                    && players@[j].points == 0,
            decreases peers@.len() - i,
        {
            let p = Player::new(peers[i], &world, &mut rng);
            players.push(p);
            i = i + 1;
        }
        State {
            buttons: Buttons::none(),
            camera: Camera::new(WORLD_WIDTH, WORLD_HEIGHT),
            debug: false,
            fireflies: Fireflies::new(),
            game_state: GameState::Title,
            me: Some(me),
            particles: ParticleSystem::new(SHARED_PARTICLES),
            players,
            texts: Vec::new(),
            world,
            rng,
        }
    }

    /// Starts over: no fireflies, labels or particles, every player at zero
    /// points at a fresh open point, and play resumes.
    pub fn restart(&mut self)
        requires
            old(self).wf(),
        ensures
            final(self).wf(),
            final(self).game_state == GameState::Playing,
            final(self).buttons == old(self).buttons,
            final(self).fireflies.fireflies@.len() == 0,
            final(self).texts@.len() == 0,
            active_count(final(self).particles@) == 0,
            final(self).players@.len() == old(self).players@.len(),
            forall|i: int|
                0 <= i < old(self).players@.len() ==> (#[trigger] final(self).players@[i]).points
                    == 0 && final(self).players@[i].peer == old(self).players@[i].peer,
            final(self).world == old(self).world,
            forall|i: int|
                0 <= i < old(self).players@.len() ==> !old(self).world@.blocked(
                    #[trigger] final(self).players@[i].position,
                ) || forall|p: crate::geometry::Point| in_field(p) ==> old(self).world@.blocked(p),
    {
        self.fireflies = Fireflies::new();
        let n = self.players.len();
        let mut i: usize = 0;
        while i < n
            invariant
                self.world@.wf(),
                self.fireflies.wf(),
                self.fireflies.fireflies@.len() == 0,
                self.buttons == old(self).buttons,
                n == self.players@.len() == old(self).players@.len(),
                i <= n,
                players_ok(self.players@),
                forall|j: int| 0 <= j < i ==> (#[trigger] self.players@[j]).points == 0,
                self.world == old(self).world,
                forall|j: int|
                    0 <= j < i ==> !old(self).world@.blocked(#[trigger] self.players@[j].position)
                        || forall|p: crate::geometry::Point| in_field(p) ==> old(self).world@.blocked(p),
                forall|j: int| 0 <= j < n ==> (#[trigger] self.players@[j]).peer == old(self).players@[j].peer,
            decreases n - i,
        {
            let mut p = self.players[i];
            p.reset(&self.world, &mut self.rng);
            self.players.set(i, p);
            i = i + 1;
        }
        self.texts = Vec::new();
        self.particles = ParticleSystem::new(SHARED_PARTICLES);
        self.game_state = GameState::Playing;
    }

    /// Adds points to this device's player and returns its new total; zero
    /// when it has no player.
    pub fn add_points(&mut self, points: i32) -> (r: i32)
        requires
            old(self).wf(),
        ensures
            final(self).wf(),
            ({
                let k = if old(self).me.is_some() {
                    first_of_peer(old(self).players@, old(self).me.unwrap())
                } else {
                    old(self).players@.len() as int
                };
                if k < old(self).players@.len() {
                    &&& final(self).players@ == old(self).players@.update(
                        k,
                        Player {
                            points: capped_sum(old(self).players@[k].points as int, points as int)
                                as i32,
                            ..old(self).players@[k]
                        },
                    )
                    &&& r == final(self).players@[k].points
                } else {
                    &&& final(self).players@ == old(self).players@
                    &&& r == 0
                }
            }),
            final(self).game_state == old(self).game_state,
    {
        let me = match self.me {
            Some(me) => me,
            None => {
                return 0;
            },
        };
        let n = self.players.len();
        let mut i: usize = 0;
        while i < n
            invariant
                n == self.players@.len(),
                i <= n,
                *self == *old(self),
                old(self).wf(),
                old(self).me == Some(me),
                first_of_peer(self.players@.subrange(0, i as int), me) == i,
            decreases n - i,
        {
            proof {
                lemma_first_step(self.players@, i as int);
            }
            if self.players[i].peer == me {
                let mut p = self.players[i];
                assert(self.players@[i as int].wf());
                p.points = capped_add(p.points, points);
                self.players.set(i, p);
                assert(players_ok(self.players@)) by {
                    assert forall|j: int| 0 <= j < n implies (#[trigger] self.players@[j]).wf() by {
                        if j != i {
                            assert(self.players@[j] == old(self).players@[j]);
                        }
                    }
                }
                proof {
                    lemma_first_prefix(old(self).players@, me, i as int);
                }
                return p.points;
            }
            i = i + 1;
        }
        proof {
            assert(self.players@.subrange(0, n as int) =~= self.players@);
        }
        0
    }
}

proof fn lemma_first_prefix(players: Seq<Player>, peer: PeerId, i: int)
    requires
        0 <= i < players.len(),
        first_of_peer(players.subrange(0, i + 1), peer) == i,
    ensures
        first_of_peer(players, peer) == i,
    decreases players.len(),
{
    if players.len() > i + 1 {
        assert(players.drop_last().subrange(0, i + 1) =~= players.subrange(0, i + 1));
        lemma_first_prefix(players.drop_last(), peer, i);
    } else {
        assert(players.subrange(0, i + 1) =~= players);
    }
}

/// Index of the first player at the target that a firefly is attracted
/// to; the number of players when it is attracted to none or no player is
/// there.
pub open spec fn award_index(players: Seq<Player>, f: Firefly) -> int {
    match f.attracted_to {
        Some(t) => first_at_target(players, t),
        None => players.len() as int,
    }
}

/// The players after each firefly of `fs`, in order, has given its points
/// to the player it was drawn to.
pub open spec fn award_points(players: Seq<Player>, fs: Seq<Firefly>) -> Seq<Player>
    decreases fs.len(),
{
    if fs.len() == 0 {
        players
    } else {
        let ps = award_points(players, fs.drop_last());
        let f = fs.last();
        let k = award_index(ps, f);
        if 0 <= k < ps.len() {
            ps.update(
                k,
                Player { points: capped_sum(ps[k].points as int, color_points(f.color) as int) as i32, ..ps[k] },
            )
        } else {
            ps
        }
    }
}

/// How many fireflies of `fs` found a player to give their points to.
pub open spec fn awarded_count(players: Seq<Player>, fs: Seq<Firefly>) -> nat
    decreases fs.len(),
{
    if fs.len() == 0 {
        0
    } else {
        awarded_count(players, fs.drop_last()) + if award_index(
            award_points(players, fs.drop_last()),
            fs.last(),
        ) < players.len() {
            1nat
        } else {
            0nat
        }
    }
}

proof fn lemma_award_points_len(players: Seq<Player>, fs: Seq<Firefly>)
    ensures
        award_points(players, fs).len() == players.len(),
    decreases fs.len(),
{
    if fs.len() > 0 {
        lemma_award_points_len(players, fs.drop_last());
    }
}

/// `players` with each one's points taken from `scores`.
pub open spec fn with_points_of(players: Seq<Player>, scores: Seq<Player>) -> Seq<Player> {
    Seq::new(players.len(), |i: int| Player { points: scores[i].points, ..players[i] })
}

/// The flock and the scores after a frame of play, given the players as
/// they moved: the flock moved on among them, the collectible fireflies left
/// it, and each of those gave its points to the player it was drawn to.
pub open spec fn play_outcome(
    old_fireflies: Seq<Firefly>,
    moved_players: Seq<Player>,
    fireflies: Seq<Firefly>,
    players: Seq<Player>,
    w: crate::world::WorldView,
) -> bool {
    exists|moved: Seq<Firefly>|
        #[trigger] flock_moved_on(old_fireflies, moved, w, moved_players) && fireflies == remaining(
            moved,
            w,
        ) && players == award_points(moved_players, collected(moved, w))
}

pub open spec fn pad_for(input: FrameInput, i: int) -> Option<Pad> {
    if i < input.pads@.len() {
        input.pads@[i]
    } else {
        None
    }
}

pub open spec fn buttons_for(input: FrameInput, i: int) -> Buttons {
    if i < input.buttons@.len() {
        input.buttons@[i]
    } else {
        Buttons { n: false, e: false, s: false, w: false }
    }
}

pub open spec fn input_ok(input: FrameInput) -> bool {
    forall|i: int|
        0 <= i < input.pads@.len() && (#[trigger] input.pads@[i]).is_some() ==> pad_ok(
            input.pads@[i].unwrap(),
        )
}

proof fn lemma_first_at_prefix(players: Seq<Player>, t: crate::geometry::Point, i: int)
    requires
        0 <= i < players.len(),
        first_at_target(players.subrange(0, i + 1), t) == i,
    ensures
        first_at_target(players, t) == i,
    decreases players.len(),
{
    if players.len() > i + 1 {
        assert(players.drop_last().subrange(0, i + 1) =~= players.subrange(0, i + 1));
        lemma_first_at_prefix(players.drop_last(), t, i);
    } else {
        assert(players.subrange(0, i + 1) =~= players);
    }
}

proof fn lemma_first_winner_prefix(players: Seq<Player>, i: int)
    requires
        0 <= i < players.len(),
        first_winner(players.subrange(0, i + 1)) == i,
    ensures
        first_winner(players) == i,
    decreases players.len(),
{
    if players.len() > i + 1 {
        assert(players.drop_last().subrange(0, i + 1) =~= players.subrange(0, i + 1));
        lemma_first_winner_prefix(players.drop_last(), i);
    } else {
        assert(players.subrange(0, i + 1) =~= players);
    }
}

impl State {
    /// A burst of particles where a firefly was collected.
    pub fn spawn_collection_burst(&mut self, firefly: &Firefly)
        requires
            old(self).wf(),
            firefly.wf(),
        ensures
            final(self).world == old(self).world,
            final(self).fireflies == old(self).fireflies,
            final(self).buttons == old(self).buttons,
            final(self).me == old(self).me,
            final(self).wf(),
            final(self).players == old(self).players,
            final(self).game_state == old(self).game_state,
            final(self).texts == old(self).texts,
            final(self).particles@.len() == old(self).particles@.len(),
            ({
                let count = range_pick(xorshift(old(self).rng.state), 30, 40);
                let speed = range_pick(xorshift(xorshift(old(self).rng.state)), 1, 2);
                let before = old(self).particles@;
                let after = final(self).particles@;
                let free = before.len() - active_count(before);
                &&& active_count(after) == active_count(before) + if count <= free {
                    count
                } else {
                    free
                }
                &&& forall|i: int|
                    0 <= i < before.len() && (#[trigger] before[i]).active ==> after[i] == before[i]
                &&& forall|i: int|
                    0 <= i < before.len() && !(#[trigger] before[i]).active ==> after[i] == before[i]
                        || is_burst_particle(
                        after[i],
                        firefly.position.x,
                        firefly.position.y,
                        speed as i16,
                        8,
                        color_palette(firefly.color),
                    )
            }),
    {
        let count = random_range(&mut self.rng, 30, 40) as u8;
        let speed = random_range(&mut self.rng, 1, 2) as i16;
        let color = firefly.color();
        self.particles.spawn_radial_burst(
            firefly.position.x,
            firefly.position.y,
            count,
            speed,
            8,
            color,
            &mut self.rng,
        );
    }

    /// A label with the firefly's points near where it was collected.
    pub fn spawn_point_text(&mut self, firefly: &Firefly)
        requires
            old(self).wf(),
            firefly.wf(),
        ensures
            final(self).world == old(self).world,
            final(self).fireflies == old(self).fireflies,
            final(self).buttons == old(self).buttons,
            final(self).me == old(self).me,
            final(self).wf(),
            final(self).players == old(self).players,
            final(self).game_state == old(self).game_state,
            final(self).texts@.len() == old(self).texts@.len() + 1,
            final(self).texts@.last().points == color_points(firefly.color),
            final(self).texts@.drop_last() == old(self).texts@,
    {
        let position = firefly.position.scatter(LABEL_SCATTER, &mut self.rng);
        let text = Text::new(firefly.points(), firefly.color(), position);
        self.texts.push(text);
        proof {
            assert(self.texts@.drop_last() =~= old(self).texts@);
        }
    }

    /// Awards a collected firefly's points to the first player whose
    /// attraction target it was drawn to, with a burst and a label; returns
    /// whether a player got them.
    pub fn handle_collected_firefly(&mut self, firefly: &Firefly) -> (r: bool)
        requires
            old(self).wf(),
            firefly.wf(),
        ensures
            final(self).world == old(self).world,
            final(self).fireflies == old(self).fireflies,
            final(self).buttons == old(self).buttons,
            final(self).me == old(self).me,
            final(self).wf(),
            final(self).game_state == old(self).game_state,
            r == (award_index(old(self).players@, *firefly) < old(self).players@.len()),
            r ==> final(self).players@ == old(self).players@.update(
                award_index(old(self).players@, *firefly),
                Player {
                    points: capped_sum(
                        old(self).players@[award_index(old(self).players@, *firefly)].points as int,
                        color_points(firefly.color) as int,
                    ) as i32,
                    ..old(self).players@[award_index(old(self).players@, *firefly)]
                },
            ),
            !r ==> final(self).players@ == old(self).players@,
            r ==> final(self).texts@.len() == old(self).texts@.len() + 1,
            r ==> final(self).texts@.drop_last() == old(self).texts@,
            !r ==> final(self).texts@ == old(self).texts@,
    {
        let target = match firefly.attracted_to {
            Some(t) => t,
            None => {
                return false;
            },
        };
        let n = self.players.len();
        let mut i: usize = 0;
        while i < n
            invariant
                n == self.players@.len(),
                i <= n,
                *self == *old(self),
                old(self).wf(),
                firefly.wf(),
                firefly.attracted_to == Some(target),
                first_at_target(self.players@.subrange(0, i as int), target) == i,
            decreases n - i,
        {
            proof {
                lemma_first_step(self.players@, i as int);
            }
            if self.players[i].attraction_target == target {
                proof {
                    lemma_first_at_prefix(old(self).players@, target, i as int);
                }
                let mut p = self.players[i];
                assert(p.wf());
                p.points = capped_add(p.points, firefly.points());
                self.players.set(i, p);
                assert(players_ok(self.players@)) by {
                    assert forall|j: int| 0 <= j < n implies (#[trigger] self.players@[j]).wf() by {
                        if j != i {
                            assert(self.players@[j] == old(self).players@[j]);
                        }
                    }
                }
                let ghost awarded = self.players@;
                self.spawn_collection_burst(firefly);
                self.spawn_point_text(firefly);
                assert(self.players@ == awarded);
                return true;
            }
            i = i + 1;
        }
        proof {
            assert(self.players@.subrange(0, n as int) =~= self.players@);
        }
        false
    }

    /// Hands each collected firefly to its player; one collection sound for
    /// each that scored.
    pub fn collect_fireflies(&mut self, fireflies: Vec<Firefly>) -> (r: Vec<Action>)
        requires
            old(self).wf(),
            flock_ok(fireflies@),
        ensures
            final(self).world == old(self).world,
            final(self).fireflies == old(self).fireflies,
            final(self).buttons == old(self).buttons,
            final(self).me == old(self).me,
            final(self).wf(),
            final(self).game_state == old(self).game_state,
            final(self).players@.len() == old(self).players@.len(),
            forall|i: int|
                0 <= i < final(self).players@.len() ==> #[trigger] final(self).players@[i] == (Player {
                    points: final(self).players@[i].points,
                    ..old(self).players@[i]
                }) && final(self).players@[i].points >= old(self).players@[i].points,
            final(self).players@ == award_points(old(self).players@, fireflies@),
            r@.len() == awarded_count(old(self).players@, fireflies@),
            final(self).texts@.len() == old(self).texts@.len() + r@.len(),
            final(self).texts@.subrange(0, old(self).texts@.len() as int) == old(self).texts@,
            r@.len() <= fireflies@.len(),
            forall|i: int| 0 <= i < r@.len() ==> #[trigger] r@[i] == Action::CollectSound,
    {
        let mut actions: Vec<Action> = Vec::new();
        let mut i: usize = 0;
        while i < fireflies.len()
            invariant
                self.wf(),
                flock_ok(fireflies@),
                i <= fireflies@.len(),
                actions@.len() <= i,
                self.game_state == old(self).game_state,
                self.world == old(self).world,
                self.fireflies == old(self).fireflies,
                self.buttons == old(self).buttons,
                self.me == old(self).me,
                self.players@.len() == old(self).players@.len(),
                forall|j: int|
                    0 <= j < self.players@.len() ==> #[trigger] self.players@[j] == (Player {
                        points: self.players@[j].points,
                        ..old(self).players@[j]
                    }) && self.players@[j].points >= old(self).players@[j].points,
                forall|j: int| 0 <= j < actions@.len() ==> #[trigger] actions@[j]
                    == Action::CollectSound,
                self.players@ == award_points(old(self).players@, fireflies@.subrange(0, i as int)),
                actions@.len() == awarded_count(old(self).players@, fireflies@.subrange(0, i as int)),
                self.texts@.len() == old(self).texts@.len() + actions@.len(),
                self.texts@.subrange(0, old(self).texts@.len() as int) == old(self).texts@,
            decreases fireflies@.len() - i,
        {
            assert(fireflies@[i as int].wf());
            let ghost before = self.players@;
            let ghost texts_before = self.texts@;
            proof {
                let pre = fireflies@.subrange(0, i as int + 1);
                assert(pre.drop_last() =~= fireflies@.subrange(0, i as int));
                assert(pre.last() == fireflies@[i as int]);
                lemma_award_points_len(old(self).players@, fireflies@.subrange(0, i as int));
            }
            let awarded = self.handle_collected_firefly(&fireflies[i]);
            proof {
                let f = fireflies@[i as int];
                let k = award_index(before, f);
                if f.attracted_to.is_some() {
                    lemma_first_at_range(before, f.attracted_to.unwrap());
                }
                if awarded {
                    let q = Player {
                        points: capped_sum(before[k].points as int, color_points(f.color) as int)
                            as i32,
                        ..before[k]
                    };
                    assert(self.players@ == before.update(k, q));
                    assert forall|j: int| 0 <= j < self.players@.len() implies #[trigger] self.players@[j]
                        == (Player { points: self.players@[j].points, ..before[j] })
                        && self.players@[j].points >= before[j].points by {
                        if j == k {
                            assert(self.players@[j] == q);
                        } else {
                            assert(self.players@[j] == before[j]);
                        }
                    }
                }
            }
            proof {
                if awarded {
                    assert(self.texts@.subrange(0, old(self).texts@.len() as int) =~= texts_before.subrange(
                        0,
                        old(self).texts@.len() as int,
                    ));
                }
            }
            if awarded {
                actions.push(Action::CollectSound);
            }
            i = i + 1;
        }
        proof {
            assert(fireflies@.subrange(0, fireflies@.len() as int) =~= fireflies@);
        }
        actions
    }

    /// Ends the game when a player has enough points: the first such player
    /// wins, and is returned.
    pub fn check_win_condition(&mut self) -> (r: Option<PeerId>)
        requires
            old(self).wf(),
        ensures
            final(self).wf(),
            final(self).players == old(self).players,
            first_winner(old(self).players@) < old(self).players@.len() ==> {
                let w = old(self).players@[first_winner(old(self).players@)].peer;
                &&& r == Some(w)
                &&& final(self).game_state == GameState::GameOver(old(self).me == Some(w))
            },
            first_winner(old(self).players@) == old(self).players@.len() ==> r.is_none()
                && final(self).game_state == old(self).game_state,
            *final(self) == (State { game_state: final(self).game_state, ..*old(self) }),
    {
        let n = self.players.len();
        let mut i: usize = 0;
        while i < n
            invariant
                n == self.players@.len(),
                i <= n,
                *self == *old(self),
                old(self).wf(),
                first_winner(self.players@.subrange(0, i as int)) == i,
            decreases n - i,
        {
            proof {
                lemma_first_step(self.players@, i as int);
            }
            if self.players[i].points >= WIN_POINTS {
                proof {
                    lemma_first_winner_prefix(old(self).players@, i as int);
                }
                let winner = self.players[i].peer;
                let mine = match self.me {
                    Some(me) => me == winner,
                    None => false,
                };
                self.game_state = GameState::GameOver(mine);
                return Some(winner);
            }
            i = i + 1;
        }
        proof {
            assert(self.players@.subrange(0, n as int) =~= self.players@);
        }
        None
    }

    /// Ages and moves every label, dropping the ones that have outlived
    /// their time.
    pub fn update_texts(&mut self)
        requires
            old(self).wf(),
        ensures
            final(self).wf(),
            final(self).texts@.len() <= old(self).texts@.len(),
            final(self).texts@ == kept_labels(old(self).texts@),
            *final(self) == (State { texts: final(self).texts, ..*old(self) }),
    {
        let mut kept: Vec<Text> = Vec::new();
        let n = self.texts.len();
        let mut i: usize = 0;
        while i < n
            invariant
                n == self.texts@.len(),
                i <= n,
                *self == *old(self),
                old(self).wf(),
                kept@.len() <= i,
                texts_ok(kept@),
                kept@ == kept_labels(self.texts@.subrange(0, i as int)),
            decreases n - i,
        {
            proof {
                assert(self.texts@.subrange(0, i as int + 1).drop_last() =~= self.texts@.subrange(0, i as int));
            }
            let mut t = self.texts[i];
            assert(text_ok(t));
            t.update();
            if !t.remove() {
                kept.push(t);
                assert(texts_ok(kept@)) by {
                    assert forall|j: int| 0 <= j < kept@.len() implies text_ok(#[trigger] kept@[j]) by {
                        if j < kept@.len() - 1 {
                        }
                    }
                }
            }
            i = i + 1;
        }
        proof {
            assert(self.texts@.subrange(0, n as int) =~= self.texts@);
        }
        self.texts = kept;
    }

    /// One frame of play: players move (the camera follows this device's
    /// player), the flock moves, collected fireflies score, a winner ends
    /// the game, labels age and the shared particles move.
    pub fn update_playing(&mut self, input: &FrameInput) -> (r: Vec<Action>)
        requires
            old(self).wf(),
            input_ok(*input),
        ensures
            final(self).wf(),
            final(self).players@.len() == old(self).players@.len(),
            forall|i: int|
                0 <= i < old(self).players@.len() && (#[trigger] final(self).players@[i]).position
                    != old(self).players@[i].position ==> !final(self).world@.blocked(
                    final(self).players@[i].position,
                ),
            forall|i: int|
                0 <= i < final(self).fireflies.fireflies@.len() ==> !collectible(
                    #[trigger] final(self).fireflies.fireflies@[i],
                    final(self).world@,
                ),
            final(self).game_state == old(self).game_state || (exists|won: bool|
                final(self).game_state == GameState::GameOver(won)),
            final(self).world@ == old(self).world@,
            final(self).buttons == old(self).buttons,
            exists|labels: Seq<Text>|
                labels.len() >= old(self).texts@.len() && labels.subrange(
                    0,
                    old(self).texts@.len() as int,
                ) == old(self).texts@ && final(self).texts@ == #[trigger] kept_labels(labels),
            play_outcome(
                old(self).fireflies.fireflies@,
                with_points_of(final(self).players@, old(self).players@),
                final(self).fireflies.fireflies@,
                final(self).players@,
                old(self).world@,
            ),
            forall|i: int|
                0 <= i < old(self).players@.len() ==> player_frame(
                    old(self).players@[i],
                    Player { points: old(self).players@[i].points, ..#[trigger] final(self).players@[i] },
                    old(self).world@,
                    pad_for(*input, i),
                    buttons_for(*input, i),
                ) && final(self).players@[i].points >= old(self).players@[i].points,
    {
        let n = self.players.len();
        let mut i: usize = 0;
        while i < n
            invariant
                self.wf(),
                input_ok(*input),
                n == self.players@.len() == old(self).players@.len(),
                i <= n,
                self.world@ == old(self).world@,
                self.game_state == old(self).game_state,
                self.buttons == old(self).buttons,
                self.fireflies == old(self).fireflies,
                self.texts == old(self).texts,
                forall|j: int|
                    0 <= j < n && (#[trigger] self.players@[j]).position != old(self).players@[j].position ==> !self.world@.blocked(self.players@[j].position),
                forall|j: int| i <= j < n ==> #[trigger] self.players@[j] == old(self).players@[j],
                forall|j: int|
                    0 <= j < i ==> player_frame(
                        old(self).players@[j],
                        #[trigger] self.players@[j],
                        old(self).world@,
                        pad_for(*input, j),
                        buttons_for(*input, j),
                    ),
            decreases n - i,
        {
            let pad = if i < input.pads.len() {
                input.pads[i]
            } else {
                None
            };
            let buttons = if i < input.buttons.len() {
                input.buttons[i]
            } else {
                Buttons::none()
            };
            let mut p = self.players[i];
            assert(p.wf());
            p.update(&self.world, pad, buttons);
            self.players.set(i, p);
            assert(player_frame(
                old(self).players@[i as int],
                self.players@[i as int],
                old(self).world@,
                pad_for(*input, i as int),
                buttons_for(*input, i as int),
            ));
            assert(players_ok(self.players@)) by {
                assert forall|j: int| 0 <= j < n implies (#[trigger] self.players@[j]).wf() by {
                    if j != i {
                    }
                }
            }
            let mine = match self.me {
                Some(me) => me == p.peer,
                None => false,
            };
            if mine {
                self.camera.follow_player(p.position, CAMERA_SMOOTHNESS);
            }
            i = i + 1;
        }
        let ghost moved = self.players@;
        let ghost old_flock = self.fireflies.fireflies@;
        let removed = self.fireflies.update(&self.world, &self.players, &mut self.rng);
        let ghost moved_flock = choose|m: Seq<Firefly>|
            flock_moved_on(old_flock, m, self.world@, moved) && removed@ == #[trigger] collected(
                m,
                self.world@,
            ) && self.fireflies.fireflies@ == remaining(m, self.world@);
        let mut actions = self.collect_fireflies(removed);
        match self.check_win_condition() {
            Some(winner) => {
                actions.push(Action::AwardWin(winner));
            },
            None => {},
        }
        let ghost labels = self.texts@;
        self.update_texts();
        self.particles.update();
        assert(labels.subrange(0, old(self).texts@.len() as int) == old(self).texts@);
        assert(forall|j: int|
            0 <= j < n ==> (#[trigger] self.players@[j]).position == moved[j].position);
        proof {
            assert(with_points_of(self.players@, old(self).players@) =~= moved);
            assert(flock_moved_on(old_flock, moved_flock, self.world@, moved));
            assert(self.fireflies.fireflies@ == remaining(moved_flock, self.world@));
            assert(self.players@ == award_points(moved, collected(moved_flock, self.world@)));
        }
        actions
    }

    /// One frame. On the title, credits, info and died screens any newly
    /// pressed button moves on; after a game is over the east button
    /// restarts; during play the game advances a frame.
    pub fn update(&mut self, input: &FrameInput) -> (r: Vec<Action>)
        requires
            old(self).wf(),
            input_ok(*input),
        ensures
            final(self).wf(),
            final(self).buttons == input.combined,
            ({
                let pressed = input.combined.pressed_since(old(self).buttons);
                match old(self).game_state {
                    GameState::Title | GameState::Died => {
                        &&& final(self).game_state == if pressed.any_spec() {
                            GameState::Playing
                        } else {
                            old(self).game_state
                        }
                        &&& final(self).players == old(self).players
                        &&& r@.len() == 0
                    },
                    GameState::Credits | GameState::Info => {
                        &&& final(self).game_state == if pressed.any_spec() {
                            GameState::Title
                        } else {
                            old(self).game_state
                        }
                        &&& final(self).players == old(self).players
                        &&& r@.len() == 0
                    },
                    GameState::GameOver(_) => {
                        &&& pressed.e ==> final(self).game_state == GameState::Playing
                            && final(self).players@.len() == old(self).players@.len()
                            && forall|i: int|
                            0 <= i < old(self).players@.len() ==> (#[trigger] final(self).players@[i]).points == 0
                        &&& !pressed.e ==> final(self).game_state == old(self).game_state
                            && final(self).players == old(self).players
                        &&& r@.len() == 0
                    },
                    GameState::Playing => {
                        &&& final(self).players@.len() == old(self).players@.len()
                        &&& exists|labels: Seq<Text>|
                            labels.len() >= old(self).texts@.len() && labels.subrange(
                                0,
                                old(self).texts@.len() as int,
                            ) == old(self).texts@ && final(self).texts@ == #[trigger] kept_labels(
                                labels,
                            )
                        &&& play_outcome(
                            old(self).fireflies.fireflies@,
                            with_points_of(final(self).players@, old(self).players@),
                            final(self).fireflies.fireflies@,
                            final(self).players@,
                            old(self).world@,
                        )
                        &&& forall|i: int|
                            0 <= i < old(self).players@.len() ==> player_frame(
                                old(self).players@[i],
                                Player {
                                    points: old(self).players@[i].points,
                                    ..#[trigger] final(self).players@[i]
                                },
                                old(self).world@,
                                pad_for(*input, i),
                                buttons_for(*input, i),
                            ) && final(self).players@[i].points >= old(self).players@[i].points
                        &&& forall|i: int|
                            0 <= i < old(self).players@.len() && (#[trigger] final(self).players@[i]).position != old(self).players@[i].position
                                ==> !final(self).world@.blocked(final(self).players@[i].position)
                        &&& forall|i: int|
                            0 <= i < final(self).fireflies.fireflies@.len() ==> !collectible(
                                #[trigger] final(self).fireflies.fireflies@[i],
                                final(self).world@,
                            )
                        &&& final(self).game_state == GameState::Playing || (exists|won: bool|
                            final(self).game_state == GameState::GameOver(won))
                    },
                }
            }),
    {
        let just_pressed = input.combined.just_pressed(&self.buttons);
        self.buttons = input.combined;
        match self.game_state {
            GameState::Title | GameState::Died => {
                if just_pressed.any() {
                    self.game_state = GameState::Playing;
                }
                Vec::new()
            },
            GameState::Credits | GameState::Info => {
                if just_pressed.any() {
                    self.game_state = GameState::Title;
                }
                Vec::new()
            },
            GameState::Playing => self.update_playing(input),
            GameState::GameOver(_) => {
                if just_pressed.e {
                    self.restart();
                }
                Vec::new()
            },
        }
    }
}

} // verus!
