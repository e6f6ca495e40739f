use lampy::camera::Camera;
use lampy::fireflies::Fireflies;
use lampy::firefly::Firefly;
use lampy::geometry::{Angle, Point, Rectangle};
use lampy::messages::{render_died, render_gameover};
use lampy::palette::{FireflyColor, Palette};
use lampy::particles::{Particle, ParticleSystem};
use lampy::player::{Buttons, Pad, PeerId, Player};
use lampy::random::Random;
use lampy::state::{Action, FrameInput, GameState, State};
use lampy::text::Text;
use lampy::world::World;

fn world_from(rows: &[&[i32]]) -> World {
    World::new_from_2d_array(rows)
}

fn open_world() -> World {
    let rows = vec![vec![0; 30]; 30];
    let slices: Vec<&[i32]> = rows.iter().map(|r| r.as_slice()).collect();
    World::new_from_2d_array(&slices)
}

fn firefly_at(position: Point, color: FireflyColor) -> Firefly {
    Firefly {
        attracted_to: None,
        color,
        direction: Angle::zero(),
        particles: ParticleSystem::new(20),
        position,
        remainder: 0,
        cached_pos: None,
        cache_age: 255,
    }
}

fn idle_input(players: usize) -> FrameInput {
    FrameInput { combined: Buttons::none(), pads: vec![None; players], buttons: vec![Buttons::none(); players] }
}

#[test]
fn world_classifies_tiles() {
    let w = world_from(&[&[0, 1, 24], &[16, 17, 25]]);
    assert_eq!(w.width(), 3);
    assert_eq!(w.height(), 2);
    assert!(!w.is_blocked(Point::new(5, 5)));
    assert!(w.is_blocked(Point::new(20, 5)));
    assert!(!w.is_blocked(Point::new(40, 5)));
    assert!(w.is_in_goal(Point::new(40, 5)));
    assert!(w.is_in_goal(Point::new(47, 31)));
    assert!(!w.is_in_goal(Point::new(5, 20)));
}

#[test]
fn world_off_grid_is_open_and_not_goal() {
    let w = world_from(&[&[1, 1], &[1, 1]]);
    assert!(w.is_blocked(Point::new(0, 0)));
    assert!(!w.is_blocked(Point::new(32, 0)));
    assert!(!w.is_blocked(Point::new(0, 500)));
    assert!(!w.is_blocked(Point::new(-17, 3)));
    // Pixel coordinates divide toward zero: -5 falls in column zero.
    assert!(w.is_blocked(Point::new(-5, 3)));
    assert!(!w.is_in_goal(Point::new(-100, -100)));
}

#[test]
fn empty_grid_gives_empty_world() {
    let w = world_from(&[]);
    assert_eq!(w.width(), 0);
    assert_eq!(w.height(), 0);
    assert!(!w.is_blocked(Point::new(0, 0)));
}

#[test]
fn random_unblocked_point_avoids_walls() {
    let w = world_from(&[&[1, 0], &[1, 1]]);
    let mut rng = Random::new(5);
    for _ in 0..20 {
        let p = w
            .random_unblocked_point_in_rectangle(Rectangle::new(Point::new(0, 0), 32, 32), &mut rng)
            .unwrap();
        assert!((16..32).contains(&p.x) && (0..16).contains(&p.y));
    }
}

#[test]
fn random_unblocked_point_all_solid_is_none() {
    let w = world_from(&[&[1, 1], &[1, 1]]);
    let mut rng = Random::new(5);
    assert!(w.random_unblocked_point_in_rectangle(Rectangle::new(Point::new(0, 0), 32, 32), &mut rng).is_none());
    assert!(w.random_unblocked_point_in_rectangle(Rectangle::new(Point::new(0, 0), 0, 10), &mut rng).is_none());
}

#[test]
fn particle_spawn_into_full_pool_is_dropped() {
    let mut ps = ParticleSystem::new(2);
    ps.spawn(10, 10, 0, 0, 5, Palette::SoftRed, 1);
    ps.spawn(11, 11, 0, 0, 5, Palette::SoftRed, 1);
    assert_eq!(ps.count(), 2);
    ps.spawn(12, 12, 0, 0, 5, Palette::SoftRed, 1);
    assert_eq!(ps.count(), 2);
    assert_eq!(ps.capacity(), 2);
}

#[test]
fn particle_expires_after_its_lifetime() {
    let mut ps = ParticleSystem::new(4);
    ps.spawn(100, 100, 0, 0, 3, Palette::BrightBlue, 1);
    ps.update();
    ps.update();
    assert_eq!(ps.count(), 1);
    ps.update();
    assert_eq!(ps.count(), 0);
}

#[test]
fn particle_moves_by_shifted_velocity_and_leaves_world() {
    let mut ps = ParticleSystem::new(1);
    ps.spawn(2, 2, -40, 33, 50, Palette::Green, 1);
    ps.update();
    let cam = Camera::new(480, 480);
    // -40 >> 4 is -3, 33 >> 4 is 2.
    assert_eq!(ps.render(&cam), vec![(Point::new(-1, 4), Palette::Green)]);
    ps.update();
    ps.update();
    // x is now -7: past the five-pixel margin.
    assert_eq!(ps.count(), 0);
}

#[test]
fn radial_burst_fills_free_slots_only() {
    let mut rng = Random::new(3);
    let mut ps = ParticleSystem::new(10);
    ps.spawn(0, 0, 0, 0, 9, Palette::Black, 1);
    ps.spawn_radial_burst(50, 50, 4, 2, 8, Palette::SoftRed, &mut rng);
    assert_eq!(ps.count(), 5);
    ps.spawn_radial_burst(50, 50, 40, 2, 8, Palette::SoftRed, &mut rng);
    assert_eq!(ps.count(), 10);
    ps.clear();
    assert_eq!(ps.count(), 0);
}

#[test]
fn particle_lifetime_fraction() {
    let mut p = Particle::empty();
    assert_eq!(p.calculate_lifetime(), 0);
    p.lifetime = 15;
    p.max_lifetime = 30;
    assert_eq!(p.calculate_lifetime(), 127);
}

#[test]
fn firefly_colors_points_and_regions() {
    assert_eq!(FireflyColor::SoftRed.points(), 1);
    assert_eq!(FireflyColor::BrightMagenta.points(), 2);
    assert_eq!(FireflyColor::BrightGreen.points(), 3);
    assert_eq!(FireflyColor::BrightBlue.points(), 5);
    assert_eq!(FireflyColor::Plain.points(), 0);
    assert_eq!(FireflyColor::BrightGreen.color(), Palette::BrightGreen);
    assert_eq!(FireflyColor::Plain.color(), Palette::Black);
    assert_eq!(FireflyColor::BrightBlue.starting_rect(), Rectangle::new(Point::new(256, 256), 192, 192));
    assert_eq!(Palette::SoftRed.index(), 13);
    let mut rng = Random::new(11);
    for _ in 0..100 {
        assert_ne!(FireflyColor::random(&mut rng), FireflyColor::Plain);
    }
}

fn player_at(position: Point, world: &World) -> Player {
    let mut rng = Random::new(1);
    let mut p = Player::new(PeerId(0), world, &mut rng);
    p.position = position;
    p.attraction_target = Player::calculate_attraction_target(position, Angle::zero());
    p
}

#[test]
fn deadzone_input_does_not_move() {
    let w = open_world();
    let mut p = player_at(Point::new(100, 100), &w);
    p.update(&w, Some(Pad { x: 3, y: 4 }), Buttons::none());
    assert_eq!(p.position, Point::new(100, 100));
    assert_eq!(p.speed, 5);
}

#[test]
fn strong_input_moves_and_retargets() {
    let w = open_world();
    let mut p = player_at(Point::new(100, 100), &w);
    // Full right: 1000 * 0.512 = 512 sub-pixel units, two pixels.
    p.update(&w, Some(Pad { x: 1000, y: 0 }), Buttons::none());
    assert_eq!(p.position, Point::new(102, 100));
    assert_eq!(p.attraction_target, Point::new(122, 100));
    // Pad up is screen up.
    p.update(&w, Some(Pad { x: 0, y: 1000 }), Buttons::none());
    assert_eq!(p.position, Point::new(102, 98));
}

#[test]
fn player_stops_at_wall() {
    let mut rows = vec![vec![0; 30]; 30];
    rows[6][7] = 1;
    let slices: Vec<&[i32]> = rows.iter().map(|r| r.as_slice()).collect();
    let w = World::new_from_2d_array(&slices);
    let mut p = player_at(Point::new(110, 100), &w);
    for _ in 0..10 {
        p.update(&w, Some(Pad { x: 1000, y: 0 }), Buttons::none());
        assert!(!w.is_blocked(p.position));
    }
    assert_eq!(p.position, Point::new(111, 100));
}

#[test]
fn light_cone_color_follows_buttons() {
    let w = world_from(&[&[0]]);
    let mut p = player_at(Point::new(5, 5), &w);
    let north = Buttons { n: true, e: false, s: false, w: false };
    p.update_light_cone(north);
    assert_eq!(p.color, Some(Palette::SoftRed));
    let both = Buttons { n: true, e: false, s: false, w: true };
    p.update_light_cone(both);
    assert_eq!(p.color, Some(Palette::BrightBlue));
    p.update_light_cone(Buttons::none());
    assert_eq!(p.color, None);
}

#[test]
fn wall_bounce_from_the_left() {
    let w = world_from(&[&[0, 1]]);
    let players: Vec<Player> = Vec::new();
    for seed in 1..50 {
        let mut rng = Random::new(seed);
        let mut f = firefly_at(Point::new(15, 8), FireflyColor::SoftRed);
        f.remainder = 256;
        f.update_movement(&w, &players, &mut rng);
        assert_eq!(f.position, Point::new(15, 8));
        let d = f.direction.degrees();
        assert!((90..210).contains(&d), "direction {}", d);
    }
}

#[test]
fn firefly_steers_to_matching_light_in_reach() {
    let w = open_world();
    let mut rng = Random::new(4);
    let mut red = player_at(Point::new(100, 100), &w);
    red.color = Some(Palette::SoftRed);
    red.attraction_target = Point::new(130, 100);
    let mut blue = player_at(Point::new(100, 100), &w);
    blue.color = Some(Palette::BrightBlue);
    blue.attraction_target = Point::new(101, 100);
    let players = vec![blue, red];
    let mut f = firefly_at(Point::new(100, 100), FireflyColor::SoftRed);
    assert_eq!(f.find_closest_target(&players), Some(Point::new(130, 100)));
    f.update_movement(&w, &players, &mut rng);
    assert_eq!(f.attracted_to, Some(Point::new(130, 100)));
    assert_eq!(f.direction.degrees(), 0);
    assert_eq!(f.cache_age, 0);
    // Out of reach: 40 pixels or more.
    let mut far = red;
    far.attraction_target = Point::new(140, 100);
    let fresh = firefly_at(Point::new(100, 100), FireflyColor::SoftRed);
    assert_eq!(fresh.find_closest_target(&vec![far]), None);
}

#[test]
fn cache_is_reused_until_threshold() {
    let w = open_world();
    let mut rng = Random::new(4);
    let mut red = player_at(Point::new(100, 100), &w);
    red.color = Some(Palette::SoftRed);
    red.attraction_target = Point::new(300, 300);
    let players = vec![red];
    let mut f = firefly_at(Point::new(100, 100), FireflyColor::SoftRed);
    f.update_movement(&w, &players, &mut rng);
    assert_eq!(f.cache_age, 0);
    for age in 1..=5u8 {
        f.update_movement(&w, &players, &mut rng);
        assert_eq!(f.cache_age, age);
    }
    f.update_movement(&w, &players, &mut rng);
    assert_eq!(f.cache_age, 0);
}

#[test]
fn fireflies_stay_out_of_walls() {
    let mut rows = vec![vec![0; 30]; 30];
    for i in 0..30 {
        rows[i][10] = 1;
        rows[10][i] = 1;
    }
    let slices: Vec<&[i32]> = rows.iter().map(|r| r.as_slice()).collect();
    let w = World::new_from_2d_array(&slices);
    let mut rng = Random::new(17);
    let players: Vec<Player> = Vec::new();
    let mut f = firefly_at(Point::new(150, 150), FireflyColor::SoftRed);
    for _ in 0..2000 {
        f.update(&w, &players, &mut rng);
        assert!(!w.is_blocked(f.position));
        assert!(f.particles.count() <= 20);
    }
}

#[test]
fn collection_awards_points() {
    let world = world_from(&[&[24]]);
    let peers = vec![PeerId(1)];
    let mut state = State::new(PeerId(1), &peers, world, 42);
    state.players[0].position = Point::new(8, 8);
    state.players[0].attraction_target = Point::new(8, 8);
    state.players[0].color = Some(Palette::SoftRed);
    let mut f = firefly_at(Point::new(8, 8), FireflyColor::SoftRed);
    f.attracted_to = Some(Point::new(8, 8));
    state.fireflies = Fireflies { fireflies: vec![f] };
    state.game_state = GameState::Playing;
    let mut input = idle_input(1);
    input.buttons = vec![Buttons { n: true, e: false, s: false, w: false }];
    state.buttons = Buttons::none();
    state.players[0].buttons = Buttons { n: true, e: false, s: false, w: false };
    let actions = state.update(&input);
    assert_eq!(state.players[0].points, 1);
    assert_eq!(actions, vec![Action::CollectSound]);
    assert!(state.fireflies.fireflies.iter().all(|f| f.position != Point::new(8, 8)));
    assert_eq!(state.texts.len(), 1);
    assert_eq!(state.texts[0].points, 1);
}

#[test]
fn reaching_win_points_ends_game() {
    let world = open_world();
    let peers = vec![PeerId(1), PeerId(2)];
    let mut state = State::new(PeerId(2), &peers, world, 42);
    state.game_state = GameState::Playing;
    state.players[1].points = 20;
    let actions = state.update(&idle_input(2));
    assert_eq!(state.game_state, GameState::GameOver(true));
    assert_eq!(actions.last(), Some(&Action::AwardWin(PeerId(2))));
    let press_e = FrameInput { combined: Buttons { n: false, e: true, s: false, w: false }, pads: vec![], buttons: vec![] };
    state.update(&press_e);
    assert_eq!(state.game_state, GameState::Playing);
    assert_eq!(state.players[1].points, 0);
}

#[test]
fn menu_screens_advance_on_press() {
    let world = world_from(&[&[0]]);
    let mut state = State::new(PeerId(0), &vec![PeerId(0)], world, 1);
    assert_eq!(state.game_state, GameState::Title);
    state.update(&idle_input(1));
    assert_eq!(state.game_state, GameState::Title);
    let press = FrameInput { combined: Buttons { n: false, e: false, s: true, w: false }, pads: vec![], buttons: vec![] };
    state.update(&press);
    assert_eq!(state.game_state, GameState::Playing);
    state.game_state = GameState::Credits;
    // Still held: not newly pressed.
    state.update(&press);
    assert_eq!(state.game_state, GameState::Credits);
    state.update(&idle_input(1));
    state.update(&press);
    assert_eq!(state.game_state, GameState::Title);
}

#[test]
fn add_points_goes_to_own_player() {
    let world = world_from(&[&[0]]);
    let mut state = State::new(PeerId(7), &vec![PeerId(3), PeerId(7)], world, 1);
    assert_eq!(state.add_points(4), 4);
    assert_eq!(state.add_points(2), 6);
    assert_eq!(state.players[0].points, 0);
    state.me = None;
    assert_eq!(state.add_points(2), 0);
}

#[test]
fn texts_rise_and_expire() {
    let mut t = Text::new(3, Palette::SoftRed, Point::new(10, 100));
    t.update();
    assert_eq!(t.position.y, 99);
    t.update();
    assert_eq!(t.position.y, 99);
    t.update();
    assert_eq!(t.position.y, 98);
    for _ in 0..28 {
        t.update();
    }
    assert!(t.remove());
}

#[test]
fn end_messages_are_centered() {
    let died = render_died();
    assert_eq!(died, vec![("You died!", Point::new(48, 80)), ("Press <E>", Point::new(48, 96))]);
    let won = render_gameover(true);
    assert_eq!(won[0], ("You win!", Point::new(56, 80)));
    let lost = render_gameover(false);
    assert_eq!(lost[0], ("You lost!", Point::new(48, 80)));
}

#[test]
fn tiles_in_view_are_culled_and_placed() {
    let w = open_world();
    let mut cam = Camera::new(480, 480);
    cam.set_camera_position(Point::new(20, 8));
    let tiles = w.tiles_in_view(&cam);
    // Columns 1..=16 and rows 0..=10 touch the screen.
    assert_eq!(tiles.len(), 16 * 11);
    assert_eq!(tiles[0].0.position, Point::new(16, 0));
    assert_eq!(tiles[0].1, Point::new(-4, -8));
    assert_eq!(tiles[16].0.position, Point::new(16, 16));
    let far = {
        let mut c = Camera::new(480, 480);
        c.set_camera_position(Point::new(1000, 1000));
        c
    };
    assert!(w.tiles_in_view(&far).is_empty());
}

#[test]
fn light_cone_and_lamp_follow_the_light() {
    let w = open_world();
    let mut p = player_at(Point::new(100, 100), &w);
    let cam = Camera::new(480, 480);
    assert_eq!(p.light_cone(&cam), None);
    assert_eq!(p.lamp(&cam), (Point::new(98, 98), Palette::Yellow));
    p.color = Some(Palette::BrightGreen);
    let (a, b, c, color) = p.light_cone(&cam).unwrap();
    assert_eq!(a, Point::new(100, 100));
    assert_eq!(color, Palette::BrightGreen);
    // 25 px at -9 and +9 degrees.
    assert_eq!(b, Point::new(124, 96));
    assert_eq!(c, Point::new(124, 103));
    assert_eq!(p.lamp(&cam).1, Palette::BrightGreen);
}

#[test]
fn flock_update_separates_collected() {
    let w = world_from(&[&[24, 0], &[0, 0]]);
    let mut red = player_at(Point::new(8, 8), &w);
    red.color = Some(Palette::SoftRed);
    red.attraction_target = Point::new(8, 8);
    let players = vec![red];
    let mut at_goal = firefly_at(Point::new(8, 8), FireflyColor::SoftRed);
    at_goal.attracted_to = Some(Point::new(8, 8));
    let wandering = firefly_at(Point::new(24, 24), FireflyColor::BrightBlue);
    let mut flock = Fireflies { fireflies: vec![at_goal, wandering] };
    let mut rng = Random::new(9);
    let collected = flock.update(&w, &players, &mut rng);
    assert_eq!(collected.len(), 1);
    assert_eq!(collected[0].color, FireflyColor::SoftRed);
    assert!(flock.fireflies.iter().any(|f| f.color == FireflyColor::BrightBlue));
    assert!(flock.fireflies.iter().all(|f| !Fireflies::should_collect_firefly(f, &w)));
}

#[test]
fn new_random_firefly_starts_in_its_region() {
    let w = open_world();
    let mut rng = Random::new(21);
    for _ in 0..50 {
        let f = Firefly::new_random(&w, &mut rng).unwrap();
        let r = f.color.starting_rect();
        assert!(f.position.x >= r.x() && f.position.x <= r.bottom_right().x);
        assert!(f.position.y >= r.y() && f.position.y <= r.bottom_right().y);
        assert_eq!(f.attracted_to, None);
        assert_eq!(f.points(), f.color.points());
    }
}

#[test]
fn restart_clears_the_round() {
    let world = open_world();
    let mut state = State::new(PeerId(0), &vec![PeerId(0)], world, 5);
    state.players[0].points = 7;
    state.texts.push(Text::new(1, Palette::SoftRed, Point::new(5, 5)));
    state.game_state = GameState::GameOver(false);
    state.restart();
    assert_eq!(state.game_state, GameState::Playing);
    assert_eq!(state.players[0].points, 0);
    assert!(state.texts.is_empty());
    assert!(state.fireflies.fireflies.is_empty());
    assert_eq!(state.particles.count(), 0);
    assert!(!state.world.is_blocked(state.players[0].position));
}

#[test]
fn collected_firefly_without_player_scores_nothing() {
    let world = open_world();
    let mut state = State::new(PeerId(0), &vec![PeerId(0)], world, 5);
    state.players[0].attraction_target = Point::new(1, 1);
    let mut f = firefly_at(Point::new(50, 50), FireflyColor::BrightBlue);
    f.attracted_to = Some(Point::new(2, 2));
    assert!(!state.handle_collected_firefly(&f));
    assert_eq!(state.players[0].points, 0);
    f.attracted_to = Some(Point::new(1, 1));
    assert!(state.handle_collected_firefly(&f));
    assert_eq!(state.players[0].points, 5);
    assert_eq!(state.check_win_condition(), None);
}

#[test]
fn matches_player_compares_light_color() {
    let w = open_world();
    let f = firefly_at(Point::new(50, 50), FireflyColor::BrightMagenta);
    let mut p = player_at(Point::new(60, 60), &w);
    assert!(!f.matches_player(&p));
    p.color = Some(Palette::BrightMagenta);
    assert!(f.matches_player(&p));
    assert_eq!(f.color(), Palette::BrightMagenta);
}

#[test]
fn add_points_accepts_negative_awards() {
    let world = world_from(&[&[0]]);
    let mut state = State::new(PeerId(0), &vec![PeerId(0)], world, 1);
    assert_eq!(state.add_points(3), 3);
    assert_eq!(state.add_points(-5), -2);
}

#[test]
fn firefly_at_field_edge_of_wider_grid_stays_out_of_wall() {
    // Column 30 (pixels 480..495) is solid on a grid wider than the field.
    let mut rows = vec![vec![0; 32]; 2];
    rows[0][30] = 1;
    rows[1][30] = 1;
    let slices: Vec<&[i32]> = rows.iter().map(|r| r.as_slice()).collect();
    let w = World::new_from_2d_array(&slices);
    let players: Vec<Player> = Vec::new();
    let mut rng = Random::new(3);
    let mut f = firefly_at(Point::new(479, 8), FireflyColor::SoftRed);
    f.remainder = 256;
    f.update_movement(&w, &players, &mut rng);
    assert_eq!(f.position, Point::new(479, 8));
    let d = f.direction.degrees();
    assert!((90..210).contains(&d));
}

#[test]
fn labels_age_and_expire_in_a_frame() {
    let world = world_from(&[&[0]]);
    let mut state = State::new(PeerId(0), &vec![PeerId(0)], world, 1);
    let mut old = Text::new(1, Palette::SoftRed, Point::new(5, 50));
    old.age = 30;
    state.texts = vec![Text::new(2, Palette::BrightBlue, Point::new(5, 50)), old];
    state.update_texts();
    assert_eq!(state.texts.len(), 1);
    assert_eq!(state.texts[0].age, 1);
    assert_eq!(state.texts[0].position, Point::new(5, 49));
}

#[test]
fn collection_burst_fills_shared_pool() {
    let world = world_from(&[&[0]]);
    let mut state = State::new(PeerId(0), &vec![PeerId(0)], world, 1);
    let f = firefly_at(Point::new(8, 8), FireflyColor::BrightGreen);
    state.spawn_collection_burst(&f);
    let n = state.particles.count();
    assert!((30..=40).contains(&n));
}
