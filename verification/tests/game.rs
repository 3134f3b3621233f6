use square_shooter::bullet::Bullet;
use square_shooter::enemy::Enemy;
use square_shooter::game::{MyGame, SPAWN_PERIOD, SPAWN_POINTS};
use square_shooter::motion::Motion;
use square_shooter::player::{InputState, Player};
use square_shooter::scene::{Block, Paint};

const WINDOW: (i32, i32) = (800, 600);

const PLACES: [(i32, i32); 4] = [(-50, -50), (850, -50), (-50, 650), (8050, 650)];

/// The arithmetic of a frame of `seconds`, with the cursor at `mouse`.
struct Frame {
    seconds: f32,
    mouse: (f32, f32),
}

fn normalize(v: (f32, f32)) -> (f32, f32) {
    if v.0 != 0. && v.1 != 0. {
        let length = (v.0.powi(2) + v.1.powi(2)).sqrt();
        (v.0 / length, v.1 / length)
    } else {
        v
    }
}

fn bits(v: (f32, f32)) -> (u32, u32) {
    (v.0.to_bits(), v.1.to_bits())
}

impl Motion for Frame {
    fn unit(&self, vector: (i32, i32)) -> (u32, u32) {
        bits(normalize((vector.0 as f32, vector.1 as f32)))
    }

    fn aim(&self, from: (i32, i32)) -> (u32, u32) {
        bits(normalize((self.mouse.0 - from.0 as f32, self.mouse.1 - from.1 as f32)))
    }

    fn travel(&self, direction: (u32, u32), speed: u32) -> (i32, i32) {
        (
            (f32::from_bits(direction.0) * speed as f32 * self.seconds) as i32,
            (f32::from_bits(direction.1) * speed as f32 * self.seconds) as i32,
        )
    }
}

fn idle() -> InputState {
    InputState { right: false, left: false, up: false, down: false, fire: false }
}

fn firing() -> InputState {
    InputState { right: false, left: false, up: false, down: false, fire: true }
}

fn east() -> (u32, u32) {
    bits((1., 0.))
}

fn gone(position: (i32, i32)) -> Enemy {
    Enemy { position, size: (40, 40), speed: 0 }
}

#[test]
fn a_new_game_starts_at_zero() {
    let game = MyGame::new();
    assert_eq!(game.score, 0);
    assert!(game.enemies.is_empty());
    assert_eq!(game.spawn_enemy_timer, 0);
    assert_eq!(game.player, Player::new());
}

#[test]
fn the_four_spawn_places() {
    assert_eq!(SPAWN_POINTS, 4);
    assert_eq!(MyGame::spawn_position(0), (-50, -50));
    assert_eq!(MyGame::spawn_position(1), (850, -50));
    assert_eq!(MyGame::spawn_position(2), (-50, 650));
    assert_eq!(MyGame::spawn_position(3), (8050, 650));
}

#[test]
fn a_spawned_enemy_comes_first() {
    let mut game = MyGame::new();
    game.spawn_at(1);
    game.spawn_at(3);
    game.spawn_at(0);
    assert_eq!(
        game.enemies,
        vec![Enemy::new((-50, -50)), Enemy::new((8050, 650)), Enemy::new((850, -50))]
    );
    assert_eq!(game.score, 0);
    assert_eq!(game.spawn_enemy_timer, 0);
    assert_eq!(game.player, Player::new());
}

#[test]
fn an_enemy_is_due_after_more_than_a_second() {
    let mut game = MyGame::new();
    assert!(!game.spawn_tick(400_000_000));
    assert_eq!(game.spawn_enemy_timer, 400_000_000);
    assert!(!game.spawn_tick(600_000_000));
    assert_eq!(game.spawn_enemy_timer, SPAWN_PERIOD);
    assert!(game.spawn_tick(1));
    assert_eq!(game.spawn_enemy_timer, 0);
    assert!(game.enemies.is_empty());
}

#[test]
fn the_spawn_timer_stops_at_its_largest_value() {
    let mut game = MyGame::new();
    game.spawn_enemy_timer = u64::MAX - 3;
    assert!(game.spawn_tick(10));
    assert_eq!(game.spawn_enemy_timer, 0);
}

#[test]
fn no_enemy_appears_before_its_time() {
    let mut game = MyGame::new();
    game.spawn(999_999_999);
    assert!(game.enemies.is_empty());
    assert_eq!(game.spawn_enemy_timer, 999_999_999);
    game.spawn(1);
    assert!(game.enemies.is_empty());
    assert_eq!(game.spawn_enemy_timer, 1_000_000_000);
}

#[test]
fn an_enemy_appears_at_one_of_the_four_places() {
    let mut game = MyGame::new();
    for round in 1..=400 {
        game.spawn(1_000_000_001);
        assert_eq!(game.spawn_enemy_timer, 0);
        assert_eq!(game.enemies.len(), round);
        let newest = game.enemies[0];
        assert!(PLACES.contains(&newest.position));
        assert_eq!(newest.size, (40, 40));
        assert_eq!(newest.speed, 200);
    }
    for place in PLACES.iter() {
        assert!(game.enemies.iter().any(|e| e.position == *place));
    }
    assert_eq!(game.score, 0);
    assert_eq!(game.player, Player::new());
}

#[test]
fn a_drawn_index_names_a_place() {
    let mut seen = [false; 4];
    for _ in 0..400 {
        let index = MyGame::random_spawn_index();
        assert!(index < 4);
        seen[index] = true;
    }
    assert_eq!(seen, [true; 4]);
}

#[test]
fn every_enemy_covers_its_own_step() {
    let mut game = MyGame::new();
    game.player.position = (400, 300);
    game.player.bullets = vec![Bullet::new((100, 100), east())];
    game.enemies = vec![Enemy::new((-50, -50)), Enemy::new((350, 250)), Enemy::new((50, 100))];
    game.score = 3;
    game.advance_enemies(&vec![(9, 7), (11, 11), (11, 0)]);
    assert_eq!(
        game.enemies,
        vec![Enemy::new((-41, -43)), gone((361, 261)), gone((61, 100))]
    );
    assert_eq!(game.score, 3);
    assert_eq!(game.player.bullets, vec![Bullet::new((100, 100), east())]);
    assert_eq!(game.player.position, (400, 300));
}

#[test]
fn a_touched_player_loses_the_score() {
    let mut game = MyGame::new();
    game.score = 12;
    game.enemies = vec![Enemy::new((500, 500)), Enemy::new((39, 39))];
    game.score_contacts();
    assert_eq!(game.score, 0);
    assert_eq!(game.enemies, vec![Enemy::new((500, 500)), Enemy::new((39, 39))]);
}

#[test]
fn an_enemy_that_is_gone_still_touches() {
    let mut game = MyGame::new();
    game.score = 12;
    game.enemies = vec![gone((-39, 0))];
    game.score_contacts();
    assert_eq!(game.score, 0);
}

#[test]
fn an_untouched_player_keeps_the_score() {
    let mut game = MyGame::new();
    game.score = 12;
    game.enemies = vec![Enemy::new((40, 0)), Enemy::new((0, 40)), gone((-40, -40))];
    game.score_contacts();
    assert_eq!(game.score, 12);
    let mut empty = MyGame::new();
    empty.score = 5;
    empty.score_contacts();
    assert_eq!(empty.score, 5);
}

#[test]
fn each_removed_enemy_is_a_point() {
    let mut game = MyGame::new();
    game.score = 10;
    game.enemies = vec![
        gone((1, 1)),
        Enemy::new((100, 100)),
        gone((2, 2)),
        Enemy::new((200, 200)),
        Enemy::new((300, 300)),
        gone((3, 3)),
    ];
    game.despawn_enemies();
    assert_eq!(
        game.enemies,
        vec![Enemy::new((100, 100)), Enemy::new((200, 200)), Enemy::new((300, 300))]
    );
    assert_eq!(game.score, 13);
    game.despawn_enemies();
    assert_eq!(game.enemies.len(), 3);
    assert_eq!(game.score, 13);
}

#[test]
fn the_score_stops_at_its_largest_value() {
    let mut game = MyGame::new();
    game.score = u32::MAX - 1;
    game.enemies = vec![gone((1, 1)), gone((2, 2)), gone((3, 3))];
    game.despawn_enemies();
    assert!(game.enemies.is_empty());
    assert_eq!(game.score, u32::MAX);
}

#[test]
fn an_enemy_on_the_player_leaves_a_score_of_one() {
    let mut game = MyGame::new();
    assert_eq!(game.score, 0);
    game.enemies = vec![Enemy::new((-42, -42))];
    game.update_enemies(&vec![(8, 8)]);
    assert!(game.enemies.is_empty());
    assert_eq!(game.score, 1);
    let mut later = MyGame::new();
    later.score = 7;
    later.enemies = vec![Enemy::new((-42, -42))];
    later.update_enemies(&vec![(8, 8)]);
    assert!(later.enemies.is_empty());
    assert_eq!(later.score, 1);
}

#[test]
fn an_enemy_walks_onto_the_resting_player() {
    let frame = Frame { seconds: 0.0625, mouse: (0., 0.) };
    let mut game = MyGame::new();
    game.score = 7;
    game.spawn_at(0);
    game.update(&idle(), 62_500_000, WINDOW, &frame);
    assert_eq!(game.enemies, vec![Enemy::new((-42, -42))]);
    assert_eq!(game.score, 7);
    game.update(&idle(), 62_500_000, WINDOW, &frame);
    assert!(game.enemies.is_empty());
    assert_eq!(game.score, 1);
    assert_eq!(game.player.position, (0, 0));
    assert_eq!(game.spawn_enemy_timer, 125_000_000);
}

#[test]
fn the_first_contact_of_a_game_scores_one() {
    let frame = Frame { seconds: 0.0625, mouse: (0., 0.) };
    let mut game = MyGame::new();
    game.spawn_at(0);
    let mut frames = 0;
    while !game.enemies.is_empty() {
        assert_eq!(game.score, 0);
        game.update(&idle(), 62_500_000, WINDOW, &frame);
        frames += 1;
        assert!(frames < 10);
    }
    assert_eq!(frames, 2);
    assert_eq!(game.score, 1);
}

#[test]
fn a_bullet_hit_adds_a_point() {
    let mut game = MyGame::new();
    game.score = 4;
    game.player.position = (700, 500);
    game.player.bullets = vec![Bullet::new((100, 100), east())];
    game.enemies = vec![Enemy::new((300, 300)), Enemy::new((70, 70))];
    game.update_enemies(&vec![(0, 0), (10, 10)]);
    assert_eq!(game.enemies, vec![Enemy::new((300, 300))]);
    assert_eq!(game.score, 5);
    assert_eq!(game.player.bullets, vec![Bullet::new((100, 100), east())]);
}

#[test]
fn one_bullet_hits_two_enemies_in_one_frame() {
    let mut game = MyGame::new();
    game.player.position = (700, 500);
    game.player.bullets = vec![Bullet::new((100, 100), east())];
    game.enemies = vec![Enemy::new((80, 80)), Enemy::new((95, 95)), Enemy::new((400, 100))];
    game.update_enemies(&vec![(0, 0), (0, 0), (0, 0)]);
    assert_eq!(game.enemies, vec![Enemy::new((400, 100))]);
    assert_eq!(game.score, 2);
    assert_eq!(game.player.bullets, vec![Bullet::new((100, 100), east())]);
    assert!(game.player.bullets[0].is_active());
}

#[test]
fn the_reset_comes_before_the_points() {
    let mut game = MyGame::new();
    game.score = 40;
    game.player.position = (400, 300);
    game.player.bullets = vec![Bullet::new((100, 100), east())];
    game.enemies = vec![
        Enemy::new((80, 80)),
        Enemy::new((370, 270)),
        Enemy::new((600, 100)),
        Enemy::new((90, 90)),
    ];
    game.update_enemies(&vec![(0, 0), (0, 0), (0, 0), (0, 0)]);
    assert_eq!(game.enemies, vec![Enemy::new((600, 100))]);
    assert_eq!(game.score, 3);
}

#[test]
fn a_frame_without_events_keeps_the_score() {
    let mut game = MyGame::new();
    game.score = 9;
    game.enemies = vec![Enemy::new((600, 100)), Enemy::new((-50, 650))];
    game.update_enemies(&vec![(-3, 1), (2, -4)]);
    assert_eq!(game.enemies, vec![Enemy::new((597, 101)), Enemy::new((-48, 646))]);
    assert_eq!(game.score, 9);
}

#[test]
fn a_frame_spawns_after_a_second() {
    let still = Frame { seconds: 0., mouse: (0., 0.) };
    let mut game = MyGame::new();
    game.update(&idle(), 1_000_000_000, WINDOW, &still);
    assert!(game.enemies.is_empty());
    assert_eq!(game.spawn_enemy_timer, 1_000_000_000);
    game.update(&idle(), 1, WINDOW, &still);
    assert_eq!(game.enemies.len(), 1);
    assert!(PLACES.contains(&game.enemies[0].position));
    assert_eq!(game.enemies[0].speed, 200);
    assert_eq!(game.spawn_enemy_timer, 0);
    assert_eq!(game.score, 0);
    assert_eq!(game.player.shoot_timer, 1_000_000_001);
}

#[test]
fn a_frame_moves_the_player_before_the_enemies() {
    let frame = Frame { seconds: 0.5, mouse: (0., 0.) };
    let mut game = MyGame::new();
    game.enemies = vec![Enemy::new((450, 400))];
    let right = InputState { right: true, left: false, up: false, down: false, fire: false };
    game.update(&right, 500_000_000, WINDOW, &frame);
    assert_eq!(game.player.position, (150, 0));
    assert_eq!(game.enemies, vec![Enemy::new((390, 320))]);
    assert_eq!(game.score, 0);
}

#[test]
fn a_frame_fires_and_the_bullet_hits_in_the_same_frame() {
    let frame = Frame { seconds: 0.0625, mouse: (400., 300.) };
    let mut game = MyGame::new();
    game.score = 4;
    game.player.shoot_timer = 600_000_000;
    game.enemies = vec![Enemy::new((60, 45))];
    game.update(&firing(), 62_500_000, WINDOW, &frame);
    assert_eq!(game.player.bullets.len(), 1);
    assert_eq!(game.player.bullets[0].position, (50, 37));
    assert!(game.player.bullets[0].is_active());
    assert!(game.enemies.is_empty());
    assert_eq!(game.score, 5);
    assert_eq!(game.player.shoot_timer, 0);
}

#[test]
fn holding_the_button_through_a_game_fires_once_per_cooldown() {
    let frame = Frame { seconds: 0.125, mouse: (800., 0.0001) };
    let mut game = MyGame::new();
    let mut fired = 0;
    let mut bullets = 0;
    for _ in 0..7 {
        game.update(&firing(), 125_000_000, WINDOW, &frame);
        if game.player.bullets.len() > bullets {
            fired += 1;
        }
        bullets = game.player.bullets.len();
    }
    assert_eq!(fired, 1);
    assert_eq!(game.player.bullets.len(), 1);
    assert_eq!(game.player.shoot_timer, 250_000_000);
}

#[test]
fn the_scene_shows_player_bullets_and_enemies_in_order() {
    let mut game = MyGame::new();
    game.player.position = (12, 34);
    game.player.bullets = vec![Bullet::new((100, 100), east()), Bullet::new((200, 200), east())];
    game.enemies = vec![Enemy::new((-50, -50)), Enemy::new((850, -50))];
    assert_eq!(
        game.blocks(),
        vec![
            Block { position: (12, 34), size: (40, 40), paint: Paint::Magenta },
            Block { position: (100, 100), size: (10, 10), paint: Paint::Black },
            Block { position: (200, 200), size: (10, 10), paint: Paint::Black },
            Block { position: (-50, -50), size: (40, 40), paint: Paint::Black },
            Block { position: (850, -50), size: (40, 40), paint: Paint::Black },
        ]
    );
}

#[test]
fn the_scene_of_a_new_game_is_the_player_alone() {
    assert_eq!(
        MyGame::new().blocks(),
        vec![Block { position: (0, 0), size: (40, 40), paint: Paint::Magenta }]
    );
}

#[test]
fn the_scene_leaves_out_what_is_switched_off() {
    let mut game = MyGame::new();
    let mut spent = Bullet::new((100, 100), east());
    spent.speed = 0;
    game.player.bullets = vec![spent, Bullet::new((200, 200), east()), spent];
    game.enemies = vec![gone((1, 1)), gone((2, 2)), Enemy::new((300, 300))];
    assert_eq!(
        game.blocks(),
        vec![
            Block { position: (0, 0), size: (40, 40), paint: Paint::Magenta },
            Block { position: (200, 200), size: (10, 10), paint: Paint::Black },
            Block { position: (300, 300), size: (40, 40), paint: Paint::Black },
        ]
    );
}
