use ball_game::geometry::{Direction, Playfield, Position};
use ball_game::people::{job_title, people_by_employment, setup, Job};
use ball_game::world::{
    bounce_sound, key_direction, AppState, BounceSound, Enemy, GameOver, Keys, World,
    ENEMY_SPAWN_TIME, NUMBER_OF_ENEMIES, NUMBER_OF_STARS, STAR_SPAWN_TIME,
};

fn field() -> Playfield {
    Playfield { width: 800_000, height: 600_000 }
}

fn in_game() -> World {
    let mut w = World::new(field());
    w.enter_in_game();
    w
}

fn no_keys() -> Keys {
    Keys { left: false, right: false, up: false, down: false }
}

#[test]
fn new_world_is_empty_in_main_menu() {
    let w = World::new(field());
    assert_eq!(w.state, AppState::MainMenu);
    assert!(w.player.is_none());
    assert!(w.enemies.is_empty());
    assert!(w.stars.is_empty());
    assert_eq!(w.score, 0);
    assert!(w.high_scores.scores.is_empty());
}

#[test]
fn entering_game_spawns_everything() {
    let w = in_game();
    assert_eq!(w.state, AppState::InGame);
    assert_eq!(w.player, Some(Position { x: 400_000, y: 300_000 }));
    assert_eq!(w.enemies.len(), NUMBER_OF_ENEMIES);
    assert_eq!(w.enemies.len(), 4);
    assert_eq!(w.stars.len(), NUMBER_OF_STARS);
    assert_eq!(w.stars.len(), 10);
    for s in &w.stars {
        assert!(0 <= s.x && s.x < 800_000 && 0 <= s.y && s.y < 600_000);
    }
    for e in &w.enemies {
        assert!(0 <= e.position.x && e.position.x < 800_000);
        assert!(0 <= e.position.y && e.position.y < 600_000);
        let (x, y) = (e.direction.x, e.direction.y);
        assert!(-1000 <= x && x <= 1000 && -1000 <= y && y <= 1000);
        assert!(990 * 990 <= x * x + y * y && x * x + y * y <= 1010 * 1010);
    }
}

#[test]
fn exiting_game_clears_everything() {
    let mut w = in_game();
    w.score = 3;
    w.exit_in_game(AppState::MainMenu);
    assert_eq!(w.state, AppState::MainMenu);
    assert!(w.player.is_none());
    assert_eq!(w.enemies.len(), 0);
    assert_eq!(w.stars.len(), 0);
    assert_eq!(w.score, 3);
}

#[test]
fn entering_again_resets_score() {
    let mut w = in_game();
    w.score = 7;
    w.exit_in_game(AppState::GameOver);
    assert_eq!(w.state, AppState::GameOver);
    w.enter_in_game();
    assert_eq!(w.score, 0);
    assert_eq!(w.enemies.len(), 4);
    assert_eq!(w.stars.len(), 10);
}

#[test]
fn picking_a_star_scores_one() {
    let mut w = in_game();
    let third = w.stars[3];
    w.pick_up_star(2);
    assert_eq!(w.score, 1);
    assert_eq!(w.stars.len(), 9);
    assert_eq!(w.stars[2], third);
}

#[test]
fn player_hits_only_nearby_stars() {
    let mut w = in_game();
    w.stars = vec![
        Position { x: 400_000, y: 300_000 },
        Position { x: 10_000, y: 10_000 },
        Position { x: 446_999, y: 300_000 },
        Position { x: 447_000, y: 300_000 },
    ];
    w.score = 5;
    let picked = w.player_hit_stars();
    assert_eq!(picked, 2);
    assert_eq!(w.score, 7);
    assert_eq!(w.stars, vec![Position { x: 10_000, y: 10_000 }, Position { x: 447_000, y: 300_000 }]);
}

#[test]
fn no_player_no_pickup() {
    let mut w = in_game();
    w.despawn_player();
    let picked = w.player_hit_stars();
    assert_eq!(picked, 0);
    assert_eq!(w.stars.len(), 10);
}

#[test]
fn enemy_reaching_player_ends_game_once() {
    let mut w = in_game();
    let here = Enemy { position: Position { x: 400_000, y: 300_000 }, direction: Direction { x: 1000, y: 0 } };
    w.enemies = vec![here, here];
    w.score = 4;
    let r = w.player_hit_enemies();
    assert_eq!(r, Some(GameOver { score: 4 }));
    assert!(w.player.is_none());
    assert_eq!(w.player_hit_enemies(), None);
}

#[test]
fn distant_enemy_does_nothing() {
    let mut w = in_game();
    w.enemies = vec![Enemy { position: Position { x: 464_000, y: 300_000 }, direction: Direction { x: 0, y: 1000 } }];
    assert_eq!(w.player_hit_enemies(), None);
    assert!(w.player.is_some());
}

#[test]
fn high_scores_keep_order() {
    let mut w = World::new(field());
    w.update_high_scores(GameOver { score: 3 });
    w.update_high_scores(GameOver { score: 1 });
    w.update_high_scores(GameOver { score: 2 });
    let got: Vec<(String, u32)> = w.high_scores.scores.clone();
    assert_eq!(got, vec![("Player".to_string(), 3), ("Player".to_string(), 1), ("Player".to_string(), 2)]);
}

#[test]
fn game_over_returns_to_menu_and_records_score() {
    let mut w = in_game();
    w.score = 9;
    w.end_game(GameOver { score: 9 });
    assert_eq!(w.state, AppState::MainMenu);
    assert!(w.player.is_none());
    assert!(w.enemies.is_empty() && w.stars.is_empty());
    assert_eq!(w.high_scores.scores, vec![("Player".to_string(), 9)]);
}

#[test]
fn star_timer_spawns_one_star_per_interval() {
    let mut w = in_game();
    w.tick_star_spawn_timer(600_000_000);
    assert!(!w.spawn_stars_over_time());
    assert_eq!(w.stars.len(), 10);
    w.tick_star_spawn_timer(500_000_000);
    assert!(w.spawn_stars_over_time());
    assert_eq!(w.stars.len(), 11);
    assert_eq!(STAR_SPAWN_TIME, 1_000_000_000);
}

#[test]
fn enemy_timer_spawns_after_five_seconds() {
    let mut w = in_game();
    w.tick_enemy_spawn_timer(4_000_000_000);
    assert!(!w.spawn_enemies_over_time());
    w.tick_enemy_spawn_timer(1_000_000_000);
    assert!(w.spawn_enemies_over_time());
    assert_eq!(w.enemies.len(), 5);
    assert_eq!(ENEMY_SPAWN_TIME, 5_000_000_000);
}

#[test]
fn timers_do_not_run_in_menu() {
    let mut w = World::new(field());
    w.tick_star_spawn_timer(2_000_000_000);
    assert!(!w.spawn_stars_over_time());
    assert!(w.stars.is_empty());
}

#[test]
fn keys_give_unit_directions() {
    assert_eq!(key_direction(no_keys()), Direction { x: 0, y: 0 });
    assert_eq!(key_direction(Keys { left: true, ..no_keys() }), Direction { x: -1000, y: 0 });
    assert_eq!(key_direction(Keys { right: true, up: true, ..no_keys() }), Direction { x: 707, y: 707 });
    assert_eq!(key_direction(Keys { left: true, right: true, down: true, up: false }), Direction { x: 0, y: -1000 });
}

#[test]
fn player_moves_then_is_confined() {
    let mut w = in_game();
    w.player_movement(Keys { right: true, ..no_keys() }, 1_000_000_000);
    assert_eq!(w.player, Some(Position { x: 900_000, y: 300_000 }));
    w.confine_player_movement();
    assert_eq!(w.player, Some(Position { x: 768_000, y: 300_000 }));
}

#[test]
fn enemy_bounces_off_edges() {
    let mut w = in_game();
    w.enemies = vec![
        Enemy { position: Position { x: 790_000, y: 300_000 }, direction: Direction { x: 600, y: 800 } },
        Enemy { position: Position { x: 10_000, y: 590_000 }, direction: Direction { x: -600, y: 800 } },
        Enemy { position: Position { x: 400_000, y: 300_000 }, direction: Direction { x: 600, y: 800 } },
    ];
    let sounds = w.update_enemy_direction();
    assert_eq!(sounds.len(), 2);
    assert_eq!(w.enemies[0].direction, Direction { x: -600, y: 800 });
    assert_eq!(w.enemies[1].direction, Direction { x: 600, y: -800 });
    assert_eq!(w.enemies[2].direction, Direction { x: 600, y: 800 });
    w.confine_enemy_movement();
    assert_eq!(w.enemies[0].position, Position { x: 768_000, y: 300_000 });
    assert_eq!(w.enemies[1].position, Position { x: 32_000, y: 568_000 });
}

#[test]
fn enemies_move_along_direction() {
    let mut w = in_game();
    w.enemies = vec![Enemy { position: Position { x: 100_000, y: 100_000 }, direction: Direction { x: 600, y: -800 } }];
    w.enemy_movement(500_000_000);
    assert_eq!(w.enemies[0].position, Position { x: 160_000, y: 20_000 });
}

#[test]
fn frame_with_collision_ends_game() {
    let mut w = in_game();
    w.score = 2;
    w.enemies = vec![Enemy { position: Position { x: 400_000, y: 300_000 }, direction: Direction { x: 0, y: 0 } }];
    let r = w.frame(no_keys(), 16_000_000);
    assert_eq!(r.game_over, Some(GameOver { score: 2 }));
    assert_eq!(w.state, AppState::MainMenu);
    assert_eq!(w.high_scores.scores, vec![("Player".to_string(), 2)]);
}

#[test]
fn frame_picks_stars_and_keeps_player_inside() {
    let mut w = in_game();
    w.enemies = vec![];
    w.stars = vec![Position { x: 780_000, y: 300_000 }];
    let r = w.frame(Keys { right: true, ..no_keys() }, 2_000_000_000);
    assert_eq!(r.game_over, None);
    assert_eq!(r.picked, 1);
    assert_eq!(w.score, 1);
    assert_eq!(w.player, Some(Position { x: 768_000, y: 300_000 }));
    assert!(r.star_spawned);
    assert_eq!(w.stars.len(), 1);
}

#[test]
fn roster_and_jobs() {
    let people = setup();
    assert_eq!(people.len(), 5);
    let employed = people_by_employment(&people, true);
    let names: Vec<&str> = employed.iter().map(|p| p.name.as_str()).collect();
    assert_eq!(names, vec!["Alex", "Charlie", "David", "Ellen"]);
    let idle = people_by_employment(&people, false);
    assert_eq!(idle.len(), 1);
    assert_eq!(idle[0].name, "Bob");
    assert_eq!(job_title(Job::FireFighter), "Fire Fighter");
    assert_eq!(job_title(Job::Doctor), "Doctor");
    assert_eq!(job_title(Job::Lawyer), "Lawyer");
}

#[test]
fn no_enemy_out_of_bounds_no_sound() {
    let mut w = in_game();
    w.enemies = vec![Enemy { position: Position { x: 400_000, y: 300_000 }, direction: Direction { x: 600, y: 800 } }];
    assert!(w.update_enemy_direction().is_empty());
}

#[test]
fn bounce_sound_by_draw() {
    assert_eq!(bounce_sound(u32::MAX), BounceSound::Pluck1);
    assert_eq!(bounce_sound((1u32 << 31) + 1), BounceSound::Pluck1);
    assert_eq!(bounce_sound(1u32 << 31), BounceSound::Pluck2);
    assert_eq!(bounce_sound(0), BounceSound::Pluck2);
}

#[test]
fn high_scores_from_a_run_of_events() {
    let mut w = World::new(field());
    w.update_high_scores(GameOver { score: 8 });
    w.update_high_scores_all(&vec![GameOver { score: 2 }, GameOver { score: 5 }]);
    assert_eq!(
        w.high_scores.scores,
        vec![("Player".to_string(), 8), ("Player".to_string(), 2), ("Player".to_string(), 5)]
    );
    w.update_high_scores_all(&vec![]);
    assert_eq!(w.high_scores.scores.len(), 3);
}

#[test]
fn resize_then_confine_uses_new_window() {
    let mut w = in_game();
    w.resize(Playfield { width: 200_000, height: 100_000 });
    w.confine_player_movement();
    assert_eq!(w.player, Some(Position { x: 168_000, y: 68_000 }));
}

#[test]
fn stars_spawn_inside_the_window() {
    let mut w = World::new(Playfield { width: 1, height: 1 });
    w.enter_in_game();
    for s in &w.stars {
        assert_eq!(*s, Position { x: 0, y: 0 });
    }
}

#[test]
fn frame_reports_bounce_sounds() {
    let mut w = in_game();
    w.stars = vec![];
    w.enemies = vec![Enemy { position: Position { x: 799_000, y: 10_000 }, direction: Direction { x: 600, y: -800 } }];
    let r = w.frame(no_keys(), 1_000_000);
    assert_eq!(r.bounce_sounds.len(), 1);
    assert_eq!(w.enemies[0].direction, Direction { x: -600, y: 800 });
    assert_eq!(w.enemies[0].position, Position { x: 768_000, y: 32_000 });
}
