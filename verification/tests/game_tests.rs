use fpsoccer::ball::SHOT_CLOCK_MS;
use fpsoccer::events::GameEvent;
use fpsoccer::game::Game;
use fpsoccer::geometry::{AimMode, GameConfig, MapObject, ObjType};
use fpsoccer::player::{Ship, Team};
use fpsoccer::projectile::Projectile;
use fpsoccer::scoring::{next_countdown, GOAL_COOLDOWN_MS};
use fpsoccer::websocket::{InputMessage, InputOutcome, ShootAckReason, SwitchOutcome};

fn wall(x: i64, y: i64, width: i64, height: i64) -> MapObject {
    MapObject { obj_type: ObjType::Wall, x, y, width, height }
}

fn goal(team: Team, x: i64, y: i64, width: i64, height: i64) -> MapObject {
    MapObject { obj_type: ObjType::Goal(team), x, y, width, height }
}

fn two_goals() -> Vec<MapObject> {
    vec![
        goal(Team::Red, 0, 500_000, 50_000, 200_000),
        goal(Team::Blue, 1_950_000, 500_000, 50_000, 200_000),
    ]
}

fn open_game() -> Game {
    let mut config = GameConfig::corner_defense();
    config.max_players_per_team = None;
    Game::create(config, two_goals()).unwrap()
}

fn command(seq: u32) -> InputMessage {
    InputMessage {
        left: false,
        right: false,
        up: false,
        down: false,
        seq,
        shoot: None,
        boost: None,
        target_x: None,
        target_y: None,
        display_name: String::new(),
    }
}

fn dist2(a: Ship, b: Ship) -> i128 {
    ((a.x - b.x) as i128).pow(2) + ((a.y - b.y) as i128).pow(2)
}

#[test]
fn new_match_is_empty_with_the_ball_in_the_middle() {
    let game = open_game();
    assert_eq!((game.ball.x, game.ball.y), (1_000_000, 600_000));
    assert_eq!((game.ball.vx, game.ball.vy), (0, 0));
    assert!(game.ball.active && !game.ball.grabbed);
    assert_eq!(game.ball.owner, None);
    assert_eq!(game.ball.shot_clock, SHOT_CLOCK_MS);
    assert_eq!(game.next_id, 1);
    assert_eq!(game.next_projectile_id, 1);
    assert!(game.players.is_empty() && game.projectiles.is_empty() && game.events.is_empty());
    assert_eq!(
        (game.team1_score, game.team2_score, game.team3_score, game.team4_score),
        (0, 0, 0, 0)
    );
}

#[test]
fn invalid_field_or_map_is_refused() {
    let mut config = GameConfig::corner_defense();
    config.field_width = 10_000;
    assert!(Game::create(config, two_goals()).is_none());
    assert!(!config.is_valid());
    let config = GameConfig::corner_defense();
    assert!(Game::create(config, vec![wall(0, 0, -5, 5)]).is_none());
    assert!(Game::create(config, vec![wall(0, 0, 5, 5)]).is_some());
}

#[test]
fn players_join_the_least_populated_team() {
    let mut game = open_game();
    assert_eq!(game.add_player("a".to_string(), (100_000, 100_000)), Some(1));
    assert_eq!(game.add_player("b".to_string(), (200_000, 100_000)), Some(2));
    assert_eq!(game.add_player("c".to_string(), (300_000, 100_000)), Some(3));
    assert_eq!(game.add_player("d".to_string(), (400_000, 100_000)), Some(4));
    assert_eq!(game.add_player("e".to_string(), (500_000, 100_000)), Some(5));
    let teams: Vec<Team> = game.players.iter().map(|p| p.team).collect();
    assert_eq!(teams, vec![Team::Red, Team::Blue, Team::Yellow, Team::Green, Team::Red]);
    assert_eq!(
        (game.red_team_count, game.blue_team_count, game.yellow_team_count, game.green_team_count),
        (2, 1, 1, 1)
    );
    assert!(game.players[0].is_host);
    assert!(!game.players[1].is_host);
    assert_eq!(game.next_id, 6);
    assert_eq!(
        game.events[0],
        GameEvent::PlayerJoin { player_id: 1, team: Team::Red, is_host: true }
    );
    assert_eq!(game.find_player(3), Some(2));
    assert_eq!(game.find_player(9), None);
}

#[test]
fn two_team_match_alternates_red_and_blue() {
    let mut game = Game::create(GameConfig::two_team(), two_goals()).unwrap();
    assert_eq!(game.assign_team(), Team::Red);
    assert_eq!(game.assign_team(), Team::Blue);
    assert_eq!(game.assign_team(), Team::Red);
    assert_eq!((game.red_team_count, game.blue_team_count), (2, 1));
    assert!(!game.can_join_team(Team::Yellow));
    assert!(game.can_join_team(Team::Blue));
}

#[test]
fn full_teams_send_the_player_to_red_uncounted() {
    let mut game = Game::create(GameConfig::corner_defense(), two_goals()).unwrap();
    assert_eq!(game.assign_team(), Team::Red);
    assert_eq!(game.assign_team(), Team::Blue);
    assert_eq!(game.assign_team(), Team::Yellow);
    assert_eq!(game.assign_team(), Team::Green);
    assert_eq!(game.open_team(), None);
    assert!(!game.can_join_team(Team::Red));
    assert_eq!(game.assign_team(), Team::Red);
    assert_eq!(
        (game.red_team_count, game.blue_team_count, game.yellow_team_count, game.green_team_count),
        (1, 1, 1, 1)
    );
}

#[test]
fn leaving_holder_drops_the_ball() {
    let mut game = open_game();
    game.add_player("a".to_string(), (100_000, 100_000));
    game.add_player("b".to_string(), (200_000, 100_000));
    game.ball.grab(2, 200_000, 100_000);
    game.remove_player(2);
    assert_eq!(game.players.len(), 1);
    assert_eq!(game.players[0].id, 1);
    assert!(!game.ball.grabbed);
    assert_eq!(game.ball.owner, None);
    assert_eq!(game.ball.grab_cooldown, 500);
    assert_eq!((game.red_team_count, game.blue_team_count), (1, 0));
    assert_eq!(*game.events.last().unwrap(), GameEvent::PlayerLeave { player_id: 2 });
    let before = game.players.len();
    game.remove_player(77);
    assert_eq!(game.players.len(), before);
}

#[test]
fn team_counts_are_taken_from_the_players() {
    let mut game = open_game();
    game.add_player("a".to_string(), (100_000, 100_000));
    game.add_player("b".to_string(), (200_000, 100_000));
    game.red_team_count = 9;
    game.green_team_count = 4;
    game.recalculate_team_counts();
    assert_eq!(
        (game.red_team_count, game.blue_team_count, game.yellow_team_count, game.green_team_count),
        (1, 1, 0, 0)
    );
}

#[test]
fn cooldowns_run_down_each_tick() {
    let mut game = open_game();
    game.add_player("a".to_string(), (100_000, 100_000));
    game.goal_cooldown = 150;
    game.ball.pickup_cooldown = 50;
    game.ball.grab_cooldown = 500;
    game.players[0].shoot_cooldown = 250;
    game.players[0].grab_cooldown = 300;
    game.players[0].rocket_cooldown = 8_000;
    assert!(game.is_well_formed());
    game.decay_cooldowns(100);
    assert_eq!(game.goal_cooldown, 50);
    assert_eq!(game.ball.pickup_cooldown, 0);
    assert_eq!(game.ball.grab_cooldown, 400);
    assert_eq!(game.players[0].shoot_cooldown, 150);
    assert_eq!(game.players[0].grab_cooldown, 200);
    assert_eq!(game.players[0].rocket_cooldown, 7_900);
    assert_eq!(game.ball.shot_clock, SHOT_CLOCK_MS);
}

#[test]
fn holder_is_shown_the_shot_clock() {
    let mut game = open_game();
    game.add_player("a".to_string(), (100_000, 100_000));
    game.ball.grab(1, 100_000, 100_000);
    assert!(game.is_well_formed());
    game.decay_cooldowns(100);
    assert_eq!(game.ball.shot_clock, 9_900);
    assert_eq!(game.players[0].fuel, 198_000);
}

#[test]
fn ship_accelerates_in_the_direction_steered() {
    let mut game = open_game();
    game.add_player("a".to_string(), (1_000_000, 600_000));
    game.players[0].input.right = true;
    assert!(game.is_well_formed());
    game.move_ships(100);
    assert_eq!(game.players[0].velocity, (16_000, 0));
    assert_eq!(game.players[0].ship, Ship { x: 1_001_600, y: 600_000 });
    game.players[0].input.right = false;
    assert!(game.is_well_formed());
    game.move_ships(100);
    assert_eq!(game.players[0].velocity, (12_800, 0));
    assert_eq!(game.players[0].ship, Ship { x: 1_002_880, y: 600_000 });
}

#[test]
fn diagonal_steering_is_no_faster() {
    let mut game = open_game();
    game.add_player("a".to_string(), (1_000_000, 600_000));
    game.players[0].input.right = true;
    game.players[0].input.down = true;
    assert!(game.is_well_formed());
    game.move_ships(100);
    assert_eq!(game.players[0].velocity, (11_296, 11_296));
    assert_eq!(game.players[0].ship, Ship { x: 1_001_129, y: 601_129 });
}

#[test]
fn ship_speed_is_capped_and_the_carrier_is_slower() {
    let mut game = open_game();
    game.add_player("a".to_string(), (1_000_000, 600_000));
    game.add_player("b".to_string(), (500_000, 600_000));
    game.players[0].velocity = (1_000_000, 0);
    game.players[1].velocity = (1_000_000, 0);
    game.ball.grab(2, 500_000, 600_000);
    assert!(game.is_well_formed());
    game.move_ships(100);
    assert_eq!(game.players[0].velocity, (100_000, 0));
    assert_eq!(game.players[1].velocity, (80_000, 0));
    assert_eq!(game.players[0].ship.x, 1_010_000);
    assert_eq!(game.players[1].ship.x, 508_000);
}

#[test]
fn ship_stays_in_the_field() {
    let mut game = open_game();
    game.add_player("a".to_string(), (1_999_000, 1_000));
    game.players[0].velocity = (1_000_000, -1_000_000);
    assert!(game.is_well_formed());
    game.move_ships(100);
    assert_eq!(game.players[0].ship, Ship { x: 2_000_000, y: 0 });
}

#[test]
fn ships_are_kept_out_of_walls() {
    let config = GameConfig::corner_defense();
    let mut map = two_goals();
    map.push(wall(900_000, 0, 50_000, 1_200_000));
    let mut game = Game::create(config, map).unwrap();
    game.add_player("a".to_string(), (885_000, 600_000));
    game.players[0].velocity = (50_000, 7_000);
    assert!(game.is_well_formed());
    game.resolve_ship_walls();
    assert_eq!(game.players[0].ship, Ship { x: 880_000, y: 600_000 });
    assert_eq!(game.players[0].velocity, (0, 7_000));
}

#[test]
fn stale_input_changes_nothing() {
    let mut game = open_game();
    game.add_player("a".to_string(), (100_000, 100_000));
    let mut first = command(5);
    first.left = true;
    first.shoot = Some(true);
    first.target_x = Some(700_000);
    first.target_y = Some(300_000);
    first.display_name = "Ace".to_string();
    assert_eq!(game.apply_input(1, first), InputOutcome::Accepted);
    assert_eq!(game.players[0].last_seq, 5);
    assert!(game.players[0].input.left && game.players[0].input.shoot);
    assert_eq!(game.players[0].display_name, "Ace");

    let mut stale = command(5);
    stale.right = true;
    stale.shoot = Some(false);
    stale.display_name = "Other".to_string();
    assert_eq!(game.apply_input(1, stale), InputOutcome::Stale);
    let mut older = command(3);
    older.up = true;
    assert_eq!(game.apply_input(1, older), InputOutcome::Stale);
    let p = &game.players[0];
    assert_eq!(p.last_seq, 5);
    assert!(p.input.left && !p.input.right && !p.input.up && p.input.shoot);
    assert_eq!(p.input.target_x, Some(700_000));
    assert_eq!(p.display_name, "Ace");

    assert_eq!(game.apply_input(9, command(100)), InputOutcome::UnknownPlayer);
}

#[test]
fn accepted_input_keeps_what_it_does_not_mention() {
    let mut game = open_game();
    game.add_player("a".to_string(), (100_000, 100_000));
    let mut first = command(1);
    first.shoot = Some(true);
    first.boost = Some(true);
    game.apply_input(1, first);
    let mut second = command(2);
    second.down = true;
    second.target_x = Some(5_000_000_000);
    second.target_y = Some(-5_000_000_000);
    assert_eq!(game.apply_input(1, second), InputOutcome::Accepted);
    let p = &game.players[0];
    assert!(p.input.shoot && p.input.boost && p.input.down);
    // the aim is kept as it was sent, and used within the coordinate limit
    assert_eq!(p.input.target_x, Some(5_000_000_000));
    assert_eq!(p.input.target_y, Some(-5_000_000_000));
    assert_eq!(p.input.aimed_at(), Some((1_000_000_000, -1_000_000_000)));
    assert_eq!(p.aim_vector(AimMode::Target), (999_900_000, -1_000_100_000));
    assert!(game.is_well_formed());
    assert_eq!(p.last_seq, 2);
    assert_eq!(p.display_name, "a");
}

#[test]
fn goal_is_counted_once_and_play_restarts_from_the_centre() {
    let mut game = open_game();
    game.add_player("a".to_string(), (100_000, 100_000));
    game.ball.x = 25_000;
    game.ball.y = 600_000;
    game.ball.vx = -100_000;
    game.ball.last_shooter = Some(1);
    game.goal_cooldown = 0;
    game.take_events();
    assert!(game.is_well_formed());
    game.check_goal_collision();
    assert_eq!(game.team1_score, 1);
    assert_eq!((game.team2_score, game.team3_score, game.team4_score), (0, 0, 0));
    assert_eq!((game.ball.x, game.ball.y), (1_000_000, 600_000));
    assert_eq!((game.ball.vx, game.ball.vy), (0, 0));
    assert!(!game.ball.grabbed);
    assert_eq!(game.ball.owner, None);
    assert_eq!(game.goal_cooldown, GOAL_COOLDOWN_MS);
    assert_eq!(game.goal_cooldown, 2_000);
    assert_eq!(game.ball.pickup_cooldown, 3_000);
    assert_eq!(game.ball.grab_cooldown, 500);
    assert_eq!(game.ball.exclusive_team, Some(Team::Red));
    assert_eq!(
        game.events,
        vec![
            GameEvent::Goal {
                scored_on_team: Team::Red,
                scorer: Some(1),
                team1_score: 1,
                team2_score: 0,
                team3_score: 0,
                team4_score: 0
            },
            GameEvent::Countdown { count: 5 },
        ]
    );
}

#[test]
fn no_goal_counts_while_the_goal_cooldown_runs() {
    let mut game = open_game();
    game.ball.x = 25_000;
    game.ball.y = 600_000;
    assert!(game.is_well_formed());
    game.check_goal_collision();
    assert_eq!(game.team1_score, 1);
    // the ball is back in the zone while the cooldown runs
    game.ball.x = 25_000;
    game.ball.y = 600_000;
    let events = game.events.len();
    assert!(game.is_well_formed());
    game.check_goal_collision();
    assert!(game.is_well_formed());
    game.check_goal_collision();
    assert_eq!(game.team1_score, 1);
    assert_eq!((game.ball.x, game.ball.y), (25_000, 600_000));
    assert_eq!(game.events.len(), events);
    // and the ball reset to the centre scores nothing either
    game.ball.x = 1_000_000;
    game.goal_cooldown = 0;
    assert!(game.is_well_formed());
    game.check_goal_collision();
    assert_eq!(game.team1_score, 1);
}

#[test]
fn held_ball_scores_no_goal() {
    let mut game = open_game();
    game.add_player("a".to_string(), (25_000, 600_000));
    game.ball.grab(1, 25_000, 600_000);
    assert!(game.is_well_formed());
    game.check_goal_collision();
    assert_eq!(game.team1_score, 0);
    assert!(game.ball.grabbed);
}

#[test]
fn goal_margin_reaches_one_unit_beyond_the_zone() {
    let mut game = open_game();
    game.ball.x = 61_000;
    game.ball.y = 600_000;
    assert!(game.is_well_formed());
    game.check_goal_collision();
    assert_eq!(game.team1_score, 1);
    let mut game = open_game();
    game.ball.x = 61_001;
    game.ball.y = 600_000;
    assert!(game.is_well_formed());
    game.check_goal_collision();
    assert_eq!(game.team1_score, 0);
    let mut game = open_game();
    game.ball.x = 1_975_000;
    game.ball.y = 489_000;
    assert!(game.is_well_formed());
    game.check_goal_collision();
    assert_eq!(game.team2_score, 1);
    assert_eq!(game.ball.exclusive_team, Some(Team::Blue));
}

#[test]
fn nearby_player_picks_the_free_ball_up() {
    let mut game = open_game();
    game.add_player("a".to_string(), (1_020_000, 610_000));
    assert!(game.may_grab(0));
    assert!(game.is_well_formed());
    game.step_ball(10_000);
    assert!(game.ball.grabbed);
    assert_eq!(game.ball.owner, Some(1));
    assert_eq!((game.ball.x, game.ball.y), (1_020_000, 610_000));
    assert_eq!((game.ball.vx, game.ball.vy), (0, 0));
    assert_eq!(game.ball.shot_clock, SHOT_CLOCK_MS);
}

#[test]
fn nearest_of_two_players_gets_the_ball() {
    let mut game = open_game();
    game.add_player("far".to_string(), (1_025_000, 600_000));
    game.add_player("near".to_string(), (990_000, 600_000));
    game.add_player("as_near".to_string(), (1_010_000, 600_000));
    assert!(game.try_grab());
    assert_eq!(game.ball.owner, Some(2));
    assert!(!game.try_grab());
}

#[test]
fn ball_is_out_of_reach_at_the_grab_radius() {
    let mut game = open_game();
    game.add_player("a".to_string(), (1_030_000, 600_000));
    assert!(!game.may_grab(0));
    assert!(!game.try_grab());
    game.players[0].ship.x = 1_029_999;
    assert!(game.try_grab());
}

#[test]
fn cooldowns_and_walls_keep_the_ball_free() {
    let config = GameConfig::corner_defense();
    let mut map = two_goals();
    map.push(wall(1_008_000, 500_000, 4_000, 200_000));
    let mut game = Game::create(config, map).unwrap();
    game.add_player("behind_wall".to_string(), (1_020_000, 600_000));
    assert!(!game.try_grab());

    let mut game = open_game();
    game.add_player("a".to_string(), (1_020_000, 600_000));
    game.players[0].grab_cooldown = 1;
    assert!(!game.try_grab());
    game.players[0].grab_cooldown = 0;
    game.ball.pickup_cooldown = 1;
    assert!(!game.try_grab());
    game.ball.pickup_cooldown = 0;
    // the ball's own grab cooldown keeps nobody from picking it up
    game.ball.grab_cooldown = 1;
    assert!(game.try_grab());
}

#[test]
fn reserved_ball_goes_to_its_team_only() {
    let mut game = open_game();
    game.add_player("red".to_string(), (1_010_000, 600_000));
    game.add_player("blue".to_string(), (1_020_000, 600_000));
    game.ball.exclusive_team = Some(Team::Blue);
    assert!(game.try_grab());
    assert_eq!(game.ball.owner, Some(2));
    assert_eq!(game.ball.exclusive_team, None);
}

#[test]
fn shot_clock_runs_out_and_the_ball_leaves_its_holder() {
    let mut game = open_game();
    game.add_player("a".to_string(), (1_000_000, 600_000));
    game.ball.grab(1, 1_000_000, 600_000);
    game.ball.shot_clock = 100;
    game.take_events();
    assert!(game.is_well_formed());
    game.update(100);
    assert!(!game.ball.grabbed);
    assert_eq!(game.ball.owner, None);
    assert_eq!(game.ball.last_shooter, Some(1));
    assert!(game.ball.vx != 0 || game.ball.vy != 0);
    assert!(game.ball.vy < 0);
    assert_eq!(game.ball.shot_clock, SHOT_CLOCK_MS);
    assert_eq!(game.events[0], GameEvent::AutoShoot { player_id: 1 });
}

#[test]
fn auto_release_waits_for_the_shot_clock() {
    let mut game = open_game();
    game.add_player("a".to_string(), (1_000_000, 600_000));
    game.ball.grab(1, 1_000_000, 600_000);
    game.ball.shot_clock = 1;
    assert!(game.is_well_formed());
    game.auto_release(100);
    assert!(game.ball.grabbed);
    game.ball.shot_clock = 0;
    assert!(game.is_well_formed());
    game.auto_release(100);
    assert!(!game.ball.grabbed);
    assert_eq!((game.ball.vx, game.ball.vy), (0, -160_000));
    assert_eq!((game.ball.x, game.ball.y), (1_000_000, 565_000));
}

#[test]
fn shot_at_the_target_point() {
    let mut game = open_game();
    game.add_player("a".to_string(), (1_000_000, 600_000));
    game.ball.grab(1, 1_000_000, 600_000);
    game.players[0].input.shoot = true;
    game.players[0].input.target_x = Some(1_100_000);
    game.players[0].input.target_y = Some(600_000);
    game.take_events();
    assert!(game.is_well_formed());
    game.process_shooting(100);
    assert_eq!((game.ball.vx, game.ball.vy), (160_000, 0));
    assert_eq!((game.ball.x, game.ball.y), (1_035_000, 600_000));
    assert!(!game.ball.grabbed);
    assert_eq!(game.ball.last_shooter, Some(1));
    let p = &game.players[0];
    assert_eq!(p.velocity, (-80_000, 0));
    assert_eq!(p.shoot_cooldown, 250);
    assert_eq!(p.grab_cooldown, 300);
    assert!(!p.input.shoot);
    assert_eq!(game.events, vec![GameEvent::BallShot { player_id: 1 }]);
}

#[test]
fn shot_takes_a_share_of_the_shooters_velocity() {
    let mut game = open_game();
    game.add_player("a".to_string(), (1_000_000, 600_000));
    game.ball.grab(1, 1_000_000, 600_000);
    game.players[0].velocity = (0, 50_000);
    game.players[0].input.target_x = Some(1_300_000);
    game.players[0].input.target_y = Some(1_000_000);
    assert!(game.is_well_formed());
    game.shoot(0, 100, false);
    // aim (300, 400) units, impulse (48, 64) + (0, 5) units per second
    assert_eq!((game.ball.vx, game.ball.vy), (96_000, 138_000));
    assert_eq!(game.players[0].velocity, (-48_000, -19_000));
}

#[test]
fn shot_waits_for_trigger_and_cooldown() {
    let mut game = open_game();
    game.add_player("a".to_string(), (1_000_000, 600_000));
    game.ball.grab(1, 1_000_000, 600_000);
    assert!(game.is_well_formed());
    game.process_shooting(100);
    assert!(game.ball.grabbed);
    game.players[0].input.shoot = true;
    game.players[0].shoot_cooldown = 1;
    assert!(game.is_well_formed());
    game.process_shooting(100);
    assert!(game.ball.grabbed);
    game.players[0].shoot_cooldown = 0;
    assert!(game.is_well_formed());
    game.process_shooting(100);
    assert!(!game.ball.grabbed);
}

#[test]
fn aim_follows_the_mode_and_falls_back() {
    let mut game = open_game();
    game.add_player("a".to_string(), (1_000_000, 600_000));
    game.players[0].velocity = (0, 30_000);
    game.players[0].input.target_x = Some(900_000);
    game.players[0].input.target_y = Some(600_000);
    assert_eq!(game.players[0].aim_vector(AimMode::Target), (-100_000, 0));
    assert_eq!(game.players[0].aim_vector(AimMode::Velocity), (0, 30_000));
    game.players[0].velocity = (0, 999);
    assert_eq!(game.players[0].aim_vector(AimMode::Velocity), (-100_000, 0));
    game.players[0].input.target_x = Some(1_000_500);
    assert_eq!(game.players[0].aim_vector(AimMode::Velocity), (0, -1_000));
    assert_eq!(game.players[0].aim_vector(AimMode::Target), (0, -1_000));
    game.players[0].velocity = (0, 1_000);
    assert_eq!(game.players[0].aim_vector(AimMode::Target), (0, 1_000));
    game.players[0].input.target_y = None;
    game.players[0].input.target_x = Some(0);
    assert_eq!(game.players[0].aim_vector(AimMode::Target), (0, 1_000));
}

#[test]
fn ball_shot_into_a_wall_stays_at_the_ship() {
    let config = GameConfig::corner_defense();
    let mut map = two_goals();
    map.push(wall(1_030_000, 500_000, 20_000, 200_000));
    let mut game = Game::create(config, map).unwrap();
    game.add_player("a".to_string(), (1_000_000, 600_000));
    assert!(game.is_well_formed());
    game.position_ball_after_shot(1_000_000, 600_000, 1_000, 0);
    assert_eq!((game.ball.x, game.ball.y), (1_000_000, 600_000));
    assert!(game.is_well_formed());
    game.position_ball_after_shot(1_000_000, 600_000, -1_000, 0);
    assert_eq!((game.ball.x, game.ball.y), (965_000, 600_000));
    assert!(game.is_well_formed());
    game.position_ball_after_shot(10_000, 600_000, -1_000, 0);
    assert_eq!((game.ball.x, game.ball.y), (0, 600_000));
}

#[test]
fn touching_ships_are_pushed_apart() {
    let mut game = open_game();
    game.add_player("a".to_string(), (1_000_000, 600_000));
    game.add_player("b".to_string(), (1_030_000, 600_000));
    game.ball.grab(2, 1_030_000, 600_000);
    game.take_events();
    assert!(game.is_well_formed());
    game.resolve_ship_ships();
    assert_eq!(game.players[0].ship, Ship { x: 992_500, y: 600_000 });
    assert_eq!(game.players[1].ship, Ship { x: 1_037_500, y: 600_000 });
    assert!(dist2(game.players[0].ship, game.players[1].ship) >= 40_000i128 * 40_000);
    assert!(!game.ball.grabbed);
    assert_eq!(game.ball.owner, None);
    assert_eq!(game.ball.last_shooter, None);
    assert_eq!((game.ball.x, game.ball.y), (1_030_000, 600_000));
    assert_eq!(game.players[0].grab_cooldown, 100);
    assert_eq!(game.players[1].grab_cooldown, 800);
    assert_eq!(game.events, vec![GameEvent::BallKnocked { player_id: 2 }]);
}

#[test]
fn ships_bounce_when_they_approach() {
    let mut game = open_game();
    game.add_player("a".to_string(), (1_000_000, 600_000));
    game.add_player("b".to_string(), (1_030_000, 600_000));
    game.players[0].velocity = (50_000, 0);
    game.players[1].velocity = (-50_000, 0);
    assert!(game.is_well_formed());
    game.resolve_ship_ships();
    // closing speed 100 units per second, eight fifths of it each way
    assert_eq!(game.players[0].velocity, (-110_000, 0));
    assert_eq!(game.players[1].velocity, (110_000, 0));

    let mut game = open_game();
    game.add_player("a".to_string(), (1_000_000, 600_000));
    game.add_player("b".to_string(), (1_030_000, 600_000));
    game.players[0].velocity = (-50_000, 0);
    game.players[1].velocity = (50_000, 0);
    assert!(game.is_well_formed());
    game.resolve_ship_ships();
    assert_eq!(game.players[0].velocity, (-50_000, 0));
    assert_eq!(game.players[1].velocity, (50_000, 0));
}

#[test]
fn distant_ships_are_left_alone() {
    let mut game = open_game();
    game.add_player("a".to_string(), (1_000_000, 600_000));
    game.add_player("b".to_string(), (1_040_000, 600_000));
    game.ball.grab(1, 1_000_000, 600_000);
    assert!(game.is_well_formed());
    game.resolve_ship_ships();
    assert_eq!(game.players[0].ship, Ship { x: 1_000_000, y: 600_000 });
    assert_eq!(game.players[1].ship, Ship { x: 1_040_000, y: 600_000 });
    assert!(game.ball.grabbed);
}

#[test]
fn ships_on_one_spot_part_sideways() {
    let mut game = open_game();
    game.add_player("a".to_string(), (1_000_000, 600_000));
    game.add_player("b".to_string(), (1_000_000, 600_000));
    assert!(game.is_well_formed());
    game.resolve_ship_ships();
    assert_eq!(game.players[0].ship, Ship { x: 1_030_000, y: 600_000 });
    assert_eq!(game.players[1].ship, Ship { x: 970_000, y: 600_000 });
}

#[test]
fn held_ball_follows_its_holder() {
    let mut game = open_game();
    game.add_player("a".to_string(), (1_000_000, 600_000));
    game.ball.grab(1, 1_000_000, 600_000);
    game.players[0].input.right = true;
    assert!(game.is_well_formed());
    game.update(100);
    assert!(game.ball.grabbed);
    assert_eq!((game.ball.vx, game.ball.vy), (0, 0));
    assert_eq!(game.players[0].ship, Ship { x: 1_001_280, y: 600_000 });
    assert_eq!((game.ball.x, game.ball.y), (1_001_280, 600_000));
}

#[test]
fn rocket_is_fired_at_the_target() {
    let mut game = open_game();
    game.add_player("a".to_string(), (1_000_000, 600_000));
    game.players[0].input.boost = true;
    game.players[0].input.target_x = Some(1_000_000);
    game.players[0].input.target_y = Some(500_000);
    game.players[0].velocity = (20_000, 0);
    game.take_events();
    assert!(game.is_well_formed());
    game.fire_rockets();
    assert_eq!(
        game.projectiles,
        vec![Projectile {
            id: 1,
            x: 1_000_000,
            y: 570_000,
            vx: 10_000,
            vy: -125_000,
            owner_id: 1,
            lifetime: 2_000,
            active: true
        }]
    );
    assert_eq!(game.next_projectile_id, 2);
    let p = &game.players[0];
    assert_eq!(p.rocket_cooldown, 8_000);
    assert!(!p.input.boost);
    assert_eq!(p.velocity, (20_000, 37_500));
    assert_eq!(game.events, vec![GameEvent::ProjectileFired { player_id: 1 }]);
    game.players[0].input.boost = true;
    assert!(game.is_well_formed());
    game.fire_rockets();
    assert_eq!(game.projectiles.len(), 1);
}

#[test]
fn rockets_stay_off_where_the_match_has_none() {
    let mut game = Game::create(GameConfig::two_team(), two_goals()).unwrap();
    game.add_player("a".to_string(), (1_000_000, 600_000));
    game.players[0].input.boost = true;
    assert!(game.is_well_formed());
    game.fire_rockets();
    assert!(game.projectiles.is_empty());
    assert!(game.players[0].input.boost);
}

#[test]
fn rocket_whose_lifetime_is_over_explodes_where_it_is() {
    let mut game = open_game();
    game.add_player("a".to_string(), (300_000, 300_000));
    game.projectiles.push(Projectile {
        id: 1,
        x: 1_500_000,
        y: 300_000,
        vx: 125_000,
        vy: 0,
        owner_id: 1,
        lifetime: 2_000,
        active: true,
    });
    game.take_events();
    for tick in 1..20 {
        assert!(game.is_well_formed());
        game.step_projectiles(100);
        assert_eq!(game.projectiles.len(), 1);
        assert_eq!(game.projectiles[0].lifetime, 2_000 - 100 * tick);
        assert!(game.projectiles[0].active);
        assert!(game.events.is_empty());
    }
    assert_eq!(game.projectiles[0].x, 1_737_500);
    assert!(game.is_well_formed());
    game.step_projectiles(100);
    assert!(game.projectiles.is_empty());
    assert_eq!(
        game.events,
        vec![GameEvent::Explosion { x: 1_750_000, y: 300_000, radius: 100_000, player_id: 1 }]
    );
}

#[test]
fn rocket_explodes_at_ships_walls_the_ball_and_the_edge() {
    let config = GameConfig::corner_defense();
    let mut map = two_goals();
    map.push(wall(1_500_000, 0, 20_000, 400_000));
    let mut game = Game::create(config, map).unwrap();
    game.add_player("owner".to_string(), (300_000, 300_000));
    game.add_player("victim".to_string(), (300_000, 900_000));
    let rocket = |id: u32, x: i64, y: i64, vx: i64| Projectile {
        id,
        x,
        y,
        vx,
        vy: 0,
        owner_id: 1,
        lifetime: 2_000,
        active: true,
    };
    game.projectiles = vec![
        rocket(1, 300_000, 300_000, 0),
        rocket(2, 280_000, 900_000, 0),
        rocket(3, 1_490_000, 200_000, 60_000),
        rocket(4, 1_000_000, 610_000, 0),
        rocket(5, 1_995_000, 100_000, 100_000),
        rocket(6, 700_000, 100_000, 100_000),
    ];
    game.take_events();
    assert!(game.is_well_formed());
    game.step_projectiles(100);
    assert_eq!(game.projectiles.len(), 2);
    assert_eq!(game.projectiles[0].id, 1);
    assert_eq!(game.projectiles[1].id, 6);
    assert_eq!(game.projectiles[1].x, 710_000);
    let places: Vec<(i64, i64)> = game
        .events
        .iter()
        .filter_map(|e| match e {
            GameEvent::Explosion { x, y, .. } => Some((*x, *y)),
            _ => None,
        })
        .collect();
    assert_eq!(
        places,
        vec![(280_000, 900_000), (1_496_000, 200_000), (1_000_000, 610_000), (2_005_000, 100_000)]
    );
}

#[test]
fn explosion_throws_ships_and_ball_back() {
    let mut game = open_game();
    game.add_player("a".to_string(), (1_050_000, 600_000));
    game.add_player("b".to_string(), (1_000_000, 800_000));
    game.ball.x = 1_000_000;
    game.ball.y = 650_000;
    game.take_events();
    assert!(game.is_well_formed());
    game.create_explosion(1_000_000, 600_000, 7);
    assert_eq!(game.players[0].velocity, (150_000, 0));
    assert_eq!(game.players[1].velocity, (0, 0));
    assert_eq!((game.ball.vx, game.ball.vy), (0, 300_000));
    assert_eq!(
        game.events,
        vec![GameEvent::Explosion { x: 1_000_000, y: 600_000, radius: 100_000, player_id: 7 }]
    );
}

#[test]
fn explosion_knocks_the_ball_out_of_the_holders_hands() {
    let mut game = open_game();
    game.add_player("a".to_string(), (1_050_000, 600_000));
    game.ball.grab(1, 1_050_000, 600_000);
    game.take_events();
    assert!(game.is_well_formed());
    game.create_explosion(1_000_000, 600_000, 7);
    assert!(!game.ball.grabbed);
    assert_eq!(game.ball.owner, None);
    assert_eq!((game.ball.x, game.ball.y), (1_050_000, 600_000));
    // one and a half times the ship's kick, then twice the kick on the free ball
    assert_eq!((game.ball.vx, game.ball.vy), (500_000, 0));
    assert_eq!(game.players[0].grab_cooldown, 500);
    assert_eq!(game.players[0].velocity, (150_000, 0));
    assert_eq!(game.events[0], GameEvent::BallKnocked { player_id: 1 });
}

#[test]
fn fast_ball_gets_more_sub_steps() {
    let mut game = open_game();
    assert_eq!(game.sub_step_count(), 10);
    game.ball.vx = 300_000;
    assert_eq!(game.sub_step_count(), 10);
    game.ball.vx = 300_001;
    assert_eq!(game.sub_step_count(), 21);
    game.ball.vx = 400_000;
    assert_eq!(game.sub_step_count(), 24);
    game.ball.vx = 500_000;
    assert_eq!(game.sub_step_count(), 27);
}

#[test]
fn free_ball_flies_through_a_tick() {
    let mut game = open_game();
    game.ball.vx = 100_000;
    assert!(game.is_well_formed());
    game.fly_ball(100);
    // ten sub-steps of ten milliseconds, friction after each
    assert_eq!(game.ball.vx, 98_013);
    assert_eq!(game.ball.x, 1_009_910);
    assert_eq!(game.ball.y, 600_000);
}

#[test]
fn ball_stays_in_the_field_and_under_its_top_speed() {
    let config = GameConfig::corner_defense();
    let mut map = two_goals();
    map.push(wall(0, 0, 2_000_000, 20_000));
    map.push(wall(0, 1_180_000, 2_000_000, 20_000));
    map.push(wall(1_980_000, 0, 20_000, 500_000));
    map.push(wall(900_000, 300_000, 30_000, 300_000));
    let mut game = Game::create(config, map).unwrap();
    game.goal_cooldown = 0;
    game.ball.x = 700_000;
    game.ball.y = 450_000;
    game.ball.vx = 400_000;
    game.ball.vy = -300_000;
    for _ in 0..400 {
        assert!(game.is_well_formed());
        game.update(100);
        assert!(0 <= game.ball.x && game.ball.x <= 2_000_000);
        assert!(0 <= game.ball.y && game.ball.y <= 1_200_000);
        let speed2 = (game.ball.vx as i128).pow(2) + (game.ball.vy as i128).pow(2);
        assert!(speed2 <= 500_000i128 * 500_000);
        assert!(!game.ball.grabbed || (game.ball.owner.is_some() && speed2 == 0));
    }
}

#[test]
fn ball_bounces_off_a_wall_in_flight() {
    let config = GameConfig::corner_defense();
    let mut map = two_goals();
    map.push(wall(1_100_000, 0, 50_000, 1_200_000));
    let mut game = Game::create(config, map).unwrap();
    game.ball.x = 1_090_000;
    game.ball.y = 600_000;
    game.ball.vx = 200_000;
    assert!(game.is_well_formed());
    game.step_ball(10_000);
    // at 1092 the ball overlaps the wall's outline but not its inset box
    assert_eq!(game.ball.x, 1_092_000);
    assert_eq!(game.ball.vx, 199_600);
    assert!(game.is_well_formed());
    game.step_ball(10_000);
    assert_eq!(game.ball.x, 1_093_996);
    assert!(game.is_well_formed());
    game.step_ball(10_000);
    // at 1095.988 it reaches 0.988 units into the inset box and is pushed out to its left
    assert_eq!(game.ball.x, 1_094_000);
    assert_eq!(game.ball.vx, -178_920);
}

#[test]
fn overlong_tick_is_simulated_as_the_longest() {
    let mut a = open_game();
    let mut b = open_game();
    a.ball.vx = 100_000;
    b.ball.vx = 100_000;
    assert!(a.is_well_formed());
    a.update(1_000);
    assert!(b.is_well_formed());
    b.update(60_000);
    assert_eq!(a.ball, b.ball);
}

#[test]
fn reset_puts_everything_back() {
    let mut game = open_game();
    game.add_player("a".to_string(), (100_000, 100_000));
    game.add_player("b".to_string(), (200_000, 100_000));
    game.team1_score = 3;
    game.team2_score = 2;
    game.players[0].velocity = (5, 5);
    game.players[0].last_seq = 7;
    game.ball.grab(1, 100_000, 100_000);
    game.projectiles.push(Projectile::new(1, 5, 5, 0, 0, 1));
    game.take_events();
    assert!(game.is_well_formed());
    game.reset_with(&vec![0, 60_000]);
    assert_eq!((game.team1_score, game.team2_score), (0, 0));
    assert_eq!((game.ball.x, game.ball.y), (1_000_000, 600_000));
    assert!(!game.ball.grabbed);
    assert_eq!(game.ball.owner, None);
    assert_eq!(game.ball.last_shooter, None);
    assert_eq!(game.players[0].ship, Ship { x: 850_000, y: 550_000 });
    assert_eq!(game.players[1].ship, Ship { x: 1_150_000, y: 610_000 });
    assert_eq!(game.players[0].velocity, (0, 0));
    assert_eq!(game.players[0].last_seq, 7);
    assert_eq!(game.goal_cooldown, 5_000);
    assert!(game.projectiles.is_empty());
    assert_eq!(
        game.events,
        vec![
            GameEvent::GameReset { team1_score: 0, team2_score: 0, team3_score: 0, team4_score: 0 },
            GameEvent::Countdown { count: 5 },
        ]
    );
}

#[test]
fn only_the_host_resets_the_match() {
    let mut game = open_game();
    game.add_player("host".to_string(), (100_000, 100_000));
    game.add_player("guest".to_string(), (200_000, 100_000));
    game.team1_score = 3;
    assert!(!game.request_reset(2));
    assert!(!game.request_reset(42));
    assert_eq!(game.team1_score, 3);
    assert!(game.request_reset(1));
    assert_eq!(game.team1_score, 0);
    assert_eq!(game.players[0].ship.x, 850_000);
    assert!(game.players[0].ship.y >= 550_000 && game.players[0].ship.y < 650_000);
}

#[test]
fn countdown_runs_from_five_to_zero() {
    let mut counts = vec![5];
    while let Some(next) = next_countdown(*counts.last().unwrap()) {
        counts.push(next);
    }
    assert_eq!(counts, vec![5, 4, 3, 2, 1, 0]);
}

#[test]
fn reliable_shot_is_acknowledged_with_its_reason() {
    let mut game = open_game();
    game.add_player("a".to_string(), (1_000_000, 600_000));
    let ack = game.reliable_shoot(1, 11, 5, 6, 3);
    assert_eq!((ack.shot_id, ack.success, ack.reason), (11, false, ShootAckReason::NoBall));
    assert_eq!(ack.reason.wire_name(), "no_ball");
    game.ball.grab(1, 1_000_000, 600_000);
    game.players[0].shoot_cooldown = 10;
    let ack = game.reliable_shoot(1, 12, 5, 6, 3);
    assert_eq!((ack.success, ack.reason), (false, ShootAckReason::CooldownActive));
    assert!(!game.players[0].input.shoot);
    game.players[0].shoot_cooldown = 0;
    game.players[0].last_seq = 9;
    let ack = game.reliable_shoot(1, 13, 1_200_000, 650_000, 3);
    assert_eq!((ack.shot_id, ack.success, ack.reason), (13, true, ShootAckReason::Accepted));
    let p = &game.players[0];
    assert!(p.input.shoot);
    assert_eq!((p.input.target_x, p.input.target_y), (Some(1_200_000), Some(650_000)));
    assert_eq!(p.pending_shot_id, Some(13));
    assert_eq!(p.last_seq, 9);
    let ack = game.reliable_shoot(8, 14, 0, 0, 1);
    assert_eq!((ack.success, ack.reason), (false, ShootAckReason::UnknownError));
}

#[test]
fn team_switch_needs_room() {
    let mut game = Game::create(GameConfig::corner_defense(), two_goals()).unwrap();
    game.add_player("a".to_string(), (100_000, 100_000));
    game.add_player("b".to_string(), (200_000, 100_000));
    assert_eq!(game.switch_team(1, Team::Red), SwitchOutcome::AlreadyOnTeam);
    assert_eq!(game.switch_team(1, Team::Blue), SwitchOutcome::TeamFull);
    assert_eq!(game.players[0].team, Team::Red);
    assert_eq!((game.red_team_count, game.blue_team_count), (1, 1));
    assert_eq!(game.switch_team(7, Team::Blue), SwitchOutcome::UnknownPlayer);
    assert_eq!(game.switch_team(1, Team::Green), SwitchOutcome::Switched);
    assert_eq!(game.players[0].team, Team::Green);
    assert_eq!(
        (game.red_team_count, game.blue_team_count, game.yellow_team_count, game.green_team_count),
        (0, 1, 0, 1)
    );
}

#[test]
fn snapshot_shows_the_public_state() {
    let mut game = open_game();
    game.add_player("a".to_string(), (100_000, 150_000));
    game.players[0].last_seq = 4;
    game.players[0].rocket_cooldown = 70;
    game.projectiles.push(Projectile::new(1, 5, 6, 7, 8, 1));
    game.team3_score = 2;
    let snap = game.snapshot_at(1_234);
    assert_eq!(snap.time, 1_234);
    assert_eq!(snap.players.len(), 1);
    let (id, ship) = &snap.players[0];
    assert_eq!(*id, 1);
    assert_eq!((ship.x, ship.y, ship.seq, ship.fuel), (100_000, 150_000, 4, 200_000));
    assert_eq!(ship.team, Team::Red);
    assert_eq!(ship.display_name, "a");
    assert_eq!(ship.rocket_cooldown, 70);
    assert_eq!(snap.ball, game.ball);
    assert_eq!(snap.projectiles, game.projectiles);
    assert_eq!(snap.team3_score, 2);
    let now = game.create_snapshot();
    assert!(now.time > 1_600_000_000_000);
    assert_eq!(now.ball, game.ball);
}

#[test]
fn joining_player_gets_id_team_and_place() {
    let mut game = open_game();
    assert_eq!(game.join(), Some(1));
    assert_eq!(game.join(), Some(2));
    assert!(game.is_well_formed());
    assert_eq!(game.players[0].team, Team::Red);
    assert_eq!(game.players[1].team, Team::Blue);
    assert_eq!(game.players[0].ship.x, 850_000);
    assert_eq!(game.players[1].ship.x, 1_150_000);
    for p in &game.players {
        assert!(p.ship.y >= 550_000 && p.ship.y < 650_000);
    }
    assert!(game.players[0].is_host && !game.players[1].is_host);
    assert_eq!(game.players[0].display_name, "Player_1");
    assert_eq!(game.players[1].display_name, "Player_2");
    game.next_id = 4_294_967_294;
    assert_eq!(game.join(), Some(4_294_967_294));
    assert_eq!(game.players[2].display_name, "Player_4294967294");
    assert_eq!(game.join(), None);
    assert_eq!(game.players.len(), 3);
    game.players.pop();
    assert_eq!(game.players.len(), 2);
}

#[test]
fn invariant_is_checked_field_by_field() {
    let mut game = open_game();
    game.add_player("a".to_string(), (100_000, 100_000));
    game.add_player("b".to_string(), (200_000, 100_000));
    assert!(game.is_well_formed());
    game.ball.grabbed = true;
    assert!(!game.is_well_formed());
    game.ball.owner = Some(1);
    assert!(game.is_well_formed());
    game.ball.vx = 1;
    assert!(!game.is_well_formed());
    game.ball.release(1);
    assert!(game.is_well_formed());
    game.ball.vx = 400_000;
    game.ball.vy = 300_000;
    assert!(game.is_well_formed());
    game.ball.vy = 300_001;
    assert!(!game.is_well_formed());
    game.ball.vy = 0;
    game.ball.x = 2_000_001;
    assert!(!game.is_well_formed());
    game.ball.x = 2_000_000;
    game.players[1].id = 1;
    assert!(!game.is_well_formed());
    game.players[1].id = 3;
    assert!(!game.is_well_formed());
    game.players[1].id = 2;
    game.players[0].ship.y = -1;
    assert!(!game.is_well_formed());
    game.players[0].ship.y = 0;
    game.players[0].velocity.0 = 10_000_001;
    assert!(!game.is_well_formed());
    game.players[0].velocity.0 = -10_000_000;
    game.players[0].input.target_x = Some(i64::MAX);
    game.players[0].input.target_y = Some(i64::MIN);
    assert!(game.is_well_formed());
    game.projectiles.push(Projectile::new(1, -30_001, 0, 0, 0, 1));
    assert!(!game.is_well_formed());
    game.projectiles[0].x = -30_000;
    assert!(game.is_well_formed());
}

#[test]
fn countdown_is_announced_with_its_first_count() {
    let mut game = open_game();
    game.start_countdown();
    assert_eq!(game.events, vec![GameEvent::Countdown { count: 5 }]);
}

#[test]
fn long_match_keeps_its_invariant() {
    let config = GameConfig::corner_defense();
    let mut map = two_goals();
    map.push(goal(Team::Yellow, 900_000, 0, 200_000, 50_000));
    map.push(goal(Team::Green, 900_000, 1_150_000, 200_000, 50_000));
    map.push(wall(600_000, 100_000, 40_000, 300_000));
    map.push(wall(1_360_000, 800_000, 40_000, 300_000));
    map.push(wall(0, 0, 400_000, 20_000));
    let mut game = Game::create(config, map).unwrap();
    // fixed places, so that the match runs the same way every time
    game.add_player("a".to_string(), (850_000, 560_000));
    game.add_player("b".to_string(), (1_150_000, 640_000));
    game.add_player("c".to_string(), (1_150_000, 520_000));
    game.add_player("d".to_string(), (850_000, 610_000));
    let mut state: u64 = 0x2545_F491_4F6C_DD1D;
    let mut next = move || {
        state ^= state << 13;
        state ^= state >> 7;
        state ^= state << 17;
        state
    };
    let mut goals = 0;
    let mut explosions = 0;
    let mut shots = 0;
    for tick in 0..3_000u32 {
        for id in 1..=4u32 {
            let r = next();
            let ship = game.players[(id - 1) as usize].ship;
            let holds = game.ball.owner == Some(id);
            // chase the ball; carry it toward the red goal and shoot from time to time
            let (goal_x, goal_y) = if holds { (25_000, 600_000) } else { (game.ball.x, game.ball.y) };
            let mut msg = command(tick + 1);
            msg.left = ship.x > goal_x + 5_000;
            msg.right = ship.x < goal_x - 5_000;
            msg.up = ship.y > goal_y + 5_000;
            msg.down = ship.y < goal_y - 5_000;
            msg.shoot = Some(holds && r & 0x7 == 0);
            msg.boost = Some(r & 0xF0 == 0);
            msg.target_x = Some(if holds { 25_000 } else { ((r >> 8) % 2_000_000) as i64 });
            msg.target_y = Some(if holds { 600_000 } else { ((r >> 32) % 1_200_000) as i64 });
            assert_eq!(game.apply_input(id, msg), InputOutcome::Accepted);
        }
        let seqs: Vec<u32> = game.players.iter().map(|p| p.last_seq).collect();
        game.update(100);
        assert!(game.is_well_formed(), "tick {}", tick);
        assert!(game.players.iter().zip(seqs).all(|(p, s)| p.last_seq >= s));
        if game.ball.grabbed {
            let owner = game.ball.owner.unwrap();
            let i = game.find_player(owner).unwrap();
            assert_eq!((game.ball.x, game.ball.y), (game.players[i].ship.x, game.players[i].ship.y));
        }
        for event in game.take_events() {
            match event {
                GameEvent::Goal { .. } => goals += 1,
                GameEvent::Explosion { .. } => explosions += 1,
                GameEvent::BallShot { .. } | GameEvent::AutoShoot { .. } => shots += 1,
                _ => {}
            }
        }
    }
    assert_eq!(
        goals,
        game.team1_score + game.team2_score + game.team3_score + game.team4_score
    );
    assert!(explosions > 0);
    assert!(shots > 0);
    assert!(goals > 0);
}

#[test]
fn explosion_far_from_the_field_is_reported_and_reaches_nothing() {
    let mut game = open_game();
    game.add_player("a".to_string(), (1_000_000, 600_000));
    game.ball.grab(1, 1_000_000, 600_000);
    game.take_events();
    game.create_explosion(i64::MAX, i64::MIN, 3);
    assert!(game.ball.grabbed);
    assert_eq!(game.players[0].velocity, (0, 0));
    assert_eq!(
        game.events,
        vec![GameEvent::Explosion { x: i64::MAX, y: i64::MIN, radius: 100_000, player_id: 3 }]
    );
    assert!(game.is_well_formed());
}
