use fpsoccer::ball::{Ball, MAX_BALL_SPEED, SHOT_CLOCK_MS};
use fpsoccer::collision::{resolve_rect_collision, resolve_ship_collision};
use fpsoccer::fixed::{add_clamped, cap_speed, clamp, decay, length, mul_div, norm2_of};
use fpsoccer::geometry::{
    center_of_goals, validate_map, GameConfig, MapObject, ObjType,
};
use fpsoccer::player::{Player, Ship, Team};
use fpsoccer::projectile::{Projectile, PROJECTILE_LIFETIME_MS};
use fpsoccer::rocket::blast_force;

fn wall(x: i64, y: i64, width: i64, height: i64) -> MapObject {
    MapObject { obj_type: ObjType::Wall, x, y, width, height }
}

fn goal(team: Team, x: i64, y: i64, width: i64, height: i64) -> MapObject {
    MapObject { obj_type: ObjType::Goal(team), x, y, width, height }
}

#[test]
fn quotients_round_toward_zero() {
    assert_eq!(mul_div(7, 1, 2), 3);
    assert_eq!(mul_div(-7, 1, 2), -3);
    assert_eq!(mul_div(100_000, 998, 1000), 99_800);
    assert_eq!(mul_div(-100_000, 998, 1000), -99_800);
    assert_eq!(mul_div(1, 999, 1000), 0);
}

#[test]
fn cooldown_stops_at_zero() {
    assert_eq!(decay(300, 100), 200);
    assert_eq!(decay(100, 100), 0);
    assert_eq!(decay(50, 100), 0);
    assert_eq!(decay(0, 100), 0);
}

#[test]
fn clamp_and_saturating_sum() {
    assert_eq!(clamp(5, 0, 10), 5);
    assert_eq!(clamp(-5, 0, 10), 0);
    assert_eq!(clamp(15, 0, 10), 10);
    assert_eq!(add_clamped(8, 7, 10), 10);
    assert_eq!(add_clamped(-8, -7, 10), -10);
    assert_eq!(add_clamped(3, 4, 10), 7);
}

#[test]
fn length_rounds_up() {
    assert_eq!(length(3, 4), 5);
    assert_eq!(length(1, 1), 2);
    assert_eq!(length(0, 0), 0);
    assert_eq!(length(-30_000, 0), 30_000);
    assert_eq!(norm2_of(-3, 4), 25);
}

#[test]
fn cap_speed_leaves_slow_vectors_alone() {
    assert_eq!(cap_speed(300_000, 400_000, 500_000), (300_000, 400_000));
    assert_eq!(cap_speed(600_000, 800_000, 500_000), (300_000, 400_000));
    let (x, y) = cap_speed(700_001, -700_001, 500_000);
    assert!((x as i128) * (x as i128) + (y as i128) * (y as i128) <= 500_000i128 * 500_000);
    assert!(x > 353_000 && y < -353_000);
}

#[test]
fn ball_flies_and_slows() {
    let mut ball = Ball::new(500_000, 500_000);
    ball.vx = 100_000;
    ball.vy = -50_000;
    ball.update_position(10_000, 2_000_000, 1_200_000);
    assert_eq!(ball.x, 501_000);
    assert_eq!(ball.y, 499_500);
    assert_eq!(ball.vx, 99_800);
    assert_eq!(ball.vy, -49_900);
}

#[test]
fn ball_bounces_off_the_edge_of_the_field() {
    let mut ball = Ball::new(15_000, 600_000);
    ball.vx = -100_000;
    ball.update_position(100_000, 2_000_000, 1_200_000);
    assert_eq!(ball.x, 10_000);
    assert_eq!(ball.vx, 99_800);
    assert_eq!(ball.y, 600_000);

    let mut low = Ball::new(600_000, 1_195_000);
    low.vy = 200_000;
    low.update_position(100_000, 2_000_000, 1_200_000);
    assert_eq!(low.y, 1_190_000);
    assert_eq!(low.vy, -199_600);
}

#[test]
fn held_ball_does_not_fly() {
    let mut ball = Ball::new(500_000, 500_000);
    ball.grab(7, 300_000, 400_000);
    let before = ball;
    ball.update_position(100_000, 2_000_000, 1_200_000);
    assert_eq!(ball, before);
    assert_eq!(ball.owner, Some(7));
    assert!(ball.grabbed);
    assert_eq!((ball.x, ball.y, ball.vx, ball.vy), (300_000, 400_000, 0, 0));
    assert_eq!(ball.shot_clock, SHOT_CLOCK_MS);
}

#[test]
fn release_records_the_shooter() {
    let mut ball = Ball::new(500_000, 500_000);
    ball.grab(7, 300_000, 400_000);
    ball.shot_clock = 1;
    ball.release(7);
    assert!(!ball.grabbed);
    assert_eq!(ball.owner, None);
    assert_eq!(ball.last_shooter, Some(7));
    assert_eq!(ball.shot_clock, SHOT_CLOCK_MS);
}

#[test]
fn over_fast_ball_is_capped_before_it_moves() {
    let mut ball = Ball::new(500_000, 500_000);
    ball.vx = 600_000;
    ball.vy = 800_000;
    ball.update_position(10_000, 2_000_000, 1_200_000);
    assert_eq!((ball.x, ball.y), (503_000, 504_000));
    assert_eq!((ball.vx, ball.vy), (299_400, 399_200));
}

#[test]
fn ball_bounces_off_a_wall_on_the_axis_of_least_overlap() {
    let w = wall(100_000, 0, 50_000, 200_000);
    let mut ball = Ball::new(98_000, 100_000);
    ball.vx = 200_000;
    ball.vy = 10_000;
    resolve_rect_collision(&mut ball, &w);
    assert_eq!(ball.x, 94_000);
    assert_eq!(ball.y, 100_000);
    assert_eq!(ball.vx, -180_000);
    assert_eq!(ball.vy, 10_000);
}

#[test]
fn bounce_damping_grows_with_speed() {
    let w = wall(100_000, 0, 50_000, 200_000);
    let mut slow = Ball::new(98_000, 100_000);
    slow.vx = 100_000;
    resolve_rect_collision(&mut slow, &w);
    assert_eq!(slow.vx, -95_000);

    let mut fast = Ball::new(98_000, 100_000);
    fast.vx = 400_000;
    resolve_rect_collision(&mut fast, &w);
    assert_eq!(fast.vx, -320_000);

    let mut from_right = Ball::new(152_000, 100_000);
    from_right.vx = -100_000;
    resolve_rect_collision(&mut from_right, &w);
    assert_eq!(from_right.x, 156_000);
    assert_eq!(from_right.vx, 95_000);
}

#[test]
fn ball_clear_of_the_wall_is_left_alone() {
    let w = wall(100_000, 0, 50_000, 200_000);
    let mut ball = Ball::new(80_000, 100_000);
    ball.vx = 200_000;
    let before = ball;
    resolve_rect_collision(&mut ball, &w);
    assert_eq!(ball, before);
    // inside the drawn outline but outside the inset collision box
    let mut grazing = Ball::new(94_000, 100_000);
    grazing.vx = 200_000;
    let before = grazing;
    resolve_rect_collision(&mut grazing, &w);
    assert_eq!(grazing, before);
}

#[test]
fn bounce_never_speeds_the_ball_up() {
    let w = wall(100_000, 0, 50_000, 200_000);
    for (vx, vy) in [(300_000i64, 400_000i64), (-500_000, 0), (1, 1), (353_553, 353_553)] {
        let mut ball = Ball::new(98_000, 100_000);
        ball.vx = vx;
        ball.vy = vy;
        resolve_rect_collision(&mut ball, &w);
        let after = (ball.vx as i128).pow(2) + (ball.vy as i128).pow(2);
        assert!(after <= (vx as i128).pow(2) + (vy as i128).pow(2));
        assert!(after <= (MAX_BALL_SPEED as i128).pow(2));
    }
}

#[test]
fn ship_stops_at_a_wall() {
    let w = wall(100_000, 0, 50_000, 200_000);
    let mut ship = Ship { x: 85_000, y: 100_000 };
    let mut velocity = (50_000, 20_000);
    resolve_ship_collision(&mut ship, &mut velocity, &w);
    assert_eq!(ship, Ship { x: 80_000, y: 100_000 });
    assert_eq!(velocity, (0, 20_000));

    let mut above = Ship { x: 125_000, y: 215_000 };
    let mut v = (50_000, -20_000);
    resolve_ship_collision(&mut above, &mut v, &w);
    assert_eq!(above, Ship { x: 125_000, y: 220_000 });
    assert_eq!(v, (50_000, 0));

    let mut far = Ship { x: 300_000, y: 100_000 };
    let mut fv = (1, 2);
    resolve_ship_collision(&mut far, &mut fv, &w);
    assert_eq!(far, Ship { x: 300_000, y: 100_000 });
    assert_eq!(fv, (1, 2));
}

#[test]
fn projectile_flies_and_ages() {
    let mut p = Projectile::new(1, 100_000, 200_000, 125_000, -62_500, 9);
    assert_eq!(p.lifetime, PROJECTILE_LIFETIME_MS);
    assert!(p.active);
    p.update_position(100);
    assert_eq!((p.x, p.y), (112_500, 193_750));
    assert_eq!(p.lifetime, 1_900);
    assert!(p.active);
    p.lifetime = 100;
    p.update_position(100);
    assert_eq!(p.lifetime, 0);
    assert!(!p.active);
    assert_eq!((p.x, p.y), (125_000, 187_500));
}

#[test]
fn blast_falls_off_with_distance() {
    assert_eq!(blast_force(50_000, 0), (150_000, 0));
    assert_eq!(blast_force(0, -25_000), (0, -225_000));
    assert_eq!(blast_force(0, 0), (300_000, 0));
    assert_eq!(blast_force(100_000, 0), (0, 0));
    assert_eq!(blast_force(200_000, 5), (0, 0));
    assert_eq!(blast_force(30_000, 40_000), (90_000, 120_000));
}

#[test]
fn map_objects_are_validated() {
    assert!(MapObject::new(ObjType::Wall, 0, 0, 10, 10).is_some());
    assert!(MapObject::new(ObjType::Wall, 0, 0, -1, 10).is_none());
    assert!(MapObject::new(ObjType::Wall, 999_999_999, 0, 2, 10).is_none());
    assert!(MapObject::new(ObjType::Wall, -1_000_000_001, 0, 2, 10).is_none());
    assert!(validate_map(&vec![wall(0, 0, 10, 10)]));
    assert!(!validate_map(&vec![wall(0, 0, 10, 10), wall(0, 0, 10, -10)]));
}

#[test]
fn tags_name_walls_and_goals() {
    assert_eq!(ObjType::from_tag("wall"), ObjType::Wall);
    assert_eq!(ObjType::from_tag("goal_red"), ObjType::Goal(Team::Red));
    assert_eq!(ObjType::from_tag("goal_blue"), ObjType::Goal(Team::Blue));
    assert_eq!(ObjType::from_tag("goal_yellow"), ObjType::Goal(Team::Yellow));
    assert_eq!(ObjType::from_tag("goal_green"), ObjType::Goal(Team::Green));
    assert_eq!(ObjType::from_tag("goal_purple"), ObjType::Other);
    assert_eq!(ObjType::from_tag("Wall"), ObjType::Other);
    assert_eq!(ObjType::from_tag(""), ObjType::Other);
    assert_eq!(Team::from_name("Red"), Some(Team::Red));
    assert_eq!(Team::from_name("Green"), Some(Team::Green));
    assert_eq!(Team::from_name("red"), None);
    assert_eq!(Team::Yellow.wire_name(), "yellow");
}

#[test]
fn centre_lies_midway_between_the_goals() {
    let config = GameConfig::corner_defense();
    let map = vec![
        wall(0, 0, 2_000_000, 20_000),
        goal(Team::Red, 0, 500_000, 50_000, 200_000),
        goal(Team::Blue, 1_950_000, 500_000, 50_000, 200_000),
    ];
    assert_eq!(center_of_goals(&map, &config), (1_000_000, 600_000));
    assert_eq!(center_of_goals(&vec![wall(0, 0, 10, 10)], &config), (1_000_000, 600_000));
    let outside = vec![goal(Team::Red, -400_000, -300_000, 100_000, 100_000)];
    assert_eq!(center_of_goals(&outside, &config), (0, 0));
}

#[test]
fn spawn_is_on_the_teams_side() {
    let config = GameConfig::corner_defense();
    let red = Player::spawn(1, Team::Red, "a".to_string(), (1_000_000, 600_000), 0, &config);
    assert_eq!(red.ship, Ship { x: 850_000, y: 550_000 });
    let blue = Player::spawn(2, Team::Blue, "b".to_string(), (1_000_000, 600_000), 99_999, &config);
    assert_eq!(blue.ship, Ship { x: 1_150_000, y: 649_999 });
    let yellow =
        Player::spawn(3, Team::Yellow, "c".to_string(), (1_000_000, 600_000), 150_000, &config);
    assert_eq!(yellow.ship, Ship { x: 1_150_000, y: 600_000 });
    let green = Player::spawn(4, Team::Green, "d".to_string(), (100_000, 10_000), 0, &config);
    assert_eq!(green.ship, Ship { x: 0, y: 0 });
    assert_eq!(green.velocity, (0, 0));
    assert_eq!(green.last_seq, 0);
    assert!(!green.is_host);
}

#[test]
fn new_player_appears_near_the_centre() {
    let config = GameConfig::corner_defense();
    let map = vec![
        goal(Team::Red, 0, 500_000, 50_000, 200_000),
        goal(Team::Blue, 1_950_000, 500_000, 50_000, 200_000),
    ];
    for _ in 0..20 {
        let p = Player::new(5, Team::Red, "p".to_string(), &map, &config);
        assert_eq!(p.ship.x, 850_000);
        assert!(p.ship.y >= 550_000 && p.ship.y < 650_000);
        assert_eq!(p.id, 5);
        assert_eq!(p.team, Team::Red);
        assert_eq!(p.display_name, "p");
    }
}

#[test]
fn fuel_is_burnt_and_regained() {
    let config = GameConfig::corner_defense();
    let mut p = Player::spawn(1, Team::Red, "a".to_string(), (1_000_000, 600_000), 0, &config);
    assert_eq!(p.fuel, 200_000);
    assert!(p.use_boost(150_000));
    assert_eq!(p.fuel, 50_000);
    assert!(!p.use_boost(50_001));
    assert_eq!(p.fuel, 50_000);
    p.regenerate_fuel(100_000);
    assert_eq!(p.fuel, 150_000);
    p.regenerate_fuel(100_000);
    assert_eq!(p.fuel, 200_000);
    p.regenerate_fuel(u32::MAX);
    assert_eq!(p.fuel, 200_000);
}

#[test]
fn empty_name_is_refused() {
    let config = GameConfig::corner_defense();
    let mut p = Player::spawn(1, Team::Red, "old".to_string(), (1_000_000, 600_000), 0, &config);
    p.set_display_name(String::new());
    assert_eq!(p.display_name, "old");
    p.set_display_name("new".to_string());
    assert_eq!(p.display_name, "new");
}

#[test]
fn ship_past_the_near_edge_leaves_by_that_edge() {
    // the centre lies 10 units inside the wall's left edge
    let w = wall(100_000, 0, 200_000, 300_000);
    let mut ship = Ship { x: 110_000, y: 150_000 };
    let mut velocity = (5_000, 7_000);
    resolve_ship_collision(&mut ship, &mut velocity, &w);
    assert_eq!(ship, Ship { x: 80_000, y: 150_000 });
    assert_eq!(velocity, (0, 7_000));

    // the same from the right, the top and the bottom
    let mut ship = Ship { x: 290_000, y: 150_000 };
    let mut velocity = (-5_000, 7_000);
    resolve_ship_collision(&mut ship, &mut velocity, &w);
    assert_eq!(ship, Ship { x: 320_000, y: 150_000 });
    assert_eq!(velocity, (0, 7_000));

    let mut ship = Ship { x: 200_000, y: 12_000 };
    let mut velocity = (5_000, 7_000);
    resolve_ship_collision(&mut ship, &mut velocity, &w);
    assert_eq!(ship, Ship { x: 200_000, y: -20_000 });
    assert_eq!(velocity, (5_000, 0));

    let mut ship = Ship { x: 200_000, y: 295_000 };
    let mut velocity = (5_000, -7_000);
    resolve_ship_collision(&mut ship, &mut velocity, &w);
    assert_eq!(ship, Ship { x: 200_000, y: 320_000 });
    assert_eq!(velocity, (5_000, 0));
}

#[test]
fn ball_past_the_near_edge_leaves_by_that_edge() {
    // the inset box reaches from 105 to 295 units in x and from 5 to 295 in y
    let w = wall(100_000, 0, 200_000, 300_000);
    let mut ball = Ball::new(108_000, 150_000);
    ball.vx = 100_000;
    ball.vy = 3_000;
    resolve_rect_collision(&mut ball, &w);
    assert_eq!((ball.x, ball.y), (94_000, 150_000));
    assert_eq!((ball.vx, ball.vy), (-95_000, 3_000));

    let mut ball = Ball::new(292_000, 150_000);
    ball.vx = -100_000;
    resolve_rect_collision(&mut ball, &w);
    assert_eq!((ball.x, ball.y), (306_000, 150_000));
    assert_eq!(ball.vx, 95_000);

    let mut ball = Ball::new(150_000, 3_000);
    ball.vy = 100_000;
    ball.vx = 2_000;
    resolve_rect_collision(&mut ball, &w);
    assert_eq!((ball.x, ball.y), (150_000, -6_000));
    assert_eq!((ball.vx, ball.vy), (2_000, -95_000));

    let mut ball = Ball::new(150_000, 298_000);
    ball.vy = -100_000;
    resolve_rect_collision(&mut ball, &w);
    assert_eq!((ball.x, ball.y), (150_000, 306_000));
    assert_eq!(ball.vy, 95_000);
}

#[test]
fn any_ball_ends_a_sub_step_inside_the_field_and_no_faster() {
    let cases: [(i64, i64, i64, i64, u32); 6] = [
        (i64::MAX, i64::MIN, i64::MAX, i64::MIN, u32::MAX),
        (i64::MIN, i64::MAX, -1, 1, 0),
        (0, 0, 500_000, 0, u32::MAX),
        (2_000_000, 1_200_000, -3_000_000_000, 3_000_000_000, 1_000),
        (1_000_000, 600_000, 300_000, -400_000, 4_000_000_000),
        (-5, 1_200_005, 0, 0, 10_000),
    ];
    for (x, y, vx, vy, sub_dt) in cases {
        let mut ball = Ball::new(x, y);
        ball.vx = vx;
        ball.vy = vy;
        ball.update_position(sub_dt, 2_000_000, 1_200_000);
        assert!(10_000 <= ball.x && ball.x <= 1_990_000);
        assert!(10_000 <= ball.y && ball.y <= 1_190_000);
        let after = (ball.vx as i128).pow(2) + (ball.vy as i128).pow(2);
        assert!(after <= (vx as i128).pow(2) + (vy as i128).pow(2));
        assert!(after <= 500_000i128 * 500_000);
    }
    // a field narrower than the ball: the ball is put at the near edge
    let mut ball = Ball::new(7, 7);
    ball.update_position(10_000, 5_000, 1_200_000);
    assert_eq!((ball.x, ball.y), (10_000, 10_000));
}
