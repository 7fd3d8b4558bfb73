//! Collision tests and the two resolutions against a wall: the ball bounces,
//! a ship stops.

use crate::ball::{lemma_slower_keeps_cap, Ball, MAX_BALL_SPEED};
use crate::fixed::{
    abs, lemma_mul_bound, lemma_scaled_bound, mul_div, norm2, norm2_of, scaled, COORD_LIMIT,
    VEC_LIMIT,
};
use crate::geometry::{max_int, min_int, MapObject, BALL_HEIGHT, BALL_WIDTH, SHIP_HEIGHT, SHIP_WIDTH, WALL_COLLISION_INSET};
use crate::player::Ship;
use vstd::prelude::*;

verus! {

/// Gap left between the ball and the wall it was pushed out of.
pub const BOUNCE_BUFFER: i64 = 1_000;

/// Above this speed a bouncing ball keeps 80 % of its speed.
pub const FAST_BALL_SPEED: i64 = 300_000;

/// Above this speed a bouncing ball keeps 90 % of its speed, below it 95 %.
pub const MEDIUM_BALL_SPEED: i64 = 150_000;

/// Two boxes, each given by its corner and size, overlap.
pub open spec fn boxes_overlap(
    x1: int,
    y1: int,
    w1: int,
    h1: int,
    x2: int,
    y2: int,
    w2: int,
    h2: int,
) -> bool {
    x1 < x2 + w2 && x1 + w1 > x2 && y1 < y2 + h2 && y1 + h1 > y2
}

/// How far the interval `[lo, hi]` reaches into `[wall_lo, wall_hi]`, measured
/// from the nearer end; zero when they do not overlap.
pub open spec fn overlap_1d(lo: int, hi: int, wall_lo: int, wall_hi: int) -> int {
    if hi > wall_lo && lo < wall_hi {
        min_int(hi - wall_lo, wall_hi - lo)
    } else {
        0
    }
}

/// Share of its speed, in thousandths, that a ball of squared speed `speed2`
/// keeps when it bounces: the faster the ball, the less.
pub open spec fn bounce_damping(speed2: int) -> int {
    if speed2 > FAST_BALL_SPEED * FAST_BALL_SPEED {
        800
    } else if speed2 > MEDIUM_BALL_SPEED * MEDIUM_BALL_SPEED {
        900
    } else {
        950
    }
}

/// How far the ball's box reaches into the wall's inset collision box
/// along x, measured from the nearer face; zero when it does not.
pub open spec fn inset_overlap_x(ball: Ball, wall: MapObject) -> int {
    overlap_1d(
        ball.x - BALL_WIDTH / 2,
        ball.x + BALL_WIDTH / 2,
        wall.x + WALL_COLLISION_INSET,
        wall.x + wall.width - WALL_COLLISION_INSET,
    )
}

/// How far the ball's box reaches into the wall's inset collision box
/// along y, measured from the nearer face; zero when it does not.
pub open spec fn inset_overlap_y(ball: Ball, wall: MapObject) -> int {
    overlap_1d(
        ball.y - BALL_HEIGHT / 2,
        ball.y + BALL_HEIGHT / 2,
        wall.y + WALL_COLLISION_INSET,
        wall.y + wall.height - WALL_COLLISION_INSET,
    )
}

/// The ball's box overlaps the wall's inset collision box.
pub open spec fn ball_in_inset(ball: Ball, wall: MapObject) -> bool {
    inset_overlap_x(ball, wall) > 0 && inset_overlap_y(ball, wall) > 0
}

/// The ball after a bounce off `wall`: where its box reaches into the wall's
/// inset collision box, it is pushed out along the axis of least overlap,
/// through the nearer face of that axis, and that velocity component is
/// reflected and damped.
pub open spec fn bounced(ball: Ball, wall: MapObject) -> Ball {
    let wall_left = wall.x + WALL_COLLISION_INSET;
    let wall_right = wall.x + wall.width - WALL_COLLISION_INSET;
    let wall_top = wall.y + WALL_COLLISION_INSET;
    let wall_bottom = wall.y + wall.height - WALL_COLLISION_INSET;
    let overlap_x = inset_overlap_x(ball, wall);
    let overlap_y = inset_overlap_y(ball, wall);
    if overlap_x > 0 && overlap_y > 0 {
        let damping = bounce_damping(norm2(ball.vx as int, ball.vy as int));
        if overlap_x < overlap_y {
            let to_left = ball.x + BALL_WIDTH / 2 - wall_left;
            let to_right = wall_right - (ball.x - BALL_WIDTH / 2);
            Ball {
                x: (if to_left <= to_right {
                    wall_left - BALL_WIDTH / 2 - BOUNCE_BUFFER
                } else {
                    wall_right + BALL_WIDTH / 2 + BOUNCE_BUFFER
                }) as i64,
                vx: scaled(-ball.vx, damping, 1000) as i64,
                ..ball
            }
        } else {
            let to_top = ball.y + BALL_HEIGHT / 2 - wall_top;
            let to_bottom = wall_bottom - (ball.y - BALL_HEIGHT / 2);
            Ball {
                y: (if to_top <= to_bottom {
                    wall_top - BALL_HEIGHT / 2 - BOUNCE_BUFFER
                } else {
                    wall_bottom + BALL_HEIGHT / 2 + BOUNCE_BUFFER
                }) as i64,
                vy: scaled(-ball.vy, damping, 1000) as i64,
                ..ball
            }
        }
    } else {
        ball
    }
}

/// The ship's box overlaps the wall.
pub open spec fn ship_in_wall(ship: Ship, wall: MapObject) -> bool {
    &&& ship.x + SHIP_WIDTH / 2 > wall.x
    &&& ship.x - SHIP_WIDTH / 2 < wall.x + wall.width
    &&& ship.y + SHIP_HEIGHT / 2 > wall.y
    &&& ship.y - SHIP_HEIGHT / 2 < wall.y + wall.height
}

/// A ship and its velocity after meeting `wall`: where the ship's box
/// overlaps the wall, the ship is pushed out along the axis of least
/// penetration, through the nearer face of that axis, and stops along it.
pub open spec fn ship_stopped(ship: Ship, velocity: (i64, i64), wall: MapObject) -> (Ship, (i64, i64)) {
    let to_left = ship.x + SHIP_WIDTH / 2 - wall.x;
    let to_right = wall.x + wall.width - (ship.x - SHIP_WIDTH / 2);
    let to_top = ship.y + SHIP_HEIGHT / 2 - wall.y;
    let to_bottom = wall.y + wall.height - (ship.y - SHIP_HEIGHT / 2);
    if ship_in_wall(ship, wall) {
        let overlap_x = min_int(to_left, to_right);
        let overlap_y = min_int(to_top, to_bottom);
        if overlap_x < overlap_y {
            (
                Ship {
                    x: (if to_left < to_right {
                        ship.x - to_left
                    } else {
                        ship.x + to_right
                    }) as i64,
                    y: ship.y,
                },
                (0i64, velocity.1),
            )
        } else {
            (
                Ship {
                    x: ship.x,
                    y: (if to_top < to_bottom {
                        ship.y - to_top
                    } else {
                        ship.y + to_bottom
                    }) as i64,
                },
                (velocity.0, 0i64),
            )
        }
    } else {
        (ship, velocity)
    }
}

/// The point `(px, py)` lies in the rectangle, edges included.
pub open spec fn point_inside(px: int, py: int, rx: int, ry: int, rw: int, rh: int) -> bool {
    px >= rx && px <= rx + rw && py >= ry && py <= ry + rh
}

/// The segments `(x1, y1)-(x2, y2)` and `(x3, y3)-(x4, y4)` cross: the
/// parameters of the crossing point, two fractions over the same
/// denominator, both lie in `[0, 1]`. Parallel segments never cross.
pub open spec fn segments_cross(
    x1: int,
    y1: int,
    x2: int,
    y2: int,
    x3: int,
    y3: int,
    x4: int,
    y4: int,
) -> bool {
    let den = (y4 - y3) * (x2 - x1) - (x4 - x3) * (y2 - y1);
    let num_a = (x4 - x3) * (y1 - y3) - (y4 - y3) * (x1 - x3);
    let num_b = (x2 - x1) * (y1 - y3) - (y2 - y1) * (x1 - x3);
    if den > 0 {
        0 <= num_a <= den && 0 <= num_b <= den
    } else if den < 0 {
        den <= num_a <= 0 && den <= num_b <= 0
    } else {
        false
    }
}

/// The segment crosses an edge of the rectangle or has an end inside it.
pub open spec fn segment_meets_rect(
    x1: int,
    y1: int,
    x2: int,
    y2: int,
    rx: int,
    ry: int,
    rw: int,
    rh: int,
) -> bool {
    ||| segments_cross(x1, y1, x2, y2, rx, ry, rx, ry + rh)
    ||| segments_cross(x1, y1, x2, y2, rx + rw, ry, rx + rw, ry + rh)
    ||| segments_cross(x1, y1, x2, y2, rx, ry, rx + rw, ry)
    ||| segments_cross(x1, y1, x2, y2, rx, ry + rh, rx + rw, ry + rh)
    ||| point_inside(x1, y1, rx, ry, rw, rh)
    ||| point_inside(x2, y2, rx, ry, rw, rh)
}

/// Tells whether two boxes, each given by its corner and size, overlap.
pub fn aabb_collision(x1: i64, y1: i64, w1: i64, h1: i64, x2: i64, y2: i64, w2: i64, h2: i64) -> (r:
    bool)
    ensures
        r == boxes_overlap(
            x1 as int,
            y1 as int,
            w1 as int,
            h1 as int,
            x2 as int,
            y2 as int,
            w2 as int,
            h2 as int,
        ),
{
    (x1 as i128) < (x2 as i128) + (w2 as i128) && (x1 as i128) + (w1 as i128) > (x2 as i128) && (
    y1 as i128) < (y2 as i128) + (h2 as i128) && (y1 as i128) + (h1 as i128) > (y2 as i128)
}

/// Bounces the ball off `wall`, if its box reaches into the wall's inset
/// collision box.
pub fn resolve_rect_collision(ball: &mut Ball, wall: &MapObject)
    requires
        old(ball).placed(),
        old(ball).speed_ok(),
        wall.wf(),
    ensures
        *final(ball) == bounced(*old(ball), *wall),
        final(ball).placed(),
        final(ball).speed_ok(),
        norm2(final(ball).vx as int, final(ball).vy as int) <= norm2(
            old(ball).vx as int,
            old(ball).vy as int,
        ),
        !ball_in_inset(*final(ball), *wall),
        ball_in_inset(*old(ball), *wall) ==> abs(final(ball).x - old(ball).x) + abs(
            final(ball).y - old(ball).y,
        ) == min_int(inset_overlap_x(*old(ball), *wall), inset_overlap_y(*old(ball), *wall))
            + BOUNCE_BUFFER,
{
    proof {
        lemma_speed_components(ball.vx as int, ball.vy as int);
    }
    let ball_left = ball.x - BALL_WIDTH / 2;
    let ball_right = ball.x + BALL_WIDTH / 2;
    let ball_top = ball.y - BALL_HEIGHT / 2;
    let ball_bottom = ball.y + BALL_HEIGHT / 2;
    let wall_left = wall.x + WALL_COLLISION_INSET;
    let wall_right = wall.x + wall.width - WALL_COLLISION_INSET;
    let wall_top = wall.y + WALL_COLLISION_INSET;
    let wall_bottom = wall.y + wall.height - WALL_COLLISION_INSET;
    let overlap_left = ball_right - wall_left;
    let overlap_right = wall_right - ball_left;
    let overlap_top = ball_bottom - wall_top;
    let overlap_bottom = wall_bottom - ball_top;
    let overlap_x = if ball_right > wall_left && ball_left < wall_right {
        if overlap_left <= overlap_right {
            overlap_left
        } else {
            overlap_right
        }
    } else {
        0
    };
    let overlap_y = if ball_bottom > wall_top && ball_top < wall_bottom {
        if overlap_top <= overlap_bottom {
            overlap_top
        } else {
            overlap_bottom
        }
    } else {
        0
    };
    if overlap_x > 0 && overlap_y > 0 {
        let speed2 = norm2_of(ball.vx, ball.vy);
        let damping: i64 = if speed2 > (FAST_BALL_SPEED * FAST_BALL_SPEED) as u64 {
            800
        } else if speed2 > (MEDIUM_BALL_SPEED * MEDIUM_BALL_SPEED) as u64 {
            900
        } else {
            950
        };
        if overlap_x < overlap_y {
            if overlap_left <= overlap_right {
                ball.x = wall_left - BALL_WIDTH / 2 - BOUNCE_BUFFER;
            } else {
                ball.x = wall_right + BALL_WIDTH / 2 + BOUNCE_BUFFER;
            }
            let vx = mul_div(-ball.vx, damping, 1000);
            proof {
                lemma_scaled_bound(-ball.vx as int, damping as int, 1000);
                lemma_slower_keeps_cap(ball.vx as int, ball.vy as int, vx as int, ball.vy as int);
            }
            ball.vx = vx;
        } else {
            if overlap_top <= overlap_bottom {
                ball.y = wall_top - BALL_HEIGHT / 2 - BOUNCE_BUFFER;
            } else {
                ball.y = wall_bottom + BALL_HEIGHT / 2 + BOUNCE_BUFFER;
            }
            let vy = mul_div(-ball.vy, damping, 1000);
            proof {
                lemma_scaled_bound(-ball.vy as int, damping as int, 1000);
                lemma_slower_keeps_cap(ball.vx as int, ball.vy as int, ball.vx as int, vy as int);
            }
            ball.vy = vy;
        }
    }
}

/// Pushes a ship out of `wall` and stops it along the axis it was pushed on.
pub fn resolve_ship_collision(ship: &mut Ship, velocity: &mut (i64, i64), wall: &MapObject)
    requires
        -2 * COORD_LIMIT <= old(ship).x <= 2 * COORD_LIMIT,
        -2 * COORD_LIMIT <= old(ship).y <= 2 * COORD_LIMIT,
        wall.wf(),
    ensures
        (*final(ship), *final(velocity)) == ship_stopped(*old(ship), *old(velocity), *wall),
        min_int(old(ship).x as int, -COORD_LIMIT - SHIP_WIDTH / 2) <= final(ship).x <= max_int(
            old(ship).x as int,
            COORD_LIMIT + SHIP_WIDTH / 2,
        ),
        min_int(old(ship).y as int, -COORD_LIMIT - SHIP_HEIGHT / 2) <= final(ship).y <= max_int(
            old(ship).y as int,
            COORD_LIMIT + SHIP_HEIGHT / 2,
        ),
        final(velocity).0 == old(velocity).0 || final(velocity).0 == 0,
        final(velocity).1 == old(velocity).1 || final(velocity).1 == 0,
        !ship_in_wall(*final(ship), *wall),
{
    let ship_left = ship.x - SHIP_WIDTH / 2;
    let ship_right = ship.x + SHIP_WIDTH / 2;
    let ship_top = ship.y - SHIP_HEIGHT / 2;
    let ship_bottom = ship.y + SHIP_HEIGHT / 2;
    let wall_left = wall.x;
    let wall_right = wall.x + wall.width;
    let wall_top = wall.y;
    let wall_bottom = wall.y + wall.height;
    if ship_right > wall_left && ship_left < wall_right && ship_bottom > wall_top && ship_top
        < wall_bottom {
        let to_left = ship_right - wall_left;
        let to_right = wall_right - ship_left;
        let to_top = ship_bottom - wall_top;
        let to_bottom = wall_bottom - ship_top;
        let overlap_x = if to_left < to_right {
            to_left
        } else {
            to_right
        };
        let overlap_y = if to_top < to_bottom {
            to_top
        } else {
            to_bottom
        };
        if overlap_x < overlap_y {
            if to_left < to_right {
                ship.x = ship.x - to_left;
            } else {
                ship.x = ship.x + to_right;
            }
            velocity.0 = 0;
        } else {
            if to_top < to_bottom {
                ship.y = ship.y - to_top;
            } else {
                ship.y = ship.y + to_bottom;
            }
            velocity.1 = 0;
        }
    }
}

/// Tells whether a segment crosses an edge of a rectangle or has an end inside it.
pub fn line_intersects_rect(
    line_x1: i64,
    line_y1: i64,
    line_x2: i64,
    line_y2: i64,
    rect_x: i64,
    rect_y: i64,
    rect_width: i64,
    rect_height: i64,
) -> (r: bool)
    requires
        -VEC_LIMIT <= line_x1 <= VEC_LIMIT,
        -VEC_LIMIT <= line_y1 <= VEC_LIMIT,
        -VEC_LIMIT <= line_x2 <= VEC_LIMIT,
        -VEC_LIMIT <= line_y2 <= VEC_LIMIT,
        -VEC_LIMIT <= rect_x <= VEC_LIMIT,
        -VEC_LIMIT <= rect_y <= VEC_LIMIT,
        -VEC_LIMIT <= rect_width <= VEC_LIMIT,
        -VEC_LIMIT <= rect_height <= VEC_LIMIT,
    ensures
        r == segment_meets_rect(
            line_x1 as int,
            line_y1 as int,
            line_x2 as int,
            line_y2 as int,
            rect_x as int,
            rect_y as int,
            rect_width as int,
            rect_height as int,
        ),
{
    let rect_x2 = rect_x + rect_width;
    let rect_y2 = rect_y + rect_height;
    if line_intersects_segment(line_x1, line_y1, line_x2, line_y2, rect_x, rect_y, rect_x, rect_y2) {
        return true;
    }
    if line_intersects_segment(
        line_x1,
        line_y1,
        line_x2,
        line_y2,
        rect_x2,
        rect_y,
        rect_x2,
        rect_y2,
    ) {
        return true;
    }
    if line_intersects_segment(line_x1, line_y1, line_x2, line_y2, rect_x, rect_y, rect_x2, rect_y) {
        return true;
    }
    if line_intersects_segment(
        line_x1,
        line_y1,
        line_x2,
        line_y2,
        rect_x,
        rect_y2,
        rect_x2,
        rect_y2,
    ) {
        return true;
    }
    point_in_rect(line_x1, line_y1, rect_x, rect_y, rect_width, rect_height) || point_in_rect(
        line_x2,
        line_y2,
        rect_x,
        rect_y,
        rect_width,
        rect_height,
    )
}

/// Tells whether a point lies in a rectangle, edges included.
pub fn point_in_rect(
    point_x: i64,
    point_y: i64,
    rect_x: i64,
    rect_y: i64,
    rect_width: i64,
    rect_height: i64,
) -> (r: bool)
    ensures
        r == point_inside(
            point_x as int,
            point_y as int,
            rect_x as int,
            rect_y as int,
            rect_width as int,
            rect_height as int,
        ),
{
    (point_x as i128) >= (rect_x as i128) && (point_x as i128) <= (rect_x as i128) + (
    rect_width as i128) && (point_y as i128) >= (rect_y as i128) && (point_y as i128) <= (
    rect_y as i128) + (rect_height as i128)
}

/// `ax * by - ay * bx`
fn cross(ax: i64, ay: i64, bx: i64, by: i64) -> (r: i128)
    requires
        -4 * VEC_LIMIT <= ax <= 4 * VEC_LIMIT,
        -4 * VEC_LIMIT <= ay <= 4 * VEC_LIMIT,
        -4 * VEC_LIMIT <= bx <= 4 * VEC_LIMIT,
        -4 * VEC_LIMIT <= by <= 4 * VEC_LIMIT,
    ensures
        r == ax * by - ay * bx,
{
    proof {
        lemma_mul_bound(ax as int, by as int, 8_000_000_000, 8_000_000_000);
        lemma_mul_bound(ay as int, bx as int, 8_000_000_000, 8_000_000_000);
        assert(8_000_000_000int * 8_000_000_000int == 64_000_000_000_000_000_000int);
    }
    (ax as i128) * (by as i128) - (ay as i128) * (bx as i128)
}

/// Tells whether two segments cross.
pub fn line_intersects_segment(
    line1_x1: i64,
    line1_y1: i64,
    line1_x2: i64,
    line1_y2: i64,
    line2_x1: i64,
    line2_y1: i64,
    line2_x2: i64,
    line2_y2: i64,
) -> (r: bool)
    requires
        -VEC_LIMIT <= line1_x1 <= VEC_LIMIT,
        -VEC_LIMIT <= line1_y1 <= VEC_LIMIT,
        -VEC_LIMIT <= line1_x2 <= VEC_LIMIT,
        -VEC_LIMIT <= line1_y2 <= VEC_LIMIT,
        -2 * VEC_LIMIT <= line2_x1 <= 2 * VEC_LIMIT,
        -2 * VEC_LIMIT <= line2_y1 <= 2 * VEC_LIMIT,
        -2 * VEC_LIMIT <= line2_x2 <= 2 * VEC_LIMIT,
        -2 * VEC_LIMIT <= line2_y2 <= 2 * VEC_LIMIT,
    ensures
        r == segments_cross(
            line1_x1 as int,
            line1_y1 as int,
            line1_x2 as int,
            line1_y2 as int,
            line2_x1 as int,
            line2_y1 as int,
            line2_x2 as int,
            line2_y2 as int,
        ),
{
    let d1x = line1_x2 - line1_x1;
    let d1y = line1_y2 - line1_y1;
    let d2x = line2_x2 - line2_x1;
    let d2y = line2_y2 - line2_y1;
    let ox = line1_x1 - line2_x1;
    let oy = line1_y1 - line2_y1;
    let den = cross(d1x, d1y, d2x, d2y);
    let num_a = cross(d2x, d2y, ox, oy);
    let num_b = cross(d1x, d1y, ox, oy);
    proof {
        let x1 = line1_x1 as int;
        let y1 = line1_y1 as int;
        let x2 = line1_x2 as int;
        let y2 = line1_y2 as int;
        let x3 = line2_x1 as int;
        let y3 = line2_y1 as int;
        let x4 = line2_x2 as int;
        let y4 = line2_y2 as int;
        assert(den == (y4 - y3) * (x2 - x1) - (x4 - x3) * (y2 - y1)) by (nonlinear_arith)
            requires
                den == (x2 - x1) * (y4 - y3) - (y2 - y1) * (x4 - x3),
        ;
        assert(num_a == (x4 - x3) * (y1 - y3) - (y4 - y3) * (x1 - x3));
        assert(num_b == (x2 - x1) * (y1 - y3) - (y2 - y1) * (x1 - x3));
    }
    if den > 0 {
        0 <= num_a && num_a <= den && 0 <= num_b && num_b <= den
    } else if den < 0 {
        den <= num_a && num_a <= 0 && den <= num_b && num_b <= 0
    } else {
        false
    }
}

/// A bounce never speeds the ball up: a ball within its top speed is
/// within it after any bounce off any wall.
pub proof fn lemma_bounce_keeps_speed(ball: Ball, wall: MapObject)
    ensures
        norm2(bounced(ball, wall).vx as int, bounced(ball, wall).vy as int) <= norm2(
            ball.vx as int,
            ball.vy as int,
        ),
        ball.speed_ok() ==> bounced(ball, wall).speed_ok(),
{
    let damping = bounce_damping(norm2(ball.vx as int, ball.vy as int));
    lemma_scaled_bound(-ball.vx as int, damping, 1000);
    lemma_scaled_bound(-ball.vy as int, damping, 1000);
    lemma_slower_keeps_cap(
        ball.vx as int,
        ball.vy as int,
        scaled(-ball.vx, damping, 1000),
        ball.vy as int,
    );
    lemma_slower_keeps_cap(
        ball.vx as int,
        ball.vy as int,
        ball.vx as int,
        scaled(-ball.vy, damping, 1000),
    );
}

/// Each component of a vector within the ball's speed cap is within it too.
pub proof fn lemma_speed_components(vx: int, vy: int)
    requires
        norm2(vx, vy) <= MAX_BALL_SPEED * MAX_BALL_SPEED,
    ensures
        -MAX_BALL_SPEED <= vx <= MAX_BALL_SPEED,
        -MAX_BALL_SPEED <= vy <= MAX_BALL_SPEED,
{
    assert(-500_000 <= vx <= 500_000 && -500_000 <= vy <= 500_000) by (nonlinear_arith)
        requires
            vx * vx + vy * vy <= 500_000 * 500_000,
    ;
}

} // verus!
