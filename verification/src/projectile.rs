//! The secondary weapon: a rocket that flies straight and ends in an explosion.

use crate::fixed::{decay, decay_spec, lemma_scaled_bound, mul_div, scaled, COORD_LIMIT, SPEED_LIMIT};
use crate::geometry::GameConfig;
use vstd::prelude::*;

verus! {

/// Time a rocket flies before it explodes by itself, in milliseconds.
pub const PROJECTILE_LIFETIME_MS: u32 = 2_000;

pub const PROJECTILE_RADIUS: i64 = 5_000;

pub const PROJECTILE_SPEED: i64 = 125_000;

/// Distance from the firing ship's centre at which a rocket appears.
pub const PROJECTILE_OFFSET: i64 = 30_000;

/// A rocket in flight.
#[derive(Clone, Copy, Debug, PartialEq, Eq, Structural)]
pub struct Projectile {
    pub id: u32,
    pub x: i64,
    pub y: i64,
    pub vx: i64,
    pub vy: i64,
    pub owner_id: u32,
    /// Milliseconds left before the rocket explodes by itself.
    pub lifetime: u32,
    pub active: bool,
}

impl Projectile {
    /// The rocket lies within a rocket's reach of the field and flies within
    /// the speed limit.
    pub open spec fn wf(self, config: GameConfig) -> bool {
        &&& -PROJECTILE_OFFSET <= self.x <= config.field_width + PROJECTILE_OFFSET
        &&& -PROJECTILE_OFFSET <= self.y <= config.field_height + PROJECTILE_OFFSET
        &&& -SPEED_LIMIT <= self.vx <= SPEED_LIMIT
        &&& -SPEED_LIMIT <= self.vy <= SPEED_LIMIT
    }

    /// A new rocket with a full lifetime.
    pub open spec fn launched(id: u32, x: i64, y: i64, vx: i64, vy: i64, owner_id: u32) -> Projectile {
        Projectile { id, x, y, vx, vy, owner_id, lifetime: PROJECTILE_LIFETIME_MS, active: true }
    }

    /// The rocket after `dt` milliseconds of flight: it has advanced, its
    /// lifetime has run down, and it is inactive once the lifetime is over.
    pub open spec fn flown(self, dt: int) -> Projectile {
        let lifetime = decay_spec(self.lifetime as int, dt);
        Projectile {
            x: (self.x + scaled(self.vx as int, dt, 1000)) as i64,
            y: (self.y + scaled(self.vy as int, dt, 1000)) as i64,
            lifetime: lifetime as u32,
            active: self.active && lifetime > 0,
            ..self
        }
    }

    /// The rocket has left the field.
    pub open spec fn out_of_bounds(self, config: GameConfig) -> bool {
        self.x < 0 || self.x > config.field_width || self.y < 0 || self.y > config.field_height
    }

    /// A new rocket with a full lifetime.
    pub fn new(id: u32, x: i64, y: i64, vx: i64, vy: i64, owner_id: u32) -> (r: Projectile)
        ensures
            r == Projectile::launched(id, x, y, vx, vy, owner_id),
    {
        Projectile { id, x, y, vx, vy, owner_id, lifetime: PROJECTILE_LIFETIME_MS, active: true }
    }

    /// Advances the rocket by `dt` milliseconds and runs its lifetime down.
    pub fn update_position(&mut self, dt: u32)
        requires
            dt <= 1000,
            -COORD_LIMIT <= old(self).x <= COORD_LIMIT,
            -COORD_LIMIT <= old(self).y <= COORD_LIMIT,
            -SPEED_LIMIT <= old(self).vx <= SPEED_LIMIT,
            -SPEED_LIMIT <= old(self).vy <= SPEED_LIMIT,
        ensures
            *final(self) == old(self).flown(dt as int),
            old(self).x - SPEED_LIMIT <= final(self).x <= old(self).x + SPEED_LIMIT,
            old(self).y - SPEED_LIMIT <= final(self).y <= old(self).y + SPEED_LIMIT,
    {
        proof {
            lemma_scaled_bound(self.vx as int, dt as int, 1000);
            lemma_scaled_bound(self.vy as int, dt as int, 1000);
        }
        self.x = self.x + mul_div(self.vx, dt as i64, 1000);
        self.y = self.y + mul_div(self.vy, dt as i64, 1000);
        self.lifetime = decay(self.lifetime, dt);
        if self.lifetime == 0 {
            self.active = false;
        }
    }
}

} // verus!
