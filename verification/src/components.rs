//! Components that an entity of the arena carries. They are plain data;
//! the systems that act on them live elsewhere.

use crate::input::{Bits32, Bits64};
use vstd::prelude::*;

verus! {

/// Bit pattern of `0.0`.
pub const ZERO: Bits32 = 0;

/// Bit pattern of `0.0` in double precision.
pub const ZERO_F64: Bits64 = 0;

/// Hull points of a fresh ship, and their ceiling: `100.0`.
pub const HEALTH_MAX: Bits32 = 0x42c8_0000;

/// Shield points of a fresh ship, and their ceiling: `50.0`.
pub const SHIELD_MAX: Bits32 = 0x4248_0000;

/// Shield points regained per second: `10.0`.
pub const SHIELD_RECHARGE_RATE: Bits32 = 0x4120_0000;

/// Seconds without damage before the shield recharges: `3.0`.
pub const SHIELD_RECHARGE_DELAY: Bits32 = 0x4040_0000;

/// Thrust of a ship's engine, in force units: `500.0`.
pub const SHIP_THRUST_POWER: Bits32 = 0x43fa_0000;

/// Turn rate of a ship in radians per second: `3.0`.
pub const SHIP_TURN_RATE: Bits32 = 0x4040_0000;

/// Speed limit of a ship: `200.0`.
pub const SHIP_MAX_SPEED: Bits32 = 0x4348_0000;

/// Mass of a ship before the physics body reports its own: `1.0`.
pub const SHIP_MASS: Bits32 = 0x3f80_0000;

/// Radius of a ship's collider: `8.0`.
pub const SHIP_SIZE: Bits32 = 0x4100_0000;

/// Shots per second of the starting weapon: `5.0`.
pub const RAPID_FIRE_RATE: Bits32 = 0x40a0_0000;

/// Damage of one shot of the starting weapon: `25.0`.
pub const RAPID_FIRE_DAMAGE: Bits32 = 0x41c8_0000;

/// Muzzle speed of the starting weapon: `300.0`.
pub const RAPID_FIRE_SPEED: Bits32 = 0x4396_0000;

/// Seconds between two shots of the starting weapon: `0.2`.
pub const WEAPON_COOLDOWN: Bits32 = 0x3e4c_cccd;

/// Seconds a projectile lives: `3.0`.
pub const PROJECTILE_LIFETIME: Bits32 = 0x4040_0000;

/// Position and heading in the plane; the heading is in radians.
#[derive(Debug, Clone, Copy, PartialEq, Eq)]
pub struct Transform {
    pub position: [Bits32; 2],
    pub rotation: Bits32,
}

impl Default for Transform {
    fn default() -> (r: Self)
        ensures
            r == (Transform { position: [ZERO, ZERO], rotation: ZERO }),
    {
        Transform { position: [ZERO, ZERO], rotation: ZERO }
    }
}

impl Transform {
    /// The transform at `position` with the heading `rotation`.
    pub fn from_vector(position: [Bits32; 2], rotation: Bits32) -> (transform: Self)
        ensures
            transform == (Transform { position, rotation }),
    {
        Transform { position, rotation }
    }

    /// The position as a vector.
    pub fn to_vector(&self) -> (position: [Bits32; 2])
        ensures
            position == self.position,
    {
        self.position
    }
}

/// Linear velocity and angular velocity in radians per second.
#[derive(Debug, Clone, Copy, PartialEq, Eq)]
pub struct Velocity {
    pub linear: [Bits32; 2],
    pub angular: Bits32,
}

impl Default for Velocity {
    fn default() -> (r: Self)
        ensures
            r == (Velocity { linear: [ZERO, ZERO], angular: ZERO }),
    {
        Velocity { linear: [ZERO, ZERO], angular: ZERO }
    }
}

impl Velocity {
    /// The velocity `linear` with the spin `angular`.
    pub fn from_vector(linear: [Bits32; 2], angular: Bits32) -> (velocity: Self)
        ensures
            velocity == (Velocity { linear, angular }),
    {
        Velocity { linear, angular }
    }

    /// The linear velocity as a vector.
    pub fn to_vector(&self) -> (linear: [Bits32; 2])
        ensures
            linear == self.linear,
    {
        self.linear
    }
}

/// Hull and shield of an entity that can take damage.
#[derive(Debug, Clone, Copy, PartialEq, Eq)]
pub struct Health {
    pub current: Bits32,
    pub max: Bits32,
    pub armor: Bits32,
    pub shield: Bits32,
    pub shield_max: Bits32,
    /// Shield points regained per second.
    pub shield_recharge_rate: Bits32,
    /// Seconds without damage before the shield recharges.
    pub shield_recharge_delay: Bits32,
    /// Simulation time of the last damage, in seconds.
    pub last_damage_time: Bits64,
}

impl Health {
    /// Full hull and full shield, never damaged.
    pub open spec fn fresh() -> Health {
        Health {
            current: HEALTH_MAX,
            max: HEALTH_MAX,
            armor: ZERO,
            shield: SHIELD_MAX,
            shield_max: SHIELD_MAX,
            shield_recharge_rate: SHIELD_RECHARGE_RATE,
            shield_recharge_delay: SHIELD_RECHARGE_DELAY,
            last_damage_time: ZERO_F64,
        }
    }
}

impl Default for Health {
    fn default() -> (r: Self)
        ensures
            r == Health::fresh(),
    {
        Health {
            current: HEALTH_MAX,
            max: HEALTH_MAX,
            armor: ZERO,
            shield: SHIELD_MAX,
            shield_max: SHIELD_MAX,
            shield_recharge_rate: SHIELD_RECHARGE_RATE,
            shield_recharge_delay: SHIELD_RECHARGE_DELAY,
            last_damage_time: ZERO_F64,
        }
    }
}

/// Who flies a ship, and how they fare.
#[derive(Debug, Clone, PartialEq, Eq)]
pub struct Player {
    pub id: u128,
    pub name: String,
    pub score: u32,
    pub kills: u32,
    pub deaths: u32,
    pub credits: u32,
}

/// A `Player` as plain values.
pub struct PlayerView {
    pub id: u128,
    pub name: Seq<char>,
    pub score: u32,
    pub kills: u32,
    pub deaths: u32,
    pub credits: u32,
}

impl View for Player {
    type V = PlayerView;

    open spec fn view(&self) -> PlayerView {
        PlayerView {
            id: self.id,
            name: self.name@,
            score: self.score,
            kills: self.kills,
            deaths: self.deaths,
            credits: self.credits,
        }
    }
}

impl PlayerView {
    /// A player who has just joined: every counter at zero.
    pub open spec fn joining(id: u128, name: Seq<char>) -> PlayerView {
        PlayerView { id, name, score: 0, kills: 0, deaths: 0, credits: 0 }
    }
}

/// Link from an entity to its body in the physics world.
#[derive(Debug, Clone, Copy, PartialEq, Eq)]
pub struct RigidBody {
    pub handle: u64,
}

/// Link from an entity to its collider in the physics world.
#[derive(Debug, Clone, Copy, PartialEq, Eq)]
pub struct Collider {
    pub handle: u64,
}

/// What a ship can do.
#[derive(Debug, Clone, Copy, PartialEq, Eq)]
pub struct Ship {
    pub thrust_power: Bits32,
    /// Radians per second.
    pub turn_rate: Bits32,
    pub max_speed: Bits32,
    pub mass: Bits32,
    /// Radius of the collider.
    pub size: Bits32,
}

impl Ship {
    /// The stock ship with the mass and collider radius that its
    /// physics body reports.
    pub open spec fn stock(mass: Bits32, size: Bits32) -> Ship {
        Ship {
            thrust_power: SHIP_THRUST_POWER,
            turn_rate: SHIP_TURN_RATE,
            max_speed: SHIP_MAX_SPEED,
            mass,
            size,
        }
    }
}

impl Default for Ship {
    fn default() -> (r: Self)
        ensures
            r == Ship::stock(SHIP_MASS, SHIP_SIZE),
    {
        Ship {
            thrust_power: SHIP_THRUST_POWER,
            turn_rate: SHIP_TURN_RATE,
            max_speed: SHIP_MAX_SPEED,
            mass: SHIP_MASS,
            size: SHIP_SIZE,
        }
    }
}

/// What a projectile does on a hit, and whose it is.
#[derive(Debug, Clone, Copy, PartialEq, Eq)]
pub struct Projectile {
    pub damage: Bits32,
    /// Seconds the projectile was given at its spawn.
    pub lifetime: Bits32,
    pub speed: Bits32,
    pub owner_id: u128,
}

/// Seconds left before an entity is removed.
#[derive(Debug, Clone, Copy, PartialEq, Eq)]
pub struct Lifetime {
    pub remaining: Bits32,
}

/// A computer-steered opponent. Reserved: no system acts on it yet.
#[derive(Debug, Clone, Copy, PartialEq, Eq)]
pub struct Enemy {
    pub ai_type: EnemyType,
    pub target: Option<u64>,
    pub state: EnemyState,
    pub last_action_time: Bits64,
}

#[derive(Debug, Clone, Copy, PartialEq, Eq)]
pub enum EnemyType {
    Chaser { speed: Bits32 },
    Shooter { range: Bits32, fire_rate: Bits32 },
}

#[derive(Debug, Clone, Copy, PartialEq, Eq)]
pub enum EnemyState {
    Idle,
    Seeking,
    Attacking,
    Fleeing,
}

/// A ship's weapon and when it last fired.
#[derive(Debug, Clone, Copy, PartialEq, Eq)]
pub struct Weapon {
    pub weapon_type: WeaponType,
    /// Simulation time of the last shot, in seconds.
    pub last_fire_time: Bits64,
    /// Rounds left; `None` for an unlimited supply.
    pub ammo: Option<u32>,
    /// Seconds between two shots.
    pub cooldown: Bits32,
}

#[derive(Debug, Clone, Copy, PartialEq, Eq)]
pub enum WeaponType {
    RapidFire { rate: Bits32, damage: Bits32, speed: Bits32 },
    Beam { damage_per_second: Bits32, range: Bits32 },
    Spread { count: u8, spread_angle: Bits32, damage: Bits32, speed: Bits32 },
    Homing { damage: Bits32, speed: Bits32, turn_rate: Bits32 },
    AreaNuke { damage: Bits32, radius: Bits32 },
}

/// What a shot is made of.
#[derive(Debug, Clone, Copy, PartialEq, Eq)]
pub struct Shot {
    pub damage: Bits32,
    pub speed: Bits32,
}

impl Weapon {
    /// The weapon every ship starts with.
    pub open spec fn starting() -> Weapon {
        Weapon {
            weapon_type: WeaponType::RapidFire {
                rate: RAPID_FIRE_RATE,
                damage: RAPID_FIRE_DAMAGE,
                speed: RAPID_FIRE_SPEED,
            },
            last_fire_time: ZERO_F64,
            ammo: None,
            cooldown: WEAPON_COOLDOWN,
        }
    }

    /// The shot that a request to fire leads to, if any: the trigger is
    /// held, the cooldown has run out, and the weapon is a rapid-fire gun.
    pub open spec fn shot_for(self, primary_fire: bool, cooled_down: bool) -> Option<Shot> {
        match self.weapon_type {
            WeaponType::RapidFire { rate, damage, speed } => if primary_fire && cooled_down {
                Some(Shot { damage, speed })
            } else {
                None
            },
            _ => None,
        }
    }

    pub fn new_starting() -> (r: Self)
        ensures
            r == Weapon::starting(),
    {
        Weapon {
            weapon_type: WeaponType::RapidFire {
                rate: RAPID_FIRE_RATE,
                damage: RAPID_FIRE_DAMAGE,
                speed: RAPID_FIRE_SPEED,
            },
            last_fire_time: ZERO_F64,
            ammo: None,
            cooldown: WEAPON_COOLDOWN,
        }
    }

    /// Resolves a request to fire. `cooled_down` tells whether at least
    /// `cooldown` seconds of simulation time have passed since
    /// `last_fire_time`; `now` is the simulation time. Where a shot
    /// results, the weapon remembers `now` as the time of its last shot.
    pub fn resolve_fire(&mut self, primary_fire: bool, cooled_down: bool, now: Bits64) -> (shot:
        Option<Shot>)
        ensures
            shot == old(self).shot_for(primary_fire, cooled_down),
            shot.is_some() ==> *final(self) == (Weapon { last_fire_time: now, ..*old(self) }),
            shot.is_none() ==> *final(self) == *old(self),
    {
        if primary_fire && cooled_down {
            if let WeaponType::RapidFire { rate: _, damage, speed } = self.weapon_type {
                self.last_fire_time = now;
                return Some(Shot { damage, speed });
            }
        }
        None
    }
}

} // verus!
