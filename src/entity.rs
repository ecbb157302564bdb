use vstd::prelude::*;
use crate::angle::{canonical, OFFSET_LIMIT};
use crate::geometry::{Dir, Point, Size, COORD_LIMIT, MAX_SPEED};
use crate::timer::Timer;

verus! {

/// Width of the playable strip of water.
pub const MAP_WIDTH: i64 = 512_000;

/// Height of the first screen; the player starts half way up it.
pub const MAP_HEIGHT: i64 = 576_000;

/// Side of a land, water or border tile.
pub const TILE_SIZE: i64 = 64_000;

/// Where the player's boat starts: the middle of the first screen.
pub const SPAWN_X: i64 = 256_000;

/// Where the player's boat starts: the middle of the first screen.
pub const SPAWN_Y: i64 = 288_000;

/// The player's hitbox.
pub const PLAYER_WIDTH: i64 = 28_000;

/// The player's hitbox.
pub const PLAYER_HEIGHT: i64 = 64_000;

/// Side of a bullet's hitbox.
pub const BULLET_SIDE: i64 = 5_000;

/// Largest health any body may reach.
pub const MAX_HEALTH: i32 = 1_000_000;

/// Contact damage of a land tile: enough to sink any boat at once.
pub const LAND_DAMAGE: i32 = 100;

/// Which impact sound a body makes when a bullet hits it.
#[derive(Clone, Copy, Debug, PartialEq, Eq, Structural)]
pub enum Mass {
    Wood,
    Rock,
}

/// Hit points of a damageable body.
#[derive(Clone, Copy, Debug, PartialEq, Eq, Structural)]
pub struct Health {
    pub max_amount: i32,
    pub amount: i32,
    pub hitbox: Size,
    pub immune_to_projectiles: bool,
    pub mass: Mass,
}

/// A body that hurts the player on contact.
#[derive(Clone, Copy, Debug, PartialEq, Eq, Structural)]
pub struct Collidable {
    pub hitbox: Size,
    pub contact_damage: i32,
}

/// A projectile's payload; it never hurts the body whose handle is `shooter`.
#[derive(Clone, Copy, Debug, PartialEq, Eq, Structural)]
pub struct Bullet {
    pub shooter: u64,
    pub damage: i32,
    pub size: Size,
}

/// The two kinds of power-up a barrel may drop.
#[derive(Clone, Copy, Debug, PartialEq, Eq, Structural)]
pub enum PowerUpType {
    Repair,
    Weapon,
}

/// What a body is.
#[derive(Clone, Copy, Debug, PartialEq, Eq, Structural)]
pub enum Kind {
    Player,
    SideCannon,
    Pirate,
    Obstacle,
    Barrel,
    PowerUp(PowerUpType),
    Land,
    Border,
    Water,
}

/// The symbolic picture a renderer should draw for a body.
#[derive(Clone, Copy, Debug, PartialEq, Eq, Structural)]
pub enum Sprite {
    Boat,
    BoatDamaged,
    BoatBadlyDamaged,
    BoatWreck,
    EnemyCannon,
    EnemyCannonWreck,
    Pirate,
    Obstacle(u8),
    WoodWreck,
    Barrel,
    RepairKit,
    WeaponKit,
    Water,
    Border(u8),
    Land,
}

/// An enemy weapon: where it aims, when it fires, how fast its bullets fly.
/// `mount` is its offset from the body it sits on, turned with that body;
/// `lead` is how far above the player it aims.
#[derive(Clone, Copy, Debug, PartialEq, Eq, Structural)]
pub struct Gunner {
    pub aim: Dir,
    pub timer: Timer,
    pub speed: i64,
    pub mount: Point,
    pub lead: i64,
}

/// A simulated object. `handle` identifies it; `rotation` is an angle in
/// microradians; only a body that is `alive` collides, fires and takes hits.
#[derive(Clone, Copy, Debug, PartialEq, Eq, Structural)]
pub struct Body {
    pub handle: u64,
    pub kind: Kind,
    pub pos: Point,
    pub rotation: i64,
    pub alive: bool,
    pub health: Option<Health>,
    pub collidable: Option<Collidable>,
    pub gunner: Option<Gunner>,
    pub sprite: Sprite,
}

/// A bullet in flight.
#[derive(Clone, Copy, Debug, PartialEq, Eq, Structural)]
pub struct Shot {
    pub handle: u64,
    pub pos: Point,
    pub dir: Dir,
    pub speed: i64,
    pub bullet: Bullet,
}

impl Health {
    pub open spec fn wf(self) -> bool {
        self.hitbox.wf() && 0 < self.max_amount <= MAX_HEALTH
    }
}

impl Collidable {
    pub open spec fn wf(self) -> bool {
        self.hitbox.wf() && 0 <= self.contact_damage
    }
}

impl Gunner {
    pub open spec fn wf(self) -> bool {
        &&& self.aim.wf()
        &&& self.timer.wf()
        &&& 0 <= self.speed <= MAX_SPEED
        &&& -OFFSET_LIMIT <= self.mount.x <= OFFSET_LIMIT
        &&& -OFFSET_LIMIT <= self.mount.y <= OFFSET_LIMIT
        &&& -COORD_LIMIT <= self.lead <= COORD_LIMIT
    }
}

impl Body {
    pub open spec fn wf(self) -> bool {
        &&& self.pos.bounded()
        &&& canonical(self.rotation as int)
        &&& (self.health matches Some(h) ==> h.wf())
        &&& (self.collidable matches Some(c) ==> c.wf())
        &&& (self.gunner matches Some(g) ==> g.wf())
    }
}

impl Bullet {
    pub open spec fn wf(self) -> bool {
        self.size.wf() && 0 <= self.damage
    }

    /// A bullet of one point of damage fired by `shooter`.
    pub fn new(shooter: u64) -> (r: Bullet)
        ensures
            r == (Bullet { shooter, damage: 1, size: Size { w: BULLET_SIDE, h: BULLET_SIDE } }),
            r.wf(),
    {
        Bullet { shooter, damage: 1, size: Size { w: BULLET_SIDE, h: BULLET_SIDE } }
    }
}

impl Shot {
    pub open spec fn wf(self) -> bool {
        self.pos.bounded() && self.dir.wf() && 0 <= self.speed <= MAX_SPEED && self.bullet.wf()
    }
}

/// The player's hitbox.
pub open spec fn player_size() -> Size {
    Size { w: PLAYER_WIDTH, h: PLAYER_HEIGHT }
}

/// The player's boat at the start of a run.
pub open spec fn fresh_player(handle: u64) -> Body {
    Body {
        handle,
        kind: Kind::Player,
        pos: Point { x: SPAWN_X, y: SPAWN_Y },
        rotation: 0,
        alive: true,
        health: Some(Health {
            max_amount: 10,
            amount: 10,
            hitbox: Size { w: PLAYER_WIDTH, h: PLAYER_HEIGHT },
            immune_to_projectiles: false,
            mass: Mass::Wood,
        }),
        collidable: None,
        gunner: None,
        sprite: Sprite::Boat,
    }
}

/// Builds the player's boat for a new run.
pub fn new_player(handle: u64) -> (r: Body)
    ensures
        r == fresh_player(handle),
        r.wf(),
{
    Body {
        handle,
        kind: Kind::Player,
        pos: Point { x: SPAWN_X, y: SPAWN_Y },
        rotation: 0,
        alive: true,
        health: Some(Health {
            max_amount: 10,
            amount: 10,
            hitbox: Size { w: PLAYER_WIDTH, h: PLAYER_HEIGHT },
            immune_to_projectiles: false,
            mass: Mass::Wood,
        }),
        collidable: None,
        gunner: None,
        sprite: Sprite::Boat,
    }
}

/// One row of the obstacle table: what every obstacle of that kind is like.
#[derive(Clone, Copy, Debug, PartialEq, Eq, Structural)]
pub struct ObstacleProfile {
    pub hitbox: Size,
    pub max_health: i32,
    pub contact_damage: i32,
    pub immune_to_projectiles: bool,
    pub mass: Mass,
}

/// Number of rows of the obstacle table.
pub const OBSTACLE_KINDS: usize = 6;

/// The obstacle table: three rocks, then three pieces of floating wood. Rocks
/// are tough and hit harder; wood breaks at once but bullets pass through it.
pub open spec fn obstacle_profile(index: int) -> ObstacleProfile {
    let hitbox = if index == 0 {
        Size { w: 55_000, h: 57_000 }
    } else if index == 1 {
        Size { w: 48_000, h: 50_000 }
    } else if index == 2 {
        Size { w: 55_000, h: 37_000 }
    } else if index == 3 {
        Size { w: 32_000, h: 11_000 }
    } else {
        Size { w: 32_000, h: 9_000 }
    };
    if index <= 2 {
        ObstacleProfile { hitbox, max_health: 100, contact_damage: 2, immune_to_projectiles: false, mass: Mass::Rock }
    } else {
        ObstacleProfile { hitbox, max_health: 1, contact_damage: 1, immune_to_projectiles: true, mass: Mass::Wood }
    }
}

/// Looks up a row of the obstacle table.
pub fn obstacle_kind(index: usize) -> (r: ObstacleProfile)
    requires
        index < OBSTACLE_KINDS,
    ensures
        r == obstacle_profile(index as int),
{
    let hitbox = if index == 0 {
        Size { w: 55_000, h: 57_000 }
    } else if index == 1 {
        Size { w: 48_000, h: 50_000 }
    } else if index == 2 {
        Size { w: 55_000, h: 37_000 }
    } else if index == 3 {
        Size { w: 32_000, h: 11_000 }
    } else {
        Size { w: 32_000, h: 9_000 }
    };
    if index <= 2 {
        ObstacleProfile { hitbox, max_health: 100, contact_damage: 2, immune_to_projectiles: false, mass: Mass::Rock }
    } else {
        ObstacleProfile { hitbox, max_health: 1, contact_damage: 1, immune_to_projectiles: true, mass: Mass::Wood }
    }
}

/// An obstacle of table row `index`.
pub open spec fn obstacle_body(handle: u64, index: int, pos: Point, rotation: i64) -> Body {
    let p = obstacle_profile(index);
    Body {
        handle,
        kind: Kind::Obstacle,
        pos,
        rotation,
        alive: true,
        health: Some(Health {
            max_amount: p.max_health,
            amount: p.max_health,
            hitbox: p.hitbox,
            immune_to_projectiles: p.immune_to_projectiles,
            mass: p.mass,
        }),
        collidable: Some(Collidable { hitbox: p.hitbox, contact_damage: p.contact_damage }),
        gunner: None,
        sprite: Sprite::Obstacle(index as u8),
    }
}

/// Builds an obstacle of table row `index`.
pub fn new_obstacle(handle: u64, index: usize, pos: Point, rotation: i64) -> (r: Body)
    requires
        index < OBSTACLE_KINDS,
        pos.bounded(),
        canonical(rotation as int),
    ensures
        r == obstacle_body(handle, index as int, pos, rotation),
        r.wf(),
{
    let p = obstacle_kind(index);
    Body {
        handle,
        kind: Kind::Obstacle,
        pos,
        rotation,
        alive: true,
        health: Some(Health {
            max_amount: p.max_health,
            amount: p.max_health,
            hitbox: p.hitbox,
            immune_to_projectiles: p.immune_to_projectiles,
            mass: p.mass,
        }),
        collidable: Some(Collidable { hitbox: p.hitbox, contact_damage: p.contact_damage }),
        gunner: None,
        sprite: Sprite::Obstacle(index as u8),
    }
}

/// A cannon on the river bank; it aims above the player and has no contact damage.
pub open spec fn side_cannon_body(handle: u64, pos: Point) -> Body {
    Body {
        handle,
        kind: Kind::SideCannon,
        pos,
        rotation: 0,
        alive: true,
        health: Some(Health {
            max_amount: 2,
            amount: 2,
            hitbox: Size { w: 64_000, h: 64_000 },
            immune_to_projectiles: false,
            mass: Mass::Wood,
        }),
        collidable: None,
        gunner: Some(Gunner {
            aim: Dir { x: 0, y: 0 },
            timer: Timer { duration_ms: 2000, elapsed_ms: 0, repeating: true, finished: false },
            speed: 350,
            mount: Point { x: 0, y: 0 },
            lead: 100_000,
        }),
        sprite: Sprite::EnemyCannon,
    }
}

/// Builds a bank cannon.
pub fn new_side_cannon(handle: u64, pos: Point) -> (r: Body)
    requires
        pos.bounded(),
    ensures
        r == side_cannon_body(handle, pos),
        r.wf(),
{
    Body {
        handle,
        kind: Kind::SideCannon,
        pos,
        rotation: 0,
        alive: true,
        health: Some(Health {
            max_amount: 2,
            amount: 2,
            hitbox: Size { w: 64_000, h: 64_000 },
            immune_to_projectiles: false,
            mass: Mass::Wood,
        }),
        collidable: None,
        gunner: Some(Gunner {
            aim: Dir { x: 0, y: 0 },
            timer: Timer::repeating(2000),
            speed: 350,
            mount: Point { x: 0, y: 0 },
            lead: 100_000,
        }),
        sprite: Sprite::EnemyCannon,
    }
}

/// A pirate ship with a cannon mounted on its deck.
pub open spec fn pirate_body(handle: u64, pos: Point, rotation: i64) -> Body {
    Body {
        handle,
        kind: Kind::Pirate,
        pos,
        rotation,
        alive: true,
        health: Some(Health {
            max_amount: 3,
            amount: 3,
            hitbox: Size { w: 32_000, h: 64_000 },
            immune_to_projectiles: false,
            mass: Mass::Wood,
        }),
        collidable: Some(Collidable { hitbox: Size { w: 32_000, h: 64_000 }, contact_damage: 5 }),
        gunner: Some(Gunner {
            aim: Dir { x: 0, y: 0 },
            timer: Timer { duration_ms: 2000, elapsed_ms: 0, repeating: true, finished: false },
            speed: 300,
            mount: Point { x: 0, y: 20_000 },
            lead: 50_000,
        }),
        sprite: Sprite::Pirate,
    }
}

/// Builds a pirate ship.
pub fn new_pirate(handle: u64, pos: Point, rotation: i64) -> (r: Body)
    requires
        pos.bounded(),
        canonical(rotation as int),
    ensures
        r == pirate_body(handle, pos, rotation),
        r.wf(),
{
    Body {
        handle,
        kind: Kind::Pirate,
        pos,
        rotation,
        alive: true,
        health: Some(Health {
            max_amount: 3,
            amount: 3,
            hitbox: Size { w: 32_000, h: 64_000 },
            immune_to_projectiles: false,
            mass: Mass::Wood,
        }),
        collidable: Some(Collidable { hitbox: Size { w: 32_000, h: 64_000 }, contact_damage: 5 }),
        gunner: Some(Gunner {
            aim: Dir { x: 0, y: 0 },
            timer: Timer::repeating(2000),
            speed: 300,
            mount: Point { x: 0, y: 20_000 },
            lead: 50_000,
        }),
        sprite: Sprite::Pirate,
    }
}

/// A barrel that drops a power-up when shot open.
pub open spec fn barrel_body(handle: u64, pos: Point) -> Body {
    Body {
        handle,
        kind: Kind::Barrel,
        pos,
        rotation: 0,
        alive: true,
        health: Some(Health {
            max_amount: 1,
            amount: 1,
            hitbox: Size { w: 32_000, h: 24_000 },
            immune_to_projectiles: false,
            mass: Mass::Wood,
        }),
        collidable: Some(Collidable { hitbox: Size { w: 32_000, h: 24_000 }, contact_damage: 1 }),
        gunner: None,
        sprite: Sprite::Barrel,
    }
}

/// Builds a power-up barrel.
pub fn new_barrel(handle: u64, pos: Point) -> (r: Body)
    requires
        pos.bounded(),
    ensures
        r == barrel_body(handle, pos),
        r.wf(),
{
    Body {
        handle,
        kind: Kind::Barrel,
        pos,
        rotation: 0,
        alive: true,
        health: Some(Health {
            max_amount: 1,
            amount: 1,
            hitbox: Size { w: 32_000, h: 24_000 },
            immune_to_projectiles: false,
            mass: Mass::Wood,
        }),
        collidable: Some(Collidable { hitbox: Size { w: 32_000, h: 24_000 }, contact_damage: 1 }),
        gunner: None,
        sprite: Sprite::Barrel,
    }
}

/// The picture of a power-up of the given kind.
pub open spec fn power_up_sprite(kind: PowerUpType) -> Sprite {
    match kind {
        PowerUpType::Repair => Sprite::RepairKit,
        PowerUpType::Weapon => Sprite::WeaponKit,
    }
}

/// A power-up floating on the water; bullets pass through it.
pub open spec fn power_up_body(handle: u64, kind: PowerUpType, pos: Point) -> Body {
    Body {
        handle,
        kind: Kind::PowerUp(kind),
        pos,
        rotation: 0,
        alive: true,
        health: Some(Health {
            max_amount: 1,
            amount: 1,
            hitbox: Size { w: 45_000, h: 40_000 },
            immune_to_projectiles: true,
            mass: Mass::Wood,
        }),
        collidable: Some(Collidable { hitbox: Size { w: 45_000, h: 40_000 }, contact_damage: 0 }),
        gunner: None,
        sprite: power_up_sprite(kind),
    }
}

/// Builds a power-up.
pub fn new_power_up(handle: u64, kind: PowerUpType, pos: Point) -> (r: Body)
    requires
        pos.bounded(),
    ensures
        r == power_up_body(handle, kind, pos),
        r.wf(),
{
    let sprite = match kind {
        PowerUpType::Repair => Sprite::RepairKit,
        PowerUpType::Weapon => Sprite::WeaponKit,
    };
    Body {
        handle,
        kind: Kind::PowerUp(kind),
        pos,
        rotation: 0,
        alive: true,
        health: Some(Health {
            max_amount: 1,
            amount: 1,
            hitbox: Size { w: 45_000, h: 40_000 },
            immune_to_projectiles: true,
            mass: Mass::Wood,
        }),
        collidable: Some(Collidable { hitbox: Size { w: 45_000, h: 40_000 }, contact_damage: 0 }),
        gunner: None,
        sprite,
    }
}

/// A terrain tile: land is solid and deadly, water and border are scenery.
pub open spec fn tile_body(handle: u64, kind: Kind, pos: Point, rotation: i64, sprite: Sprite) -> Body {
    Body {
        handle,
        kind,
        pos,
        rotation,
        alive: true,
        health: None,
        collidable: if kind == Kind::Land {
            Some(Collidable { hitbox: Size { w: TILE_SIZE, h: TILE_SIZE }, contact_damage: LAND_DAMAGE })
        } else {
            None
        },
        gunner: None,
        sprite,
    }
}

/// Builds a land tile.
pub fn new_land(handle: u64, pos: Point) -> (r: Body)
    requires
        pos.bounded(),
    ensures
        r == tile_body(handle, Kind::Land, pos, 0, Sprite::Land),
        r.wf(),
{
    Body {
        handle,
        kind: Kind::Land,
        pos,
        rotation: 0,
        alive: true,
        health: None,
        collidable: Some(Collidable { hitbox: Size { w: TILE_SIZE, h: TILE_SIZE }, contact_damage: LAND_DAMAGE }),
        gunner: None,
        sprite: Sprite::Land,
    }
}

/// Builds a scenery tile (water or border).
pub fn new_scenery(handle: u64, kind: Kind, pos: Point, rotation: i64, sprite: Sprite) -> (r: Body)
    requires
        pos.bounded(),
        canonical(rotation as int),
        kind == Kind::Water || kind == Kind::Border,
    ensures
        r == tile_body(handle, kind, pos, rotation, sprite),
        r.wf(),
{
    Body { handle, kind, pos, rotation, alive: true, health: None, collidable: None, gunner: None, sprite }
}

} // verus!
