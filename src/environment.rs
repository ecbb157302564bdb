use vstd::prelude::*;
use crate::angle::PI_MICRO;
use crate::combat::all_bodies_wf;
use crate::entity::{new_land, new_scenery, tile_body, Body, Kind, Sprite, MAP_WIDTH, TILE_SIZE};
use crate::geometry::{Point, COORD_LIMIT};
use crate::random::random_between;

verus! {

/// Terrain is kept generated this far above the camera.
pub const GENERATE_AHEAD: i64 = 800_000;

/// Number of water tiles in a row.
pub const WATER_COLUMNS: i64 = 8;

/// Number of pictures a border tile may show.
pub const BORDER_VARIANTS: i64 = 4;

/// How far terrain of each layer has been generated along the scroll axis.
#[derive(Clone, Copy, Debug, PartialEq, Eq, Structural)]
pub struct MapObject {
    pub water_top: i64,
    pub border_top: i64,
    pub land_top: i64,
}

/// A new row is due: the frontier is not yet past `camera_y + GENERATE_AHEAD`,
/// and the row above it still lies within the coordinate range.
pub open spec fn row_due(top: int, camera_y: int) -> bool {
    top <= camera_y + GENERATE_AHEAD && top + TILE_SIZE <= COORD_LIMIT
}

/// The water row at height `y`, its tiles centred on the columns of the strip.
pub open spec fn water_row(first_handle: u64, y: i64) -> Seq<Body> {
    Seq::new(
        WATER_COLUMNS as nat,
        |i: int|
            tile_body(
                (first_handle + i) as u64,
                Kind::Water,
                Point { x: (i * TILE_SIZE + TILE_SIZE / 2) as i64, y },
                0,
                Sprite::Water,
            ),
    )
}

/// The x coordinates of the land columns: two beyond each side of the strip.
pub open spec fn land_x(i: int) -> i64 {
    (if i == 0 {
        -3 * TILE_SIZE / 2
    } else if i == 1 {
        -TILE_SIZE / 2
    } else if i == 2 {
        MAP_WIDTH + TILE_SIZE / 2
    } else {
        MAP_WIDTH + 3 * TILE_SIZE / 2
    }) as i64
}

/// The land row at height `y`.
pub open spec fn land_row(first_handle: u64, y: i64) -> Seq<Body> {
    Seq::new(
        4,
        |i: int| tile_body((first_handle + i) as u64, Kind::Land, Point { x: land_x(i), y }, 0, Sprite::Land),
    )
}

/// The pair of border tiles at height `y`: the left one turned half a turn.
pub open spec fn border_pair(first_handle: u64, y: i64, left: u8, right: u8) -> Seq<Body> {
    seq![
        tile_body(first_handle, Kind::Border, Point { x: (TILE_SIZE / 2) as i64, y }, (-PI_MICRO) as i64, Sprite::Border(left)),
        tile_body(
            (first_handle + 1) as u64,
            Kind::Border,
            Point { x: (MAP_WIDTH - TILE_SIZE / 2) as i64, y },
            0,
            Sprite::Border(right),
        ),
    ]
}

impl MapObject {
    pub open spec fn wf(self) -> bool {
        &&& 0 <= self.water_top <= COORD_LIMIT
        &&& 0 <= self.border_top <= COORD_LIMIT
        &&& 0 <= self.land_top <= COORD_LIMIT
    }

    /// No terrain generated yet.
    pub fn new() -> (r: MapObject)
        ensures
            r == (MapObject { water_top: 0, border_top: 0, land_top: 0 }),
    {
        MapObject { water_top: 0, border_top: 0, land_top: 0 }
    }

    /// Adds one row of water above the water frontier if it is due.
    pub fn advance_water(&mut self, camera_y: i64, bodies: &mut Vec<Body>, next_handle: &mut u64)
        requires
            old(self).wf(),
            *old(next_handle) + WATER_COLUMNS <= u64::MAX,
        ensures
            final(self).wf(),
            final(self).border_top == old(self).border_top,
            final(self).land_top == old(self).land_top,
            row_due(old(self).water_top as int, camera_y as int) ==> {
                &&& final(self).water_top == old(self).water_top + TILE_SIZE
                &&& final(bodies)@ == old(bodies)@ + water_row(*old(next_handle), final(self).water_top)
                &&& *final(next_handle) == *old(next_handle) + WATER_COLUMNS
            },
            !row_due(old(self).water_top as int, camera_y as int) ==> {
                &&& final(self).water_top == old(self).water_top
                &&& final(bodies)@ == old(bodies)@
                &&& *final(next_handle) == *old(next_handle)
            },
            all_bodies_wf(old(bodies)@) ==> all_bodies_wf(final(bodies)@),
    {
        if !(self.water_top as i128 <= camera_y as i128 + GENERATE_AHEAD as i128 && self.water_top <= COORD_LIMIT - TILE_SIZE) {
            return;
        }
        let y = self.water_top + TILE_SIZE;
        let ghost ob = bodies@;
        let ghost h0 = *next_handle;
        let mut i: i64 = 0;
        while i < WATER_COLUMNS
            invariant
                0 <= i <= WATER_COLUMNS,
                0 < y <= COORD_LIMIT,
                bodies@.len() == ob.len() + i,
                *next_handle == h0 + i,
                h0 + WATER_COLUMNS <= u64::MAX,
                forall|k: int| 0 <= k < ob.len() ==> bodies@[k] == ob[k],
                forall|k: int| 0 <= k < i ==> bodies@[ob.len() + k] == water_row(h0, y)[k],
                all_bodies_wf(ob) ==> all_bodies_wf(bodies@),
            decreases WATER_COLUMNS - i,
        {
            let tile = new_scenery(*next_handle, Kind::Water, Point { x: i * TILE_SIZE + TILE_SIZE / 2, y }, 0, Sprite::Water);
            bodies.push(tile);
            *next_handle = *next_handle + 1;
            proof {
                assert(bodies@[ob.len() + i] == tile);
                if all_bodies_wf(ob) {
                    assert forall|k: int| 0 <= k < bodies@.len() implies (#[trigger] bodies@[k]).wf() by {
                    }
                }
            }
            i = i + 1;
        }
        self.water_top = y;
        proof {
            assert(bodies@ =~= ob + water_row(h0, y));
        }
    }

    /// Adds a pair of border tiles above the border frontier if it is due,
    /// each showing a randomly chosen picture; returns the pictures of the
    /// left and right tile (both 0 when no row was due).
    pub fn advance_border(&mut self, camera_y: i64, bodies: &mut Vec<Body>, next_handle: &mut u64) -> (pictures: (u8, u8))
        requires
            old(self).wf(),
            *old(next_handle) + 2 <= u64::MAX,
        ensures
            final(self).wf(),
            final(self).water_top == old(self).water_top,
            final(self).land_top == old(self).land_top,
            pictures.0 < BORDER_VARIANTS && pictures.1 < BORDER_VARIANTS,
            row_due(old(self).border_top as int, camera_y as int) ==> {
                &&& final(self).border_top == old(self).border_top + TILE_SIZE
                &&& final(bodies)@ == old(bodies)@ + border_pair(*old(next_handle), final(self).border_top, pictures.0, pictures.1)
                &&& *final(next_handle) == *old(next_handle) + 2
            },
            !row_due(old(self).border_top as int, camera_y as int) ==> {
                &&& final(self).border_top == old(self).border_top
                &&& final(bodies)@ == old(bodies)@
                &&& *final(next_handle) == *old(next_handle)
            },
            all_bodies_wf(old(bodies)@) ==> all_bodies_wf(final(bodies)@),
    {
        if !(self.border_top as i128 <= camera_y as i128 + GENERATE_AHEAD as i128 && self.border_top <= COORD_LIMIT - TILE_SIZE) {
            return (0, 0);
        }
        let y = self.border_top + TILE_SIZE;
        let ghost ob = bodies@;
        let h0 = *next_handle;
        let left = random_between(0, BORDER_VARIANTS) as u8;
        let right = random_between(0, BORDER_VARIANTS) as u8;
        let a = new_scenery(h0, Kind::Border, Point { x: TILE_SIZE / 2, y }, -PI_MICRO, Sprite::Border(left));
        let b = new_scenery(h0 + 1, Kind::Border, Point { x: MAP_WIDTH - TILE_SIZE / 2, y }, 0, Sprite::Border(right));
        bodies.push(a);
        bodies.push(b);
        *next_handle = h0 + 2;
        self.border_top = y;
        proof {
            assert(bodies@ =~= ob + border_pair(h0, y, left, right));
            if all_bodies_wf(ob) {
                assert forall|k: int| 0 <= k < bodies@.len() implies (#[trigger] bodies@[k]).wf() by {
                    if k < ob.len() {
                        assert(bodies@[k] == ob[k]);
                    }
                }
            }
        }
        (left, right)
    }

    /// Adds a row of land on both sides of the strip above the land frontier
    /// if it is due.
    pub fn advance_land(&mut self, camera_y: i64, bodies: &mut Vec<Body>, next_handle: &mut u64)
        requires
            old(self).wf(),
            *old(next_handle) + 4 <= u64::MAX,
        ensures
            final(self).wf(),
            final(self).water_top == old(self).water_top,
            final(self).border_top == old(self).border_top,
            row_due(old(self).land_top as int, camera_y as int) ==> {
                &&& final(self).land_top == old(self).land_top + TILE_SIZE
                &&& final(bodies)@ == old(bodies)@ + land_row(*old(next_handle), final(self).land_top)
                &&& *final(next_handle) == *old(next_handle) + 4
            },
            !row_due(old(self).land_top as int, camera_y as int) ==> {
                &&& final(self).land_top == old(self).land_top
                &&& final(bodies)@ == old(bodies)@
                &&& *final(next_handle) == *old(next_handle)
            },
            all_bodies_wf(old(bodies)@) ==> all_bodies_wf(final(bodies)@),
    {
        if !(self.land_top as i128 <= camera_y as i128 + GENERATE_AHEAD as i128 && self.land_top <= COORD_LIMIT - TILE_SIZE) {
            return;
        }
        let y = self.land_top + TILE_SIZE;
        let ghost ob = bodies@;
        let ghost h0 = *next_handle;
        let mut i: i64 = 0;
        while i < 4
            invariant
                0 <= i <= 4,
                0 < y <= COORD_LIMIT,
                bodies@.len() == ob.len() + i,
                *next_handle == h0 + i,
                h0 + 4 <= u64::MAX,
                forall|k: int| 0 <= k < ob.len() ==> bodies@[k] == ob[k],
                forall|k: int| 0 <= k < i ==> bodies@[ob.len() + k] == land_row(h0, y)[k],
                all_bodies_wf(ob) ==> all_bodies_wf(bodies@),
            decreases 4 - i,
        {
            let x = if i == 0 {
                -3 * TILE_SIZE / 2
            } else if i == 1 {
                -TILE_SIZE / 2
            } else if i == 2 {
                MAP_WIDTH + TILE_SIZE / 2
            } else {
                MAP_WIDTH + 3 * TILE_SIZE / 2
            };
            let tile = new_land(*next_handle, Point { x, y });
            bodies.push(tile);
            *next_handle = *next_handle + 1;
            proof {
                assert(bodies@[ob.len() + i] == tile);
                if all_bodies_wf(ob) {
                    assert forall|k: int| 0 <= k < bodies@.len() implies (#[trigger] bodies@[k]).wf() by {
                    }
                }
            }
            i = i + 1;
        }
        self.land_top = y;
        proof {
            assert(bodies@ =~= ob + land_row(h0, y));
        }
    }
}

} // verus!
