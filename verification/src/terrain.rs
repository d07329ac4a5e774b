//! A rectangle of terrain as the rules read it.

use vstd::prelude::*;

verus! {

/// The surface kinds that some rule asks about.
#[derive(Clone, Copy, Debug, PartialEq, Eq, Structural)]
pub enum TileKind {
    Grass,
    Wall,
    Stone,
    Road,
    Bridge,
    Dam,
    River,
    Lake,
    Ocean,
    Marsh,
    Sand,
    Scrub,
    Snow,
    Cropland,
    Other,
}

impl TileKind {
    pub open spec fn water(self) -> bool {
        self == TileKind::River || self == TileKind::Lake || self == TileKind::Ocean
    }

    pub open spec fn fresh(self) -> bool {
        self == TileKind::River
    }

    /// Vehicles roll fastest here.
    pub open spec fn road_like(self) -> bool {
        self == TileKind::Road || self == TileKind::Bridge || self == TileKind::Dam
    }

    /// Ground that shakes a vehicle.
    pub open spec fn rough(self) -> bool {
        self == TileKind::Marsh || self == TileKind::Sand || self == TileKind::Scrub || self
            == TileKind::Snow
    }

    pub fn is_rough(self) -> (b: bool)
        ensures
            b == self.rough(),
    {
        match self {
            TileKind::Marsh | TileKind::Sand | TileKind::Scrub | TileKind::Snow => true,
            _ => false,
        }
    }

    pub fn is_water_like(self) -> (b: bool)
        ensures
            b == self.water(),
    {
        match self {
            TileKind::River | TileKind::Lake | TileKind::Ocean => true,
            _ => false,
        }
    }

    pub fn is_freshwater(self) -> (b: bool)
        ensures
            b == self.fresh(),
    {
        match self {
            TileKind::River => true,
            _ => false,
        }
    }
}

/// What one loaded tile is like.
#[derive(Debug)]
pub struct TileInfo {
    pub kind: TileKind,
    /// Level of the ground surface.
    pub surface_z: i32,
    /// The surface can be walked on.
    pub walkable: bool,
    /// Free levels above the surface.
    pub clearance: i32,
    /// The levels at which the tile can be entered.
    pub open: Vec<i32>,
}

/// A dense rectangle of loaded tiles, row by row.
#[derive(Debug)]
pub struct TerrainWindow {
    pub min: (i32, i32),
    pub width: usize,
    pub height: usize,
    pub tiles: Vec<TileInfo>,
    /// The lowest and the highest level of the world.
    pub z_min: i32,
    pub z_max: i32,
}

impl TerrainWindow {
    /// There is one record for each tile of the rectangle, and levels fit in eight bits.
    pub open spec fn wf(self) -> bool {
        &&& self.tiles@.len() == self.width * self.height
        &&& i8::MIN <= self.z_min
        &&& self.z_max <= i8::MAX
    }

    /// A tile lies in the rectangle.
    pub open spec fn covers(self, x: int, y: int) -> bool {
        &&& self.min.0 <= x < self.min.0 + self.width
        &&& self.min.1 <= y < self.min.1 + self.height
    }

    /// The record of a tile.
    pub open spec fn tile(self, x: int, y: int) -> Option<TileInfo> {
        if self.covers(x, y) {
            Some(self.tiles@[(y - self.min.1) * self.width + (x - self.min.0)])
        } else {
            None
        }
    }

    /// The tile can be entered at a level.
    pub open spec fn passable(self, x: int, y: int, z: int) -> bool {
        match self.tile(x, y) {
            Some(t) => exists|i: int| 0 <= i < t.open@.len() && #[trigger] t.open@[i] == z,
            None => false,
        }
    }

    /// The surface of the tile can be walked on.
    pub open spec fn walkable(self, x: int, y: int) -> bool {
        match self.tile(x, y) {
            Some(t) => t.walkable,
            None => false,
        }
    }

    /// The surface kind of a loaded tile.
    pub open spec fn kind(self, x: int, y: int) -> Option<TileKind> {
        match self.tile(x, y) {
            Some(t) => Some(t.kind),
            None => None,
        }
    }

    pub fn at(&self, x: i32, y: i32) -> (r: Option<&TileInfo>)
        requires
            self.wf(),
        ensures
            match r {
                Some(t) => self.tile(x as int, y as int) == Some(*t),
                None => self.tile(x as int, y as int) is None,
            },
    {
        if x < self.min.0 || y < self.min.1 {
            return None;
        }
        let dx: u64 = (x as i64 - self.min.0 as i64) as u64;
        let dy: u64 = (y as i64 - self.min.1 as i64) as u64;
        if dx >= self.width as u64 || dy >= self.height as u64 {
            return None;
        }
        let col: usize = dx as usize;
        let row: usize = dy as usize;
        let n: usize = self.tiles.len();
        proof {
            assert(0 <= row * self.width && row * self.width + col < n) by (nonlinear_arith)
                requires
                    row < self.height,
                    col < self.width,
                    n == self.width * self.height,
            ;
        }
        let index: usize = row * self.width + col;
        Some(&self.tiles[index])
    }

    pub fn passable_at(&self, x: i32, y: i32, z: i32) -> (b: bool)
        requires
            self.wf(),
        ensures
            b == self.passable(x as int, y as int, z as int),
    {
        match self.at(x, y) {
            Some(t) => {
                let mut i: usize = 0;
                while i < t.open.len()
                    invariant
                        i <= t.open.len(),
                        self.tile(x as int, y as int) == Some(*t),
                        forall|j: int| 0 <= j < i ==> t.open@[j] != z,
                    decreases t.open.len() - i,
                {
                    if t.open[i] == z {
                        assert(t.open@[i as int] == z);
                        return true;
                    }
                    i += 1;
                }
                false
            },
            None => false,
        }
    }

    pub fn is_passable(&self, x: i32, y: i32) -> (b: bool)
        requires
            self.wf(),
        ensures
            b == self.walkable(x as int, y as int),
    {
        match self.at(x, y) {
            Some(t) => t.walkable,
            None => false,
        }
    }

    pub fn tile_kind_at(&self, x: i32, y: i32) -> (r: Option<TileKind>)
        requires
            self.wf(),
        ensures
            r == self.kind(x as int, y as int),
    {
        match self.at(x, y) {
            Some(t) => Some(t.kind),
            None => None,
        }
    }
}

/// Whether a tile is of road grade.
pub fn is_road_like(terrain: &TerrainWindow, tile: (i32, i32)) -> (b: bool)
    requires
        terrain.wf(),
    ensures
        b == (terrain.kind(tile.0 as int, tile.1 as int) matches Some(k) && k.road_like()),
{
    match terrain.tile_kind_at(tile.0, tile.1) {
        Some(k) => match k {
            TileKind::Road | TileKind::Bridge | TileKind::Dam => true,
            _ => false,
        },
        None => false,
    }
}

/// Rivers, lakes and the ocean are water, and only rivers are fresh; roads, bridges and dams roll
/// fast; marsh, sand, scrub and snow shake a vehicle. No ground is two of these.
pub proof fn grounds_differ(k: TileKind)
    ensures
        k.fresh() ==> k.water(),
        TileKind::River.fresh() && !TileKind::Lake.fresh() && !TileKind::Ocean.fresh(),
        TileKind::Lake.water() && TileKind::Ocean.water(),
        TileKind::Road.road_like() && TileKind::Bridge.road_like() && TileKind::Dam.road_like(),
        TileKind::Marsh.rough() && TileKind::Sand.rough() && TileKind::Scrub.rough()
            && TileKind::Snow.rough(),
        !(k.water() && k.road_like()) && !(k.water() && k.rough()) && !(k.road_like() && k.rough()),
        k == TileKind::Grass || k == TileKind::Wall || k == TileKind::Stone || k
            == TileKind::Cropland || k == TileKind::Other ==> !k.water() && !k.road_like()
            && !k.rough(),
{
}

/// Tiles lie row by row from the least corner: the next tile of a row is the next in the list, and
/// the tile above is a row further on; outside the window there is none.
pub proof fn tiles_lie_row_by_row(w: TerrainWindow, x: int, y: int)
    requires
        w.wf(),
    ensures
        w.tile(x, y) is Some <==> w.min.0 <= x < w.min.0 + w.width && w.min.1 <= y < w.min.1
            + w.height,
        w.width > 0 && w.height > 0 ==> w.tile(w.min.0 as int, w.min.1 as int) == Some(w.tiles@[0]),
        w.tile(x, y) is Some ==> w.tile(x, y) == Some(
            w.tiles@[(x - w.min.0) + w.width * (y - w.min.1)],
        ),
{
    let a = y - w.min.1;
    let b = w.width as int;
    assert(a * b == b * a) by (nonlinear_arith);
    assert(0 * b == 0) by (nonlinear_arith);
}

} // verus!
