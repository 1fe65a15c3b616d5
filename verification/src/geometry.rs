//! Integer grid and world coordinates, and the conversions between LDtk's
//! y-down pixel space and the engine's y-up world space.

use vstd::prelude::*;

verus! {

/// A pair of `i32` grid or pixel coordinates.
#[derive(Debug, Clone, Copy, PartialEq, Eq, Structural)]
pub struct IVec2 {
    pub x: i32,
    pub y: i32,
}

impl IVec2 {
    pub open spec fn spec_zero() -> IVec2 {
        IVec2 { x: 0, y: 0 }
    }

    pub fn new(x: i32, y: i32) -> (v: IVec2)
        ensures
            v.x == x,
            v.y == y,
    {
        IVec2 { x, y }
    }

    pub fn zero() -> (v: IVec2)
        ensures
            v.x == 0,
            v.y == 0,
    {
        IVec2 { x: 0, y: 0 }
    }
}

impl Default for IVec2 {
    fn default() -> (v: IVec2)
        ensures
            v.x == 0,
            v.y == 0,
    {
        IVec2 { x: 0, y: 0 }
    }
}

/// A world-space point with whole-pixel coordinates (y-up).
#[derive(Debug, Clone, Copy, PartialEq, Eq, Structural)]
pub struct WorldPos {
    pub x: i64,
    pub y: i64,
}

impl WorldPos {
    pub open spec fn spec_zero() -> WorldPos {
        WorldPos { x: 0, y: 0 }
    }

    pub fn new(x: i64, y: i64) -> (p: WorldPos)
        ensures
            p.x == x,
            p.y == y,
    {
        WorldPos { x, y }
    }

    pub fn zero() -> (p: WorldPos)
        ensures
            p.x == 0,
            p.y == 0,
    {
        WorldPos { x: 0, y: 0 }
    }
}

impl Default for WorldPos {
    fn default() -> (p: WorldPos)
        ensures
            p.x == 0,
            p.y == 0,
    {
        WorldPos { x: 0, y: 0 }
    }
}

/// A world-space point given in half pixels: the point is `(x2 / 2, y2 / 2)`.
#[derive(Debug, Clone, Copy, PartialEq, Eq, Structural)]
pub struct HalfPixelPos {
    pub x2: i128,
    pub y2: i128,
}

/// The bit pattern of an IEEE-754 single-precision value, carried through the
/// catalog unchanged (opacities, alphas, pivots).
#[derive(Debug, Clone, Copy, PartialEq, Eq, Structural)]
pub struct ScalarBits {
    pub bits: u32,
}

impl Default for ScalarBits {
    fn default() -> (s: ScalarBits)
        ensures
            s.bits == 0,
    {
        ScalarBits { bits: 0 }
    }
}

/// Two single-precision bit patterns, e.g. a normalised pivot.
#[derive(Debug, Clone, Copy, PartialEq, Eq, Structural)]
pub struct ScalarPair {
    pub x: ScalarBits,
    pub y: ScalarBits,
}

impl ScalarPair {
    pub open spec fn spec_zero() -> ScalarPair {
        ScalarPair { x: ScalarBits { bits: 0 }, y: ScalarBits { bits: 0 } }
    }
}

impl Default for ScalarPair {
    fn default() -> (p: ScalarPair)
        ensures
            p.x.bits == 0,
            p.y.bits == 0,
    {
        ScalarPair { x: ScalarBits { bits: 0 }, y: ScalarBits { bits: 0 } }
    }
}

/// Cardinal direction between two levels.
#[derive(Debug, Clone, Copy, PartialEq, Eq, Structural)]
pub enum LdtkDirection {
    /// Above (decreasing Y in LDtk world space).
    North,
    /// Below (increasing Y in LDtk world space).
    South,
    /// To the right (increasing X).
    East,
    /// To the left (decreasing X).
    West,
}

impl Default for LdtkDirection {
    fn default() -> (d: LdtkDirection)
        ensures
            d == LdtkDirection::North,
    {
        LdtkDirection::North
    }
}

pub open spec fn abs(v: int) -> int {
    if v < 0 {
        -v
    } else {
        v
    }
}

/// Direction from a level at world position `s` to one at `t` (LDtk y-down
/// world pixels); `None` when either position is the unset marker `(-1, -1)`.
pub open spec fn spec_direction(sx: int, sy: int, tx: int, ty: int) -> Option<LdtkDirection> {
    if (sx == -1 && sy == -1) || (tx == -1 && ty == -1) {
        None
    } else {
        let dx = tx - sx;
        let dy = ty - sy;
        if abs(dx) > abs(dy) {
            Some(if dx > 0 { LdtkDirection::East } else { LdtkDirection::West })
        } else {
            Some(if dy < 0 { LdtkDirection::North } else { LdtkDirection::South })
        }
    }
}

/// Derives a direction from the relative world positions of two levels.
/// A level whose world position is entirely unset (`-1/-1`) yields `None`; a
/// single `-1` coordinate counts as a real position.
pub fn direction_by_world_position(source: IVec2, target: IVec2) -> (d: Option<LdtkDirection>)
    ensures
        d == spec_direction(source.x as int, source.y as int, target.x as int, target.y as int),
{
    if (source.x == -1 && source.y == -1) || (target.x == -1 && target.y == -1) {
        return None;
    }
    let dx: i64 = target.x as i64 - source.x as i64;
    let dy: i64 = target.y as i64 - source.y as i64;
    let ax: i64 = if dx < 0 {
        -dx
    } else {
        dx
    };
    let ay: i64 = if dy < 0 {
        -dy
    } else {
        dy
    };
    if ax > ay {
        Some(
            if dx > 0 {
                LdtkDirection::East
            } else {
                LdtkDirection::West
            },
        )
    } else {
        Some(
            if dy < 0 {
                LdtkDirection::North
            } else {
                LdtkDirection::South
            },
        )
    }
}

/// The direction pointing the other way.
pub open spec fn opposite(d: LdtkDirection) -> LdtkDirection {
    match d {
        LdtkDirection::North => LdtkDirection::South,
        LdtkDirection::South => LdtkDirection::North,
        LdtkDirection::East => LdtkDirection::West,
        LdtkDirection::West => LdtkDirection::East,
    }
}

/// Seen from the other level, a neighbor lies in the opposite direction, as
/// long as the two levels sit at different positions.
pub proof fn lemma_direction_is_antisymmetric(sx: int, sy: int, tx: int, ty: int)
    requires
        sx != tx || sy != ty,
        spec_direction(sx, sy, tx, ty) is Some,
    ensures
        spec_direction(tx, ty, sx, sy) == Some(opposite(spec_direction(sx, sy, tx, ty)->0)),
{
}

/// LDtk pixel coordinate (level-relative, y-down) to engine world position
/// (y-up): `(world_x + px.x, -(world_y + px.y))`.
pub open spec fn spec_px_to_world(px: IVec2, level_world: IVec2) -> WorldPos {
    WorldPos {
        x: (level_world.x + px.x) as i64,
        y: (-(level_world.y + px.y)) as i64,
    }
}

/// Converts an LDtk pixel coordinate inside a level into a world position.
/// The level's bottom-left corner sits at `(world_x, -world_y - px_hei)` and a
/// point `px` lies at offset `(px.x, px_hei - px.y)` from it; the level height
/// cancels out.
pub fn ldtk_px_to_world(px: IVec2, level_world: IVec2) -> (p: WorldPos)
    ensures
        p == spec_px_to_world(px, level_world),
        p.x == level_world.x + px.x,
        p.y == -(level_world.y + px.y),
{
    let x: i64 = level_world.x as i64 + px.x as i64;
    let y: i64 = level_world.y as i64 + px.y as i64;
    WorldPos { x, y: -y }
}

} // verus!
