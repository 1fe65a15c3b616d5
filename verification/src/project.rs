//! The parts of an LDtk project that the catalog is built from, as plain
//! values: worlds, levels, layer instances, entity and tile instances, and
//! tileset definitions.

use vstd::prelude::*;

use crate::catalog::{LdtkLayerType, LdtkWorldLayout};
use crate::fields::{LdtkFieldValue, LdtkTilesetRect};
use crate::geometry::{IVec2, ScalarBits, ScalarPair};

verus! {

/// A tile placed in a layer.
#[derive(Debug, Clone, Copy, PartialEq, Eq, Structural)]
pub struct LdtkTileInstanceData {
    /// Tile id in the tileset.
    pub t: i32,
    /// Top-left corner in the layer, in pixels.
    pub px: IVec2,
    /// Top-left corner of the source rectangle in the tileset image.
    pub src: IVec2,
    /// Flip bits: 1 horizontal, 2 vertical.
    pub f: i32,
    /// Opacity (bit pattern).
    pub a: ScalarBits,
}

/// An entity placed in a layer.
#[derive(Debug)]
pub struct LdtkEntityInstanceData {
    /// Instance IID.
    pub iid: String,
    /// Entity definition identifier.
    pub identifier: String,
    /// Pivot position in the level, in pixels (y-down).
    pub px: IVec2,
    /// Grid position.
    pub grid: IVec2,
    /// Width in pixels.
    pub width: i32,
    /// Height in pixels.
    pub height: i32,
    /// Normalised pivot.
    pub pivot: ScalarPair,
    /// Tags of the instance.
    pub tags: Vec<String>,
    /// Visual tile, if any.
    pub tile: Option<LdtkTilesetRect>,
    /// Custom field values, by identifier, in definition order.
    pub field_instances: Vec<(String, LdtkFieldValue)>,
}

/// A layer instance inside a level.
#[derive(Debug)]
pub struct LdtkLayerInstanceData {
    /// Instance IID.
    pub iid: String,
    /// Layer definition identifier.
    pub identifier: String,
    /// Kind of layer.
    pub layer_type: LdtkLayerType,
    /// Cell size in pixels.
    pub grid_size: i32,
    /// Columns.
    pub c_wid: i32,
    /// Rows.
    pub c_hei: i32,
    /// Tileset overriding the definition's, if any.
    pub override_tileset_uid: Option<i32>,
    /// Tileset of the layer definition, if any.
    pub tileset_def_uid: Option<i32>,
    /// Path of the tileset image, if any.
    pub tileset_rel_path: Option<String>,
    /// Opacity (bit pattern).
    pub opacity: ScalarBits,
    /// Visible in the editor.
    pub visible: bool,
    /// Entities of an entity layer.
    pub entity_instances: Vec<LdtkEntityInstanceData>,
    /// Manually placed tiles.
    pub grid_tiles: Vec<LdtkTileInstanceData>,
    /// Rule-placed tiles.
    pub auto_layer_tiles: Vec<LdtkTileInstanceData>,
}

/// A neighbour link of a level.
#[derive(Debug)]
pub struct LdtkNeighbourData {
    /// IID of the neighbouring level.
    pub level_iid: String,
    /// Direction code (`"n"`, `"e"`, `"ne"`, `"o"`, `"<"`, ...).
    pub dir: String,
}

/// A level of the project.
#[derive(Debug)]
pub struct LdtkLevelData {
    /// Instance IID.
    pub iid: String,
    /// Numeric UID.
    pub uid: i32,
    /// Identifier.
    pub identifier: String,
    /// Path of the external level file, relative to the world file.
    pub external_rel_path: Option<String>,
    /// Width in pixels.
    pub px_wid: i32,
    /// Height in pixels.
    pub px_hei: i32,
    /// World X in pixels (`-1` with `world_y == -1` when unset).
    pub world_x: i32,
    /// World Y in pixels (y-down).
    pub world_y: i32,
    /// Custom field values, by identifier, in definition order.
    pub field_instances: Vec<(String, LdtkFieldValue)>,
    /// Layer instances; `None` when stored in an external file.
    pub layer_instances: Option<Vec<LdtkLayerInstanceData>>,
    /// Neighbour links.
    pub neighbours: Vec<LdtkNeighbourData>,
}

/// An enum value tagging some tiles of a tileset.
#[derive(Debug)]
pub struct LdtkEnumTagData {
    /// The enum value.
    pub enum_value_id: String,
    /// Tagged tile ids.
    pub tile_ids: Vec<i32>,
}

/// A tileset definition.
#[derive(Debug)]
pub struct LdtkTilesetDefinitionData {
    /// Numeric UID.
    pub uid: i32,
    /// Identifier.
    pub identifier: String,
    /// Path of the image; `None` for internal tilesets.
    pub rel_path: Option<String>,
    /// Tile size in pixels.
    pub tile_grid_size: i32,
    /// Columns.
    pub c_wid: i32,
    /// Rows.
    pub c_hei: i32,
    /// Image width.
    pub px_wid: i32,
    /// Image height.
    pub px_hei: i32,
    /// Gap between tiles.
    pub spacing: i32,
    /// Border around the image.
    pub padding: i32,
    /// Tags of the whole tileset.
    pub tags: Vec<String>,
    /// Enum tags.
    pub enum_tags: Vec<LdtkEnumTagData>,
    /// Custom data by tile id, in definition order.
    pub custom_data: Vec<(i32, String)>,
}

/// A world of a multi-world project.
#[derive(Debug)]
pub struct LdtkWorldData {
    /// Identifier.
    pub identifier: String,
    /// Layout, if set.
    pub world_layout: Option<LdtkWorldLayout>,
    /// Levels.
    pub levels: Vec<LdtkLevelData>,
}

/// The project: worlds (multi-world projects) or top-level levels, and the
/// tileset definitions.
#[derive(Debug)]
pub struct LdtkProjectData {
    /// Worlds; empty for single-world projects.
    pub worlds: Vec<LdtkWorldData>,
    /// Levels of a single-world project.
    pub levels: Vec<LdtkLevelData>,
    /// Tileset definitions.
    pub tilesets: Vec<LdtkTilesetDefinitionData>,
}

} // verus!
