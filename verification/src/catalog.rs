//! In-memory catalogs of everything read from the world JSON (worlds, levels,
//! layers, tilesets, tiles, spawn points, entity snapshots) and of the
//! collision cells captured at runtime.

use vstd::prelude::*;

use crate::animation::{LdtkTileAnimation, LdtkTileKey};
use crate::entities::{clone_opt_string, clone_strings, LdtkImportedEntity, LdtkTileMetadata};
use crate::fields::{LdtkFieldMap, LdtkFieldValue};
use crate::geometry::{HalfPixelPos, IVec2, LdtkDirection, ScalarBits, WorldPos};
use crate::keyed_map::KeyedMap;

verus! {

/// Kind of an LDtk layer.
#[derive(Debug, Clone, Copy, PartialEq, Eq, Hash, Structural)]
pub enum LdtkLayerType {
    /// Integer values per cell.
    IntGrid,
    /// Entity instances.
    Entities,
    /// Manually placed tiles.
    Tiles,
    /// Rule-driven auto tiles.
    AutoLayer,
    /// Not mapped to a known kind.
    Unknown,
}

impl Default for LdtkLayerType {
    fn default() -> (t: Self)
        ensures
            t == LdtkLayerType::Unknown,
    {
        LdtkLayerType::Unknown
    }
}

/// Spatial arrangement of the levels in a world.
#[derive(Debug, Clone, Copy, PartialEq, Eq, Structural)]
pub enum LdtkWorldLayout {
    /// Levels placed freely.
    Free,
    /// Levels on a contiguous grid.
    GridVania,
    /// Levels in a single horizontal row.
    LinearHorizontal,
    /// Levels in a single vertical column.
    LinearVertical,
}

impl Default for LdtkWorldLayout {
    fn default() -> (l: Self)
        ensures
            l == LdtkWorldLayout::Free,
    {
        LdtkWorldLayout::Free
    }
}

/// Traversal cost class of a neighbor link, from LDtk's `dir` code.
#[derive(Debug, Clone, Copy, PartialEq, Eq, Structural)]
pub enum LdtkNeighborCost {
    /// Overlapping levels (`"o"`): moving there is nearly free (0.2).
    Overlap,
    /// A level on another world depth (`"<"`, `">"`): costlier (1.5).
    Depth,
    /// A diagonal neighbor (two-letter codes such as `"ne"`): about √2 (1.4).
    Diagonal,
    /// A cardinal neighbor: unit cost (1.0).
    Cardinal,
}

impl Default for LdtkNeighborCost {
    fn default() -> (c: Self)
        ensures
            c == LdtkNeighborCost::Cardinal,
    {
        LdtkNeighborCost::Cardinal
    }
}

/// Summary of collision data captured from one layer of one level.
#[derive(Debug, PartialEq, Eq)]
pub struct LdtkCollisionLayerInfo {
    /// Identifier of the level this layer belongs to.
    pub level_identifier: String,
    /// IID of the level this layer belongs to.
    pub level_iid: String,
    /// Identifier of this layer definition.
    pub layer_identifier: String,
    /// Instance IID of this layer.
    pub layer_iid: String,
    /// Kind of layer.
    pub layer_type: LdtkLayerType,
    /// Number of solid cells.
    pub solid_cells: usize,
    /// Number of tile-backed cells.
    pub tile_cells: usize,
    /// Number of sensor cells.
    pub sensor_cells: usize,
}

impl Default for LdtkCollisionLayerInfo {
    fn default() -> (i: Self)
        ensures
            i.level_identifier@ == Seq::<char>::empty(),
            i.level_iid@ == Seq::<char>::empty(),
            i.layer_identifier@ == Seq::<char>::empty(),
            i.layer_iid@ == Seq::<char>::empty(),
            i.layer_type == LdtkLayerType::Unknown,
            i.solid_cells == 0,
            i.tile_cells == 0,
            i.sensor_cells == 0,
    {
        LdtkCollisionLayerInfo {
            level_identifier: String::new(),
            level_iid: String::new(),
            layer_identifier: String::new(),
            layer_iid: String::new(),
            layer_type: LdtkLayerType::Unknown,
            solid_cells: 0,
            tile_cells: 0,
            sensor_cells: 0,
        }
    }
}

/// Collision data for one IntGrid cell.
#[derive(Debug, PartialEq, Eq)]
pub struct LdtkCollisionCell {
    /// Identifier of the level that contains this cell.
    pub level_identifier: String,
    /// IID of the containing level.
    pub level_iid: String,
    /// Identifier of the containing layer.
    pub layer_identifier: String,
    /// Instance IID of the containing layer.
    pub layer_iid: String,
    /// Column/row of the cell in the layer grid (y-up, origin bottom-left).
    pub grid_position: IVec2,
    /// The raw IntGrid value.
    pub value: i32,
    /// The cell is a solid collider.
    pub solid: bool,
    /// The cell is a sensor.
    pub sensor: bool,
    /// Tag identifying the sensor type (e.g. `"water"`).
    pub tag: Option<String>,
}

impl Clone for LdtkCollisionCell {
    fn clone(&self) -> (r: Self)
        ensures
            r == *self,
    {
        LdtkCollisionCell {
            level_identifier: self.level_identifier.clone(),
            level_iid: self.level_iid.clone(),
            layer_identifier: self.layer_identifier.clone(),
            layer_iid: self.layer_iid.clone(),
            grid_position: self.grid_position,
            value: self.value,
            solid: self.solid,
            sensor: self.sensor,
            tag: clone_opt_string(&self.tag),
        }
    }
}

impl Default for LdtkCollisionCell {
    fn default() -> (c: Self)
        ensures
            c.level_identifier@ == Seq::<char>::empty(),
            c.level_iid@ == Seq::<char>::empty(),
            c.layer_identifier@ == Seq::<char>::empty(),
            c.layer_iid@ == Seq::<char>::empty(),
            c.grid_position == IVec2::spec_zero(),
            c.value == 0,
            !c.solid,
            !c.sensor,
            c.tag is None,
    {
        LdtkCollisionCell {
            level_identifier: String::new(),
            level_iid: String::new(),
            layer_identifier: String::new(),
            layer_iid: String::new(),
            grid_position: IVec2::zero(),
            value: 0,
            solid: false,
            sensor: false,
            tag: None,
        }
    }
}

/// Metadata about one world.
#[derive(Debug)]
pub struct LdtkWorldInfo {
    /// Identifier of this world.
    pub identifier: String,
    /// Asset-relative path of the `.ldtk` file.
    pub path: String,
    /// Identifiers of the levels of this world.
    pub levels: Vec<String>,
    /// Spatial layout of this world.
    pub layout: LdtkWorldLayout,
}

impl Default for LdtkWorldInfo {
    fn default() -> (w: Self)
        ensures
            w.identifier@ == Seq::<char>::empty(),
            w.path@ == Seq::<char>::empty(),
            w.levels@.len() == 0,
            w.layout == LdtkWorldLayout::Free,
    {
        LdtkWorldInfo {
            identifier: String::new(),
            path: String::new(),
            levels: Vec::new(),
            layout: LdtkWorldLayout::Free,
        }
    }
}

/// Link from a level to an adjacent level.
#[derive(Debug, PartialEq, Eq)]
pub struct LdtkNeighbor {
    /// Identifier of the adjacent level.
    pub level_identifier: String,
    /// Direction from the owning level to this neighbor.
    pub direction: LdtkDirection,
    /// Traversal cost class.
    pub cost: LdtkNeighborCost,
}

/// A named location inside a level where a player or object can be placed.
#[derive(Debug)]
pub struct LdtkSpawnPoint {
    /// Identifier of the spawn entity (e.g. `"PlayerStart"`).
    pub identifier: String,
    /// World-space position in pixels (y-up).
    pub position: WorldPos,
    /// Identifier of the level that contains this spawn point.
    pub level_identifier: String,
    /// Identifier of the layer the spawn entity lives on.
    pub layer_identifier: String,
    /// Tags of the spawn entity.
    pub tags: Vec<String>,
}

impl LdtkSpawnPoint {
    /// `self` and `other` describe the same spawn point.
    pub open spec fn same_as(self, other: LdtkSpawnPoint) -> bool {
        &&& self.identifier == other.identifier
        &&& self.position == other.position
        &&& self.level_identifier == other.level_identifier
        &&& self.layer_identifier == other.layer_identifier
        &&& self.tags@ == other.tags@
    }
}

impl Clone for LdtkSpawnPoint {
    fn clone(&self) -> (r: Self)
        ensures
            r.same_as(*self),
    {
        LdtkSpawnPoint {
            identifier: self.identifier.clone(),
            position: self.position,
            level_identifier: self.level_identifier.clone(),
            layer_identifier: self.layer_identifier.clone(),
            tags: clone_strings(&self.tags),
        }
    }
}

impl Default for LdtkSpawnPoint {
    fn default() -> (p: Self)
        ensures
            p.identifier@ == Seq::<char>::empty(),
            p.position == WorldPos::spec_zero(),
            p.level_identifier@ == Seq::<char>::empty(),
            p.layer_identifier@ == Seq::<char>::empty(),
            p.tags@.len() == 0,
    {
        LdtkSpawnPoint {
            identifier: String::new(),
            position: WorldPos::zero(),
            level_identifier: String::new(),
            layer_identifier: String::new(),
            tags: Vec::new(),
        }
    }
}

/// Metadata about one level.
#[derive(Debug)]
pub struct LdtkLevelInfo {
    /// Instance-unique identifier of this level.
    pub iid: String,
    /// Numeric LDtk UID of this level.
    pub uid: i32,
    /// Human-readable identifier of this level.
    pub identifier: String,
    /// Identifier of the world this level belongs to.
    pub world_identifier: String,
    /// Path of the external `.ldtkl` file, if the level is saved separately.
    pub external_path: Option<String>,
    /// Width and height in pixels.
    pub size: IVec2,
    /// Top-left position in LDtk world pixels (y-down).
    pub world_position: IVec2,
    /// Adjacent levels.
    pub neighbors: Vec<LdtkNeighbor>,
    /// Spawn points of this level.
    pub spawn_points: Vec<LdtkSpawnPoint>,
    /// Tile metadata of every tile instance in this level.
    pub tiles: Vec<LdtkTileMetadata>,
    /// Entity instances of this level.
    pub entities: Vec<LdtkImportedEntity>,
    /// Custom field values of this level.
    pub fields: LdtkFieldMap,
}

impl Default for LdtkLevelInfo {
    fn default() -> (l: Self)
        ensures
            l.iid@ == Seq::<char>::empty(),
            l.uid == 0,
            l.identifier@ == Seq::<char>::empty(),
            l.world_identifier@ == Seq::<char>::empty(),
            l.external_path is None,
            l.size == IVec2::spec_zero(),
            l.world_position == IVec2::spec_zero(),
            l.neighbors@.len() == 0,
            l.spawn_points@.len() == 0,
            l.tiles@.len() == 0,
            l.entities@.len() == 0,
            l.fields@ == Map::<Seq<char>, LdtkFieldValue>::empty(),
    {
        LdtkLevelInfo {
            iid: String::new(),
            uid: 0,
            identifier: String::new(),
            world_identifier: String::new(),
            external_path: None,
            size: IVec2::zero(),
            world_position: IVec2::zero(),
            neighbors: Vec::new(),
            spawn_points: Vec::new(),
            tiles: Vec::new(),
            entities: Vec::new(),
            fields: KeyedMap::new(),
        }
    }
}

/// Metadata about one layer instance.
#[derive(Debug)]
pub struct LdtkLayerInfo {
    /// Instance-unique IID of this layer.
    pub iid: String,
    /// Identifier of the layer definition.
    pub identifier: String,
    /// Identifier of the level that contains this layer.
    pub level_identifier: String,
    /// Kind of layer.
    pub layer_type: LdtkLayerType,
    /// Size of each cell in pixels.
    pub grid_size: i32,
    /// Grid dimensions in cells.
    pub grid_size_cells: IVec2,
    /// UID of the tileset used by this layer, if any.
    pub tileset_uid: Option<i32>,
    /// Path of the tileset image, if any.
    pub tileset_rel_path: Option<String>,
    /// Layer opacity (bit pattern of a value in `0.0..=1.0`).
    pub opacity: ScalarBits,
    /// Visible in the editor.
    pub visible: bool,
}

impl Default for LdtkLayerInfo {
    fn default() -> (l: Self)
        ensures
            l.iid@ == Seq::<char>::empty(),
            l.identifier@ == Seq::<char>::empty(),
            l.level_identifier@ == Seq::<char>::empty(),
            l.layer_type == LdtkLayerType::Unknown,
            l.grid_size == 0,
            l.grid_size_cells == IVec2::spec_zero(),
            l.tileset_uid is None,
            l.tileset_rel_path is None,
            l.opacity.bits == 0,
            !l.visible,
    {
        LdtkLayerInfo {
            iid: String::new(),
            identifier: String::new(),
            level_identifier: String::new(),
            layer_type: LdtkLayerType::Unknown,
            grid_size: 0,
            grid_size_cells: IVec2::zero(),
            tileset_uid: None,
            tileset_rel_path: None,
            opacity: ScalarBits { bits: 0 },
            visible: false,
        }
    }
}

/// Metadata about a tileset definition.
#[derive(Debug)]
pub struct LdtkTilesetInfo {
    /// Numeric UID of this tileset.
    pub uid: i32,
    /// Identifier of this tileset.
    pub identifier: String,
    /// Path of the tileset image; `None` for internal tilesets.
    pub rel_path: Option<String>,
    /// Size of each (square) tile in pixels.
    pub tile_grid_size: i32,
    /// Dimensions in tiles (columns × rows).
    pub grid_size_cells: IVec2,
    /// Pixel dimensions of the image.
    pub image_size: IVec2,
    /// Pixel gap between tiles.
    pub spacing: i32,
    /// Pixel border around the image edge.
    pub padding: i32,
    /// Tags of the whole tileset.
    pub tags: Vec<String>,
    /// Per-tile tags, by tile id.
    pub tile_tags: KeyedMap<i32, Vec<String>>,
    /// Per-tile custom data, by tile id.
    pub custom_data: KeyedMap<i32, String>,
}

impl Default for LdtkTilesetInfo {
    fn default() -> (t: Self)
        ensures
            t.uid == 0,
            t.identifier@ == Seq::<char>::empty(),
            t.rel_path is None,
            t.tile_grid_size == 0,
            t.grid_size_cells == IVec2::spec_zero(),
            t.image_size == IVec2::spec_zero(),
            t.spacing == 0,
            t.padding == 0,
            t.tags@.len() == 0,
            t.tile_tags@ == Map::<i32, Vec<String>>::empty(),
            t.custom_data@ == Map::<i32, String>::empty(),
    {
        LdtkTilesetInfo {
            uid: 0,
            identifier: String::new(),
            rel_path: None,
            tile_grid_size: 0,
            grid_size_cells: IVec2::zero(),
            image_size: IVec2::zero(),
            spacing: 0,
            padding: 0,
            tags: Vec::new(),
            tile_tags: KeyedMap::new(),
            custom_data: KeyedMap::new(),
        }
    }
}

/// The in-memory catalog of everything read from the world JSON.
#[derive(Debug)]
pub struct LdtkMapCatalog {
    /// Worlds by identifier.
    pub worlds: KeyedMap<String, LdtkWorldInfo>,
    /// Levels by identifier.
    pub levels: KeyedMap<String, LdtkLevelInfo>,
    /// Level identifier by level IID; kept in sync by `insert_level_info`.
    pub levels_by_iid: KeyedMap<String, String>,
    /// Level identifier by level UID; kept in sync by `insert_level_info`.
    pub levels_by_uid: KeyedMap<i32, String>,
    /// Layer instances by IID.
    pub layers: KeyedMap<String, LdtkLayerInfo>,
    /// Tilesets by UID.
    pub tilesets: KeyedMap<i32, LdtkTilesetInfo>,
    /// Tile animations by tile.
    pub tile_animations: KeyedMap<LdtkTileKey, LdtkTileAnimation>,
    /// Level identifier and position in that level's entity list, by entity
    /// IID; kept in sync by `insert_level_info`.
    pub entities_by_iid: KeyedMap<String, (String, usize)>,
}

/// The entity index after recording the entities of level `level`.
pub open spec fn index_entities(
    m: Map<Seq<char>, (String, usize)>,
    entities: Seq<LdtkImportedEntity>,
    level: String,
) -> Map<Seq<char>, (String, usize)>
    decreases entities.len(),
{
    if entities.len() == 0 {
        m
    } else {
        index_entities(m, entities.drop_last(), level).insert(
            entities.last().entity_iid@,
            (level, (entities.len() - 1) as usize),
        )
    }
}

/// The level named `id` by identifier, or else by IID.
pub open spec fn find_level(c: LdtkMapCatalog, id: Seq<char>) -> Option<LdtkLevelInfo> {
    if c.levels@.contains_key(id) {
        Some(c.levels@[id])
    } else if c.levels_by_iid@.contains_key(id) && c.levels@.contains_key(
        c.levels_by_iid@[id]@,
    ) {
        Some(c.levels@[c.levels_by_iid@[id]@])
    } else {
        None
    }
}

/// The level with UID `uid`.
pub open spec fn find_level_by_uid(c: LdtkMapCatalog, uid: i32) -> Option<LdtkLevelInfo> {
    if c.levels_by_uid@.contains_key(uid) && c.levels@.contains_key(c.levels_by_uid@[uid]@) {
        Some(c.levels@[c.levels_by_uid@[uid]@])
    } else {
        None
    }
}

/// The entity snapshot with IID `iid`, through the entity index; a stale
/// index entry finds nothing.
pub open spec fn find_entity(c: LdtkMapCatalog, iid: Seq<char>) -> Option<LdtkImportedEntity> {
    if c.entities_by_iid@.contains_key(iid) {
        let (level, index) = c.entities_by_iid@[iid];
        if c.levels@.contains_key(level@) && index < c.levels@[level@].entities@.len()
            && c.levels@[level@].entities@[index as int].entity_iid@ == iid {
            Some(c.levels@[level@].entities@[index as int])
        } else {
            None
        }
    } else {
        None
    }
}

impl Default for LdtkMapCatalog {
    fn default() -> (c: Self)
        ensures
            c.is_blank(),
    {
        LdtkMapCatalog::new()
    }
}

impl LdtkMapCatalog {
    /// Every map of the catalog is empty.
    pub open spec fn is_blank(self) -> bool {
        &&& self.worlds@ == Map::<Seq<char>, LdtkWorldInfo>::empty()
        &&& self.levels@ == Map::<Seq<char>, LdtkLevelInfo>::empty()
        &&& self.levels_by_iid@ == Map::<Seq<char>, String>::empty()
        &&& self.levels_by_uid@ == Map::<i32, String>::empty()
        &&& self.layers@ == Map::<Seq<char>, LdtkLayerInfo>::empty()
        &&& self.tilesets@ == Map::<i32, LdtkTilesetInfo>::empty()
        &&& self.tile_animations@ == Map::<LdtkTileKey, LdtkTileAnimation>::empty()
        &&& self.entities_by_iid@ == Map::<Seq<char>, (String, usize)>::empty()
    }

    /// An empty catalog.
    pub fn new() -> (c: Self)
        ensures
            c.is_blank(),
    {
        LdtkMapCatalog {
            worlds: KeyedMap::new(),
            levels: KeyedMap::new(),
            levels_by_iid: KeyedMap::new(),
            levels_by_uid: KeyedMap::new(),
            layers: KeyedMap::new(),
            tilesets: KeyedMap::new(),
            tile_animations: KeyedMap::new(),
            entities_by_iid: KeyedMap::new(),
        }
    }

    /// `true` when neither worlds nor levels have been cataloged.
    pub fn is_empty(&self) -> (b: bool)
        ensures
            b == (self.worlds@.len() == 0 && self.levels@.len() == 0),
    {
        self.worlds.len() == 0 && self.levels.len() == 0
    }

    /// Inserts a level while keeping the IID, UID and entity indexes in sync.
    pub fn insert_level_info(&mut self, info: LdtkLevelInfo)
        ensures
            final(self).levels@ == old(self).levels@.insert(info.identifier@, info),
            final(self).levels_by_iid@ == old(self).levels_by_iid@.insert(
                info.iid@,
                info.identifier,
            ),
            final(self).levels_by_uid@ == old(self).levels_by_uid@.insert(info.uid, info.identifier),
            final(self).entities_by_iid@ == index_entities(
                old(self).entities_by_iid@,
                info.entities@,
                info.identifier,
            ),
            final(self).worlds == old(self).worlds,
            final(self).layers == old(self).layers,
            final(self).tilesets == old(self).tilesets,
            final(self).tile_animations == old(self).tile_animations,
    {
        self.levels_by_iid.insert(info.iid.clone(), info.identifier.clone());
        self.levels_by_uid.insert(info.uid, info.identifier.clone());
        let mut i: usize = 0;
        while i < info.entities.len()
            invariant
                i <= info.entities@.len(),
                self.entities_by_iid@ == index_entities(
                    old(self).entities_by_iid@,
                    info.entities@.take(i as int),
                    info.identifier,
                ),
                self.levels == old(self).levels,
                self.worlds == old(self).worlds,
                self.layers == old(self).layers,
                self.tilesets == old(self).tilesets,
                self.tile_animations == old(self).tile_animations,
                self.levels_by_iid@ == old(self).levels_by_iid@.insert(info.iid@, info.identifier),
                self.levels_by_uid@ == old(self).levels_by_uid@.insert(info.uid, info.identifier),
            decreases info.entities@.len() - i,
        {
            proof {
                assert(info.entities@.take(i + 1).drop_last() =~= info.entities@.take(i as int));
            }
            self.entities_by_iid.insert(
                info.entities[i].entity_iid.clone(),
                (info.identifier.clone(), i),
            );
            i = i + 1;
        }
        proof {
            assert(info.entities@.take(info.entities@.len() as int) =~= info.entities@);
        }
        let key = info.identifier.clone();
        self.levels.insert(key, info);
    }

    /// Removes all cataloged data, including the indexes.
    pub fn clear(&mut self)
        ensures
            final(self).is_blank(),
    {
        self.worlds.clear();
        self.levels.clear();
        self.levels_by_iid.clear();
        self.levels_by_uid.clear();
        self.layers.clear();
        self.tilesets.clear();
        self.tile_animations.clear();
        self.entities_by_iid.clear();
    }

    /// Resolves a level IID to the level identifier.
    pub fn identifier_for_iid(&self, iid: &str) -> (r: Option<&str>)
        ensures
            match r {
                Some(id) => self.levels_by_iid@.contains_key(iid@) && id@
                    == self.levels_by_iid@[iid@]@,
                None => !self.levels_by_iid@.contains_key(iid@),
            },
    {
        let key = iid.to_owned();
        match self.levels_by_iid.get(&key) {
            Some(id) => Some(id.as_str()),
            None => None,
        }
    }

    /// Looks up a level by its identifier, or else by its IID.
    pub fn level_by_id_or_iid(&self, id: &str) -> (r: Option<&LdtkLevelInfo>)
        ensures
            match r {
                Some(l) => find_level(*self, id@) == Some(*l),
                None => find_level(*self, id@) is None,
            },
    {
        let key = id.to_owned();
        if let Some(level) = self.levels.get(&key) {
            return Some(level);
        }
        match self.levels_by_iid.get(&key) {
            Some(identifier) => self.levels.get(identifier),
            None => None,
        }
    }

    /// Looks up a level by its numeric UID.
    pub fn level_by_uid(&self, uid: i32) -> (r: Option<&LdtkLevelInfo>)
        ensures
            match r {
                Some(l) => find_level_by_uid(*self, uid) == Some(*l),
                None => find_level_by_uid(*self, uid) is None,
            },
    {
        match self.levels_by_uid.get(&uid) {
            Some(identifier) => self.levels.get(identifier),
            None => None,
        }
    }

    /// Looks up an entity snapshot by its IID through the entity index.
    pub fn entity_snapshot_by_iid(&self, iid: &str) -> (r: Option<&LdtkImportedEntity>)
        ensures
            match r {
                Some(e) => find_entity(*self, iid@) == Some(*e),
                None => find_entity(*self, iid@) is None,
            },
    {
        let key = iid.to_owned();
        let (level_identifier, index) = match self.entities_by_iid.get(&key) {
            Some(entry) => (&entry.0, entry.1),
            None => return None,
        };
        let level = match self.levels.get(level_identifier) {
            Some(level) => level,
            None => return None,
        };
        if index >= level.entities.len() {
            return None;
        }
        let snapshot = &level.entities[index];
        if snapshot.entity_iid == key {
            Some(snapshot)
        } else {
            None
        }
    }
}

/// The world-space centre of a collision cell, in half pixels: the level's
/// y-up origin is `(world_x, -world_y - height)` and the cell centre sits at
/// `origin + ((gx + 0.5) * grid, (gy + 0.5) * grid)`.
pub open spec fn cell_center(level: LdtkLevelInfo, grid: int, cell: LdtkCollisionCell) -> HalfPixelPos {
    HalfPixelPos {
        x2: (2 * level.world_position.x + (2 * cell.grid_position.x + 1) * grid) as i128,
        y2: (-2 * level.world_position.y - 2 * level.size.y + (2 * cell.grid_position.y + 1)
            * grid) as i128,
    }
}

/// All collision layers and cells captured at runtime.
#[derive(Debug)]
pub struct LdtkCollisionCatalog {
    /// Per-layer summaries, keyed by `"<level identifier>:<layer identifier>"`.
    pub layers: KeyedMap<String, LdtkCollisionLayerInfo>,
    /// Every captured collision cell.
    pub cells: Vec<LdtkCollisionCell>,
}

impl Default for LdtkCollisionCatalog {
    fn default() -> (c: Self)
        ensures
            c.layers@ == Map::<Seq<char>, LdtkCollisionLayerInfo>::empty(),
            c.cells@.len() == 0,
    {
        LdtkCollisionCatalog { layers: KeyedMap::new(), cells: Vec::new() }
    }
}

impl LdtkCollisionCatalog {
    /// World-space centre of a collision cell in the engine's y-up space,
    /// given in half pixels. `None` when the cell's level or layer is not in
    /// `map`, or the layer's grid size is not positive.
    pub fn cell_world_center(&self, cell: &LdtkCollisionCell, map: &LdtkMapCatalog) -> (r: Option<
        HalfPixelPos,
    >)
        ensures
            r == (match find_level(*map, cell.level_identifier@) {
                Some(level) => if map.layers@.contains_key(cell.layer_iid@)
                    && map.layers@[cell.layer_iid@].grid_size > 0 {
                    Some(cell_center(level, map.layers@[cell.layer_iid@].grid_size as int, *cell))
                } else {
                    None
                },
                None => None,
            }),
    {
        let level = match map.level_by_id_or_iid(cell.level_identifier.as_str()) {
            Some(level) => level,
            None => return None,
        };
        let layer = match map.layers.get(&cell.layer_iid) {
            Some(layer) => layer,
            None => return None,
        };
        if layer.grid_size <= 0 {
            return None;
        }
        let grid = layer.grid_size as i128;
        let wx: i128 = level.world_position.x as i128;
        let wy: i128 = level.world_position.y as i128;
        let h: i128 = level.size.y as i128;
        let ox: i128 = 2 * wx;
        let oy: i128 = 0 - 2 * wy - 2 * h;
        let cx = 2 * (cell.grid_position.x as i128) + 1;
        let cy = 2 * (cell.grid_position.y as i128) + 1;
        proof {
            assert(-0x1_0000_0000 <= cx <= 0x1_0000_0000);
            assert(-0x1_0000_0000 <= cy <= 0x1_0000_0000);
            assert(0 < grid <= 0x8000_0000);
            assert(-0x1_0000_0000 * 0x8000_0000 <= cx * grid <= 0x1_0000_0000 * 0x8000_0000)
                by (nonlinear_arith)
                requires
                    -0x1_0000_0000 <= cx <= 0x1_0000_0000,
                    0 < grid <= 0x8000_0000,
            ;
            assert(-0x1_0000_0000 * 0x8000_0000 <= cy * grid <= 0x1_0000_0000 * 0x8000_0000)
                by (nonlinear_arith)
                requires
                    -0x1_0000_0000 <= cy <= 0x1_0000_0000,
                    0 < grid <= 0x8000_0000,
            ;
        }
        Some(HalfPixelPos { x2: ox + cx * grid, y2: oy + cy * grid })
    }
}

/// Engine entity handles and snapshots of the imported LDtk entities.
#[derive(Debug)]
pub struct LdtkEntityCatalog {
    /// Engine entity handle (its `to_bits` value) by entity IID.
    pub by_iid: KeyedMap<String, u64>,
    /// Snapshots by entity IID.
    pub snapshots: KeyedMap<String, LdtkImportedEntity>,
}

impl Default for LdtkEntityCatalog {
    fn default() -> (c: Self)
        ensures
            c.by_iid@ == Map::<Seq<char>, u64>::empty(),
            c.snapshots@ == Map::<Seq<char>, LdtkImportedEntity>::empty(),
    {
        LdtkEntityCatalog { by_iid: KeyedMap::new(), snapshots: KeyedMap::new() }
    }
}

/// The entity index points the last entity of a level with a given IID at
/// that entity's position.
pub proof fn lemma_index_entities_last(
    m: Map<Seq<char>, (String, usize)>,
    entities: Seq<LdtkImportedEntity>,
    level: String,
    i: int,
)
    requires
        0 <= i < entities.len(),
        entities.len() <= usize::MAX,
        forall|j: int| i < j < entities.len() ==> (#[trigger] entities[j]).entity_iid@
            != entities[i].entity_iid@,
    ensures
        index_entities(m, entities, level).contains_key(entities[i].entity_iid@),
        index_entities(m, entities, level)[entities[i].entity_iid@] == (level, i as usize),
    decreases entities.len(),
{
    if i < entities.len() - 1 {
        let t = entities.drop_last();
        assert forall|j: int| i < j < t.len() implies (#[trigger] t[j]).entity_iid@
            != t[i].entity_iid@ by {
            assert(t[j] == entities[j]);
        }
        lemma_index_entities_last(m, t, level, i);
        assert(entities[entities.len() - 1].entity_iid@ != entities[i].entity_iid@);
    }
}

/// Inserting a level keeps every index in sync: the level is found by its
/// identifier, by its UID, by its IID (unless another level is named by that
/// IID), and each of its entities is found by IID (for the last entity that
/// carries a given IID).
pub proof fn lemma_inserted_level_is_found(
    before: LdtkMapCatalog,
    after: LdtkMapCatalog,
    info: LdtkLevelInfo,
)
    requires
        after.levels@ == before.levels@.insert(info.identifier@, info),
        after.levels_by_iid@ == before.levels_by_iid@.insert(info.iid@, info.identifier),
        after.levels_by_uid@ == before.levels_by_uid@.insert(info.uid, info.identifier),
        after.entities_by_iid@ == index_entities(
            before.entities_by_iid@,
            info.entities@,
            info.identifier,
        ),
        info.entities@.len() <= usize::MAX,
    ensures
        find_level(after, info.identifier@) == Some(info),
        find_level_by_uid(after, info.uid) == Some(info),
        !before.levels@.contains_key(info.iid@) ==> find_level(after, info.iid@) == Some(info),
        forall|i: int|
            0 <= i < info.entities@.len() && (forall|j: int|
                i < j < info.entities@.len() ==> (#[trigger] info.entities@[j]).entity_iid@
                    != info.entities@[i].entity_iid@) ==> find_entity(
                after,
                (#[trigger] info.entities@[i]).entity_iid@,
            ) == Some(info.entities@[i]),
{
    assert forall|i: int|
        0 <= i < info.entities@.len() && (forall|j: int|
            i < j < info.entities@.len() ==> (#[trigger] info.entities@[j]).entity_iid@
                != info.entities@[i].entity_iid@) implies find_entity(
        after,
        (#[trigger] info.entities@[i]).entity_iid@,
    ) == Some(info.entities@[i]) by {
        lemma_index_entities_last(before.entities_by_iid@, info.entities@, info.identifier, i);
    }
}

/// After `clear`, nothing is found.
pub proof fn lemma_cleared_catalog_finds_nothing(c: LdtkMapCatalog, id: Seq<char>, uid: i32)
    requires
        c.is_blank(),
    ensures
        find_level(c, id) is None,
        find_level_by_uid(c, uid) is None,
        find_entity(c, id) is None,
{
}

} // verus!
