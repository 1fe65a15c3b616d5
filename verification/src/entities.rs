//! Entity snapshots, spawn contexts and the small marker records attached to
//! spawned entities.

use vstd::prelude::*;

use crate::animation::LdtkTileAnimation;
use crate::fields::{LdtkFieldAccess, LdtkFieldMap, LdtkFieldValue};
use crate::geometry::{IVec2, ScalarBits, ScalarPair, WorldPos};
use crate::keyed_map::KeyedMap;

verus! {

/// Copies a list of strings.
pub fn clone_strings(v: &Vec<String>) -> (r: Vec<String>)
    ensures
        r@ == v@,
{
    let mut r: Vec<String> = Vec::new();
    let mut i: usize = 0;
    while i < v.len()
        invariant
            i <= v@.len(),
            r@ == v@.take(i as int),
        decreases v@.len() - i,
    {
        r.push(v[i].clone());
        i = i + 1;
        proof {
            assert(r@ =~= v@.take(i as int));
        }
    }
    proof {
        assert(v@.take(v@.len() as int) =~= v@);
    }
    r
}

/// Copies an optional string.
pub fn clone_opt_string(v: &Option<String>) -> (r: Option<String>)
    ensures
        r == *v,
{
    match v {
        Some(s) => Some(s.clone()),
        None => None,
    }
}

/// `a` and `b` hold the same animation.
pub open spec fn same_animation(a: LdtkTileAnimation, b: LdtkTileAnimation) -> bool {
    a.frames@ == b.frames@ && a.timing@ == b.timing@ && a.repeat == b.repeat
}

/// Copies an optional animation.
pub fn clone_opt_animation(v: &Option<LdtkTileAnimation>) -> (r: Option<LdtkTileAnimation>)
    ensures
        r is Some == v is Some,
        r is Some ==> same_animation(r->0, v->0),
{
    match v {
        Some(a) => Some(a.clone()),
        None => None,
    }
}

/// Metadata for a single tile instance placed in a level.
#[derive(Debug)]
pub struct LdtkTileMetadata {
    /// Identifier of the level that contains this tile.
    pub level_identifier: String,
    /// Identifier of the layer that contains this tile.
    pub layer_identifier: String,
    /// Instance IID of the layer that contains this tile.
    pub layer_iid: String,
    /// UID of the tileset this tile's graphic comes from.
    pub tileset_uid: Option<i32>,
    /// Identifier of the tileset this tile's graphic comes from.
    pub tileset_identifier: String,
    /// Index of this tile's graphic within its tileset.
    pub tile_id: i32,
    /// Top-left corner of the tile inside the layer, in pixels.
    pub layer_position: IVec2,
    /// Top-left corner of the tile's source rectangle in the tileset image.
    pub source_position: IVec2,
    /// Flipped horizontally.
    pub flip_x: bool,
    /// Flipped vertically.
    pub flip_y: bool,
    /// Opacity of this tile instance (bit pattern of a value in `0.0..=1.0`).
    pub alpha: ScalarBits,
    /// Custom data attached to this tile id in the tileset, if any.
    pub custom_data: Option<String>,
    /// Tags of this tile id in the tileset definition.
    pub tags: Vec<String>,
    /// Frame sequence for animated tiles.
    pub animation: Option<LdtkTileAnimation>,
}

impl LdtkTileMetadata {
    /// `self` and `other` describe the same tile.
    pub open spec fn same_as(self, other: LdtkTileMetadata) -> bool {
        &&& self.level_identifier == other.level_identifier
        &&& self.layer_identifier == other.layer_identifier
        &&& self.layer_iid == other.layer_iid
        &&& self.tileset_uid == other.tileset_uid
        &&& self.tileset_identifier == other.tileset_identifier
        &&& self.tile_id == other.tile_id
        &&& self.layer_position == other.layer_position
        &&& self.source_position == other.source_position
        &&& self.flip_x == other.flip_x
        &&& self.flip_y == other.flip_y
        &&& self.alpha == other.alpha
        &&& self.custom_data == other.custom_data
        &&& self.tags@ == other.tags@
        &&& self.animation is Some == other.animation is Some
        &&& self.animation is Some ==> same_animation(self.animation->0, other.animation->0)
    }
}

impl Clone for LdtkTileMetadata {
    fn clone(&self) -> (r: Self)
        ensures
            r.same_as(*self),
    {
        LdtkTileMetadata {
            level_identifier: self.level_identifier.clone(),
            layer_identifier: self.layer_identifier.clone(),
            layer_iid: self.layer_iid.clone(),
            tileset_uid: self.tileset_uid,
            tileset_identifier: self.tileset_identifier.clone(),
            tile_id: self.tile_id,
            layer_position: self.layer_position,
            source_position: self.source_position,
            flip_x: self.flip_x,
            flip_y: self.flip_y,
            alpha: self.alpha,
            custom_data: clone_opt_string(&self.custom_data),
            tags: clone_strings(&self.tags),
            animation: clone_opt_animation(&self.animation),
        }
    }
}

impl Default for LdtkTileMetadata {
    fn default() -> (t: Self)
        ensures
            t.level_identifier@ == Seq::<char>::empty(),
            t.layer_identifier@ == Seq::<char>::empty(),
            t.layer_iid@ == Seq::<char>::empty(),
            t.tileset_uid is None,
            t.tileset_identifier@ == Seq::<char>::empty(),
            t.tile_id == 0,
            t.layer_position == IVec2::spec_zero(),
            t.source_position == IVec2::spec_zero(),
            !t.flip_x,
            !t.flip_y,
            t.alpha.bits == 0,
            t.custom_data is None,
            t.tags@.len() == 0,
            t.animation is None,
    {
        LdtkTileMetadata {
            level_identifier: String::new(),
            layer_identifier: String::new(),
            layer_iid: String::new(),
            tileset_uid: None,
            tileset_identifier: String::new(),
            tile_id: 0,
            layer_position: IVec2::zero(),
            source_position: IVec2::zero(),
            flip_x: false,
            flip_y: false,
            alpha: ScalarBits { bits: 0 },
            custom_data: None,
            tags: Vec::new(),
            animation: None,
        }
    }
}

/// Copies an optional tile.
pub fn clone_opt_tile(v: &Option<LdtkTileMetadata>) -> (r: Option<LdtkTileMetadata>)
    ensures
        r is Some == v is Some,
        r is Some ==> r->0.same_as(v->0),
{
    match v {
        Some(t) => Some(t.clone()),
        None => None,
    }
}

/// `a` and `b` hold the same field values in the same order.
pub open spec fn same_fields(a: LdtkFieldMap, b: LdtkFieldMap) -> bool {
    &&& a.pairs().len() == b.pairs().len()
    &&& forall|i: int|
        0 <= i < a.pairs().len() ==> (#[trigger] a.pairs()[i]).0@ == b.pairs()[i].0@ && a.pairs()[i].1.same_as(
            b.pairs()[i].1,
        )
}

/// Copies a field map.
pub fn clone_fields(m: &LdtkFieldMap) -> (r: LdtkFieldMap)
    ensures
        same_fields(r, *m),
{
    let r = m.clone();
    proof {
        assert forall|i: int| 0 <= i < r.pairs().len() implies (#[trigger] r.pairs()[i]).0@
            == m.pairs()[i].0@ && r.pairs()[i].1.same_as(m.pairs()[i].1) by {
            lemma_same_as_reflexive(m.pairs()[i].1);
        }
    }
    r
}

/// Every field value is the same as itself.
pub proof fn lemma_same_as_reflexive(v: LdtkFieldValue)
    ensures
        v.same_as(v),
    decreases v,
{
    if let LdtkFieldValue::Array(items) = v {
        assert forall|i: int| 0 <= i < items@.len() implies (#[trigger] items@[i]).same_as(
            items@[i],
        ) by {
            assert(decreases_to!(v => items));
            assert(decreases_to!(items => items@));
            lemma_same_as_reflexive(items@[i]);
        }
    }
}

/// Snapshot of an LDtk entity instance.
#[derive(Debug)]
pub struct LdtkImportedEntity {
    /// Instance-unique IID of this entity.
    pub entity_iid: String,
    /// Identifier of the entity definition (e.g. `"Chest"`).
    pub entity_identifier: String,
    /// Identifier of the world this entity belongs to, if known.
    pub world_identifier: Option<String>,
    /// Identifier of the level this entity lives in, if known.
    pub level_identifier: Option<String>,
    /// Identifier of the layer this entity lives on, if known.
    pub layer_identifier: Option<String>,
    /// World-space position of the entity's pivot point in pixels.
    pub position: WorldPos,
    /// Column/row position in the layer grid.
    pub grid_position: IVec2,
    /// Pixel dimensions of this entity instance.
    pub size: IVec2,
    /// Normalised pivot point, `(0,0)` top-left to `(1,1)` bottom-right.
    pub pivot: ScalarPair,
    /// Tags defined on this entity instance.
    pub tags: Vec<String>,
    /// Visual tile assigned to this entity, if any.
    pub tile: Option<LdtkTileMetadata>,
    /// Custom field values defined on this entity instance.
    pub field_values: LdtkFieldMap,
}

impl LdtkImportedEntity {
    /// `self` and `other` describe the same entity.
    pub open spec fn same_as(self, other: LdtkImportedEntity) -> bool {
        &&& self.entity_iid == other.entity_iid
        &&& self.entity_identifier == other.entity_identifier
        &&& self.world_identifier == other.world_identifier
        &&& self.level_identifier == other.level_identifier
        &&& self.layer_identifier == other.layer_identifier
        &&& self.position == other.position
        &&& self.grid_position == other.grid_position
        &&& self.size == other.size
        &&& self.pivot == other.pivot
        &&& self.tags@ == other.tags@
        &&& self.tile is Some == other.tile is Some
        &&& self.tile is Some ==> self.tile->0.same_as(other.tile->0)
        &&& same_fields(self.field_values, other.field_values)
    }
}

impl Clone for LdtkImportedEntity {
    fn clone(&self) -> (r: Self)
        ensures
            r.same_as(*self),
    {
        LdtkImportedEntity {
            entity_iid: self.entity_iid.clone(),
            entity_identifier: self.entity_identifier.clone(),
            world_identifier: clone_opt_string(&self.world_identifier),
            level_identifier: clone_opt_string(&self.level_identifier),
            layer_identifier: clone_opt_string(&self.layer_identifier),
            position: self.position,
            grid_position: self.grid_position,
            size: self.size,
            pivot: self.pivot,
            tags: clone_strings(&self.tags),
            tile: clone_opt_tile(&self.tile),
            field_values: clone_fields(&self.field_values),
        }
    }
}

impl Default for LdtkImportedEntity {
    fn default() -> (e: Self)
        ensures
            e.entity_iid@ == Seq::<char>::empty(),
            e.entity_identifier@ == Seq::<char>::empty(),
            e.world_identifier is None,
            e.level_identifier is None,
            e.layer_identifier is None,
            e.position == WorldPos::spec_zero(),
            e.grid_position == IVec2::spec_zero(),
            e.size == IVec2::spec_zero(),
            e.pivot == ScalarPair::spec_zero(),
            e.tags@.len() == 0,
            e.tile is None,
            e.field_values@ == Map::<Seq<char>, LdtkFieldValue>::empty(),
    {
        LdtkImportedEntity {
            entity_iid: String::new(),
            entity_identifier: String::new(),
            world_identifier: None,
            level_identifier: None,
            layer_identifier: None,
            position: WorldPos::zero(),
            grid_position: IVec2::zero(),
            size: IVec2::zero(),
            pivot: ScalarPair::default(),
            tags: Vec::new(),
            tile: None,
            field_values: KeyedMap::new(),
        }
    }
}

impl LdtkFieldAccess for LdtkImportedEntity {
    open spec fn field_map(&self) -> Map<Seq<char>, LdtkFieldValue> {
        self.field_values@
    }

    fn field_values(&self) -> (m: &LdtkFieldMap) {
        &self.field_values
    }
}

/// All data needed to spawn a single LDtk entity instance, handed to
/// registered spawners.
#[derive(Debug)]
pub struct LdtkEntitySpawnContext {
    /// Instance-unique IID of this entity.
    pub entity_iid: String,
    /// Identifier of the entity definition (e.g. `"Enemy"`).
    pub entity_identifier: String,
    /// Identifier of the world this entity belongs to, if known.
    pub world_identifier: Option<String>,
    /// Identifier of the level this entity lives in, if known.
    pub level_identifier: Option<String>,
    /// Identifier of the layer this entity lives on, if known.
    pub layer_identifier: Option<String>,
    /// World-space position of the entity's pivot point in pixels.
    pub position: WorldPos,
    /// Column/row position in the layer grid.
    pub grid_position: IVec2,
    /// Pixel dimensions of this entity instance.
    pub size: IVec2,
    /// Normalised pivot point.
    pub pivot: ScalarPair,
    /// Tags defined on this entity instance.
    pub tags: Vec<String>,
    /// Visual tile assigned to this entity, if any.
    pub tile: Option<LdtkTileMetadata>,
    /// Custom field values defined on this entity instance.
    pub field_values: LdtkFieldMap,
}

impl Default for LdtkEntitySpawnContext {
    fn default() -> (c: Self)
        ensures
            c.entity_iid@ == Seq::<char>::empty(),
            c.entity_identifier@ == Seq::<char>::empty(),
            c.world_identifier is None,
            c.level_identifier is None,
            c.layer_identifier is None,
            c.position == WorldPos::spec_zero(),
            c.grid_position == IVec2::spec_zero(),
            c.size == IVec2::spec_zero(),
            c.pivot == ScalarPair::spec_zero(),
            c.tags@.len() == 0,
            c.tile is None,
            c.field_values@ == Map::<Seq<char>, LdtkFieldValue>::empty(),
    {
        LdtkEntitySpawnContext {
            entity_iid: String::new(),
            entity_identifier: String::new(),
            world_identifier: None,
            level_identifier: None,
            layer_identifier: None,
            position: WorldPos::zero(),
            grid_position: IVec2::zero(),
            size: IVec2::zero(),
            pivot: ScalarPair::default(),
            tags: Vec::new(),
            tile: None,
            field_values: KeyedMap::new(),
        }
    }
}

impl LdtkFieldAccess for LdtkEntitySpawnContext {
    open spec fn field_map(&self) -> Map<Seq<char>, LdtkFieldValue> {
        self.field_values@
    }

    fn field_values(&self) -> (m: &LdtkFieldMap) {
        &self.field_values
    }
}

impl LdtkEntitySpawnContext {
    /// The spawn context of an imported entity: every field copied.
    pub fn from_imported(imported: &LdtkImportedEntity) -> (c: Self)
        ensures
            c.entity_iid == imported.entity_iid,
            c.entity_identifier == imported.entity_identifier,
            c.world_identifier == imported.world_identifier,
            c.level_identifier == imported.level_identifier,
            c.layer_identifier == imported.layer_identifier,
            c.position == imported.position,
            c.grid_position == imported.grid_position,
            c.size == imported.size,
            c.pivot == imported.pivot,
            c.tags@ == imported.tags@,
            c.tile is Some == imported.tile is Some,
            c.tile is Some ==> c.tile->0.same_as(imported.tile->0),
            same_fields(c.field_values, imported.field_values),
    {
        LdtkEntitySpawnContext {
            entity_iid: imported.entity_iid.clone(),
            entity_identifier: imported.entity_identifier.clone(),
            world_identifier: clone_opt_string(&imported.world_identifier),
            level_identifier: clone_opt_string(&imported.level_identifier),
            layer_identifier: clone_opt_string(&imported.layer_identifier),
            position: imported.position,
            grid_position: imported.grid_position,
            size: imported.size,
            pivot: imported.pivot,
            tags: clone_strings(&imported.tags),
            tile: clone_opt_tile(&imported.tile),
            field_values: clone_fields(&imported.field_values),
        }
    }
}

/// Marks an entity as originating from an LDtk entity instance.
#[derive(Debug, PartialEq, Eq)]
pub struct LdtkEntityMarker {
    /// Identifier of the entity definition (e.g. `"Boss"`).
    pub definition_identifier: String,
    /// Identifier of the level the entity was spawned from, if known.
    pub level_identifier: Option<String>,
    /// Identifier of the world the entity was spawned from, if known.
    pub world_identifier: Option<String>,
}

impl LdtkEntityMarker {
    /// The marker for an imported entity.
    pub fn for_entity(entity: &LdtkImportedEntity) -> (m: Self)
        ensures
            m.definition_identifier == entity.entity_identifier,
            m.level_identifier == entity.level_identifier,
            m.world_identifier == entity.world_identifier,
    {
        LdtkEntityMarker {
            definition_identifier: entity.entity_identifier.clone(),
            level_identifier: clone_opt_string(&entity.level_identifier),
            world_identifier: clone_opt_string(&entity.world_identifier),
        }
    }
}

/// Collision role of a spawned tile or entity.
#[derive(Debug, Clone, Copy, PartialEq, Eq, Structural)]
pub struct LdtkCollider {
    /// Blocks movement.
    pub solid: bool,
    /// Trigger-only, non-blocking.
    pub sensor: bool,
}

/// Collision data attached to a tile entity.
#[derive(Debug, PartialEq, Eq)]
pub struct LdtkTileCollision {
    /// Identifier of the level that owns this tile.
    pub level_identifier: String,
    /// Index of the tile in its tileset.
    pub tile_id: i32,
    /// The tile is a solid collider.
    pub solid: bool,
}

} // verus!
