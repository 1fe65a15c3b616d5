//! Runtime capture: IntGrid cells and layers into the collision catalog,
//! spawned entity instances into the entity catalog, and the clean-up when
//! a level is despawned.

use vstd::prelude::*;

use crate::builder::{fields_from, fields_match};
use crate::catalog::{
    find_entity, find_level, find_level_by_uid, LdtkCollisionCatalog, LdtkCollisionCell,
    LdtkCollisionLayerInfo, LdtkEntityCatalog, LdtkLayerType, LdtkMapCatalog,
};
use crate::config::{default_solid, first_matching_rule, resolve_collision_rule, LdtkConfig};
use crate::entities::{
    clone_strings, same_fields, LdtkCollider, LdtkEntityMarker, LdtkEntitySpawnContext,
    LdtkImportedEntity,
};
use crate::geometry::{IVec2, ScalarPair, WorldPos};
use crate::keyed_map::{has_key, KeyedMap};
use crate::project::LdtkEntityInstanceData;
use crate::registry::{opt_view, resolved_key, LdtkEntityRegistry};
use crate::state::{LdtkLoadState, LdtkRuntimeState};
use crate::text::{join_with_colon, str_eq, to_owned_string, views};

verus! {

/// The parts of a layer's engine metadata that the capture reads.
#[derive(Debug)]
pub struct LdtkLayerMetadataData {
    /// Layer identifier.
    pub identifier: String,
    /// Layer instance IID.
    pub iid: String,
    /// Numeric UID of the owning level.
    pub level_id: i32,
    /// Kind of layer.
    pub layer_type: LdtkLayerType,
}

/// A newly spawned IntGrid cell: its value, its grid coordinates when known,
/// and the metadata of the layer above it in the object hierarchy, when
/// there is one.
#[derive(Debug)]
pub struct LdtkIntGridCellData {
    pub value: i32,
    pub grid: Option<IVec2>,
    pub layer: Option<LdtkLayerMetadataData>,
}

/// The level (identifier, IID) a layer belongs to: the level with the
/// layer's level UID, else the level the catalog records for the layer's
/// IID; empty when neither is known.
pub open spec fn level_reference(c: LdtkMapCatalog, level_uid: i32, layer_iid: Seq<char>) -> (
    Seq<char>,
    Seq<char>,
) {
    match find_level_by_uid(c, level_uid) {
        Some(l) => (l.identifier@, l.iid@),
        None => if c.layers@.contains_key(layer_iid) {
            match find_level(c, c.layers@[layer_iid].level_identifier@) {
                Some(l) => (l.identifier@, l.iid@),
                None => (Seq::empty(), Seq::empty()),
            }
        } else {
            (Seq::empty(), Seq::empty())
        },
    }
}

/// Resolves the level (identifier, IID) of a layer from its level UID, or
/// else from the catalog's record of the layer.
pub fn resolve_level_reference(catalog: &LdtkMapCatalog, level_uid: i32, layer_iid: &String) -> (r: (
    String,
    String,
))
    ensures
        (r.0@, r.1@) == level_reference(*catalog, level_uid, layer_iid@),
{
    if let Some(level) = catalog.level_by_uid(level_uid) {
        return (level.identifier.clone(), level.iid.clone());
    }
    if let Some(info) = catalog.layers.get(layer_iid) {
        if let Some(level) = catalog.level_by_id_or_iid(info.level_identifier.as_str()) {
            return (level.identifier.clone(), level.iid.clone());
        }
    }
    let empty = (String::new(), String::new());
    proof {
        assert(empty.0@ =~= Seq::<char>::empty());
        assert(empty.1@ =~= Seq::<char>::empty());
    }
    empty
}

/// Key of a collision layer summary: level identifier, a colon, layer
/// identifier.
pub open spec fn collision_key(level: Seq<char>, layer: Seq<char>) -> Seq<char> {
    level + seq![':'] + layer
}

/// Key of a collision layer summary.
pub fn layer_key(level_identifier: &str, layer_identifier: &str) -> (k: String)
    ensures
        k@ == collision_key(level_identifier@, layer_identifier@),
{
    join_with_colon(level_identifier, layer_identifier)
}

/// A collision layer summary as plain values: level identifier and IID,
/// layer identifier and IID, layer kind, solid, tile and sensor counts.
pub type CollisionLayerView = (Seq<char>, Seq<char>, Seq<char>, Seq<char>, LdtkLayerType, usize, usize, usize);

pub open spec fn collision_layer_view(i: LdtkCollisionLayerInfo) -> CollisionLayerView {
    (
        i.level_identifier@,
        i.level_iid@,
        i.layer_identifier@,
        i.layer_iid@,
        i.layer_type,
        i.solid_cells,
        i.tile_cells,
        i.sensor_cells,
    )
}

/// The collision layer summaries as plain values, by key.
pub open spec fn layer_views(m: Map<Seq<char>, LdtkCollisionLayerInfo>) -> Map<
    Seq<char>,
    CollisionLayerView,
> {
    m.map_values(|i: LdtkCollisionLayerInfo| collision_layer_view(i))
}

/// The summaries after a layer appears: a summary with zero counts is added
/// under the layer's key unless one exists.
pub open spec fn layer_registered(
    m: Map<Seq<char>, CollisionLayerView>,
    c: LdtkMapCatalog,
    meta: LdtkLayerMetadataData,
) -> Map<Seq<char>, CollisionLayerView> {
    let (level, level_iid) = level_reference(c, meta.level_id, meta.iid@);
    let key = collision_key(level, meta.identifier@);
    if m.contains_key(key) {
        m
    } else {
        m.insert(key, (level, level_iid, meta.identifier@, meta.iid@, meta.layer_type, 0, 0, 0))
    }
}

/// The summaries after the layers `metas` appear, in order.
pub open spec fn layers_registered(
    m: Map<Seq<char>, CollisionLayerView>,
    c: LdtkMapCatalog,
    metas: Seq<LdtkLayerMetadataData>,
) -> Map<Seq<char>, CollisionLayerView>
    decreases metas.len(),
{
    if metas.len() == 0 {
        m
    } else {
        layer_registered(layers_registered(m, c, metas.drop_last()), c, metas.last())
    }
}

/// Layer identifier of a cell: its layer's, or `IntGrid` without one.
pub open spec fn cell_layer_identifier(d: LdtkIntGridCellData) -> Seq<char> {
    match d.layer {
        Some(m) => m.identifier@,
        None => "IntGrid"@,
    }
}

/// Layer IID of a cell: its layer's, or empty without one.
pub open spec fn cell_layer_iid(d: LdtkIntGridCellData) -> Seq<char> {
    match d.layer {
        Some(m) => m.iid@,
        None => Seq::empty(),
    }
}

/// Level (identifier, IID) of a cell: its layer's, or empty without one.
pub open spec fn cell_level(c: LdtkMapCatalog, d: LdtkIntGridCellData) -> (Seq<char>, Seq<char>) {
    match d.layer {
        Some(m) => level_reference(c, m.level_id, m.iid@),
        None => (Seq::empty(), Seq::empty()),
    }
}

/// Collision behaviour (solid, sensor, tag) of IntGrid `value` on `layer`:
/// the first applicable rule, else solid by the solid values, no sensor,
/// no tag.
pub open spec fn cell_rule(config: LdtkConfig, layer: Seq<char>, value: i32) -> (
    bool,
    bool,
    Option<Seq<char>>,
) {
    match first_matching_rule(config.collision_rules@, layer, value) {
        Some(i) => (
            config.collision_rules@[i].solid,
            config.collision_rules@[i].sensor,
            opt_view(config.collision_rules@[i].tag),
        ),
        None => (default_solid(config.int_grid_solid_values@, value), false, None),
    }
}

/// `cell` is the collision cell recorded for the IntGrid cell `d`.
pub open spec fn cell_recorded(
    cell: LdtkCollisionCell,
    c: LdtkMapCatalog,
    config: LdtkConfig,
    d: LdtkIntGridCellData,
) -> bool {
    let layer = cell_layer_identifier(d);
    &&& cell.level_identifier@ == cell_level(c, d).0
    &&& cell.level_iid@ == cell_level(c, d).1
    &&& cell.layer_identifier@ == layer
    &&& cell.layer_iid@ == cell_layer_iid(d)
    &&& cell.grid_position == match d.grid {
        Some(g) => g,
        None => IVec2::spec_zero(),
    }
    &&& cell.value == d.value
    &&& (cell.solid, cell.sensor, opt_view(cell.tag)) == cell_rule(config, layer, d.value)
}

/// The summaries after cell `d` is counted: its layer's summary (created as
/// an IntGrid layer with zero counts when missing) counts one more solid
/// and/or sensor cell.
pub open spec fn cell_counted(
    m: Map<Seq<char>, CollisionLayerView>,
    c: LdtkMapCatalog,
    config: LdtkConfig,
    d: LdtkIntGridCellData,
) -> Map<Seq<char>, CollisionLayerView> {
    let (level, level_iid) = cell_level(c, d);
    let layer = cell_layer_identifier(d);
    let key = collision_key(level, layer);
    let rule = cell_rule(config, layer, d.value);
    let base = if m.contains_key(key) {
        m[key]
    } else {
        (level, level_iid, layer, cell_layer_iid(d), LdtkLayerType::IntGrid, 0usize, 0usize, 0usize)
    };
    m.insert(
        key,
        (
            base.0,
            base.1,
            base.2,
            base.3,
            base.4,
            (base.5 + if rule.0 {
                1int
            } else {
                0int
            }) as usize,
            base.6,
            (base.7 + if rule.1 {
                1int
            } else {
                0int
            }) as usize,
        ),
    )
}

/// The summaries after the cells `ds` are counted, in order.
pub open spec fn cells_counted(
    m: Map<Seq<char>, CollisionLayerView>,
    c: LdtkMapCatalog,
    config: LdtkConfig,
    ds: Seq<LdtkIntGridCellData>,
) -> Map<Seq<char>, CollisionLayerView>
    decreases ds.len(),
{
    if ds.len() == 0 {
        m
    } else {
        cell_counted(cells_counted(m, c, config, ds.drop_last()), c, config, ds.last())
    }
}

/// The collider attached to a cell with behaviour `rule`: one when it is
/// solid or a sensor.
pub open spec fn cell_collider(rule: (bool, bool, Option<Seq<char>>)) -> Option<LdtkCollider> {
    if rule.0 || rule.1 {
        Some(LdtkCollider { solid: rule.0, sensor: rule.1 })
    } else {
        None
    }
}

/// The counts of every summary leave room for `n` more cells.
pub open spec fn counts_fit(m: Map<Seq<char>, CollisionLayerView>, n: int) -> bool {
    forall|k: Seq<char>| #[trigger]
        m.contains_key(k) ==> m[k].5 + n <= usize::MAX && m[k].7 + n <= usize::MAX
}

proof fn lemma_views_insert(
    m: Map<Seq<char>, LdtkCollisionLayerInfo>,
    k: Seq<char>,
    v: LdtkCollisionLayerInfo,
)
    ensures
        layer_views(m.insert(k, v)) == layer_views(m).insert(k, collision_layer_view(v)),
{
    assert(layer_views(m.insert(k, v)) =~= layer_views(m).insert(k, collision_layer_view(v)));
}

fn register_collision_layer(
    collision: &mut LdtkCollisionCatalog,
    catalog: &LdtkMapCatalog,
    meta: &LdtkLayerMetadataData,
)
    ensures
        layer_views(final(collision).layers@) == layer_registered(
            layer_views(old(collision).layers@),
            *catalog,
            *meta,
        ),
        final(collision).cells == old(collision).cells,
{
    let (level_identifier, level_iid) = resolve_level_reference(catalog, meta.level_id, &meta.iid);
    let key = layer_key(level_identifier.as_str(), meta.identifier.as_str());
    if !collision.layers.contains_key(&key) {
        let info = LdtkCollisionLayerInfo {
            level_identifier,
            level_iid,
            layer_identifier: meta.identifier.clone(),
            layer_iid: meta.iid.clone(),
            layer_type: meta.layer_type,
            solid_cells: 0,
            tile_cells: 0,
            sensor_cells: 0,
        };
        let ghost before = collision.layers@;
        collision.layers.insert(key, info);
        proof {
            lemma_views_insert(before, key@, info);
        }
    }
}

fn capture_cell(
    collision: &mut LdtkCollisionCatalog,
    catalog: &LdtkMapCatalog,
    config: &LdtkConfig,
    d: &LdtkIntGridCellData,
) -> (collider: Option<LdtkCollider>)
    requires
        counts_fit(layer_views(old(collision).layers@), 1),
    ensures
        layer_views(final(collision).layers@) == cell_counted(
            layer_views(old(collision).layers@),
            *catalog,
            *config,
            *d,
        ),
        final(collision).cells@.len() == old(collision).cells@.len() + 1,
        final(collision).cells@.drop_last() == old(collision).cells@,
        cell_recorded(final(collision).cells@.last(), *catalog, *config, *d),
        collider == cell_collider(cell_rule(*config, cell_layer_identifier(*d), d.value)),
{
    proof {
        reveal_strlit("IntGrid");
    }
    let (layer_identifier, layer_iid, level_identifier, level_iid) = match &d.layer {
        Some(meta) => {
            let (level, iid) = resolve_level_reference(catalog, meta.level_id, &meta.iid);
            (meta.identifier.clone(), meta.iid.clone(), level, iid)
        },
        None => {
            let r = (to_owned_string("IntGrid"), String::new(), String::new(), String::new());
            proof {
                assert(r.1@ =~= Seq::<char>::empty());
                assert(r.2@ =~= Seq::<char>::empty());
                assert(r.3@ =~= Seq::<char>::empty());
            }
            r
        },
    };
    let grid_position = match d.grid {
        Some(g) => g,
        None => IVec2::zero(),
    };
    let rule = resolve_collision_rule(config, layer_identifier.as_str(), d.value);
    let ghost before_cells = collision.cells@;
    collision.cells.push(
        LdtkCollisionCell {
            level_identifier: level_identifier.clone(),
            level_iid: level_iid.clone(),
            layer_identifier: layer_identifier.clone(),
            layer_iid: layer_iid.clone(),
            grid_position,
            value: d.value,
            solid: rule.solid,
            sensor: rule.sensor,
            tag: match &rule.tag {
                Some(t) => Some(t.clone()),
                None => None,
            },
        },
    );
    proof {
        assert(collision.cells@.drop_last() =~= before_cells);
    }
    let key = layer_key(level_identifier.as_str(), layer_identifier.as_str());
    let ghost before = collision.layers@;
    let (solid_before, sensor_before, info_base) = match collision.layers.get(&key) {
        Some(existing) => (
            existing.solid_cells,
            existing.sensor_cells,
            LdtkCollisionLayerInfo {
                level_identifier: existing.level_identifier.clone(),
                level_iid: existing.level_iid.clone(),
                layer_identifier: existing.layer_identifier.clone(),
                layer_iid: existing.layer_iid.clone(),
                layer_type: existing.layer_type,
                solid_cells: existing.solid_cells,
                tile_cells: existing.tile_cells,
                sensor_cells: existing.sensor_cells,
            },
        ),
        None => (
            0,
            0,
            LdtkCollisionLayerInfo {
                level_identifier,
                level_iid,
                layer_identifier,
                layer_iid,
                layer_type: LdtkLayerType::IntGrid,
                solid_cells: 0,
                tile_cells: 0,
                sensor_cells: 0,
            },
        ),
    };
    proof {
        if before.contains_key(key@) {
            assert(layer_views(before).contains_key(key@));
        }
    }
    let solid_cells = if rule.solid {
        solid_before + 1
    } else {
        solid_before
    };
    let sensor_cells = if rule.sensor {
        sensor_before + 1
    } else {
        sensor_before
    };
    let info = LdtkCollisionLayerInfo { solid_cells, sensor_cells, ..info_base };
    collision.layers.insert(key, info);
    proof {
        lemma_views_insert(before, key@, info);
    }
    if rule.solid || rule.sensor {
        Some(LdtkCollider { solid: rule.solid, sensor: rule.sensor })
    } else {
        None
    }
}

/// Captures newly spawned layers and IntGrid cells into the collision
/// catalog: each new layer gets a summary, each cell is recorded with the
/// collision behaviour of its value and counted in its layer's summary.
/// Returns the collider for each cell, in order. When any cell was
/// captured, the load statistics count the catalog's cells.
pub fn capture_collision_data(
    collision: &mut LdtkCollisionCatalog,
    catalog: &LdtkMapCatalog,
    config: &LdtkConfig,
    load_state: &mut LdtkLoadState,
    new_layers: &Vec<LdtkLayerMetadataData>,
    cells: &Vec<LdtkIntGridCellData>,
) -> (colliders: Vec<Option<LdtkCollider>>)
    requires
        counts_fit(layer_views(old(collision).layers@), cells@.len() as int),
    ensures
        layer_views(final(collision).layers@) == cells_counted(
            layers_registered(layer_views(old(collision).layers@), *catalog, new_layers@),
            *catalog,
            *config,
            cells@,
        ),
        final(collision).cells@.len() == old(collision).cells@.len() + cells@.len(),
        final(collision).cells@.take(old(collision).cells@.len() as int) == old(collision).cells@,
        forall|j: int|
            0 <= j < cells@.len() ==> cell_recorded(
                #[trigger] final(collision).cells@[old(collision).cells@.len() + j],
                *catalog,
                *config,
                cells@[j],
            ),
        colliders@.len() == cells@.len(),
        forall|j: int|
            0 <= j < cells@.len() ==> #[trigger] colliders@[j] == cell_collider(
                cell_rule(*config, cell_layer_identifier(cells@[j]), cells@[j].value),
            ),
        cells@.len() > 0 ==> final(load_state).stats.collision_cells
            == final(collision).cells@.len(),
        cells@.len() == 0 ==> final(load_state).stats == old(load_state).stats,
        final(load_state).status == old(load_state).status,
        final(load_state).world_identifier == old(load_state).world_identifier,
        final(load_state).warnings == old(load_state).warnings,
        final(load_state).errors == old(load_state).errors,
        final(load_state).stats.worlds == old(load_state).stats.worlds,
        final(load_state).stats.levels == old(load_state).stats.levels,
        final(load_state).stats.layers == old(load_state).stats.layers,
        final(load_state).stats.tilesets == old(load_state).stats.tilesets,
        final(load_state).stats.tiles == old(load_state).stats.tiles,
        final(load_state).stats.entities == old(load_state).stats.entities,
        final(load_state).stats.spawn_points == old(load_state).stats.spawn_points,
        final(load_state).stats.tile_animations == old(load_state).stats.tile_animations,
{
    let ghost start = layer_views(collision.layers@);
    let n = cells.len();
    let mut i: usize = 0;
    proof {
        assert(new_layers@.take(0) =~= Seq::<LdtkLayerMetadataData>::empty());
    }
    while i < new_layers.len()
        invariant
            i <= new_layers@.len(),
            layer_views(collision.layers@) == layers_registered(
                start,
                *catalog,
                new_layers@.take(i as int),
            ),
            counts_fit(layer_views(collision.layers@), cells@.len() as int),
            collision.cells == old(collision).cells,
            start == layer_views(old(collision).layers@),
            n == cells@.len(),
        decreases new_layers@.len() - i,
    {
        proof {
            assert(new_layers@.take(i + 1).drop_last() =~= new_layers@.take(i as int));
        }
        let ghost prev = layer_views(collision.layers@);
        register_collision_layer(collision, catalog, &new_layers[i]);
        proof {
            assert forall|k: Seq<char>| #[trigger]
                layer_views(collision.layers@).contains_key(k) implies layer_views(
                collision.layers@,
            )[k].5 + n <= usize::MAX && layer_views(collision.layers@)[k].7 + n
                <= usize::MAX by {
                if prev.contains_key(k) {
                    assert(prev[k].5 + n <= usize::MAX);
                }
            }
        }
        i = i + 1;
    }
    proof {
        assert(new_layers@.take(new_layers@.len() as int) =~= new_layers@);
    }
    let ghost registered = layer_views(collision.layers@);
    let ghost cells_before = collision.cells@;
    let mut colliders: Vec<Option<LdtkCollider>> = Vec::new();
    let mut j: usize = 0;
    proof {
        assert(cells@.take(0) =~= Seq::<LdtkIntGridCellData>::empty());
    }
    while j < n
        invariant
            n == cells@.len(),
            j <= n,
            layer_views(collision.layers@) == cells_counted(
                registered,
                *catalog,
                *config,
                cells@.take(j as int),
            ),
            counts_fit(layer_views(collision.layers@), n - j),
            collision.cells@.len() == cells_before.len() + j,
            collision.cells@.take(cells_before.len() as int) == cells_before,
            forall|t: int|
                0 <= t < j ==> cell_recorded(
                    #[trigger] collision.cells@[cells_before.len() + t],
                    *catalog,
                    *config,
                    cells@[t],
                ),
            colliders@.len() == j,
            forall|t: int|
                0 <= t < j ==> #[trigger] colliders@[t] == cell_collider(
                    cell_rule(*config, cell_layer_identifier(cells@[t]), cells@[t].value),
                ),
        decreases n - j,
    {
        let ghost prev_cells = collision.cells@;
        let ghost prev = layer_views(collision.layers@);
        let c = capture_cell(collision, catalog, config, &cells[j]);
        colliders.push(c);
        proof {
            assert(cells@.take(j + 1).drop_last() =~= cells@.take(j as int));
            assert(cells@.take(j + 1).last() == cells@[j as int]);
            assert forall|k: Seq<char>| #[trigger]
                layer_views(collision.layers@).contains_key(k) implies layer_views(
                collision.layers@,
            )[k].5 + (n - j - 1) <= usize::MAX && layer_views(collision.layers@)[k].7 + (n - j
                - 1) <= usize::MAX by {
                if prev.contains_key(k) {
                    assert(prev[k].5 + (n - j) <= usize::MAX);
                }
            }
            assert forall|t: int| 0 <= t < j + 1 implies cell_recorded(
                #[trigger] collision.cells@[cells_before.len() + t],
                *catalog,
                *config,
                cells@[t],
            ) by {
                if t < j {
                    assert(collision.cells@[cells_before.len() + t] == prev_cells[cells_before.len()
                        + t]);
                }
            }
            assert(collision.cells@.take(cells_before.len() as int) =~= cells_before);
        }
        j = j + 1;
    }
    proof {
        assert(cells@.take(n as int) =~= cells@);
    }
    if n > 0 {
        load_state.stats.collision_cells = collision.cells.len();
    }
    colliders
}

/// `e` is the snapshot built from `instance` alone: its IID, identifier,
/// raw pixel position, grid position, size, pivot, tags and fields, with no
/// world, level, layer or tile.
pub open spec fn fallback_matches(e: LdtkImportedEntity, instance: LdtkEntityInstanceData) -> bool {
    &&& e.entity_iid == instance.iid
    &&& e.entity_identifier == instance.identifier
    &&& e.world_identifier is None
    &&& e.level_identifier is None
    &&& e.layer_identifier is None
    &&& e.position == WorldPos { x: instance.px.x as i64, y: instance.px.y as i64 }
    &&& e.grid_position == instance.grid
    &&& e.size == IVec2 { x: instance.width, y: instance.height }
    &&& e.pivot == instance.pivot
    &&& e.tags@ == instance.tags@
    &&& e.tile is None
    &&& fields_match(e.field_values, instance.field_instances@)
}

/// A snapshot of an entity instance that the catalog does not know.
pub fn fallback_entity_snapshot(instance: &LdtkEntityInstanceData) -> (e: LdtkImportedEntity)
    ensures
        fallback_matches(e, *instance),
{
    LdtkImportedEntity {
        entity_iid: instance.iid.clone(),
        entity_identifier: instance.identifier.clone(),
        world_identifier: None,
        level_identifier: None,
        layer_identifier: None,
        position: WorldPos::new(instance.px.x as i64, instance.px.y as i64),
        grid_position: instance.grid,
        size: IVec2::new(instance.width, instance.height),
        pivot: instance.pivot,
        tags: clone_strings(&instance.tags),
        tile: None,
        field_values: fields_from(&instance.field_instances),
    }
}

/// Records a spawned entity instance (engine handle `entity`): its snapshot
/// is the catalog's snapshot with the instance's IID, else the fallback
/// snapshot; the entity catalog maps the IID to the handle and to the
/// snapshot. Returns the snapshot and the marker to attach.
pub fn capture_entity_instance(
    entity_catalog: &mut LdtkEntityCatalog,
    map_catalog: &LdtkMapCatalog,
    instance: &LdtkEntityInstanceData,
    entity: u64,
) -> (r: (LdtkImportedEntity, LdtkEntityMarker))
    ensures
        match find_entity(*map_catalog, instance.iid@) {
            Some(e) => r.0.same_as(e),
            None => fallback_matches(r.0, *instance),
        },
        r.0.entity_iid@ == instance.iid@,
        final(entity_catalog).by_iid@ == old(entity_catalog).by_iid@.insert(instance.iid@, entity),
        final(entity_catalog).snapshots@.dom() == old(entity_catalog).snapshots@.dom().insert(
            instance.iid@,
        ),
        final(entity_catalog).snapshots@.remove(instance.iid@) == old(
            entity_catalog,
        ).snapshots@.remove(instance.iid@),
        final(entity_catalog).snapshots@[instance.iid@].same_as(r.0),
        r.1.definition_identifier == r.0.entity_identifier,
        r.1.level_identifier == r.0.level_identifier,
        r.1.world_identifier == r.0.world_identifier,
{
    let snapshot = match map_catalog.entity_snapshot_by_iid(instance.iid.as_str()) {
        Some(found) => found.clone(),
        None => fallback_entity_snapshot(instance),
    };
    entity_catalog.by_iid.insert(snapshot.entity_iid.clone(), entity);
    let stored = snapshot.clone();
    let ghost before = entity_catalog.snapshots@;
    entity_catalog.snapshots.insert(snapshot.entity_iid.clone(), stored);
    proof {
        assert(entity_catalog.snapshots@.remove(instance.iid@) =~= before.remove(instance.iid@));
    }
    let marker = LdtkEntityMarker::for_entity(&snapshot);
    (snapshot, marker)
}

/// The spawn context for a newly imported entity, when a spawner is
/// registered for its layer and identifier.
pub fn spawn_context_for<S>(registry: &LdtkEntityRegistry<S>, imported: &LdtkImportedEntity) -> (c:
    Option<LdtkEntitySpawnContext>)
    ensures
        c is Some == resolved_key(
            registry.spawners@,
            opt_view(imported.layer_identifier),
            imported.entity_identifier@,
        ) is Some,
        c matches Some(ctx) ==> {
            &&& ctx.entity_iid == imported.entity_iid
            &&& ctx.entity_identifier == imported.entity_identifier
            &&& ctx.world_identifier == imported.world_identifier
            &&& ctx.level_identifier == imported.level_identifier
            &&& ctx.layer_identifier == imported.layer_identifier
            &&& ctx.position == imported.position
            &&& ctx.grid_position == imported.grid_position
            &&& ctx.size == imported.size
            &&& ctx.pivot == imported.pivot
            &&& ctx.tags@ == imported.tags@
            &&& ctx.tile is Some == imported.tile is Some
            &&& ctx.tile is Some ==> ctx.tile->0.same_as(imported.tile->0)
            &&& same_fields(ctx.field_values, imported.field_values)
        },
{
    let found = match &imported.layer_identifier {
        Some(l) => registry.resolve(Some(l.as_str()), imported.entity_identifier.as_str()),
        None => registry.resolve(None, imported.entity_identifier.as_str()),
    };
    match found {
        Some(_) => Some(LdtkEntitySpawnContext::from_imported(imported)),
        None => None,
    }
}

/// A level lifecycle notification from the engine.
#[derive(Debug)]
pub enum LdtkLevelLifecycleEvent {
    /// The level with this IID was spawned.
    Spawned(String),
    /// The level with this IID was despawned.
    Despawned(String),
    /// Any other notification.
    Other,
}

/// The cells of `cells` that do not belong to the level with IID `iid`.
pub open spec fn cells_kept(cells: Seq<LdtkCollisionCell>, iid: Seq<char>) -> Seq<LdtkCollisionCell>
    decreases cells.len(),
{
    if cells.len() == 0 {
        cells
    } else if cells.last().level_iid@ == iid {
        cells_kept(cells.drop_last(), iid)
    } else {
        cells_kept(cells.drop_last(), iid).push(cells.last())
    }
}

/// Keys of the collision summaries of the level with IID `iid`.
pub open spec fn level_layer_keys(m: Map<Seq<char>, LdtkCollisionLayerInfo>, iid: Seq<char>) -> Set<
    Seq<char>,
> {
    Set::new(|k: Seq<char>| m.contains_key(k) && m[k].level_iid@ == iid)
}

/// Keys of the snapshots of the level named `level`.
pub open spec fn level_snapshot_keys(m: Map<Seq<char>, LdtkImportedEntity>, level: Seq<char>) -> Set<
    Seq<char>,
> {
    Set::new(|k: Seq<char>| m.contains_key(k) && opt_view(m[k].level_identifier) == Some(level))
}

/// Keys of `m` that have no snapshot in `snapshots`.
pub open spec fn orphan_keys(m: Map<Seq<char>, u64>, snapshots: Map<Seq<char>, LdtkImportedEntity>) -> Set<
    Seq<char>,
> {
    Set::new(|k: Seq<char>| m.contains_key(k) && !snapshots.contains_key(k))
}

fn remove_all<V>(m: &mut KeyedMap<String, V>, keys: &Vec<String>)
    ensures
        final(m)@ == old(m)@.remove_keys(Set::new(|k: Seq<char>| views(keys@).contains(k))),
{
    let mut t: usize = 0;
    while t < keys.len()
        invariant
            t <= keys@.len(),
            m@ == old(m)@.remove_keys(Set::new(|k: Seq<char>| views(keys@).take(t as int).contains(k))),
        decreases keys@.len() - t,
    {
        let ghost before = m@;
        m.remove(&keys[t]);
        proof {
            let prev = Set::new(|k: Seq<char>| views(keys@).take(t as int).contains(k));
            let next = Set::new(|k: Seq<char>| views(keys@).take(t + 1).contains(k));
            assert(views(keys@).take(t + 1) =~= views(keys@).take(t as int).push(keys@[t as int]@));
            assert forall|k: Seq<char>| next.contains(k) <==> prev.contains(k) || k == keys@[t as int]@ by {
                if views(keys@).take(t + 1).contains(k) && k != keys@[t as int]@ {
                    let j = choose|j: int| 0 <= j < t + 1 && #[trigger] views(keys@).take(t + 1)[j] == k;
                    assert(views(keys@).take(t as int)[j] == k);
                }
                if prev.contains(k) {
                    let j = choose|j: int| 0 <= j < t && #[trigger] views(keys@).take(t as int)[j] == k;
                    assert(views(keys@).take(t + 1)[j] == k);
                }
                if k == keys@[t as int]@ {
                    assert(views(keys@).take(t + 1)[t as int] == k);
                }
            }
            assert(m@ =~= old(m)@.remove_keys(next));
        }
        t = t + 1;
    }
    proof {
        assert(views(keys@).take(keys@.len() as int) =~= views(keys@));
    }
}

/// Collects the keys of the entries of `m` at positions from `from` on
/// that satisfy the spec predicate `keep_out`, given by its flags.
fn keys_at_flags<V>(m: &KeyedMap<String, V>, flags: &Vec<bool>) -> (keys: Vec<String>)
    requires
        flags@.len() == m.pairs().len(),
    ensures
        forall|k: Seq<char>|
            views(keys@).contains(k) <==> exists|j: int|
                0 <= j < flags@.len() && flags@[j] && #[trigger] m.pairs()[j].0@ == k,
{
    let mut keys: Vec<String> = Vec::new();
    let n = m.len();
    let mut i: usize = 0;
    while i < n
        invariant
            n == m.pairs().len(),
            flags@.len() == n,
            i <= n,
            forall|k: Seq<char>|
                views(keys@).contains(k) <==> exists|j: int|
                    0 <= j < i && flags@[j] && #[trigger] m.pairs()[j].0@ == k,
        decreases n - i,
    {
        let ghost before = keys@;
        if flags[i] {
            keys.push(m.key_at(i).clone());
        }
        proof {
            if flags@[i as int] {
                assert(views(keys@) =~= views(before).push(m.pairs()[i as int].0@));
            } else {
                assert(keys@ == before);
            }
            assert forall|k: Seq<char>|
                views(keys@).contains(k) <==> exists|j: int|
                    0 <= j < i + 1 && flags@[j] && #[trigger] m.pairs()[j].0@ == k by {
                if views(keys@).contains(k) {
                    let t = choose|t: int| 0 <= t < views(keys@).len() && #[trigger] views(keys@)[t] == k;
                    if t < views(before).len() {
                        assert(views(before)[t] == k);
                        assert(views(before).contains(k));
                    } else {
                        assert(m.pairs()[i as int].0@ == k);
                    }
                }
                if exists|j: int| 0 <= j < i + 1 && flags@[j] && #[trigger] m.pairs()[j].0@ == k {
                    let j = choose|j: int| 0 <= j < i + 1 && flags@[j] && #[trigger] m.pairs()[j].0@
                        == k;
                    if j < i {
                        assert(views(before).contains(k));
                        let t = choose|t: int| 0 <= t < views(before).len() && #[trigger] views(before)[t] == k;
                        assert(views(keys@)[t] == k);
                    } else {
                        assert(views(keys@)[views(keys@).len() - 1] == k);
                    }
                }
            }
        }
        i = i + 1;
    }
    keys
}

/// Keys of the entries of `m` whose key and value satisfy `pred`.
pub open spec fn keys_where<V>(m: Map<Seq<char>, V>, pred: spec_fn(Seq<char>, V) -> bool) -> Set<
    Seq<char>,
> {
    Set::new(|k: Seq<char>| m.contains_key(k) && pred(k, m[k]))
}

proof fn lemma_flagged_keys<V>(
    m: KeyedMap<String, V>,
    flags: Seq<bool>,
    pred: spec_fn(Seq<char>, V) -> bool,
    keys: Seq<String>,
)
    requires
        m.unique(),
        flags.len() == m.pairs().len(),
        forall|j: int| 0 <= j < flags.len() ==> flags[j] == pred(m.pairs()[j].0@, m.pairs()[j].1),
        forall|k: Seq<char>|
            views(keys).contains(k) <==> exists|j: int|
                0 <= j < flags.len() && flags[j] && #[trigger] m.pairs()[j].0@ == k,
    ensures
        Set::new(|k: Seq<char>| views(keys).contains(k)) == keys_where(m@, pred),
{
    m.lemma_unique();
    assert forall|k: Seq<char>| views(keys).contains(k) <==> keys_where(m@, pred).contains(k) by {
        if views(keys).contains(k) {
            let j = choose|j: int| 0 <= j < flags.len() && flags[j] && #[trigger] m.pairs()[j].0@ == k;
            assert(m@.contains_key(m.pairs()[j].0@));
        }
        if keys_where(m@, pred).contains(k) {
            assert(has_key(m.pairs(), k));
            let j = choose|j: int| 0 <= j < m.pairs().len() && (#[trigger] m.pairs()[j]).0@ == k;
            assert(m@[m.pairs()[j].0@] == m.pairs()[j].1);
            assert(flags[j]);
        }
    }
    assert(Set::new(|k: Seq<char>| views(keys).contains(k)) =~= keys_where(m@, pred));
}

fn layer_flags(m: &KeyedMap<String, LdtkCollisionLayerInfo>, iid: &str) -> (f: Vec<bool>)
    ensures
        f@.len() == m.pairs().len(),
        forall|j: int| 0 <= j < f@.len() ==> f@[j] == (m.pairs()[j].1.level_iid@ == iid@),
{
    let mut f: Vec<bool> = Vec::new();
    let n = m.len();
    let mut i: usize = 0;
    while i < n
        invariant
            n == m.pairs().len(),
            i <= n,
            f@.len() == i,
            forall|j: int| 0 <= j < i ==> f@[j] == (m.pairs()[j].1.level_iid@ == iid@),
        decreases n - i,
    {
        f.push(str_eq(m.value_at(i).level_iid.as_str(), iid));
        i = i + 1;
    }
    f
}

fn snapshot_flags(m: &KeyedMap<String, LdtkImportedEntity>, level: &str) -> (f: Vec<bool>)
    ensures
        f@.len() == m.pairs().len(),
        forall|j: int|
            0 <= j < f@.len() ==> f@[j] == (opt_view(m.pairs()[j].1.level_identifier) == Some(
                level@,
            )),
{
    let mut f: Vec<bool> = Vec::new();
    let n = m.len();
    let mut i: usize = 0;
    while i < n
        invariant
            n == m.pairs().len(),
            i <= n,
            f@.len() == i,
            forall|j: int|
                0 <= j < i ==> f@[j] == (opt_view(m.pairs()[j].1.level_identifier) == Some(
                    level@,
                )),
        decreases n - i,
    {
        let flag = match &m.value_at(i).level_identifier {
            Some(l) => str_eq(l.as_str(), level),
            None => false,
        };
        f.push(flag);
        i = i + 1;
    }
    f
}

fn orphan_flags(m: &KeyedMap<String, u64>, snapshots: &KeyedMap<String, LdtkImportedEntity>) -> (f:
    Vec<bool>)
    ensures
        f@.len() == m.pairs().len(),
        forall|j: int|
            0 <= j < f@.len() ==> f@[j] == !snapshots@.contains_key(m.pairs()[j].0@),
{
    let mut f: Vec<bool> = Vec::new();
    let n = m.len();
    let mut i: usize = 0;
    while i < n
        invariant
            n == m.pairs().len(),
            i <= n,
            f@.len() == i,
            forall|j: int| 0 <= j < i ==> f@[j] == !snapshots@.contains_key(m.pairs()[j].0@),
        decreases n - i,
    {
        f.push(!snapshots.contains_key(m.key_at(i)));
        i = i + 1;
    }
    f
}

/// Keeps the runtime's set of loaded levels and the runtime catalogs in
/// step with level lifecycle events. A spawned level is added to the loaded
/// levels. A despawned level is removed from them, and its collision cells,
/// its collision summaries, the snapshots of its entities and the handles
/// left without a snapshot are dropped.
pub fn sync_level_lifecycle_event(
    event: &LdtkLevelLifecycleEvent,
    runtime: &mut LdtkRuntimeState,
    catalog: &LdtkMapCatalog,
    collision: &mut LdtkCollisionCatalog,
    entity_catalog: &mut LdtkEntityCatalog,
)
    ensures
        match event {
            LdtkLevelLifecycleEvent::Spawned(iid) => {
                &&& final(runtime).loaded_levels@ == old(runtime).loaded_levels@.insert(iid@)
                &&& *final(collision) == *old(collision)
                &&& *final(entity_catalog) == *old(entity_catalog)
            },
            LdtkLevelLifecycleEvent::Despawned(iid) => {
                &&& final(runtime).loaded_levels@ == old(runtime).loaded_levels@.remove(iid@)
                &&& final(collision).cells@ == cells_kept(old(collision).cells@, iid@)
                &&& final(collision).layers@ == old(collision).layers@.remove_keys(
                    level_layer_keys(old(collision).layers@, iid@),
                )
                &&& catalog.levels_by_iid@.contains_key(iid@) ==> {
                    &&& final(entity_catalog).snapshots@ == old(
                        entity_catalog,
                    ).snapshots@.remove_keys(
                        level_snapshot_keys(
                            old(entity_catalog).snapshots@,
                            catalog.levels_by_iid@[iid@]@,
                        ),
                    )
                    &&& final(entity_catalog).by_iid@ == old(entity_catalog).by_iid@.remove_keys(
                        orphan_keys(old(entity_catalog).by_iid@, final(entity_catalog).snapshots@),
                    )
                }
                &&& !catalog.levels_by_iid@.contains_key(iid@) ==> *final(entity_catalog) == *old(
                    entity_catalog,
                )
            },
            LdtkLevelLifecycleEvent::Other => {
                &&& final(runtime).loaded_levels == old(runtime).loaded_levels
                &&& *final(collision) == *old(collision)
                &&& *final(entity_catalog) == *old(entity_catalog)
            },
        },
        final(runtime).active_world_path == old(runtime).active_world_path,
        final(runtime).active_world_identifier == old(runtime).active_world_identifier,
        final(runtime).active_world_root == old(runtime).active_world_root,
        final(runtime).active_level == old(runtime).active_level,
        final(runtime).transition == old(runtime).transition,
{
    match event {
        LdtkLevelLifecycleEvent::Spawned(iid) => {
            runtime.loaded_levels.insert(iid.clone());
        },
        LdtkLevelLifecycleEvent::Despawned(iid) => {
            runtime.loaded_levels.remove(iid);
            let mut kept: Vec<LdtkCollisionCell> = Vec::new();
            let mut i: usize = 0;
            proof {
                assert(collision.cells@.take(0) =~= Seq::<LdtkCollisionCell>::empty());
            }
            while i < collision.cells.len()
                invariant
                    i <= collision.cells@.len(),
                    kept@ == cells_kept(collision.cells@.take(i as int), iid@),
                decreases collision.cells@.len() - i,
            {
                proof {
                    assert(collision.cells@.take(i + 1).drop_last() =~= collision.cells@.take(
                        i as int,
                    ));
                    assert(collision.cells@.take(i + 1).last() == collision.cells@[i as int]);
                }
                if !str_eq(collision.cells[i].level_iid.as_str(), iid.as_str()) {
                    kept.push(collision.cells[i].clone());
                }
                i = i + 1;
            }
            proof {
                assert(collision.cells@.take(collision.cells@.len() as int) =~= collision.cells@);
            }
            collision.cells = kept;
            proof {
                use_type_invariant(&collision.layers);
            }
            let flags = layer_flags(&collision.layers, iid.as_str());
            let keys = keys_at_flags(&collision.layers, &flags);
            proof {
                lemma_flagged_keys(
                    collision.layers,
                    flags@,
                    |k: Seq<char>, v: LdtkCollisionLayerInfo| v.level_iid@ == iid@,
                    keys@,
                );
                assert(keys_where(
                    collision.layers@,
                    |k: Seq<char>, v: LdtkCollisionLayerInfo| v.level_iid@ == iid@,
                ) =~= level_layer_keys(collision.layers@, iid@));
            }
            remove_all(&mut collision.layers, &keys);
            if let Some(identifier) = catalog.identifier_for_iid(iid.as_str()) {
                proof {
                    use_type_invariant(&entity_catalog.snapshots);
                }
                let sflags = snapshot_flags(&entity_catalog.snapshots, identifier);
                let skeys = keys_at_flags(&entity_catalog.snapshots, &sflags);
                proof {
                    lemma_flagged_keys(
                        entity_catalog.snapshots,
                        sflags@,
                        |k: Seq<char>, v: LdtkImportedEntity| opt_view(v.level_identifier) == Some(
                            identifier@,
                        ),
                        skeys@,
                    );
                    assert(keys_where(
                        entity_catalog.snapshots@,
                        |k: Seq<char>, v: LdtkImportedEntity| opt_view(v.level_identifier) == Some(
                            identifier@,
                        ),
                    ) =~= level_snapshot_keys(entity_catalog.snapshots@, identifier@));
                }
                remove_all(&mut entity_catalog.snapshots, &skeys);
                proof {
                    use_type_invariant(&entity_catalog.by_iid);
                }
                let oflags = orphan_flags(&entity_catalog.by_iid, &entity_catalog.snapshots);
                let okeys = keys_at_flags(&entity_catalog.by_iid, &oflags);
                proof {
                    lemma_flagged_keys(
                        entity_catalog.by_iid,
                        oflags@,
                        |k: Seq<char>, v: u64| !entity_catalog.snapshots@.contains_key(k),
                        okeys@,
                    );
                    assert(keys_where(
                        entity_catalog.by_iid@,
                        |k: Seq<char>, v: u64| !entity_catalog.snapshots@.contains_key(k),
                    ) =~= orphan_keys(entity_catalog.by_iid@, entity_catalog.snapshots@));
                }
                remove_all(&mut entity_catalog.by_iid, &okeys);
            }
        },
        LdtkLevelLifecycleEvent::Other => {},
    }
}

/// Dropping a despawned level's cells leaves none of its cells and every
/// cell of the other levels.
pub proof fn lemma_cells_kept_are_other_levels(cells: Seq<LdtkCollisionCell>, iid: Seq<char>)
    ensures
        forall|i: int|
            0 <= i < cells_kept(cells, iid).len() ==> (#[trigger] cells_kept(cells, iid)[i]).level_iid@
                != iid,
        forall|i: int|
            0 <= i < cells.len() && (#[trigger] cells[i]).level_iid@ != iid ==> cells_kept(
                cells,
                iid,
            ).contains(cells[i]),
    decreases cells.len(),
{
    if cells.len() > 0 {
        let rest = cells.drop_last();
        lemma_cells_kept_are_other_levels(rest, iid);
        let kept = cells_kept(cells, iid);
        let kept_rest = cells_kept(rest, iid);
        assert forall|i: int| 0 <= i < cells.len() && (#[trigger] cells[i]).level_iid@ != iid implies kept.contains(
            cells[i],
        ) by {
            if i < cells.len() - 1 {
                assert(rest[i] == cells[i]);
                let j = choose|j: int| 0 <= j < kept_rest.len() && kept_rest[j] == rest[i];
                if cells.last().level_iid@ == iid {
                    assert(kept[j] == cells[i]);
                } else {
                    assert(kept[j] == cells[i]);
                }
            } else {
                assert(kept[kept.len() - 1] == cells[i]);
            }
        }
    }
}

/// After a level is despawned, no collision summary of it remains and every
/// summary of another level is kept; no snapshot of its entities remains and
/// every other snapshot is kept; and every handle left by IID has a snapshot,
/// while the handles that still have one are kept.
pub proof fn lemma_despawned_level_leaves_nothing(
    layers: Map<Seq<char>, LdtkCollisionLayerInfo>,
    snapshots: Map<Seq<char>, LdtkImportedEntity>,
    by_iid: Map<Seq<char>, u64>,
    iid: Seq<char>,
    level: Seq<char>,
)
    ensures
        forall|k: Seq<char>|
            #[trigger] layers.remove_keys(level_layer_keys(layers, iid)).contains_key(k) ==> layers[k].level_iid@
                != iid,
        forall|k: Seq<char>|
            layers.contains_key(k) && layers[k].level_iid@ != iid ==> #[trigger] layers.remove_keys(
                level_layer_keys(layers, iid),
            ).contains_key(k),
        forall|k: Seq<char>|
            #[trigger] snapshots.remove_keys(level_snapshot_keys(snapshots, level)).contains_key(k)
                ==> opt_view(snapshots[k].level_identifier) != Some(level),
        forall|k: Seq<char>|
            snapshots.contains_key(k) && opt_view(snapshots[k].level_identifier) != Some(level)
                ==> #[trigger] snapshots.remove_keys(level_snapshot_keys(snapshots, level)).contains_key(k),
        forall|k: Seq<char>|
            #[trigger] by_iid.remove_keys(
                orphan_keys(by_iid, snapshots.remove_keys(level_snapshot_keys(snapshots, level))),
            ).contains_key(k) ==> snapshots.remove_keys(
                level_snapshot_keys(snapshots, level),
            ).contains_key(k),
        forall|k: Seq<char>|
            by_iid.contains_key(k) && snapshots.remove_keys(
                level_snapshot_keys(snapshots, level),
            ).contains_key(k) ==> #[trigger] by_iid.remove_keys(
                orphan_keys(by_iid, snapshots.remove_keys(level_snapshot_keys(snapshots, level))),
            ).contains_key(k),
{
}

/// Without collision rules and without solid values, every non-zero IntGrid
/// value is solid and none is a sensor.
pub proof fn lemma_nonzero_is_solid_by_default(config: LdtkConfig, layer: Seq<char>, value: i32)
    requires
        config.collision_rules@.len() == 0,
        config.int_grid_solid_values@.len() == 0,
    ensures
        cell_rule(config, layer, value) == (value != 0, false, None::<Seq<char>>),
{
}

} // verus!
