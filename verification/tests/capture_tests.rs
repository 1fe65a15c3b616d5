use ldtk_integration::capture::{
    capture_collision_data, capture_entity_instance, fallback_entity_snapshot, layer_key,
    resolve_level_reference, spawn_context_for, sync_level_lifecycle_event,
    LdtkIntGridCellData, LdtkLayerMetadataData, LdtkLevelLifecycleEvent,
};
use ldtk_integration::catalog::{
    LdtkCollisionCatalog, LdtkCollisionCell, LdtkEntityCatalog, LdtkLayerInfo, LdtkLayerType,
    LdtkLevelInfo, LdtkMapCatalog,
};
use ldtk_integration::config::{resolve_collision_rule, LdtkCollisionRule, LdtkConfig};
use ldtk_integration::entities::{LdtkCollider, LdtkImportedEntity};
use ldtk_integration::fields::LdtkFieldValue;
use ldtk_integration::geometry::{IVec2, ScalarPair, WorldPos};
use ldtk_integration::project::LdtkEntityInstanceData;
use ldtk_integration::registry::LdtkEntityRegistry;
use ldtk_integration::state::{LdtkLoadState, LdtkRuntimeState};

fn collision_layer_meta() -> LdtkLayerMetadataData {
    LdtkLayerMetadataData {
        identifier: "Collision".to_string(),
        iid: "layer-iid".to_string(),
        level_id: 42,
        layer_type: LdtkLayerType::IntGrid,
    }
}

/// The layer metadata lives on the layer object above the cells, and its
/// level id is the numeric level UID; captured cells carry the resolved level
/// and layer.
#[test]
fn captured_cells_carry_level_and_layer_from_parent_layer_entity() {
    let mut catalog = LdtkMapCatalog::default();
    catalog.insert_level_info(LdtkLevelInfo {
        iid: "level-iid".to_string(),
        uid: 42,
        identifier: "Level_A".to_string(),
        ..Default::default()
    });
    let config = LdtkConfig::default();
    let mut collision = LdtkCollisionCatalog::default();
    let mut load_state = LdtkLoadState::default();

    let cells = vec![
        LdtkIntGridCellData {
            value: 1,
            grid: Some(IVec2::new(3, 5)),
            layer: Some(collision_layer_meta()),
        },
        // A cell nested deeper in the hierarchy resolves to the same layer.
        LdtkIntGridCellData {
            value: 1,
            grid: Some(IVec2::new(0, 0)),
            layer: Some(collision_layer_meta()),
        },
    ];
    let colliders = capture_collision_data(
        &mut collision,
        &catalog,
        &config,
        &mut load_state,
        &vec![collision_layer_meta()],
        &cells,
    );

    assert_eq!(collision.cells.len(), 2);
    for cell in &collision.cells {
        assert_eq!(cell.level_identifier, "Level_A");
        assert_eq!(cell.level_iid, "level-iid");
        assert_eq!(cell.layer_identifier, "Collision");
        assert_eq!(cell.layer_iid, "layer-iid");
        assert!(cell.solid);
    }
    assert_eq!(collision.cells[0].grid_position, IVec2::new(3, 5));

    let layer_info = collision
        .layers
        .get(&"Level_A:Collision".to_string())
        .expect("layer summary keyed by resolved level identifier");
    assert_eq!(layer_info.level_iid, "level-iid");
    assert_eq!(layer_info.layer_iid, "layer-iid");
    assert_eq!(layer_info.solid_cells, 2);

    // Solid cells get a collider.
    assert_eq!(
        colliders[0],
        Some(LdtkCollider {
            solid: true,
            sensor: false
        })
    );
    assert_eq!(load_state.stats.collision_cells, 2);
}

fn rules_scenario() {
    let config = LdtkConfig::default().with_collision_rules(vec![
        LdtkCollisionRule::sensor(2, "water").for_layer("Gameplay"),
        LdtkCollisionRule::solid(1),
    ]);

    let water = resolve_collision_rule(&config, "Gameplay", 2);
    assert!(!water.solid);
    assert!(water.sensor);
    assert_eq!(water.tag.as_deref(), Some("water"));

    let wall = resolve_collision_rule(&config, "Gameplay", 1);
    assert!(wall.solid);
    assert!(!wall.sensor);
}

#[test]
fn capture_collision_rules_override_default_solid_mapping() {
    rules_scenario();
}

#[test]
fn plugins_collision_rules_override_default_solid_mapping() {
    rules_scenario();
}

#[test]
fn default_solid_mapping_without_rules() {
    let any_nonzero = LdtkConfig::default();
    assert!(resolve_collision_rule(&any_nonzero, "L", 3).solid);
    assert!(!resolve_collision_rule(&any_nonzero, "L", 0).solid);
    let only_one = LdtkConfig::default().with_solid_int_grid_values(&[1]);
    assert!(resolve_collision_rule(&only_one, "L", 1).solid);
    let other = resolve_collision_rule(&only_one, "L", 2);
    assert!(!other.solid);
    assert_eq!(other.layer_identifier.as_deref(), Some("L"));
    // A layer-scoped rule does not apply on another layer.
    let scoped = LdtkConfig::default()
        .with_collision_rules(vec![LdtkCollisionRule::sensor(2, "water").for_layer("Gameplay")]);
    assert!(!resolve_collision_rule(&scoped, "Other", 2).sensor);
}

#[test]
fn cells_without_layer_metadata_are_intgrid_cells_of_no_level() {
    let catalog = LdtkMapCatalog::default();
    let config = LdtkConfig::default()
        .with_collision_rules(vec![LdtkCollisionRule::sensor(4, "spikes")]);
    let mut collision = LdtkCollisionCatalog::default();
    let mut load_state = LdtkLoadState::default();
    let colliders = capture_collision_data(
        &mut collision,
        &catalog,
        &config,
        &mut load_state,
        &Vec::new(),
        &vec![
            LdtkIntGridCellData {
                value: 4,
                grid: None,
                layer: None,
            },
            LdtkIntGridCellData {
                value: 0,
                grid: None,
                layer: None,
            },
        ],
    );
    assert_eq!(collision.cells[0].layer_identifier, "IntGrid");
    assert_eq!(collision.cells[0].level_identifier, "");
    assert_eq!(collision.cells[0].tag.as_deref(), Some("spikes"));
    assert_eq!(collision.cells[1].grid_position, IVec2::new(0, 0));
    let summary = collision.layers.get(&":IntGrid".to_string()).unwrap();
    assert_eq!(summary.sensor_cells, 1);
    assert_eq!(summary.solid_cells, 0);
    assert_eq!(summary.layer_type, LdtkLayerType::IntGrid);
    assert_eq!(
        colliders,
        vec![
            Some(LdtkCollider {
                solid: false,
                sensor: true
            }),
            None
        ]
    );
}

#[test]
fn level_reference_falls_back_to_the_cataloged_layer() {
    let mut catalog = LdtkMapCatalog::default();
    catalog.insert_level_info(LdtkLevelInfo {
        iid: "level-iid".to_string(),
        uid: 42,
        identifier: "Level_A".to_string(),
        ..Default::default()
    });
    catalog.layers.insert(
        "layer-iid".to_string(),
        LdtkLayerInfo {
            iid: "layer-iid".to_string(),
            level_identifier: "Level_A".to_string(),
            ..Default::default()
        },
    );
    assert_eq!(
        resolve_level_reference(&catalog, 42, &"x".to_string()),
        ("Level_A".to_string(), "level-iid".to_string())
    );
    assert_eq!(
        resolve_level_reference(&catalog, 7, &"layer-iid".to_string()),
        ("Level_A".to_string(), "level-iid".to_string())
    );
    assert_eq!(
        resolve_level_reference(&catalog, 7, &"other".to_string()),
        (String::new(), String::new())
    );
    assert_eq!(layer_key("Level_A", "Collision"), "Level_A:Collision");
}

fn instance(iid: &str) -> LdtkEntityInstanceData {
    LdtkEntityInstanceData {
        iid: iid.to_string(),
        identifier: "Chest".to_string(),
        px: IVec2::new(24, 40),
        grid: IVec2::new(1, 2),
        width: 16,
        height: 8,
        pivot: ScalarPair::default(),
        tags: vec!["loot".to_string()],
        tile: None,
        field_instances: vec![("gold".to_string(), LdtkFieldValue::Int(5))],
    }
}

#[test]
fn unknown_entities_get_a_fallback_snapshot() {
    let snapshot = fallback_entity_snapshot(&instance("ent-9"));
    assert_eq!(snapshot.entity_iid, "ent-9");
    assert_eq!(snapshot.position, WorldPos::new(24, 40));
    assert_eq!(snapshot.size, IVec2::new(16, 8));
    assert_eq!(snapshot.level_identifier, None);
    assert_eq!(
        snapshot.field_values.get(&"gold".to_string()),
        Some(&LdtkFieldValue::Int(5))
    );

    let catalog = LdtkMapCatalog::default();
    let mut entities = LdtkEntityCatalog::default();
    let (captured, marker) = capture_entity_instance(&mut entities, &catalog, &instance("ent-9"), 77);
    assert_eq!(captured.entity_iid, "ent-9");
    assert_eq!(marker.definition_identifier, "Chest");
    assert_eq!(entities.by_iid.get(&"ent-9".to_string()), Some(&77));
    assert!(entities.snapshots.get(&"ent-9".to_string()).is_some());
}

#[test]
fn known_entities_take_the_catalog_snapshot_and_registered_spawners_get_a_context() {
    let mut catalog = LdtkMapCatalog::default();
    catalog.insert_level_info(LdtkLevelInfo {
        iid: "lvl".to_string(),
        identifier: "Level_A".to_string(),
        entities: vec![LdtkImportedEntity {
            entity_iid: "ent-1".to_string(),
            entity_identifier: "Chest".to_string(),
            level_identifier: Some("Level_A".to_string()),
            layer_identifier: Some("Entities".to_string()),
            ..Default::default()
        }],
        ..Default::default()
    });
    let mut entities = LdtkEntityCatalog::default();
    let (snapshot, marker) = capture_entity_instance(&mut entities, &catalog, &instance("ent-1"), 5);
    assert_eq!(snapshot.level_identifier.as_deref(), Some("Level_A"));
    assert_eq!(marker.level_identifier.as_deref(), Some("Level_A"));

    let mut registry: LdtkEntityRegistry<u8> = LdtkEntityRegistry::new();
    assert!(spawn_context_for(&registry, &snapshot).is_none());
    registry.register_spawner_for_layer("Entities", "Chest", 1);
    let context = spawn_context_for(&registry, &snapshot).unwrap();
    assert_eq!(context.entity_iid, "ent-1");
    assert_eq!(context.layer_identifier.as_deref(), Some("Entities"));
}

#[test]
fn despawning_a_level_drops_its_runtime_data() {
    let mut catalog = LdtkMapCatalog::default();
    catalog.insert_level_info(LdtkLevelInfo {
        iid: "iid-a".to_string(),
        identifier: "Level_A".to_string(),
        ..Default::default()
    });
    let mut runtime = LdtkRuntimeState::default();
    let mut collision = LdtkCollisionCatalog::default();
    let mut entities = LdtkEntityCatalog::default();
    sync_level_lifecycle_event(
        &LdtkLevelLifecycleEvent::Spawned("iid-a".to_string()),
        &mut runtime,
        &catalog,
        &mut collision,
        &mut entities,
    );
    assert!(runtime.loaded_levels.contains(&"iid-a".to_string()));

    for (level, iid) in [("Level_A", "iid-a"), ("Level_B", "iid-b"), ("Level_A", "iid-a")] {
        collision.cells.push(LdtkCollisionCell {
            level_identifier: level.to_string(),
            level_iid: iid.to_string(),
            ..Default::default()
        });
    }
    collision.layers.insert(
        "Level_A:Collision".to_string(),
        ldtk_integration::catalog::LdtkCollisionLayerInfo {
            level_iid: "iid-a".to_string(),
            ..Default::default()
        },
    );
    collision.layers.insert(
        "Level_B:Collision".to_string(),
        ldtk_integration::catalog::LdtkCollisionLayerInfo {
            level_iid: "iid-b".to_string(),
            ..Default::default()
        },
    );
    for (iid, level) in [("e1", "Level_A"), ("e2", "Level_B")] {
        entities.snapshots.insert(
            iid.to_string(),
            LdtkImportedEntity {
                entity_iid: iid.to_string(),
                level_identifier: Some(level.to_string()),
                ..Default::default()
            },
        );
        entities.by_iid.insert(iid.to_string(), 1);
    }
    sync_level_lifecycle_event(
        &LdtkLevelLifecycleEvent::Despawned("iid-a".to_string()),
        &mut runtime,
        &catalog,
        &mut collision,
        &mut entities,
    );
    assert!(!runtime.loaded_levels.contains(&"iid-a".to_string()));
    assert_eq!(collision.cells.len(), 1);
    assert_eq!(collision.cells[0].level_iid, "iid-b");
    assert!(collision.layers.get(&"Level_A:Collision".to_string()).is_none());
    assert!(collision.layers.get(&"Level_B:Collision".to_string()).is_some());
    assert!(entities.snapshots.get(&"e1".to_string()).is_none());
    assert!(entities.by_iid.get(&"e1".to_string()).is_none());
    assert!(entities.by_iid.get(&"e2".to_string()).is_some());
}
