use ldtk_integration::catalog::{LdtkLevelInfo, LdtkMapCatalog, LdtkSpawnPoint};
use ldtk_integration::config::LdtkConfig;
use ldtk_integration::entities::{LdtkEntitySpawnContext, LdtkImportedEntity};
use ldtk_integration::fields::{
    LdtkFieldAccess, LdtkFieldValue, LdtkNumber, LdtkTilesetRect, WideScalarBits,
};
use ldtk_integration::geometry::IVec2;
use ldtk_integration::keyed_map::{KeyedMap, KeyedSet};
use ldtk_integration::registry::LdtkEntityRegistry;
use ldtk_integration::state::{
    LdtkCommand, LdtkCommandQueue, LdtkLoadState, LdtkLoadStatus, LdtkRuntimeState,
    LdtkTransitionState, LdtkValidationReport,
};
use ldtk_integration::validation::validate_catalog;

fn number_as_f64(n: Option<LdtkNumber>) -> Option<f64> {
    n.map(|n| match n {
        LdtkNumber::Int(i) => i as f64,
        LdtkNumber::Float(bits) => f64::from_bits(bits.bits),
    })
}

#[test]
fn field_helpers_return_typed_values() {
    assert_eq!(LdtkFieldValue::Bool(true).as_bool(), Some(true));
    assert_eq!(LdtkFieldValue::Int(42).as_i64(), Some(42));
    assert_eq!(number_as_f64(LdtkFieldValue::Int(42).as_number()), Some(42.0));
    assert_eq!(
        number_as_f64(
            LdtkFieldValue::Float(WideScalarBits {
                bits: 1.5f64.to_bits()
            })
            .as_number()
        ),
        Some(1.5)
    );
    assert_eq!(
        LdtkFieldValue::String("door_a".to_string()).as_str(),
        Some("door_a")
    );
    assert_eq!(LdtkFieldValue::Null.as_bool(), None);
}

#[test]
fn field_helpers_on_points_tiles_and_mismatches() {
    assert_eq!(
        LdtkFieldValue::Point(Some(IVec2::new(1, 2))).as_point(),
        Some(Some(IVec2::new(1, 2)))
    );
    assert_eq!(LdtkFieldValue::Int(1).as_point(), None);
    let rect = LdtkTilesetRect {
        tileset_uid: 3,
        position: IVec2::new(16, 0),
        size: IVec2::new(16, 16),
    };
    assert_eq!(LdtkFieldValue::Tile(Some(rect)).as_tile(), Some(Some(&rect)));
    assert_eq!(LdtkFieldValue::Bool(true).as_i64(), None);
    assert_eq!(LdtkFieldValue::Int(1).as_str(), None);
}

#[test]
fn entity_field_helpers_read_from_snapshot() {
    let mut entity = LdtkImportedEntity::default();
    entity
        .field_values
        .insert("damage".to_string(), LdtkFieldValue::Int(7));
    entity
        .field_values
        .insert("locked".to_string(), LdtkFieldValue::Bool(false));

    assert_eq!(entity.field_i64("damage"), Some(7));
    assert_eq!(entity.field_bool("locked"), Some(false));
    assert_eq!(entity.field_str("missing"), None);

    let context = LdtkEntitySpawnContext::from_imported(&entity);
    assert_eq!(context.field_i64("damage"), Some(7));
    assert_eq!(number_as_f64(context.field_number("damage")), Some(7.0));
}

#[test]
fn config_layer_filters_are_combined() {
    let config = LdtkConfig::default()
        .include_layers(&["Ground", "Entities"])
        .exclude_layers(&["Debug"]);

    assert!(config.should_include_layer("Ground"));
    assert!(!config.should_include_layer("Background"));
    assert!(!config.should_include_layer("Debug"));
}

#[test]
fn exclusion_wins_over_inclusion_and_empty_lists_admit_all() {
    let config = LdtkConfig::default()
        .include_layers(&["Debug"])
        .exclude_layers(&["Debug"]);
    assert!(!config.should_include_layer("Debug"));
    assert!(LdtkConfig::default().should_include_layer("Anything"));
}

#[test]
fn config_defaults_and_builders() {
    let config = LdtkConfig::default();
    assert_eq!(config.asset_root, "assets");
    assert!(config.catalog_external_levels);
    assert!(config.validate_on_load);
    assert!(!config.strict_validation);
    let built = LdtkConfig::default()
        .with_world_asset_path("worlds/map.ldtk")
        .with_asset_root("data")
        .without_external_level_catalog()
        .without_validation()
        .without_unregistered_entity_warnings()
        .with_strict_validation();
    assert_eq!(built.world_asset_path.as_deref(), Some("worlds/map.ldtk"));
    assert_eq!(built.asset_root, "data");
    assert!(!built.catalog_external_levels);
    assert!(!built.validate_on_load);
    assert!(!built.warn_on_unregistered_entities);
    assert!(built.strict_validation);
}

#[test]
fn missing_spawn_point_is_a_warning_unless_strict() {
    let mut catalog = LdtkMapCatalog::default();
    catalog.insert_level_info(LdtkLevelInfo {
        identifier: "Level_A".to_string(),
        ..Default::default()
    });

    let registry: LdtkEntityRegistry<()> = LdtkEntityRegistry::default();
    let mut report = LdtkValidationReport::default();

    validate_catalog(&catalog, &registry, &LdtkConfig::default(), &mut report, true);
    assert!(!report.has_errors());
    assert!(report
        .warnings
        .iter()
        .any(|i| i.code == "missing_spawn_point"));

    let mut report = LdtkValidationReport::default();
    validate_catalog(
        &catalog,
        &registry,
        &LdtkConfig::default().with_strict_validation(),
        &mut report,
        true,
    );
    assert!(report.has_errors());
    assert!(report
        .errors
        .iter()
        .any(|i| i.code == "missing_spawn_point"));
}

#[test]
fn registered_spawn_point_passes() {
    let mut catalog = LdtkMapCatalog::default();
    catalog.insert_level_info(LdtkLevelInfo {
        identifier: "Level_A".to_string(),
        spawn_points: vec![LdtkSpawnPoint {
            identifier: "PlayerSpawn".to_string(),
            ..Default::default()
        }],
        ..Default::default()
    });

    let registry: LdtkEntityRegistry<()> = LdtkEntityRegistry::default();
    let mut report = LdtkValidationReport::default();
    validate_catalog(
        &catalog,
        &registry,
        &LdtkConfig::default().without_unregistered_entity_warnings(),
        &mut report,
        true,
    );

    assert!(!report.has_errors());
    assert!(report.warnings.is_empty());
}

#[test]
fn external_levels_are_reported_by_platform() {
    let mut catalog = LdtkMapCatalog::default();
    catalog.insert_level_info(LdtkLevelInfo {
        identifier: "Level_X".to_string(),
        external_path: Some("x.ldtkl".to_string()),
        spawn_points: vec![LdtkSpawnPoint::default()],
        ..Default::default()
    });
    let registry: LdtkEntityRegistry<()> = LdtkEntityRegistry::default();
    let mut report = LdtkValidationReport::default();
    validate_catalog(&catalog, &registry, &LdtkConfig::default(), &mut report, false);
    assert!(report
        .warnings
        .iter()
        .any(|i| i.code == "external_level_wasm_unsupported"));
    let mut report = LdtkValidationReport::default();
    validate_catalog(
        &catalog,
        &registry,
        &LdtkConfig::default().without_external_level_catalog(),
        &mut report,
        true,
    );
    assert!(report
        .warnings
        .iter()
        .any(|i| i.code == "external_level_not_cataloged"));
}

#[test]
fn unregistered_entities_are_reported_unless_disabled() {
    let mut catalog = LdtkMapCatalog::default();
    catalog.insert_level_info(LdtkLevelInfo {
        identifier: "Level_A".to_string(),
        spawn_points: vec![LdtkSpawnPoint::default()],
        entities: vec![LdtkImportedEntity {
            entity_identifier: "Door".to_string(),
            ..Default::default()
        }],
        ..Default::default()
    });
    let mut registry: LdtkEntityRegistry<u8> = LdtkEntityRegistry::default();
    let mut report = LdtkValidationReport::default();
    validate_catalog(&catalog, &registry, &LdtkConfig::default(), &mut report, true);
    assert_eq!(report.warnings.len(), 1);
    assert_eq!(report.warnings[0].code, "unregistered_entity");
    assert_eq!(
        report.warnings[0].message,
        "LDtk entity 'Door' in level 'Level_A' has no registered bundle/spawner."
    );
    registry.register_spawner("Door", 1);
    let mut report = LdtkValidationReport::default();
    validate_catalog(&catalog, &registry, &LdtkConfig::default(), &mut report, true);
    assert!(report.warnings.is_empty());
}

#[test]
fn registry_prefers_exact_then_entity_then_layer_then_global() {
    let mut registry: LdtkEntityRegistry<u8> = LdtkEntityRegistry::new();
    assert_eq!(registry.resolve(Some("Entities"), "Door"), None);
    registry.register_spawner_for_layer_optional(None, None, 4);
    assert_eq!(registry.resolve(Some("Entities"), "Door"), Some(&4));
    registry.register_spawner_for_layer_optional(Some("Entities".to_string()), None, 3);
    assert_eq!(registry.resolve(Some("Entities"), "Door"), Some(&3));
    assert_eq!(registry.resolve(None, "Door"), Some(&4));
    registry.register_spawner("Door", 2);
    assert_eq!(registry.resolve(Some("Entities"), "Door"), Some(&2));
    registry.register_spawner_for_layer("Entities", "Door", 1);
    assert_eq!(registry.resolve(Some("Entities"), "Door"), Some(&1));
    assert_eq!(registry.resolve(Some("Other"), "Door"), Some(&2));
}

#[test]
fn validation_push_and_clear() {
    let mut report = LdtkValidationReport::default();
    report.push(false, "a", "first".to_string());
    report.push(true, "b", "second".to_string());
    assert_eq!(report.warnings.len(), 1);
    assert_eq!(report.errors.len(), 1);
    assert!(report.has_errors());
    assert_eq!(report.errors[0].code, "b");
    report.clear();
    assert!(!report.has_errors());
    assert!(report.warnings.is_empty());
}

#[test]
fn world_commands_drive_the_runtime_state() {
    let mut queue = LdtkCommandQueue::default();
    queue.push(LdtkCommand::SpawnWorld {
        world_path: "w.ldtk".to_string(),
    });
    queue.push(LdtkCommand::ReloadWorld);
    let drained = queue.drain();
    assert_eq!(drained.len(), 2);
    assert!(queue.pending.is_empty());

    let mut runtime = LdtkRuntimeState::default();
    let mut load_state = LdtkLoadState::default();
    load_state.warnings.push("old".to_string());
    let previous = runtime.begin_world_spawn(&mut load_state, "w.ldtk".to_string(), "w".to_string(), 9);
    assert_eq!(previous, None);
    assert_eq!(runtime.transition, LdtkTransitionState::Loading);
    assert_eq!(load_state.status, LdtkLoadStatus::Loading);
    assert!(load_state.warnings.is_empty());
    assert_eq!(runtime.reload_target().as_deref(), Some("w.ldtk"));
    runtime.activate_level("Level_A".to_string());
    assert_eq!(runtime.active_level.as_deref(), Some("Level_A"));
    let root = runtime.unload_world(&mut load_state);
    assert_eq!(root, Some(9));
    assert_eq!(runtime.transition, LdtkTransitionState::Idle);
    assert_eq!(load_state.status, LdtkLoadStatus::NotLoaded);
    assert!(runtime.reload_target().is_none());
    assert!(!load_state.is_ready());
}

#[test]
fn keyed_maps_keep_one_entry_per_key_in_insertion_order() {
    let mut m: KeyedMap<String, i32> = KeyedMap::new();
    m.insert("b".to_string(), 1);
    m.insert("a".to_string(), 2);
    m.insert("b".to_string(), 3);
    assert_eq!(m.len(), 2);
    assert_eq!(m.get(&"b".to_string()), Some(&3));
    assert_eq!(m.key_at(0), "b");
    assert_eq!(m.remove(&"b".to_string()), Some(3));
    assert_eq!(m.remove(&"b".to_string()), None);
    assert_eq!(m.len(), 1);
    let mut s: KeyedSet<i32> = KeyedSet::new();
    s.insert(1);
    s.insert(1);
    assert_eq!(s.len(), 1);
    s.remove(&1);
    assert!(s.is_empty());
}
