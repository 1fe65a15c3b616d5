use ldtk_integration::catalog::{
    LdtkCollisionCatalog, LdtkCollisionCell, LdtkLayerInfo, LdtkLevelInfo, LdtkMapCatalog,
};
use ldtk_integration::entities::LdtkImportedEntity;
use ldtk_integration::geometry::{HalfPixelPos, IVec2};

fn half_pixels_to_f32(p: Option<HalfPixelPos>) -> Option<(f32, f32)> {
    p.map(|p| (p.x2 as f32 / 2.0, p.y2 as f32 / 2.0))
}

fn cell_center_scenario() {
    let mut map = LdtkMapCatalog::default();
    map.insert_level_info(LdtkLevelInfo {
        iid: "lvl-iid".to_string(),
        identifier: "Level_A".to_string(),
        size: IVec2::new(256, 128),
        world_position: IVec2::new(0, 0),
        ..Default::default()
    });
    map.layers.insert(
        "layer-iid".to_string(),
        LdtkLayerInfo {
            iid: "layer-iid".to_string(),
            grid_size: 16,
            ..Default::default()
        },
    );

    let catalog = LdtkCollisionCatalog::default();
    let cell = LdtkCollisionCell {
        level_identifier: "Level_A".to_string(),
        layer_iid: "layer-iid".to_string(),
        grid_position: IVec2::new(0, 0),
        ..Default::default()
    };

    // Level origin (bottom-left) is (0, -0 - 128) = (0, -128); the bottom-left
    // cell center sits half a grid cell in from there.
    assert_eq!(
        half_pixels_to_f32(catalog.cell_world_center(&cell, &map)),
        Some((8.0, -120.0))
    );

    // A cell whose layer is not in the catalog resolves to None.
    let orphan = LdtkCollisionCell {
        level_identifier: "Level_A".to_string(),
        layer_iid: "missing".to_string(),
        ..Default::default()
    };
    assert_eq!(catalog.cell_world_center(&orphan, &map), None);
}

#[test]
fn catalog_collision_cell_world_center_matches_spawn_convention() {
    cell_center_scenario();
}

#[test]
fn core_collision_cell_world_center_matches_spawn_convention() {
    cell_center_scenario();
}

fn levels_by_identifier_and_iid_scenario() {
    let mut catalog = LdtkMapCatalog::default();
    let info = LdtkLevelInfo {
        iid: "abc-123".to_string(),
        identifier: "Level_A".to_string(),
        ..Default::default()
    };
    catalog.insert_level_info(info);

    assert_eq!(catalog.identifier_for_iid("abc-123"), Some("Level_A"));
    assert_eq!(
        catalog
            .level_by_id_or_iid("Level_A")
            .map(|l| l.iid.as_str()),
        Some("abc-123")
    );
    assert_eq!(
        catalog
            .level_by_id_or_iid("abc-123")
            .map(|l| l.identifier.as_str()),
        Some("Level_A")
    );
    assert!(catalog.level_by_id_or_iid("missing").is_none());
}

#[test]
fn catalog_catalog_resolves_levels_by_identifier_and_iid() {
    levels_by_identifier_and_iid_scenario();
}

#[test]
fn core_catalog_resolves_levels_by_identifier_and_iid() {
    levels_by_identifier_and_iid_scenario();
}

#[test]
fn catalog_resolves_entity_snapshots_by_iid() {
    let mut catalog = LdtkMapCatalog::default();
    catalog.insert_level_info(LdtkLevelInfo {
        iid: "lvl-iid".to_string(),
        identifier: "Level_A".to_string(),
        entities: vec![
            LdtkImportedEntity {
                entity_iid: "ent-1".to_string(),
                entity_identifier: "Door".to_string(),
                ..Default::default()
            },
            LdtkImportedEntity {
                entity_iid: "ent-2".to_string(),
                entity_identifier: "Chest".to_string(),
                ..Default::default()
            },
        ],
        ..Default::default()
    });

    assert_eq!(
        catalog
            .entity_snapshot_by_iid("ent-2")
            .map(|e| e.entity_identifier.as_str()),
        Some("Chest")
    );
    assert!(catalog.entity_snapshot_by_iid("missing").is_none());

    catalog.clear();
    assert!(catalog.entity_snapshot_by_iid("ent-2").is_none());
}

#[test]
fn catalog_finds_levels_by_uid() {
    let mut catalog = LdtkMapCatalog::default();
    catalog.insert_level_info(LdtkLevelInfo {
        iid: "lvl-1".to_string(),
        uid: 42,
        identifier: "Level_A".to_string(),
        ..Default::default()
    });
    assert_eq!(
        catalog.level_by_uid(42).map(|l| l.identifier.as_str()),
        Some("Level_A")
    );
    assert!(catalog.level_by_uid(7).is_none());
    assert!(!catalog.is_empty());
}

#[test]
fn reinserted_level_replaces_the_earlier_record() {
    let mut catalog = LdtkMapCatalog::default();
    catalog.insert_level_info(LdtkLevelInfo {
        iid: "old-iid".to_string(),
        identifier: "Level_A".to_string(),
        ..Default::default()
    });
    catalog.insert_level_info(LdtkLevelInfo {
        iid: "new-iid".to_string(),
        identifier: "Level_A".to_string(),
        ..Default::default()
    });
    assert_eq!(catalog.levels.len(), 1);
    assert_eq!(
        catalog.level_by_id_or_iid("Level_A").map(|l| l.iid.as_str()),
        Some("new-iid")
    );
}

#[test]
fn cleared_catalog_is_empty() {
    let mut catalog = LdtkMapCatalog::default();
    catalog.insert_level_info(LdtkLevelInfo {
        iid: "abc".to_string(),
        identifier: "Level_A".to_string(),
        ..Default::default()
    });
    catalog.clear();
    assert!(catalog.is_empty());
    assert!(catalog.level_by_id_or_iid("Level_A").is_none());
    assert!(catalog.identifier_for_iid("abc").is_none());
}

#[test]
fn cell_center_of_an_offset_level_and_cell() {
    let mut map = LdtkMapCatalog::default();
    map.insert_level_info(LdtkLevelInfo {
        iid: "lvl".to_string(),
        identifier: "Level_B".to_string(),
        size: IVec2::new(64, 32),
        world_position: IVec2::new(100, 50),
        ..Default::default()
    });
    map.layers.insert(
        "layer".to_string(),
        LdtkLayerInfo {
            iid: "layer".to_string(),
            grid_size: 8,
            ..Default::default()
        },
    );
    let catalog = LdtkCollisionCatalog::default();
    let cell = LdtkCollisionCell {
        level_identifier: "Level_B".to_string(),
        layer_iid: "layer".to_string(),
        grid_position: IVec2::new(2, 1),
        ..Default::default()
    };
    // Origin (100, -50 - 32) = (100, -82); centre (2.5 * 8, 1.5 * 8) in.
    assert_eq!(
        catalog.cell_world_center(&cell, &map),
        Some(HalfPixelPos { x2: 240, y2: -140 })
    );
}

#[test]
fn cell_center_needs_a_positive_grid_size() {
    let mut map = LdtkMapCatalog::default();
    map.insert_level_info(LdtkLevelInfo {
        iid: "lvl".to_string(),
        identifier: "Level_A".to_string(),
        ..Default::default()
    });
    map.layers.insert(
        "layer".to_string(),
        LdtkLayerInfo {
            iid: "layer".to_string(),
            grid_size: 0,
            ..Default::default()
        },
    );
    let catalog = LdtkCollisionCatalog::default();
    let cell = LdtkCollisionCell {
        level_identifier: "Level_A".to_string(),
        layer_iid: "layer".to_string(),
        ..Default::default()
    };
    assert_eq!(catalog.cell_world_center(&cell, &map), None);
}
