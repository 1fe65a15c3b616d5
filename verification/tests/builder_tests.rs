use std::path::PathBuf;

use ldtk_integration::animation::{
    current_tile_id, parse_tile_animation, tile_rotation_from_flags, LdtkFrameTiming,
    LdtkTileAnimation,
};
use ldtk_integration::builder::{
    extract_tilesets, neighbor_cost, parse_neighbor_direction, tile_id_from_rect,
};
use ldtk_integration::catalog::{
    LdtkLayerType, LdtkMapCatalog, LdtkNeighborCost, LdtkTilesetInfo, LdtkWorldLayout,
};
use ldtk_integration::config::LdtkConfig;
use ldtk_integration::entities::LdtkImportedEntity;
use ldtk_integration::fields::{LdtkFieldValue, LdtkTilesetRect};
use ldtk_integration::geometry::{
    direction_by_world_position, ldtk_px_to_world, IVec2, LdtkDirection, ScalarBits, ScalarPair,
};
use ldtk_integration::keyed_map::KeyedMap;
use ldtk_integration::project::{
    LdtkEntityInstanceData, LdtkEnumTagData, LdtkLayerInstanceData, LdtkLevelData,
    LdtkNeighbourData, LdtkProjectData, LdtkTileInstanceData, LdtkTilesetDefinitionData,
    LdtkWorldData,
};
use ldtk_integration::refresh::{
    external_level_path, external_level_to_read, finish_catalog_refresh, rebuild_map_catalog,
    should_rebuild_catalog, update_load_stats, world_directory, world_identifier_from_path,
    world_identifier_from_stem,
};
use ldtk_integration::registry::LdtkEntityRegistry;
use ldtk_integration::state::{
    LdtkLoadState, LdtkLoadStatus, LdtkRuntimeState, LdtkTransitionState, LdtkValidationReport,
};

/// Seconds per frame, following the documented timing rule: the frame's own
/// seconds when they read as a number; else the last timing setting that
/// reads as a number (fps gives 1 / max(fps, 0.001), a duration gives
/// max(duration, 0.001)); else 0.1. Never below 0.001.
fn frame_seconds(animation: &LdtkTileAnimation, index: usize) -> f32 {
    let own = animation.frames[index]
        .seconds
        .as_deref()
        .and_then(|s| s.parse::<f32>().ok());
    let shared = animation
        .timing
        .iter()
        .filter_map(|t| match t {
            LdtkFrameTiming::FramesPerSecond(v) => {
                v.parse::<f32>().ok().map(|fps| 1.0 / fps.max(0.001))
            }
            LdtkFrameTiming::Seconds(v) => v.parse::<f32>().ok().map(|d| d.max(0.001)),
        })
        .last();
    own.or(shared).unwrap_or(0.1).max(0.001)
}

#[test]
fn parses_animation_custom_data_with_fps() {
    let animation = parse_tile_animation("anim=1,2,3;fps=12").expect("animation");

    assert_eq!(animation.frames.len(), 3);
    assert_eq!(animation.frames[0].tile_id, 1);
    assert!((frame_seconds(&animation, 0) - (1.0 / 12.0)).abs() < f32::EPSILON);
    assert!(animation.repeat);
}

#[test]
fn parses_animation_custom_data_with_frame_durations() {
    let animation =
        parse_tile_animation("frames=4@0.1,5@0.25;repeat=false").expect("animation");

    assert_eq!(animation.frames.len(), 2);
    assert_eq!(animation.frames[1].tile_id, 5);
    assert_eq!(frame_seconds(&animation, 1), 0.25);
    assert!(!animation.repeat);
}

#[test]
fn ignores_custom_data_without_animation_marker() {
    assert!(parse_tile_animation("solid=true").is_none());
}

#[test]
fn animation_keeps_timing_text_and_drops_bad_frames() {
    let animation = parse_tile_animation("anim=7,x,8;duration=0.3;fps=abc").expect("animation");
    assert_eq!(
        animation.frames.iter().map(|f| f.tile_id).collect::<Vec<_>>(),
        vec![7, 8]
    );
    assert_eq!(
        animation.timing,
        vec![
            LdtkFrameTiming::Seconds("0.3".to_string()),
            LdtkFrameTiming::FramesPerSecond("abc".to_string()),
        ]
    );
    // The last timing setting does not read as a number, so the duration one applies.
    assert!((frame_seconds(&animation, 0) - 0.3).abs() < 1e-6);
    assert!(parse_tile_animation("anim=").is_none());
}

fn tileset_4x4() -> LdtkTilesetInfo {
    LdtkTilesetInfo {
        tile_grid_size: 16,
        spacing: 0,
        padding: 0,
        grid_size_cells: IVec2::new(4, 4),
        ..Default::default()
    }
}

fn rect(x: i32, y: i32) -> LdtkTilesetRect {
    LdtkTilesetRect {
        tileset_uid: 1,
        position: IVec2::new(x, y),
        size: IVec2::new(16, 16),
    }
}

#[test]
fn catalog_builder_resolves_tile_id_from_tileset_rect() {
    assert_eq!(tile_id_from_rect(&rect(32, 16), &tileset_4x4()), Some(6));
}

#[test]
fn plugins_resolves_tile_id_from_tileset_rect() {
    assert_eq!(tile_id_from_rect(&rect(32, 16), &tileset_4x4()), Some(6));
}

#[test]
fn tile_id_outside_the_tileset_is_none() {
    assert_eq!(tile_id_from_rect(&rect(64, 0), &tileset_4x4()), None);
    assert_eq!(tile_id_from_rect(&rect(-16, 0), &tileset_4x4()), None);
    let mut no_stride = tileset_4x4();
    no_stride.tile_grid_size = 0;
    assert_eq!(tile_id_from_rect(&rect(0, 0), &no_stride), None);
    let mut spaced = tileset_4x4();
    spaced.spacing = 2;
    spaced.padding = 1;
    // (37 - 1) / 18 = 2, (19 - 1) / 18 = 1.
    assert_eq!(tile_id_from_rect(&rect(37, 19), &spaced), Some(6));
}

#[test]
fn converts_ldtk_pixels_to_bevy_world_y_up() {
    let to_f32 = |p: ldtk_integration::geometry::WorldPos| (p.x as f32, p.y as f32);
    assert_eq!(
        to_f32(ldtk_px_to_world(IVec2::new(32, 48), IVec2::zero())),
        (32.0, -48.0)
    );
    assert_eq!(
        to_f32(ldtk_px_to_world(IVec2::new(10, 20), IVec2::new(256, 128))),
        (266.0, -148.0)
    );
}

#[test]
fn core_builds_external_level_path_relative_to_world_file() {
    let path = external_level_path(
        "assets",
        "worlds/SeparateLevelFiles.ldtk",
        "SeparateLevelFiles/World_Level_0.ldtkl",
    );

    assert_eq!(
        path,
        PathBuf::from("assets")
            .join("worlds")
            .join("SeparateLevelFiles")
            .join("World_Level_0.ldtkl")
    );
}

#[test]
fn plugins_builds_external_level_path_relative_to_world_file() {
    let path = external_level_path(
        "assets",
        "worlds/SeparateLevelFiles.ldtk",
        "SeparateLevelFiles/World_Level_0.ldtkl",
    );

    assert_eq!(
        path,
        PathBuf::from("assets")
            .join("worlds")
            .join("SeparateLevelFiles")
            .join("World_Level_0.ldtkl")
    );
}

#[test]
fn external_level_path_without_world_directory() {
    assert_eq!(
        external_level_path("assets", "map.ldtk", "map/Level_0.ldtkl"),
        PathBuf::from("assets").join("map").join("Level_0.ldtkl")
    );
}

#[test]
fn world_identifier_is_the_file_stem() {
    assert_eq!(world_identifier_from_path("worlds/map.ldtk"), "map");
    assert_eq!(world_identifier_from_path("Overworld.ldtk"), "Overworld");
    assert_eq!(world_identifier_from_path(""), "");
}

#[test]
fn neighbour_codes_map_to_directions_and_costs() {
    assert_eq!(parse_neighbor_direction("n"), Some(LdtkDirection::North));
    assert_eq!(parse_neighbor_direction("S"), Some(LdtkDirection::South));
    assert_eq!(parse_neighbor_direction("east"), Some(LdtkDirection::East));
    assert_eq!(parse_neighbor_direction("w"), Some(LdtkDirection::West));
    assert_eq!(parse_neighbor_direction("ne"), None);
    assert_eq!(neighbor_cost("o"), LdtkNeighborCost::Overlap);
    assert_eq!(neighbor_cost("<"), LdtkNeighborCost::Depth);
    assert_eq!(neighbor_cost(">"), LdtkNeighborCost::Depth);
    assert_eq!(neighbor_cost("ne"), LdtkNeighborCost::Diagonal);
    assert_eq!(neighbor_cost("n"), LdtkNeighborCost::Cardinal);
    assert_eq!(neighbor_cost("north"), LdtkNeighborCost::Cardinal);
}

#[test]
fn direction_from_world_positions() {
    let d = |a: (i32, i32), b: (i32, i32)| {
        direction_by_world_position(IVec2::new(a.0, a.1), IVec2::new(b.0, b.1))
    };
    assert_eq!(d((0, 0), (100, 10)), Some(LdtkDirection::East));
    assert_eq!(d((0, 0), (-100, 10)), Some(LdtkDirection::West));
    assert_eq!(d((0, 0), (10, -100)), Some(LdtkDirection::North));
    assert_eq!(d((0, 0), (10, 100)), Some(LdtkDirection::South));
    assert_eq!(d((0, 0), (0, 0)), Some(LdtkDirection::South));
    assert_eq!(d((-1, -1), (10, 100)), None);
    assert_eq!(d((-1, 5), (10, 5)), Some(LdtkDirection::East));
    // Seen from the other side the direction is the opposite one.
    assert_eq!(d((10, 100), (0, 0)), Some(LdtkDirection::North));
}

#[test]
fn tile_rotation_and_current_frame() {
    assert_eq!(tile_rotation_from_flags(0), 0);
    assert_eq!(tile_rotation_from_flags(1), 0);
    assert_eq!(tile_rotation_from_flags(2), 180);
    assert_eq!(tile_rotation_from_flags(3), 180);
    assert_eq!(tile_rotation_from_flags(-1), 180);
    let animation = parse_tile_animation("anim=4,5").unwrap();
    assert_eq!(current_tile_id(&animation, 1), Some(5));
    assert_eq!(current_tile_id(&animation, 2), None);
}

fn entity(iid: &str, identifier: &str, px: (i32, i32), tags: &[&str]) -> LdtkEntityInstanceData {
    LdtkEntityInstanceData {
        iid: iid.to_string(),
        identifier: identifier.to_string(),
        px: IVec2::new(px.0, px.1),
        grid: IVec2::new(px.0 / 16, px.1 / 16),
        width: 16,
        height: 16,
        pivot: ScalarPair::default(),
        tags: tags.iter().map(|t| t.to_string()).collect(),
        tile: None,
        field_instances: vec![("hp".to_string(), LdtkFieldValue::Int(3))],
    }
}

fn layer(iid: &str, identifier: &str, entities: Vec<LdtkEntityInstanceData>) -> LdtkLayerInstanceData {
    LdtkLayerInstanceData {
        iid: iid.to_string(),
        identifier: identifier.to_string(),
        layer_type: LdtkLayerType::Entities,
        grid_size: 16,
        c_wid: 4,
        c_hei: 4,
        override_tileset_uid: None,
        tileset_def_uid: Some(1),
        tileset_rel_path: None,
        opacity: ScalarBits::default(),
        visible: true,
        entity_instances: entities,
        grid_tiles: vec![LdtkTileInstanceData {
            t: 3,
            px: IVec2::new(16, 0),
            src: IVec2::new(48, 0),
            f: 1,
            a: ScalarBits::default(),
        }],
        auto_layer_tiles: Vec::new(),
    }
}

fn level(
    iid: &str,
    identifier: &str,
    world: (i32, i32),
    layers: Option<Vec<LdtkLayerInstanceData>>,
    neighbours: Vec<(&str, &str)>,
) -> LdtkLevelData {
    LdtkLevelData {
        iid: iid.to_string(),
        uid: identifier.len() as i32,
        identifier: identifier.to_string(),
        external_rel_path: None,
        px_wid: 64,
        px_hei: 64,
        world_x: world.0,
        world_y: world.1,
        field_instances: Vec::new(),
        layer_instances: layers,
        neighbours: neighbours
            .into_iter()
            .map(|(level_iid, dir)| LdtkNeighbourData {
                level_iid: level_iid.to_string(),
                dir: dir.to_string(),
            })
            .collect(),
    }
}

fn tileset_definition() -> LdtkTilesetDefinitionData {
    LdtkTilesetDefinitionData {
        uid: 1,
        identifier: "Tiles".to_string(),
        rel_path: Some("tiles.png".to_string()),
        tile_grid_size: 16,
        c_wid: 4,
        c_hei: 4,
        px_wid: 64,
        px_hei: 64,
        spacing: 0,
        padding: 0,
        tags: Vec::new(),
        enum_tags: vec![LdtkEnumTagData {
            enum_value_id: "Water".to_string(),
            tile_ids: vec![3, 5],
        }],
        custom_data: vec![(3, "anim=3,4;fps=8".to_string())],
    }
}

fn project() -> LdtkProjectData {
    let a = level(
        "iid-a",
        "Level_A",
        (0, 0),
        Some(vec![
            layer(
                "layer-a",
                "Entities",
                vec![
                    entity("ent-1", "PlayerSpawn", (32, 48), &[]),
                    entity("ent-2", "Chest", (16, 16), &["loot"]),
                ],
            ),
            layer("layer-debug", "Debug", vec![entity("ent-3", "Marker", (0, 0), &["spawn"])]),
        ]),
        vec![("iid-b", "e"), ("iid-x", "o")],
    );
    let b = level(
        "iid-b",
        "Level_B",
        (64, 0),
        Some(vec![layer("layer-b", "Entities", Vec::new())]),
        vec![("iid-a", "")],
    );
    LdtkProjectData {
        worlds: vec![LdtkWorldData {
            identifier: "World".to_string(),
            world_layout: Some(LdtkWorldLayout::GridVania),
            levels: vec![a, b],
        }],
        levels: Vec::new(),
        tilesets: vec![tileset_definition()],
    }
}

#[test]
fn tilesets_record_tags_and_custom_data() {
    let tilesets = extract_tilesets(&vec![tileset_definition()]);
    let info = tilesets.get(&1).unwrap();
    assert_eq!(info.identifier, "Tiles");
    assert_eq!(info.tile_tags.get(&3), Some(&vec!["Water".to_string()]));
    assert_eq!(info.tile_tags.get(&5), Some(&vec!["Water".to_string()]));
    assert_eq!(info.custom_data.get(&3).map(|s| s.as_str()), Some("anim=3,4;fps=8"));
}

#[test]
fn rebuild_catalogs_worlds_levels_layers_and_neighbours() {
    let project = project();
    let config = LdtkConfig::default().exclude_layers(&["Debug"]);
    let mut catalog = LdtkMapCatalog::default();
    rebuild_map_catalog(
        &project,
        &"worlds/map.ldtk".to_string(),
        &KeyedMap::new(),
        &config,
        &mut catalog,
    );

    let world = catalog.worlds.get(&"World".to_string()).unwrap();
    assert_eq!(world.levels, vec!["Level_A".to_string(), "Level_B".to_string()]);
    assert_eq!(world.layout, LdtkWorldLayout::GridVania);
    assert_eq!(world.path, "worlds/map.ldtk");

    let a = catalog.level_by_id_or_iid("iid-a").unwrap();
    assert_eq!(a.identifier, "Level_A");
    assert_eq!(a.world_identifier, "World");
    // The Debug layer is excluded: its spawn marker is not cataloged.
    assert_eq!(a.spawn_points.len(), 1);
    assert_eq!(a.spawn_points[0].identifier, "PlayerSpawn");
    assert_eq!(
        (a.spawn_points[0].position.x, a.spawn_points[0].position.y),
        (32, -48)
    );
    assert_eq!(a.entities.len(), 2);
    assert_eq!(a.tiles.len(), 1);
    assert_eq!(a.tiles[0].tileset_identifier, "Tiles");
    assert_eq!(a.tiles[0].tags, vec!["Water".to_string()]);
    assert!(a.tiles[0].flip_x && !a.tiles[0].flip_y);
    assert!(a.tiles[0].animation.is_some());
    assert!(catalog.layers.get(&"layer-debug".to_string()).is_none());
    assert_eq!(
        catalog.layers.get(&"layer-a".to_string()).map(|l| l.level_identifier.as_str()),
        Some("Level_A")
    );

    assert_eq!(a.neighbors.len(), 2);
    assert_eq!(a.neighbors[0].level_identifier, "Level_B");
    assert_eq!(a.neighbors[0].direction, LdtkDirection::East);
    assert_eq!(a.neighbors[0].cost, LdtkNeighborCost::Cardinal);
    // An unknown target keeps its IID; an overlap is cheap.
    assert_eq!(a.neighbors[1].level_identifier, "iid-x");
    assert_eq!(a.neighbors[1].cost, LdtkNeighborCost::Overlap);
    let b = catalog.level_by_id_or_iid("Level_B").unwrap();
    // No direction code: derived from the world positions.
    assert_eq!(b.neighbors[0].direction, LdtkDirection::West);

    assert_eq!(
        catalog
            .entity_snapshot_by_iid("ent-2")
            .map(|e: &LdtkImportedEntity| e.tags.clone()),
        Some(vec!["loot".to_string()])
    );
    assert!(catalog.tile_animations.len() == 1);
}

#[test]
fn rebuild_without_worlds_names_the_world_after_the_file() {
    let mut project = project();
    let levels = std::mem::take(&mut project.worlds[0].levels);
    project.worlds.clear();
    project.levels = levels;
    let mut catalog = LdtkMapCatalog::default();
    rebuild_map_catalog(
        &project,
        &"worlds/Overworld.ldtk".to_string(),
        &KeyedMap::new(),
        &LdtkConfig::default(),
        &mut catalog,
    );
    let world = catalog.worlds.get(&"Overworld".to_string()).unwrap();
    assert_eq!(world.layout, LdtkWorldLayout::Free);
    assert_eq!(catalog.levels.len(), 2);
    assert_eq!(
        catalog.level_by_id_or_iid("Level_B").map(|l| l.world_identifier.as_str()),
        Some("Overworld")
    );
}

#[test]
fn external_level_contents_replace_the_stub() {
    let mut project = project();
    project.worlds[0].levels[1].layer_instances = None;
    project.worlds[0].levels[1].external_rel_path = Some("map/Level_B.ldtkl".to_string());
    let config = LdtkConfig::default();
    assert_eq!(
        external_level_to_read(&project.worlds[0].levels[1], &config).map(|p| p.as_str()),
        Some("map/Level_B.ldtkl")
    );
    assert!(external_level_to_read(&project.worlds[0].levels[0], &config).is_none());
    let no_external = LdtkConfig::default().without_external_level_catalog();
    assert!(external_level_to_read(&project.worlds[0].levels[1], &no_external).is_none());

    let mut loaded = level(
        "iid-b",
        "Level_B",
        (64, 0),
        Some(vec![layer(
            "layer-ext",
            "Entities",
            vec![entity("ent-9", "PlayerSpawn", (0, 0), &[])],
        )]),
        Vec::new(),
    );
    loaded.external_rel_path = Some("map/Level_B.ldtkl".to_string());
    let mut external = KeyedMap::new();
    external.insert("map/Level_B.ldtkl".to_string(), loaded);
    let mut catalog = LdtkMapCatalog::default();
    rebuild_map_catalog(&project, &"map.ldtk".to_string(), &external, &config, &mut catalog);
    let b = catalog.level_by_id_or_iid("Level_B").unwrap();
    assert_eq!(b.spawn_points.len(), 1);
    assert!(catalog.layers.get(&"layer-ext".to_string()).is_some());
}

#[test]
fn finishing_a_refresh_marks_the_world_ready() {
    let project = project();
    let config = LdtkConfig::default();
    let mut catalog = LdtkMapCatalog::default();
    rebuild_map_catalog(&project, &"worlds/map.ldtk".to_string(), &KeyedMap::new(), &config, &mut catalog);
    let registry: LdtkEntityRegistry<()> = LdtkEntityRegistry::new();
    let mut runtime = LdtkRuntimeState::default();
    runtime.transition = LdtkTransitionState::Loading;
    runtime.active_world_path = Some("worlds/map.ldtk".to_string());
    let mut load_state = LdtkLoadState::default();
    load_state.stats.collision_cells = 5;
    let mut report = LdtkValidationReport::default();

    let outcome = finish_catalog_refresh(
        &catalog,
        &registry,
        &config,
        &mut runtime,
        &mut load_state,
        &mut report,
        true,
    );
    assert_eq!(load_state.stats.worlds, 1);
    assert_eq!(load_state.stats.levels, 2);
    assert_eq!(load_state.stats.spawn_points, 2);
    assert_eq!(load_state.stats.entities, 3);
    assert_eq!(load_state.stats.collision_cells, 5);
    assert_eq!(load_state.world_identifier.as_deref(), Some("map"));
    assert_eq!(load_state.status, LdtkLoadStatus::Ready);
    assert_eq!(runtime.transition, LdtkTransitionState::Active);
    assert_eq!(
        outcome.map_loaded.map(|e| e.world_identifier),
        Some("map".to_string())
    );
    let finished = outcome.validation_finished.unwrap();
    assert_eq!(finished.errors, 0);
    assert_eq!(finished.warnings, load_state.warnings.len());
    assert!(load_state
        .warnings
        .iter()
        .any(|w| w == "missing_spawn_point: Level 'Level_B' has no entity tagged/named as spawn."));
    assert!(load_state
        .warnings
        .iter()
        .any(|w| w.starts_with("unregistered_entity: LDtk entity 'Chest' in level 'Level_A'")));
}

#[test]
fn finishing_a_refresh_with_errors_fails_the_load() {
    let project = project();
    let config = LdtkConfig::default().with_strict_validation();
    let mut catalog = LdtkMapCatalog::default();
    rebuild_map_catalog(&project, &"worlds/map.ldtk".to_string(), &KeyedMap::new(), &config, &mut catalog);
    let registry: LdtkEntityRegistry<()> = LdtkEntityRegistry::new();
    let mut runtime = LdtkRuntimeState::default();
    runtime.transition = LdtkTransitionState::Loading;
    runtime.active_world_identifier = Some("Custom".to_string());
    let mut load_state = LdtkLoadState::default();
    let mut report = LdtkValidationReport::default();
    let outcome = finish_catalog_refresh(
        &catalog,
        &registry,
        &config,
        &mut runtime,
        &mut load_state,
        &mut report,
        true,
    );
    assert!(report.has_errors());
    assert_eq!(load_state.status, LdtkLoadStatus::Error);
    assert_eq!(load_state.world_identifier.as_deref(), Some("Custom"));
    assert_eq!(runtime.transition, LdtkTransitionState::Loading);
    assert!(outcome.map_loaded.is_none());
    assert_eq!(load_state.errors.len(), report.errors.len());
}

#[test]
fn refresh_without_validation_or_loading_changes_no_status() {
    let catalog = LdtkMapCatalog::default();
    let registry: LdtkEntityRegistry<()> = LdtkEntityRegistry::new();
    let config = LdtkConfig::default().without_validation();
    let mut runtime = LdtkRuntimeState::default();
    let mut load_state = LdtkLoadState::default();
    let mut report = LdtkValidationReport::default();
    let outcome = finish_catalog_refresh(
        &catalog,
        &registry,
        &config,
        &mut runtime,
        &mut load_state,
        &mut report,
        true,
    );
    assert!(outcome.validation_finished.is_none());
    assert!(outcome.map_loaded.is_none());
    assert_eq!(load_state.status, LdtkLoadStatus::NotLoaded);
    assert!(should_rebuild_catalog(false, &catalog));
}

#[test]
fn load_stats_count_catalog_contents() {
    let project = project();
    let mut catalog = LdtkMapCatalog::default();
    rebuild_map_catalog(
        &project,
        &"m.ldtk".to_string(),
        &KeyedMap::new(),
        &LdtkConfig::default(),
        &mut catalog,
    );
    let mut load_state = LdtkLoadState::default();
    update_load_stats(&catalog, &mut load_state);
    assert_eq!(load_state.stats.layers, 3);
    assert_eq!(load_state.stats.tilesets, 1);
    assert_eq!(load_state.stats.tiles, 3);
    assert_eq!(load_state.stats.entities, 3);
    // The Debug marker is tagged `spawn`, so it counts as a spawn point.
    assert_eq!(load_state.stats.spawn_points, 2);
    assert_eq!(load_state.stats.tile_animations, 1);
    assert!(!should_rebuild_catalog(false, &catalog));
    assert!(should_rebuild_catalog(true, &catalog));
}

#[test]
fn world_identifier_falls_back_to_the_path() {
    assert_eq!(world_identifier_from_stem(Some("map".to_string()), "w/map.ldtk"), "map");
    assert_eq!(world_identifier_from_stem(None, "w/.."), "w/..");
}

#[test]
fn worlds_less_project_loads_as_the_file_stem() {
    let mut only = level("lvl-a", "Level_A", (0, 0), Some(Vec::new()), Vec::new());
    only.uid = 7;
    let project = LdtkProjectData {
        worlds: Vec::new(),
        levels: vec![only],
        tilesets: Vec::new(),
    };
    let config = LdtkConfig::default();
    let mut catalog = LdtkMapCatalog::default();
    rebuild_map_catalog(&project, &"worlds/map.ldtk".to_string(), &KeyedMap::new(), &config, &mut catalog);
    let world = catalog.worlds.get(&"map".to_string()).unwrap();
    assert_eq!(world.levels, vec!["Level_A".to_string()]);
    assert_eq!(catalog.identifier_for_iid("lvl-a"), Some("Level_A"));
    assert_eq!(catalog.level_by_uid(7).unwrap().identifier, "Level_A");

    let registry: LdtkEntityRegistry<()> = LdtkEntityRegistry::new();
    let mut runtime = LdtkRuntimeState::default();
    runtime.transition = LdtkTransitionState::Loading;
    runtime.active_world_path = Some("worlds/map.ldtk".to_string());
    let mut load_state = LdtkLoadState::default();
    let mut report = LdtkValidationReport::default();
    let outcome = finish_catalog_refresh(
        &catalog,
        &registry,
        &config,
        &mut runtime,
        &mut load_state,
        &mut report,
        true,
    );
    assert_eq!(report.warnings.len(), 1);
    assert_eq!(report.warnings[0].code, "missing_spawn_point");
    assert_eq!(load_state.status, LdtkLoadStatus::Ready);
    assert_eq!(load_state.world_identifier.as_deref(), Some("map"));
    assert_eq!(runtime.transition, LdtkTransitionState::Active);
    assert_eq!(
        outcome.map_loaded.map(|e| e.world_identifier),
        Some("map".to_string())
    );
}

#[test]
fn world_directory_is_the_parent_of_the_world_file() {
    assert_eq!(world_directory("worlds/map.ldtk"), "worlds");
    assert_eq!(world_directory("assets/worlds/map.ldtk"), "assets/worlds");
    assert_eq!(world_directory("map.ldtk"), "");
    assert_eq!(world_directory(""), "");
}
