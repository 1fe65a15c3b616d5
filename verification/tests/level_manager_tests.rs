use std::time::Duration;

use ldtk_integration::animation::{
    advance_frame, parse_tile_animation, LdtkTileAnimation, LdtkTileAnimationFrame,
};
use ldtk_integration::catalog::LdtkLayerInfo;
use ldtk_integration::entities::LdtkTileMetadata;
use ldtk_integration::geometry::IVec2;
use ldtk_integration::level_manager::{build_tile_animation_lookup, tile_animation_for};
use ldtk_integration::catalog::{
    LdtkCollisionCatalog, LdtkCollisionCell, LdtkLevelInfo, LdtkMapCatalog, LdtkSpawnPoint,
};
use ldtk_integration::config::LdtkConfig;
use ldtk_integration::geometry::WorldPos;
use ldtk_integration::level_manager::{
    finalize_level_transition, handle_transition_request, initial_level_request,
    resolve_spawn_point, should_cleanup_entity, start_transition, CurrentLdtkLevel,
    LdtkLevelManagerConfig, LdtkTransitionOutcome, LevelTransitionRequest, LevelTransitionState,
    LevelTransitionStatus, PendingLdtkLevelTransition,
};
use ldtk_integration::state::{LdtkLoadState, LdtkLoadStatus, LdtkRuntimeState, LdtkValidationReport};

fn build_catalog_with_spawnpoints() -> LdtkMapCatalog {
    let mut catalog = LdtkMapCatalog::default();
    let mut level = LdtkLevelInfo::default();
    level.identifier = "Level_A".to_string();
    level.spawn_points = vec![
        LdtkSpawnPoint {
            identifier: "PlayerSpawn".to_string(),
            position: WorldPos::new(10, 20),
            tags: vec!["PlayerSpawn".to_string()],
            level_identifier: "Level_A".to_string(),
            layer_identifier: "Entities".to_string(),
        },
        LdtkSpawnPoint {
            identifier: "Alt".to_string(),
            position: WorldPos::new(30, 40),
            tags: vec!["Alt".to_string()],
            level_identifier: "Level_A".to_string(),
            layer_identifier: "Entities".to_string(),
        },
    ];
    catalog.insert_level_info(level);
    catalog
}

#[test]
fn resolves_explicit_spawn_id() {
    let catalog = build_catalog_with_spawnpoints();
    let config = LdtkLevelManagerConfig::default();

    let spawn =
        resolve_spawn_point(&catalog, "Level_A", Some("Alt"), &config).expect("spawnpoint");

    assert_eq!(spawn.identifier, "Alt");
}

#[test]
fn resolves_spawn_id_case_insensitively() {
    let catalog = build_catalog_with_spawnpoints();
    let config = LdtkLevelManagerConfig::default();

    let spawn = resolve_spawn_point(&catalog, "Level_A", Some("playerspawn"), &config)
        .expect("spawnpoint");
    assert_eq!(spawn.identifier, "PlayerSpawn");

    let alt =
        resolve_spawn_point(&catalog, "Level_A", Some("ALT"), &config).expect("spawnpoint");
    assert_eq!(alt.identifier, "Alt");
}

#[test]
fn falls_back_to_default_spawnpoint() {
    let catalog = build_catalog_with_spawnpoints();
    let config = LdtkLevelManagerConfig::default();

    let spawn = resolve_spawn_point(&catalog, "Level_A", None, &config).expect("spawnpoint");

    assert_eq!(spawn.identifier, "PlayerSpawn");
}

#[test]
fn missing_spawnpoint_returns_error() {
    let mut catalog = LdtkMapCatalog::default();
    let mut level = LdtkLevelInfo::default();
    level.identifier = "Level_A".to_string();
    catalog.insert_level_info(level);

    let result = resolve_spawn_point(
        &catalog,
        "Level_A",
        Some("Missing"),
        &LdtkLevelManagerConfig::default(),
    );

    assert!(result.is_err());
}

#[test]
fn advances_tile_animation_state() {
    let animation = LdtkTileAnimation {
        frames: vec![
            LdtkTileAnimationFrame {
                tile_id: 1,
                seconds: Some("0.05".to_string()),
            },
            LdtkTileAnimationFrame {
                tile_id: 2,
                seconds: Some("0.05".to_string()),
            },
        ],
        timing: Vec::new(),
        repeat: true,
    };
    let mut frame_index = 0usize;
    // The frame timer of 0.05 s finishes within a 60 ms tick.
    let first: f32 = animation.frames[0].seconds.as_deref().unwrap().parse().unwrap();
    let finished = Duration::from_millis(60) >= Duration::from_secs_f32(first);

    let frame = advance_frame(&animation, &mut frame_index, finished);

    assert_eq!(frame, Some(2));
}

#[test]
fn advance_at_last_frame_without_repeat_reports_no_change() {
    let animation = LdtkTileAnimation {
        frames: vec![
            LdtkTileAnimationFrame {
                tile_id: 4,
                seconds: None,
            },
            LdtkTileAnimationFrame {
                tile_id: 5,
                seconds: None,
            },
        ],
        timing: Vec::new(),
        repeat: false,
    };
    let mut frame_index = 0usize;
    assert_eq!(advance_frame(&animation, &mut frame_index, true), Some(5));
    assert_eq!(frame_index, 1);
    assert_eq!(advance_frame(&animation, &mut frame_index, true), None);
    assert_eq!(frame_index, 1);
    assert_eq!(advance_frame(&animation, &mut frame_index, false), None);
    assert_eq!(frame_index, 1);
}

#[test]
fn single_repeating_frame_never_reports_a_change() {
    let animation = LdtkTileAnimation {
        frames: vec![LdtkTileAnimationFrame {
            tile_id: 9,
            seconds: None,
        }],
        timing: Vec::new(),
        repeat: true,
    };
    let mut frame_index = 0usize;
    assert_eq!(advance_frame(&animation, &mut frame_index, true), None);
    assert_eq!(frame_index, 0);
}

#[test]
fn transition_state_changes_on_request() {
    let catalog = build_catalog_with_spawnpoints();
    let mut pending = PendingLdtkLevelTransition::default();
    let mut state = LevelTransitionState::default();

    let result = start_transition(
        &mut pending,
        &mut state,
        "Level_A".to_string(),
        None,
        &catalog,
    );

    assert!(result.is_ok());
    assert_eq!(state.status, LevelTransitionStatus::WaitingForSpawn);
    assert_eq!(pending.target_level.as_deref(), Some("Level_A"));
}

#[test]
fn transition_state_fails_for_unknown_level() {
    let catalog = build_catalog_with_spawnpoints();
    let mut pending = PendingLdtkLevelTransition::default();
    let mut state = LevelTransitionState::default();

    let result = start_transition(
        &mut pending,
        &mut state,
        "Missing".to_string(),
        None,
        &catalog,
    );

    assert!(result.is_err());
}

#[test]
fn cleanup_decision_respects_persistence() {
    assert!(!should_cleanup_entity(
        Some("Level_A"),
        None,
        true,
        false,
        "Level_A"
    ));
    assert!(!should_cleanup_entity(
        Some("Level_A"),
        None,
        false,
        true,
        "Level_A"
    ));
    assert!(should_cleanup_entity(
        Some("Level_A"),
        None,
        false,
        false,
        "Level_A"
    ));
    assert!(!should_cleanup_entity(
        Some("Level_B"),
        None,
        false,
        false,
        "Level_A"
    ));
}

#[test]
fn allows_fallback_spawnpoint_when_enabled() {
    let mut catalog = LdtkMapCatalog::default();
    let mut level = LdtkLevelInfo::default();
    level.identifier = "Level_A".to_string();
    catalog.insert_level_info(level);

    let mut config = LdtkLevelManagerConfig::default();
    config.allow_missing_spawnpoints = true;
    let spawn = resolve_spawn_point(&catalog, "Level_A", None, &config).expect("fallback");

    assert_eq!(spawn.identifier, "Fallback");
    assert_eq!(spawn.position, WorldPos::new(0, 0));
}

#[test]
fn spawn_errors_carry_their_messages() {
    let catalog = build_catalog_with_spawnpoints();
    let config = LdtkLevelManagerConfig::default();
    assert_eq!(
        resolve_spawn_point(&catalog, "Nowhere", None, &config).err(),
        Some("Level 'Nowhere' not found in LdtkMapCatalog".to_string())
    );
    assert_eq!(
        resolve_spawn_point(&catalog, "Level_A", Some("Boss"), &config).err(),
        Some("Spawnpoint 'Boss' not found in level 'Level_A'".to_string())
    );
    let mut empty = LdtkMapCatalog::default();
    let mut level = LdtkLevelInfo::default();
    level.identifier = "Level_A".to_string();
    empty.insert_level_info(level);
    assert_eq!(
        resolve_spawn_point(&empty, "Level_A", None, &config).err(),
        Some("Level 'Level_A' has no spawnpoints".to_string())
    );
}

#[test]
fn spawn_lookup_by_tag_and_first_spawn_fallback() {
    let mut catalog = LdtkMapCatalog::default();
    let mut level = LdtkLevelInfo::default();
    level.identifier = "Level_C".to_string();
    level.spawn_points = vec![
        LdtkSpawnPoint {
            identifier: "Door".to_string(),
            tags: vec!["exit".to_string()],
            ..Default::default()
        },
        LdtkSpawnPoint {
            identifier: "Window".to_string(),
            tags: vec!["EXIT".to_string(), "start".to_string()],
            ..Default::default()
        },
    ];
    catalog.insert_level_info(level);
    let config = LdtkLevelManagerConfig::default();
    // A tag names a spawn point too; the first match wins.
    let by_tag = resolve_spawn_point(&catalog, "Level_C", Some("Exit"), &config).unwrap();
    assert_eq!(by_tag.identifier, "Door");
    let by_second_tag = resolve_spawn_point(&catalog, "Level_C", Some("START"), &config).unwrap();
    assert_eq!(by_second_tag.identifier, "Window");
    // Without a default spawn point the first one is taken.
    let first = resolve_spawn_point(&catalog, "Level_C", None, &config).unwrap();
    assert_eq!(first.identifier, "Door");
}

#[test]
fn transition_request_for_unknown_level_fails_and_reports() {
    let catalog = build_catalog_with_spawnpoints();
    let mut pending = PendingLdtkLevelTransition::default();
    let mut state = LevelTransitionState::default();
    let mut load_state = LdtkLoadState::default();
    let mut report = LdtkValidationReport::default();
    let request = LevelTransitionRequest {
        target_level: "Nowhere".to_string(),
        spawn_id: None,
    };

    let lenient = LdtkConfig::default();
    let selection = handle_transition_request(
        &request,
        &mut pending,
        &mut state,
        &catalog,
        &lenient,
        &mut load_state,
        &mut report,
    );
    assert_eq!(selection, None);
    assert_eq!(state.status, LevelTransitionStatus::Failed);
    assert_eq!(
        state.error.as_deref(),
        Some("Level 'Nowhere' not found in LdtkMapCatalog")
    );
    assert_eq!(report.warnings.len(), 1);
    assert_eq!(report.warnings[0].code, "transition_level_missing");
    assert_eq!(load_state.status, LdtkLoadStatus::NotLoaded);

    let strict = LdtkConfig::default().with_strict_validation();
    let mut report = LdtkValidationReport::default();
    handle_transition_request(
        &request,
        &mut pending,
        &mut state,
        &catalog,
        &strict,
        &mut load_state,
        &mut report,
    );
    assert_eq!(report.errors.len(), 1);
    assert_eq!(load_state.status, LdtkLoadStatus::Error);
}

#[test]
fn transition_request_for_known_level_selects_it() {
    let mut catalog = build_catalog_with_spawnpoints();
    let mut level = LdtkLevelInfo::default();
    level.identifier = "Level_B".to_string();
    level.iid = "iid-b".to_string();
    catalog.insert_level_info(level);
    let mut pending = PendingLdtkLevelTransition::default();
    let mut state = LevelTransitionState::default();
    let mut load_state = LdtkLoadState::default();
    let mut report = LdtkValidationReport::default();
    let request = LevelTransitionRequest {
        target_level: "Level_B".to_string(),
        spawn_id: Some("Alt".to_string()),
    };
    let selection = handle_transition_request(
        &request,
        &mut pending,
        &mut state,
        &catalog,
        &LdtkConfig::default(),
        &mut load_state,
        &mut report,
    );
    assert_eq!(selection.as_deref(), Some("Level_B"));
    assert_eq!(pending.target_level_iid.as_deref(), Some("iid-b"));
    assert_eq!(pending.spawn_id.as_deref(), Some("Alt"));
    assert_eq!(state.status, LevelTransitionStatus::WaitingForSpawn);
    assert!(report.warnings.is_empty());
}

#[test]
fn first_known_spawned_level_becomes_the_initial_request() {
    let mut catalog = LdtkMapCatalog::default();
    let mut level = LdtkLevelInfo::default();
    level.identifier = "Level_A".to_string();
    level.iid = "iid-a".to_string();
    catalog.insert_level_info(level);
    let current = CurrentLdtkLevel::default();
    let pending = PendingLdtkLevelTransition::default();
    let spawned = vec!["unknown".to_string(), "iid-a".to_string()];

    let request = initial_level_request(&current, &pending, &catalog, &spawned).unwrap();
    assert_eq!(request.target_level, "Level_A");
    assert_eq!(request.spawn_id, None);

    let busy = CurrentLdtkLevel {
        identifier: Some("Level_A".to_string()),
        iid: None,
    };
    assert!(initial_level_request(&busy, &pending, &catalog, &spawned).is_none());
    let none_known = vec!["unknown".to_string()];
    assert!(initial_level_request(&current, &pending, &catalog, &none_known).is_none());
}

#[test]
fn finalizing_completes_the_pending_transition() {
    let mut catalog = build_catalog_with_spawnpoints();
    let mut level = LdtkLevelInfo::default();
    level.identifier = "Level_A".to_string();
    level.iid = "iid-a".to_string();
    level.spawn_points = vec![LdtkSpawnPoint {
        identifier: "Alt".to_string(),
        position: WorldPos::new(30, -40),
        ..Default::default()
    }];
    catalog.insert_level_info(level);
    let mut collision = LdtkCollisionCatalog::default();
    for id in ["Level_A", "Level_A", "Level_B"] {
        collision.cells.push(LdtkCollisionCell {
            level_identifier: id.to_string(),
            ..Default::default()
        });
    }
    let mut pending = PendingLdtkLevelTransition {
        target_level: Some("Level_A".to_string()),
        spawn_id: Some("alt".to_string()),
        target_level_iid: Some("iid-a".to_string()),
    };
    let mut state = LevelTransitionState {
        status: LevelTransitionStatus::WaitingForSpawn,
        error: None,
    };
    let mut current = CurrentLdtkLevel {
        identifier: Some("Level_Old".to_string()),
        iid: None,
    };
    let mut runtime = LdtkRuntimeState::default();
    let mut load_state = LdtkLoadState::default();
    let mut report = LdtkValidationReport::default();
    let spawned = vec!["other".to_string(), "iid-a".to_string()];

    let outcome = finalize_level_transition(
        &spawned,
        &mut pending,
        &mut state,
        &mut current,
        &mut runtime,
        &catalog,
        &collision,
        &LdtkLevelManagerConfig::default(),
        false,
        &mut load_state,
        &mut report,
    );
    match outcome {
        LdtkTransitionOutcome::Completed {
            cleanup_level,
            spawn,
            ready,
            collision,
        } => {
            assert_eq!(cleanup_level.as_deref(), Some("Level_Old"));
            assert_eq!(spawn.identifier, "Alt");
            assert_eq!(ready.level_identifier, "Level_A");
            assert_eq!(ready.spawn_id.as_deref(), Some("alt"));
            assert_eq!(ready.position, WorldPos::new(30, -40));
            assert_eq!(collision.cells, 2);
        }
        other => panic!("unexpected outcome {other:?}"),
    }
    assert_eq!(current.identifier.as_deref(), Some("Level_A"));
    assert_eq!(current.iid.as_deref(), Some("iid-a"));
    assert_eq!(runtime.active_level.as_deref(), Some("Level_A"));
    assert_eq!(state.status, LevelTransitionStatus::Ready);
    assert_eq!(pending, PendingLdtkLevelTransition::default());
}

#[test]
fn finalizing_without_a_spawn_point_fails_the_transition() {
    let mut catalog = LdtkMapCatalog::default();
    let mut level = LdtkLevelInfo::default();
    level.identifier = "Level_A".to_string();
    level.iid = "iid-a".to_string();
    catalog.insert_level_info(level);
    let mut pending = PendingLdtkLevelTransition {
        target_level: Some("Level_A".to_string()),
        spawn_id: None,
        target_level_iid: Some("iid-a".to_string()),
    };
    let mut state = LevelTransitionState::default();
    let mut current = CurrentLdtkLevel::default();
    let mut runtime = LdtkRuntimeState::default();
    let mut load_state = LdtkLoadState::default();
    let mut report = LdtkValidationReport::default();
    let outcome = finalize_level_transition(
        &vec!["iid-a".to_string()],
        &mut pending,
        &mut state,
        &mut current,
        &mut runtime,
        &catalog,
        &LdtkCollisionCatalog::default(),
        &LdtkLevelManagerConfig::default(),
        true,
        &mut load_state,
        &mut report,
    );
    assert!(matches!(outcome, LdtkTransitionOutcome::Failed));
    assert_eq!(state.status, LevelTransitionStatus::Failed);
    assert_eq!(state.error.as_deref(), Some("Level 'Level_A' has no spawnpoints"));
    assert_eq!(report.errors.len(), 1);
    assert_eq!(report.errors[0].code, "transition_spawn_missing");
    assert_eq!(load_state.status, LdtkLoadStatus::Error);
    assert_eq!(pending, PendingLdtkLevelTransition::default());
    assert_eq!(current, CurrentLdtkLevel::default());
}

#[test]
fn finalizing_ignores_unrelated_levels() {
    let catalog = build_catalog_with_spawnpoints();
    let mut pending = PendingLdtkLevelTransition {
        target_level: Some("Level_A".to_string()),
        spawn_id: None,
        target_level_iid: Some("iid-a".to_string()),
    };
    let mut state = LevelTransitionState::default();
    let mut current = CurrentLdtkLevel::default();
    let mut runtime = LdtkRuntimeState::default();
    let mut load_state = LdtkLoadState::default();
    let mut report = LdtkValidationReport::default();
    let outcome = finalize_level_transition(
        &vec!["iid-z".to_string()],
        &mut pending,
        &mut state,
        &mut current,
        &mut runtime,
        &catalog,
        &LdtkCollisionCatalog::default(),
        &LdtkLevelManagerConfig::default(),
        false,
        &mut load_state,
        &mut report,
    );
    assert!(matches!(outcome, LdtkTransitionOutcome::Unchanged));
    assert_eq!(pending.target_level.as_deref(), Some("Level_A"));
}

#[test]
fn cleanup_by_level_scope() {
    assert!(should_cleanup_entity(None, Some("Level_A"), false, false, "Level_A"));
    assert!(!should_cleanup_entity(None, None, false, false, "Level_A"));
    assert!(!should_cleanup_entity(None, Some("Level_A"), true, false, "Level_A"));
}

#[test]
fn animated_tiles_are_looked_up_by_level_layer_and_cell() {
    let mut catalog = LdtkMapCatalog::default();
    let mut level = LdtkLevelInfo::default();
    level.identifier = "Level_A".to_string();
    level.iid = "iid-a".to_string();
    level.tiles = vec![
        LdtkTileMetadata {
            layer_iid: "layer-1".to_string(),
            layer_position: IVec2::new(32, 16),
            animation: parse_tile_animation("anim=1,2"),
            ..Default::default()
        },
        LdtkTileMetadata {
            layer_iid: "layer-1".to_string(),
            layer_position: IVec2::new(0, 0),
            animation: None,
            ..Default::default()
        },
        LdtkTileMetadata {
            layer_iid: "unknown-layer".to_string(),
            layer_position: IVec2::new(0, 0),
            animation: parse_tile_animation("anim=3"),
            ..Default::default()
        },
    ];
    catalog.insert_level_info(level);
    catalog.layers.insert(
        "layer-1".to_string(),
        LdtkLayerInfo {
            iid: "layer-1".to_string(),
            grid_size: 16,
            ..Default::default()
        },
    );
    let lookup = build_tile_animation_lookup(&catalog.levels, &catalog.layers);
    assert_eq!(lookup.len(), 1);
    let found = tile_animation_for(&lookup, &catalog, "Level_A", &"layer-1".to_string(), 2, 1)
        .expect("animated tile");
    assert_eq!(found.frames[1].tile_id, 2);
    // The level may be named by its IID as well.
    assert!(tile_animation_for(&lookup, &catalog, "iid-a", &"layer-1".to_string(), 2, 1).is_some());
    assert!(tile_animation_for(&lookup, &catalog, "Level_A", &"layer-1".to_string(), 0, 0).is_none());
}
