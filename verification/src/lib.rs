//! Game-facing data model and rules for LDtk worlds: catalogs of worlds,
//! levels, layers, tilesets and entities, IntGrid collision rules, entity
//! spawner registration, level transitions with spawn-point resolution and
//! tile-animation metadata.
//!
//! Everything here is plain data and pure decisions; the engine glue (asset
//! loading, ECS systems, rendering) lives outside this library and feeds it
//! plain values.

pub mod keyed_map;
pub mod geometry;
pub mod text;
pub mod fields;
pub mod animation;
pub mod entities;
pub mod catalog;
pub mod config;
pub mod state;
pub mod registry;
pub mod validation;
pub mod project;
pub mod builder;
pub mod events;
pub mod refresh;
pub mod level_manager;
pub mod capture;

pub use animation::{LdtkFrameTiming, LdtkTileAnimation, LdtkTileAnimationFrame, LdtkTileKey};
pub use capture::{LdtkIntGridCellData, LdtkLayerMetadataData, LdtkLevelLifecycleEvent};
pub use catalog::{
    LdtkCollisionCatalog, LdtkCollisionCell, LdtkCollisionLayerInfo, LdtkEntityCatalog,
    LdtkLayerInfo, LdtkLayerType, LdtkLevelInfo, LdtkMapCatalog, LdtkNeighbor, LdtkNeighborCost,
    LdtkSpawnPoint, LdtkTilesetInfo, LdtkWorldInfo, LdtkWorldLayout,
};
pub use config::{LdtkCollisionRule, LdtkConfig};
pub use entities::{
    LdtkCollider, LdtkEntityMarker, LdtkEntitySpawnContext, LdtkImportedEntity, LdtkTileCollision,
    LdtkTileMetadata,
};
pub use events::{
    LdtkLevelActivatedEvent, LdtkLevelPlayer, LdtkLevelScoped, LdtkLoadSet, LdtkMapLoadedEvent,
    LdtkPersistent, LdtkSpawnWorldEvent, LdtkValidationFinishedEvent, LdtkWorldRoot,
    LdtkWorldUnloadedEvent,
};
pub use fields::{LdtkEntityReference, LdtkFieldAccess, LdtkFieldValue, LdtkTilesetRect};
pub use geometry::{IVec2, LdtkDirection, WorldPos};
pub use keyed_map::{KeyedMap, KeyedSet, LookupKey};
pub use level_manager::{
    CurrentLdtkLevel, LdtkCollisionReadyEvent, LdtkLevelManagerConfig, LdtkLevelReadyEvent,
    LdtkPlayerLocator, LevelTransitionRequest, LevelTransitionState, LevelTransitionStatus,
    PendingLdtkLevelTransition,
};
pub use refresh::external_level_path;
pub use registry::{LdtkEntityRegistry, LdtkEntityRegistryKey};
pub use state::{
    LdtkCommand, LdtkCommandQueue, LdtkLoadState, LdtkLoadStats, LdtkLoadStatus,
    LdtkRuntimeState, LdtkTransitionState, LdtkValidationIssue, LdtkValidationReport,
};
