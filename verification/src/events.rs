//! Announcements the library produces for the engine to deliver, and the
//! marker values the engine attaches to spawned objects.

use vstd::prelude::*;

verus! {

/// Stages of the LDtk work, in the order they run each frame.
#[derive(Debug, Clone, Copy, PartialEq, Eq, Structural)]
pub enum LdtkLoadSet {
    /// Queued commands are processed.
    Commands,
    /// The map catalog is built or refreshed.
    Catalog,
    /// Entity and tile snapshots are captured.
    Capture,
    /// Level transitions are driven.
    LevelTransitions,
    /// Tile animations advance.
    Animation,
}

/// A world file is to be loaded and spawned.
#[derive(Debug, PartialEq, Eq)]
pub struct LdtkSpawnWorldEvent {
    /// Asset-relative path of the `.ldtk` file.
    pub world_path: String,
}

/// The map catalog of a world has been fully built.
#[derive(Debug, PartialEq, Eq)]
pub struct LdtkMapLoadedEvent {
    /// Identifier of the loaded world.
    pub world_identifier: String,
}

/// A level became the active level.
#[derive(Debug, PartialEq, Eq)]
pub struct LdtkLevelActivatedEvent {
    /// Identifier of the activated level.
    pub level_identifier: String,
}

/// The active world has been despawned.
#[derive(Debug, Clone, Copy, PartialEq, Eq, Structural)]
pub struct LdtkWorldUnloadedEvent;

/// An on-load validation pass finished.
#[derive(Debug, Clone, Copy, PartialEq, Eq, Structural)]
pub struct LdtkValidationFinishedEvent {
    /// Number of warnings.
    pub warnings: usize,
    /// Number of errors.
    pub errors: usize,
}

/// Marks the root object of a spawned world.
#[derive(Debug, Clone, Copy, PartialEq, Eq, Structural)]
pub struct LdtkWorldRoot;

/// Marks an object that survives level transitions.
#[derive(Debug, Clone, Copy, PartialEq, Eq, Structural)]
pub struct LdtkPersistent;

/// Marks the player object that level transitions move to spawn points.
#[derive(Debug, Clone, Copy, PartialEq, Eq, Structural)]
pub struct LdtkLevelPlayer;

/// Ties an object to the level it belongs to.
#[derive(Debug, PartialEq, Eq)]
pub struct LdtkLevelScoped {
    /// Identifier of the owning level.
    pub level_identifier: String,
}

} // verus!
