//! Load state, validation report, runtime state and the command queue, with
//! the state changes each command makes.

use vstd::prelude::*;

use crate::entities::clone_opt_string;
use crate::keyed_map::KeyedSet;
use crate::text::to_owned_string;

verus! {

/// Phase of the world load pipeline.
#[derive(Debug, Clone, Copy, PartialEq, Eq, Structural)]
pub enum LdtkLoadStatus {
    /// No world has been requested yet.
    NotLoaded,
    /// A world load is in progress.
    Loading,
    /// The world loaded and is ready to use.
    Ready,
    /// Loading failed; see the errors.
    Error,
}

impl Default for LdtkLoadStatus {
    fn default() -> (s: Self)
        ensures
            s == LdtkLoadStatus::NotLoaded,
    {
        LdtkLoadStatus::NotLoaded
    }
}

/// Counters describing what the last load cataloged.
#[derive(Debug, Clone, Copy, PartialEq, Eq, Structural)]
pub struct LdtkLoadStats {
    /// Worlds cataloged.
    pub worlds: usize,
    /// Levels cataloged.
    pub levels: usize,
    /// Layers cataloged.
    pub layers: usize,
    /// Tilesets cataloged.
    pub tilesets: usize,
    /// Tile instances over all levels.
    pub tiles: usize,
    /// Entity instances over all levels.
    pub entities: usize,
    /// Spawn points over all levels.
    pub spawn_points: usize,
    /// IntGrid cells with collision data.
    pub collision_cells: usize,
    /// Animated tiles found in tilesets.
    pub tile_animations: usize,
}

impl LdtkLoadStats {
    pub open spec fn spec_zero() -> LdtkLoadStats {
        LdtkLoadStats {
            worlds: 0,
            levels: 0,
            layers: 0,
            tilesets: 0,
            tiles: 0,
            entities: 0,
            spawn_points: 0,
            collision_cells: 0,
            tile_animations: 0,
        }
    }
}

impl Default for LdtkLoadStats {
    fn default() -> (s: Self)
        ensures
            s == LdtkLoadStats::spec_zero(),
    {
        LdtkLoadStats {
            worlds: 0,
            levels: 0,
            layers: 0,
            tilesets: 0,
            tiles: 0,
            entities: 0,
            spawn_points: 0,
            collision_cells: 0,
            tile_animations: 0,
        }
    }
}

/// Lifecycle state of the LDtk world.
#[derive(Debug)]
pub struct LdtkLoadState {
    /// Current phase.
    pub status: LdtkLoadStatus,
    /// Identifier of the world loaded or being loaded.
    pub world_identifier: Option<String>,
    /// Non-fatal warnings of the last load.
    pub warnings: Vec<String>,
    /// Fatal errors of the last load.
    pub errors: Vec<String>,
    /// Counters of the last load.
    pub stats: LdtkLoadStats,
}

impl Default for LdtkLoadState {
    fn default() -> (s: Self)
        ensures
            s.status == LdtkLoadStatus::NotLoaded,
            s.world_identifier is None,
            s.warnings@.len() == 0,
            s.errors@.len() == 0,
            s.stats == LdtkLoadStats::spec_zero(),
    {
        LdtkLoadState {
            status: LdtkLoadStatus::NotLoaded,
            world_identifier: None,
            warnings: Vec::new(),
            errors: Vec::new(),
            stats: LdtkLoadStats::default(),
        }
    }
}

impl LdtkLoadState {
    /// `true` when the world finished loading without errors.
    pub fn is_ready(&self) -> (b: bool)
        ensures
            b == (self.status == LdtkLoadStatus::Ready),
    {
        match self.status {
            LdtkLoadStatus::Ready => true,
            _ => false,
        }
    }
}

/// A validation issue: a short machine-readable code and a message.
#[derive(Debug, PartialEq, Eq)]
pub struct LdtkValidationIssue {
    /// Issue class (e.g. `"missing_spawn_point"`).
    pub code: String,
    /// Description of the specific problem.
    pub message: String,
}

impl LdtkValidationIssue {
    /// An issue with `code` and `message`. Severity is not stored on the
    /// issue: it is the list of the report the issue lands in.
    pub fn new(code: &str, message: String) -> (i: Self)
        ensures
            i.code@ == code@,
            i.message == message,
    {
        LdtkValidationIssue { code: to_owned_string(code), message }
    }
}

/// Issues found by validation, by severity.
#[derive(Debug)]
pub struct LdtkValidationReport {
    /// Non-fatal issues.
    pub warnings: Vec<LdtkValidationIssue>,
    /// Fatal issues.
    pub errors: Vec<LdtkValidationIssue>,
}

impl Default for LdtkValidationReport {
    fn default() -> (r: Self)
        ensures
            r.warnings@.len() == 0,
            r.errors@.len() == 0,
    {
        LdtkValidationReport { warnings: Vec::new(), errors: Vec::new() }
    }
}

impl LdtkValidationReport {
    /// Removes all warnings and errors.
    pub fn clear(&mut self)
        ensures
            final(self).warnings@.len() == 0,
            final(self).errors@.len() == 0,
    {
        self.warnings.clear();
        self.errors.clear();
    }

    /// `true` if any error has been recorded.
    pub fn has_errors(&self) -> (b: bool)
        ensures
            b == (self.errors@.len() > 0),
    {
        self.errors.len() > 0
    }

    /// Records an issue: an error when `strict`, otherwise a warning. This is
    /// the one place that decides severity.
    pub fn push(&mut self, strict: bool, code: &str, message: String)
        ensures
            strict ==> {
                &&& final(self).errors@.len() == old(self).errors@.len() + 1
                &&& final(self).errors@.drop_last() == old(self).errors@
                &&& final(self).errors@.last().code@ == code@
                &&& final(self).errors@.last().message == message
                &&& final(self).warnings@ == old(self).warnings@
            },
            !strict ==> {
                &&& final(self).warnings@.len() == old(self).warnings@.len() + 1
                &&& final(self).warnings@.drop_last() == old(self).warnings@
                &&& final(self).warnings@.last().code@ == code@
                &&& final(self).warnings@.last().message == message
                &&& final(self).errors@ == old(self).errors@
            },
    {
        let issue = LdtkValidationIssue::new(code, message);
        if strict {
            self.errors.push(issue);
            proof {
                assert(self.errors@.drop_last() =~= old(self).errors@);
            }
        } else {
            self.warnings.push(issue);
            proof {
                assert(self.warnings@.drop_last() =~= old(self).warnings@);
            }
        }
    }
}

/// Phase of a level transition.
#[derive(Debug, Clone, Copy, PartialEq, Eq, Structural)]
pub enum LdtkTransitionState {
    /// No transition is in progress.
    Idle,
    /// A world or level is being loaded.
    Loading,
    /// The requested world is loaded and active.
    Active,
}

impl Default for LdtkTransitionState {
    fn default() -> (s: Self)
        ensures
            s == LdtkTransitionState::Idle,
    {
        LdtkTransitionState::Idle
    }
}

/// What is active at runtime: the open world file, the active level and the
/// loaded levels.
#[derive(Debug)]
pub struct LdtkRuntimeState {
    /// Asset-relative path of the open world file.
    pub active_world_path: Option<String>,
    /// Identifier of the active world.
    pub active_world_identifier: Option<String>,
    /// Engine entity (its `to_bits` value) at the root of the spawned world.
    pub active_world_root: Option<u64>,
    /// Identifier of the active level.
    pub active_level: Option<String>,
    /// Current transition phase.
    pub transition: LdtkTransitionState,
    /// IIDs of the levels currently spawned.
    pub loaded_levels: KeyedSet<String>,
}

impl Default for LdtkRuntimeState {
    fn default() -> (s: Self)
        ensures
            s.active_world_path is None,
            s.active_world_identifier is None,
            s.active_world_root is None,
            s.active_level is None,
            s.transition == LdtkTransitionState::Idle,
            s.loaded_levels@ == Set::<Seq<char>>::empty(),
    {
        LdtkRuntimeState {
            active_world_path: None,
            active_world_identifier: None,
            active_world_root: None,
            active_level: None,
            transition: LdtkTransitionState::Idle,
            loaded_levels: KeyedSet::new(),
        }
    }
}

/// Commands that drive the LDtk runtime.
#[derive(Debug, PartialEq, Eq)]
pub enum LdtkCommand {
    /// Load and spawn the world at `world_path`.
    SpawnWorld { world_path: String },
    /// Make `level_identifier` the active level.
    ChangeLevel { level_identifier: String },
    /// Reload the active world.
    ReloadWorld,
    /// Despawn the active world and reset the runtime state.
    UnloadWorld,
}

/// Commands waiting to be processed.
#[derive(Debug)]
pub struct LdtkCommandQueue {
    /// Pending commands, oldest first.
    pub pending: Vec<LdtkCommand>,
}

impl Default for LdtkCommandQueue {
    fn default() -> (q: Self)
        ensures
            q.pending@.len() == 0,
    {
        LdtkCommandQueue { pending: Vec::new() }
    }
}

impl LdtkCommandQueue {
    /// Appends a command.
    pub fn push(&mut self, command: LdtkCommand)
        ensures
            final(self).pending@ == old(self).pending@.push(command),
    {
        self.pending.push(command);
    }

    /// Takes all pending commands, oldest first, leaving the queue empty.
    pub fn drain(&mut self) -> (commands: Vec<LdtkCommand>)
        ensures
            commands@ == old(self).pending@,
            final(self).pending@.len() == 0,
    {
        let mut taken: Vec<LdtkCommand> = Vec::new();
        std::mem::swap(&mut taken, &mut self.pending);
        taken
    }
}

impl LdtkRuntimeState {
    /// Records that the world at `world_path` (identified as
    /// `world_identifier`) is being spawned under the engine entity `root`:
    /// no level is active or loaded yet and the load starts over. Returns the
    /// root of the previous world, which is to be despawned.
    pub fn begin_world_spawn(
        &mut self,
        load_state: &mut LdtkLoadState,
        world_path: String,
        world_identifier: String,
        root: u64,
    ) -> (previous_root: Option<u64>)
        ensures
            previous_root == old(self).active_world_root,
            final(self).active_world_path == Some(world_path),
            final(self).active_world_identifier == Some(world_identifier),
            final(self).active_world_root == Some(root),
            final(self).active_level is None,
            final(self).loaded_levels@ == Set::<Seq<char>>::empty(),
            final(self).transition == LdtkTransitionState::Loading,
            final(load_state).status == LdtkLoadStatus::Loading,
            final(load_state).world_identifier == Some(world_identifier),
            final(load_state).warnings@.len() == 0,
            final(load_state).errors@.len() == 0,
            final(load_state).stats == LdtkLoadStats::spec_zero(),
    {
        let previous = self.active_world_root;
        load_state.world_identifier = Some(world_identifier.clone());
        self.active_world_path = Some(world_path);
        self.active_world_identifier = Some(world_identifier);
        self.active_world_root = Some(root);
        self.active_level = None;
        self.loaded_levels.clear();
        self.transition = LdtkTransitionState::Loading;
        load_state.status = LdtkLoadStatus::Loading;
        load_state.warnings.clear();
        load_state.errors.clear();
        load_state.stats = LdtkLoadStats::default();
        previous
    }

    /// Makes `level_identifier` the active level.
    pub fn activate_level(&mut self, level_identifier: String)
        ensures
            final(self).active_level == Some(level_identifier),
            final(self).active_world_path == old(self).active_world_path,
            final(self).active_world_identifier == old(self).active_world_identifier,
            final(self).active_world_root == old(self).active_world_root,
            final(self).transition == old(self).transition,
            final(self).loaded_levels == old(self).loaded_levels,
    {
        self.active_level = Some(level_identifier);
    }

    /// The world path a reload spawns again, if a world is open.
    pub fn reload_target(&self) -> (path: Option<String>)
        ensures
            path == self.active_world_path,
    {
        clone_opt_string(&self.active_world_path)
    }

    /// Forgets the active world: nothing is open, active or loaded, and the
    /// load state is back to not loaded with zero counters. Returns the root
    /// of the world to despawn.
    pub fn unload_world(&mut self, load_state: &mut LdtkLoadState) -> (previous_root: Option<u64>)
        ensures
            previous_root == old(self).active_world_root,
            final(self).active_world_path is None,
            final(self).active_world_identifier is None,
            final(self).active_world_root is None,
            final(self).active_level is None,
            final(self).loaded_levels@ == Set::<Seq<char>>::empty(),
            final(self).transition == LdtkTransitionState::Idle,
            final(load_state).status == LdtkLoadStatus::NotLoaded,
            final(load_state).world_identifier is None,
            final(load_state).stats == LdtkLoadStats::spec_zero(),
            final(load_state).warnings == old(load_state).warnings,
            final(load_state).errors == old(load_state).errors,
    {
        let previous = self.active_world_root;
        self.active_world_root = None;
        self.active_world_path = None;
        self.active_world_identifier = None;
        self.active_level = None;
        self.loaded_levels.clear();
        self.transition = LdtkTransitionState::Idle;
        load_state.status = LdtkLoadStatus::NotLoaded;
        load_state.world_identifier = None;
        load_state.stats = LdtkLoadStats::default();
        previous
    }
}

} // verus!
