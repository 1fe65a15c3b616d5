//! Level transitions: requesting a level, resolving the spawn point to place
//! the player at, completing the transition once the level has spawned, and
//! deciding which objects a level change removes.

use vstd::prelude::*;

use crate::animation::LdtkTileAnimation;
use crate::builder::{div_toward_zero, trunc_div};
use crate::catalog::{
    find_level, LdtkCollisionCatalog, LdtkCollisionCell, LdtkLayerInfo, LdtkLevelInfo,
    LdtkMapCatalog, LdtkSpawnPoint,
};
use crate::config::LdtkConfig;
use crate::geometry::{IVec2, WorldPos};
use crate::keyed_map::{KeyedMap, LookupKey};
use crate::entities::{clone_opt_string, same_animation, LdtkTileMetadata};
use crate::registry::{opt_str_view, opt_view};
use crate::state::{LdtkLoadState, LdtkLoadStatus, LdtkRuntimeState, LdtkValidationReport};
use crate::text::{ascii_lower, eq_ascii_ci, eq_ignore_ascii_case, str_eq, to_owned_string};
use crate::validation::{message3, message5};

verus! {

/// Settings of level transitions.
#[derive(Debug)]
pub struct LdtkLevelManagerConfig {
    /// Tag that marks the default spawn point of a level.
    pub default_spawn_tag: String,
    /// Identifier of the default spawn point of a level.
    pub default_spawn_identifier: String,
    /// Animated tiles get animators attached.
    pub enable_tile_animation_adapter: bool,
    /// A level without spawn points gets a fallback spawn at the origin
    /// instead of failing the transition.
    pub allow_missing_spawnpoints: bool,
}

impl Default for LdtkLevelManagerConfig {
    fn default() -> (c: Self)
        ensures
            c.default_spawn_tag@ == "PlayerSpawn"@,
            c.default_spawn_identifier@ == "PlayerSpawn"@,
            !c.enable_tile_animation_adapter,
            !c.allow_missing_spawnpoints,
    {
        LdtkLevelManagerConfig {
            default_spawn_tag: to_owned_string("PlayerSpawn"),
            default_spawn_identifier: to_owned_string("PlayerSpawn"),
            enable_tile_animation_adapter: false,
            allow_missing_spawnpoints: false,
        }
    }
}

/// Explicit player object to move on transitions (its engine handle).
#[derive(Debug)]
pub struct LdtkPlayerLocator {
    pub entity: Option<u64>,
}

impl Default for LdtkPlayerLocator {
    fn default() -> (l: Self)
        ensures
            l.entity is None,
    {
        LdtkPlayerLocator { entity: None }
    }
}

/// The level the player is currently in.
#[derive(Debug, PartialEq, Eq)]
pub struct CurrentLdtkLevel {
    pub identifier: Option<String>,
    pub iid: Option<String>,
}

impl Default for CurrentLdtkLevel {
    fn default() -> (c: Self)
        ensures
            c.identifier is None,
            c.iid is None,
    {
        CurrentLdtkLevel { identifier: None, iid: None }
    }
}

/// A requested transition waiting for its level to spawn.
#[derive(Debug, PartialEq, Eq)]
pub struct PendingLdtkLevelTransition {
    pub target_level: Option<String>,
    pub spawn_id: Option<String>,
    pub target_level_iid: Option<String>,
}

impl Default for PendingLdtkLevelTransition {
    fn default() -> (p: Self)
        ensures
            p.target_level is None,
            p.spawn_id is None,
            p.target_level_iid is None,
    {
        PendingLdtkLevelTransition { target_level: None, spawn_id: None, target_level_iid: None }
    }
}

/// Progress of the current level transition.
#[derive(Debug, Clone, Copy, PartialEq, Eq, Structural)]
pub enum LevelTransitionStatus {
    Idle,
    WaitingForSpawn,
    Ready,
    Failed,
}

impl Default for LevelTransitionStatus {
    fn default() -> (s: Self)
        ensures
            s == LevelTransitionStatus::Idle,
    {
        LevelTransitionStatus::Idle
    }
}

/// Status of the current level transition and its error, if it failed.
#[derive(Debug, PartialEq, Eq)]
pub struct LevelTransitionState {
    pub status: LevelTransitionStatus,
    pub error: Option<String>,
}

impl Default for LevelTransitionState {
    fn default() -> (s: Self)
        ensures
            s.status == LevelTransitionStatus::Idle,
            s.error is None,
    {
        LevelTransitionState { status: LevelTransitionStatus::Idle, error: None }
    }
}

/// A request to move to another level, optionally to a named spawn point.
#[derive(Debug, PartialEq, Eq)]
pub struct LevelTransitionRequest {
    pub target_level: String,
    pub spawn_id: Option<String>,
}

/// A level is ready and the player has been placed at `position`.
#[derive(Debug, PartialEq, Eq)]
pub struct LdtkLevelReadyEvent {
    pub level_identifier: String,
    pub spawn_id: Option<String>,
    pub position: WorldPos,
}

/// The collision data of a level is available: `cells` captured cells.
#[derive(Debug, PartialEq, Eq)]
pub struct LdtkCollisionReadyEvent {
    pub level_identifier: String,
    pub cells: usize,
}

/// Some tag of `tags` equals `q` up to ASCII case.
pub open spec fn tags_match(tags: Seq<String>, q: Seq<char>) -> bool {
    exists|t: int| 0 <= t < tags.len() && eq_ascii_ci(#[trigger] tags[t]@, q)
}

fn tags_match_exec(tags: &Vec<String>, q: &str) -> (b: bool)
    ensures
        b == tags_match(tags@, q@),
{
    let mut i: usize = 0;
    while i < tags.len()
        invariant
            i <= tags@.len(),
            forall|t: int| 0 <= t < i ==> !eq_ascii_ci(#[trigger] tags@[t]@, q@),
        decreases tags@.len() - i,
    {
        if eq_ignore_ascii_case(tags[i].as_str(), q) {
            return true;
        }
        i = i + 1;
    }
    false
}

/// The spawn point is named `q` by identifier or by a tag, up to ASCII case.
pub open spec fn spawn_named(sp: LdtkSpawnPoint, q: Seq<char>) -> bool {
    eq_ascii_ci(sp.identifier@, q) || tags_match(sp.tags@, q)
}

/// The spawn point is the configured default: by identifier or by tag, up
/// to ASCII case.
pub open spec fn is_default_spawn(sp: LdtkSpawnPoint, config: LdtkLevelManagerConfig) -> bool {
    eq_ascii_ci(sp.identifier@, config.default_spawn_identifier@) || tags_match(
        sp.tags@,
        config.default_spawn_tag@,
    )
}

/// Position of the first spawn point from `start` on that is named `q`.
pub open spec fn first_named_from(sps: Seq<LdtkSpawnPoint>, q: Seq<char>, start: int) -> Option<int>
    decreases sps.len() - start,
{
    if start < 0 || start >= sps.len() {
        None
    } else if spawn_named(sps[start], q) {
        Some(start)
    } else {
        first_named_from(sps, q, start + 1)
    }
}

/// Position of the first default spawn point from `start` on.
pub open spec fn first_default_from(
    sps: Seq<LdtkSpawnPoint>,
    config: LdtkLevelManagerConfig,
    start: int,
) -> Option<int>
    decreases sps.len() - start,
{
    if start < 0 || start >= sps.len() {
        None
    } else if is_default_spawn(sps[start], config) {
        Some(start)
    } else {
        first_default_from(sps, config, start + 1)
    }
}

/// How the spawn point of a transition is chosen.
pub enum SpawnChoice {
    /// The spawn point at this position of the level's list.
    At(int),
    /// A fallback spawn at the origin.
    Fallback,
    /// No spawn point; the transition fails with this message.
    Missing(Seq<char>),
}

/// Message for a level that is not in the catalog.
pub open spec fn level_not_found_message(target: Seq<char>) -> Seq<char> {
    "Level '"@ + target + "' not found in LdtkMapCatalog"@
}

/// The spawn point chosen for level `target`: the first one named
/// `spawn_id` when one is asked for; otherwise the first default one, else
/// the first one, else the fallback when allowed.
pub open spec fn spawn_choice(
    catalog: LdtkMapCatalog,
    target: Seq<char>,
    spawn_id: Option<Seq<char>>,
    config: LdtkLevelManagerConfig,
) -> SpawnChoice {
    if !catalog.levels@.contains_key(target) {
        SpawnChoice::Missing(level_not_found_message(target))
    } else {
        let sps = catalog.levels@[target].spawn_points@;
        match spawn_id {
            Some(q) => match first_named_from(sps, q, 0) {
                Some(i) => SpawnChoice::At(i),
                None => SpawnChoice::Missing(
                    "Spawnpoint '"@ + q + "' not found in level '"@ + target + "'"@,
                ),
            },
            None => match first_default_from(sps, config, 0) {
                Some(i) => SpawnChoice::At(i),
                None => if sps.len() > 0 {
                    SpawnChoice::At(0)
                } else if config.allow_missing_spawnpoints {
                    SpawnChoice::Fallback
                } else {
                    SpawnChoice::Missing("Level '"@ + target + "' has no spawnpoints"@)
                },
            },
        }
    }
}

/// The fallback spawn of level `target`: named `Fallback`, at the origin,
/// on no layer, without tags.
pub open spec fn is_fallback_spawn(sp: LdtkSpawnPoint, target: Seq<char>) -> bool {
    &&& sp.identifier@ == "Fallback"@
    &&& sp.position == WorldPos::spec_zero()
    &&& sp.level_identifier@ == target
    &&& sp.layer_identifier@ == Seq::<char>::empty()
    &&& sp.tags@.len() == 0
}

/// `r` is what resolving `choice` among `sps` of level `target` gives.
pub open spec fn resolves_to(
    r: Result<LdtkSpawnPoint, String>,
    choice: SpawnChoice,
    sps: Seq<LdtkSpawnPoint>,
    target: Seq<char>,
) -> bool {
    match choice {
        SpawnChoice::At(i) => r matches Ok(sp) && 0 <= i < sps.len() && sp.same_as(sps[i]),
        SpawnChoice::Fallback => r matches Ok(sp) && is_fallback_spawn(sp, target),
        SpawnChoice::Missing(m) => r matches Err(e) && e@ == m,
    }
}

/// The spawn points of level `target` in the catalog.
pub open spec fn level_spawns(catalog: LdtkMapCatalog, target: Seq<char>) -> Seq<LdtkSpawnPoint> {
    catalog.levels@[target].spawn_points@
}

/// Picks the spawn point for a transition into level `target_level`
/// (looked up by identifier).
pub fn resolve_spawn_point(
    catalog: &LdtkMapCatalog,
    target_level: &str,
    spawn_id: Option<&str>,
    config: &LdtkLevelManagerConfig,
) -> (r: Result<LdtkSpawnPoint, String>)
    ensures
        resolves_to(
            r,
            spawn_choice(*catalog, target_level@, opt_str_view(spawn_id), *config),
            level_spawns(*catalog, target_level@),
            target_level@,
        ),
{
    proof {
        reveal_strlit("Level '");
        reveal_strlit("' not found in LdtkMapCatalog");
        reveal_strlit("Spawnpoint '");
        reveal_strlit("' not found in level '");
        reveal_strlit("'");
        reveal_strlit("' has no spawnpoints");
        reveal_strlit("Fallback");
    }
    let key = to_owned_string(target_level);
    let level = match catalog.levels.get(&key) {
        Some(level) => level,
        None => {
            return Err(message3("Level '", target_level, "' not found in LdtkMapCatalog"));
        },
    };
    let ghost sps = level.spawn_points@;
    if let Some(q) = spawn_id {
        let mut i: usize = 0;
        while i < level.spawn_points.len()
            invariant
                sps == level.spawn_points@,
                catalog.levels@.contains_key(target_level@),
                *level == catalog.levels@[target_level@],
                spawn_id == Some(q),
                i <= sps.len(),
                first_named_from(sps, q@, 0) == first_named_from(sps, q@, i as int),
            decreases sps.len() - i,
        {
            let sp = &level.spawn_points[i];
            if eq_ignore_ascii_case(sp.identifier.as_str(), q) || tags_match_exec(&sp.tags, q) {
                return Ok(sp.clone());
            }
            i = i + 1;
        }
        return Err(message5("Spawnpoint '", q, "' not found in level '", target_level, "'"));
    }
    let mut i: usize = 0;
    while i < level.spawn_points.len()
        invariant
            sps == level.spawn_points@,
            catalog.levels@.contains_key(target_level@),
            *level == catalog.levels@[target_level@],
            spawn_id is None,
            i <= sps.len(),
            first_default_from(sps, *config, 0) == first_default_from(sps, *config, i as int),
        decreases sps.len() - i,
    {
        let sp = &level.spawn_points[i];
        if eq_ignore_ascii_case(sp.identifier.as_str(), config.default_spawn_identifier.as_str())
            || tags_match_exec(&sp.tags, config.default_spawn_tag.as_str()) {
            return Ok(sp.clone());
        }
        i = i + 1;
    }
    if level.spawn_points.len() > 0 {
        return Ok(level.spawn_points[0].clone());
    }
    if config.allow_missing_spawnpoints {
        let sp = LdtkSpawnPoint {
            identifier: to_owned_string("Fallback"),
            position: WorldPos::zero(),
            level_identifier: to_owned_string(target_level),
            layer_identifier: String::new(),
            tags: Vec::new(),
        };
        proof {
            assert(sp.layer_identifier@ =~= Seq::<char>::empty());
        }
        return Ok(sp);
    }
    Err(message3("Level '", target_level, "' has no spawnpoints"))
}

/// Starts a transition into `target_level` (by identifier or IID): records
/// it as pending with the level's IID and waits for the level to spawn.
/// Fails, changing nothing, when the catalog has no such level.
pub fn start_transition(
    pending: &mut PendingLdtkLevelTransition,
    state: &mut LevelTransitionState,
    target_level: String,
    spawn_id: Option<String>,
    catalog: &LdtkMapCatalog,
) -> (r: Result<(), String>)
    ensures
        match find_level(*catalog, target_level@) {
            Some(info) => {
                &&& r is Ok
                &&& final(pending).target_level == Some(target_level)
                &&& final(pending).spawn_id == spawn_id
                &&& final(pending).target_level_iid == Some(info.iid)
                &&& final(state).status == LevelTransitionStatus::WaitingForSpawn
                &&& final(state).error is None
            },
            None => {
                &&& r matches Err(e) && e@ == level_not_found_message(target_level@)
                &&& *final(pending) == *old(pending)
                &&& *final(state) == *old(state)
            },
        },
{
    proof {
        reveal_strlit("Level '");
        reveal_strlit("' not found in LdtkMapCatalog");
    }
    let iid = match catalog.level_by_id_or_iid(target_level.as_str()) {
        Some(info) => info.iid.clone(),
        None => {
            return Err(
                message3("Level '", target_level.as_str(), "' not found in LdtkMapCatalog"),
            );
        },
    };
    pending.target_level = Some(target_level);
    pending.spawn_id = spawn_id;
    pending.target_level_iid = Some(iid);
    state.status = LevelTransitionStatus::WaitingForSpawn;
    state.error = None;
    Ok(())
}

/// An object is removed on leaving `target_level` when it belongs to that
/// level by its entity marker or its level scope, unless it is persistent
/// or the player.
pub fn should_cleanup_entity(
    marker_level: Option<&str>,
    scoped_level: Option<&str>,
    is_persistent: bool,
    is_player: bool,
    target_level: &str,
) -> (b: bool)
    ensures
        b == (!is_persistent && !is_player && (opt_str_view(marker_level) == Some(target_level@)
            || opt_str_view(scoped_level) == Some(target_level@))),
        is_persistent || is_player ==> !b,
{
    if is_persistent || is_player {
        return false;
    }
    let by_marker = match marker_level {
        Some(l) => str_eq(l, target_level),
        None => false,
    };
    let by_scope = match scoped_level {
        Some(l) => str_eq(l, target_level),
        None => false,
    };
    by_marker || by_scope
}

/// The identifier of the level with IID `iid`.
pub fn level_identifier_from_iid(catalog: &LdtkMapCatalog, iid: &str) -> (r: Option<String>)
    ensures
        match r {
            Some(id) => catalog.levels_by_iid@.contains_key(iid@) && id@
                == catalog.levels_by_iid@[iid@]@,
            None => !catalog.levels_by_iid@.contains_key(iid@),
        },
{
    match catalog.identifier_for_iid(iid) {
        Some(id) => Some(to_owned_string(id)),
        None => None,
    }
}

/// The IID of the level named `level_id` (by identifier or IID), or
/// `level_id` itself when the catalog has no such level.
pub fn resolve_level_iid_from_metadata(catalog: &LdtkMapCatalog, level_id: &str) -> (r: String)
    ensures
        match find_level(*catalog, level_id@) {
            Some(info) => r == info.iid,
            None => r@ == level_id@,
        },
{
    match catalog.level_by_id_or_iid(level_id) {
        Some(level) => level.iid.clone(),
        None => to_owned_string(level_id),
    }
}

/// `after` is `before` with the issue (`code`, `message`) added: as an
/// error under strict validation, else as a warning.
pub open spec fn issue_pushed(
    before: LdtkValidationReport,
    after: LdtkValidationReport,
    strict: bool,
    code: Seq<char>,
    message: String,
) -> bool {
    if strict {
        &&& after.errors@.len() == before.errors@.len() + 1
        &&& after.errors@.drop_last() == before.errors@
        &&& after.errors@.last().code@ == code
        &&& after.errors@.last().message == message
        &&& after.warnings@ == before.warnings@
    } else {
        &&& after.warnings@.len() == before.warnings@.len() + 1
        &&& after.warnings@.drop_last() == before.warnings@
        &&& after.warnings@.last().code@ == code
        &&& after.warnings@.last().message == message
        &&& after.errors@ == before.errors@
    }
}

/// The load state after a failure under strict validation: its status is
/// an error, nothing else changes.
pub open spec fn load_failed(before: LdtkLoadState, after: LdtkLoadState) -> bool {
    &&& after.status == LdtkLoadStatus::Error
    &&& after.world_identifier == before.world_identifier
    &&& after.warnings == before.warnings
    &&& after.errors == before.errors
    &&& after.stats == before.stats
}

/// Handles one transition request. A known level (by identifier or IID)
/// starts the transition and is returned as the level to select. An
/// unknown one fails the transition: the error is recorded on the
/// transition state and reported as `transition_level_missing` (an error
/// under strict validation, which also fails the load, else a warning), and
/// nothing is selected.
pub fn handle_transition_request(
    request: &LevelTransitionRequest,
    pending: &mut PendingLdtkLevelTransition,
    state: &mut LevelTransitionState,
    catalog: &LdtkMapCatalog,
    config: &LdtkConfig,
    load_state: &mut LdtkLoadState,
    validation: &mut LdtkValidationReport,
) -> (selection: Option<String>)
    ensures
        match find_level(*catalog, request.target_level@) {
            Some(info) => {
                &&& selection == Some(request.target_level)
                &&& final(pending).target_level == Some(request.target_level)
                &&& final(pending).spawn_id == request.spawn_id
                &&& final(pending).target_level_iid == Some(info.iid)
                &&& final(state).status == LevelTransitionStatus::WaitingForSpawn
                &&& final(state).error is None
                &&& *final(load_state) == *old(load_state)
                &&& *final(validation) == *old(validation)
            },
            None => {
                &&& selection is None
                &&& *final(pending) == *old(pending)
                &&& final(state).status == LevelTransitionStatus::Failed
                &&& final(state).error matches Some(e) && e@ == level_not_found_message(
                    request.target_level@,
                )
                &&& issue_pushed(
                    *old(validation),
                    *final(validation),
                    config.strict_validation,
                    "transition_level_missing"@,
                    final(state).error->0,
                )
                &&& config.strict_validation ==> load_failed(*old(load_state), *final(load_state))
                &&& !config.strict_validation ==> *final(load_state) == *old(load_state)
            },
        },
{
    proof {
        reveal_strlit("transition_level_missing");
    }
    match start_transition(
        pending,
        state,
        request.target_level.clone(),
        clone_opt_string(&request.spawn_id),
        catalog,
    ) {
        Ok(()) => Some(request.target_level.clone()),
        Err(error) => {
            let strict = config.strict_validation;
            state.status = LevelTransitionStatus::Failed;
            state.error = Some(error.clone());
            validation.push(strict, "transition_level_missing", error);
            if strict {
                load_state.status = LdtkLoadStatus::Error;
            }
            None
        },
    }
}

/// Position of the first spawned level IID from `start` on that the
/// catalog knows.
pub open spec fn first_known_from(catalog: LdtkMapCatalog, spawned: Seq<String>, start: int) -> Option<
    int,
>
    decreases spawned.len() - start,
{
    if start < 0 || start >= spawned.len() {
        None
    } else if catalog.levels_by_iid@.contains_key(spawned[start]@) {
        Some(start)
    } else {
        first_known_from(catalog, spawned, start + 1)
    }
}

/// With no current level and no pending transition, the first spawned level
/// that the catalog knows (by IID) becomes a transition request without a
/// spawn id.
pub fn initial_level_request(
    current: &CurrentLdtkLevel,
    pending: &PendingLdtkLevelTransition,
    catalog: &LdtkMapCatalog,
    spawned: &Vec<String>,
) -> (r: Option<LevelTransitionRequest>)
    ensures
        !(current.identifier is None && pending.target_level is None) ==> r is None,
        current.identifier is None && pending.target_level is None ==> match first_known_from(
            *catalog,
            spawned@,
            0,
        ) {
            Some(i) => r matches Some(req) && req.target_level@ == catalog.levels_by_iid@[
                spawned@[i]@
            ]@ && req.spawn_id is None,
            None => r is None,
        },
{
    if current.identifier.is_some() || pending.target_level.is_some() {
        return None;
    }
    let mut i: usize = 0;
    while i < spawned.len()
        invariant
            i <= spawned@.len(),
            current.identifier is None && pending.target_level is None,
            first_known_from(*catalog, spawned@, 0) == first_known_from(
                *catalog,
                spawned@,
                i as int,
            ),
        decreases spawned@.len() - i,
    {
        if let Some(identifier) = catalog.identifier_for_iid(spawned[i].as_str()) {
            return Some(
                LevelTransitionRequest { target_level: to_owned_string(identifier), spawn_id: None },
            );
        }
        i = i + 1;
    }
    None
}

/// The spawned level IID `iid` completes the pending transition: it is the
/// pending level's IID, or the catalog names it with the pending level's
/// identifier.
pub open spec fn completes_pending(
    iid: Seq<char>,
    pending: PendingLdtkLevelTransition,
    catalog: LdtkMapCatalog,
) -> bool {
    ||| pending.target_level_iid matches Some(p) && p@ == iid
    ||| catalog.levels_by_iid@.contains_key(iid) && (pending.target_level matches Some(t)
        && catalog.levels_by_iid@[iid]@ == t@)
}

/// Position of the first spawned level IID from `start` on that completes
/// the pending transition.
pub open spec fn first_completing_from(
    catalog: LdtkMapCatalog,
    spawned: Seq<String>,
    pending: PendingLdtkLevelTransition,
    start: int,
) -> Option<int>
    decreases spawned.len() - start,
{
    if start < 0 || start >= spawned.len() {
        None
    } else if completes_pending(spawned[start]@, pending, catalog) {
        Some(start)
    } else {
        first_completing_from(catalog, spawned, pending, start + 1)
    }
}

/// The level a spawned IID enters: the catalog's identifier for the IID,
/// else the pending level.
pub open spec fn entered_level(
    iid: Seq<char>,
    pending: PendingLdtkLevelTransition,
    catalog: LdtkMapCatalog,
) -> Seq<char> {
    if catalog.levels_by_iid@.contains_key(iid) {
        catalog.levels_by_iid@[iid]@
    } else {
        pending.target_level->0@
    }
}

/// Number of collision cells of level `level`.
pub open spec fn count_level_cells(cells: Seq<LdtkCollisionCell>, level: Seq<char>) -> nat
    decreases cells.len(),
{
    if cells.len() == 0 {
        0
    } else {
        count_level_cells(cells.drop_last(), level) + if cells.last().level_identifier@ == level {
            1nat
        } else {
            0nat
        }
    }
}

fn count_cells(cells: &Vec<LdtkCollisionCell>, level: &str) -> (n: usize)
    ensures
        n == count_level_cells(cells@, level@),
{
    let mut n: usize = 0;
    let mut i: usize = 0;
    while i < cells.len()
        invariant
            i <= cells@.len(),
            n == count_level_cells(cells@.take(i as int), level@),
            n <= i,
        decreases cells@.len() - i,
    {
        proof {
            assert(cells@.take(i + 1).drop_last() =~= cells@.take(i as int));
            assert(cells@.take(i + 1).last() == cells@[i as int]);
        }
        if str_eq(cells[i].level_identifier.as_str(), level) {
            n = n + 1;
        }
        i = i + 1;
    }
    proof {
        assert(cells@.take(cells@.len() as int) =~= cells@);
    }
    n
}

fn find_completing(
    spawned: &Vec<String>,
    pending: &PendingLdtkLevelTransition,
    catalog: &LdtkMapCatalog,
) -> (r: Option<usize>)
    ensures
        match r {
            Some(k) => k < spawned@.len() && first_completing_from(*catalog, spawned@, *pending, 0)
                == Some(k as int),
            None => first_completing_from(*catalog, spawned@, *pending, 0) is None,
        },
{
    let mut i: usize = 0;
    while i < spawned.len()
        invariant
            i <= spawned@.len(),
            first_completing_from(*catalog, spawned@, *pending, 0) == first_completing_from(
                *catalog,
                spawned@,
                *pending,
                i as int,
            ),
        decreases spawned@.len() - i,
    {
        let iid = spawned[i].as_str();
        let by_iid = match &pending.target_level_iid {
            Some(p) => str_eq(p.as_str(), iid),
            None => false,
        };
        let by_identifier = match (catalog.identifier_for_iid(iid), &pending.target_level) {
            (Some(id), Some(t)) => str_eq(id, t.as_str()),
            _ => false,
        };
        if by_iid || by_identifier {
            return Some(i);
        }
        i = i + 1;
    }
    None
}

/// What finalizing a transition did.
#[derive(Debug)]
pub enum LdtkTransitionOutcome {
    /// No spawned level completes a pending transition; nothing changed.
    Unchanged,
    /// The spawn point could not be resolved; the transition was abandoned.
    Failed,
    /// The transition completed: objects of `cleanup_level` are to be
    /// removed, the player moved to `spawn`, and both events announced.
    Completed {
        cleanup_level: Option<String>,
        spawn: LdtkSpawnPoint,
        ready: LdtkLevelReadyEvent,
        collision: LdtkCollisionReadyEvent,
    },
}

/// Completes the pending transition with the first of the spawned levels
/// (by IID) that completes it. The spawn point is resolved in the entered
/// level; when that fails, the transition fails: the error is recorded and
/// reported as `transition_spawn_missing` (strict validation also fails
/// the load). Either way the pending transition is cleared. On success the
/// entered level becomes the current and active level, the previous level
/// (when it differs) is to be cleaned up, and the ready and collision events
/// carry the spawn id, the spawn position and the level's collision cell
/// count.
pub fn finalize_level_transition(
    spawned: &Vec<String>,
    pending: &mut PendingLdtkLevelTransition,
    state: &mut LevelTransitionState,
    current: &mut CurrentLdtkLevel,
    runtime: &mut LdtkRuntimeState,
    catalog: &LdtkMapCatalog,
    collision_catalog: &LdtkCollisionCatalog,
    config: &LdtkLevelManagerConfig,
    strict: bool,
    load_state: &mut LdtkLoadState,
    validation: &mut LdtkValidationReport,
) -> (outcome: LdtkTransitionOutcome)
    ensures
        ({
            let k = if old(pending).target_level is Some {
                first_completing_from(*catalog, spawned@, *old(pending), 0)
            } else {
                None
            };
            &&& k is None ==> {
                &&& outcome is Unchanged
                &&& *final(pending) == *old(pending)
                &&& *final(state) == *old(state)
                &&& *final(current) == *old(current)
                &&& *final(runtime) == *old(runtime)
                &&& *final(load_state) == *old(load_state)
                &&& *final(validation) == *old(validation)
            }
            &&& k matches Some(i) ==> {
                let iid = spawned@[i]@;
                let level = entered_level(iid, *old(pending), *catalog);
                let choice = spawn_choice(
                    *catalog,
                    level,
                    opt_view(old(pending).spawn_id),
                    *config,
                );
                &&& final(pending).target_level is None
                &&& final(pending).target_level_iid is None
                &&& final(pending).spawn_id is None
                &&& choice is Missing ==> {
                    &&& outcome is Failed
                    &&& final(state).status == LevelTransitionStatus::Failed
                    &&& final(state).error matches Some(e) && e@ == choice->Missing_0
                    &&& issue_pushed(
                        *old(validation),
                        *final(validation),
                        strict,
                        "transition_spawn_missing"@,
                        final(state).error->0,
                    )
                    &&& strict ==> load_failed(*old(load_state), *final(load_state))
                    &&& !strict ==> *final(load_state) == *old(load_state)
                    &&& *final(current) == *old(current)
                    &&& *final(runtime) == *old(runtime)
                }
                &&& !(choice is Missing) ==> {
                    &&& outcome matches LdtkTransitionOutcome::Completed {
                        cleanup_level,
                        spawn,
                        ready,
                        collision,
                    } && {
                        &&& resolves_to(
                            Result::<LdtkSpawnPoint, String>::Ok(spawn),
                            choice,
                            level_spawns(*catalog, level),
                            level,
                        )
                        &&& cleanup_level == if old(current).identifier matches Some(c) && c@
                            != level {
                            old(current).identifier
                        } else {
                            None
                        }
                        &&& ready.level_identifier@ == level
                        &&& ready.spawn_id == old(pending).spawn_id
                        &&& ready.position == spawn.position
                        &&& collision.level_identifier@ == level
                        &&& collision.cells == count_level_cells(
                            collision_catalog.cells@,
                            level,
                        )
                    }
                    &&& final(current).identifier matches Some(x) && x@ == level
                    &&& final(current).iid matches Some(x) && x@ == iid
                    &&& *final(runtime) == (LdtkRuntimeState {
                        active_level: final(current).identifier,
                        ..*old(runtime)
                    })
                    &&& final(state).status == LevelTransitionStatus::Ready
                    &&& final(state).error is None
                    &&& *final(load_state) == *old(load_state)
                    &&& *final(validation) == *old(validation)
                }
            }
        }),
{
    proof {
        reveal_strlit("transition_spawn_missing");
    }
    let target = match &pending.target_level {
        Some(t) => t.clone(),
        None => {
            return LdtkTransitionOutcome::Unchanged;
        },
    };
    let k = match find_completing(spawned, pending, catalog) {
        Some(k) => k,
        None => {
            return LdtkTransitionOutcome::Unchanged;
        },
    };
    let level_iid = spawned[k].clone();
    let level_identifier = match level_identifier_from_iid(catalog, level_iid.as_str()) {
        Some(id) => id,
        None => target,
    };
    let spawn_id = clone_opt_string(&pending.spawn_id);
    let resolved = match &pending.spawn_id {
        Some(q) => resolve_spawn_point(catalog, level_identifier.as_str(), Some(q.as_str()), config),
        None => resolve_spawn_point(catalog, level_identifier.as_str(), None, config),
    };
    let spawn = match resolved {
        Ok(spawn) => spawn,
        Err(message) => {
            state.status = LevelTransitionStatus::Failed;
            state.error = Some(message.clone());
            validation.push(strict, "transition_spawn_missing", message);
            if strict {
                load_state.status = LdtkLoadStatus::Error;
            }
            pending.target_level = None;
            pending.target_level_iid = None;
            pending.spawn_id = None;
            return LdtkTransitionOutcome::Failed;
        },
    };
    let cleanup_level = match &current.identifier {
        Some(c) => if str_eq(c.as_str(), level_identifier.as_str()) {
            None
        } else {
            Some(c.clone())
        },
        None => None,
    };
    current.identifier = Some(level_identifier.clone());
    current.iid = Some(level_iid);
    runtime.active_level = Some(level_identifier.clone());
    state.status = LevelTransitionStatus::Ready;
    state.error = None;
    pending.target_level = None;
    pending.target_level_iid = None;
    pending.spawn_id = None;
    let cells = count_cells(&collision_catalog.cells, level_identifier.as_str());
    let ready = LdtkLevelReadyEvent {
        level_identifier: level_identifier.clone(),
        spawn_id,
        position: spawn.position,
    };
    let collision = LdtkCollisionReadyEvent { level_identifier, cells };
    LdtkTransitionOutcome::Completed { cleanup_level, spawn, ready, collision }
}

/// Identifies an animated tile: its level's IID, its layer's IID and its
/// grid cell.
#[derive(Debug)]
pub struct LdtkTileAnimationKey {
    pub level_iid: String,
    pub layer_iid: String,
    pub grid_pos: IVec2,
}

impl View for LdtkTileAnimationKey {
    type V = (Seq<char>, Seq<char>, IVec2);

    open spec fn view(&self) -> (Seq<char>, Seq<char>, IVec2) {
        (self.level_iid@, self.layer_iid@, self.grid_pos)
    }
}

impl LookupKey for LdtkTileAnimationKey {
    fn key_eq(&self, other: &Self) -> (b: bool) {
        self.level_iid == other.level_iid && self.layer_iid == other.layer_iid
            && self.grid_pos.x == other.grid_pos.x && self.grid_pos.y == other.grid_pos.y
    }

    fn key_clone(&self) -> (c: Self) {
        LdtkTileAnimationKey {
            level_iid: self.level_iid.clone(),
            layer_iid: self.layer_iid.clone(),
            grid_pos: self.grid_pos,
        }
    }
}

/// Grid cell of a tile at pixel `px` on a layer with cells of `grid`
/// pixels (division rounding toward zero).
pub open spec fn grid_cell(px: IVec2, grid: int) -> IVec2 {
    IVec2 { x: trunc_div(px.x as int, grid) as i32, y: trunc_div(px.y as int, grid) as i32 }
}

/// The lookup after adding the animated tiles `tiles` of `level`: a tile
/// counts when it is animated and its layer is known with a positive grid
/// size; later tiles replace earlier ones with the same key.
pub open spec fn tiles_lookup(
    m: Map<(Seq<char>, Seq<char>, IVec2), LdtkTileAnimation>,
    level: LdtkLevelInfo,
    tiles: Seq<LdtkTileMetadata>,
    layers: Map<Seq<char>, LdtkLayerInfo>,
) -> Map<(Seq<char>, Seq<char>, IVec2), LdtkTileAnimation>
    decreases tiles.len(),
{
    if tiles.len() == 0 {
        m
    } else {
        let before = tiles_lookup(m, level, tiles.drop_last(), layers);
        let t = tiles.last();
        match t.animation {
            Some(a) => if layers.contains_key(t.layer_iid@) && layers[t.layer_iid@].grid_size > 0 {
                before.insert(
                    (
                        level.iid@,
                        t.layer_iid@,
                        grid_cell(t.layer_position, layers[t.layer_iid@].grid_size as int),
                    ),
                    a,
                )
            } else {
                before
            },
            None => before,
        }
    }
}

/// The lookup of the animated tiles of the level records `levels`, in order.
pub open spec fn levels_lookup(
    levels: Seq<(String, LdtkLevelInfo)>,
    layers: Map<Seq<char>, LdtkLayerInfo>,
) -> Map<(Seq<char>, Seq<char>, IVec2), LdtkTileAnimation>
    decreases levels.len(),
{
    if levels.len() == 0 {
        Map::empty()
    } else {
        let l = levels.last().1;
        tiles_lookup(levels_lookup(levels.drop_last(), layers), l, l.tiles@, layers)
    }
}

/// `m` has the keys of `expected`, each with the same animation.
pub open spec fn lookup_matches(
    m: Map<(Seq<char>, Seq<char>, IVec2), LdtkTileAnimation>,
    expected: Map<(Seq<char>, Seq<char>, IVec2), LdtkTileAnimation>,
) -> bool {
    &&& m.dom() == expected.dom()
    &&& forall|k: (Seq<char>, Seq<char>, IVec2)| #[trigger]
        m.contains_key(k) ==> same_animation(m[k], expected[k])
}

fn add_level_tiles(
    lookup: &mut KeyedMap<LdtkTileAnimationKey, LdtkTileAnimation>,
    level: &LdtkLevelInfo,
    layers: &KeyedMap<String, LdtkLayerInfo>,
    Ghost(expected): Ghost<Map<(Seq<char>, Seq<char>, IVec2), LdtkTileAnimation>>,
)
    requires
        lookup_matches(old(lookup)@, expected),
    ensures
        lookup_matches(final(lookup)@, tiles_lookup(expected, *level, level.tiles@, layers@)),
{
    let mut i: usize = 0;
    proof {
        assert(level.tiles@.take(0) =~= Seq::<LdtkTileMetadata>::empty());
    }
    while i < level.tiles.len()
        invariant
            i <= level.tiles@.len(),
            lookup_matches(
                lookup@,
                tiles_lookup(expected, *level, level.tiles@.take(i as int), layers@),
            ),
        decreases level.tiles@.len() - i,
    {
        let tile = &level.tiles[i];
        proof {
            assert(level.tiles@.take(i + 1).drop_last() =~= level.tiles@.take(i as int));
            assert(level.tiles@.take(i + 1).last() == *tile);
        }
        if let Some(animation) = &tile.animation {
            if let Some(layer) = layers.get(&tile.layer_iid) {
                if layer.grid_size > 0 {
                    let gx = div_toward_zero(tile.layer_position.x as i64, layer.grid_size as i64);
                    let gy = div_toward_zero(tile.layer_position.y as i64, layer.grid_size as i64);
                    proof {
                        lemma_trunc_div_fits(tile.layer_position.x as int, layer.grid_size as int);
                        lemma_trunc_div_fits(tile.layer_position.y as int, layer.grid_size as int);
                    }
                    let key = LdtkTileAnimationKey {
                        level_iid: level.iid.clone(),
                        layer_iid: tile.layer_iid.clone(),
                        grid_pos: IVec2::new(gx as i32, gy as i32),
                    };
                    lookup.insert(key, animation.clone());
                }
            }
        }
        i = i + 1;
    }
    proof {
        assert(level.tiles@.take(level.tiles@.len() as int) =~= level.tiles@);
    }
}

proof fn lemma_trunc_div_fits(a: int, b: int)
    requires
        i32::MIN <= a <= i32::MAX,
        b > 0,
    ensures
        i32::MIN <= trunc_div(a, b) <= i32::MAX,
{
    if a >= 0 {
        assert(0 <= a / b <= a) by (nonlinear_arith)
            requires
                a >= 0,
                b > 0,
        ;
    } else {
        assert(0 <= (-a) / b <= -a) by (nonlinear_arith)
            requires
                a < 0,
                b > 0,
        ;
    }
}

/// Animated tiles of all levels by level IID, layer IID and grid cell, for
/// attaching animators to spawned tiles.
pub fn build_tile_animation_lookup(
    levels: &KeyedMap<String, LdtkLevelInfo>,
    layers: &KeyedMap<String, LdtkLayerInfo>,
) -> (lookup: KeyedMap<LdtkTileAnimationKey, LdtkTileAnimation>)
    ensures
        lookup_matches(lookup@, levels_lookup(levels.pairs(), layers@)),
{
    let mut lookup: KeyedMap<LdtkTileAnimationKey, LdtkTileAnimation> = KeyedMap::new();
    let n = levels.len();
    let mut i: usize = 0;
    proof {
        assert(levels.pairs().take(0) =~= Seq::<(String, LdtkLevelInfo)>::empty());
        assert(lookup@.dom() =~= Map::<(Seq<char>, Seq<char>, IVec2), LdtkTileAnimation>::empty().dom());
    }
    while i < n
        invariant
            n == levels.pairs().len(),
            i <= n,
            lookup_matches(lookup@, levels_lookup(levels.pairs().take(i as int), layers@)),
        decreases n - i,
    {
        let level = levels.value_at(i);
        proof {
            assert(levels.pairs().take(i + 1).drop_last() =~= levels.pairs().take(i as int));
            assert(levels.pairs().take(i + 1).last() == levels.pairs()[i as int]);
        }
        add_level_tiles(
            &mut lookup,
            level,
            layers,
            Ghost(levels_lookup(levels.pairs().take(i as int), layers@)),
        );
        i = i + 1;
    }
    proof {
        assert(levels.pairs().take(n as int) =~= levels.pairs());
    }
    lookup
}

/// The animation lookup is rebuilt when the catalog changed and the tile
/// animation adapter is enabled.
pub fn should_rebuild_tile_animation_lookup(
    catalog_changed: bool,
    config: &LdtkLevelManagerConfig,
) -> (b: bool)
    ensures
        b == (catalog_changed && config.enable_tile_animation_adapter),
{
    catalog_changed && config.enable_tile_animation_adapter
}

/// Lookup key of a spawned tile at grid cell (`x`, `y`) of layer
/// `layer_iid`, in the level the engine names `level_id` (an identifier or
/// an IID).
pub open spec fn spawned_tile_key(
    catalog: LdtkMapCatalog,
    level_id: Seq<char>,
    layer_iid: Seq<char>,
    x: u32,
    y: u32,
) -> (Seq<char>, Seq<char>, IVec2) {
    let level_iid = match find_level(catalog, level_id) {
        Some(info) => info.iid@,
        None => level_id,
    };
    (level_iid, layer_iid, IVec2 { x: x as i32, y: y as i32 })
}

/// The animation of a spawned tile, if the lookup has one for it.
pub fn tile_animation_for<'a>(
    lookup: &'a KeyedMap<LdtkTileAnimationKey, LdtkTileAnimation>,
    catalog: &LdtkMapCatalog,
    level_id: &str,
    layer_iid: &String,
    x: u32,
    y: u32,
) -> (r: Option<&'a LdtkTileAnimation>)
    ensures
        match r {
            Some(a) => lookup@.contains_key(spawned_tile_key(*catalog, level_id@, layer_iid@, x, y))
                && *a == lookup@[spawned_tile_key(*catalog, level_id@, layer_iid@, x, y)],
            None => !lookup@.contains_key(spawned_tile_key(*catalog, level_id@, layer_iid@, x, y)),
        },
{
    let level_iid = resolve_level_iid_from_metadata(catalog, level_id);
    let key = LdtkTileAnimationKey {
        level_iid,
        layer_iid: layer_iid.clone(),
        grid_pos: IVec2::new(x as i32, y as i32),
    };
    lookup.get(&key)
}

proof fn lemma_eq_ci_swap(a: Seq<char>, q1: Seq<char>, q2: Seq<char>)
    requires
        eq_ascii_ci(q1, q2),
    ensures
        eq_ascii_ci(a, q1) == eq_ascii_ci(a, q2),
{
    if eq_ascii_ci(a, q1) {
        assert forall|i: int| 0 <= i < a.len() implies ascii_lower(#[trigger] a[i]) == ascii_lower(
            q2[i],
        ) by {
            assert(ascii_lower(a[i]) == ascii_lower(q1[i]));
            assert(ascii_lower(q1[i]) == ascii_lower(q2[i]));
        }
    }
    if eq_ascii_ci(a, q2) {
        assert forall|i: int| 0 <= i < a.len() implies ascii_lower(#[trigger] a[i]) == ascii_lower(
            q1[i],
        ) by {
            assert(ascii_lower(a[i]) == ascii_lower(q2[i]));
            assert(ascii_lower(q1[i]) == ascii_lower(q2[i]));
        }
    }
}

proof fn lemma_spawn_named_ci(sp: LdtkSpawnPoint, q1: Seq<char>, q2: Seq<char>)
    requires
        eq_ascii_ci(q1, q2),
    ensures
        spawn_named(sp, q1) == spawn_named(sp, q2),
{
    lemma_eq_ci_swap(sp.identifier@, q1, q2);
    if tags_match(sp.tags@, q1) {
        let t = choose|t: int| 0 <= t < sp.tags@.len() && eq_ascii_ci(#[trigger] sp.tags@[t]@, q1);
        lemma_eq_ci_swap(sp.tags@[t]@, q1, q2);
    }
    if tags_match(sp.tags@, q2) {
        let t = choose|t: int| 0 <= t < sp.tags@.len() && eq_ascii_ci(#[trigger] sp.tags@[t]@, q2);
        lemma_eq_ci_swap(sp.tags@[t]@, q1, q2);
    }
}

proof fn lemma_first_named_ci(sps: Seq<LdtkSpawnPoint>, q1: Seq<char>, q2: Seq<char>, start: int)
    requires
        eq_ascii_ci(q1, q2),
    ensures
        first_named_from(sps, q1, start) == first_named_from(sps, q2, start),
    decreases sps.len() - start,
{
    if 0 <= start < sps.len() {
        lemma_spawn_named_ci(sps[start], q1, q2);
        lemma_first_named_ci(sps, q1, q2, start + 1);
    }
}

/// Spawn ids are matched without regard to ASCII case: two ids that differ
/// only in case pick the same spawn point of a level.
pub proof fn lemma_spawn_choice_ignores_case(
    catalog: LdtkMapCatalog,
    target: Seq<char>,
    q1: Seq<char>,
    q2: Seq<char>,
    config: LdtkLevelManagerConfig,
)
    requires
        eq_ascii_ci(q1, q2),
    ensures
        (spawn_choice(catalog, target, Some(q1), config) is At) == (spawn_choice(
            catalog,
            target,
            Some(q2),
            config,
        ) is At),
        spawn_choice(catalog, target, Some(q1), config) is At ==> spawn_choice(
            catalog,
            target,
            Some(q1),
            config,
        ) == spawn_choice(catalog, target, Some(q2), config),
{
    if catalog.levels@.contains_key(target) {
        lemma_first_named_ci(catalog.levels@[target].spawn_points@, q1, q2, 0);
    }
}

} // verus!
