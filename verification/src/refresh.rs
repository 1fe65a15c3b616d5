//! Rebuilding the map catalog from a loaded project: which external level
//! files to read, the world records, the level records, the neighbour graph,
//! the load statistics and the load status that follows a rebuild.

use vstd::prelude::*;

use crate::builder::{
    animations_match, build_tile_animations, extract_tilesets, insert_level, layers_added,
    level_layers, level_matches, neighbor_cost, parse_neighbor_direction, spec_neighbor_cost,
    spec_neighbor_direction, tilesets_animations, tilesets_match,
};
use crate::catalog::{
    index_entities, LdtkLayerInfo, LdtkLevelInfo, LdtkMapCatalog, LdtkNeighbor, LdtkWorldInfo,
    LdtkWorldLayout,
};
use crate::config::LdtkConfig;
use crate::events::{LdtkMapLoadedEvent, LdtkValidationFinishedEvent};
use crate::registry::LdtkEntityRegistry;
use crate::state::{
    LdtkLoadState, LdtkLoadStats, LdtkLoadStatus, LdtkRuntimeState, LdtkTransitionState,
    LdtkValidationIssue, LdtkValidationReport,
};
use crate::validation::{catalog_issues, report_holds, validate_catalog};
use crate::geometry::{direction_by_world_position, spec_direction, IVec2, LdtkDirection};
use crate::keyed_map::{has_key, KeyedMap};
use crate::project::{LdtkLevelData, LdtkNeighbourData, LdtkProjectData, LdtkWorldData};
use crate::text::{str_eq, to_owned_string, views};

verus! {

/// An ASCII letter, digit, underscore or hyphen: a character that is no
/// path separator, drive marker or extension dot on any platform.
pub open spec fn is_plain_char(c: char) -> bool {
    ('a' <= c && c <= 'z') || ('A' <= c && c <= 'Z') || ('0' <= c && c <= '9') || c == '_' || c
        == '-'
}

/// A non-empty name made of plain characters only.
pub open spec fn plain_name(s: Seq<char>) -> bool {
    s.len() > 0 && forall|i: int| 0 <= i < s.len() ==> is_plain_char(#[trigger] s[i])
}

/// A relative directory path made of plain names and `/` separators that
/// starts with a plain character: no root, drive, prefix, `.` or `..`.
pub open spec fn plain_dir(d: Seq<char>) -> bool {
    d.len() > 0 && is_plain_char(d[0]) && forall|i: int|
        0 <= i < d.len() ==> is_plain_char(#[trigger] d[i]) || d[i] == '/'
}

/// A file name whose stem is `s`: the plain name `s` alone, or `s`, one dot
/// and a plain extension.
pub open spec fn file_with_stem(f: Seq<char>, s: Seq<char>) -> bool {
    plain_name(s) && (f == s || exists|e: Seq<char>|
        #![trigger plain_name(e)]
        plain_name(e) && f == s + seq!['.'] + e)
}

/// A path whose stem is `s` whatever the platform: a file name with stem
/// `s`, alone or after a plain relative directory and a `/`.
pub open spec fn path_with_stem(path: Seq<char>, s: Seq<char>) -> bool {
    file_with_stem(path, s) || exists|d: Seq<char>, f: Seq<char>|
        #![trigger plain_dir(d), file_with_stem(f, s)]
        plain_dir(d) && file_with_stem(f, s) && path == d + seq!['/'] + f
}

/// `std::path::Path::file_stem` of `path`, as text. Its documentation says
/// that a path without a file name, such as the empty one, has no stem; that
/// the file name is the last component; and that the stem is the whole file
/// name when it has no dot, otherwise the part before the final dot. `/`
/// separates components on every platform, and a path made only of plain
/// names, `/` and at most one dot in the last name has no prefix, root or
/// `.`/`..` component anywhere, so its stem is the one `path_with_stem`
/// names. What the call gives for other paths follows the platform's path
/// rules (other separators, drive prefixes, dots at the start of a name)
/// and is not stated here.
#[verifier::external_body]
fn path_file_stem(path: &str) -> (stem: Option<String>)
    ensures
        path@.len() == 0 ==> stem is None,
        forall|s: Seq<char>| #[trigger] path_with_stem(path@, s) ==> stem is Some && stem->0@ == s,
{
    std::path::Path::new(path).file_stem().and_then(|s| s.to_str()).map(|s| s.to_string())
}

/// A filesystem path, as `std::path::PathBuf`.
#[verifier::external_type_specification]
#[verifier::external_body]
pub struct ExPathBuf(std::path::PathBuf);

/// A directory path of plain names joined by single `/`: no empty name
/// between two separators and none at the end.
pub open spec fn clean_dir(d: Seq<char>) -> bool {
    &&& plain_dir(d)
    &&& is_plain_char(d.last())
    &&& forall|i: int, j: int|
        #![trigger d[i], d[j]]
        0 <= i && j == i + 1 && j < d.len() && d[i] == '/' ==> d[j] != '/'
}

/// `std::path::Path::parent` of `path`, as text. Its documentation says
/// that the parent is the path without its final component, that the empty
/// path has none, and that a single relative name has the empty path as its
/// parent. So a file name of the `file_with_stem` shape has the empty
/// parent, and a clean plain directory, a `/` and such a file name has that
/// directory as its parent. What it gives for other paths follows the
/// platform's path rules and is not stated here.
#[verifier::external_body]
fn path_parent(path: &str) -> (parent: Option<String>)
    ensures
        path@.len() == 0 ==> parent is None,
        forall|s: Seq<char>|
            #[trigger] file_with_stem(path@, s) ==> parent is Some && parent->0@.len() == 0,
        forall|d: Seq<char>, f: Seq<char>, s: Seq<char>|
            #![trigger clean_dir(d), file_with_stem(f, s)]
            clean_dir(d) && file_with_stem(f, s) && path@ == d + seq!['/'] + f ==> parent is Some
                && parent->0@ == d,
{
    std::path::Path::new(path).parent().and_then(|p| p.to_str()).map(|p| p.to_string())
}

/// `std::path::PathBuf::from` a string. Nothing is stated of the result.
#[verifier::external_body]
fn path_from(path: &str) -> std::path::PathBuf {
    std::path::PathBuf::from(path)
}

/// `std::path::Path::join`: `base` extended by `rest`, which replaces it
/// when absolute, by the platform's path rules. Nothing is stated of the
/// result.
#[verifier::external_body]
fn path_join(base: &std::path::PathBuf, rest: &str) -> std::path::PathBuf {
    base.join(rest)
}

/// Directory of the world file that external level paths are relative
/// to: the parent of `active_world_path`, empty when it has none. For a
/// plain file name that is the empty directory; for a clean plain directory,
/// a `/` and a plain file name, that directory.
pub fn world_directory(active_world_path: &str) -> (dir: String)
    ensures
        active_world_path@.len() == 0 ==> dir@.len() == 0,
        forall|s: Seq<char>| #[trigger] file_with_stem(active_world_path@, s) ==> dir@.len() == 0,
        forall|d: Seq<char>, f: Seq<char>, s: Seq<char>|
            #![trigger clean_dir(d), file_with_stem(f, s)]
            clean_dir(d) && file_with_stem(f, s) && active_world_path@ == d + seq!['/'] + f ==> dir@
                == d,
{
    match path_parent(active_world_path) {
        Some(dir) => dir,
        None => String::new(),
    }
}

/// On-disk location of an external level file: the asset root, joined with
/// the directory of the world file (`world_directory`), joined with the
/// level's relative path. The joins follow the platform's path rules.
pub fn external_level_path(
    asset_root: &str,
    active_world_path: &str,
    external_path: &str,
) -> std::path::PathBuf {
    let world_dir = world_directory(active_world_path);
    let root = path_from(asset_root);
    let in_world_dir = path_join(&root, world_dir.as_str());
    path_join(&in_world_dir, external_path)
}

/// World identifier from the stem of a project file path: the stem, or the
/// whole path when it has none.
pub fn world_identifier_from_stem(stem: Option<String>, world_path: &str) -> (id: String)
    ensures
        match stem {
            Some(s) => id == s,
            None => id@ == world_path@,
        },
{
    match stem {
        Some(s) => s,
        None => to_owned_string(world_path),
    }
}

/// `w` names the world of a project file at `path`: empty for the empty
/// path, and the file's stem wherever `path_with_stem` gives it.
pub open spec fn world_name_for(w: Seq<char>, path: Seq<char>) -> bool {
    &&& path.len() == 0 ==> w.len() == 0
    &&& forall|s: Seq<char>| #[trigger] path_with_stem(path, s) ==> w == s
}

/// World identifier for a project file path: the file's stem, or the whole
/// path when it has none.
pub fn world_identifier_from_path(world_path: &str) -> (id: String)
    ensures
        world_name_for(id@, world_path@),
{
    world_identifier_from_stem(path_file_stem(world_path), world_path)
}

/// The external level file to read for `level`: its relative path, when
/// external levels are cataloged and the level's layers are not embedded.
pub open spec fn spec_external_level_to_read(level: LdtkLevelData, config: LdtkConfig) -> Option<
    String,
> {
    if !config.catalog_external_levels || level.layer_instances is Some {
        None
    } else {
        level.external_rel_path
    }
}

/// Which external level file, if any, the catalog reads for `level`.
pub fn external_level_to_read<'a>(level: &'a LdtkLevelData, config: &LdtkConfig) -> (r: Option<
    &'a String,
>)
    ensures
        match r {
            Some(p) => spec_external_level_to_read(*level, *config) == Some(*p),
            None => spec_external_level_to_read(*level, *config) is None,
        },
{
    if !config.catalog_external_levels || level.layer_instances.is_some() {
        return None;
    }
    match &level.external_rel_path {
        Some(p) => Some(p),
        None => None,
    }
}

/// The level as it enters the catalog: the contents of its external file
/// where that file is to be read and was read (`external`, by relative
/// path), the level itself otherwise.
pub open spec fn effective_level(
    level: LdtkLevelData,
    config: LdtkConfig,
    external: Map<Seq<char>, LdtkLevelData>,
) -> LdtkLevelData {
    match spec_external_level_to_read(level, config) {
        Some(p) => if external.contains_key(p@) {
            external[p@]
        } else {
            level
        },
        None => level,
    }
}

fn level_for_catalog<'a>(
    level: &'a LdtkLevelData,
    config: &LdtkConfig,
    external: &'a KeyedMap<String, LdtkLevelData>,
) -> (r: &'a LdtkLevelData)
    ensures
        *r == effective_level(*level, *config, external@),
{
    match external_level_to_read(level, config) {
        Some(p) => match external.get(p) {
            Some(loaded) => loaded,
            None => level,
        },
        None => level,
    }
}

/// The levels of each world, in world order.
pub open spec fn worlds_levels(ws: Seq<LdtkWorldData>) -> Seq<LdtkLevelData>
    decreases ws.len(),
{
    if ws.len() == 0 {
        Seq::empty()
    } else {
        worlds_levels(ws.drop_last()) + ws.last().levels@
    }
}

/// The levels of the project file in reading order: those of its worlds,
/// or its top-level levels when it has no worlds.
pub open spec fn json_levels(p: LdtkProjectData) -> Seq<LdtkLevelData> {
    if p.worlds@.len() == 0 {
        p.levels@
    } else {
        worlds_levels(p.worlds@)
    }
}

/// The last level of `levels` with IID `iid`.
pub open spec fn last_level_with_iid(levels: Seq<LdtkLevelData>, iid: Seq<char>) -> Option<
    LdtkLevelData,
>
    decreases levels.len(),
{
    if levels.len() == 0 {
        None
    } else if levels.last().iid@ == iid {
        Some(levels.last())
    } else {
        last_level_with_iid(levels.drop_last(), iid)
    }
}

proof fn lemma_last_level_concat(a: Seq<LdtkLevelData>, b: Seq<LdtkLevelData>, iid: Seq<char>)
    ensures
        last_level_with_iid(a + b, iid) == match last_level_with_iid(b, iid) {
            Some(l) => Some(l),
            None => last_level_with_iid(a, iid),
        },
    decreases b.len(),
{
    if b.len() == 0 {
        assert(a + b =~= a);
    } else {
        assert((a + b).drop_last() =~= a + b.drop_last());
        assert((a + b).last() == b.last());
        lemma_last_level_concat(a, b.drop_last(), iid);
    }
}

/// Scans `levels` and returns the last one with IID `iid`, or `found` when
/// none has it.
fn scan_levels<'a>(levels: &'a Vec<LdtkLevelData>, iid: &str, found: Option<&'a LdtkLevelData>) -> (r:
    Option<&'a LdtkLevelData>)
    ensures
        match last_level_with_iid(levels@, iid@) {
            Some(l) => r == Some(&l),
            None => r == found,
        },
{
    let mut r = found;
    let mut i: usize = 0;
    while i < levels.len()
        invariant
            i <= levels@.len(),
            match last_level_with_iid(levels@.take(i as int), iid@) {
                Some(l) => r == Some(&l),
                None => r == found,
            },
        decreases levels@.len() - i,
    {
        proof {
            assert(levels@.take(i + 1).drop_last() =~= levels@.take(i as int));
            assert(levels@.take(i + 1).last() == levels@[i as int]);
        }
        if str_eq(levels[i].iid.as_str(), iid) {
            r = Some(&levels[i]);
        }
        i = i + 1;
    }
    proof {
        assert(levels@.take(levels@.len() as int) =~= levels@);
    }
    r
}

/// The last level of the project file with IID `iid`.
fn find_json_level<'a>(p: &'a LdtkProjectData, iid: &str) -> (r: Option<&'a LdtkLevelData>)
    ensures
        match last_level_with_iid(json_levels(*p), iid@) {
            Some(l) => r == Some(&l),
            None => r is None,
        },
{
    if p.worlds.len() == 0 {
        return scan_levels(&p.levels, iid, None);
    }
    let mut r: Option<&LdtkLevelData> = None;
    let mut i: usize = 0;
    proof {
        assert(p.worlds@.take(0) =~= Seq::<LdtkWorldData>::empty());
    }
    while i < p.worlds.len()
        invariant
            i <= p.worlds@.len(),
            p.worlds@.len() > 0,
            match last_level_with_iid(worlds_levels(p.worlds@.take(i as int)), iid@) {
                Some(l) => r == Some(&l),
                None => r is None,
            },
        decreases p.worlds@.len() - i,
    {
        let ghost before = worlds_levels(p.worlds@.take(i as int));
        proof {
            assert(p.worlds@.take(i + 1).drop_last() =~= p.worlds@.take(i as int));
            assert(p.worlds@.take(i + 1).last() == p.worlds@[i as int]);
            lemma_last_level_concat(before, p.worlds@[i as int].levels@, iid@);
        }
        r = scan_levels(&p.worlds[i].levels, iid, r);
        i = i + 1;
    }
    proof {
        assert(p.worlds@.take(p.worlds@.len() as int) =~= p.worlds@);
    }
    r
}

/// The neighbour link of `source` described by `n`: the target's
/// identifier (its IID when the project has no level with that IID), the
/// direction named by the code, else derived from the world positions, else
/// north, and the cost class of the code.
pub open spec fn neighbor_link(
    levels: Seq<LdtkLevelData>,
    source: LdtkLevelData,
    n: LdtkNeighbourData,
) -> LdtkNeighbor {
    let target = last_level_with_iid(levels, n.level_iid@);
    LdtkNeighbor {
        level_identifier: match target {
            Some(t) => t.identifier,
            None => n.level_iid,
        },
        direction: match spec_neighbor_direction(n.dir@) {
            Some(d) => d,
            None => match target {
                Some(t) => match spec_direction(
                    source.world_x as int,
                    source.world_y as int,
                    t.world_x as int,
                    t.world_y as int,
                ) {
                    Some(d) => d,
                    None => LdtkDirection::North,
                },
                None => LdtkDirection::North,
            },
        },
        cost: spec_neighbor_cost(n.dir@),
    }
}

/// The neighbour links of the level with IID `iid`, from the last level of
/// the project file with that IID; none when there is no such level.
pub open spec fn neighbor_links(levels: Seq<LdtkLevelData>, iid: Seq<char>) -> Seq<LdtkNeighbor> {
    match last_level_with_iid(levels, iid) {
        Some(source) => source.neighbours@.map_values(
            |n: LdtkNeighbourData| neighbor_link(levels, source, n),
        ),
        None => Seq::empty(),
    }
}

fn link_for(p: &LdtkProjectData, source: &LdtkLevelData, n: &LdtkNeighbourData) -> (l: LdtkNeighbor)
    ensures
        l == neighbor_link(json_levels(*p), *source, *n),
{
    let target = find_json_level(p, n.level_iid.as_str());
    let level_identifier = match target {
        Some(t) => t.identifier.clone(),
        None => n.level_iid.clone(),
    };
    let direction = match parse_neighbor_direction(n.dir.as_str()) {
        Some(d) => d,
        None => match target {
            Some(t) => match direction_by_world_position(
                IVec2::new(source.world_x, source.world_y),
                IVec2::new(t.world_x, t.world_y),
            ) {
                Some(d) => d,
                None => LdtkDirection::North,
            },
            None => LdtkDirection::North,
        },
    };
    let cost = neighbor_cost(n.dir.as_str());
    LdtkNeighbor { level_identifier, direction, cost }
}

/// The neighbour links of the level with IID `iid`.
fn links_for(p: &LdtkProjectData, iid: &str) -> (v: Vec<LdtkNeighbor>)
    ensures
        v@ == neighbor_links(json_levels(*p), iid@),
{
    let mut v: Vec<LdtkNeighbor> = Vec::new();
    match find_json_level(p, iid) {
        None => {
            proof {
                assert(v@ =~= neighbor_links(json_levels(*p), iid@));
            }
            v
        },
        Some(source) => {
            let ghost f = |n: LdtkNeighbourData| neighbor_link(json_levels(*p), *source, n);
            let mut i: usize = 0;
            while i < source.neighbours.len()
                invariant
                    i <= source.neighbours@.len(),
                    v@ =~= source.neighbours@.take(i as int).map_values(f),
                    f == (|n: LdtkNeighbourData| neighbor_link(json_levels(*p), *source, n)),
                decreases source.neighbours@.len() - i,
            {
                let l = link_for(p, source, &source.neighbours[i]);
                v.push(l);
                proof {
                    assert(source.neighbours@.take(i + 1) =~= source.neighbours@.take(i as int).push(
                        source.neighbours@[i as int],
                    ));
                }
                i = i + 1;
            }
            proof {
                assert(source.neighbours@.take(source.neighbours@.len() as int)
                    =~= source.neighbours@);
            }
            v
        },
    }
}

/// `after` is the level record `before` with its neighbour links replaced by
/// `links`.
pub open spec fn relinked(before: LdtkLevelInfo, after: LdtkLevelInfo, links: Seq<LdtkNeighbor>) -> bool {
    &&& after.iid == before.iid
    &&& after.uid == before.uid
    &&& after.identifier == before.identifier
    &&& after.world_identifier == before.world_identifier
    &&& after.external_path == before.external_path
    &&& after.size == before.size
    &&& after.world_position == before.world_position
    &&& after.spawn_points == before.spawn_points
    &&& after.tiles == before.tiles
    &&& after.entities == before.entities
    &&& after.fields == before.fields
    &&& after.neighbors@ == links
}

/// `after` is `before` with the neighbour links of every level record
/// computed from the project's levels `levels`; nothing else changes.
pub open spec fn neighbors_linked(
    before: LdtkMapCatalog,
    after: LdtkMapCatalog,
    levels: Seq<LdtkLevelData>,
) -> bool {
    &&& after.levels@.dom() == before.levels@.dom()
    &&& forall|k: Seq<char>| #[trigger]
        after.levels@.contains_key(k) ==> relinked(
            before.levels@[k],
            after.levels@[k],
            neighbor_links(levels, before.levels@[k].iid@),
        )
    &&& after.worlds == before.worlds
    &&& after.levels_by_iid == before.levels_by_iid
    &&& after.levels_by_uid == before.levels_by_uid
    &&& after.layers == before.layers
    &&& after.tilesets == before.tilesets
    &&& after.tile_animations == before.tile_animations
    &&& after.entities_by_iid == before.entities_by_iid
}

/// An empty level record: empty texts, zero numbers, no links, spawn
/// points, tiles, entities or fields.
fn placeholder_level() -> (l: LdtkLevelInfo)
    ensures
        l.iid@ == Seq::<char>::empty(),
        l.uid == 0,
        l.identifier@ == Seq::<char>::empty(),
        l.world_identifier@ == Seq::<char>::empty(),
        l.external_path is None,
        l.size == IVec2::spec_zero(),
        l.world_position == IVec2::spec_zero(),
        l.neighbors@.len() == 0,
        l.spawn_points@.len() == 0,
        l.tiles@.len() == 0,
        l.entities@.len() == 0,
        l.fields@ == Map::<Seq<char>, crate::fields::LdtkFieldValue>::empty(),
{
    LdtkLevelInfo {
        iid: String::new(),
        uid: 0,
        identifier: String::new(),
        world_identifier: String::new(),
        external_path: None,
        size: IVec2::new(0, 0),
        world_position: IVec2::new(0, 0),
        neighbors: Vec::new(),
        spawn_points: Vec::new(),
        tiles: Vec::new(),
        entities: Vec::new(),
        fields: KeyedMap::new(),
    }
}

/// Replaces the neighbour links of every cataloged level with those the
/// project file gives for the level's IID.
pub fn compute_level_neighbors(p: &LdtkProjectData, catalog: &mut LdtkMapCatalog)
    ensures
        neighbors_linked(*old(catalog), *final(catalog), json_levels(*p)),
{
    proof {
        use_type_invariant(&catalog.levels);
        catalog.levels.lemma_unique();
    }
    let ghost orig = catalog.levels.pairs();
    let ghost levels = json_levels(*p);
    let n = catalog.levels.len();
    let mut i: usize = 0;
    while i < n
        invariant
            n == orig.len(),
            catalog.levels.pairs().len() == n,
            i <= n,
            levels == json_levels(*p),
            forall|j: int| 0 <= j < n ==> (#[trigger] catalog.levels.pairs()[j]).0 == orig[j].0,
            forall|j: int|
                0 <= j < i ==> relinked(
                    orig[j].1,
                    (#[trigger] catalog.levels.pairs()[j]).1,
                    neighbor_links(levels, orig[j].1.iid@),
                ),
            forall|j: int| i <= j < n ==> (#[trigger] catalog.levels.pairs()[j]).1 == orig[j].1,
            catalog.worlds == old(catalog).worlds,
            catalog.levels_by_iid == old(catalog).levels_by_iid,
            catalog.levels_by_uid == old(catalog).levels_by_uid,
            catalog.layers == old(catalog).layers,
            catalog.tilesets == old(catalog).tilesets,
            catalog.tile_animations == old(catalog).tile_animations,
            catalog.entities_by_iid == old(catalog).entities_by_iid,
        decreases n - i,
    {
        let mut info = catalog.levels.replace_value_at(i, placeholder_level());
        let links = links_for(p, info.iid.as_str());
        info.neighbors = links;
        catalog.levels.replace_value_at(i, info);
        i = i + 1;
    }
    proof {
        use_type_invariant(&catalog.levels);
        catalog.levels.lemma_unique();
        let after = catalog.levels.pairs();
        assert forall|k: Seq<char>| catalog.levels@.contains_key(k) <==> old(
            catalog,
        ).levels@.contains_key(k) by {
            if catalog.levels@.contains_key(k) {
                let j = choose|j: int| 0 <= j < after.len() && (#[trigger] after[j]).0@ == k;
                assert(orig[j].0@ == k);
                assert(has_key(orig, k));
            }
            if old(catalog).levels@.contains_key(k) {
                let j = choose|j: int| 0 <= j < orig.len() && (#[trigger] orig[j]).0@ == k;
                assert(after[j].0@ == k);
                assert(has_key(after, k));
            }
        }
        assert(catalog.levels@.dom() =~= old(catalog).levels@.dom());
        assert forall|k: Seq<char>| #[trigger] catalog.levels@.contains_key(k) implies relinked(
            old(catalog).levels@[k],
            catalog.levels@[k],
            neighbor_links(levels, old(catalog).levels@[k].iid@),
        ) by {
            let j = choose|j: int| 0 <= j < after.len() && (#[trigger] after[j]).0@ == k;
            assert(catalog.levels@[after[j].0@] == after[j].1);
            assert(old(catalog).levels@[orig[j].0@] == orig[j].1);
        }
    }
}

/// Layout of a world; free when the project leaves it unset.
pub open spec fn layout_of(w: LdtkWorldData) -> LdtkWorldLayout {
    match w.world_layout {
        Some(l) => l,
        None => LdtkWorldLayout::Free,
    }
}

/// Each level of `levels` with world identifier `world` and layout `layout`.
pub open spec fn tag_levels(levels: Seq<LdtkLevelData>, world: String, layout: LdtkWorldLayout) -> Seq<
    (LdtkLevelData, String, LdtkWorldLayout),
> {
    levels.map_values(|l: LdtkLevelData| (l, world, layout))
}

/// The levels of each world with the world's identifier and layout, in
/// world order.
pub open spec fn world_items(ws: Seq<LdtkWorldData>) -> Seq<(LdtkLevelData, String, LdtkWorldLayout)>
    decreases ws.len(),
{
    if ws.len() == 0 {
        Seq::empty()
    } else {
        world_items(ws.drop_last()) + tag_levels(
            ws.last().levels@,
            ws.last().identifier,
            layout_of(ws.last()),
        )
    }
}

/// The levels the catalog is built from, in reading order, each with its
/// world identifier and layout. A project without worlds puts its
/// top-level levels in one free-form world named `default_world`.
pub open spec fn catalog_items(p: LdtkProjectData, default_world: String) -> Seq<
    (LdtkLevelData, String, LdtkWorldLayout),
> {
    if p.worlds@.len() == 0 {
        tag_levels(p.levels@, default_world, LdtkWorldLayout::Free)
    } else {
        world_items(p.worlds@)
    }
}

/// The last world of `ws` with identifier `id`.
pub open spec fn last_world_with_identifier(ws: Seq<LdtkWorldData>, id: Seq<char>) -> Option<
    LdtkWorldData,
>
    decreases ws.len(),
{
    if ws.len() == 0 {
        None
    } else if ws.last().identifier@ == id {
        Some(ws.last())
    } else {
        last_world_with_identifier(ws.drop_last(), id)
    }
}

/// `info` records a world named `identifier`, loaded from `path`, holding
/// `levels` (by identifier, in order) with layout `layout`.
pub open spec fn world_record_matches(
    info: LdtkWorldInfo,
    identifier: String,
    path: String,
    levels: Seq<LdtkLevelData>,
    layout: LdtkWorldLayout,
) -> bool {
    &&& info.identifier == identifier
    &&& info.path == path
    &&& views(info.levels@) == levels.map_values(|l: LdtkLevelData| l.identifier@)
    &&& info.layout == layout
}

/// `m` holds the world records of project `p` loaded from `path`: one per
/// world identifier (the last world with it wins), or the one free-form
/// world `default_world` when the project has no worlds.
pub open spec fn worlds_recorded(
    m: Map<Seq<char>, LdtkWorldInfo>,
    p: LdtkProjectData,
    default_world: String,
    path: String,
) -> bool {
    if p.worlds@.len() == 0 {
        &&& m.dom() == set![default_world@]
        &&& world_record_matches(
            m[default_world@],
            default_world,
            path,
            p.levels@,
            LdtkWorldLayout::Free,
        )
    } else {
        &&& forall|k: Seq<char>|
            m.contains_key(k) <==> (#[trigger] last_world_with_identifier(p.worlds@, k)) is Some
        &&& forall|k: Seq<char>| #[trigger]
            m.contains_key(k) ==> {
                let w = last_world_with_identifier(p.worlds@, k)->0;
                world_record_matches(m[k], w.identifier, path, w.levels@, layout_of(w))
            }
    }
}

fn world_record(
    identifier: &String,
    path: &String,
    levels: &Vec<LdtkLevelData>,
    layout: LdtkWorldLayout,
) -> (info: LdtkWorldInfo)
    ensures
        world_record_matches(info, *identifier, *path, levels@, layout),
{
    let mut ids: Vec<String> = Vec::new();
    let mut i: usize = 0;
    while i < levels.len()
        invariant
            i <= levels@.len(),
            views(ids@) =~= levels@.take(i as int).map_values(|l: LdtkLevelData| l.identifier@),
        decreases levels@.len() - i,
    {
        let ghost old_ids = ids@;
        ids.push(levels[i].identifier.clone());
        proof {
            assert(levels@.take(i + 1) =~= levels@.take(i as int).push(levels@[i as int]));
            assert(views(ids@) =~= views(old_ids).push(levels@[i as int].identifier@));
        }
        i = i + 1;
    }
    proof {
        assert(levels@.take(levels@.len() as int) =~= levels@);
    }
    LdtkWorldInfo { identifier: identifier.clone(), path: path.clone(), levels: ids, layout }
}

/// `after` is `before` with `level` of world `world` read in, as
/// `insert_level` does it.
pub open spec fn level_read(
    before: LdtkMapCatalog,
    after: LdtkMapCatalog,
    level: LdtkLevelData,
    world: String,
    config: LdtkConfig,
) -> bool {
    &&& after.layers@ == layers_added(
        before.layers@,
        level_layers(level, config),
        level.identifier,
    )
    &&& after.levels@.dom() == before.levels@.dom().insert(level.identifier@)
    &&& after.levels@.remove(level.identifier@) == before.levels@.remove(level.identifier@)
    &&& level_matches(
        after.levels@[level.identifier@],
        level,
        world,
        config,
        before.tilesets@,
        before.tile_animations@,
    )
    &&& after.levels_by_iid@ == before.levels_by_iid@.insert(level.iid@, level.identifier)
    &&& after.levels_by_uid@ == before.levels_by_uid@.insert(level.uid, level.identifier)
    &&& after.entities_by_iid@ == index_entities(
        before.entities_by_iid@,
        after.levels@[level.identifier@].entities@,
        level.identifier,
    )
    &&& after.worlds == before.worlds
    &&& after.tilesets == before.tilesets
    &&& after.tile_animations == before.tile_animations
}

/// Step `i` of a rebuild: `states[i + 1]` is `states[i]` with item `i` read
/// in.
pub open spec fn level_step(
    states: Seq<LdtkMapCatalog>,
    items: Seq<(LdtkLevelData, String, LdtkWorldLayout)>,
    config: LdtkConfig,
    external: Map<Seq<char>, LdtkLevelData>,
    i: int,
) -> bool {
    level_read(
        states[i],
        states[i + 1],
        effective_level(items[i].0, config, external),
        items[i].1,
        config,
    )
}

/// `states` are the catalogs before and after reading each of `items`.
pub open spec fn levels_read(
    states: Seq<LdtkMapCatalog>,
    items: Seq<(LdtkLevelData, String, LdtkWorldLayout)>,
    config: LdtkConfig,
    external: Map<Seq<char>, LdtkLevelData>,
) -> bool {
    &&& states.len() == items.len() + 1
    &&& forall|i: int|
        0 <= i < items.len() ==> #[trigger] level_step(states, items, config, external, i)
}

proof fn lemma_levels_read_push(
    states: Seq<LdtkMapCatalog>,
    items: Seq<(LdtkLevelData, String, LdtkWorldLayout)>,
    config: LdtkConfig,
    external: Map<Seq<char>, LdtkLevelData>,
    c: LdtkMapCatalog,
    item: (LdtkLevelData, String, LdtkWorldLayout),
)
    requires
        levels_read(states, items, config, external),
        level_read(states.last(), c, effective_level(item.0, config, external), item.1, config),
    ensures
        levels_read(states.push(c), items.push(item), config, external),
{
    let s2 = states.push(c);
    let i2 = items.push(item);
    assert forall|i: int| 0 <= i < i2.len() implies #[trigger] level_step(
        s2,
        i2,
        config,
        external,
        i,
    ) by {
        if i < items.len() {
            assert(level_step(states, items, config, external, i));
            assert(s2[i] == states[i]);
            assert(s2[i + 1] == states[i + 1]);
            assert(i2[i] == items[i]);
        } else {
            assert(s2[i] == states.last());
            assert(s2[i + 1] == c);
            assert(i2[i] == item);
        }
    }
}

/// The catalog before any level is read: empty level, layer and index
/// maps, the tilesets and tile animations of the project, and its world
/// records.
pub open spec fn base_catalog(
    c: LdtkMapCatalog,
    p: LdtkProjectData,
    default_world: String,
    path: String,
) -> bool {
    &&& c.levels@ == Map::<Seq<char>, LdtkLevelInfo>::empty()
    &&& c.levels_by_iid@ == Map::<Seq<char>, String>::empty()
    &&& c.levels_by_uid@ == Map::<i32, String>::empty()
    &&& c.layers@ == Map::<Seq<char>, LdtkLayerInfo>::empty()
    &&& c.entities_by_iid@ == Map::<Seq<char>, (String, usize)>::empty()
    &&& tilesets_match(c.tilesets@, p.tilesets@)
    &&& animations_match(c.tile_animations@, tilesets_animations(c.tilesets.pairs()))
    &&& worlds_recorded(c.worlds@, p, default_world, path)
}

/// `c` is the catalog built from project `p` loaded from `path`: from the
/// base catalog, each level of `catalog_items` read in turn (as
/// `effective_level` gives it), then the neighbour links computed.
pub open spec fn catalog_built(
    c: LdtkMapCatalog,
    p: LdtkProjectData,
    path: String,
    default_world: String,
    config: LdtkConfig,
    external: Map<Seq<char>, LdtkLevelData>,
) -> bool {
    exists|states: Seq<LdtkMapCatalog>|
        #[trigger] levels_read(states, catalog_items(p, default_world), config, external)
            && base_catalog(states[0], p, default_world, path) && neighbors_linked(
            states.last(),
            c,
            json_levels(p),
        )
}

/// Reads `levels` of world `world` into the catalog, extending the record of
/// states `states`.
fn read_world_levels(
    levels: &Vec<LdtkLevelData>,
    world: &String,
    layout: LdtkWorldLayout,
    config: &LdtkConfig,
    external: &KeyedMap<String, LdtkLevelData>,
    catalog: &mut LdtkMapCatalog,
    Ghost(states): Ghost<Seq<LdtkMapCatalog>>,
    Ghost(items): Ghost<Seq<(LdtkLevelData, String, LdtkWorldLayout)>>,
) -> (out: Ghost<Seq<LdtkMapCatalog>>)
    requires
        levels_read(states, items, *config, external@),
        states.last() == *old(catalog),
    ensures
        levels_read(out@, items + tag_levels(levels@, *world, layout), *config, external@),
        out@.last() == *final(catalog),
        out@[0] == states[0],
{
    let ghost mut st = states;
    let ghost f = |l: LdtkLevelData| (l, *world, layout);
    let mut i: usize = 0;
    proof {
        assert(items + levels@.take(0).map_values(f) =~= items);
    }
    while i < levels.len()
        invariant
            i <= levels@.len(),
            levels_read(st, items + levels@.take(i as int).map_values(f), *config, external@),
            st.last() == *catalog,
            st[0] == states[0],
            f == (|l: LdtkLevelData| (l, *world, layout)),
        decreases levels@.len() - i,
    {
        let lv = level_for_catalog(&levels[i], config, external);
        let ghost before = *catalog;
        insert_level(lv, world, layout, catalog, config);
        proof {
            let item = (levels@[i as int], *world, layout);
            assert(level_read(before, *catalog, effective_level(item.0, *config, external@), item.1, *config));
            lemma_levels_read_push(
                st,
                items + levels@.take(i as int).map_values(f),
                *config,
                external@,
                *catalog,
                item,
            );
            assert(items + levels@.take(i + 1).map_values(f) =~= (items + levels@.take(
                i as int,
            ).map_values(f)).push(item));
            st = st.push(*catalog);
        }
        i = i + 1;
    }
    proof {
        assert(levels@.take(levels@.len() as int) =~= levels@);
        assert(levels@.map_values(f) =~= tag_levels(levels@, *world, layout));
    }
    Ghost(st)
}

/// Builds the catalog of project `project` loaded from `active_world_path`:
/// tilesets and tile animations, world records, every level in reading
/// order (external level files taken from `external`, by relative path),
/// then the neighbour links. A project without worlds gets the one world
/// `default_world`.
pub fn build_map_catalog(
    project: &LdtkProjectData,
    active_world_path: &String,
    default_world: &String,
    external: &KeyedMap<String, LdtkLevelData>,
    config: &LdtkConfig,
    catalog: &mut LdtkMapCatalog,
)
    ensures
        catalog_built(
            *final(catalog),
            *project,
            *active_world_path,
            *default_world,
            *config,
            external@,
        ),
{
    catalog.clear();
    catalog.tilesets = extract_tilesets(&project.tilesets);
    catalog.tile_animations = build_tile_animations(&catalog.tilesets);
    if project.worlds.len() == 0 {
        let info = world_record(
            default_world,
            active_world_path,
            &project.levels,
            LdtkWorldLayout::Free,
        );
        catalog.worlds.insert(default_world.clone(), info);
        proof {
            assert(catalog.worlds@.dom() =~= set![default_world@]);
        }
    } else {
        let n = project.worlds.len();
        let mut i: usize = 0;
        while i < n
            invariant
                n == project.worlds@.len(),
                n > 0,
                i <= n,
                forall|k: Seq<char>|
                    catalog.worlds@.contains_key(k) <==> (#[trigger] last_world_with_identifier(
                        project.worlds@.take(i as int),
                        k,
                    )) is Some,
                forall|k: Seq<char>| #[trigger]
                    catalog.worlds@.contains_key(k) ==> {
                        let w = last_world_with_identifier(project.worlds@.take(i as int), k)->0;
                        world_record_matches(
                            catalog.worlds@[k],
                            w.identifier,
                            *active_world_path,
                            w.levels@,
                            layout_of(w),
                        )
                    },
                catalog.levels@ == Map::<Seq<char>, LdtkLevelInfo>::empty(),
                catalog.levels_by_iid@ == Map::<Seq<char>, String>::empty(),
                catalog.levels_by_uid@ == Map::<i32, String>::empty(),
                catalog.layers@ == Map::<Seq<char>, LdtkLayerInfo>::empty(),
                catalog.entities_by_iid@ == Map::<Seq<char>, (String, usize)>::empty(),
                tilesets_match(catalog.tilesets@, project.tilesets@),
                animations_match(
                    catalog.tile_animations@,
                    tilesets_animations(catalog.tilesets.pairs()),
                ),
            decreases n - i,
        {
            let w = &project.worlds[i];
            let layout = match w.world_layout {
                Some(l) => l,
                None => LdtkWorldLayout::Free,
            };
            let info = world_record(&w.identifier, active_world_path, &w.levels, layout);
            let ghost prev = catalog.worlds@;
            catalog.worlds.insert(w.identifier.clone(), info);
            proof {
                let before = project.worlds@.take(i as int);
                let after = project.worlds@.take(i + 1);
                assert(after.drop_last() =~= before);
                assert(after.last() == *w);
                assert forall|k: Seq<char>|
                    catalog.worlds@.contains_key(k) <==> (#[trigger] last_world_with_identifier(
                        after,
                        k,
                    )) is Some by {
                    assert(last_world_with_identifier(after, k) == if w.identifier@ == k {
                        Some(*w)
                    } else {
                        last_world_with_identifier(before, k)
                    });
                    if k != w.identifier@ {
                        assert(prev.contains_key(k) <==> last_world_with_identifier(before, k) is Some);
                    }
                }
            }
            i = i + 1;
        }
        proof {
            assert(project.worlds@.take(n as int) =~= project.worlds@);
        }
    }
    let ghost base = *catalog;
    let ghost mut st: Seq<LdtkMapCatalog> = seq![base];
    if project.worlds.len() == 0 {
        proof {
            assert(levels_read(st, Seq::empty(), *config, external@));
        }
        let Ghost(out) = read_world_levels(
            &project.levels,
            default_world,
            LdtkWorldLayout::Free,
            config,
            external,
            catalog,
            Ghost(st),
            Ghost(Seq::empty()),
        );
        proof {
            assert(Seq::<(LdtkLevelData, String, LdtkWorldLayout)>::empty() + tag_levels(
                project.levels@,
                *default_world,
                LdtkWorldLayout::Free,
            ) =~= catalog_items(*project, *default_world));
            st = out;
        }
    } else {
        let n = project.worlds.len();
        let mut i: usize = 0;
        proof {
            assert(project.worlds@.take(0) =~= Seq::<LdtkWorldData>::empty());
            assert(levels_read(st, world_items(project.worlds@.take(0)), *config, external@));
        }
        while i < n
            invariant
                n == project.worlds@.len(),
                i <= n,
                levels_read(st, world_items(project.worlds@.take(i as int)), *config, external@),
                st.last() == *catalog,
                st[0] == base,
            decreases n - i,
        {
            let w = &project.worlds[i];
            let layout = match w.world_layout {
                Some(l) => l,
                None => LdtkWorldLayout::Free,
            };
            proof {
                assert(project.worlds@.take(i + 1).drop_last() =~= project.worlds@.take(i as int));
                assert(project.worlds@.take(i + 1).last() == *w);
                assert(layout == layout_of(*w));
            }
            let Ghost(out) = read_world_levels(
                &w.levels,
                &w.identifier,
                layout,
                config,
                external,
                catalog,
                Ghost(st),
                Ghost(world_items(project.worlds@.take(i as int))),
            );
            proof {
                st = out;
            }
            i = i + 1;
        }
        proof {
            assert(project.worlds@.take(n as int) =~= project.worlds@);
        }
    }
    compute_level_neighbors(project, catalog);
    proof {
        assert(levels_read(st, catalog_items(*project, *default_world), *config, external@));
        assert(base_catalog(st[0], *project, *default_world, *active_world_path));
    }
}

/// Rebuilds the catalog of a project loaded from `active_world_path`; a
/// project without worlds gets one world named after the file's stem.
pub fn rebuild_map_catalog(
    project: &LdtkProjectData,
    active_world_path: &String,
    external: &KeyedMap<String, LdtkLevelData>,
    config: &LdtkConfig,
    catalog: &mut LdtkMapCatalog,
)
    ensures
        exists|default_world: String|
            #[trigger] catalog_built(
                *final(catalog),
                *project,
                *active_world_path,
                default_world,
                *config,
                external@,
            ) && (project.worlds@.len() == 0 ==> world_name_for(
                default_world@,
                active_world_path@,
            )),
{
    let default_world = if project.worlds.len() == 0 {
        world_identifier_from_path(active_world_path.as_str())
    } else {
        String::new()
    };
    build_map_catalog(project, active_world_path, &default_world, external, config, catalog);
}

/// `n`, or `usize::MAX` when `n` does not fit.
pub open spec fn capped(n: nat) -> usize {
    if n > usize::MAX {
        usize::MAX
    } else {
        n as usize
    }
}

/// Number of tiles of the level records `ps`.
pub open spec fn total_tiles(ps: Seq<(String, LdtkLevelInfo)>) -> nat
    decreases ps.len(),
{
    if ps.len() == 0 {
        0
    } else {
        total_tiles(ps.drop_last()) + ps.last().1.tiles@.len()
    }
}

/// Number of entities of the level records `ps`.
pub open spec fn total_entities(ps: Seq<(String, LdtkLevelInfo)>) -> nat
    decreases ps.len(),
{
    if ps.len() == 0 {
        0
    } else {
        total_entities(ps.drop_last()) + ps.last().1.entities@.len()
    }
}

/// Number of spawn points of the level records `ps`.
pub open spec fn total_spawn_points(ps: Seq<(String, LdtkLevelInfo)>) -> nat
    decreases ps.len(),
{
    if ps.len() == 0 {
        0
    } else {
        total_spawn_points(ps.drop_last()) + ps.last().1.spawn_points@.len()
    }
}

/// The load statistics of catalog `c`, carrying over `collision_cells`
/// (counted by the collision capture, not by the catalog). Totals that do
/// not fit a `usize` stop at `usize::MAX`.
pub open spec fn catalog_stats(c: LdtkMapCatalog, collision_cells: usize) -> LdtkLoadStats {
    LdtkLoadStats {
        worlds: c.worlds@.len() as usize,
        levels: c.levels@.len() as usize,
        layers: c.layers@.len() as usize,
        tilesets: c.tilesets@.len() as usize,
        tiles: capped(total_tiles(c.levels.pairs())),
        entities: capped(total_entities(c.levels.pairs())),
        spawn_points: capped(total_spawn_points(c.levels.pairs())),
        collision_cells,
        tile_animations: c.tile_animations@.len() as usize,
    }
}

proof fn lemma_capped_add(a: nat, b: nat)
    requires
        b <= usize::MAX,
    ensures
        capped(a + b) == (if capped(a) + b > usize::MAX {
            usize::MAX
        } else {
            (capped(a) + b) as usize
        }),
{
}

/// Refreshes the catalog counters of the load statistics; the collision
/// cell count is left as it is.
pub fn update_load_stats(catalog: &LdtkMapCatalog, load_state: &mut LdtkLoadState)
    ensures
        final(load_state).stats == catalog_stats(*catalog, old(load_state).stats.collision_cells),
        final(load_state).status == old(load_state).status,
        final(load_state).world_identifier == old(load_state).world_identifier,
        final(load_state).warnings == old(load_state).warnings,
        final(load_state).errors == old(load_state).errors,
{
    let ps = Ghost(catalog.levels.pairs());
    let n = catalog.levels.len();
    let mut tiles: usize = 0;
    let mut entities: usize = 0;
    let mut spawn_points: usize = 0;
    let mut i: usize = 0;
    proof {
        assert(ps@.take(0) =~= Seq::<(String, LdtkLevelInfo)>::empty());
    }
    while i < n
        invariant
            n == ps@.len(),
            ps@ == catalog.levels.pairs(),
            i <= n,
            tiles == capped(total_tiles(ps@.take(i as int))),
            entities == capped(total_entities(ps@.take(i as int))),
            spawn_points == capped(total_spawn_points(ps@.take(i as int))),
        decreases n - i,
    {
        let level = catalog.levels.value_at(i);
        let nt = level.tiles.len();
        let ne = level.entities.len();
        let ns = level.spawn_points.len();
        proof {
            assert(ps@.take(i + 1).drop_last() =~= ps@.take(i as int));
            assert(ps@.take(i + 1).last() == ps@[i as int]);
            lemma_capped_add(total_tiles(ps@.take(i as int)), nt as nat);
            lemma_capped_add(total_entities(ps@.take(i as int)), ne as nat);
            lemma_capped_add(total_spawn_points(ps@.take(i as int)), ns as nat);
        }
        tiles = tiles.saturating_add(nt);
        entities = entities.saturating_add(ne);
        spawn_points = spawn_points.saturating_add(ns);
        i = i + 1;
    }
    proof {
        assert(ps@.take(n as int) =~= ps@);
    }
    load_state.stats = LdtkLoadStats {
        worlds: catalog.worlds.len(),
        levels: catalog.levels.len(),
        layers: catalog.layers.len(),
        tilesets: catalog.tilesets.len(),
        tiles,
        entities,
        spawn_points,
        collision_cells: load_state.stats.collision_cells,
        tile_animations: catalog.tile_animations.len(),
    };
}

/// The line a validation issue is reported as: its code, a colon and a
/// space, then its message.
pub open spec fn issue_line(i: LdtkValidationIssue) -> Seq<char> {
    i.code@ + ": "@ + i.message@
}

/// The report lines of `issues`, in order.
pub open spec fn issue_lines(issues: Seq<LdtkValidationIssue>) -> Seq<Seq<char>> {
    issues.map_values(|i: LdtkValidationIssue| issue_line(i))
}

fn format_issues(issues: &Vec<LdtkValidationIssue>) -> (lines: Vec<String>)
    ensures
        views(lines@) == issue_lines(issues@),
{
    let mut lines: Vec<String> = Vec::new();
    let mut i: usize = 0;
    while i < issues.len()
        invariant
            i <= issues@.len(),
            views(lines@) =~= issue_lines(issues@.take(i as int)),
        decreases issues@.len() - i,
    {
        let mut line = issues[i].code.clone();
        line.append(": ");
        line.append(issues[i].message.as_str());
        let ghost before = lines@;
        lines.push(line);
        proof {
            reveal_strlit(": ");
            assert(issues@.take(i + 1) =~= issues@.take(i as int).push(issues@[i as int]));
            assert(views(lines@) =~= views(before).push(issue_line(issues@[i as int])));
        }
        i = i + 1;
    }
    proof {
        assert(issues@.take(issues@.len() as int) =~= issues@);
    }
    lines
}

/// What a catalog refresh announces.
#[derive(Debug)]
pub struct LdtkRefreshOutcome {
    /// Issue counts of the validation pass, when one ran.
    pub validation_finished: Option<LdtkValidationFinishedEvent>,
    /// The world that became ready, when loading finished without errors.
    pub map_loaded: Option<LdtkMapLoadedEvent>,
}

/// The catalog has content: a world or a level.
pub open spec fn has_content(c: LdtkMapCatalog) -> bool {
    !(c.worlds@.len() == 0 && c.levels@.len() == 0)
}

/// After the catalog has been rebuilt: refreshes the load statistics; runs
/// the validation when configured and copies its issues into the load state
/// as lines; and, when a load is in progress and the catalog has content,
/// records the world identifier (the active one, else the stem of the active
/// world path) and either fails the load on validation errors or makes the
/// world active and ready.
pub fn finish_catalog_refresh<S>(
    catalog: &LdtkMapCatalog,
    registry: &LdtkEntityRegistry<S>,
    config: &LdtkConfig,
    runtime: &mut LdtkRuntimeState,
    load_state: &mut LdtkLoadState,
    validation: &mut LdtkValidationReport,
    external_files_readable: bool,
) -> (outcome: LdtkRefreshOutcome)
    ensures
        final(load_state).stats == catalog_stats(*catalog, old(load_state).stats.collision_cells),
        config.validate_on_load ==> {
            &&& report_holds(
                *final(validation),
                config.strict_validation,
                catalog_issues(*catalog, registry.spawners@, *config, external_files_readable),
            )
            &&& views(final(load_state).warnings@) == issue_lines(final(validation).warnings@)
            &&& views(final(load_state).errors@) == issue_lines(final(validation).errors@)
            &&& outcome.validation_finished == Some(
                LdtkValidationFinishedEvent {
                    warnings: final(validation).warnings@.len() as usize,
                    errors: final(validation).errors@.len() as usize,
                },
            )
        },
        !config.validate_on_load ==> {
            &&& *final(validation) == *old(validation)
            &&& final(load_state).warnings == old(load_state).warnings
            &&& final(load_state).errors == old(load_state).errors
            &&& outcome.validation_finished is None
        },
        old(runtime).transition == LdtkTransitionState::Loading && has_content(*catalog) ==> {
            &&& final(load_state).world_identifier is Some
            &&& old(runtime).active_world_identifier is Some
                ==> final(load_state).world_identifier == old(runtime).active_world_identifier
            &&& old(runtime).active_world_identifier is None ==> world_name_for(
                final(load_state).world_identifier->0@,
                match old(runtime).active_world_path {
                    Some(p) => p@,
                    None => Seq::<char>::empty(),
                },
            )
            &&& final(validation).errors@.len() > 0 ==> {
                &&& final(load_state).status == LdtkLoadStatus::Error
                &&& *final(runtime) == *old(runtime)
                &&& outcome.map_loaded is None
            }
            &&& final(validation).errors@.len() == 0 ==> {
                &&& final(load_state).status == LdtkLoadStatus::Ready
                &&& *final(runtime) == (LdtkRuntimeState {
                    transition: LdtkTransitionState::Active,
                    ..*old(runtime)
                })
                &&& outcome.map_loaded == Some(
                    LdtkMapLoadedEvent {
                        world_identifier: final(load_state).world_identifier->0,
                    },
                )
            }
        },
        !(old(runtime).transition == LdtkTransitionState::Loading && has_content(*catalog)) ==> {
            &&& final(load_state).status == old(load_state).status
            &&& final(load_state).world_identifier == old(load_state).world_identifier
            &&& *final(runtime) == *old(runtime)
            &&& outcome.map_loaded is None
        },
{
    update_load_stats(catalog, load_state);
    let mut validation_finished: Option<LdtkValidationFinishedEvent> = None;
    if config.validate_on_load {
        validate_catalog(catalog, registry, config, validation, external_files_readable);
        load_state.warnings = format_issues(&validation.warnings);
        load_state.errors = format_issues(&validation.errors);
        validation_finished = Some(
            LdtkValidationFinishedEvent {
                warnings: validation.warnings.len(),
                errors: validation.errors.len(),
            },
        );
    }
    let mut map_loaded: Option<LdtkMapLoadedEvent> = None;
    let loading = match runtime.transition {
        LdtkTransitionState::Loading => true,
        _ => false,
    };
    if loading && !catalog.is_empty() {
        let world_identifier = match &runtime.active_world_identifier {
            Some(id) => id.clone(),
            None => {
                let path = match &runtime.active_world_path {
                    Some(p) => p.clone(),
                    None => String::new(),
                };
                world_identifier_from_path(path.as_str())
            },
        };
        load_state.world_identifier = Some(world_identifier.clone());
        if validation.has_errors() {
            load_state.status = LdtkLoadStatus::Error;
        } else {
            runtime.transition = LdtkTransitionState::Active;
            load_state.status = LdtkLoadStatus::Ready;
            map_loaded = Some(LdtkMapLoadedEvent { world_identifier });
        }
    }
    LdtkRefreshOutcome { validation_finished, map_loaded }
}

/// The catalog is rebuilt when the project changed, or when it is empty.
pub fn should_rebuild_catalog(project_changed: bool, catalog: &LdtkMapCatalog) -> (b: bool)
    ensures
        b == (project_changed || !has_content(*catalog)),
{
    project_changed || catalog.is_empty()
}

proof fn lemma_levels_kept(
    states: Seq<LdtkMapCatalog>,
    items: Seq<(LdtkLevelData, String, LdtkWorldLayout)>,
    config: LdtkConfig,
    external: Map<Seq<char>, LdtkLevelData>,
    i: int,
    j: int,
)
    requires
        levels_read(states, items, config, external),
        0 <= i <= j < states.len(),
    ensures
        forall|k: Seq<char>| states[i].levels@.contains_key(k) ==> #[trigger] states[j].levels@.contains_key(k),
    decreases j - i,
{
    if i < j {
        lemma_levels_kept(states, items, config, external, i, j - 1);
        assert(level_step(states, items, config, external, j - 1));
    }
}

/// After a rebuild every level of the project is cataloged, under the
/// identifier it was read with (that of its external file's contents where
/// one was read).
pub proof fn lemma_built_catalog_has_every_level(
    c: LdtkMapCatalog,
    p: LdtkProjectData,
    path: String,
    default_world: String,
    config: LdtkConfig,
    external: Map<Seq<char>, LdtkLevelData>,
)
    requires
        catalog_built(c, p, path, default_world, config, external),
    ensures
        forall|i: int|
            0 <= i < catalog_items(p, default_world).len() ==> c.levels@.contains_key(
                #[trigger] effective_level(catalog_items(p, default_world)[i].0, config, external).identifier@,
            ),
{
    let items = catalog_items(p, default_world);
    let states = choose|states: Seq<LdtkMapCatalog>|
        #[trigger] levels_read(states, items, config, external) && base_catalog(
            states[0],
            p,
            default_world,
            path,
        ) && neighbors_linked(states.last(), c, json_levels(p));
    assert forall|i: int| 0 <= i < items.len() implies c.levels@.contains_key(
        #[trigger] effective_level(items[i].0, config, external).identifier@,
    ) by {
        assert(level_step(states, items, config, external, i));
        lemma_levels_kept(states, items, config, external, i + 1, states.len() - 1);
        assert(states.last() == states[states.len() - 1]);
    }
}

} // verus!
