//! Building the map catalog from project data: tilesets, tile animations,
//! levels, layers, tiles, spawn points, entity snapshots and neighbour links.

use vstd::prelude::*;

use crate::animation::{
    parse_tile_animation, spec_parse_tile_animation, AnimationView, LdtkTileAnimation, LdtkTileKey,
};
use crate::catalog::{
    index_entities, LdtkLayerInfo, LdtkLevelInfo, LdtkMapCatalog, LdtkNeighborCost, LdtkSpawnPoint,
    LdtkTilesetInfo, LdtkWorldLayout,
};
use crate::config::{layer_passes, LdtkConfig};
use crate::entities::{
    clone_opt_string, clone_strings, same_animation, LdtkImportedEntity, LdtkTileMetadata,
};
use crate::fields::{LdtkFieldMap, LdtkFieldValue, LdtkTilesetRect};
use crate::geometry::{ldtk_px_to_world, spec_px_to_world, IVec2, LdtkDirection, ScalarBits};
use crate::keyed_map::{entries_map, KeyedMap};
use crate::project::{
    LdtkEntityInstanceData, LdtkEnumTagData, LdtkLayerInstanceData, LdtkLevelData,
    LdtkTileInstanceData, LdtkTilesetDefinitionData,
};
use crate::text::{
    chars_of, contains_ci, contains_ignore_ascii_case, eq_ascii_ci, eq_ignore_ascii_case, str_eq,
    to_owned_string, views,
};

verus! {

/// The direction named by an LDtk neighbour code, if it is a cardinal one.
pub open spec fn spec_neighbor_direction(value: Seq<char>) -> Option<LdtkDirection> {
    if value == "n"@ || value == "N"@ || value == "north"@ {
        Some(LdtkDirection::North)
    } else if value == "s"@ || value == "S"@ || value == "south"@ {
        Some(LdtkDirection::South)
    } else if value == "e"@ || value == "E"@ || value == "east"@ {
        Some(LdtkDirection::East)
    } else if value == "w"@ || value == "W"@ || value == "west"@ {
        Some(LdtkDirection::West)
    } else {
        None
    }
}

/// Reads a cardinal direction out of an LDtk neighbour code.
pub fn parse_neighbor_direction(value: &str) -> (d: Option<LdtkDirection>)
    ensures
        d == spec_neighbor_direction(value@),
{
    proof {
        reveal_strlit("n");
        reveal_strlit("N");
        reveal_strlit("north");
        reveal_strlit("s");
        reveal_strlit("S");
        reveal_strlit("south");
        reveal_strlit("e");
        reveal_strlit("E");
        reveal_strlit("east");
        reveal_strlit("w");
        reveal_strlit("W");
        reveal_strlit("west");
    }
    if str_eq(value, "n") || str_eq(value, "N") || str_eq(value, "north") {
        Some(LdtkDirection::North)
    } else if str_eq(value, "s") || str_eq(value, "S") || str_eq(value, "south") {
        Some(LdtkDirection::South)
    } else if str_eq(value, "e") || str_eq(value, "E") || str_eq(value, "east") {
        Some(LdtkDirection::East)
    } else if str_eq(value, "w") || str_eq(value, "W") || str_eq(value, "west") {
        Some(LdtkDirection::West)
    } else {
        None
    }
}

/// Neighbour codes name directions by a fixed table: `n`, `N` and `north`
/// name North; `s`, `S` and `south` name South; `e`, `E` and `east` name
/// East; `w`, `W` and `west` name West; every other code names none.
pub proof fn lemma_neighbor_direction_table(value: Seq<char>)
    ensures
        (spec_neighbor_direction(value) == Some(LdtkDirection::North)) <==> (value == seq!['n']
            || value == seq!['N'] || value == seq!['n', 'o', 'r', 't', 'h']),
        (spec_neighbor_direction(value) == Some(LdtkDirection::South)) <==> (value == seq!['s']
            || value == seq!['S'] || value == seq!['s', 'o', 'u', 't', 'h']),
        (spec_neighbor_direction(value) == Some(LdtkDirection::East)) <==> (value == seq!['e']
            || value == seq!['E'] || value == seq!['e', 'a', 's', 't']),
        (spec_neighbor_direction(value) == Some(LdtkDirection::West)) <==> (value == seq!['w']
            || value == seq!['W'] || value == seq!['w', 'e', 's', 't']),
{
    reveal_strlit("n");
    reveal_strlit("N");
    reveal_strlit("north");
    reveal_strlit("s");
    reveal_strlit("S");
    reveal_strlit("south");
    reveal_strlit("e");
    reveal_strlit("E");
    reveal_strlit("east");
    reveal_strlit("w");
    reveal_strlit("W");
    reveal_strlit("west");
    assert("n"@ =~= seq!['n']);
    assert("N"@ =~= seq!['N']);
    assert("north"@ =~= seq!['n', 'o', 'r', 't', 'h']);
    assert("s"@ =~= seq!['s']);
    assert("S"@ =~= seq!['S']);
    assert("south"@ =~= seq!['s', 'o', 'u', 't', 'h']);
    assert("e"@ =~= seq!['e']);
    assert("E"@ =~= seq!['E']);
    assert("east"@ =~= seq!['e', 'a', 's', 't']);
    assert("w"@ =~= seq!['w']);
    assert("W"@ =~= seq!['W']);
    assert("west"@ =~= seq!['w', 'e', 's', 't']);
    if value.len() > 0 {
        let c = value[0];
        assert(value == seq!['n'] ==> c == 'n');
        assert(value == seq!['N'] ==> c == 'N');
        assert(value == seq!['n', 'o', 'r', 't', 'h'] ==> c == 'n' && value.len() == 5);
        assert(value == seq!['s'] ==> c == 's');
        assert(value == seq!['S'] ==> c == 'S');
        assert(value == seq!['s', 'o', 'u', 't', 'h'] ==> c == 's' && value.len() == 5);
        assert(value == seq!['e'] ==> c == 'e');
        assert(value == seq!['E'] ==> c == 'E');
        assert(value == seq!['e', 'a', 's', 't'] ==> c == 'e' && value.len() == 4);
        assert(value == seq!['w'] ==> c == 'w');
        assert(value == seq!['W'] ==> c == 'W');
        assert(value == seq!['w', 'e', 's', 't'] ==> c == 'w' && value.len() == 4);
    }
}

/// The text takes two bytes in UTF-8: two ASCII characters, or one
/// character from U+0080 to U+07FF.
pub open spec fn two_utf8_bytes(value: Seq<char>) -> bool {
    (value.len() == 2 && (value[0] as u32) < 0x80 && (value[1] as u32) < 0x80) || (value.len() == 1
        && 0x80 <= (value[0] as u32) && (value[0] as u32) < 0x800)
}

/// Cost class of a neighbour code: `"o"` overlap, `"<"`/`">"` depth, any
/// other two-byte code diagonal, everything else cardinal.
pub open spec fn spec_neighbor_cost(value: Seq<char>) -> LdtkNeighborCost {
    if value == "o"@ {
        LdtkNeighborCost::Overlap
    } else if value == "<"@ || value == ">"@ {
        LdtkNeighborCost::Depth
    } else if two_utf8_bytes(value) {
        LdtkNeighborCost::Diagonal
    } else {
        LdtkNeighborCost::Cardinal
    }
}

fn is_two_utf8_bytes(value: &str) -> (b: bool)
    ensures
        b == two_utf8_bytes(value@),
{
    let cs = chars_of(value);
    if cs.len() == 2 {
        (cs[0] as u32) < 0x80 && (cs[1] as u32) < 0x80
    } else if cs.len() == 1 {
        0x80 <= (cs[0] as u32) && (cs[0] as u32) < 0x800
    } else {
        false
    }
}

/// Heuristic traversal cost class of a neighbour link.
pub fn neighbor_cost(value: &str) -> (c: LdtkNeighborCost)
    ensures
        c == spec_neighbor_cost(value@),
{
    proof {
        reveal_strlit("o");
        reveal_strlit("<");
        reveal_strlit(">");
    }
    if str_eq(value, "o") {
        LdtkNeighborCost::Overlap
    } else if str_eq(value, "<") || str_eq(value, ">") {
        LdtkNeighborCost::Depth
    } else if is_two_utf8_bytes(value) {
        LdtkNeighborCost::Diagonal
    } else {
        LdtkNeighborCost::Cardinal
    }
}

/// Integer division rounding toward zero, as Rust's `/`.
pub open spec fn trunc_div(a: int, b: int) -> int {
    if a >= 0 {
        a / b
    } else {
        -((-a) / b)
    }
}

/// The tile id a tileset rectangle starts at: its column and row in the
/// tileset grid (after padding, with a stride of tile size plus spacing),
/// numbered row by row. `None` when the stride is not positive, the cell lies
/// outside the grid, or the id does not fit an `i32`.
pub open spec fn spec_tile_id(rect: LdtkTilesetRect, tileset: LdtkTilesetInfo) -> Option<i32> {
    let stride = tileset.tile_grid_size + tileset.spacing;
    if stride <= 0 {
        None
    } else {
        let column = trunc_div(rect.position.x - tileset.padding, stride);
        let row = trunc_div(rect.position.y - tileset.padding, stride);
        if column < 0 || row < 0 || column >= tileset.grid_size_cells.x || row
            >= tileset.grid_size_cells.y {
            None
        } else {
            let id = row * tileset.grid_size_cells.x + column;
            if id <= i32::MAX {
                Some(id as i32)
            } else {
                None
            }
        }
    }
}

pub(crate) fn div_toward_zero(a: i64, b: i64) -> (q: i64)
    requires
        b > 0,
        -0x1_0000_0000 <= a <= 0x1_0000_0000,
    ensures
        q == trunc_div(a as int, b as int),
{
    if a >= 0 {
        a / b
    } else {
        let n: i64 = -a;
        let q: i64 = n / b;
        -q
    }
}

/// Offset `a` lies in cell `c` of a grid whose cells are `stride` wide.
/// Rust's `/` rounds toward zero, so an offset less than one cell before
/// the grid also counts as the first cell.
pub open spec fn in_cell(a: int, c: int, stride: int) -> bool {
    (c * stride <= a && a < (c + 1) * stride) || (c == 0 && -stride < a && a < 0)
}

proof fn lemma_cell_index(a: int, c: int, stride: int)
    requires
        stride > 0,
        c >= 0,
        in_cell(a, c, stride),
    ensures
        trunc_div(a, stride) == c,
{
    if a >= 0 {
        assert(c * stride <= a && a < (c + 1) * stride);
        assert(a == c * stride + (a - c * stride)) by (nonlinear_arith);
        assert((c + 1) * stride == c * stride + stride) by (nonlinear_arith);
        vstd::arithmetic::div_mod::lemma_fundamental_div_mod_converse(a, stride, c, a - c * stride);
    } else {
        if c > 0 {
            assert(c * stride > 0) by (nonlinear_arith)
                requires
                    c > 0,
                    stride > 0,
            ;
        }
        assert(c == 0);
        vstd::arithmetic::div_mod::lemma_fundamental_div_mod_converse(-a, stride, 0, -a);
    }
}

/// Tile ids number the cells of a tileset row by row, with the column
/// count as the row stride: a rectangle whose position lies in column
/// `column` and row `row` of the grid (after padding, cells as wide as the
/// tile size plus spacing) has the id `row * columns + column`, or none when
/// that does not fit an `i32`.
pub proof fn lemma_tile_id_numbering(
    rect: LdtkTilesetRect,
    tileset: LdtkTilesetInfo,
    column: int,
    row: int,
)
    requires
        tileset.tile_grid_size + tileset.spacing > 0,
        0 <= column < tileset.grid_size_cells.x,
        0 <= row < tileset.grid_size_cells.y,
        in_cell(
            rect.position.x - tileset.padding,
            column,
            tileset.tile_grid_size + tileset.spacing,
        ),
        in_cell(rect.position.y - tileset.padding, row, tileset.tile_grid_size + tileset.spacing),
    ensures
        row * tileset.grid_size_cells.x + column <= i32::MAX ==> spec_tile_id(rect, tileset) == Some(
            (row * tileset.grid_size_cells.x + column) as i32,
        ),
        row * tileset.grid_size_cells.x + column > i32::MAX ==> spec_tile_id(rect, tileset) is None,
{
    let stride = tileset.tile_grid_size + tileset.spacing;
    lemma_cell_index(rect.position.x - tileset.padding, column, stride);
    lemma_cell_index(rect.position.y - tileset.padding, row, stride);
}

/// Different cells of a tileset grid never share a tile id: rectangles in
/// cells `(c1, r1)` and `(c2, r2)` that both get an id get the same id only
/// when the cells are the same.
pub proof fn lemma_tile_ids_distinct(
    rect1: LdtkTilesetRect,
    rect2: LdtkTilesetRect,
    tileset: LdtkTilesetInfo,
    c1: int,
    r1: int,
    c2: int,
    r2: int,
)
    requires
        tileset.tile_grid_size + tileset.spacing > 0,
        0 <= c1 < tileset.grid_size_cells.x,
        0 <= r1 < tileset.grid_size_cells.y,
        0 <= c2 < tileset.grid_size_cells.x,
        0 <= r2 < tileset.grid_size_cells.y,
        in_cell(rect1.position.x - tileset.padding, c1, tileset.tile_grid_size + tileset.spacing),
        in_cell(rect1.position.y - tileset.padding, r1, tileset.tile_grid_size + tileset.spacing),
        in_cell(rect2.position.x - tileset.padding, c2, tileset.tile_grid_size + tileset.spacing),
        in_cell(rect2.position.y - tileset.padding, r2, tileset.tile_grid_size + tileset.spacing),
        spec_tile_id(rect1, tileset) is Some,
        spec_tile_id(rect2, tileset) is Some,
        spec_tile_id(rect1, tileset) == spec_tile_id(rect2, tileset),
    ensures
        c1 == c2 && r1 == r2,
{
    lemma_tile_id_numbering(rect1, tileset, c1, r1);
    lemma_tile_id_numbering(rect2, tileset, c2, r2);
    let cols = tileset.grid_size_cells.x as int;
    let id = r1 * cols + c1;
    vstd::arithmetic::div_mod::lemma_fundamental_div_mod_converse(id, cols, r1, c1);
    vstd::arithmetic::div_mod::lemma_fundamental_div_mod_converse(id, cols, r2, c2);
}

/// A rectangle whose position lies outside the tileset grid (more than one
/// cell before it, or at or past its last column or row), or a grid whose
/// cells are not positive in size, has no tile id.
pub proof fn lemma_tile_id_outside_grid(rect: LdtkTilesetRect, tileset: LdtkTilesetInfo)
    requires
        ({
            let stride = tileset.tile_grid_size + tileset.spacing;
            let a = rect.position.x - tileset.padding;
            let b = rect.position.y - tileset.padding;
            stride <= 0 || a <= -stride || b <= -stride || a >= tileset.grid_size_cells.x * stride
                || b >= tileset.grid_size_cells.y * stride
        }),
    ensures
        spec_tile_id(rect, tileset) is None,
{
    let stride = tileset.tile_grid_size + tileset.spacing;
    if stride > 0 {
        lemma_trunc_div_outside(rect.position.x - tileset.padding, tileset.grid_size_cells.x as int, stride);
        lemma_trunc_div_outside(rect.position.y - tileset.padding, tileset.grid_size_cells.y as int, stride);
    }
}

proof fn lemma_trunc_div_outside(a: int, n: int, stride: int)
    requires
        stride > 0,
    ensures
        a <= -stride ==> trunc_div(a, stride) < 0,
        a >= n * stride ==> trunc_div(a, stride) < 0 || trunc_div(a, stride) >= n,
{
    if a <= -stride {
        vstd::arithmetic::div_mod::lemma_fundamental_div_mod(-a, stride);
        assert((-a) / stride >= 1) by (nonlinear_arith)
            requires
                -a >= stride,
                stride > 0,
                -a == stride * ((-a) / stride) + (-a) % stride,
                0 <= (-a) % stride < stride,
        ;
    }
    if a >= n * stride {
        if a >= 0 {
            vstd::arithmetic::div_mod::lemma_fundamental_div_mod(a, stride);
            assert(a / stride >= n) by (nonlinear_arith)
                requires
                    a >= n * stride,
                    stride > 0,
                    a == stride * (a / stride) + a % stride,
                    0 <= a % stride < stride,
            ;
        } else {
            vstd::arithmetic::div_mod::lemma_fundamental_div_mod(-a, stride);
            assert(n < 0 || (-a) / stride >= 1 || trunc_div(a, stride) >= n) by (nonlinear_arith)
                requires
                    a >= n * stride,
                    a < 0,
                    stride > 0,
                    -a == stride * ((-a) / stride) + (-a) % stride,
                    0 <= (-a) % stride < stride,
                    trunc_div(a, stride) == -((-a) / stride),
            ;
        }
    }
}

/// Resolves the tile id of a tileset rectangle.
pub fn tile_id_from_rect(rect: &LdtkTilesetRect, tileset: &LdtkTilesetInfo) -> (r: Option<i32>)
    ensures
        r == spec_tile_id(*rect, *tileset),
{
    let stride: i64 = tileset.tile_grid_size as i64 + tileset.spacing as i64;
    if stride <= 0 {
        return None;
    }
    let column = div_toward_zero(rect.position.x as i64 - tileset.padding as i64, stride);
    let row = div_toward_zero(rect.position.y as i64 - tileset.padding as i64, stride);
    if column < 0 || row < 0 || column >= tileset.grid_size_cells.x as i64 || row
        >= tileset.grid_size_cells.y as i64 {
        return None;
    }
    let cols: i64 = tileset.grid_size_cells.x as i64;
    proof {
        assert(0 <= row < 0x8000_0000);
        assert(0 <= cols < 0x8000_0000);
        assert(row * cols <= 0x8000_0000 * 0x8000_0000) by (nonlinear_arith)
            requires
                0 <= row < 0x8000_0000,
                0 <= cols < 0x8000_0000,
        ;
        assert(row * cols >= 0) by (nonlinear_arith)
            requires
                0 <= row,
                0 <= cols,
        ;
    }
    let id: i64 = row * cols + column;
    if id > 0x7FFF_FFFF {
        return None;
    }
    Some(id as i32)
}

/// The layer instance's own tileset, or else its definition's.
pub open spec fn layer_tileset_uid(layer: LdtkLayerInstanceData) -> Option<i32> {
    match layer.override_tileset_uid {
        Some(u) => Some(u),
        None => layer.tileset_def_uid,
    }
}

/// The catalog record of layer instance `layer` of level `level_identifier`.
pub open spec fn spec_layer_info(layer: LdtkLayerInstanceData, level_identifier: String) -> LdtkLayerInfo {
    LdtkLayerInfo {
        iid: layer.iid,
        identifier: layer.identifier,
        level_identifier,
        layer_type: layer.layer_type,
        grid_size: layer.grid_size,
        grid_size_cells: IVec2 { x: layer.c_wid, y: layer.c_hei },
        tileset_uid: layer_tileset_uid(layer),
        tileset_rel_path: layer.tileset_rel_path,
        opacity: layer.opacity,
        visible: layer.visible,
    }
}

/// The catalog record of a layer instance.
pub fn layer_info_from_layer(layer: &LdtkLayerInstanceData, level_identifier: &String) -> (info:
    LdtkLayerInfo)
    ensures
        info == spec_layer_info(*layer, *level_identifier),
{
    LdtkLayerInfo {
        iid: layer.iid.clone(),
        identifier: layer.identifier.clone(),
        level_identifier: level_identifier.clone(),
        layer_type: layer.layer_type,
        grid_size: layer.grid_size,
        grid_size_cells: IVec2::new(layer.c_wid, layer.c_hei),
        tileset_uid: match layer.override_tileset_uid {
            Some(u) => Some(u),
            None => layer.tileset_def_uid,
        },
        tileset_rel_path: clone_opt_string(&layer.tileset_rel_path),
        opacity: layer.opacity,
        visible: layer.visible,
    }
}

/// The tag lists after tagging each tile of `ids` with `value`.
pub open spec fn tag_tiles(m: Map<i32, Seq<Seq<char>>>, value: Seq<char>, ids: Seq<i32>) -> Map<
    i32,
    Seq<Seq<char>>,
>
    decreases ids.len(),
{
    if ids.len() == 0 {
        m
    } else {
        let before = tag_tiles(m, value, ids.drop_last());
        let t = ids.last();
        before.insert(
            t,
            (if before.contains_key(t) {
                before[t]
            } else {
                Seq::empty()
            }).push(value),
        )
    }
}

/// Enum values by tile id, in tag order.
pub open spec fn tag_map(tags: Seq<LdtkEnumTagData>) -> Map<i32, Seq<Seq<char>>>
    decreases tags.len(),
{
    if tags.len() == 0 {
        Map::empty()
    } else {
        tag_tiles(tag_map(tags.drop_last()), tags.last().enum_value_id@, tags.last().tile_ids@)
    }
}

/// A map of string lists, read as character sequences.
pub open spec fn tag_lists_match(m: Map<i32, Vec<String>>, expected: Map<i32, Seq<Seq<char>>>) -> bool {
    &&& m.dom() == expected.dom()
    &&& forall|t: i32| #[trigger] m.contains_key(t) ==> views(m[t]@) == expected[t]
}

/// `info` records tileset definition `def`.
pub open spec fn tileset_info_matches(info: LdtkTilesetInfo, def: LdtkTilesetDefinitionData) -> bool {
    &&& info.uid == def.uid
    &&& info.identifier == def.identifier
    &&& info.rel_path == def.rel_path
    &&& info.tile_grid_size == def.tile_grid_size
    &&& info.grid_size_cells == IVec2 { x: def.c_wid, y: def.c_hei }
    &&& info.image_size == IVec2 { x: def.px_wid, y: def.px_hei }
    &&& info.spacing == def.spacing
    &&& info.padding == def.padding
    &&& info.tags@ == def.tags@
    &&& info.custom_data@ == entries_map(def.custom_data@)
    &&& tag_lists_match(info.tile_tags@, tag_map(def.enum_tags@))
}

/// Appends `value` to the tag list of tile `t`.
fn add_tile_tag(tile_tags: &mut KeyedMap<i32, Vec<String>>, t: i32, value: &String)
    ensures
        final(tile_tags)@.dom() == old(tile_tags)@.dom().insert(t),
        forall|u: i32| #[trigger] final(tile_tags)@.contains_key(u) && u != t ==> final(tile_tags)@[u]
            == old(tile_tags)@[u],
        views(final(tile_tags)@[t]@) == (if old(tile_tags)@.contains_key(t) {
            views(old(tile_tags)@[t]@)
        } else {
            Seq::empty()
        }).push(value@),
{
    let mut list = match tile_tags.get(&t) {
        Some(v) => clone_strings(v),
        None => Vec::new(),
    };
    let ghost before = list@;
    list.push(value.clone());
    proof {
        assert(views(list@) =~= views(before).push(value@));
    }
    tile_tags.insert(t, list);
}

/// The catalog record of a tileset definition: the definition's values,
/// custom data by tile id (the last entry for an id wins) and enum tags by
/// tile id.
pub fn tileset_info_from_definition(def: &LdtkTilesetDefinitionData) -> (info: LdtkTilesetInfo)
    ensures
        tileset_info_matches(info, *def),
{
    let mut tile_tags: KeyedMap<i32, Vec<String>> = KeyedMap::new();
    let mut i: usize = 0;
    proof {
        assert(def.enum_tags@.take(0) =~= Seq::<LdtkEnumTagData>::empty());
    }
    while i < def.enum_tags.len()
        invariant
            i <= def.enum_tags@.len(),
            tag_lists_match(tile_tags@, tag_map(def.enum_tags@.take(i as int))),
        decreases def.enum_tags@.len() - i,
    {
        let tag = &def.enum_tags[i];
        let ghost base = tag_map(def.enum_tags@.take(i as int));
        proof {
            assert(def.enum_tags@.take(i + 1).drop_last() =~= def.enum_tags@.take(i as int));
            assert(tag.tile_ids@.take(0) =~= Seq::<i32>::empty());
        }
        let mut j: usize = 0;
        while j < tag.tile_ids.len()
            invariant
                j <= tag.tile_ids@.len(),
                tag_lists_match(
                    tile_tags@,
                    tag_tiles(base, tag.enum_value_id@, tag.tile_ids@.take(j as int)),
                ),
            decreases tag.tile_ids@.len() - j,
        {
            let t = tag.tile_ids[j];
            let ghost prev = tag_tiles(base, tag.enum_value_id@, tag.tile_ids@.take(j as int));
            proof {
                assert(tag.tile_ids@.take(j + 1).drop_last() =~= tag.tile_ids@.take(j as int));
            }
            add_tile_tag(&mut tile_tags, t, &tag.enum_value_id);
            proof {
                let next = tag_tiles(base, tag.enum_value_id@, tag.tile_ids@.take(j + 1));
                assert(tile_tags@.dom() =~= next.dom());
            }
            j = j + 1;
        }
        proof {
            assert(tag.tile_ids@.take(tag.tile_ids@.len() as int) =~= tag.tile_ids@);
        }
        i = i + 1;
    }
    proof {
        assert(def.enum_tags@.take(def.enum_tags@.len() as int) =~= def.enum_tags@);
    }
    let mut custom_data: KeyedMap<i32, String> = KeyedMap::new();
    let mut k: usize = 0;
    proof {
        assert(def.custom_data@.take(0) =~= Seq::<(i32, String)>::empty());
    }
    while k < def.custom_data.len()
        invariant
            k <= def.custom_data@.len(),
            custom_data@ == entries_map(def.custom_data@.take(k as int)),
        decreases def.custom_data@.len() - k,
    {
        proof {
            assert(def.custom_data@.take(k + 1).drop_last() =~= def.custom_data@.take(k as int));
        }
        custom_data.insert(def.custom_data[k].0, def.custom_data[k].1.clone());
        k = k + 1;
    }
    proof {
        assert(def.custom_data@.take(def.custom_data@.len() as int) =~= def.custom_data@);
    }
    LdtkTilesetInfo {
        uid: def.uid,
        identifier: def.identifier.clone(),
        rel_path: clone_opt_string(&def.rel_path),
        tile_grid_size: def.tile_grid_size,
        grid_size_cells: IVec2::new(def.c_wid, def.c_hei),
        image_size: IVec2::new(def.px_wid, def.px_hei),
        spacing: def.spacing,
        padding: def.padding,
        tags: clone_strings(&def.tags),
        tile_tags,
        custom_data,
    }
}

/// Tileset definitions keyed by UID (the last definition with a UID wins).
pub open spec fn defs_by_uid(defs: Seq<LdtkTilesetDefinitionData>) -> Map<
    i32,
    LdtkTilesetDefinitionData,
> {
    entries_map(defs.map_values(|d: LdtkTilesetDefinitionData| (d.uid, d)))
}

/// `m` records each tileset definition by its UID.
pub open spec fn tilesets_match(m: Map<i32, LdtkTilesetInfo>, defs: Seq<LdtkTilesetDefinitionData>) -> bool {
    &&& m.dom() == defs_by_uid(defs).dom()
    &&& forall|uid: i32| #[trigger] m.contains_key(uid) ==> tileset_info_matches(
        m[uid],
        defs_by_uid(defs)[uid],
    )
}

/// The catalog records of all tileset definitions, by UID.
pub fn extract_tilesets(defs: &Vec<LdtkTilesetDefinitionData>) -> (m: KeyedMap<i32, LdtkTilesetInfo>)
    ensures
        tilesets_match(m@, defs@),
{
    let mut m: KeyedMap<i32, LdtkTilesetInfo> = KeyedMap::new();
    let mut i: usize = 0;
    proof {
        assert(defs@.take(0).map_values(|d: LdtkTilesetDefinitionData| (d.uid, d)) =~= Seq::<
            (i32, LdtkTilesetDefinitionData),
        >::empty());
        assert(m@.dom() =~= defs_by_uid(defs@.take(0)).dom());
    }
    while i < defs.len()
        invariant
            i <= defs@.len(),
            tilesets_match(m@, defs@.take(i as int)),
        decreases defs@.len() - i,
    {
        let def = &defs[i];
        let info = tileset_info_from_definition(def);
        let ghost prev = m@;
        m.insert(def.uid, info);
        proof {
            let f = |d: LdtkTilesetDefinitionData| (d.uid, d);
            assert(defs@.take(i + 1).map_values(f).drop_last() =~= defs@.take(i as int).map_values(
                f,
            ));
            assert(defs@.take(i + 1).map_values(f).last() == (def.uid, *def));
            assert(defs_by_uid(defs@.take(i + 1)) == defs_by_uid(defs@.take(i as int)).insert(
                def.uid,
                *def,
            ));
            assert(m@.dom() =~= defs_by_uid(defs@.take(i + 1)).dom());
        }
        i = i + 1;
    }
    proof {
        assert(defs@.take(defs@.len() as int) =~= defs@);
    }
    m
}

/// Animations declared in custom data entries `data` of tileset `uid`,
/// added to `m` in order.
pub open spec fn data_animations(
    m: Map<LdtkTileKey, AnimationView>,
    uid: i32,
    data: Seq<(i32, String)>,
) -> Map<LdtkTileKey, AnimationView>
    decreases data.len(),
{
    if data.len() == 0 {
        m
    } else {
        let before = data_animations(m, uid, data.drop_last());
        let (tile_id, text) = data.last();
        match spec_parse_tile_animation(text@) {
            Some(a) => before.insert(LdtkTileKey { tileset_uid: Some(uid), tile_id }, a),
            None => before,
        }
    }
}

/// Animations declared in the custom data of all tilesets, in catalog order.
pub open spec fn tilesets_animations(tilesets: Seq<(i32, LdtkTilesetInfo)>) -> Map<
    LdtkTileKey,
    AnimationView,
>
    decreases tilesets.len(),
{
    if tilesets.len() == 0 {
        Map::empty()
    } else {
        let t = tilesets.last().1;
        data_animations(tilesets_animations(tilesets.drop_last()), t.uid, t.custom_data.pairs())
    }
}

/// `m` holds exactly the animations of `expected`.
pub open spec fn animations_match(
    m: Map<LdtkTileKey, LdtkTileAnimation>,
    expected: Map<LdtkTileKey, AnimationView>,
) -> bool {
    &&& m.dom() == expected.dom()
    &&& forall|k: LdtkTileKey| #[trigger] m.contains_key(k) ==> m[k].view_of() == expected[k]
}

/// Reads the tile animations declared in the custom data of every tileset.
pub fn build_tile_animations(tilesets: &KeyedMap<i32, LdtkTilesetInfo>) -> (m: KeyedMap<
    LdtkTileKey,
    LdtkTileAnimation,
>)
    ensures
        animations_match(m@, tilesets_animations(tilesets.pairs())),
{
    let mut m: KeyedMap<LdtkTileKey, LdtkTileAnimation> = KeyedMap::new();
    let n = tilesets.len();
    let mut i: usize = 0;
    proof {
        assert(tilesets.pairs().take(0) =~= Seq::<(i32, LdtkTilesetInfo)>::empty());
        assert(m@.dom() =~= Map::<LdtkTileKey, AnimationView>::empty().dom());
    }
    while i < n
        invariant
            n == tilesets.pairs().len(),
            i <= n,
            animations_match(m@, tilesets_animations(tilesets.pairs().take(i as int))),
        decreases n - i,
    {
        let tileset = tilesets.value_at(i);
        let ghost base = tilesets_animations(tilesets.pairs().take(i as int));
        proof {
            assert(tilesets.pairs().take(i + 1).drop_last() =~= tilesets.pairs().take(i as int));
            assert(tilesets.pairs().take(i + 1).last().1 == *tileset);
        }
        let d = tileset.custom_data.len();
        let mut j: usize = 0;
        proof {
            assert(tileset.custom_data.pairs().take(0) =~= Seq::<(i32, String)>::empty());
        }
        while j < d
            invariant
                d == tileset.custom_data.pairs().len(),
                j <= d,
                animations_match(
                    m@,
                    data_animations(base, tileset.uid, tileset.custom_data.pairs().take(j as int)),
                ),
            decreases d - j,
        {
            let tile_id = *tileset.custom_data.key_at(j);
            let text = tileset.custom_data.value_at(j);
            let ghost prev = data_animations(
                base,
                tileset.uid,
                tileset.custom_data.pairs().take(j as int),
            );
            proof {
                assert(tileset.custom_data.pairs().take(j + 1).drop_last()
                    =~= tileset.custom_data.pairs().take(j as int));
                assert(tileset.custom_data.pairs().take(j + 1).last() == (tile_id, *text));
            }
            if let Some(animation) = parse_tile_animation(text.as_str()) {
                let key = LdtkTileKey { tileset_uid: Some(tileset.uid), tile_id };
                m.insert(key, animation);
                proof {
                    let next = data_animations(
                        base,
                        tileset.uid,
                        tileset.custom_data.pairs().take(j + 1),
                    );
                    assert(m@.dom() =~= next.dom());
                }
            }
            j = j + 1;
        }
        proof {
            assert(tileset.custom_data.pairs().take(d as int) =~= tileset.custom_data.pairs());
        }
        i = i + 1;
    }
    proof {
        assert(tilesets.pairs().take(n as int) =~= tilesets.pairs());
    }
    m
}

/// The entity is a spawn point: its identifier contains `spawn` or one of its
/// tags is `spawn`, ignoring ASCII case.
pub open spec fn is_spawn_entity(e: LdtkEntityInstanceData) -> bool {
    contains_ci(e.identifier@, "spawn"@) || exists|i: int|
        0 <= i < e.tags@.len() && eq_ascii_ci((#[trigger] e.tags@[i])@, "spawn"@)
}

/// The spawn entities among `entities`, in order.
pub open spec fn spawn_entities(entities: Seq<LdtkEntityInstanceData>) -> Seq<
    LdtkEntityInstanceData,
>
    decreases entities.len(),
{
    if entities.len() == 0 {
        Seq::empty()
    } else if is_spawn_entity(entities.last()) {
        spawn_entities(entities.drop_last()).push(entities.last())
    } else {
        spawn_entities(entities.drop_last())
    }
}

/// The level's world position.
pub open spec fn level_world(level: LdtkLevelData) -> IVec2 {
    IVec2 { x: level.world_x, y: level.world_y }
}

/// `p` is the spawn point of entity `e` on `layer` of `level`.
pub open spec fn spawn_point_matches(
    p: LdtkSpawnPoint,
    level: LdtkLevelData,
    layer: LdtkLayerInstanceData,
    e: LdtkEntityInstanceData,
) -> bool {
    &&& p.identifier == e.identifier
    &&& p.position == spec_px_to_world(e.px, level_world(level))
    &&& p.level_identifier == level.identifier
    &&& p.layer_identifier == layer.identifier
    &&& p.tags@ == e.tags@
}

fn is_spawn_entity_exec(e: &LdtkEntityInstanceData) -> (b: bool)
    ensures
        b == is_spawn_entity(*e),
{
    proof {
        reveal_strlit("spawn");
    }
    if contains_ignore_ascii_case(e.identifier.as_str(), "spawn") {
        return true;
    }
    let mut i: usize = 0;
    while i < e.tags.len()
        invariant
            i <= e.tags@.len(),
            forall|j: int| 0 <= j < i ==> !eq_ascii_ci((#[trigger] e.tags@[j])@, "spawn"@),
        decreases e.tags@.len() - i,
    {
        if eq_ignore_ascii_case(e.tags[i].as_str(), "spawn") {
            return true;
        }
        i = i + 1;
    }
    false
}

/// Spawn points of an entity layer: every entity whose identifier contains
/// `spawn` or that carries a `spawn` tag (ASCII case ignored), placed in world
/// space, with its tags copied.
pub fn extract_spawn_points(level: &LdtkLevelData, layer: &LdtkLayerInstanceData) -> (r: Vec<
    LdtkSpawnPoint,
>)
    ensures
        r@.len() == spawn_entities(layer.entity_instances@).len(),
        forall|i: int|
            0 <= i < r@.len() ==> spawn_point_matches(
                #[trigger] r@[i],
                *level,
                *layer,
                spawn_entities(layer.entity_instances@)[i],
            ),
{
    let mut r: Vec<LdtkSpawnPoint> = Vec::new();
    let ents = &layer.entity_instances;
    let mut i: usize = 0;
    while i < ents.len()
        invariant
            ents@ == layer.entity_instances@,
            i <= ents@.len(),
            r@.len() == spawn_entities(ents@.take(i as int)).len(),
            forall|k: int|
                0 <= k < r@.len() ==> spawn_point_matches(
                    #[trigger] r@[k],
                    *level,
                    *layer,
                    spawn_entities(ents@.take(i as int))[k],
                ),
        decreases ents@.len() - i,
    {
        let e = &ents[i];
        proof {
            assert(ents@.take(i + 1).drop_last() =~= ents@.take(i as int));
            assert(ents@.take(i + 1).last() == *e);
        }
        if is_spawn_entity_exec(e) {
            let p = LdtkSpawnPoint {
                identifier: e.identifier.clone(),
                position: ldtk_px_to_world(e.px, IVec2::new(level.world_x, level.world_y)),
                level_identifier: level.identifier.clone(),
                layer_identifier: layer.identifier.clone(),
                tags: clone_strings(&e.tags),
            };
            r.push(p);
        }
        i = i + 1;
    }
    proof {
        assert(ents@.take(ents@.len() as int) =~= ents@);
    }
    r
}

/// The tileset of a layer: the tileset's identifier when it is known, else
/// the layer's tileset path, else the layer's own identifier.
pub open spec fn layer_tileset_identifier(
    layer: LdtkLayerInstanceData,
    tilesets: Map<i32, LdtkTilesetInfo>,
) -> String {
    match layer_tileset_uid(layer) {
        Some(u) if tilesets.contains_key(u) => tilesets[u].identifier,
        _ => match layer.tileset_rel_path {
            Some(p) => p,
            None => layer.identifier,
        },
    }
}

/// Custom data of tile `t` in tileset `uid`, if any.
pub open spec fn tile_custom_data(
    tilesets: Map<i32, LdtkTilesetInfo>,
    uid: Option<i32>,
    t: i32,
) -> Option<String> {
    match uid {
        Some(u) => if tilesets.contains_key(u) && tilesets[u].custom_data@.contains_key(t) {
            Some(tilesets[u].custom_data@[t])
        } else {
            None
        },
        None => None,
    }
}

/// Enum tags of tile `t` in tileset `uid` (empty when none).
pub open spec fn tile_tags_of(tilesets: Map<i32, LdtkTilesetInfo>, uid: Option<i32>, t: i32) -> Seq<
    String,
> {
    match uid {
        Some(u) => if tilesets.contains_key(u) && tilesets[u].tile_tags@.contains_key(t) {
            tilesets[u].tile_tags@[t]@
        } else {
            Seq::empty()
        },
        None => Seq::empty(),
    }
}

/// `m` carries the animation of tile `key`, if one is declared.
pub open spec fn animation_of(
    m: Option<LdtkTileAnimation>,
    animations: Map<LdtkTileKey, LdtkTileAnimation>,
    key: LdtkTileKey,
) -> bool {
    if animations.contains_key(key) {
        m is Some && same_animation(m->0, animations[key])
    } else {
        m is None
    }
}

/// `tm` describes tile instance `tile` of `layer` in `level`.
pub open spec fn tile_matches(
    tm: LdtkTileMetadata,
    level: LdtkLevelData,
    layer: LdtkLayerInstanceData,
    tile: LdtkTileInstanceData,
    tilesets: Map<i32, LdtkTilesetInfo>,
    animations: Map<LdtkTileKey, LdtkTileAnimation>,
) -> bool {
    let uid = layer_tileset_uid(layer);
    &&& tm.level_identifier == level.identifier
    &&& tm.layer_identifier == layer.identifier
    &&& tm.layer_iid == layer.iid
    &&& tm.tileset_uid == uid
    &&& tm.tileset_identifier == layer_tileset_identifier(layer, tilesets)
    &&& tm.tile_id == tile.t
    &&& tm.layer_position == tile.px
    &&& tm.source_position == tile.src
    &&& tm.flip_x == (tile.f & 1 != 0)
    &&& tm.flip_y == (tile.f & 2 != 0)
    &&& tm.alpha == tile.a
    &&& tm.custom_data == tile_custom_data(tilesets, uid, tile.t)
    &&& tm.tags@ == tile_tags_of(tilesets, uid, tile.t)
    &&& animation_of(tm.animation, animations, LdtkTileKey { tileset_uid: uid, tile_id: tile.t })
}

fn custom_data_for(tilesets: &KeyedMap<i32, LdtkTilesetInfo>, uid: Option<i32>, t: i32) -> (r:
    Option<String>)
    ensures
        r == tile_custom_data(tilesets@, uid, t),
{
    match uid {
        Some(u) => match tilesets.get(&u) {
            Some(ts) => match ts.custom_data.get(&t) {
                Some(d) => Some(d.clone()),
                None => None,
            },
            None => None,
        },
        None => None,
    }
}

fn tags_for(tilesets: &KeyedMap<i32, LdtkTilesetInfo>, uid: Option<i32>, t: i32) -> (r: Vec<
    String,
>)
    ensures
        r@ == tile_tags_of(tilesets@, uid, t),
{
    match uid {
        Some(u) => match tilesets.get(&u) {
            Some(ts) => match ts.tile_tags.get(&t) {
                Some(tags) => clone_strings(tags),
                None => Vec::new(),
            },
            None => Vec::new(),
        },
        None => Vec::new(),
    }
}

fn animation_for(animations: &KeyedMap<LdtkTileKey, LdtkTileAnimation>, key: LdtkTileKey) -> (r:
    Option<LdtkTileAnimation>)
    ensures
        animation_of(r, animations@, key),
{
    match animations.get(&key) {
        Some(a) => Some(a.clone()),
        None => None,
    }
}

/// The tileset identifier recorded on the tiles of a layer.
fn tileset_identifier_for(layer: &LdtkLayerInstanceData, tilesets: &KeyedMap<i32, LdtkTilesetInfo>)
    -> (r: String)
    ensures
        r == layer_tileset_identifier(*layer, tilesets@),
{
    let uid = match layer.override_tileset_uid {
        Some(u) => Some(u),
        None => layer.tileset_def_uid,
    };
    if let Some(u) = uid {
        if let Some(ts) = tilesets.get(&u) {
            return ts.identifier.clone();
        }
    }
    match &layer.tileset_rel_path {
        Some(p) => p.clone(),
        None => layer.identifier.clone(),
    }
}

/// Metadata of one tile instance of a layer.
pub fn tile_metadata_from_instance(
    level: &LdtkLevelData,
    layer: &LdtkLayerInstanceData,
    tile: &LdtkTileInstanceData,
    tilesets: &KeyedMap<i32, LdtkTilesetInfo>,
    animations: &KeyedMap<LdtkTileKey, LdtkTileAnimation>,
) -> (tm: LdtkTileMetadata)
    ensures
        tile_matches(tm, *level, *layer, *tile, tilesets@, animations@),
{
    let uid = match layer.override_tileset_uid {
        Some(u) => Some(u),
        None => layer.tileset_def_uid,
    };
    let key = LdtkTileKey { tileset_uid: uid, tile_id: tile.t };
    LdtkTileMetadata {
        level_identifier: level.identifier.clone(),
        layer_identifier: layer.identifier.clone(),
        layer_iid: layer.iid.clone(),
        tileset_uid: uid,
        tileset_identifier: tileset_identifier_for(layer, tilesets),
        tile_id: tile.t,
        layer_position: tile.px,
        source_position: tile.src,
        flip_x: tile.f & 1 != 0,
        flip_y: tile.f & 2 != 0,
        alpha: tile.a,
        custom_data: custom_data_for(tilesets, uid, tile.t),
        tags: tags_for(tilesets, uid, tile.t),
        animation: animation_for(animations, key),
    }
}

/// The tiles of a layer: its manually placed tiles, then its rule-placed ones.
pub open spec fn layer_tiles(layer: LdtkLayerInstanceData) -> Seq<LdtkTileInstanceData> {
    layer.grid_tiles@ + layer.auto_layer_tiles@
}

/// Tile metadata of every tile of a layer, manual tiles first.
pub fn extract_tile_metadata(
    level: &LdtkLevelData,
    layer: &LdtkLayerInstanceData,
    tilesets: &KeyedMap<i32, LdtkTilesetInfo>,
    animations: &KeyedMap<LdtkTileKey, LdtkTileAnimation>,
) -> (r: Vec<LdtkTileMetadata>)
    ensures
        r@.len() == layer_tiles(*layer).len(),
        forall|i: int|
            0 <= i < r@.len() ==> tile_matches(
                #[trigger] r@[i],
                *level,
                *layer,
                layer_tiles(*layer)[i],
                tilesets@,
                animations@,
            ),
{
    let mut r: Vec<LdtkTileMetadata> = Vec::new();
    let g = layer.grid_tiles.len();
    let mut i: usize = 0;
    while i < g
        invariant
            g == layer.grid_tiles@.len(),
            i <= g,
            r@.len() == i,
            forall|k: int|
                0 <= k < i ==> tile_matches(
                    #[trigger] r@[k],
                    *level,
                    *layer,
                    layer_tiles(*layer)[k],
                    tilesets@,
                    animations@,
                ),
        decreases g - i,
    {
        let tm = tile_metadata_from_instance(level, layer, &layer.grid_tiles[i], tilesets, animations);
        proof {
            assert(layer_tiles(*layer)[i as int] == layer.grid_tiles@[i as int]);
        }
        r.push(tm);
        i = i + 1;
    }
    let a = layer.auto_layer_tiles.len();
    let mut j: usize = 0;
    while j < a
        invariant
            g == layer.grid_tiles@.len(),
            a == layer.auto_layer_tiles@.len(),
            j <= a,
            r@.len() == g + j,
            forall|k: int|
                0 <= k < g + j ==> tile_matches(
                    #[trigger] r@[k],
                    *level,
                    *layer,
                    layer_tiles(*layer)[k],
                    tilesets@,
                    animations@,
                ),
        decreases a - j,
    {
        let tm = tile_metadata_from_instance(
            level,
            layer,
            &layer.auto_layer_tiles[j],
            tilesets,
            animations,
        );
        proof {
            assert(layer_tiles(*layer)[g + j] == layer.auto_layer_tiles@[j as int]);
        }
        r.push(tm);
        j = j + 1;
    }
    r
}

/// `m` holds the field values listed in `fields` (the last entry for an
/// identifier wins).
pub open spec fn fields_match(m: LdtkFieldMap, fields: Seq<(String, LdtkFieldValue)>) -> bool {
    &&& m@.dom() == entries_map(fields).dom()
    &&& forall|k: Seq<char>| #[trigger] m@.contains_key(k) ==> m@[k].same_as(entries_map(fields)[k])
}

/// Field values by identifier; the last entry for an identifier wins.
pub fn fields_from(fields: &Vec<(String, LdtkFieldValue)>) -> (m: LdtkFieldMap)
    ensures
        fields_match(m, fields@),
{
    let mut m: LdtkFieldMap = KeyedMap::new();
    let mut i: usize = 0;
    proof {
        assert(fields@.take(0) =~= Seq::<(String, LdtkFieldValue)>::empty());
        assert(m@.dom() =~= entries_map(fields@.take(0)).dom());
    }
    while i < fields.len()
        invariant
            i <= fields@.len(),
            fields_match(m, fields@.take(i as int)),
        decreases fields@.len() - i,
    {
        proof {
            assert(fields@.take(i + 1).drop_last() =~= fields@.take(i as int));
        }
        m.insert(fields[i].0.clone(), fields[i].1.clone());
        proof {
            assert(m@.dom() =~= entries_map(fields@.take(i + 1)).dom());
        }
        i = i + 1;
    }
    proof {
        assert(fields@.take(fields@.len() as int) =~= fields@);
    }
    m
}

/// The tile id an entity's tile rectangle stands for: resolved in its
/// tileset when known, else 0.
pub open spec fn entity_tile_id(rect: LdtkTilesetRect, tilesets: Map<i32, LdtkTilesetInfo>) -> i32 {
    if tilesets.contains_key(rect.tileset_uid) && spec_tile_id(rect, tilesets[rect.tileset_uid]) is Some {
        spec_tile_id(rect, tilesets[rect.tileset_uid])->0
    } else {
        0
    }
}

/// Bit pattern of `1.0` in single precision.
pub open spec fn full_opacity() -> ScalarBits {
    ScalarBits { bits: 0x3F80_0000 }
}

/// `tm` is the tile of entity `e` (drawn from `rect`) on `layer` of `level`.
pub open spec fn entity_tile_matches(
    tm: LdtkTileMetadata,
    level: LdtkLevelData,
    layer: LdtkLayerInstanceData,
    e: LdtkEntityInstanceData,
    rect: LdtkTilesetRect,
    tilesets: Map<i32, LdtkTilesetInfo>,
    animations: Map<LdtkTileKey, LdtkTileAnimation>,
) -> bool {
    let uid = Some(rect.tileset_uid);
    let tile_id = entity_tile_id(rect, tilesets);
    &&& tm.level_identifier == level.identifier
    &&& tm.layer_identifier == layer.identifier
    &&& tm.layer_iid == layer.iid
    &&& tm.tileset_uid == uid
    &&& tm.tileset_identifier@ == (if tilesets.contains_key(rect.tileset_uid) {
        tilesets[rect.tileset_uid].identifier@
    } else {
        Seq::empty()
    })
    &&& tm.tile_id == tile_id
    &&& tm.layer_position == e.px
    &&& tm.source_position == rect.position
    &&& !tm.flip_x
    &&& !tm.flip_y
    &&& tm.alpha == full_opacity()
    &&& tm.custom_data == tile_custom_data(tilesets, uid, tile_id)
    &&& tm.tags@ == tile_tags_of(tilesets, uid, tile_id)
    &&& animation_of(tm.animation, animations, LdtkTileKey { tileset_uid: uid, tile_id })
}

/// `snap` is the snapshot of entity `e` on `layer` of `level` in world
/// `world_identifier`.
pub open spec fn entity_matches(
    snap: LdtkImportedEntity,
    level: LdtkLevelData,
    layer: LdtkLayerInstanceData,
    world_identifier: String,
    e: LdtkEntityInstanceData,
    tilesets: Map<i32, LdtkTilesetInfo>,
    animations: Map<LdtkTileKey, LdtkTileAnimation>,
) -> bool {
    &&& snap.entity_iid == e.iid
    &&& snap.entity_identifier == e.identifier
    &&& snap.world_identifier == Some(world_identifier)
    &&& snap.level_identifier == Some(level.identifier)
    &&& snap.layer_identifier == Some(layer.identifier)
    &&& snap.position == spec_px_to_world(e.px, level_world(level))
    &&& snap.grid_position == e.grid
    &&& snap.size == IVec2 { x: e.width, y: e.height }
    &&& snap.pivot == e.pivot
    &&& snap.tags@ == e.tags@
    &&& match e.tile {
        Some(rect) => snap.tile is Some && entity_tile_matches(
            snap.tile->0,
            level,
            layer,
            e,
            rect,
            tilesets,
            animations,
        ),
        None => snap.tile is None,
    }
    &&& fields_match(snap.field_values, e.field_instances@)
}

fn entity_tile(
    level: &LdtkLevelData,
    layer: &LdtkLayerInstanceData,
    e: &LdtkEntityInstanceData,
    rect: &LdtkTilesetRect,
    tilesets: &KeyedMap<i32, LdtkTilesetInfo>,
    animations: &KeyedMap<LdtkTileKey, LdtkTileAnimation>,
) -> (tm: LdtkTileMetadata)
    ensures
        entity_tile_matches(tm, *level, *layer, *e, *rect, tilesets@, animations@),
{
    let uid = Some(rect.tileset_uid);
    let tileset = tilesets.get(&rect.tileset_uid);
    let tile_id = match tileset {
        Some(ts) => match tile_id_from_rect(rect, ts) {
            Some(id) => id,
            None => 0,
        },
        None => 0,
    };
    let identifier = match tileset {
        Some(ts) => ts.identifier.clone(),
        None => String::new(),
    };
    let key = LdtkTileKey { tileset_uid: uid, tile_id };
    LdtkTileMetadata {
        level_identifier: level.identifier.clone(),
        layer_identifier: layer.identifier.clone(),
        layer_iid: layer.iid.clone(),
        tileset_uid: uid,
        tileset_identifier: identifier,
        tile_id,
        layer_position: e.px,
        source_position: rect.position,
        flip_x: false,
        flip_y: false,
        alpha: ScalarBits { bits: 0x3F80_0000 },
        custom_data: custom_data_for(tilesets, uid, tile_id),
        tags: tags_for(tilesets, uid, tile_id),
        animation: animation_for(animations, key),
    }
}

/// Snapshot of one entity instance.
pub fn entity_snapshot(
    level: &LdtkLevelData,
    layer: &LdtkLayerInstanceData,
    world_identifier: &String,
    e: &LdtkEntityInstanceData,
    tilesets: &KeyedMap<i32, LdtkTilesetInfo>,
    animations: &KeyedMap<LdtkTileKey, LdtkTileAnimation>,
) -> (snap: LdtkImportedEntity)
    ensures
        entity_matches(snap, *level, *layer, *world_identifier, *e, tilesets@, animations@),
{
    let tile = match &e.tile {
        Some(rect) => Some(entity_tile(level, layer, e, rect, tilesets, animations)),
        None => None,
    };
    LdtkImportedEntity {
        entity_iid: e.iid.clone(),
        entity_identifier: e.identifier.clone(),
        world_identifier: Some(world_identifier.clone()),
        level_identifier: Some(level.identifier.clone()),
        layer_identifier: Some(layer.identifier.clone()),
        position: ldtk_px_to_world(e.px, IVec2::new(level.world_x, level.world_y)),
        grid_position: e.grid,
        size: IVec2::new(e.width, e.height),
        pivot: e.pivot,
        tags: clone_strings(&e.tags),
        tile,
        field_values: fields_from(&e.field_instances),
    }
}

/// Snapshots of every entity of a layer.
pub fn extract_entity_snapshots(
    level: &LdtkLevelData,
    layer: &LdtkLayerInstanceData,
    world_identifier: &String,
    tilesets: &KeyedMap<i32, LdtkTilesetInfo>,
    animations: &KeyedMap<LdtkTileKey, LdtkTileAnimation>,
) -> (r: Vec<LdtkImportedEntity>)
    ensures
        r@.len() == layer.entity_instances@.len(),
        forall|i: int|
            0 <= i < r@.len() ==> entity_matches(
                #[trigger] r@[i],
                *level,
                *layer,
                *world_identifier,
                layer.entity_instances@[i],
                tilesets@,
                animations@,
            ),
{
    let mut r: Vec<LdtkImportedEntity> = Vec::new();
    let n = layer.entity_instances.len();
    let mut i: usize = 0;
    while i < n
        invariant
            n == layer.entity_instances@.len(),
            i <= n,
            r@.len() == i,
            forall|k: int|
                0 <= k < i ==> entity_matches(
                    #[trigger] r@[k],
                    *level,
                    *layer,
                    *world_identifier,
                    layer.entity_instances@[k],
                    tilesets@,
                    animations@,
                ),
        decreases n - i,
    {
        let snap = entity_snapshot(
            level,
            layer,
            world_identifier,
            &layer.entity_instances[i],
            tilesets,
            animations,
        );
        r.push(snap);
        i = i + 1;
    }
    r
}

/// `info` is the catalog record of `level` in world `world_identifier`
/// before its layers are read: no neighbours, spawn points, tiles or
/// entities yet.
pub open spec fn level_header_matches(info: LdtkLevelInfo, level: LdtkLevelData, world_identifier: String) -> bool {
    &&& info.iid == level.iid
    &&& info.uid == level.uid
    &&& info.identifier == level.identifier
    &&& info.world_identifier == world_identifier
    &&& info.external_path == level.external_rel_path
    &&& info.size == IVec2 { x: level.px_wid, y: level.px_hei }
    &&& info.world_position == level_world(level)
    &&& fields_match(info.fields, level.field_instances@)
}

/// The catalog record of a level, before its layers are read.
pub fn level_info_from_level(level: &LdtkLevelData, world_identifier: &String) -> (info: LdtkLevelInfo)
    ensures
        level_header_matches(info, *level, *world_identifier),
        info.neighbors@.len() == 0,
        info.spawn_points@.len() == 0,
        info.tiles@.len() == 0,
        info.entities@.len() == 0,
{
    LdtkLevelInfo {
        iid: level.iid.clone(),
        uid: level.uid,
        identifier: level.identifier.clone(),
        world_identifier: world_identifier.clone(),
        external_path: clone_opt_string(&level.external_rel_path),
        size: IVec2::new(level.px_wid, level.px_hei),
        world_position: IVec2::new(level.world_x, level.world_y),
        neighbors: Vec::new(),
        spawn_points: Vec::new(),
        tiles: Vec::new(),
        entities: Vec::new(),
        fields: fields_from(&level.field_instances),
    }
}

/// The layers of `layers` that pass the configured layer filter, in order.
pub open spec fn included_layers(layers: Seq<LdtkLayerInstanceData>, config: LdtkConfig) -> Seq<
    LdtkLayerInstanceData,
>
    decreases layers.len(),
{
    if layers.len() == 0 {
        Seq::empty()
    } else if layer_passes(config, layers.last().identifier@) {
        included_layers(layers.drop_last(), config).push(layers.last())
    } else {
        included_layers(layers.drop_last(), config)
    }
}

/// The layers of a level that are read into the catalog.
pub open spec fn level_layers(level: LdtkLevelData, config: LdtkConfig) -> Seq<LdtkLayerInstanceData> {
    match level.layer_instances {
        Some(v) => included_layers(v@, config),
        None => Seq::empty(),
    }
}

/// Spawn entities of `layers`, each with its layer, in order.
pub open spec fn spawn_sources(layers: Seq<LdtkLayerInstanceData>) -> Seq<
    (LdtkLayerInstanceData, LdtkEntityInstanceData),
>
    decreases layers.len(),
{
    if layers.len() == 0 {
        Seq::empty()
    } else {
        let l = layers.last();
        spawn_sources(layers.drop_last()) + spawn_entities(l.entity_instances@).map_values(
            |e: LdtkEntityInstanceData| (l, e),
        )
    }
}

/// Tiles of `layers`, each with its layer, in order.
pub open spec fn tile_sources(layers: Seq<LdtkLayerInstanceData>) -> Seq<
    (LdtkLayerInstanceData, LdtkTileInstanceData),
>
    decreases layers.len(),
{
    if layers.len() == 0 {
        Seq::empty()
    } else {
        let l = layers.last();
        tile_sources(layers.drop_last()) + layer_tiles(l).map_values(
            |t: LdtkTileInstanceData| (l, t),
        )
    }
}

/// Entities of `layers`, each with its layer, in order.
pub open spec fn entity_sources(layers: Seq<LdtkLayerInstanceData>) -> Seq<
    (LdtkLayerInstanceData, LdtkEntityInstanceData),
>
    decreases layers.len(),
{
    if layers.len() == 0 {
        Seq::empty()
    } else {
        let l = layers.last();
        entity_sources(layers.drop_last()) + l.entity_instances@.map_values(
            |e: LdtkEntityInstanceData| (l, e),
        )
    }
}

/// The layer records after recording `layers` of level `level_identifier`.
pub open spec fn layers_added(
    m: Map<Seq<char>, LdtkLayerInfo>,
    layers: Seq<LdtkLayerInstanceData>,
    level_identifier: String,
) -> Map<Seq<char>, LdtkLayerInfo>
    decreases layers.len(),
{
    if layers.len() == 0 {
        m
    } else {
        layers_added(m, layers.drop_last(), level_identifier).insert(
            layers.last().iid@,
            spec_layer_info(layers.last(), level_identifier),
        )
    }
}

/// Spawn points, tiles and entities of `info` are those of `layers` of
/// `level`.
pub open spec fn contents_match(
    info: LdtkLevelInfo,
    level: LdtkLevelData,
    layers: Seq<LdtkLayerInstanceData>,
    world_identifier: String,
    tilesets: Map<i32, LdtkTilesetInfo>,
    animations: Map<LdtkTileKey, LdtkTileAnimation>,
) -> bool {
    &&& info.spawn_points@.len() == spawn_sources(layers).len()
    &&& forall|k: int|
        0 <= k < info.spawn_points@.len() ==> spawn_point_matches(
            #[trigger] info.spawn_points@[k],
            level,
            spawn_sources(layers)[k].0,
            spawn_sources(layers)[k].1,
        )
    &&& info.tiles@.len() == tile_sources(layers).len()
    &&& forall|k: int|
        0 <= k < info.tiles@.len() ==> tile_matches(
            #[trigger] info.tiles@[k],
            level,
            tile_sources(layers)[k].0,
            tile_sources(layers)[k].1,
            tilesets,
            animations,
        )
    &&& info.entities@.len() == entity_sources(layers).len()
    &&& forall|k: int|
        0 <= k < info.entities@.len() ==> entity_matches(
            #[trigger] info.entities@[k],
            level,
            entity_sources(layers)[k].0,
            world_identifier,
            entity_sources(layers)[k].1,
            tilesets,
            animations,
        )
}

/// `info` is the catalog record of `level` in world `world_identifier`.
pub open spec fn level_matches(
    info: LdtkLevelInfo,
    level: LdtkLevelData,
    world_identifier: String,
    config: LdtkConfig,
    tilesets: Map<i32, LdtkTilesetInfo>,
    animations: Map<LdtkTileKey, LdtkTileAnimation>,
) -> bool {
    &&& level_header_matches(info, level, world_identifier)
    &&& info.neighbors@.len() == 0
    &&& contents_match(
        info,
        level,
        level_layers(level, config),
        world_identifier,
        tilesets,
        animations,
    )
}

/// Adds the contents of one layer to the level record being built.
fn add_layer_contents(
    info: &mut LdtkLevelInfo,
    level: &LdtkLevelData,
    layer: &LdtkLayerInstanceData,
    world_identifier: &String,
    tilesets: &KeyedMap<i32, LdtkTilesetInfo>,
    animations: &KeyedMap<LdtkTileKey, LdtkTileAnimation>,
    Ghost(done): Ghost<Seq<LdtkLayerInstanceData>>,
)
    requires
        contents_match(*old(info), *level, done, *world_identifier, tilesets@, animations@),
    ensures
        contents_match(
            *final(info),
            *level,
            done.push(*layer),
            *world_identifier,
            tilesets@,
            animations@,
        ),
        final(info).iid == old(info).iid,
        final(info).uid == old(info).uid,
        final(info).identifier == old(info).identifier,
        final(info).world_identifier == old(info).world_identifier,
        final(info).external_path == old(info).external_path,
        final(info).size == old(info).size,
        final(info).world_position == old(info).world_position,
        final(info).neighbors == old(info).neighbors,
        final(info).fields == old(info).fields,
{
    let ghost all = done.push(*layer);
    proof {
        assert(all.drop_last() =~= done);
        assert(all.last() == *layer);
    }
    let mut spawns = extract_spawn_points(level, layer);
    let ghost old_spawns = info.spawn_points@;
    let ghost new_spawns = spawns@;
    info.spawn_points.append(&mut spawns);
    proof {
        let f = |e: LdtkEntityInstanceData| (*layer, e);
        let src = spawn_sources(all);
        assert(src =~= spawn_sources(done) + spawn_entities(layer.entity_instances@).map_values(f));
        assert forall|k: int| 0 <= k < info.spawn_points@.len() implies spawn_point_matches(
            #[trigger] info.spawn_points@[k],
            *level,
            src[k].0,
            src[k].1,
        ) by {
            if k < old_spawns.len() {
                assert(info.spawn_points@[k] == old_spawns[k]);
                assert(src[k] == spawn_sources(done)[k]);
            } else {
                let j = k - old_spawns.len();
                assert(info.spawn_points@[k] == new_spawns[j]);
                assert(src[k] == f(spawn_entities(layer.entity_instances@)[j]));
            }
        }
    }
    let mut tiles = extract_tile_metadata(level, layer, tilesets, animations);
    let ghost old_tiles = info.tiles@;
    let ghost new_tiles = tiles@;
    info.tiles.append(&mut tiles);
    proof {
        let f = |t: LdtkTileInstanceData| (*layer, t);
        let src = tile_sources(all);
        assert(src =~= tile_sources(done) + layer_tiles(*layer).map_values(f));
        assert forall|k: int| 0 <= k < info.tiles@.len() implies tile_matches(
            #[trigger] info.tiles@[k],
            *level,
            src[k].0,
            src[k].1,
            tilesets@,
            animations@,
        ) by {
            if k < old_tiles.len() {
                assert(info.tiles@[k] == old_tiles[k]);
                assert(src[k] == tile_sources(done)[k]);
            } else {
                let j = k - old_tiles.len();
                assert(info.tiles@[k] == new_tiles[j]);
                assert(src[k] == f(layer_tiles(*layer)[j]));
            }
        }
    }
    let mut ents = extract_entity_snapshots(level, layer, world_identifier, tilesets, animations);
    let ghost old_ents = info.entities@;
    let ghost new_ents = ents@;
    info.entities.append(&mut ents);
    proof {
        let f = |e: LdtkEntityInstanceData| (*layer, e);
        let src = entity_sources(all);
        assert(src =~= entity_sources(done) + layer.entity_instances@.map_values(f));
        assert forall|k: int| 0 <= k < info.entities@.len() implies entity_matches(
            #[trigger] info.entities@[k],
            *level,
            src[k].0,
            *world_identifier,
            src[k].1,
            tilesets@,
            animations@,
        ) by {
            if k < old_ents.len() {
                assert(info.entities@[k] == old_ents[k]);
                assert(src[k] == entity_sources(done)[k]);
            } else {
                let j = k - old_ents.len();
                assert(info.entities@[k] == new_ents[j]);
                assert(src[k] == f(layer.entity_instances@[j]));
            }
        }
    }
}

/// Reads one level into the catalog: the level record with the spawn points,
/// tiles and entities of its included layers, and a layer record for each
/// included layer.
pub fn insert_level(
    level: &LdtkLevelData,
    world_identifier: &String,
    layout: LdtkWorldLayout,
    catalog: &mut LdtkMapCatalog,
    config: &LdtkConfig,
)
    ensures
        final(catalog).layers@ == layers_added(
            old(catalog).layers@,
            level_layers(*level, *config),
            level.identifier,
        ),
        final(catalog).levels@.dom() == old(catalog).levels@.dom().insert(level.identifier@),
        final(catalog).levels@.remove(level.identifier@) == old(catalog).levels@.remove(
            level.identifier@,
        ),
        level_matches(
            final(catalog).levels@[level.identifier@],
            *level,
            *world_identifier,
            *config,
            old(catalog).tilesets@,
            old(catalog).tile_animations@,
        ),
        final(catalog).levels_by_iid@ == old(catalog).levels_by_iid@.insert(
            level.iid@,
            level.identifier,
        ),
        final(catalog).levels_by_uid@ == old(catalog).levels_by_uid@.insert(
            level.uid,
            level.identifier,
        ),
        final(catalog).entities_by_iid@ == index_entities(
            old(catalog).entities_by_iid@,
            final(catalog).levels@[level.identifier@].entities@,
            level.identifier,
        ),
        final(catalog).worlds == old(catalog).worlds,
        final(catalog).tilesets == old(catalog).tilesets,
        final(catalog).tile_animations == old(catalog).tile_animations,
{
    let mut info = level_info_from_level(level, world_identifier);
    proof {
        assert(contents_match(
            info,
            *level,
            Seq::empty(),
            *world_identifier,
            catalog.tilesets@,
            catalog.tile_animations@,
        ));
    }
    if let Some(layers) = &level.layer_instances {
        let n = layers.len();
        let mut i: usize = 0;
        proof {
            assert(layers@.take(0) =~= Seq::<LdtkLayerInstanceData>::empty());
        }
        while i < n
            invariant
                level.layer_instances == Some(*layers),
                n == layers@.len(),
                i <= n,
                level_header_matches(info, *level, *world_identifier),
                info.neighbors@.len() == 0,
                contents_match(
                    info,
                    *level,
                    included_layers(layers@.take(i as int), *config),
                    *world_identifier,
                    catalog.tilesets@,
                    catalog.tile_animations@,
                ),
                catalog.layers@ == layers_added(
                    old(catalog).layers@,
                    included_layers(layers@.take(i as int), *config),
                    level.identifier,
                ),
                catalog.levels == old(catalog).levels,
                catalog.levels_by_iid == old(catalog).levels_by_iid,
                catalog.levels_by_uid == old(catalog).levels_by_uid,
                catalog.entities_by_iid == old(catalog).entities_by_iid,
                catalog.worlds == old(catalog).worlds,
                catalog.tilesets == old(catalog).tilesets,
                catalog.tile_animations == old(catalog).tile_animations,
            decreases n - i,
        {
            let layer = &layers[i];
            let ghost done = included_layers(layers@.take(i as int), *config);
            proof {
                assert(layers@.take(i + 1).drop_last() =~= layers@.take(i as int));
                assert(layers@.take(i + 1).last() == *layer);
            }
            if config.should_include_layer(layer.identifier.as_str()) {
                let layer_info = layer_info_from_layer(layer, &info.identifier);
                proof {
                    assert(included_layers(layers@.take(i + 1), *config) == done.push(*layer));
                    assert(done.push(*layer).drop_last() =~= done);
                    assert(info.identifier == level.identifier);
                }
                catalog.layers.insert(layer.iid.clone(), layer_info);
                add_layer_contents(
                    &mut info,
                    level,
                    layer,
                    world_identifier,
                    &catalog.tilesets,
                    &catalog.tile_animations,
                    Ghost(done),
                );
            } else {
                proof {
                    assert(included_layers(layers@.take(i + 1), *config) == done);
                }
            }
            i = i + 1;
        }
        proof {
            assert(layers@.take(n as int) =~= layers@);
        }
    }
    match layout {
        LdtkWorldLayout::LinearHorizontal | LdtkWorldLayout::LinearVertical => {
            info.neighbors.clear();
        },
        _ => {},
    }
    let ghost stored = info;
    catalog.insert_level_info(info);
    proof {
        assert(catalog.levels@[level.identifier@] == stored);
        assert(catalog.levels@.remove(level.identifier@) =~= old(catalog).levels@.remove(
            level.identifier@,
        ));
    }
}

} // verus!
