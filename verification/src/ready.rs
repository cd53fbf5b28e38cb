//! Telling beforehand whether a level can be drawn.
//!
//! Drawing works on 32-bit positions and looks resources up by identifier.
//! A level whose numbers do not fit, or that names a resource that was not
//! derived, cannot be drawn; the functions here find that out without
//! drawing anything.

use crate::assets::LdtkProject;
use crate::color::parse_hex_color;
use crate::draw::{classify_layer, entity_footprint};
use crate::model::{EntityInstance, LayerInstance, TileInstance};
use crate::render::{
    cell_fits, entity_fits, extra_ent_defs, fits_i32, layer_info, level_info, tile_fits,
    ExtraEntDefs, LayerInfo, LayerKind, LevelInfo, DEPTH_BASE,
};
use crate::systems::drawable;
use crate::target::{mode_renderable, LdtkProjectBundle, LdtkRenderType};
use std::collections::HashMap;
use vstd::prelude::*;

verus! {

broadcast use vstd::std_specs::hash::group_hash_axioms;

fn fits(v: i64) -> (yes: bool)
    ensures
        yes == fits_i32(v as int),
{
    -2147483648 <= v && v <= 2147483647
}

proof fn lemma_product_bound(a: int, b: int)
    requires
        -2147483648 <= a <= 2147483647,
        -2147483648 <= b <= 2147483647,
    ensures
        -4611686018427387904 <= a * b <= 4611686018427387904,
{
    assert(-4611686018427387904 <= a * b <= 4611686018427387904) by (nonlinear_arith)
        requires
            -2147483648 <= a <= 2147483647,
            -2147483648 <= b <= 2147483647,
    ;
}

/// Whether `factor * cell + offset` and the product itself fit in 32 bits.
fn placed_fits(factor: i32, cell: i32, offset: i32) -> (yes: bool)
    ensures
        yes == (fits_i32(factor * cell) && fits_i32(factor * cell + offset)),
{
    proof {
        lemma_product_bound(factor as int, cell as int);
    }
    let product: i64 = (factor as i64) * (cell as i64);
    fits(product) && fits(product + offset as i64)
}

/// Whether the position of a tile can be placed in the level.
pub fn tile_can_fit(info: &LevelInfo, tile: &TileInstance) -> (yes: bool)
    ensures
        yes == tile_fits(*info, *tile),
{
    if tile.px.len() < 2 {
        return false;
    }
    let x = tile.px[0];
    let y = tile.px[1];
    fits(x) && fits(y) && fits(x + info.world_x as i64) && fits(y + info.world_y as i64)
}

/// Whether every tile of a list can be drawn from the atlas of
/// `tileset_uid`.
pub fn tiles_can_draw(
    project: &LdtkProject,
    info: &LevelInfo,
    tiles: &Vec<TileInstance>,
    tileset_uid: i64,
) -> (yes: bool)
    ensures
        yes == project.tiles_drawable(*info, tiles@, tileset_uid),
{
    if tiles.len() > 0 && !project.spritesheets.contains_key(&tileset_uid) {
        return false;
    }
    let mut i: usize = 0;
    while i < tiles.len()
        invariant
            i <= tiles@.len(),
            forall|k: int| 0 <= k < i ==> tile_fits(*info, #[trigger] tiles@[k]),
        decreases tiles@.len() - i,
    {
        if !tile_can_fit(info, &tiles[i]) {
            assert(!tile_fits(*info, tiles@[i as int]));
            return false;
        }
        i += 1;
    }
    true
}

/// Whether cell number `index` of a grid can be placed in the level.
pub fn cell_can_fit(info: &LevelInfo, layer: LayerInfo, index: usize) -> (yes: bool)
    ensures
        yes == cell_fits(*info, layer, index as int),
{
    if layer.grid_width <= 0 || index > 2147483647 {
        return false;
    }
    let width = layer.grid_width as usize;
    assert((index as int) / (width as int) <= index as int) by (nonlinear_arith)
        requires
            width > 0,
            index >= 0,
    ;
    let column = (index % width) as i32;
    let row = (index / width) as i32;
    placed_fits(column, layer.grid_cell_size, info.world_x) && placed_fits(
        row,
        layer.grid_cell_size,
        info.world_y,
    )
}

/// Whether every cell of a grid can be filled from the palette of
/// `layer_uid`.
#[verifier::loop_isolation(false)]
pub fn cells_can_draw(
    project: &LdtkProject,
    info: &LevelInfo,
    layer: LayerInfo,
    layer_uid: i64,
    values: &Vec<i64>,
) -> (yes: bool)
    ensures
        yes == project.cells_drawable(*info, layer, layer_uid, values@),
{
    if values.len() == 0 {
        return true;
    }
    let shades = match project.int_grid_colors.get(&layer_uid) {
        Some(palette) => palette.len(),
        None => {
            assert(!project.in_palette(layer_uid, values@[0]));
            return false;
        },
    };
    let mut i: usize = 0;
    while i < values.len()
        invariant
            i <= values@.len(),
            project.int_grid_colors@.contains_key(layer_uid),
            shades == project.int_grid_colors@[layer_uid]@.len(),
            forall|k: int| 0 <= k < i ==> #[trigger] cell_fits(*info, layer, k),
            forall|k: int| 0 <= k < i ==> project.in_palette(layer_uid, #[trigger] values@[k]),
        decreases values@.len() - i,
    {
        let value = values[i];
        if value < 0 || value as u64 >= shades as u64 || !cell_can_fit(info, layer, i) {
            assert(!(cell_fits(*info, layer, i as int) && project.in_palette(
                layer_uid,
                values@[i as int],
            )));
            return false;
        }
        i += 1;
    }
    assert forall|k: int| 0 <= k < values@.len() implies cell_fits(*info, layer, k)
        && project.in_palette(layer_uid, #[trigger] values@[k]) by {
        assert(cell_fits(*info, layer, k));
    }
    true
}

/// Whether an entity instance can be placed in the level.
pub fn entity_can_fit(
    info: &LevelInfo,
    layer: LayerInfo,
    extra: &ExtraEntDefs,
    entity: &EntityInstance,
) -> (yes: bool)
    ensures
        yes == entity_fits(*info, layer, *extra, *entity),
{
    if entity.grid.len() < 2 {
        return false;
    }
    let column = entity.grid[0];
    let row = entity.grid[1];
    if !fits(column) || !fits(row) || !fits(extra.width) || !fits(extra.height) {
        return false;
    }
    placed_fits(column as i32, layer.grid_cell_size, info.world_x) && placed_fits(
        row as i32,
        layer.grid_cell_size,
        info.world_y,
    )
}

/// Whether every entity of a list can be announced.
pub fn entities_can_draw(
    project: &LdtkProject,
    info: &LevelInfo,
    layer: LayerInfo,
    entities: &Vec<EntityInstance>,
) -> (yes: bool)
    ensures
        yes == project.entities_drawable(*info, layer, entities@),
{
    let mut i: usize = 0;
    while i < entities.len()
        invariant
            i <= entities@.len(),
            forall|k: int|
                0 <= k < i ==> entity_fits(
                    *info,
                    layer,
                    extra_ent_defs(project.project, (#[trigger] entities@[k]).def_uid),
                    entities@[k],
                ),
        decreases entities@.len() - i,
    {
        let entity = &entities[i];
        let extra = entity_footprint(&project.project, entity.def_uid);
        if !entity_can_fit(info, layer, &extra, entity) {
            assert(!entity_fits(
                *info,
                layer,
                extra_ent_defs(project.project, entities@[i as int].def_uid),
                entities@[i as int],
            ));
            return false;
        }
        i += 1;
    }
    true
}

/// Whether a layer instance can be drawn.
pub fn layer_can_draw(project: &LdtkProject, info: &LevelInfo, layer: &LayerInstance, idx: usize) -> (yes:
    bool)
    ensures
        yes == project.layer_drawable(*info, *layer, idx as int),
{
    let kind = classify_layer(&layer.layer_instance_type);
    if kind == LayerKind::Unknown {
        return true;
    }
    if idx > 2147483647 || !fits(layer.c_wid) || !fits(layer.c_hei) || !fits(layer.grid_size) {
        return false;
    }
    let measures = LayerInfo {
        grid_width: layer.c_wid as i32,
        grid_height: layer.c_hei as i32,
        grid_cell_size: layer.grid_size as i32,
        z_index: DEPTH_BASE - idx as i32,
    };
    assert(measures == layer_info(*layer, idx as int));
    let tileset_uid = match layer.tileset_def_uid {
        Some(uid) => uid,
        None => -1,
    };
    match kind {
        LayerKind::Tiles => tiles_can_draw(project, info, &layer.grid_tiles, tileset_uid),
        LayerKind::AutoLayer => tiles_can_draw(project, info, &layer.auto_layer_tiles, tileset_uid),
        LayerKind::IntGrid => match layer.tileset_def_uid {
            Some(uid) => tiles_can_draw(project, info, &layer.auto_layer_tiles, uid),
            None => cells_can_draw(
                project,
                info,
                measures,
                layer.layer_def_uid,
                &layer.int_grid_csv,
            ),
        },
        LayerKind::Entities => entities_can_draw(project, info, measures, &layer.entity_instances),
        LayerKind::Unknown => true,
    }
}

impl LdtkProject {
    /// Whether level number `level` can be drawn, at its place in the world
    /// when `reposition` is set, at the origin otherwise.
    #[verifier::loop_isolation(false)]
    pub fn can_render(&self, level: usize, reposition: bool) -> (yes: bool)
        ensures
            yes == self.renderable(level as int, reposition),
    {
        if level >= self.project.levels.len() {
            return false;
        }
        let lv = &self.project.levels[level];
        if parse_hex_color(lv.bg_color.as_str()).is_none() {
            return false;
        }
        if reposition && (!fits(lv.world_x) || !fits(lv.world_y)) {
            return false;
        }
        let info = if reposition {
            LevelInfo { world_x: lv.world_x as i32, world_y: lv.world_y as i32 }
        } else {
            LevelInfo { world_x: 0, world_y: 0 }
        };
        assert(info == level_info(*lv, reposition));
        match &lv.layer_instances {
            Some(layers) => {
                let mut idx: usize = 0;
                while idx < layers.len()
                    invariant
                        idx <= layers@.len(),
                        forall|k: int|
                            0 <= k < idx ==> self.layer_drawable(info, #[trigger] layers@[k], k),
                    decreases layers@.len() - idx,
                {
                    if !layer_can_draw(self, &info, &layers[idx], idx) {
                        assert(!self.layer_drawable(info, layers@[idx as int], idx as int));
                        return false;
                    }
                    idx += 1;
                }
                true
            },
            None => true,
        }
    }

    /// Whether all that `mode` asks for can be drawn.
    #[verifier::loop_isolation(false)]
    pub fn can_render_mode(&self, mode: LdtkRenderType) -> (yes: bool)
        ensures
            yes == mode_renderable(self, mode),
    {
        match mode {
            LdtkRenderType::SingleLevel(level) => self.can_render(level, false),
            LdtkRenderType::FullWorld => {
                let count = self.project.levels.len();
                let mut level: usize = 0;
                while level < count
                    invariant
                        count == self.project.levels@.len(),
                        level <= count,
                        forall|k: int| 0 <= k < level ==> #[trigger] self.renderable(k, true),
                    decreases count - level,
                {
                    if !self.can_render(level, true) {
                        assert(!self.renderable(level as int, true));
                        return false;
                    }
                    level += 1;
                }
                true
            },
        }
    }
}

/// Whether the render phase can do its work for every target.
pub fn can_render_projects<H>(
    projects: &Vec<LdtkProjectBundle<H>>,
    project_assets: &HashMap<u64, LdtkProject>,
) -> (yes: bool)
    ensures
        yes == (forall|i: int|
            0 <= i < projects@.len() ==> drawable((#[trigger] projects@[i])@, project_assets@)),
{
    let mut i: usize = 0;
    while i < projects.len()
        invariant
            i <= projects@.len(),
            forall|k: int| 0 <= k < i ==> drawable((#[trigger] projects@[k])@, project_assets@),
        decreases projects@.len() - i,
    {
        let target = &projects[i];
        let mode = target.cfg().render_type();
        let marker = target.cfg().rendered();
        let due = match mode {
            LdtkRenderType::SingleLevel(level) => marker != Some(level),
            LdtkRenderType::FullWorld => marker.is_none(),
        };
        if due {
            match project_assets.get(&target.ldtk_project()) {
                Some(project) => {
                    if !project.can_render_mode(mode) {
                        assert(!drawable(projects@[i as int]@, project_assets@));
                        return false;
                    }
                },
                None => {},
            }
        }
        i += 1;
    }
    true
}

} // verus!
