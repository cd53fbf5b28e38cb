//! The render engine: creates the nodes of a level and sends its
//! notifications.

use crate::assets::LdtkProject;
use crate::color::{hex_color, parse_hex_color};
use crate::model::{EntityInstance, LayerInstance, Project, RenderMode, TileInstance};
use crate::render::{
    as_children, cell_fits, cell_of, entity_fits, entity_uids, extra_ent_defs, last_with_uid,
    layer_kind, lemma_level_nodes_forest, spawn_of, sprite_of, tile_fits, tileset_uids,
    world_point, AttachEnumsData, ClearColor, EntitySpawn, EntitySpawnView, Extent, ExtraEntDefs,
    LayerInfo, LayerKind, LevelInfo, Scale, DEPTH_BASE,
};
use crate::tree::{
    forest, FilledCell, LdtkRenderBundle, LdtkRenderedProject, Node, Primitive, RenderTree, Sprite,
    TileRef, WorldPoint,
};
use vstd::prelude::*;

verus! {

broadcast use vstd::std_specs::hash::group_hash_axioms;

/// Whether `after` is `before` with one notification for each of `added`
/// behind it.
pub open spec fn spawns_extended(
    before: Seq<EntitySpawn>,
    after: Seq<EntitySpawn>,
    added: Seq<EntitySpawnView>,
) -> bool {
    &&& after.len() == before.len() + added.len()
    &&& forall|j: int| 0 <= j < before.len() ==> #[trigger] after[j] == before[j]
    &&& forall|k: int| 0 <= k < added.len() ==> after[before.len() + k]@ == #[trigger] added[k]
}

/// Centres a footprint on its place and turns the vertical axis up.
pub fn convert_to_world(width: i32, height: i32, x: i32, y: i32, z: i32) -> (point: WorldPoint)
    ensures
        point == world_point(width as int, height as int, x as int, y as int, z as int),
{
    let half_x: i64 = 2 * (x as i64) - (width as i64);
    let half_y: i64 = -(2 * (y as i64) + (height as i64));
    WorldPoint { half_x, half_y, z: z as i64 }
}

/// Reads the type tag of a layer instance.
pub fn classify_layer(tag: &String) -> (kind: LayerKind)
    ensures
        kind == layer_kind(tag@),
{
    if *tag == String::from_str("Tiles") {
        LayerKind::Tiles
    } else if *tag == String::from_str("AutoLayer") {
        LayerKind::AutoLayer
    } else if *tag == String::from_str("IntGrid") {
        LayerKind::IntGrid
    } else if *tag == String::from_str("Entities") {
        LayerKind::Entities
    } else {
        LayerKind::Unknown
    }
}

proof fn lemma_last_with_uid_step(uids: Seq<i64>, uid: i64, i: int)
    requires
        0 <= i < uids.len(),
    ensures
        last_with_uid(uids.take(i + 1), uid) == (if uids[i] == uid {
            Some(i)
        } else {
            last_with_uid(uids.take(i), uid)
        }),
{
    assert(uids.take(i + 1).drop_last() =~= uids.take(i));
}

/// Looks up what the project defines for entities of definition `def_uid`.
pub fn entity_footprint(project: &Project, def_uid: i64) -> (extra: ExtraEntDefs)
    ensures
        extra == extra_ent_defs(*project, def_uid),
{
    let defs = &project.defs.entities;
    let ghost uids = entity_uids(defs@);
    let mut found: Option<usize> = None;
    let mut i: usize = 0;
    while i < defs.len()
        invariant
            i <= defs@.len(),
            uids == entity_uids(defs@),
            match found {
                Some(at) => last_with_uid(uids.take(i as int), def_uid) == Some(at as int) && at
                    < i,
                None => last_with_uid(uids.take(i as int), def_uid) is None,
            },
        decreases defs@.len() - i,
    {
        proof {
            lemma_last_with_uid_step(uids, def_uid, i as int);
        }
        if defs[i].uid == def_uid {
            found = Some(i);
        }
        i += 1;
    }
    assert(uids.take(i as int) =~= uids);
    let at = match found {
        Some(at) => at,
        None => {
            return ExtraEntDefs { tile_id: 0, width: 0, height: 0, scale: None };
        },
    };
    let def = &defs[at];
    let plain = ExtraEntDefs { tile_id: 0, width: def.width, height: def.height, scale: None };
    let (tile_id, tileset_id) = match (def.render_mode, def.tile_id, def.tileset_id) {
        (RenderMode::Tile, Some(tile_id), Some(tileset_id)) => (tile_id, tileset_id),
        _ => {
            return plain;
        },
    };
    let tilesets = &project.defs.tilesets;
    let ghost sheet_uids = tileset_uids(tilesets@);
    let mut sheet: Option<usize> = None;
    let mut k: usize = 0;
    while k < tilesets.len()
        invariant
            k <= tilesets@.len(),
            sheet_uids == tileset_uids(tilesets@),
            match sheet {
                Some(t) => last_with_uid(sheet_uids.take(k as int), tileset_id) == Some(t as int)
                    && t < k,
                None => last_with_uid(sheet_uids.take(k as int), tileset_id) is None,
            },
        decreases tilesets@.len() - k,
    {
        proof {
            lemma_last_with_uid_step(sheet_uids, tileset_id, k as int);
        }
        if tilesets[k].uid == tileset_id {
            sheet = Some(k);
        }
        k += 1;
    }
    assert(sheet_uids.take(k as int) =~= sheet_uids);
    let scale = match sheet {
        Some(t) => Some(Scale { numerator: def.width, denominator: tilesets[t].tile_grid_size }),
        None => None,
    };
    ExtraEntDefs { tile_id, width: def.width, height: def.height, scale }
}

/// Draws one tile as a sprite under `root`.
pub fn display_tile(
    level_info: &LevelInfo,
    layer_info: LayerInfo,
    tile: &TileInstance,
    tree: &mut RenderTree,
    root: usize,
    project: &LdtkProject,
    tileset_uid: i64,
    source: TileRef,
    attach_enums: bool,
)
    requires
        tile_fits(*level_info, *tile),
        project.spritesheets@.contains_key(tileset_uid),
    ensures
        final(tree)@ == old(tree)@.push(
            Some(
                Node {
                    parent: Some(root),
                    primitive: Primitive::Sprite(
                        sprite_of(*level_info, layer_info, *tile, tileset_uid, source, attach_enums),
                    ),
                },
            ),
        ),
{
    let flip_x = (tile.f & 1) != 0;
    let flip_y = (tile.f & 2) != 0;
    let sprite = Sprite {
        translation: convert_to_world(
            layer_info.grid_cell_size,
            layer_info.grid_cell_size,
            tile.px[0] as i32 + level_info.world_x,
            tile.px[1] as i32 + level_info.world_y,
            layer_info.z_index,
        ),
        tileset_uid,
        index: tile.t,
        flip_x,
        flip_y,
        source,
        attach_enums,
    };
    tree.spawn(Some(root), Primitive::Sprite(sprite));
}

/// Fills cell number `index` of a grid with the material of its value.
pub fn display_color(
    level_info: &LevelInfo,
    layer_info: LayerInfo,
    index: usize,
    tile: &i64,
    tree: &mut RenderTree,
    root: usize,
    project: &LdtkProject,
    layer_uid: i64,
)
    requires
        cell_fits(*level_info, layer_info, index as int),
        project.in_palette(layer_uid, *tile),
    ensures
        final(tree)@ == old(tree)@.push(
            Some(
                Node {
                    parent: Some(root),
                    primitive: Primitive::Cell(
                        cell_of(
                            *level_info,
                            layer_info,
                            layer_uid,
                            index as int,
                            *tile,
                            project.int_grid_colors@[layer_uid]@[*tile as int].color,
                        ),
                    ),
                },
            ),
        ),
{
    let width = layer_info.grid_width as usize;
    assert((index as int) / (width as int) <= index as int) by (nonlinear_arith)
        requires
            width > 0,
            index >= 0,
    ;
    let column = (index % width) as i32;
    let row = (index / width) as i32;
    let (value, color) = match project.int_grid_colors.get(&layer_uid) {
        Some(palette) => {
            let shades = palette.len();
            assert(*tile < shades);
            let value = *tile as usize;
            (value, palette[value].color)
        },
        None => {
            proof {
                assert(false);
            }
            return ;
        },
    };
    let cell = FilledCell {
        translation: convert_to_world(
            layer_info.grid_cell_size,
            layer_info.grid_cell_size,
            column * layer_info.grid_cell_size + level_info.world_x,
            row * layer_info.grid_cell_size + level_info.world_y,
            layer_info.z_index,
        ),
        size: layer_info.grid_cell_size,
        column,
        row,
        layer_uid,
        value,
        color,
    };
    tree.spawn(Some(root), Primitive::Cell(cell));
}

/// Announces one entity instance.
pub fn display_entity(
    level_info: &LevelInfo,
    layer_info: LayerInfo,
    entity: &EntityInstance,
    extra_ent_defs: &ExtraEntDefs,
    entity_spawner: &mut Vec<EntitySpawn>,
    project_handle: u64,
    parent_id: usize,
)
    requires
        entity_fits(*level_info, layer_info, *extra_ent_defs, *entity),
    ensures
        spawns_extended(
            old(entity_spawner)@,
            final(entity_spawner)@,
            seq![
                spawn_of(
                    *level_info,
                    layer_info,
                    *extra_ent_defs,
                    *entity,
                    project_handle,
                    parent_id,
                ),
            ],
        ),
{
    let width = extra_ent_defs.width as i32;
    let height = extra_ent_defs.height as i32;
    let spawn = EntitySpawn {
        project: project_handle,
        translation: convert_to_world(
            width,
            height,
            entity.grid[0] as i32 * layer_info.grid_cell_size + level_info.world_x,
            entity.grid[1] as i32 * layer_info.grid_cell_size + level_info.world_y,
            layer_info.z_index,
        ),
        size: Extent { width, height },
        entity: entity.clone(),
        parent_id,
    };
    entity_spawner.push(spawn);
}

/// Extending a list of notifications twice extends it by both additions.
pub proof fn lemma_spawns_extended_twice(
    a: Seq<EntitySpawn>,
    b: Seq<EntitySpawn>,
    c: Seq<EntitySpawn>,
    first: Seq<EntitySpawnView>,
    second: Seq<EntitySpawnView>,
)
    requires
        spawns_extended(a, b, first),
        spawns_extended(b, c, second),
    ensures
        spawns_extended(a, c, first + second),
{
    let added = first + second;
    assert forall|j: int| 0 <= j < a.len() implies #[trigger] c[j] == a[j] by {
        assert(c[j] == b[j]);
    }
    assert forall|k: int| 0 <= k < added.len() implies c[a.len() + k]@ == #[trigger] added[k] by {
        if k < first.len() {
            assert(c[a.len() + k] == b[a.len() + k]);
            assert(b[a.len() + k]@ == first[k]);
        } else {
            assert(c[b.len() + (k - first.len())]@ == second[k - first.len()]);
        }
    }
}

/// Draws a list of tiles from the atlas of `tileset_uid`.
fn draw_tiles(
    level_info: &LevelInfo,
    layer_info: LayerInfo,
    tiles: &Vec<TileInstance>,
    tree: &mut RenderTree,
    root: usize,
    project: &LdtkProject,
    tileset_uid: i64,
    idx: usize,
    auto: bool,
    attach_enums: bool,
)
    requires
        project.tiles_drawable(*level_info, tiles@, tileset_uid),
    ensures
        final(tree)@ == old(tree)@ + as_children(
            LdtkProject::tiles_primitives(
                *level_info,
                layer_info,
                tiles@,
                tileset_uid,
                idx as int,
                auto,
                attach_enums,
            ),
            root,
        ),
{
    let ghost drawn = LdtkProject::tiles_primitives(
        *level_info,
        layer_info,
        tiles@,
        tileset_uid,
        idx as int,
        auto,
        attach_enums,
    );
    let mut i: usize = 0;
    assert(tree@ =~= old(tree)@ + as_children(drawn.take(0), root));
    while i < tiles.len()
        invariant
            i <= tiles@.len(),
            project.tiles_drawable(*level_info, tiles@, tileset_uid),
            drawn == LdtkProject::tiles_primitives(
                *level_info,
                layer_info,
                tiles@,
                tileset_uid,
                idx as int,
                auto,
                attach_enums,
            ),
            tree@ == old(tree)@ + as_children(drawn.take(i as int), root),
        decreases tiles@.len() - i,
    {
        let ghost before = tree@;
        display_tile(
            level_info,
            layer_info,
            &tiles[i],
            tree,
            root,
            project,
            tileset_uid,
            TileRef { layer: idx, auto, tile: i },
            attach_enums,
        );
        assert(tree@ =~= old(tree)@ + as_children(drawn.take(i + 1), root));
        i += 1;
    }
    assert(drawn.take(i as int) =~= drawn);
}

/// Fills the cells of a grid from the palette of `layer_uid`.
fn draw_cells(
    level_info: &LevelInfo,
    layer_info: LayerInfo,
    values: &Vec<i64>,
    tree: &mut RenderTree,
    root: usize,
    project: &LdtkProject,
    layer_uid: i64,
)
    requires
        project.cells_drawable(*level_info, layer_info, layer_uid, values@),
    ensures
        final(tree)@ == old(tree)@ + as_children(
            project.cells_primitives(*level_info, layer_info, layer_uid, values@),
            root,
        ),
{
    let ghost drawn = project.cells_primitives(*level_info, layer_info, layer_uid, values@);
    let mut i: usize = 0;
    assert(tree@ =~= old(tree)@ + as_children(drawn.take(0), root));
    while i < values.len()
        invariant
            i <= values@.len(),
            project.cells_drawable(*level_info, layer_info, layer_uid, values@),
            drawn == project.cells_primitives(*level_info, layer_info, layer_uid, values@),
            tree@ == old(tree)@ + as_children(drawn.take(i as int), root),
        decreases values@.len() - i,
    {
        assert(project.in_palette(layer_uid, values@[i as int]));
        display_color(level_info, layer_info, i, &values[i], tree, root, project, layer_uid);
        assert(tree@ =~= old(tree)@ + as_children(drawn.take(i + 1), root));
        i += 1;
    }
    assert(drawn.take(i as int) =~= drawn);
}

/// Announces the entities of a layer.
fn announce_entities(
    level_info: &LevelInfo,
    layer_info: LayerInfo,
    entities: &Vec<EntityInstance>,
    project: &LdtkProject,
    entity_spawner: &mut Vec<EntitySpawn>,
    project_handle: u64,
    parent_id: usize,
)
    requires
        project.entities_drawable(*level_info, layer_info, entities@),
    ensures
        spawns_extended(
            old(entity_spawner)@,
            final(entity_spawner)@,
            Seq::new(
                entities@.len(),
                |i: int|
                    spawn_of(
                        *level_info,
                        layer_info,
                        extra_ent_defs(project.project, entities@[i].def_uid),
                        entities@[i],
                        project_handle,
                        parent_id,
                    ),
            ),
        ),
{
    let ghost sent = Seq::new(
        entities@.len(),
        |i: int|
            spawn_of(
                *level_info,
                layer_info,
                extra_ent_defs(project.project, entities@[i].def_uid),
                entities@[i],
                project_handle,
                parent_id,
            ),
    );
    let mut i: usize = 0;
    while i < entities.len()
        invariant
            i <= entities@.len(),
            project.entities_drawable(*level_info, layer_info, entities@),
            sent.len() == entities@.len(),
            forall|k: int|
                0 <= k < sent.len() ==> #[trigger] sent[k] == spawn_of(
                    *level_info,
                    layer_info,
                    extra_ent_defs(project.project, entities@[k].def_uid),
                    entities@[k],
                    project_handle,
                    parent_id,
                ),
            spawns_extended(old(entity_spawner)@, entity_spawner@, sent.take(i as int)),
        decreases entities@.len() - i,
    {
        let entity = &entities[i];
        let extra = entity_footprint(&project.project, entity.def_uid);
        let ghost before = entity_spawner@;
        display_entity(
            level_info,
            layer_info,
            entity,
            &extra,
            entity_spawner,
            project_handle,
            parent_id,
        );
        proof {
            lemma_spawns_extended_twice(
                old(entity_spawner)@,
                before,
                entity_spawner@,
                sent.take(i as int),
                seq![sent[i as int]],
            );
            assert(sent.take(i as int) + seq![sent[i as int]] =~= sent.take(i + 1));
        }
        i += 1;
    }
    assert(sent.take(i as int) =~= sent);
}

/// Draws one layer instance under `root` and announces its entities.
pub fn render_layer(
    level_info: &LevelInfo,
    layer: &LayerInstance,
    idx: usize,
    tree: &mut RenderTree,
    root: usize,
    project_handle: u64,
    project: &LdtkProject,
    entity_spawner: &mut Vec<EntitySpawn>,
    attach_enums: bool,
)
    requires
        project.layer_drawable(*level_info, *layer, idx as int),
    ensures
        final(tree)@ == old(tree)@ + as_children(
            project.layer_primitives(*level_info, *layer, idx as int, attach_enums),
            root,
        ),
        spawns_extended(
            old(entity_spawner)@,
            final(entity_spawner)@,
            project.layer_spawns(*level_info, *layer, idx as int, project_handle, root),
        ),
{
    let kind = classify_layer(&layer.layer_instance_type);
    assert(tree@ =~= tree@ + as_children(Seq::<Primitive>::empty(), root));
    if kind == LayerKind::Unknown {
        return ;
    }
    let layer_info = LayerInfo {
        grid_width: layer.c_wid as i32,
        grid_height: layer.c_hei as i32,
        grid_cell_size: layer.grid_size as i32,
        z_index: DEPTH_BASE - idx as i32,
    };
    assert(layer_info == crate::render::layer_info(*layer, idx as int));
    match kind {
        LayerKind::Tiles => {
            let tileset_uid = match layer.tileset_def_uid {
                Some(uid) => uid,
                None => -1,
            };
            draw_tiles(
                level_info,
                layer_info,
                &layer.grid_tiles,
                tree,
                root,
                project,
                tileset_uid,
                idx,
                false,
                attach_enums,
            );
        },
        LayerKind::AutoLayer => {
            let tileset_uid = match layer.tileset_def_uid {
                Some(uid) => uid,
                None => -1,
            };
            draw_tiles(
                level_info,
                layer_info,
                &layer.auto_layer_tiles,
                tree,
                root,
                project,
                tileset_uid,
                idx,
                true,
                attach_enums,
            );
        },
        LayerKind::IntGrid => match layer.tileset_def_uid {
            Some(uid) => {
                draw_tiles(
                    level_info,
                    layer_info,
                    &layer.auto_layer_tiles,
                    tree,
                    root,
                    project,
                    uid,
                    idx,
                    true,
                    attach_enums,
                );
            },
            None => {
                draw_cells(
                    level_info,
                    layer_info,
                    &layer.int_grid_csv,
                    tree,
                    root,
                    project,
                    layer.layer_def_uid,
                );
            },
        },
        LayerKind::Entities => {
            announce_entities(
                level_info,
                layer_info,
                &layer.entity_instances,
                project,
                entity_spawner,
                project_handle,
                root,
            );
        },
        LayerKind::Unknown => {},
    }
}

/// Draws level number `level` of a project as a new tree and announces its
/// entities.  The level stands at its place in the world when
/// `reposition_level` is set, at the origin otherwise.  Returns the root of
/// the new tree.
pub fn render_single_ldtk_level(
    tree: &mut RenderTree,
    clear_color: &mut ClearColor,
    level: usize,
    reposition_level: bool,
    project_handle: u64,
    project: &LdtkProject,
    entity_spawner: &mut Vec<EntitySpawn>,
    attach_enums: bool,
) -> (root: usize)
    requires
        project.renderable(level as int, reposition_level),
    ensures
        root == old(tree)@.len(),
        hex_color(project.project.levels@[level as int].bg_color@) == Some(final(clear_color).0),
        final(tree)@ == old(tree)@ + project.level_nodes(
            level as int,
            reposition_level,
            attach_enums,
            project_handle,
            root,
        ),
        spawns_extended(
            old(entity_spawner)@,
            final(entity_spawner)@,
            project.level_spawns(level as int, reposition_level, project_handle, root),
        ),
        forest(old(tree)@) ==> forest(final(tree)@),
{
    let lv = &project.project.levels[level];
    match parse_hex_color(lv.bg_color.as_str()) {
        Some(color) => {
            *clear_color = ClearColor(color);
        },
        None => {},
    }
    let bundle = LdtkRenderBundle { project: LdtkRenderedProject(project_handle), level };
    let root = tree.spawn(None, Primitive::Root(bundle));
    let ghost rooted = tree@;
    let level_info = if reposition_level {
        LevelInfo { world_x: lv.world_x as i32, world_y: lv.world_y as i32 }
    } else {
        LevelInfo { world_x: 0, world_y: 0 }
    };
    assert(level_info == crate::render::level_info(*lv, reposition_level));
    match &lv.layer_instances {
        Some(layers) => {
            let mut idx: usize = layers.len();
            proof {
                assert(tree@ =~= rooted + as_children(
                    project.layers_primitives(level_info, layers@, idx as int, attach_enums),
                    root,
                ));
            }
            while idx > 0
                invariant
                    idx <= layers@.len(),
                    forall|k: int|
                        0 <= k < layers@.len() ==> project.layer_drawable(
                            level_info,
                            #[trigger] layers@[k],
                            k,
                        ),
                    tree@ == rooted + as_children(
                        project.layers_primitives(level_info, layers@, idx as int, attach_enums),
                        root,
                    ),
                    spawns_extended(
                        old(entity_spawner)@,
                        entity_spawner@,
                        project.layers_spawns(
                            level_info,
                            layers@,
                            idx as int,
                            project_handle,
                            root,
                        ),
                    ),
                decreases idx,
            {
                idx -= 1;
                let ghost tree_before = tree@;
                let ghost spawns_before = entity_spawner@;
                render_layer(
                    &level_info,
                    &layers[idx],
                    idx,
                    tree,
                    root,
                    project_handle,
                    project,
                    entity_spawner,
                    attach_enums,
                );
                proof {
                    assert(tree@ =~= rooted + as_children(
                        project.layers_primitives(level_info, layers@, idx as int, attach_enums),
                        root,
                    ));
                    lemma_spawns_extended_twice(
                        old(entity_spawner)@,
                        spawns_before,
                        entity_spawner@,
                        project.layers_spawns(
                            level_info,
                            layers@,
                            idx + 1,
                            project_handle,
                            root,
                        ),
                        project.layer_spawns(
                            level_info,
                            layers@[idx as int],
                            idx as int,
                            project_handle,
                            root,
                        ),
                    );
                }
            }
        },
        None => {
            assert(tree@ =~= rooted + as_children(Seq::<Primitive>::empty(), root));
        },
    }
    assert(tree@ =~= old(tree)@ + project.level_nodes(
        level as int,
        reposition_level,
        attach_enums,
        project_handle,
        root,
    ));
    proof {
        if forest(old(tree)@) {
            lemma_level_nodes_forest(
                project,
                old(tree)@,
                level as int,
                reposition_level,
                attach_enums,
                project_handle,
            );
        }
    }
    root
}

/// The tile record that `source` names in level number `level`.
pub open spec fn tile_at(project: Project, level: int, source: TileRef) -> Option<TileInstance> {
    if 0 <= level < project.levels@.len() {
        match project.levels@[level].layer_instances {
            Some(layers) => if source.layer < layers@.len() {
                let layer = layers@[source.layer as int];
                let tiles = if source.auto {
                    layer.auto_layer_tiles@
                } else {
                    layer.grid_tiles@
                };
                if source.tile < tiles.len() {
                    Some(tiles[source.tile as int])
                } else {
                    None
                }
            } else {
                None
            },
            None => None,
        }
    } else {
        None
    }
}

impl LdtkProject {
    /// What the extension hook is handed for a sprite of level number
    /// `level`: nothing where the sprite asks for no call or names no tile.
    pub fn attach_enums_data<'a>(&'a self, level: usize, sprite: &Sprite) -> (data: Option<
        AttachEnumsData<'a>,
    >)
        ensures
            data is Some <==> sprite.attach_enums && tile_at(
                self.project,
                level as int,
                sprite.source,
            ) is Some,
            data matches Some(handed) ==> {
                &&& *handed.project == *self
                &&& handed.tileset_uid == sprite.tileset_uid
                &&& Some(*handed.tile) == tile_at(self.project, level as int, sprite.source)
            },
    {
        if !sprite.attach_enums || level >= self.project.levels.len() {
            return None;
        }
        let layers = match &self.project.levels[level].layer_instances {
            Some(layers) => layers,
            None => {
                return None;
            },
        };
        if sprite.source.layer >= layers.len() {
            return None;
        }
        let layer = &layers[sprite.source.layer];
        let tiles = if sprite.source.auto {
            &layer.auto_layer_tiles
        } else {
            &layer.grid_tiles
        };
        if sprite.source.tile >= tiles.len() {
            return None;
        }
        Some(
            AttachEnumsData {
                project: self,
                tileset_uid: sprite.tileset_uid,
                tile: &tiles[sprite.source.tile],
            },
        )
    }
}

} // verus!
