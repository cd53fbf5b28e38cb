//! Drawing a level: from the model and its derived resources to draw
//! primitives and entity-spawn notifications.
//!
//! Layers are walked from the last declared to the first; a layer declared
//! later gets the smaller depth.  Tiles become sprites, the cells of an
//! IntGrid layer without a tileset become filled cells, and entities are not
//! drawn at all: each is announced to whoever subscribed.

use crate::assets::LdtkProject;
use crate::color::{hex_color, Rgb};
use crate::model::{
    EntityDef, EntityInstance, EntityInstanceView, LayerInstance, Level, Project, RenderMode,
    TileInstance, TilesetDef,
};
use crate::tree::{
    forest, FilledCell, LdtkRenderBundle, LdtkRenderedProject, Node, Primitive, Sprite, TileRef,
    WorldPoint,
};
use vstd::prelude::*;

verus! {

broadcast use vstd::std_specs::hash::group_hash_axioms;

/// The depth of the layer declared first; each later layer has a depth one
/// less.
pub const DEPTH_BASE: i32 = 50;

/// Where a level stands in world space.
#[derive(Clone, Copy, Debug, PartialEq, Eq, Structural)]
pub struct LevelInfo {
    pub world_x: i32,
    pub world_y: i32,
}

/// The measures of a layer instance that drawing needs.
#[derive(Clone, Copy, Debug, PartialEq, Eq, Structural)]
pub struct LayerInfo {
    pub grid_width: i32,
    pub grid_height: i32,
    pub grid_cell_size: i32,
    pub z_index: i32,
}

/// A ratio of two pixel counts.
#[derive(Clone, Copy, Debug, PartialEq, Eq, Structural)]
pub struct Scale {
    pub numerator: i64,
    pub denominator: i64,
}

/// What the definition of an entity says of its footprint.
#[derive(Clone, Copy, Debug, PartialEq, Eq, Structural)]
pub struct ExtraEntDefs {
    pub tile_id: i64,
    pub width: i64,
    pub height: i64,
    /// For an entity shown as a tile: its width against the cell size of the
    /// tileset it is taken from.
    pub scale: Option<Scale>,
}

/// The size of a footprint, in pixels.
#[derive(Clone, Copy, Debug, PartialEq, Eq, Structural)]
pub struct Extent {
    pub width: i32,
    pub height: i32,
}

/// The colour that the frame is cleared with.
#[derive(Clone, Copy, Debug, PartialEq, Eq, Structural)]
pub struct ClearColor(pub Rgb);

/// Announces an entity instance of a rendered level.  How the entity is
/// shown is up to the subscriber.
pub struct EntitySpawn {
    /// The project that the level belongs to.
    pub project: u64,
    pub translation: WorldPoint,
    pub size: Extent,
    /// A copy of the instance.
    pub entity: EntityInstance,
    /// The node under which the level is drawn.
    pub parent_id: usize,
}

pub struct EntitySpawnView {
    pub project: u64,
    pub translation: WorldPoint,
    pub size: Extent,
    pub entity: EntityInstanceView,
    pub parent_id: usize,
}

impl View for EntitySpawn {
    type V = EntitySpawnView;

    open spec fn view(&self) -> EntitySpawnView {
        EntitySpawnView {
            project: self.project,
            translation: self.translation,
            size: self.size,
            entity: self.entity@,
            parent_id: self.parent_id,
        }
    }
}

/// What the extension hook of a target is handed for one sprite.
pub struct AttachEnumsData<'a> {
    pub project: &'a LdtkProject,
    pub tileset_uid: i64,
    pub tile: &'a TileInstance,
}

/// The type tag of a layer instance.
#[derive(Clone, Copy, Debug, PartialEq, Eq, Structural)]
pub enum LayerKind {
    Tiles,
    AutoLayer,
    IntGrid,
    Entities,
    /// A tag that is not known; such a layer is skipped.
    Unknown,
}

pub open spec fn fits_i32(v: int) -> bool {
    i32::MIN <= v <= i32::MAX
}

/// The world position of a footprint of `width` by `height` pixels whose top
/// left corner stands at pixel `(x, y)` of a space whose vertical axis points
/// down: `(x - width / 2, -(y + height / 2), z)`, in half pixels.
pub open spec fn world_point(width: int, height: int, x: int, y: int, z: int) -> WorldPoint {
    WorldPoint { half_x: (2 * x - width) as i64, half_y: (-(2 * y + height)) as i64, z: z as i64 }
}

pub open spec fn layer_kind(tag: Seq<char>) -> LayerKind {
    if tag == "Tiles"@ {
        LayerKind::Tiles
    } else if tag == "AutoLayer"@ {
        LayerKind::AutoLayer
    } else if tag == "IntGrid"@ {
        LayerKind::IntGrid
    } else if tag == "Entities"@ {
        LayerKind::Entities
    } else {
        LayerKind::Unknown
    }
}

/// Where the level is drawn: at its place in the world when the whole world
/// is drawn, at the origin when it is drawn alone.
pub open spec fn level_info(level: Level, reposition: bool) -> LevelInfo {
    if reposition {
        LevelInfo { world_x: level.world_x as i32, world_y: level.world_y as i32 }
    } else {
        LevelInfo { world_x: 0, world_y: 0 }
    }
}

pub open spec fn layer_info(layer: LayerInstance, idx: int) -> LayerInfo {
    LayerInfo {
        grid_width: layer.c_wid as i32,
        grid_height: layer.c_hei as i32,
        grid_cell_size: layer.grid_size as i32,
        z_index: (DEPTH_BASE - idx) as i32,
    }
}

/// Whether a flag byte asks for a horizontal flip.
pub open spec fn flips_x(f: i64) -> bool {
    f & 1 != 0
}

/// Whether a flag byte asks for a vertical flip.
pub open spec fn flips_y(f: i64) -> bool {
    f & 2 != 0
}

/// Whether the position of a tile can be placed in the level.
pub open spec fn tile_fits(info: LevelInfo, tile: TileInstance) -> bool {
    &&& tile.px@.len() >= 2
    &&& fits_i32(tile.px@[0] as int)
    &&& fits_i32(tile.px@[1] as int)
    &&& fits_i32(tile.px@[0] as i32 + info.world_x)
    &&& fits_i32(tile.px@[1] as i32 + info.world_y)
}

pub open spec fn sprite_of(
    info: LevelInfo,
    layer: LayerInfo,
    tile: TileInstance,
    tileset_uid: i64,
    source: TileRef,
    attach_enums: bool,
) -> Sprite {
    Sprite {
        translation: world_point(
            layer.grid_cell_size as int,
            layer.grid_cell_size as int,
            tile.px@[0] + info.world_x,
            tile.px@[1] + info.world_y,
            layer.z_index as int,
        ),
        tileset_uid,
        index: tile.t,
        flip_x: flips_x(tile.f),
        flip_y: flips_y(tile.f),
        source,
        attach_enums,
    }
}

/// Whether cell number `index` of a grid can be placed in the level.
pub open spec fn cell_fits(info: LevelInfo, layer: LayerInfo, index: int) -> bool {
    &&& layer.grid_width > 0
    &&& 0 <= index
    &&& fits_i32(index)
    &&& fits_i32((index % (layer.grid_width as int)) * layer.grid_cell_size)
    &&& fits_i32((index % (layer.grid_width as int)) * layer.grid_cell_size + info.world_x)
    &&& fits_i32((index / (layer.grid_width as int)) * layer.grid_cell_size)
    &&& fits_i32((index / (layer.grid_width as int)) * layer.grid_cell_size + info.world_y)
}

pub open spec fn cell_of(
    info: LevelInfo,
    layer: LayerInfo,
    layer_uid: i64,
    index: int,
    value: i64,
    color: Rgb,
) -> FilledCell {
    let column = index % (layer.grid_width as int);
    let row = index / (layer.grid_width as int);
    FilledCell {
        translation: world_point(
            layer.grid_cell_size as int,
            layer.grid_cell_size as int,
            column * layer.grid_cell_size + info.world_x,
            row * layer.grid_cell_size + info.world_y,
            layer.z_index as int,
        ),
        size: layer.grid_cell_size,
        column: column as i32,
        row: row as i32,
        layer_uid,
        value: value as usize,
        color,
    }
}

/// Whether an entity instance can be placed in the level.
pub open spec fn entity_fits(
    info: LevelInfo,
    layer: LayerInfo,
    extra: ExtraEntDefs,
    entity: EntityInstance,
) -> bool {
    &&& entity.grid@.len() >= 2
    &&& fits_i32(entity.grid@[0] as int)
    &&& fits_i32(entity.grid@[1] as int)
    &&& fits_i32(entity.grid@[0] * layer.grid_cell_size)
    &&& fits_i32(entity.grid@[0] * layer.grid_cell_size + info.world_x)
    &&& fits_i32(entity.grid@[1] * layer.grid_cell_size)
    &&& fits_i32(entity.grid@[1] * layer.grid_cell_size + info.world_y)
    &&& fits_i32(extra.width as int)
    &&& fits_i32(extra.height as int)
}

pub open spec fn spawn_of(
    info: LevelInfo,
    layer: LayerInfo,
    extra: ExtraEntDefs,
    entity: EntityInstance,
    project: u64,
    parent_id: usize,
) -> EntitySpawnView {
    EntitySpawnView {
        project,
        translation: world_point(
            extra.width as int,
            extra.height as int,
            entity.grid@[0] * layer.grid_cell_size + info.world_x,
            entity.grid@[1] * layer.grid_cell_size + info.world_y,
            layer.z_index as int,
        ),
        size: Extent { width: extra.width as i32, height: extra.height as i32 },
        entity: entity@,
        parent_id,
    }
}

/// The position of the last of `uids` that equals `uid`.
pub open spec fn last_with_uid(uids: Seq<i64>, uid: i64) -> Option<int>
    decreases uids.len(),
{
    if uids.len() == 0 {
        None
    } else if uids.last() == uid {
        Some(uids.len() - 1)
    } else {
        last_with_uid(uids.drop_last(), uid)
    }
}

pub open spec fn entity_uids(defs: Seq<EntityDef>) -> Seq<i64> {
    Seq::new(defs.len(), |i: int| defs[i].uid)
}

pub open spec fn tileset_uids(defs: Seq<TilesetDef>) -> Seq<i64> {
    Seq::new(defs.len(), |i: int| defs[i].uid)
}

/// The footprint that the project defines for entities of definition
/// `def_uid`: nothing where there is no such definition.
pub open spec fn extra_ent_defs(project: Project, def_uid: i64) -> ExtraEntDefs {
    match last_with_uid(entity_uids(project.defs.entities@), def_uid) {
        None => ExtraEntDefs { tile_id: 0, width: 0, height: 0, scale: None },
        Some(i) => {
            let def = project.defs.entities@[i];
            match (def.render_mode, def.tile_id, def.tileset_id) {
                (RenderMode::Tile, Some(tile_id), Some(tileset_id)) => ExtraEntDefs {
                    tile_id,
                    width: def.width,
                    height: def.height,
                    scale: match last_with_uid(tileset_uids(project.defs.tilesets@), tileset_id) {
                        Some(t) => Some(
                            Scale {
                                numerator: def.width,
                                denominator: project.defs.tilesets@[t].tile_grid_size,
                            },
                        ),
                        None => None,
                    },
                },
                _ => ExtraEntDefs { tile_id: 0, width: def.width, height: def.height, scale: None },
            }
        },
    }
}

/// The nodes that draw `primitives` under `root`.
pub open spec fn as_children(primitives: Seq<Primitive>, root: usize) -> Seq<Option<Node>> {
    Seq::new(
        primitives.len(),
        |i: int| Some(Node { parent: Some(root), primitive: primitives[i] }),
    )
}

/// The tileset that the tiles of a layer are drawn from; `-1` names none.
pub open spec fn tileset_of(layer: LayerInstance) -> i64 {
    match layer.tileset_def_uid {
        Some(uid) => uid,
        None => -1i64,
    }
}

impl LdtkProject {
    /// Whether every tile of a list can be drawn from the atlas of
    /// `tileset_uid`.
    pub open spec fn tiles_drawable(
        &self,
        info: LevelInfo,
        tiles: Seq<TileInstance>,
        tileset_uid: i64,
    ) -> bool {
        &&& tiles.len() > 0 ==> self.spritesheets@.contains_key(tileset_uid)
        &&& forall|i: int| 0 <= i < tiles.len() ==> tile_fits(info, #[trigger] tiles[i])
    }

    /// Whether `value` names a material of the palette of layer `layer_uid`.
    pub open spec fn in_palette(&self, layer_uid: i64, value: i64) -> bool {
        &&& self.int_grid_colors@.contains_key(layer_uid)
        &&& 0 <= value < self.int_grid_colors@[layer_uid]@.len()
    }

    /// Whether every cell of a grid can be filled from the palette of
    /// `layer_uid`.
    pub open spec fn cells_drawable(
        &self,
        info: LevelInfo,
        layer: LayerInfo,
        layer_uid: i64,
        values: Seq<i64>,
    ) -> bool {
        forall|i: int|
            0 <= i < values.len() ==> cell_fits(info, layer, i) && self.in_palette(
                layer_uid,
                #[trigger] values[i],
            )
    }

    /// Whether every entity of a list can be announced.
    pub open spec fn entities_drawable(
        &self,
        info: LevelInfo,
        layer: LayerInfo,
        entities: Seq<EntityInstance>,
    ) -> bool {
        forall|i: int|
            0 <= i < entities.len() ==> entity_fits(
                info,
                layer,
                extra_ent_defs(self.project, (#[trigger] entities[i]).def_uid),
                entities[i],
            )
    }

    /// Whether a layer instance can be drawn: its measures and positions fit
    /// in 32 bits and the resources it draws with exist.
    pub open spec fn layer_drawable(&self, info: LevelInfo, layer: LayerInstance, idx: int) -> bool {
        let measures = layer_info(layer, idx);
        let kind = layer_kind(layer.layer_instance_type@);
        &&& kind != LayerKind::Unknown ==> {
            &&& 0 <= idx <= i32::MAX
            &&& fits_i32(layer.c_wid as int)
            &&& fits_i32(layer.c_hei as int)
            &&& fits_i32(layer.grid_size as int)
        }
        &&& match kind {
            LayerKind::Tiles => self.tiles_drawable(info, layer.grid_tiles@, tileset_of(layer)),
            LayerKind::AutoLayer => self.tiles_drawable(
                info,
                layer.auto_layer_tiles@,
                tileset_of(layer),
            ),
            LayerKind::IntGrid => match layer.tileset_def_uid {
                Some(uid) => self.tiles_drawable(info, layer.auto_layer_tiles@, uid),
                None => self.cells_drawable(
                    info,
                    measures,
                    layer.layer_def_uid,
                    layer.int_grid_csv@,
                ),
            },
            LayerKind::Entities => self.entities_drawable(info, measures, layer.entity_instances@),
            LayerKind::Unknown => true,
        }
    }

    /// Whether level number `level` can be drawn.
    pub open spec fn renderable(&self, level: int, reposition: bool) -> bool {
        &&& 0 <= level < self.project.levels@.len()
        &&& {
            let lv = self.project.levels@[level];
            &&& hex_color(lv.bg_color@) is Some
            &&& reposition ==> fits_i32(lv.world_x as int) && fits_i32(lv.world_y as int)
            &&& lv.layer_instances matches Some(layers) ==> forall|idx: int|
                0 <= idx < layers@.len() ==> self.layer_drawable(
                    level_info(lv, reposition),
                    #[trigger] layers@[idx],
                    idx,
                )
        }
    }

    /// The sprites of a list of tiles, in the order of the list.
    pub open spec fn tiles_primitives(
        info: LevelInfo,
        layer: LayerInfo,
        tiles: Seq<TileInstance>,
        tileset_uid: i64,
        idx: int,
        auto: bool,
        attach_enums: bool,
    ) -> Seq<Primitive> {
        Seq::new(
            tiles.len(),
            |i: int|
                Primitive::Sprite(
                    sprite_of(
                        info,
                        layer,
                        tiles[i],
                        tileset_uid,
                        TileRef { layer: idx as usize, auto, tile: i as usize },
                        attach_enums,
                    ),
                ),
        )
    }

    /// The filled cells of a grid, row by row.
    pub open spec fn cells_primitives(
        &self,
        info: LevelInfo,
        layer: LayerInfo,
        layer_uid: i64,
        values: Seq<i64>,
    ) -> Seq<Primitive> {
        Seq::new(
            values.len(),
            |i: int|
                Primitive::Cell(
                    cell_of(
                        info,
                        layer,
                        layer_uid,
                        i,
                        values[i],
                        self.int_grid_colors@[layer_uid]@[values[i] as int].color,
                    ),
                ),
        )
    }

    /// What a layer instance draws.
    pub open spec fn layer_primitives(
        &self,
        info: LevelInfo,
        layer: LayerInstance,
        idx: int,
        attach_enums: bool,
    ) -> Seq<Primitive> {
        let measures = layer_info(layer, idx);
        match layer_kind(layer.layer_instance_type@) {
            LayerKind::Tiles => Self::tiles_primitives(
                info,
                measures,
                layer.grid_tiles@,
                tileset_of(layer),
                idx,
                false,
                attach_enums,
            ),
            LayerKind::AutoLayer => Self::tiles_primitives(
                info,
                measures,
                layer.auto_layer_tiles@,
                tileset_of(layer),
                idx,
                true,
                attach_enums,
            ),
            LayerKind::IntGrid => match layer.tileset_def_uid {
                Some(uid) => Self::tiles_primitives(
                    info,
                    measures,
                    layer.auto_layer_tiles@,
                    uid,
                    idx,
                    true,
                    attach_enums,
                ),
                None => self.cells_primitives(
                    info,
                    measures,
                    layer.layer_def_uid,
                    layer.int_grid_csv@,
                ),
            },
            LayerKind::Entities => Seq::empty(),
            LayerKind::Unknown => Seq::empty(),
        }
    }

    /// What a layer instance announces.
    pub open spec fn layer_spawns(
        &self,
        info: LevelInfo,
        layer: LayerInstance,
        idx: int,
        project: u64,
        parent_id: usize,
    ) -> Seq<EntitySpawnView> {
        match layer_kind(layer.layer_instance_type@) {
            LayerKind::Entities => Seq::new(
                layer.entity_instances@.len(),
                |i: int|
                    spawn_of(
                        info,
                        layer_info(layer, idx),
                        extra_ent_defs(self.project, layer.entity_instances@[i].def_uid),
                        layer.entity_instances@[i],
                        project,
                        parent_id,
                    ),
            ),
            _ => Seq::empty(),
        }
    }

    /// What the layers from number `from` on draw: the last declared first.
    pub open spec fn layers_primitives(
        &self,
        info: LevelInfo,
        layers: Seq<LayerInstance>,
        from: int,
        attach_enums: bool,
    ) -> Seq<Primitive>
        decreases layers.len() - from,
    {
        if 0 <= from < layers.len() {
            self.layers_primitives(info, layers, from + 1, attach_enums) + self.layer_primitives(
                info,
                layers[from],
                from,
                attach_enums,
            )
        } else {
            Seq::empty()
        }
    }

    /// What the layers from number `from` on announce: the last declared
    /// first.
    pub open spec fn layers_spawns(
        &self,
        info: LevelInfo,
        layers: Seq<LayerInstance>,
        from: int,
        project: u64,
        parent_id: usize,
    ) -> Seq<EntitySpawnView>
        decreases layers.len() - from,
    {
        if 0 <= from < layers.len() {
            self.layers_spawns(info, layers, from + 1, project, parent_id) + self.layer_spawns(
                info,
                layers[from],
                from,
                project,
                parent_id,
            )
        } else {
            Seq::empty()
        }
    }

    /// The primitives drawn for a level, in the order of their creation.
    pub open spec fn level_primitives(
        &self,
        level: int,
        reposition: bool,
        attach_enums: bool,
    ) -> Seq<Primitive> {
        let lv = self.project.levels@[level];
        match lv.layer_instances {
            Some(layers) => self.layers_primitives(
                level_info(lv, reposition),
                layers@,
                0,
                attach_enums,
            ),
            None => Seq::empty(),
        }
    }

    /// The notifications sent for a level, in the order of their sending.
    pub open spec fn level_spawns(
        &self,
        level: int,
        reposition: bool,
        project: u64,
        parent_id: usize,
    ) -> Seq<EntitySpawnView> {
        let lv = self.project.levels@[level];
        match lv.layer_instances {
            Some(layers) => self.layers_spawns(
                level_info(lv, reposition),
                layers@,
                0,
                project,
                parent_id,
            ),
            None => Seq::empty(),
        }
    }

    /// The nodes created for a level when its root becomes node `root`: the
    /// root, then one child for each primitive.
    pub open spec fn level_nodes(
        &self,
        level: int,
        reposition: bool,
        attach_enums: bool,
        project: u64,
        root: usize,
    ) -> Seq<Option<Node>> {
        seq![
            Some(
                Node {
                    parent: None,
                    primitive: Primitive::Root(
                        LdtkRenderBundle {
                            project: LdtkRenderedProject(project),
                            level: level as usize,
                        },
                    ),
                },
            ),
        ] + as_children(self.level_primitives(level, reposition, attach_enums), root)
    }
}

/// Drawing a level into an arena keeps its parent links sound.
pub proof fn lemma_level_nodes_forest(
    project: &LdtkProject,
    nodes: Seq<Option<Node>>,
    level: int,
    reposition: bool,
    attach_enums: bool,
    handle: u64,
)
    requires
        forest(nodes),
        nodes.len() <= usize::MAX,
    ensures
        forest(
            nodes + project.level_nodes(
                level,
                reposition,
                attach_enums,
                handle,
                nodes.len() as usize,
            ),
        ),
{
    let root = nodes.len() as usize;
    let added = project.level_nodes(level, reposition, attach_enums, handle, root);
    let all = nodes + added;
    assert forall|i: int| 0 <= i < all.len() implies match (#[trigger] all[i]) {
        Some(node) => match node.parent {
            Some(p) => p < i && all[p as int] is Some,
            None => true,
        },
        None => true,
    } by {
        if i < nodes.len() {
            assert(all[i] == nodes[i]);
            match nodes[i] {
                Some(node) => match node.parent {
                    Some(p) => {
                        assert(all[p as int] == nodes[p as int]);
                    },
                    None => {},
                },
                None => {},
            }
        } else if i > nodes.len() {
            assert(all[i] == added[i - nodes.len()]);
            assert(all[root as int] == added[0]);
        } else {
            assert(all[i] == added[0]);
        }
    }
}

} // verus!
