//! The project model: definitions, levels, layer instances and what they hold.
//!
//! A `Project` is immutable once loaded.  Every type has a view, in which
//! texts and lists are mathematical sequences; the instance records that are
//! handed on to subscribers (`TileInstance`, `EntityInstance` and what they
//! contain) have a `clone` that is proved to keep it.

use crate::json::{Json, JsonView};
use vstd::prelude::*;

verus! {

/// A source image sliced into a uniform grid of square cells.
pub struct TilesetDef {
    pub uid: i64,
    pub identifier: String,
    /// Path of the image, relative to the directory of the project file.
    pub rel_path: String,
    pub px_wid: i64,
    pub px_hei: i64,
    pub tile_grid_size: i64,
}

/// The type tag of a layer definition.
#[derive(Clone, Copy, Debug, PartialEq, Eq, Structural)]
pub enum Type {
    AutoLayer,
    Entities,
    IntGrid,
    Tiles,
}

/// One declared value of an IntGrid layer.
pub struct IntGridValueDefinition {
    /// `#RRGGBB`.
    pub color: String,
    pub identifier: Option<String>,
}

pub struct LayerDef {
    pub uid: i64,
    pub identifier: String,
    pub purple_type: Type,
    /// Declared values, in declaration order; used by IntGrid layers.
    pub int_grid_values: Vec<IntGridValueDefinition>,
}

/// How the editor shows an entity.
#[derive(Clone, Copy, Debug, PartialEq, Eq, Structural)]
pub enum RenderMode {
    Cross,
    Ellipse,
    Rectangle,
    Tile,
}

pub struct EntityDef {
    pub uid: i64,
    pub identifier: String,
    /// `#RRGGBB`.
    pub color: String,
    pub width: i64,
    pub height: i64,
    pub render_mode: RenderMode,
    /// Set when `render_mode` is `Tile`.
    pub tile_id: Option<i64>,
    /// Set when `render_mode` is `Tile`.
    pub tileset_id: Option<i64>,
}

pub struct Definitions {
    pub tilesets: Vec<TilesetDef>,
    pub layers: Vec<LayerDef>,
    pub entities: Vec<EntityDef>,
}

/// One placed tile of a layer instance.
pub struct TileInstance {
    /// Internal data of the editor.
    pub d: Vec<i64>,
    /// Flip flags: bit 0 flips horizontally, bit 1 vertically.
    pub f: i64,
    /// Pixel position `[x, y]` in the layer.
    pub px: Vec<i64>,
    /// Pixel position `[x, y]` in the tileset image.
    pub src: Vec<i64>,
    /// Index of the tile in its atlas.
    pub t: i64,
}

pub struct EntityInstanceTile {
    pub src_rect: Vec<i64>,
    pub tileset_uid: i64,
}

pub struct FieldInstance {
    pub identifier: String,
    pub field_instance_type: String,
    /// The value as the project file writes it.
    pub value: Option<Json>,
    pub def_uid: i64,
    pub real_editor_values: Vec<Option<Json>>,
}

pub struct EntityInstance {
    /// Grid position `[column, row]` in the layer.
    pub grid: Vec<i64>,
    pub identifier: String,
    /// Pivot `[x, y]`, each coordinate as the bits of its IEEE 754 double.
    pub pivot: Vec<u64>,
    pub tile: Option<EntityInstanceTile>,
    pub def_uid: i64,
    pub field_instances: Vec<FieldInstance>,
    pub height: i64,
    pub px: Vec<i64>,
    pub width: i64,
}

pub struct LayerInstance {
    pub identifier: String,
    /// `"Tiles"`, `"AutoLayer"`, `"IntGrid"` or `"Entities"`.
    pub layer_instance_type: String,
    /// Grid width, in cells.
    pub c_wid: i64,
    /// Grid height, in cells.
    pub c_hei: i64,
    /// Cell size, in pixels.
    pub grid_size: i64,
    pub layer_def_uid: i64,
    pub tileset_def_uid: Option<i64>,
    pub grid_tiles: Vec<TileInstance>,
    pub auto_layer_tiles: Vec<TileInstance>,
    /// One value per cell, row by row.
    pub int_grid_csv: Vec<i64>,
    pub entity_instances: Vec<EntityInstance>,
}

pub struct Level {
    pub uid: i64,
    pub identifier: String,
    pub world_x: i64,
    pub world_y: i64,
    /// `#RRGGBB`.
    pub bg_color: String,
    /// Where the level is stored when the project keeps its levels in
    /// separate files; relative to the directory of the project file.
    pub external_rel_path: Option<String>,
    /// Declaration order is back to front.  `None` in the stub of a level
    /// that is stored in a separate file.
    pub layer_instances: Option<Vec<LayerInstance>>,
}

pub struct Project {
    pub defs: Definitions,
    pub levels: Vec<Level>,
    pub external_levels: bool,
}

pub struct TileInstanceView {
    pub d: Seq<i64>,
    pub f: i64,
    pub px: Seq<i64>,
    pub src: Seq<i64>,
    pub t: i64,
}

impl View for TileInstance {
    type V = TileInstanceView;

    open spec fn view(&self) -> TileInstanceView {
        TileInstanceView { d: self.d@, f: self.f, px: self.px@, src: self.src@, t: self.t }
    }
}

pub struct EntityInstanceTileView {
    pub src_rect: Seq<i64>,
    pub tileset_uid: i64,
}

impl View for EntityInstanceTile {
    type V = EntityInstanceTileView;

    open spec fn view(&self) -> EntityInstanceTileView {
        EntityInstanceTileView { src_rect: self.src_rect@, tileset_uid: self.tileset_uid }
    }
}

pub struct FieldInstanceView {
    pub identifier: Seq<char>,
    pub field_instance_type: Seq<char>,
    pub value: Option<JsonView>,
    pub def_uid: i64,
    pub real_editor_values: Seq<Option<JsonView>>,
}

impl View for FieldInstance {
    type V = FieldInstanceView;

    open spec fn view(&self) -> FieldInstanceView {
        FieldInstanceView {
            identifier: self.identifier@,
            field_instance_type: self.field_instance_type@,
            value: match self.value {
                Some(value) => Some(value@),
                None => None,
            },
            def_uid: self.def_uid,
            real_editor_values: Seq::new(
                self.real_editor_values@.len(),
                |i: int|
                    match self.real_editor_values@[i] {
                        Some(value) => Some(value@),
                        None => None,
                    },
            ),
        }
    }
}

pub struct EntityInstanceView {
    pub grid: Seq<i64>,
    pub identifier: Seq<char>,
    pub pivot: Seq<u64>,
    pub tile: Option<EntityInstanceTileView>,
    pub def_uid: i64,
    pub field_instances: Seq<FieldInstanceView>,
    pub height: i64,
    pub px: Seq<i64>,
    pub width: i64,
}

impl View for EntityInstance {
    type V = EntityInstanceView;

    open spec fn view(&self) -> EntityInstanceView {
        EntityInstanceView {
            grid: self.grid@,
            identifier: self.identifier@,
            pivot: self.pivot@,
            tile: match self.tile {
                Some(t) => Some(t@),
                None => None,
            },
            def_uid: self.def_uid,
            field_instances: Seq::new(
                self.field_instances@.len(),
                |i: int| self.field_instances@[i]@,
            ),
            height: self.height,
            px: self.px@,
            width: self.width,
        }
    }
}

impl Clone for EntityInstanceTile {
    fn clone(&self) -> (r: Self)
        ensures
            r@ == self@,
    {
        let r = Self { src_rect: self.src_rect.clone(), tileset_uid: self.tileset_uid };
        assert(r.src_rect@ =~= self.src_rect@);
        r
    }
}

impl Clone for FieldInstance {
    fn clone(&self) -> (r: Self)
        ensures
            r@ == self@,
    {
        let r = Self {
            identifier: self.identifier.clone(),
            field_instance_type: self.field_instance_type.clone(),
            value: self.value.clone(),
            def_uid: self.def_uid,
            real_editor_values: self.real_editor_values.clone(),
        };
        assert(r@.real_editor_values =~= self@.real_editor_values);
        r
    }
}

impl Clone for TileInstance {
    fn clone(&self) -> (r: Self)
        ensures
            r@ == self@,
    {
        let r = Self {
            d: self.d.clone(),
            f: self.f,
            px: self.px.clone(),
            src: self.src.clone(),
            t: self.t,
        };
        assert(r.d@ =~= self.d@);
        assert(r.px@ =~= self.px@);
        assert(r.src@ =~= self.src@);
        r
    }
}

impl Clone for EntityInstance {
    fn clone(&self) -> (r: Self)
        ensures
            r@ == self@,
    {
        let r = Self {
            grid: self.grid.clone(),
            identifier: self.identifier.clone(),
            pivot: self.pivot.clone(),
            tile: self.tile.clone(),
            def_uid: self.def_uid,
            field_instances: self.field_instances.clone(),
            height: self.height,
            px: self.px.clone(),
            width: self.width,
        };
        assert(r.grid@ =~= self.grid@);
        assert(r.pivot@ =~= self.pivot@);
        assert(r.px@ =~= self.px@);
        assert(r@.field_instances =~= self@.field_instances);
        r
    }
}

impl DeepView for TileInstance {
    type V = TileInstanceView;

    open spec fn deep_view(&self) -> TileInstanceView {
        self@
    }
}

impl DeepView for EntityInstanceTile {
    type V = EntityInstanceTileView;

    open spec fn deep_view(&self) -> EntityInstanceTileView {
        self@
    }
}

impl DeepView for EntityInstance {
    type V = EntityInstanceView;

    open spec fn deep_view(&self) -> EntityInstanceView {
        self@
    }
}

impl DeepView for FieldInstance {
    type V = FieldInstanceView;

    open spec fn deep_view(&self) -> FieldInstanceView {
        self@
    }
}

pub struct TilesetDefView {
    pub uid: i64,
    pub identifier: Seq<char>,
    pub rel_path: Seq<char>,
    pub px_wid: i64,
    pub px_hei: i64,
    pub tile_grid_size: i64,
}

impl DeepView for TilesetDef {
    type V = TilesetDefView;

    open spec fn deep_view(&self) -> TilesetDefView {
        TilesetDefView {
            uid: self.uid,
            identifier: self.identifier@,
            rel_path: self.rel_path@,
            px_wid: self.px_wid,
            px_hei: self.px_hei,
            tile_grid_size: self.tile_grid_size,
        }
    }
}

pub struct IntGridValueDefinitionView {
    pub color: Seq<char>,
    pub identifier: Option<Seq<char>>,
}

impl DeepView for IntGridValueDefinition {
    type V = IntGridValueDefinitionView;

    open spec fn deep_view(&self) -> IntGridValueDefinitionView {
        IntGridValueDefinitionView {
            color: self.color@,
            identifier: self.identifier.deep_view(),
        }
    }
}

pub struct LayerDefView {
    pub uid: i64,
    pub identifier: Seq<char>,
    pub purple_type: Type,
    pub int_grid_values: Seq<IntGridValueDefinitionView>,
}

impl DeepView for LayerDef {
    type V = LayerDefView;

    open spec fn deep_view(&self) -> LayerDefView {
        LayerDefView {
            uid: self.uid,
            identifier: self.identifier@,
            purple_type: self.purple_type,
            int_grid_values: self.int_grid_values.deep_view(),
        }
    }
}

pub struct EntityDefView {
    pub uid: i64,
    pub identifier: Seq<char>,
    pub color: Seq<char>,
    pub width: i64,
    pub height: i64,
    pub render_mode: RenderMode,
    pub tile_id: Option<i64>,
    pub tileset_id: Option<i64>,
}

impl DeepView for EntityDef {
    type V = EntityDefView;

    open spec fn deep_view(&self) -> EntityDefView {
        EntityDefView {
            uid: self.uid,
            identifier: self.identifier@,
            color: self.color@,
            width: self.width,
            height: self.height,
            render_mode: self.render_mode,
            tile_id: self.tile_id,
            tileset_id: self.tileset_id,
        }
    }
}

pub struct DefinitionsView {
    pub tilesets: Seq<TilesetDefView>,
    pub layers: Seq<LayerDefView>,
    pub entities: Seq<EntityDefView>,
}

impl DeepView for Definitions {
    type V = DefinitionsView;

    open spec fn deep_view(&self) -> DefinitionsView {
        DefinitionsView {
            tilesets: self.tilesets.deep_view(),
            layers: self.layers.deep_view(),
            entities: self.entities.deep_view(),
        }
    }
}

pub struct LayerInstanceView {
    pub identifier: Seq<char>,
    pub layer_instance_type: Seq<char>,
    pub c_wid: i64,
    pub c_hei: i64,
    pub grid_size: i64,
    pub layer_def_uid: i64,
    pub tileset_def_uid: Option<i64>,
    pub grid_tiles: Seq<TileInstanceView>,
    pub auto_layer_tiles: Seq<TileInstanceView>,
    pub int_grid_csv: Seq<i64>,
    pub entity_instances: Seq<EntityInstanceView>,
}

impl DeepView for LayerInstance {
    type V = LayerInstanceView;

    open spec fn deep_view(&self) -> LayerInstanceView {
        LayerInstanceView {
            identifier: self.identifier@,
            layer_instance_type: self.layer_instance_type@,
            c_wid: self.c_wid,
            c_hei: self.c_hei,
            grid_size: self.grid_size,
            layer_def_uid: self.layer_def_uid,
            tileset_def_uid: self.tileset_def_uid,
            grid_tiles: self.grid_tiles.deep_view(),
            auto_layer_tiles: self.auto_layer_tiles.deep_view(),
            int_grid_csv: self.int_grid_csv@,
            entity_instances: self.entity_instances.deep_view(),
        }
    }
}

pub struct LevelView {
    pub uid: i64,
    pub identifier: Seq<char>,
    pub world_x: i64,
    pub world_y: i64,
    pub bg_color: Seq<char>,
    pub external_rel_path: Option<Seq<char>>,
    pub layer_instances: Option<Seq<LayerInstanceView>>,
}

impl DeepView for Level {
    type V = LevelView;

    open spec fn deep_view(&self) -> LevelView {
        LevelView {
            uid: self.uid,
            identifier: self.identifier@,
            world_x: self.world_x,
            world_y: self.world_y,
            bg_color: self.bg_color@,
            external_rel_path: self.external_rel_path.deep_view(),
            layer_instances: self.layer_instances.deep_view(),
        }
    }
}

pub struct ProjectView {
    pub defs: DefinitionsView,
    pub levels: Seq<LevelView>,
    pub external_levels: bool,
}

impl DeepView for Project {
    type V = ProjectView;

    open spec fn deep_view(&self) -> ProjectView {
        ProjectView {
            defs: self.defs.deep_view(),
            levels: self.levels.deep_view(),
            external_levels: self.external_levels,
        }
    }
}

} // verus!
