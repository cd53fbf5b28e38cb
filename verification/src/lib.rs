//! Tile-map projects in the LDtk format, prepared for drawing.
//!
//! The crate reads a project file into a model (`json`, `decode`, `model`,
//! `loader`), derives the atlases and colour materials that drawing needs
//! (`assets`, `color`, `label`), and keeps, for every render target, trees
//! of draw primitives that are rebuilt exactly when the project or the
//! target's configuration changes (`render`, `draw`, `ready`, `tree`,
//! `target`, `systems`).  All of it is plain data: a host engine mirrors the
//! trees and forwards the entity-spawn notifications.
//!
//! Positions are whole numbers of half pixels, so nothing here computes
//! with floating point.  JSON text is read by `serde_json`; that call is
//! the one thing that is taken on trust.

pub mod assets;
pub mod color;
pub mod decode;
pub mod draw;
pub mod json;
pub mod label;
pub mod loader;
pub mod model;
pub mod ready;
pub mod render;
pub mod systems;
pub mod target;
pub mod tree;

pub use assets::{
    ColorMaterial, ColorMaterialView, LdtkProject, LdtkProjectLoader, LoadError,
    ResourceResolutionError, ResourceResolutionErrorView, TextureAtlas, TextureAtlasView,
};
pub use color::{parse_hex_color, Rgb};
pub use decode::{get, level_from, project_from, ParseError};
pub use draw::{
    classify_layer, convert_to_world, display_color, display_entity, display_tile,
    entity_footprint, render_layer, render_single_ldtk_level,
};
pub use json::{parse_json, Json, JsonView};
pub use label::{
    decimal_text, entity_color_label_text, layer_color_label_text, tileset_label_text,
    value_name_text,
};
pub use loader::MissingExternalLevelError;
pub use model::{
    Definitions, DefinitionsView, EntityDef, EntityDefView, EntityInstance, EntityInstanceTile,
    EntityInstanceTileView, EntityInstanceView, FieldInstance, FieldInstanceView,
    IntGridValueDefinition, IntGridValueDefinitionView, LayerDef, LayerDefView, LayerInstance,
    LayerInstanceView, Level, LevelView, Project, ProjectView, RenderMode, TileInstance,
    TileInstanceView, TilesetDef, TilesetDefView, Type,
};
pub use ready::{
    can_render_projects, cell_can_fit, cells_can_draw, entities_can_draw, entity_can_fit,
    layer_can_draw, tile_can_fit, tiles_can_draw,
};
pub use render::{
    AttachEnumsData, ClearColor, EntitySpawn, EntitySpawnView, Extent, ExtraEntDefs, LayerInfo,
    LayerKind, LevelInfo, Scale, DEPTH_BASE,
};
pub use systems::{
    ldtk_entity_cleanup, ldtk_hot_reload, remove_target, render_ldtk_projects, AssetEvent,
    LdtkPlugin, Tick, TreeOf,
};
pub use target::{
    LdtkProjectBundle, LdtkProjectBundleView, LdtkProjectCfg, LdtkProjectCfgView, LdtkRenderType,
    FULL_WORLD_RENDERED,
};
pub use tree::{
    FilledCell, LdtkRenderBundle, LdtkRenderedProject, Node, Primitive, RenderTree, Sprite,
    TileRef, WorldPoint,
};
