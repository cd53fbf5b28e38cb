//! A project together with the resources derived from it.
//!
//! Every tileset gives an atlas, every declared value of an IntGrid layer a
//! colour material, every entity definition a colour material.  They are
//! derived once, when the project is loaded, and only read afterwards; a
//! reload replaces the project and all of them.

use crate::color::{hex_color, parse_hex_color, Rgb};
use crate::decode::{parsed_project, ParseError};
use crate::label::{
    entity_color_label, entity_color_label_text, layer_color_label, layer_color_label_text,
    tileset_label, tileset_label_text, value_name, value_name_text,
};
use crate::model::{EntityDef, LayerDef, Project, TilesetDef, Type};
use std::collections::HashMap;
use vstd::prelude::*;

verus! {

broadcast use vstd::std_specs::hash::group_hash_axioms;

/// The image of a tileset cut into a grid of cells.
pub struct TextureAtlas {
    /// Name of this resource below its project.
    pub label: String,
    /// The image that the atlas depends on, relative to the directory of the
    /// project file.
    pub image: String,
    /// Edge of a cell, in pixels.
    pub tile_size: i64,
    pub columns: u64,
    pub rows: u64,
}

pub struct TextureAtlasView {
    pub label: Seq<char>,
    pub image: Seq<char>,
    pub tile_size: i64,
    pub columns: u64,
    pub rows: u64,
}

impl View for TextureAtlas {
    type V = TextureAtlasView;

    open spec fn view(&self) -> TextureAtlasView {
        TextureAtlasView {
            label: self.label@,
            image: self.image@,
            tile_size: self.tile_size,
            columns: self.columns,
            rows: self.rows,
        }
    }
}

/// A material of one solid colour.
pub struct ColorMaterial {
    /// Name of this resource below its project.
    pub label: String,
    pub color: Rgb,
}

pub struct ColorMaterialView {
    pub label: Seq<char>,
    pub color: Rgb,
}

impl View for ColorMaterial {
    type V = ColorMaterialView;

    open spec fn view(&self) -> ColorMaterialView {
        ColorMaterialView { label: self.label@, color: self.color }
    }
}

/// A loaded project and its derived resources.
pub struct LdtkProject {
    pub project: Project,
    /// The atlas of each tileset, by the tileset's identifier.
    pub spritesheets: HashMap<i64, TextureAtlas>,
    /// The palette of each IntGrid layer, by the layer definition's
    /// identifier; a declared value's material stands at the value's
    /// position.
    pub int_grid_colors: HashMap<i64, Vec<ColorMaterial>>,
    /// The material of each entity definition, by its identifier.
    pub entity_colors: HashMap<i64, ColorMaterial>,
}

impl LdtkProject {
    /// A project for which nothing is derived yet.
    pub fn new(project: Project) -> (asset: LdtkProject)
        ensures
            asset.project == project,
            asset.spritesheets@ == Map::<i64, TextureAtlas>::empty(),
            asset.int_grid_colors@ == Map::<i64, Vec<ColorMaterial>>::empty(),
            asset.entity_colors@ == Map::<i64, ColorMaterial>::empty(),
    {
        LdtkProject {
            project,
            spritesheets: HashMap::new(),
            int_grid_colors: HashMap::new(),
            entity_colors: HashMap::new(),
        }
    }
}

/// Why a project file could not be loaded.
pub enum LoadError {
    /// The text is not the data of a project.
    Parse(ParseError),
    /// The image of a tileset cannot be cut into cells: its cell size is
    /// not positive, or its width or height is negative.
    Tileset,
    /// A resource could not be derived.
    Resource(ResourceResolutionError),
}

/// A resource could not be derived: the colour of a definition is not
/// written as `#RRGGBB`.
pub enum ResourceResolutionError {
    /// A declared value of an IntGrid layer.
    LayerColor {
        /// Identifier of the layer definition.
        layer: String,
        /// Name of the declared value: its identifier, or `#` and its
        /// position.
        value: String,
        /// The text that is no colour.
        color: String,
    },
    /// An entity definition.
    EntityColor {
        /// Identifier of the entity definition.
        entity: String,
        /// The text that is no colour.
        color: String,
    },
}

pub enum ResourceResolutionErrorView {
    LayerColor { layer: Seq<char>, value: Seq<char>, color: Seq<char> },
    EntityColor { entity: Seq<char>, color: Seq<char> },
}

impl View for ResourceResolutionError {
    type V = ResourceResolutionErrorView;

    open spec fn view(&self) -> ResourceResolutionErrorView {
        match *self {
            ResourceResolutionError::LayerColor {
                layer,
                value,
                color,
            } => ResourceResolutionErrorView::LayerColor {
                layer: layer@,
                value: value@,
                color: color@,
            },
            ResourceResolutionError::EntityColor {
                entity,
                color,
            } => ResourceResolutionErrorView::EntityColor { entity: entity@, color: color@ },
        }
    }
}

/// Whether the image of a tileset can be cut into cells.
pub open spec fn tileset_measurable(tileset: TilesetDef) -> bool {
    &&& tileset.tile_grid_size > 0
    &&& tileset.px_wid >= 0
    &&& tileset.px_hei >= 0
}

/// Whether every tileset of a list can be cut into cells.
pub open spec fn tilesets_measurable(tilesets: Seq<TilesetDef>) -> bool {
    forall|i: int| 0 <= i < tilesets.len() ==> tileset_measurable(#[trigger] tilesets[i])
}

/// The atlas of a tileset: as many columns and rows as whole cells fit into
/// the image.
pub open spec fn atlas_of(tileset: TilesetDef) -> TextureAtlasView {
    TextureAtlasView {
        label: tileset_label(tileset.identifier@),
        image: tileset.rel_path@,
        tile_size: tileset.tile_grid_size,
        columns: (tileset.px_wid / tileset.tile_grid_size) as u64,
        rows: (tileset.px_hei / tileset.tile_grid_size) as u64,
    }
}

/// The atlases of a list of tilesets, by identifier.  Of two tilesets with
/// one identifier the later one counts.
pub open spec fn atlases(tilesets: Seq<TilesetDef>) -> Map<i64, TextureAtlasView>
    decreases tilesets.len(),
{
    if tilesets.len() == 0 {
        Map::empty()
    } else {
        atlases(tilesets.drop_last()).insert(tilesets.last().uid, atlas_of(tilesets.last()))
    }
}

/// Whether the colour of the declared value at `index` is well written.
pub open spec fn value_color_valid(layer: LayerDef, index: int) -> bool {
    hex_color(layer.int_grid_values@[index].color@) is Some
}

/// Whether the colours of all declared values of a layer are well written.
pub open spec fn palette_valid(layer: LayerDef) -> bool {
    forall|i: int| 0 <= i < layer.int_grid_values@.len() ==> #[trigger] value_color_valid(layer, i)
}

/// The material of the declared value at `index`.
pub open spec fn material_of(layer: LayerDef, index: int) -> ColorMaterialView {
    let value = layer.int_grid_values@[index];
    ColorMaterialView {
        label: layer_color_label(layer.identifier@, value_name(value.identifier, index as nat)),
        color: hex_color(value.color@).unwrap(),
    }
}

/// The palette of a layer: one material for each declared value, in the
/// order of declaration.
pub open spec fn palette_of(layer: LayerDef) -> Seq<ColorMaterialView> {
    Seq::new(layer.int_grid_values@.len(), |i: int| material_of(layer, i))
}

/// The palettes of the IntGrid layers of a list, by identifier.  Of two
/// layers with one identifier the later one counts.
pub open spec fn palettes(layers: Seq<LayerDef>) -> Map<i64, Seq<ColorMaterialView>>
    decreases layers.len(),
{
    if layers.len() == 0 {
        Map::empty()
    } else if layers.last().purple_type == Type::IntGrid {
        palettes(layers.drop_last()).insert(layers.last().uid, palette_of(layers.last()))
    } else {
        palettes(layers.drop_last())
    }
}

/// Whether the colours of all IntGrid layers of a list are well written.
pub open spec fn layers_valid(layers: Seq<LayerDef>) -> bool {
    forall|l: int|
        0 <= l < layers.len() && (#[trigger] layers[l]).purple_type == Type::IntGrid
            ==> palette_valid(layers[l])
}

/// The material of an entity definition.
pub open spec fn entity_material_of(entity: EntityDef) -> ColorMaterialView {
    ColorMaterialView {
        label: entity_color_label(entity.identifier@),
        color: hex_color(entity.color@).unwrap(),
    }
}

/// The materials of a list of entity definitions, by identifier.  Of two
/// definitions with one identifier the later one counts.
pub open spec fn entity_materials(entities: Seq<EntityDef>) -> Map<i64, ColorMaterialView>
    decreases entities.len(),
{
    if entities.len() == 0 {
        Map::empty()
    } else {
        entity_materials(entities.drop_last()).insert(
            entities.last().uid,
            entity_material_of(entities.last()),
        )
    }
}

/// Whether the colour of the entity definition at `index` is well written.
pub open spec fn entity_color_valid(entities: Seq<EntityDef>, index: int) -> bool {
    hex_color(entities[index].color@) is Some
}

/// Whether the colours of all entity definitions are well written.
pub open spec fn entities_valid(entities: Seq<EntityDef>) -> bool {
    forall|e: int| 0 <= e < entities.len() ==> #[trigger] entity_color_valid(entities, e)
}

/// Whether `error` reports the declared value `v` of layer `l`, and that
/// value is the first of the project whose colour is not well written.
pub open spec fn reports_layer_color(
    layers: Seq<LayerDef>,
    l: int,
    v: int,
    error: ResourceResolutionErrorView,
) -> bool {
    &&& 0 <= l < layers.len()
    &&& layers[l].purple_type == Type::IntGrid
    &&& 0 <= v < layers[l].int_grid_values@.len()
    &&& !value_color_valid(layers[l], v)
    &&& forall|w: int| 0 <= w < v ==> #[trigger] value_color_valid(layers[l], w)
    &&& layers_valid(layers.take(l))
    &&& error == ResourceResolutionErrorView::LayerColor {
        layer: layers[l].identifier@,
        value: value_name(layers[l].int_grid_values@[v].identifier, v as nat),
        color: layers[l].int_grid_values@[v].color@,
    }
}

/// Whether `error` reports the entity definition `e`, and that definition
/// is the first whose colour is not well written.
pub open spec fn reports_entity_color(
    entities: Seq<EntityDef>,
    e: int,
    error: ResourceResolutionErrorView,
) -> bool {
    &&& 0 <= e < entities.len()
    &&& !entity_color_valid(entities, e)
    &&& forall|d: int| 0 <= d < e ==> #[trigger] entity_color_valid(entities, d)
    &&& error == ResourceResolutionErrorView::EntityColor {
        entity: entities[e].identifier@,
        color: entities[e].color@,
    }
}

/// Whether the resolution of `project` fails with `error`: on the first
/// declared value of an IntGrid layer whose colour is not well written or,
/// where there is none, on the first such entity definition.
pub open spec fn resolution_fails(project: Project, error: ResourceResolutionErrorView) -> bool {
    ||| exists|l: int, v: int| #[trigger] reports_layer_color(project.defs.layers@, l, v, error)
    ||| layers_valid(project.defs.layers@) && exists|e: int| #[trigger]
        reports_entity_color(project.defs.entities@, e, error)
}

/// The atlases that a map holds.
pub open spec fn atlas_views(held: Map<i64, TextureAtlas>) -> Map<i64, TextureAtlasView> {
    held.map_values(|atlas: TextureAtlas| atlas@)
}

/// The materials that a palette holds.
pub open spec fn shades(palette: Vec<ColorMaterial>) -> Seq<ColorMaterialView> {
    Seq::new(palette@.len(), |i: int| palette@[i]@)
}

/// The palettes that a map holds.
pub open spec fn palette_views(held: Map<i64, Vec<ColorMaterial>>) -> Map<
    i64,
    Seq<ColorMaterialView>,
> {
    held.map_values(|palette: Vec<ColorMaterial>| shades(palette))
}

/// The materials that a map holds.
pub open spec fn material_views(held: Map<i64, ColorMaterial>) -> Map<i64, ColorMaterialView> {
    held.map_values(|material: ColorMaterial| material@)
}

/// Whether `asset` holds exactly what is derived from its project.
pub open spec fn resolved(asset: LdtkProject) -> bool {
    &&& atlas_views(asset.spritesheets@) == atlases(asset.project.defs.tilesets@)
    &&& palette_views(asset.int_grid_colors@) == palettes(asset.project.defs.layers@)
    &&& material_views(asset.entity_colors@) == entity_materials(asset.project.defs.entities@)
}

impl Project {
    /// Whether every tileset of the project can be cut into cells.
    pub fn tilesets_measurable(&self) -> (yes: bool)
        ensures
            yes == tilesets_measurable(self.defs.tilesets@),
    {
        let tilesets = &self.defs.tilesets;
        let mut i: usize = 0;
        while i < tilesets.len()
            invariant
                tilesets == &self.defs.tilesets,
                i <= tilesets@.len(),
                forall|k: int| 0 <= k < i ==> tileset_measurable(#[trigger] tilesets@[k]),
            decreases tilesets@.len() - i,
        {
            let tileset = &tilesets[i];
            if tileset.tile_grid_size <= 0 || tileset.px_wid < 0 || tileset.px_hei < 0 {
                assert(!tileset_measurable(tilesets@[i as int]));
                return false;
            }
            i += 1;
        }
        true
    }
}

/// Whether loading the parsed `project` ends in `r`.
pub open spec fn loads_to(project: Project, r: Result<LdtkProject, LoadError>) -> bool {
    if !tilesets_measurable(project.defs.tilesets@) {
        r matches Err(LoadError::Tileset)
    } else {
        match r {
            Ok(asset) => {
                &&& layers_valid(project.defs.layers@)
                &&& entities_valid(project.defs.entities@)
                &&& asset.project == project
                &&& resolved(asset)
            },
            Err(LoadError::Resource(error)) => resolution_fails(project, error@),
            _ => false,
        }
    }
}

/// Derives the resources of a project.
#[derive(Clone, Copy, Debug, Default)]
pub struct LdtkProjectLoader;

impl LdtkProjectLoader {
    /// The palette of an IntGrid layer, or the report of its first declared
    /// value whose colour is not well written.
    fn palette(layer: &LayerDef) -> (r: Result<Vec<ColorMaterial>, ResourceResolutionError>)
        ensures
            r is Ok <==> palette_valid(*layer),
            r matches Ok(colors) ==> shades(colors) == palette_of(*layer),
            r matches Err(error) ==> exists|v: int|
                {
                    &&& 0 <= v < layer.int_grid_values@.len()
                    &&& !(#[trigger] value_color_valid(*layer, v))
                    &&& forall|w: int| 0 <= w < v ==> #[trigger] value_color_valid(*layer, w)
                    &&& error@ == ResourceResolutionErrorView::LayerColor {
                        layer: layer.identifier@,
                        value: value_name(layer.int_grid_values@[v].identifier, v as nat),
                        color: layer.int_grid_values@[v].color@,
                    }
                },
    {
        let mut colors: Vec<ColorMaterial> = Vec::new();
        let values = &layer.int_grid_values;
        let mut ix: usize = 0;
        while ix < values.len()
            invariant
                values == &layer.int_grid_values,
                ix <= values@.len(),
                colors@.len() == ix,
                forall|w: int| 0 <= w < ix ==> #[trigger] value_color_valid(*layer, w),
                forall|w: int| 0 <= w < ix ==> (#[trigger] colors@[w])@ == material_of(*layer, w),
            decreases values@.len() - ix,
        {
            let value = &values[ix];
            let name = value_name_text(&value.identifier, ix);
            match parse_hex_color(value.color.as_str()) {
                Some(color) => {
                    let label = layer_color_label_text(layer.identifier.as_str(), name.as_str());
                    colors.push(ColorMaterial { label, color });
                },
                None => {
                    assert(!value_color_valid(*layer, ix as int));
                    return Err(
                        ResourceResolutionError::LayerColor {
                            layer: layer.identifier.clone(),
                            value: name,
                            color: value.color.clone(),
                        },
                    );
                },
            }
            ix += 1;
        }
        assert(shades(colors) =~= palette_of(*layer));
        Ok(colors)
    }

    /// Derives the atlases and materials of a parsed project.  Fails on the
    /// first colour that is not written as `#RRGGBB`, the declared values of
    /// the IntGrid layers before the entity definitions; nothing is derived
    /// then.
    pub fn resolve(&self, project: Project) -> (r: Result<LdtkProject, ResourceResolutionError>)
        requires
            tilesets_measurable(project.defs.tilesets@),
        ensures
            r is Ok <==> layers_valid(project.defs.layers@) && entities_valid(
                project.defs.entities@,
            ),
            r matches Ok(asset) ==> asset.project == project && resolved(asset),
            r matches Err(error) ==> resolution_fails(project, error@),
    {
        let mut spritesheets: HashMap<i64, TextureAtlas> = HashMap::new();
        let tilesets = &project.defs.tilesets;
        let mut t: usize = 0;
        assert(atlas_views(spritesheets@) =~= atlases(tilesets@.take(0)));
        while t < tilesets.len()
            invariant
                tilesets == &project.defs.tilesets,
                tilesets_measurable(tilesets@),
                t <= tilesets@.len(),
                atlas_views(spritesheets@) == atlases(tilesets@.take(t as int)),
            decreases tilesets@.len() - t,
        {
            let tileset = &tilesets[t];
            assert(tileset_measurable(tilesets@[t as int]));
            let atlas = TextureAtlas {
                label: tileset_label_text(tileset.identifier.as_str()),
                image: tileset.rel_path.clone(),
                tile_size: tileset.tile_grid_size,
                columns: (tileset.px_wid / tileset.tile_grid_size) as u64,
                rows: (tileset.px_hei / tileset.tile_grid_size) as u64,
            };
            assert(atlas@ == atlas_of(*tileset));
            let ghost before = spritesheets@;
            spritesheets.insert(tileset.uid, atlas);
            proof {
                assert(tilesets@.take(t + 1).drop_last() =~= tilesets@.take(t as int));
                assert(atlas_views(spritesheets@) =~= atlas_views(before).insert(
                    tileset.uid,
                    atlas_of(*tileset),
                ));
            }
            t += 1;
        }
        assert(tilesets@.take(t as int) =~= tilesets@);

        let mut int_grid_colors: HashMap<i64, Vec<ColorMaterial>> = HashMap::new();
        let layers = &project.defs.layers;
        let mut l: usize = 0;
        assert(palette_views(int_grid_colors@) =~= palettes(layers@.take(0)));
        while l < layers.len()
            invariant
                layers == &project.defs.layers,
                l <= layers@.len(),
                layers_valid(layers@.take(l as int)),
                palette_views(int_grid_colors@) == palettes(layers@.take(l as int)),
            decreases layers@.len() - l,
        {
            let layer = &layers[l];
            proof {
                assert(layers@.take(l + 1).drop_last() =~= layers@.take(l as int));
            }
            match layer.purple_type {
                Type::IntGrid => {
                    match Self::palette(layer) {
                        Ok(colors) => {
                            let ghost before = int_grid_colors@;
                            int_grid_colors.insert(layer.uid, colors);
                            proof {
                                assert(palette_views(int_grid_colors@) =~= palette_views(
                                    before,
                                ).insert(layer.uid, palette_of(*layer)));
                            }
                        },
                        Err(error) => {
                            proof {
                                let v = choose|v: int|
                                    {
                                        &&& 0 <= v < layer.int_grid_values@.len()
                                        &&& !(#[trigger] value_color_valid(*layer, v))
                                        &&& forall|w: int|
                                            0 <= w < v ==> #[trigger] value_color_valid(*layer, w)
                                        &&& error@ == ResourceResolutionErrorView::LayerColor {
                                            layer: layer.identifier@,
                                            value: value_name(
                                                layer.int_grid_values@[v].identifier,
                                                v as nat,
                                            ),
                                            color: layer.int_grid_values@[v].color@,
                                        }
                                    };
                                assert(reports_layer_color(layers@, l as int, v, error@));
                                assert(!palette_valid(layers@[l as int]));
                            }
                            return Err(error);
                        },
                    }
                },
                _ => {},
            }
            proof {
                let next = layers@.take(l + 1);
                assert forall|k: int|
                    0 <= k < next.len() && (#[trigger] next[k]).purple_type
                        == Type::IntGrid implies palette_valid(next[k]) by {
                    if k < l {
                        assert(layers@.take(l as int)[k] == next[k]);
                    }
                }
            }
            l += 1;
        }
        assert(layers@.take(l as int) =~= layers@);

        let mut entity_colors: HashMap<i64, ColorMaterial> = HashMap::new();
        let entities = &project.defs.entities;
        let mut e: usize = 0;
        assert(material_views(entity_colors@) =~= entity_materials(entities@.take(0)));
        while e < entities.len()
            invariant
                entities == &project.defs.entities,
                layers_valid(project.defs.layers@),
                e <= entities@.len(),
                forall|d: int| 0 <= d < e ==> #[trigger] entity_color_valid(entities@, d),
                material_views(entity_colors@) == entity_materials(entities@.take(e as int)),
            decreases entities@.len() - e,
        {
            let entity = &entities[e];
            match parse_hex_color(entity.color.as_str()) {
                Some(color) => {
                    let material = ColorMaterial {
                        label: entity_color_label_text(entity.identifier.as_str()),
                        color,
                    };
                    let ghost before = entity_colors@;
                    entity_colors.insert(entity.uid, material);
                    proof {
                        assert(entities@.take(e + 1).drop_last() =~= entities@.take(e as int));
                        assert(material_views(entity_colors@) =~= material_views(before).insert(
                            entity.uid,
                            entity_material_of(*entity),
                        ));
                    }
                },
                None => {
                    let error = ResourceResolutionError::EntityColor {
                        entity: entity.identifier.clone(),
                        color: entity.color.clone(),
                    };
                    proof {
                        assert(!entity_color_valid(entities@, e as int));
                        assert(reports_entity_color(entities@, e as int, error@));
                    }
                    return Err(error);
                },
            }
            e += 1;
        }
        assert(entities@.take(e as int) =~= entities@);

        let mut asset = LdtkProject::new(project);
        asset.spritesheets = spritesheets;
        asset.int_grid_colors = int_grid_colors;
        asset.entity_colors = entity_colors;
        Ok(asset)
    }

    /// Reads the text of a project file and derives the resources of the
    /// project.
    pub fn load(&self, bytes: &[u8]) -> (r: Result<LdtkProject, LoadError>)
        ensures
            match parsed_project(bytes@) {
                Err(error) => r matches Err(LoadError::Parse(reported)) && reported == error,
                Ok(read) => exists|project: Project|
                    project.deep_view() == read && #[trigger] loads_to(project, r),
            },
    {
        let project = match Project::load_project(bytes) {
            Ok(project) => project,
            Err(error) => {
                return Err(LoadError::Parse(error));
            },
        };
        let ghost read = project;
        if !project.tilesets_measurable() {
            let r = Err(LoadError::Tileset);
            assert(loads_to(read, r));
            return r;
        }
        let r = match self.resolve(project) {
            Ok(asset) => Ok(asset),
            Err(error) => Err(LoadError::Resource(error)),
        };
        assert(loads_to(read, r));
        r
    }

    /// The file name extensions of project files.
    pub fn extensions(&self) -> (list: Vec<&'static str>)
        ensures
            list@.len() == 1,
            list@[0]@ == "ldtk"@,
    {
        let mut list: Vec<&'static str> = Vec::new();
        list.push("ldtk");
        list
    }
}

impl Project {
    /// Whether no two tilesets, no two layer definitions and no two entity
    /// definitions share an identifier.
    pub open spec fn unique_definitions(&self) -> bool {
        &&& forall|i: int, j: int|
            0 <= i < j < self.defs.tilesets@.len() ==> (#[trigger] self.defs.tilesets@[i]).uid != (
            #[trigger] self.defs.tilesets@[j]).uid
        &&& forall|i: int, j: int|
            0 <= i < j < self.defs.layers@.len() ==> (#[trigger] self.defs.layers@[i]).uid != (
            #[trigger] self.defs.layers@[j]).uid
        &&& forall|i: int, j: int|
            0 <= i < j < self.defs.entities@.len() ==> (#[trigger] self.defs.entities@[i]).uid != (
            #[trigger] self.defs.entities@[j]).uid
    }
}

proof fn lemma_atlases_later_wins(tilesets: Seq<TilesetDef>, i: int)
    requires
        0 <= i < tilesets.len(),
        forall|j: int| i < j < tilesets.len() ==> (#[trigger] tilesets[j]).uid != tilesets[i].uid,
    ensures
        atlases(tilesets).contains_key(tilesets[i].uid),
        atlases(tilesets)[tilesets[i].uid] == atlas_of(tilesets[i]),
    decreases tilesets.len(),
{
    if i < tilesets.len() - 1 {
        assert(tilesets.last() == tilesets[tilesets.len() - 1]);
        lemma_atlases_later_wins(tilesets.drop_last(), i);
    }
}

proof fn lemma_palettes_later_wins(layers: Seq<LayerDef>, l: int)
    requires
        0 <= l < layers.len(),
        layers[l].purple_type == Type::IntGrid,
        forall|j: int| l < j < layers.len() ==> (#[trigger] layers[j]).uid != layers[l].uid,
    ensures
        palettes(layers).contains_key(layers[l].uid),
        palettes(layers)[layers[l].uid] == palette_of(layers[l]),
    decreases layers.len(),
{
    if l < layers.len() - 1 {
        assert(layers.last() == layers[layers.len() - 1]);
        lemma_palettes_later_wins(layers.drop_last(), l);
    }
}

proof fn lemma_entity_materials_later_wins(entities: Seq<EntityDef>, e: int)
    requires
        0 <= e < entities.len(),
        forall|j: int| e < j < entities.len() ==> (#[trigger] entities[j]).uid != entities[e].uid,
    ensures
        entity_materials(entities).contains_key(entities[e].uid),
        entity_materials(entities)[entities[e].uid] == entity_material_of(entities[e]),
    decreases entities.len(),
{
    if e < entities.len() - 1 {
        assert(entities.last() == entities[entities.len() - 1]);
        lemma_entity_materials_later_wins(entities.drop_last(), e);
    }
}

/// An atlas is held for exactly the identifiers of the tilesets.
pub proof fn lemma_atlases_domain(tilesets: Seq<TilesetDef>, uid: i64)
    ensures
        atlases(tilesets).contains_key(uid) <==> exists|i: int|
            0 <= i < tilesets.len() && (#[trigger] tilesets[i]).uid == uid,
    decreases tilesets.len(),
{
    if tilesets.len() > 0 {
        let front = tilesets.drop_last();
        lemma_atlases_domain(front, uid);
        if atlases(tilesets).contains_key(uid) {
            if tilesets.last().uid == uid {
                assert(tilesets[tilesets.len() - 1].uid == uid);
            } else {
                let i = choose|i: int| 0 <= i < front.len() && (#[trigger] front[i]).uid == uid;
                assert(tilesets[i].uid == uid);
            }
        } else {
            assert forall|i: int| 0 <= i < tilesets.len() implies (#[trigger] tilesets[i]).uid
                != uid by {
                if i < front.len() {
                    assert(front[i].uid != uid);
                }
            }
        }
    }
}

/// A palette is held for exactly the identifiers of the IntGrid layers.
pub proof fn lemma_palettes_domain(layers: Seq<LayerDef>, uid: i64)
    ensures
        palettes(layers).contains_key(uid) <==> exists|l: int|
            0 <= l < layers.len() && (#[trigger] layers[l]).uid == uid && layers[l].purple_type
                == Type::IntGrid,
    decreases layers.len(),
{
    if layers.len() > 0 {
        let front = layers.drop_last();
        lemma_palettes_domain(front, uid);
        if palettes(layers).contains_key(uid) {
            if layers.last().uid == uid && layers.last().purple_type == Type::IntGrid {
                assert(layers[layers.len() - 1].uid == uid);
            } else {
                let l = choose|l: int|
                    0 <= l < front.len() && (#[trigger] front[l]).uid == uid && front[l].purple_type
                        == Type::IntGrid;
                assert(layers[l].uid == uid);
            }
        } else {
            assert forall|l: int| 0 <= l < layers.len() implies !((#[trigger] layers[l]).uid == uid
                && layers[l].purple_type == Type::IntGrid) by {
                if l < front.len() {
                    assert(!(front[l].uid == uid && front[l].purple_type == Type::IntGrid));
                }
            }
        }
    }
}

/// Every tileset of a resolved project has its atlas, with as many columns
/// as whole cells fit into the width of the image and as many rows as fit
/// into its height.
pub proof fn lemma_atlas_layout(asset: LdtkProject, i: int)
    requires
        resolved(asset),
        asset.project.unique_definitions(),
        tilesets_measurable(asset.project.defs.tilesets@),
        0 <= i < asset.project.defs.tilesets@.len(),
    ensures
        ({
            let tileset = asset.project.defs.tilesets@[i];
            &&& asset.spritesheets@.contains_key(tileset.uid)
            &&& asset.spritesheets@[tileset.uid]@ == atlas_of(tileset)
            &&& asset.spritesheets@[tileset.uid].columns == tileset.px_wid / tileset.tile_grid_size
            &&& asset.spritesheets@[tileset.uid].rows == tileset.px_hei / tileset.tile_grid_size
        }),
{
    let tilesets = asset.project.defs.tilesets@;
    lemma_atlases_later_wins(tilesets, i);
    assert(atlas_views(asset.spritesheets@).contains_key(tilesets[i].uid));
    assert(tileset_measurable(tilesets[i]));
    assert(0 <= tilesets[i].px_wid / tilesets[i].tile_grid_size <= tilesets[i].px_wid)
        by (nonlinear_arith)
        requires
            tilesets[i].px_wid >= 0,
            tilesets[i].tile_grid_size > 0,
    ;
    assert(0 <= tilesets[i].px_hei / tilesets[i].tile_grid_size <= tilesets[i].px_hei)
        by (nonlinear_arith)
        requires
            tilesets[i].px_hei >= 0,
            tilesets[i].tile_grid_size > 0,
    ;
}

/// Every IntGrid layer of a resolved project has its palette: one material
/// for each declared value, in the order of declaration.
pub proof fn lemma_palette_order(asset: LdtkProject, l: int)
    requires
        resolved(asset),
        asset.project.unique_definitions(),
        0 <= l < asset.project.defs.layers@.len(),
        asset.project.defs.layers@[l].purple_type == Type::IntGrid,
    ensures
        ({
            let layer = asset.project.defs.layers@[l];
            &&& asset.int_grid_colors@.contains_key(layer.uid)
            &&& asset.int_grid_colors@[layer.uid]@.len() == layer.int_grid_values@.len()
            &&& forall|v: int|
                0 <= v < layer.int_grid_values@.len() ==> (
                #[trigger] asset.int_grid_colors@[layer.uid]@[v])@ == material_of(layer, v)
        }),
{
    let layers = asset.project.defs.layers@;
    lemma_palettes_later_wins(layers, l);
    assert(palette_views(asset.int_grid_colors@).contains_key(layers[l].uid));
    let held = shades(asset.int_grid_colors@[layers[l].uid]);
    assert(held == palette_of(layers[l]));
    assert forall|v: int| 0 <= v < layers[l].int_grid_values@.len() implies (
    #[trigger] asset.int_grid_colors@[layers[l].uid]@[v])@ == material_of(layers[l], v) by {
        assert(held[v] == palette_of(layers[l])[v]);
    }
}

/// Every entity definition of a resolved project has its material.
pub proof fn lemma_entity_material(asset: LdtkProject, e: int)
    requires
        resolved(asset),
        asset.project.unique_definitions(),
        0 <= e < asset.project.defs.entities@.len(),
    ensures
        ({
            let entity = asset.project.defs.entities@[e];
            &&& asset.entity_colors@.contains_key(entity.uid)
            &&& asset.entity_colors@[entity.uid]@ == entity_material_of(entity)
        }),
{
    let entities = asset.project.defs.entities@;
    lemma_entity_materials_later_wins(entities, e);
    assert(material_views(asset.entity_colors@).contains_key(entities[e].uid));
}

} // verus!
