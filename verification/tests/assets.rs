use ldtk_render::{
    decimal_text, entity_color_label_text, layer_color_label_text, parse_hex_color,
    tileset_label_text, value_name_text, Definitions, EntityDef, IntGridValueDefinition, LayerDef,
    LdtkProject, LdtkProjectLoader, Project, RenderMode, ResourceResolutionError, Rgb, TilesetDef,
    Type,
};

fn tileset(uid: i64, identifier: &str, wid: i64, hei: i64, cell: i64) -> TilesetDef {
    TilesetDef {
        uid,
        identifier: identifier.to_string(),
        rel_path: format!("{}.png", identifier),
        px_wid: wid,
        px_hei: hei,
        tile_grid_size: cell,
    }
}

fn value(color: &str, identifier: Option<&str>) -> IntGridValueDefinition {
    IntGridValueDefinition {
        color: color.to_string(),
        identifier: identifier.map(|s| s.to_string()),
    }
}

fn layer(uid: i64, identifier: &str, kind: Type, values: Vec<IntGridValueDefinition>) -> LayerDef {
    LayerDef { uid, identifier: identifier.to_string(), purple_type: kind, int_grid_values: values }
}

fn entity(uid: i64, identifier: &str, color: &str) -> EntityDef {
    EntityDef {
        uid,
        identifier: identifier.to_string(),
        color: color.to_string(),
        width: 16,
        height: 16,
        render_mode: RenderMode::Rectangle,
        tile_id: None,
        tileset_id: None,
    }
}

fn project(tilesets: Vec<TilesetDef>, layers: Vec<LayerDef>, entities: Vec<EntityDef>) -> Project {
    Project {
        defs: Definitions { tilesets, layers, entities },
        levels: Vec::new(),
        external_levels: false,
    }
}

#[test]
fn hex_colors_are_read_in_either_case() {
    assert_eq!(parse_hex_color("#112233"), Some(Rgb { red: 17, green: 34, blue: 51 }));
    assert_eq!(parse_hex_color("#FF0000"), Some(Rgb { red: 255, green: 0, blue: 0 }));
    assert_eq!(parse_hex_color("#00ff7f"), Some(Rgb { red: 0, green: 255, blue: 127 }));
    assert_eq!(parse_hex_color("#aBcDeF"), Some(Rgb { red: 171, green: 205, blue: 239 }));
}

#[test]
fn what_is_not_a_hash_and_six_digits_is_no_color() {
    assert_eq!(parse_hex_color("zzzzzz"), None);
    assert_eq!(parse_hex_color(""), None);
    assert_eq!(parse_hex_color("#"), None);
    assert_eq!(parse_hex_color("112233"), None);
    assert_eq!(parse_hex_color("1122334"), None);
    assert_eq!(parse_hex_color("#11223"), None);
    assert_eq!(parse_hex_color("#1122334"), None);
    assert_eq!(parse_hex_color("#11223g"), None);
    assert_eq!(parse_hex_color("#1122\u{e9}3"), None);
    assert_eq!(parse_hex_color("#11 233"), None);
}

#[test]
fn numbers_are_written_in_decimal() {
    assert_eq!(decimal_text(0), "0");
    assert_eq!(decimal_text(7), "7");
    assert_eq!(decimal_text(10), "10");
    assert_eq!(decimal_text(1234567890), "1234567890");
    assert_eq!(decimal_text(usize::MAX), usize::MAX.to_string());
}

#[test]
fn labels_are_stable() {
    assert_eq!(tileset_label_text("Cavernas"), "Tileset Cavernas");
    assert_eq!(layer_color_label_text("Collisions", "walls"), "Layer Color Collisionsxwalls");
    assert_eq!(entity_color_label_text("Player"), "Entity Color Player");
    assert_eq!(value_name_text(&Some("walls".to_string()), 3), "walls");
    assert_eq!(value_name_text(&None, 3), "#3");
    assert_eq!(value_name_text(&None, 12), "#12");
}

#[test]
fn atlas_layout_is_the_floor_of_image_size_over_cell_size() {
    let p = project(
        vec![tileset(1, "Cavernas", 256, 128, 16), tileset(2, "Odd", 100, 37, 16)],
        Vec::new(),
        Vec::new(),
    );
    assert!(p.tilesets_measurable());
    let asset = LdtkProjectLoader.resolve(p).ok().unwrap();
    assert_eq!(asset.spritesheets.len(), 2);
    let first = &asset.spritesheets[&1];
    assert_eq!((first.columns, first.rows, first.tile_size), (16, 8, 16));
    assert_eq!(first.label, "Tileset Cavernas");
    assert_eq!(first.image, "Cavernas.png");
    let second = &asset.spritesheets[&2];
    assert_eq!((second.columns, second.rows), (6, 2));
    assert_eq!(second.label, "Tileset Odd");
}

#[test]
fn tilesets_without_cells_are_told_apart() {
    assert!(!project(vec![tileset(1, "a", 16, 16, 0)], Vec::new(), Vec::new())
        .tilesets_measurable());
    assert!(!project(vec![tileset(1, "a", -16, 16, 16)], Vec::new(), Vec::new())
        .tilesets_measurable());
    assert!(!project(vec![tileset(1, "a", 16, 16, 16), tileset(2, "b", 16, -1, 16)], Vec::new(), Vec::new())
        .tilesets_measurable());
    assert!(project(vec![tileset(1, "a", 0, 0, 1)], Vec::new(), Vec::new()).tilesets_measurable());
}

#[test]
fn palette_has_one_material_per_declared_value_in_order() {
    let p = project(
        Vec::new(),
        vec![
            layer(5, "Ground", Type::Tiles, vec![value("nonsense", None)]),
            layer(
                7,
                "Collisions",
                Type::IntGrid,
                vec![
                    value("#FF0000", Some("walls")),
                    value("#00FF00", None),
                    value("#0000ff", Some("water")),
                ],
            ),
            layer(9, "Empty", Type::IntGrid, Vec::new()),
        ],
        Vec::new(),
    );
    let asset = LdtkProjectLoader.resolve(p).ok().unwrap();
    assert_eq!(asset.int_grid_colors.len(), 2);
    assert!(!asset.int_grid_colors.contains_key(&5));
    assert!(asset.int_grid_colors[&9].is_empty());
    let palette = &asset.int_grid_colors[&7];
    assert_eq!(palette.len(), 3);
    assert_eq!(palette[0].color, Rgb { red: 255, green: 0, blue: 0 });
    assert_eq!(palette[1].color, Rgb { red: 0, green: 255, blue: 0 });
    assert_eq!(palette[2].color, Rgb { red: 0, green: 0, blue: 255 });
    assert_eq!(palette[0].label, "Layer Color Collisionsxwalls");
    assert_eq!(palette[1].label, "Layer Color Collisionsx#1");
    assert_eq!(palette[2].label, "Layer Color Collisionsxwater");
}

#[test]
fn entity_definitions_get_their_material() {
    let p = project(Vec::new(), Vec::new(), vec![entity(3, "Player", "#112233")]);
    let asset = LdtkProjectLoader.resolve(p).ok().unwrap();
    assert_eq!(asset.entity_colors.len(), 1);
    assert_eq!(asset.entity_colors[&3].color, Rgb { red: 17, green: 34, blue: 51 });
    assert_eq!(asset.entity_colors[&3].label, "Entity Color Player");
    assert_eq!(asset.project.defs.entities[0].identifier, "Player");
}

#[test]
fn malformed_entity_color_fails_the_resolution() {
    let p = project(
        vec![tileset(1, "Cavernas", 256, 128, 16)],
        Vec::new(),
        vec![entity(3, "Player", "#112233"), entity(4, "Mob", "zzzzzz"), entity(5, "Bad", "")],
    );
    match LdtkProjectLoader.resolve(p) {
        Err(ResourceResolutionError::EntityColor { entity, color }) => {
            assert_eq!(entity, "Mob");
            assert_eq!(color, "zzzzzz");
        }
        _ => panic!("the resolution should have failed on the entity"),
    }
}

#[test]
fn malformed_layer_color_is_reported_before_entities() {
    let p = project(
        Vec::new(),
        vec![
            layer(7, "Collisions", Type::IntGrid, vec![value("#FF0000", None)]),
            layer(
                8,
                "Water",
                Type::IntGrid,
                vec![value("#00FF00", None), value("00FF00", None), value("bad", Some("x"))],
            ),
        ],
        vec![entity(4, "Mob", "zzzzzz")],
    );
    match LdtkProjectLoader.resolve(p) {
        Err(ResourceResolutionError::LayerColor { layer, value, color }) => {
            assert_eq!(layer, "Water");
            assert_eq!(value, "#1");
            assert_eq!(color, "00FF00");
        }
        _ => panic!("the resolution should have failed on the layer"),
    }
}

#[test]
fn a_named_value_is_reported_by_its_name() {
    let p = project(
        Vec::new(),
        vec![layer(8, "Water", Type::IntGrid, vec![value("blue", Some("deep"))])],
        Vec::new(),
    );
    match LdtkProjectLoader.resolve(p) {
        Err(ResourceResolutionError::LayerColor { layer, value, color }) => {
            assert_eq!((layer.as_str(), value.as_str(), color.as_str()), ("Water", "deep", "blue"));
        }
        _ => panic!("the resolution should have failed on the layer"),
    }
}

#[test]
fn of_two_definitions_with_one_identifier_the_later_counts() {
    let p = project(
        vec![tileset(1, "First", 32, 32, 16), tileset(1, "Second", 64, 64, 16)],
        Vec::new(),
        Vec::new(),
    );
    let asset = LdtkProjectLoader.resolve(p).ok().unwrap();
    assert_eq!(asset.spritesheets.len(), 1);
    assert_eq!(asset.spritesheets[&1].label, "Tileset Second");
    assert_eq!(asset.spritesheets[&1].columns, 4);
}

#[test]
fn a_new_asset_has_nothing_derived() {
    let asset = LdtkProject::new(project(vec![tileset(1, "a", 16, 16, 16)], Vec::new(), Vec::new()));
    assert!(asset.spritesheets.is_empty());
    assert!(asset.int_grid_colors.is_empty());
    assert!(asset.entity_colors.is_empty());
    assert_eq!(asset.project.defs.tilesets.len(), 1);
}

#[test]
fn project_files_end_in_ldtk() {
    assert_eq!(LdtkProjectLoader.extensions(), vec!["ldtk"]);
}
