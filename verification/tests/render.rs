use ldtk_render::{
    can_render_projects, classify_layer, convert_to_world, entity_footprint,
    render_single_ldtk_level, ClearColor, Definitions, EntityDef, EntityInstance,
    EntityInstanceTile, EntitySpawn, Extent, ExtraEntDefs, FieldInstance, FilledCell,
    IntGridValueDefinition, Json, LayerDef, LayerInstance, LayerKind, LdtkProject, LdtkProjectLoader,
    LdtkRenderBundle, LdtkRenderedProject, Level, Node, Primitive, Project, RenderMode,
    RenderTree, Rgb, Scale, Sprite, TileInstance, TileRef, TilesetDef, Type, WorldPoint,
};

fn tile(x: i64, y: i64, t: i64, f: i64) -> TileInstance {
    TileInstance { d: vec![t], f, px: vec![x, y], src: vec![0, 0], t }
}

fn layer_instance(kind: &str, def_uid: i64, tileset: Option<i64>, width: i64, cell: i64) -> LayerInstance {
    LayerInstance {
        identifier: kind.to_string(),
        layer_instance_type: kind.to_string(),
        c_wid: width,
        c_hei: 1,
        grid_size: cell,
        layer_def_uid: def_uid,
        tileset_def_uid: tileset,
        grid_tiles: Vec::new(),
        auto_layer_tiles: Vec::new(),
        int_grid_csv: Vec::new(),
        entity_instances: Vec::new(),
    }
}

fn level(uid: i64, bg: &str, world: (i64, i64), layers: Vec<LayerInstance>) -> Level {
    Level {
        uid,
        identifier: format!("Level_{}", uid),
        world_x: world.0,
        world_y: world.1,
        bg_color: bg.to_string(),
        external_rel_path: None,
        layer_instances: Some(layers),
    }
}

fn defs() -> Definitions {
    Definitions {
        tilesets: vec![TilesetDef {
            uid: 1,
            identifier: "Sheet".to_string(),
            rel_path: "sheet.png".to_string(),
            px_wid: 64,
            px_hei: 64,
            tile_grid_size: 8,
        }],
        layers: vec![LayerDef {
            uid: 7,
            identifier: "Collisions".to_string(),
            purple_type: Type::IntGrid,
            int_grid_values: vec![
                IntGridValueDefinition { color: "#FF0000".to_string(), identifier: None },
                IntGridValueDefinition { color: "#00FF00".to_string(), identifier: None },
            ],
        }],
        entities: vec![
            EntityDef {
                uid: 30,
                identifier: "Chest".to_string(),
                color: "#808080".to_string(),
                width: 12,
                height: 20,
                render_mode: RenderMode::Rectangle,
                tile_id: None,
                tileset_id: None,
            },
            EntityDef {
                uid: 31,
                identifier: "Mob".to_string(),
                color: "#808080".to_string(),
                width: 24,
                height: 24,
                render_mode: RenderMode::Tile,
                tile_id: Some(5),
                tileset_id: Some(1),
            },
        ],
    }
}

fn asset(levels: Vec<Level>) -> LdtkProject {
    LdtkProjectLoader
        .resolve(Project { defs: defs(), levels, external_levels: false })
        .ok()
        .unwrap()
}

fn entity_instance(def_uid: i64, grid: (i64, i64)) -> EntityInstance {
    EntityInstance {
        grid: vec![grid.0, grid.1],
        identifier: "Thing".to_string(),
        pivot: vec![0.5f64.to_bits(), 1.0f64.to_bits()],
        tile: Some(EntityInstanceTile { src_rect: vec![0, 0, 8, 8], tileset_uid: 1 }),
        def_uid,
        field_instances: vec![FieldInstance {
            identifier: "loot".to_string(),
            field_instance_type: "Array<Int>".to_string(),
            value: Some(Json::Array(vec![
                Json::Number(Some(3), Some(3.0f64.to_bits())),
                Json::Text("gold".to_string()),
            ])),
            def_uid: 99,
            real_editor_values: vec![None, Some(Json::Bool(true))],
        }],
        height: 20,
        px: vec![grid.0 * 16, grid.1 * 16],
        width: 12,
    }
}

struct Drawn {
    tree: RenderTree,
    clear: ClearColor,
    spawns: Vec<EntitySpawn>,
    root: usize,
}

fn draw(asset: &LdtkProject, level: usize, reposition: bool, attach: bool) -> Drawn {
    assert!(asset.can_render(level, reposition));
    let mut tree = RenderTree::new();
    let mut clear = ClearColor(Rgb { red: 0, green: 0, blue: 0 });
    let mut spawns = Vec::new();
    let root =
        render_single_ldtk_level(&mut tree, &mut clear, level, reposition, 42, asset, &mut spawns, attach);
    Drawn { tree, clear, spawns, root }
}

fn sprite(node: Option<Node>) -> Sprite {
    match node {
        Some(Node { primitive: Primitive::Sprite(s), .. }) => s,
        _ => panic!("a sprite was expected"),
    }
}

fn cell(node: Option<Node>) -> FilledCell {
    match node {
        Some(Node { primitive: Primitive::Cell(c), .. }) => c,
        _ => panic!("a filled cell was expected"),
    }
}

#[test]
fn world_positions_are_centred_and_turned_upright() {
    assert_eq!(convert_to_world(16, 16, 16, 16, 50), WorldPoint { half_x: 16, half_y: -48, z: 50 });
    assert_eq!(convert_to_world(5, 3, 0, 0, -2), WorldPoint { half_x: -5, half_y: -3, z: -2 });
    assert_eq!(convert_to_world(0, 0, -7, -9, 0), WorldPoint { half_x: -14, half_y: 18, z: 0 });
    assert_eq!(
        convert_to_world(i32::MIN, i32::MIN, i32::MAX, i32::MAX, i32::MAX),
        WorldPoint { half_x: 6442450942, half_y: -2147483646, z: 2147483647 }
    );
}

#[test]
fn layer_tags_are_told_apart() {
    assert_eq!(classify_layer(&"Tiles".to_string()), LayerKind::Tiles);
    assert_eq!(classify_layer(&"AutoLayer".to_string()), LayerKind::AutoLayer);
    assert_eq!(classify_layer(&"IntGrid".to_string()), LayerKind::IntGrid);
    assert_eq!(classify_layer(&"Entities".to_string()), LayerKind::Entities);
    assert_eq!(classify_layer(&"tiles".to_string()), LayerKind::Unknown);
    assert_eq!(classify_layer(&"".to_string()), LayerKind::Unknown);
}

#[test]
fn one_tile_becomes_one_sprite_and_the_background_the_clear_color() {
    let mut tiles = layer_instance("Tiles", 6, Some(1), 4, 16);
    tiles.grid_tiles = vec![tile(16, 16, 9, 0)];
    let asset = asset(vec![level(1, "#112233", (100, 200), vec![tiles])]);
    let drawn = draw(&asset, 0, false, false);

    assert_eq!(drawn.clear, ClearColor(Rgb { red: 17, green: 34, blue: 51 }));
    assert_eq!(drawn.root, 0);
    assert_eq!(drawn.tree.len(), 2);
    assert_eq!(
        drawn.tree.get(0),
        Some(Node {
            parent: None,
            primitive: Primitive::Root(LdtkRenderBundle { project: LdtkRenderedProject(42), level: 0 }),
        })
    );
    let node = drawn.tree.get(1).unwrap();
    assert_eq!(node.parent, Some(0));
    let s = sprite(Some(node));
    assert_eq!(s.translation, WorldPoint { half_x: 16, half_y: -48, z: 50 });
    assert_eq!(s.translation.half_x as f32 / 2.0, 8.0);
    assert_eq!(s.translation.half_y as f32 / 2.0, -24.0);
    assert_eq!((s.tileset_uid, s.index, s.flip_x, s.flip_y), (1, 9, false, false));
    assert_eq!(s.source, TileRef { layer: 0, auto: false, tile: 0 });
    assert!(!s.attach_enums);
    assert!(drawn.spawns.is_empty());
    assert_eq!(drawn.tree.children(0), vec![1]);
}

#[test]
fn flip_flags_come_from_the_two_low_bits() {
    let mut tiles = layer_instance("AutoLayer", 6, Some(1), 4, 8);
    tiles.auto_layer_tiles =
        vec![tile(0, 0, 0, 0), tile(8, 0, 1, 1), tile(16, 0, 2, 2), tile(24, 0, 3, 3), tile(32, 0, 4, 4)];
    let asset = asset(vec![level(1, "#000000", (0, 0), vec![tiles])]);
    let drawn = draw(&asset, 0, false, true);
    let flips: Vec<(bool, bool)> = (1..6)
        .map(|i| sprite(drawn.tree.get(i)))
        .map(|s| (s.flip_x, s.flip_y))
        .collect();
    assert_eq!(flips, vec![(false, false), (true, false), (false, true), (true, true), (false, false)]);
    let third = sprite(drawn.tree.get(3));
    assert_eq!(third.source, TileRef { layer: 0, auto: true, tile: 2 });
    assert!(third.attach_enums);
    assert_eq!(third.translation, WorldPoint { half_x: 24, half_y: -8, z: 50 });
}

#[test]
fn int_grid_cells_are_filled_from_the_palette() {
    let mut grid = layer_instance("IntGrid", 7, None, 4, 16);
    grid.int_grid_csv = vec![0, 1, 0, 1];
    let asset = asset(vec![level(1, "#000000", (0, 0), vec![grid])]);
    let drawn = draw(&asset, 0, false, false);
    assert_eq!(drawn.tree.len(), 5);
    let red = Rgb { red: 255, green: 0, blue: 0 };
    let green = Rgb { red: 0, green: 255, blue: 0 };
    let cells: Vec<FilledCell> = (1..5).map(|i| cell(drawn.tree.get(i))).collect();
    let places: Vec<(i32, i32)> = cells.iter().map(|c| (c.column, c.row)).collect();
    assert_eq!(places, vec![(0, 0), (1, 0), (2, 0), (3, 0)]);
    let colors: Vec<Rgb> = cells.iter().map(|c| c.color).collect();
    assert_eq!(colors, vec![red, green, red, green]);
    let values: Vec<usize> = cells.iter().map(|c| c.value).collect();
    assert_eq!(values, vec![0, 1, 0, 1]);
    assert!(cells.iter().all(|c| c.size == 16 && c.layer_uid == 7));
    assert_eq!(cells[0].translation, WorldPoint { half_x: -16, half_y: -16, z: 50 });
    assert_eq!(cells[3].translation, WorldPoint { half_x: 80, half_y: -16, z: 50 });
}

#[test]
fn cells_wrap_to_the_next_row_at_the_grid_width() {
    let mut grid = layer_instance("IntGrid", 7, None, 3, 10);
    grid.int_grid_csv = vec![1, 1, 1, 0, 0, 0, 1];
    let asset = asset(vec![level(1, "#000000", (0, 0), vec![grid])]);
    let drawn = draw(&asset, 0, false, false);
    let places: Vec<(i32, i32)> =
        (1..8).map(|i| cell(drawn.tree.get(i))).map(|c| (c.column, c.row)).collect();
    assert_eq!(places, vec![(0, 0), (1, 0), (2, 0), (0, 1), (1, 1), (2, 1), (0, 2)]);
    let last = cell(drawn.tree.get(7));
    assert_eq!(last.translation, WorldPoint { half_x: -10, half_y: -50, z: 50 });
}

#[test]
fn an_int_grid_layer_with_a_tileset_draws_its_auto_tiles() {
    let mut grid = layer_instance("IntGrid", 7, Some(1), 4, 8);
    grid.int_grid_csv = vec![5, 5, 5, 5];
    grid.auto_layer_tiles = vec![tile(8, 8, 2, 0)];
    let asset = asset(vec![level(1, "#000000", (0, 0), vec![grid])]);
    let drawn = draw(&asset, 0, false, false);
    assert_eq!(drawn.tree.len(), 2);
    let s = sprite(drawn.tree.get(1));
    assert_eq!((s.tileset_uid, s.index), (1, 2));
    assert_eq!(s.source, TileRef { layer: 0, auto: true, tile: 0 });
}

#[test]
fn later_layers_are_drawn_first_and_lie_deeper() {
    let mut back = layer_instance("Tiles", 6, Some(1), 4, 8);
    back.grid_tiles = vec![tile(0, 0, 1, 0)];
    let unknown = layer_instance("Clouds", 6, None, i64::MAX, i64::MAX);
    let mut front = layer_instance("Tiles", 6, Some(1), 4, 8);
    front.grid_tiles = vec![tile(0, 0, 2, 0), tile(8, 0, 3, 0)];
    let asset = asset(vec![level(1, "#000000", (0, 0), vec![back, unknown, front])]);
    let drawn = draw(&asset, 0, false, false);
    assert_eq!(drawn.tree.len(), 4);
    let order: Vec<(i64, i64, usize)> = (1..4)
        .map(|i| sprite(drawn.tree.get(i)))
        .map(|s| (s.index, s.translation.z, s.source.layer))
        .collect();
    assert_eq!(order, vec![(2, 48, 2), (3, 48, 2), (1, 50, 0)]);
}

#[test]
fn a_level_alone_stands_at_the_origin_and_in_the_world_at_its_offset() {
    let mut tiles = layer_instance("Tiles", 6, Some(1), 4, 16);
    tiles.grid_tiles = vec![tile(16, 16, 9, 0)];
    let asset = asset(vec![level(1, "#112233", (100, -200), vec![tiles])]);
    let alone = draw(&asset, 0, false, false);
    assert_eq!(sprite(alone.tree.get(1)).translation, WorldPoint { half_x: 16, half_y: -48, z: 50 });
    let placed = draw(&asset, 0, true, false);
    assert_eq!(sprite(placed.tree.get(1)).translation, WorldPoint { half_x: 216, half_y: 352, z: 50 });
}

#[test]
fn entities_are_announced_and_not_drawn() {
    let mut entities = layer_instance("Entities", 8, None, 4, 16);
    entities.entity_instances = vec![entity_instance(30, (2, 3)), entity_instance(77, (0, 0))];
    let mut tiles = layer_instance("Tiles", 6, Some(1), 4, 16);
    tiles.grid_tiles = vec![tile(0, 0, 1, 0)];
    let asset = asset(vec![level(1, "#000000", (5, 7), vec![tiles, entities])]);
    let drawn = draw(&asset, 0, true, false);
    assert_eq!(drawn.tree.len(), 2);
    assert_eq!(drawn.spawns.len(), 2);

    let chest = &drawn.spawns[0];
    assert_eq!(chest.project, 42);
    assert_eq!(chest.parent_id, drawn.root);
    assert_eq!(chest.size, Extent { width: 12, height: 20 });
    assert_eq!(chest.translation, WorldPoint { half_x: 2 * 37 - 12, half_y: -(2 * 55 + 20), z: 49 });
    assert_eq!(chest.translation.half_x as f64 / 2.0, 31.0);
    assert_eq!(chest.translation.half_y as f64 / 2.0, -65.0);

    let source = &asset.project.levels[0].layer_instances.as_ref().unwrap()[1].entity_instances[0];
    let copy = &chest.entity;
    assert_eq!(copy.grid, source.grid);
    assert_eq!(copy.identifier, source.identifier);
    assert_eq!(copy.pivot, vec![0.5f64.to_bits(), 1.0f64.to_bits()]);
    assert_eq!(copy.tile.as_ref().unwrap().src_rect, vec![0, 0, 8, 8]);
    assert_eq!(copy.tile.as_ref().unwrap().tileset_uid, 1);
    assert_eq!((copy.def_uid, copy.width, copy.height), (30, 12, 20));
    assert_eq!(copy.px, vec![32, 48]);
    assert_eq!(copy.field_instances.len(), 1);
    let field = &copy.field_instances[0];
    assert_eq!(field.identifier, "loot");
    assert_eq!(field.field_instance_type, "Array<Int>");
    assert_eq!(field.def_uid, 99);
    assert_eq!(
        field.value,
        Some(Json::Array(vec![
            Json::Number(Some(3), Some(3.0f64.to_bits())),
            Json::Text("gold".to_string()),
        ]))
    );
    assert_eq!(field.real_editor_values, vec![None, Some(Json::Bool(true))]);

    let unknown = &drawn.spawns[1];
    assert_eq!(unknown.size, Extent { width: 0, height: 0 });
    assert_eq!(unknown.translation, WorldPoint { half_x: 10, half_y: -14, z: 49 });
}

#[test]
fn clones_keep_every_field() {
    let e = entity_instance(30, (2, 3));
    let c = e.clone();
    assert_eq!(c.grid, e.grid);
    assert_eq!(c.field_instances[0].value, e.field_instances[0].value);
    assert_eq!(c.field_instances[0].real_editor_values, e.field_instances[0].real_editor_values);
    let t = tile(3, 4, 5, 2);
    let u = t.clone();
    assert_eq!((u.d, u.f, u.px, u.src, u.t), (vec![5], 2, vec![3, 4], vec![0, 0], 5));
    let rect = EntityInstanceTile { src_rect: vec![1, 2, 3, 4], tileset_uid: 9 }.clone();
    assert_eq!((rect.src_rect, rect.tileset_uid), (vec![1, 2, 3, 4], 9));
    let f = e.field_instances[0].clone();
    assert_eq!((f.identifier.as_str(), f.def_uid), ("loot", 99));
}

#[test]
fn footprints_come_from_the_definition() {
    let p = Project { defs: defs(), levels: Vec::new(), external_levels: false };
    assert_eq!(
        entity_footprint(&p, 30),
        ExtraEntDefs { tile_id: 0, width: 12, height: 20, scale: None }
    );
    assert_eq!(
        entity_footprint(&p, 31),
        ExtraEntDefs {
            tile_id: 5,
            width: 24,
            height: 24,
            scale: Some(Scale { numerator: 24, denominator: 8 }),
        }
    );
    assert_eq!(entity_footprint(&p, 32), ExtraEntDefs { tile_id: 0, width: 0, height: 0, scale: None });
}

#[test]
fn the_hook_is_handed_the_tile_that_a_sprite_shows() {
    let mut tiles = layer_instance("Tiles", 6, Some(1), 4, 16);
    tiles.grid_tiles = vec![tile(0, 0, 1, 0), tile(16, 16, 9, 3)];
    let asset = asset(vec![level(1, "#112233", (0, 0), vec![tiles])]);
    let with_hook = draw(&asset, 0, false, true);
    let s = sprite(with_hook.tree.get(2));
    let data = asset.attach_enums_data(0, &s).unwrap();
    assert!(std::ptr::eq(data.project, &asset));
    assert_eq!(data.tileset_uid, 1);
    assert_eq!((data.tile.t, data.tile.f), (9, 3));
    assert!(asset.attach_enums_data(1, &s).is_none());

    let without_hook = draw(&asset, 0, false, false);
    assert!(asset.attach_enums_data(0, &sprite(without_hook.tree.get(2))).is_none());
}

#[test]
fn what_cannot_be_drawn_is_found_out_beforehand() {
    let ok = asset(vec![level(1, "#112233", (0, 0), Vec::new())]);
    assert!(ok.can_render(0, true));
    assert!(!ok.can_render(1, false));

    assert!(!asset(vec![level(1, "112233", (0, 0), Vec::new())]).can_render(0, false));

    let far = asset(vec![level(1, "#112233", (i64::MAX, 0), Vec::new())]);
    assert!(far.can_render(0, false));
    assert!(!far.can_render(0, true));

    let mut no_sheet = layer_instance("Tiles", 6, None, 4, 16);
    no_sheet.grid_tiles = vec![tile(0, 0, 1, 0)];
    assert!(!asset(vec![level(1, "#112233", (0, 0), vec![no_sheet])]).can_render(0, false));

    let mut short = layer_instance("Tiles", 6, Some(1), 4, 16);
    short.grid_tiles = vec![TileInstance { d: vec![], f: 0, px: vec![3], src: vec![], t: 0 }];
    assert!(!asset(vec![level(1, "#112233", (0, 0), vec![short])]).can_render(0, false));

    let mut beyond = layer_instance("IntGrid", 7, None, 4, 16);
    beyond.int_grid_csv = vec![0, 2];
    assert!(!asset(vec![level(1, "#112233", (0, 0), vec![beyond])]).can_render(0, false));

    let mut negative = layer_instance("IntGrid", 7, None, 4, 16);
    negative.int_grid_csv = vec![-1];
    assert!(!asset(vec![level(1, "#112233", (0, 0), vec![negative])]).can_render(0, false));

    let mut flat = layer_instance("IntGrid", 7, None, 0, 16);
    flat.int_grid_csv = vec![0];
    assert!(!asset(vec![level(1, "#112233", (0, 0), vec![flat])]).can_render(0, false));

    let mut no_palette = layer_instance("IntGrid", 8, None, 4, 16);
    no_palette.int_grid_csv = vec![0];
    assert!(!asset(vec![level(1, "#112233", (0, 0), vec![no_palette])]).can_render(0, false));

    let mut wide = layer_instance("Entities", 8, None, 4, i32::MAX as i64);
    wide.entity_instances = vec![entity_instance(30, (2, 0))];
    assert!(!asset(vec![level(1, "#112233", (0, 0), vec![wide])]).can_render(0, false));

    let mut fine = layer_instance("Entities", 8, None, 4, i32::MAX as i64);
    fine.entity_instances = vec![entity_instance(30, (1, 0))];
    assert!(asset(vec![level(1, "#112233", (0, 0), vec![fine])]).can_render(0, false));

    let unknown = layer_instance("Clouds", 6, None, i64::MAX, i64::MAX);
    assert!(asset(vec![level(1, "#112233", (0, 0), vec![unknown])]).can_render(0, false));

    let none: Vec<ldtk_render::LdtkProjectBundle<u8>> = Vec::new();
    assert!(can_render_projects(&none, &std::collections::HashMap::new()));
}

#[test]
fn destroying_a_root_frees_all_that_stands_under_it() {
    let root = Primitive::Root(LdtkRenderBundle { project: LdtkRenderedProject(1), level: 0 });
    let mut tree = RenderTree::new();
    let a = tree.spawn(None, root);
    let a1 = tree.spawn(Some(a), root);
    let b = tree.spawn(None, root);
    let a2 = tree.spawn(Some(a1), root);
    let b1 = tree.spawn(Some(b), root);
    assert_eq!((a, a1, b, a2, b1), (0, 1, 2, 3, 4));
    assert_eq!(tree.live_count(), 5);
    assert_eq!(tree.children(a), vec![a1]);

    tree.despawn_recursive(a);
    assert_eq!(tree.len(), 5);
    assert_eq!(tree.live_count(), 2);
    assert!(!tree.is_live(a) && !tree.is_live(a1) && !tree.is_live(a2));
    assert!(tree.is_live(b) && tree.is_live(b1));
    assert_eq!(tree.get(b1).unwrap().parent, Some(b));

    tree.despawn_recursive(a);
    tree.despawn_recursive(17);
    assert_eq!(tree.live_count(), 2);
    tree.despawn_recursive(b1);
    assert!(tree.is_live(b) && !tree.is_live(b1));
    assert_eq!(tree.get(9), None);
    assert_eq!(tree.spawn(None, root), 5);
}
