use ldtk_render::{
    get, level_from, parse_json, project_from, render_single_ldtk_level, ClearColor, FilledCell,
    Json, Level, LoadError, LdtkProjectLoader, Node, ParseError, Primitive, Project, RenderMode,
    RenderTree, ResourceResolutionError, Rgb, Type, WorldPoint,
};

const PROJECT: &str = r##"{
  "jsonVersion": "0.7.2",
  "externalLevels": false,
  "defs": {
    "tilesets": [
      { "uid": 1, "identifier": "Cavernas", "relPath": "atlas/cavernas.png",
        "pxWid": 192, "pxHei": 100, "tileGridSize": 16, "padding": 0 }
    ],
    "layers": [
      { "uid": 7, "identifier": "Collisions", "__type": "IntGrid", "type": "IntGrid",
        "intGridValues": [ { "color": "#FF0000" }, { "color": "#00FF00", "identifier": "grass" } ] },
      { "uid": 8, "identifier": "Ground", "type": "Tiles", "intGridValues": [] }
    ],
    "entities": [
      { "uid": 30, "identifier": "Chest", "color": "#808080", "width": 12, "height": 20,
        "renderMode": "Rectangle", "tileId": null, "tilesetId": null },
      { "uid": 31, "identifier": "Mob", "color": "#FF00FF", "width": 16, "height": 16,
        "renderMode": "Tile", "tileId": 4, "tilesetId": 1 }
    ]
  },
  "levels": [
    { "uid": 100, "identifier": "Entrance", "worldX": 0, "worldY": -256, "__bgColor": "#112233",
      "bgColor": null, "externalRelPath": null,
      "layerInstances": [
        { "__identifier": "Things", "__type": "Entities", "__cWid": 4, "__cHei": 4,
          "__gridSize": 16, "layerDefUid": 9, "__tilesetDefUid": null,
          "gridTiles": [], "autoLayerTiles": [], "intGridCsv": [],
          "entityInstances": [
            { "__identifier": "Chest", "__grid": [1, 2], "__pivot": [0.5, 1], "__tile": null,
              "defUid": 30, "px": [16, 32], "width": 12, "height": 20,
              "fieldInstances": [
                { "__identifier": "loot", "__type": "Array<Int>", "__value": [1, "two", null],
                  "defUid": 99, "realEditorValues": [ null, { "id": "V_Int", "params": [1] } ] }
              ] }
          ] },
        { "__identifier": "Collisions", "__type": "IntGrid", "__cWid": 4, "__cHei": 1,
          "__gridSize": 16, "layerDefUid": 7, "__tilesetDefUid": null,
          "gridTiles": [], "autoLayerTiles": [], "intGridCsv": [0, 1, 0, 1],
          "entityInstances": [] },
        { "__identifier": "Ground", "__type": "Tiles", "__cWid": 4, "__cHei": 4,
          "__gridSize": 16, "layerDefUid": 8, "__tilesetDefUid": 1,
          "gridTiles": [ { "px": [16, 16], "src": [32, 0], "f": 1, "t": 2, "d": [5] } ],
          "autoLayerTiles": [], "intGridCsv": [], "entityInstances": [] }
      ] }
  ]
}"##;

#[test]
fn a_project_file_is_read_member_by_member() {
    let p = Project::load_project(PROJECT.as_bytes()).unwrap();
    assert!(!p.external_levels);

    let sheet = &p.defs.tilesets[0];
    assert_eq!((sheet.uid, sheet.px_wid, sheet.px_hei, sheet.tile_grid_size), (1, 192, 100, 16));
    assert_eq!((sheet.identifier.as_str(), sheet.rel_path.as_str()), ("Cavernas", "atlas/cavernas.png"));

    assert_eq!(p.defs.layers.len(), 2);
    assert_eq!(p.defs.layers[0].purple_type, Type::IntGrid);
    assert_eq!(p.defs.layers[1].purple_type, Type::Tiles);
    assert_eq!(p.defs.layers[0].int_grid_values[0].identifier, None);
    assert_eq!(p.defs.layers[0].int_grid_values[1].identifier, Some("grass".to_string()));
    assert_eq!(p.defs.layers[0].int_grid_values[1].color, "#00FF00");

    let mob = &p.defs.entities[1];
    assert_eq!(mob.render_mode, RenderMode::Tile);
    assert_eq!((mob.tile_id, mob.tileset_id, mob.width, mob.height), (Some(4), Some(1), 16, 16));
    assert_eq!(p.defs.entities[0].render_mode, RenderMode::Rectangle);
    assert_eq!(p.defs.entities[0].tile_id, None);

    let level = &p.levels[0];
    assert_eq!((level.uid, level.world_x, level.world_y), (100, 0, -256));
    assert_eq!(level.bg_color, "#112233");
    assert_eq!(level.external_rel_path, None);
    let layers = level.layer_instances.as_ref().unwrap();
    assert_eq!(layers.len(), 3);
    assert_eq!(layers[0].layer_instance_type, "Entities");
    assert_eq!(layers[1].int_grid_csv, vec![0, 1, 0, 1]);
    assert_eq!((layers[1].c_wid, layers[1].c_hei, layers[1].grid_size), (4, 1, 16));
    assert_eq!(layers[1].tileset_def_uid, None);
    assert_eq!(layers[2].tileset_def_uid, Some(1));
    assert_eq!(layers[2].identifier, "Ground");
    let tile = &layers[2].grid_tiles[0];
    assert_eq!((tile.px.clone(), tile.src.clone(), tile.f, tile.t, tile.d.clone()), (vec![16, 16], vec![32, 0], 1, 2, vec![5]));

    let chest = &layers[0].entity_instances[0];
    assert_eq!(chest.grid, vec![1, 2]);
    assert_eq!(chest.pivot, vec![0.5f64.to_bits(), 1.0f64.to_bits()]);
    assert!(chest.tile.is_none());
    assert_eq!((chest.def_uid, chest.width, chest.height), (30, 12, 20));
    let field = &chest.field_instances[0];
    assert_eq!((field.identifier.as_str(), field.field_instance_type.as_str(), field.def_uid), ("loot", "Array<Int>", 99));
    assert_eq!(
        field.value,
        Some(Json::Array(vec![
            Json::Number(Some(1), Some(1.0f64.to_bits())),
            Json::Text("two".to_string()),
            Json::Null,
        ]))
    );
    assert_eq!(field.real_editor_values.len(), 2);
    assert_eq!(field.real_editor_values[0], None);
    let kept = field.real_editor_values[1].as_ref().unwrap();
    assert_eq!(get(kept, "id"), Some(&Json::Text("V_Int".to_string())));
}

#[test]
fn a_loaded_project_file_is_drawn_as_its_text_says() {
    let asset = LdtkProjectLoader.load(PROJECT.as_bytes()).ok().unwrap();
    assert_eq!(asset.spritesheets[&1].columns, 12);
    assert_eq!(asset.spritesheets[&1].rows, 6);
    assert_eq!(asset.spritesheets[&1].image, "atlas/cavernas.png");
    assert_eq!(asset.int_grid_colors[&7][1].label, "Layer Color Collisionsxgrass");
    assert_eq!(asset.entity_colors[&31].color, Rgb { red: 255, green: 0, blue: 255 });

    assert!(asset.can_render(0, false));
    let mut tree = RenderTree::new();
    let mut clear = ClearColor(Rgb { red: 0, green: 0, blue: 0 });
    let mut spawns = Vec::new();
    let root = render_single_ldtk_level(&mut tree, &mut clear, 0, false, 1, &asset, &mut spawns, false);
    assert_eq!(clear, ClearColor(Rgb { red: 17, green: 34, blue: 51 }));
    assert_eq!(tree.len(), 6);
    match tree.get(1) {
        Some(Node { parent, primitive: Primitive::Sprite(s) }) => {
            assert_eq!(parent, Some(root));
            assert_eq!(s.translation, WorldPoint { half_x: 16, half_y: -48, z: 48 });
            assert_eq!((s.index, s.flip_x, s.flip_y), (2, true, false));
        }
        _ => panic!("a sprite was expected"),
    }
    let cells: Vec<FilledCell> = (2..6)
        .map(|i| match tree.get(i) {
            Some(Node { primitive: Primitive::Cell(c), .. }) => c,
            _ => panic!("a filled cell was expected"),
        })
        .collect();
    let seen: Vec<(i32, i32, u8, u8)> =
        cells.iter().map(|c| (c.column, c.row, c.color.red, c.color.green)).collect();
    assert_eq!(seen, vec![(0, 0, 255, 0), (1, 0, 0, 255), (2, 0, 255, 0), (3, 0, 0, 255)]);
    assert!(cells.iter().all(|c| c.translation.z == 49));
    assert_eq!(spawns.len(), 1);
    assert_eq!(spawns[0].translation, WorldPoint { half_x: 2 * 16 - 12, half_y: -(2 * 32 + 20), z: 50 });
    assert_eq!(spawns[0].entity.identifier, "Chest");
}

#[test]
fn what_is_not_json_is_told_from_what_is_unfit() {
    assert_eq!(Project::load_project(b"{ \"defs\": ").err(), Some(ParseError::NotJson));
    assert_eq!(Project::load_project(b"").err(), Some(ParseError::NotJson));
    assert_eq!(Project::load_project(b"[1, 2").err(), Some(ParseError::NotJson));
    assert_eq!(Project::load_project(b"{}").err(), Some(ParseError::Unfit));
    assert_eq!(Project::load_project(b"[]").err(), Some(ParseError::Unfit));
    assert_eq!(Project::load_project(b"null").err(), Some(ParseError::Unfit));
    assert_eq!(Level::new(b"{\"uid\": 1}").err(), Some(ParseError::Unfit));
    assert_eq!(Level::new(b"nonsense").err(), Some(ParseError::NotJson));

    let minimal = r#"{"externalLevels": false, "levels": [],
        "defs": {"tilesets": [], "layers": [], "entities": []}}"#;
    assert!(Project::load_project(minimal.as_bytes()).is_ok());
    for broken in [
        r#"{"externalLevels": 0, "levels": [], "defs": {"tilesets": [], "layers": [], "entities": []}}"#,
        r#"{"levels": [], "defs": {"tilesets": [], "layers": [], "entities": []}}"#,
        r#"{"externalLevels": false, "levels": {}, "defs": {"tilesets": [], "layers": [], "entities": []}}"#,
        r#"{"externalLevels": false, "levels": [], "defs": {"tilesets": [], "layers": []}}"#,
        r#"{"externalLevels": false, "levels": [], "defs": null}"#,
        r#"{"externalLevels": false, "levels": [7], "defs": {"tilesets": [], "layers": [], "entities": []}}"#,
        r#"{"externalLevels": false, "levels": [], "defs": {"tilesets": [{"uid": 1.5}], "layers": [], "entities": []}}"#,
    ] {
        assert_eq!(Project::load_project(broken.as_bytes()).err(), Some(ParseError::Unfit), "{}", broken);
    }
}

#[test]
fn members_of_the_wrong_type_make_a_level_unfit() {
    let level = |members: &str| {
        format!(r##"{{"uid": 5, "identifier": "L", "worldX": 1, "worldY": 2, "bgColor": "#000000"{}}}"##, members)
    };
    let read = Level::new(level("").as_bytes()).unwrap();
    assert_eq!((read.uid, read.world_x, read.world_y), (5, 1, 2));
    assert!(read.layer_instances.is_none());
    assert!(read.external_rel_path.is_none());

    let stub = Level::new(level(r#", "externalRelPath": "world/L.ldtkl", "layerInstances": null"#).as_bytes()).unwrap();
    assert_eq!(stub.external_rel_path, Some("world/L.ldtkl".to_string()));
    assert!(stub.layer_instances.is_none());

    assert_eq!(Level::new(level(r#", "layerInstances": []"#).as_bytes()).unwrap().layer_instances.unwrap().len(), 0);
    for members in [
        r#", "externalRelPath": 3"#,
        r#", "layerInstances": {}"#,
        r#", "layerInstances": [{}]"#,
        r#", "layerInstances": [{"type": "Tiles", "cWid": 1, "cHei": 1, "gridSize": 8, "layerDefUid": 1, "gridTiles": [], "autoLayerTiles": [], "intGridCsv": [1.5], "entityInstances": []}]"#,
        r#", "layerInstances": [{"type": "Tiles", "cWid": 1, "cHei": 1, "gridSize": 8, "layerDefUid": 1, "gridTiles": [{"px": [0, 0], "t": 1}], "autoLayerTiles": [], "intGridCsv": [], "entityInstances": []}]"#,
        r#", "layerInstances": [{"type": "Tiles", "cWid": 1, "cHei": 1, "gridSize": 8, "layerDefUid": 1, "gridTiles": [], "autoLayerTiles": [], "intGridCsv": [], "entityInstances": [{"defUid": 1}]}]"#,
    ] {
        assert_eq!(Level::new(level(members).as_bytes()).err(), Some(ParseError::Unfit), "{}", members);
    }
    let plain = r#", "layerInstances": [{"type": "Tiles", "cWid": 1, "cHei": 1, "gridSize": 8, "layerDefUid": 1, "gridTiles": [{"px": [0, 0], "t": 1, "f": 0}], "autoLayerTiles": [], "intGridCsv": [], "entityInstances": [{"defUid": 1, "grid": [0, 0]}]}]"#;
    let read = Level::new(level(plain).as_bytes()).unwrap();
    let layer = &read.layer_instances.as_ref().unwrap()[0];
    assert_eq!(layer.identifier, "");
    assert!(layer.grid_tiles[0].d.is_empty() && layer.grid_tiles[0].src.is_empty());
    let entity = &layer.entity_instances[0];
    assert_eq!((entity.width, entity.height, entity.identifier.as_str()), (0, 0, ""));
    assert!(entity.pivot.is_empty() && entity.px.is_empty() && entity.field_instances.is_empty());
}

#[test]
fn numbers_beyond_64_bits_are_no_integers() {
    let level = r##"{"uid": 9223372036854775808, "identifier": "L", "worldX": 0, "worldY": 0, "bgColor": "#000000"}"##;
    assert_eq!(Level::new(level.as_bytes()).err(), Some(ParseError::Unfit));
    let level = r##"{"uid": -9223372036854775808, "identifier": "L", "worldX": 9223372036854775807, "worldY": 0, "bgColor": "#000000"}"##;
    let read = Level::new(level.as_bytes()).unwrap();
    assert_eq!((read.uid, read.world_x), (i64::MIN, i64::MAX));
}

#[test]
fn json_is_copied_into_plain_values() {
    let json = parse_json(br#"{"b": [true, null, -2, 2.5, "x"], "a": {"__k": 1, "n": null}}"#).unwrap();
    assert_eq!(
        json,
        Json::Object(vec![
            (
                "a".to_string(),
                Json::Object(vec![
                    ("__k".to_string(), Json::Number(Some(1), Some(1.0f64.to_bits()))),
                    ("n".to_string(), Json::Null),
                ]),
            ),
            (
                "b".to_string(),
                Json::Array(vec![
                    Json::Bool(true),
                    Json::Null,
                    Json::Number(Some(-2), Some((-2.0f64).to_bits())),
                    Json::Number(None, Some(2.5f64.to_bits())),
                    Json::Text("x".to_string()),
                ]),
            ),
        ])
    );
    assert_eq!(json.clone(), json);
    let a = get(&json, "a").unwrap();
    assert_eq!(get(a, "k"), Some(&Json::Number(Some(1), Some(1.0f64.to_bits()))));
    assert_eq!(get(a, "__k"), Some(&Json::Number(Some(1), Some(1.0f64.to_bits()))));
    assert_eq!(get(a, "n"), None);
    assert_eq!(get(a, "missing"), None);
    assert_eq!(get(&Json::Bool(true), "a"), None);
    assert!(parse_json(b"{").is_none());
    assert!(project_from(&json).is_none());
    assert!(level_from(&json).is_none());
}

#[test]
fn the_plain_name_of_a_member_goes_before_the_marked_one() {
    let json = parse_json(br#"{"__type": "Entities", "type": "Tiles"}"#).unwrap();
    assert_eq!(get(&json, "type"), Some(&Json::Text("Tiles".to_string())));
}

#[test]
fn loading_reports_what_went_wrong() {
    assert!(matches!(LdtkProjectLoader.load(b"{"), Err(LoadError::Parse(ParseError::NotJson))));
    assert!(matches!(LdtkProjectLoader.load(b"{}"), Err(LoadError::Parse(ParseError::Unfit))));
    let flat = PROJECT.replace("\"tileGridSize\": 16", "\"tileGridSize\": 0");
    assert!(matches!(LdtkProjectLoader.load(flat.as_bytes()), Err(LoadError::Tileset)));
    let bad = PROJECT.replace("#FF00FF", "zzzzzz");
    match LdtkProjectLoader.load(bad.as_bytes()) {
        Err(LoadError::Resource(ResourceResolutionError::EntityColor { entity, color })) => {
            assert_eq!((entity.as_str(), color.as_str()), ("Mob", "zzzzzz"));
        }
        _ => panic!("the entity colour should have been reported"),
    }
}
