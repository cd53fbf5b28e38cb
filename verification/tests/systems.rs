use ldtk_render::{
    can_render_projects, ldtk_entity_cleanup, ldtk_hot_reload, remove_target,
    render_ldtk_projects, AssetEvent,
    ClearColor, Definitions, EntitySpawn, LayerInstance, LdtkPlugin, LdtkProject,
    LdtkProjectBundle, LdtkProjectCfg, LdtkProjectLoader, LdtkRenderType, Level, Node, Primitive,
    Project, Rgb, TileInstance, TilesetDef, TreeOf, FULL_WORLD_RENDERED,
};
use std::collections::HashMap;

fn one_tile_level(uid: i64, bg: &str, world_x: i64, tiles: usize) -> Level {
    Level {
        uid,
        identifier: format!("Level_{}", uid),
        world_x,
        world_y: 0,
        bg_color: bg.to_string(),
        external_rel_path: None,
        layer_instances: Some(vec![LayerInstance {
            identifier: "Ground".to_string(),
            layer_instance_type: "Tiles".to_string(),
            c_wid: 4,
            c_hei: 4,
            grid_size: 16,
            layer_def_uid: 6,
            tileset_def_uid: Some(1),
            grid_tiles: (0..tiles)
                .map(|i| TileInstance {
                    d: Vec::new(),
                    f: 0,
                    px: vec![16 * i as i64, 0],
                    src: vec![0, 0],
                    t: uid,
                })
                .collect(),
            auto_layer_tiles: Vec::new(),
            int_grid_csv: Vec::new(),
            entity_instances: Vec::new(),
        }]),
    }
}

fn assets() -> HashMap<u64, LdtkProject> {
    let project = Project {
        defs: Definitions {
            tilesets: vec![TilesetDef {
                uid: 1,
                identifier: "Sheet".to_string(),
                rel_path: "sheet.png".to_string(),
                px_wid: 64,
                px_hei: 64,
                tile_grid_size: 16,
            }],
            layers: Vec::new(),
            entities: Vec::new(),
        },
        levels: vec![one_tile_level(10, "#101010", 0, 1), one_tile_level(11, "#202020", 256, 2)],
        external_levels: false,
    };
    let mut assets = HashMap::new();
    assets.insert(5, LdtkProjectLoader.resolve(project).ok().unwrap());
    assets
}

struct World {
    projects: Vec<LdtkProjectBundle<u8>>,
    assets: HashMap<u64, LdtkProject>,
    clear: ClearColor,
    spawns: Vec<EntitySpawn>,
}

fn world(modes: &[LdtkRenderType]) -> World {
    World {
        projects: modes
            .iter()
            .map(|m| LdtkProjectBundle::new(5, LdtkProjectCfg::new(*m, None)))
            .collect(),
        assets: assets(),
        clear: ClearColor(Rgb { red: 1, green: 2, blue: 3 }),
        spawns: Vec::new(),
    }
}

fn tick(w: &mut World, events: &[AssetEvent]) -> (Vec<TreeOf>, Vec<TreeOf>) {
    let events = events.to_vec();
    let t = LdtkPlugin.update(&events, &mut w.projects, &w.assets, &mut w.clear, &mut w.spawns);
    (t.destroyed, t.created.unwrap())
}

fn live_levels(target: &LdtkProjectBundle<u8>) -> Vec<usize> {
    let tree = target.output();
    (0..tree.len())
        .filter_map(|i| match tree.get(i) {
            Some(Node { primitive: Primitive::Root(bundle), .. }) => Some(bundle.level),
            _ => None,
        })
        .collect()
}

#[test]
fn a_new_target_is_rendered_by_the_first_tick() {
    let mut w = world(&[LdtkRenderType::SingleLevel(0)]);
    assert_eq!(w.projects[0].cfg().rendered(), None);
    assert!(w.projects[0].cfg().is_changed());
    let (destroyed, created) = tick(&mut w, &[]);
    assert!(destroyed.is_empty());
    assert_eq!(created, vec![TreeOf { target: 0, root: 0 }]);
    assert_eq!(w.projects[0].cfg().rendered(), Some(0));
    assert!(!w.projects[0].cfg().is_changed());
    assert_eq!(w.projects[0].roots(), &vec![0]);
    assert_eq!(w.projects[0].output().live_count(), 2);
    assert_eq!(w.clear, ClearColor(Rgb { red: 16, green: 16, blue: 16 }));
}

#[test]
fn a_rendered_target_is_left_alone() {
    let mut w = world(&[LdtkRenderType::SingleLevel(1), LdtkRenderType::FullWorld]);
    tick(&mut w, &[]);
    let before: Vec<usize> = w.projects.iter().map(|t| t.output().len()).collect();
    assert_eq!(before, vec![3, 5]);
    w.clear = ClearColor(Rgb { red: 9, green: 9, blue: 9 });
    for _ in 0..3 {
        let (destroyed, created) = tick(&mut w, &[AssetEvent::Modified { handle: 6 }]);
        assert!(destroyed.is_empty());
        assert!(created.is_empty());
    }
    w.projects[0].set_render_type(LdtkRenderType::SingleLevel(1));
    w.projects[1].set_attach_enums(Some(1));
    assert!(w.projects[0].cfg().is_changed());
    let (destroyed, created) = tick(&mut w, &[AssetEvent::Created { handle: 5 }]);
    assert!(destroyed.is_empty());
    assert!(created.is_empty());
    assert!(!w.projects[0].cfg().is_changed());
    let after: Vec<usize> = w.projects.iter().map(|t| t.output().len()).collect();
    assert_eq!(after, before);
    assert_eq!(w.projects[0].output().live_count(), 3);
    assert_eq!(w.projects[1].output().live_count(), 5);
    assert_eq!(w.clear, ClearColor(Rgb { red: 9, green: 9, blue: 9 }));
    assert_eq!(w.projects[1].cfg().rendered(), Some(FULL_WORLD_RENDERED));
    assert_eq!(w.projects[1].cfg().attach_enums(), &Some(1));
}

#[test]
fn a_mode_switch_destroys_once_and_rebuilds_once() {
    let mut w = world(&[LdtkRenderType::SingleLevel(0)]);
    tick(&mut w, &[]);
    assert_eq!(live_levels(&w.projects[0]), vec![0]);

    w.projects[0].set_render_type(LdtkRenderType::SingleLevel(1));
    assert_eq!(w.projects[0].cfg().render_type(), LdtkRenderType::SingleLevel(1));
    assert_eq!(w.projects[0].cfg().rendered(), Some(0));
    let (destroyed, created) = tick(&mut w, &[]);
    assert_eq!(destroyed, vec![TreeOf { target: 0, root: 0 }]);
    assert_eq!(created, vec![TreeOf { target: 0, root: 2 }]);
    assert_eq!(live_levels(&w.projects[0]), vec![1]);
    assert_eq!(w.projects[0].output().live_count(), 3);
    assert!(!w.projects[0].output().is_live(0));
    assert!(!w.projects[0].output().is_live(1));
    assert_eq!(w.projects[0].roots(), &vec![2]);
    assert_eq!(w.projects[0].cfg().rendered(), Some(1));
    assert_eq!(w.clear, ClearColor(Rgb { red: 32, green: 32, blue: 32 }));

    let (destroyed, created) = tick(&mut w, &[]);
    assert!(destroyed.is_empty() && created.is_empty());
}

#[test]
fn the_whole_world_is_drawn_level_by_level() {
    let mut w = world(&[LdtkRenderType::default()]);
    let (destroyed, created) = tick(&mut w, &[]);
    assert!(destroyed.is_empty());
    assert_eq!(created, vec![TreeOf { target: 0, root: 0 }, TreeOf { target: 0, root: 2 }]);
    assert_eq!(live_levels(&w.projects[0]), vec![0, 1]);
    assert_eq!(w.projects[0].cfg().rendered(), Some(FULL_WORLD_RENDERED));
    assert_eq!(w.clear, ClearColor(Rgb { red: 32, green: 32, blue: 32 }));
    match w.projects[0].output().get(3) {
        Some(Node { parent: Some(2), primitive: Primitive::Sprite(s) }) => {
            assert_eq!(s.translation.half_x, 2 * 256 - 16);
        }
        _ => panic!("a sprite of the second level was expected"),
    }

    w.projects[0].set_render_type(LdtkRenderType::SingleLevel(1));
    let (destroyed, created) = tick(&mut w, &[]);
    assert_eq!(destroyed, vec![TreeOf { target: 0, root: 0 }, TreeOf { target: 0, root: 2 }]);
    assert_eq!(created, vec![TreeOf { target: 0, root: 5 }]);
    assert_eq!(live_levels(&w.projects[0]), vec![1]);

    w.projects[0].set_render_type(LdtkRenderType::FullWorld);
    let (destroyed, created) = tick(&mut w, &[]);
    assert_eq!(destroyed, vec![TreeOf { target: 0, root: 5 }]);
    assert_eq!(created.len(), 2);
    assert_eq!(live_levels(&w.projects[0]), vec![0, 1]);
}

#[test]
fn a_modified_project_is_drawn_anew() {
    let mut w = world(&[LdtkRenderType::SingleLevel(0), LdtkRenderType::SingleLevel(1)]);
    w.projects.push(LdtkProjectBundle::new(6, LdtkProjectCfg::new(LdtkRenderType::FullWorld, None)));
    tick(&mut w, &[]);
    assert_eq!(w.projects[2].cfg().rendered(), None);
    assert_eq!(w.projects[2].output().len(), 0);

    let (destroyed, created) = tick(
        &mut w,
        &[AssetEvent::Removed { handle: 5 }, AssetEvent::Modified { handle: 5 }, AssetEvent::Modified { handle: 5 }],
    );
    assert_eq!(destroyed, vec![TreeOf { target: 0, root: 0 }, TreeOf { target: 1, root: 0 }]);
    assert_eq!(created, vec![TreeOf { target: 0, root: 2 }, TreeOf { target: 1, root: 3 }]);
    assert_eq!(live_levels(&w.projects[0]), vec![0]);
    assert_eq!(live_levels(&w.projects[1]), vec![1]);
    assert_eq!(w.projects[0].output().live_count(), 2);
    assert_eq!(w.projects[1].output().live_count(), 3);
}

#[test]
fn the_phases_can_be_run_one_by_one() {
    let mut w = world(&[LdtkRenderType::SingleLevel(0)]);
    tick(&mut w, &[]);

    let destroyed = ldtk_hot_reload(&vec![AssetEvent::Modified { handle: 5 }], &mut w.projects);
    assert_eq!(destroyed, vec![TreeOf { target: 0, root: 0 }]);
    assert_eq!(w.projects[0].cfg().rendered(), None);
    assert_eq!(w.projects[0].output().live_count(), 0);
    assert!(w.projects[0].roots().is_empty());

    assert!(ldtk_entity_cleanup(&mut w.projects).is_empty());
    assert!(can_render_projects(&w.projects, &w.assets));
    let created = render_ldtk_projects(&mut w.projects, &w.assets, &mut w.clear, &mut w.spawns);
    assert_eq!(created, vec![TreeOf { target: 0, root: 2 }]);

    w.projects[0].set_render_type(LdtkRenderType::SingleLevel(1));
    assert_eq!(ldtk_entity_cleanup(&mut w.projects), vec![TreeOf { target: 0, root: 2 }]);
    assert_eq!(w.projects[0].cfg().rendered(), None);
    assert!(!w.projects[0].cfg().is_changed());
    assert!(ldtk_entity_cleanup(&mut w.projects).is_empty());
    assert_eq!(w.projects[0].invalidate(), Vec::<usize>::new());
    assert_eq!(w.projects[0].cleanup(), Vec::<usize>::new());
}

#[test]
fn a_tick_draws_nothing_when_a_due_level_cannot_be_drawn() {
    let mut w = world(&[LdtkRenderType::SingleLevel(0), LdtkRenderType::SingleLevel(2)]);
    let t = LdtkPlugin.update(&Vec::new(), &mut w.projects, &w.assets, &mut w.clear, &mut w.spawns);
    assert!(t.destroyed.is_empty());
    assert!(t.created.is_none());
    assert_eq!(w.projects[0].cfg().rendered(), None);
    assert_eq!(w.projects[0].output().len(), 0);
    assert!(!w.projects[0].cfg().is_changed());
    assert_eq!(w.clear, ClearColor(Rgb { red: 1, green: 2, blue: 3 }));
}

#[test]
fn a_level_that_cannot_be_drawn_is_found_before_the_render_phase() {
    let mut w = world(&[LdtkRenderType::SingleLevel(2)]);
    assert!(!can_render_projects(&w.projects, &w.assets));
    assert!(!w.assets[&5].can_render_mode(LdtkRenderType::SingleLevel(2)));
    assert!(w.assets[&5].can_render_mode(LdtkRenderType::FullWorld));
    w.projects[0].set_render_type(LdtkRenderType::SingleLevel(1));
    assert!(can_render_projects(&w.projects, &w.assets));
    assert_eq!(w.projects[0].ldtk_project(), 5);
}

#[test]
fn removing_a_target_destroys_its_output() {
    let mut w = world(&[LdtkRenderType::SingleLevel(0), LdtkRenderType::FullWorld]);
    tick(&mut w, &[]);
    assert!(remove_target(&mut w.projects, 2).is_none());
    assert_eq!(w.projects.len(), 2);

    let (gone, destroyed) = remove_target(&mut w.projects, 1).unwrap();
    assert_eq!(destroyed, vec![0, 2]);
    assert_eq!(gone.output().live_count(), 0);
    assert_eq!(gone.output().len(), 5);
    assert_eq!(gone.cfg().rendered(), None);
    assert!(gone.roots().is_empty());
    assert_eq!(w.projects.len(), 1);
    assert_eq!(w.projects[0].cfg().render_type(), LdtkRenderType::SingleLevel(0));
    assert_eq!(w.projects[0].output().live_count(), 2);
}

#[test]
fn the_default_configuration_shows_the_whole_world() {
    let cfg: LdtkProjectCfg<u8> = LdtkProjectCfg::default();
    assert_eq!(cfg.render_type(), LdtkRenderType::FullWorld);
    assert_eq!(cfg.attach_enums(), &None);
    assert_eq!(cfg.rendered(), None);
    assert!(cfg.is_changed());

    let mut cfg = LdtkProjectCfg::new(LdtkRenderType::SingleLevel(3), Some(7u8));
    assert_eq!(cfg.attach_enums(), &Some(7));
    cfg.set_attach_enums(None);
    cfg.set_render_type(LdtkRenderType::FullWorld);
    assert_eq!(cfg.render_type(), LdtkRenderType::FullWorld);
    assert_eq!(cfg.attach_enums(), &None);
}

#[test]
fn sprites_ask_for_the_hook_only_where_one_is_installed() {
    let mut w = world(&[LdtkRenderType::SingleLevel(0), LdtkRenderType::SingleLevel(0)]);
    w.projects[1].set_attach_enums(Some(1));
    tick(&mut w, &[]);
    let asks: Vec<bool> = w
        .projects
        .iter()
        .map(|t| match t.output().get(1) {
            Some(Node { primitive: Primitive::Sprite(s), .. }) => s.attach_enums,
            _ => panic!("a sprite was expected"),
        })
        .collect();
    assert_eq!(asks, vec![false, true]);
}
