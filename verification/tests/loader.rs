use ldtk_render::{Definitions, Level, MissingExternalLevelError, Project};

fn level(uid: i64, path: Option<&str>) -> Level {
    Level {
        uid,
        identifier: format!("Level_{}", uid),
        world_x: 0,
        world_y: 0,
        bg_color: "#000000".to_string(),
        external_rel_path: path.map(|p| p.to_string()),
        layer_instances: if path.is_some() { None } else { Some(Vec::new()) },
    }
}

fn project(levels: Vec<Level>, external_levels: bool) -> Project {
    Project {
        defs: Definitions { tilesets: Vec::new(), layers: Vec::new(), entities: Vec::new() },
        levels,
        external_levels,
    }
}

#[test]
fn get_level_finds_first_match() {
    let p = project(vec![level(7, None), level(9, None), level(7, None)], false);
    assert_eq!(p.get_level(9).map(|l| l.identifier.clone()), Some("Level_9".to_string()));
    assert!(std::ptr::eq(p.get_level(7).unwrap(), &p.levels[0]));
    assert!(p.get_level(8).is_none());
}

#[test]
fn clear_levels_empties_the_list() {
    let mut p = project(vec![level(1, None)], false);
    p.clear_levels();
    assert!(p.levels.is_empty());
    assert!(!p.external_levels);
}

#[test]
fn inline_levels_are_kept_as_they_are() {
    let p = project(vec![level(1, None), level(2, None)], false);
    let p = Project::new(p, Vec::new()).unwrap();
    assert_eq!(p.levels.len(), 2);
    assert_eq!(p.levels[0].uid, 1);
    assert_eq!(p.levels[1].uid, 2);
    assert!(p.levels[0].layer_instances.is_some());
}

#[test]
fn external_levels_replace_their_stubs_in_order() {
    let p = project(vec![level(1, Some("a.ldtkl")), level(2, Some("b.ldtkl"))], true);
    assert_eq!(
        p.external_level_paths(),
        vec![Some("a.ldtkl".to_string()), Some("b.ldtkl".to_string())]
    );
    let p = Project::new(p, vec![Some(level(10, None)), Some(level(20, None))]).unwrap();
    assert_eq!(p.levels.len(), 2);
    assert_eq!(p.levels[0].uid, 10);
    assert_eq!(p.levels[1].uid, 20);
    assert!(p.levels.iter().all(|l| l.layer_instances.is_some()));
}

#[test]
fn a_missing_external_level_aborts_the_load() {
    let p = project(vec![level(1, Some("a.ldtkl")), level(2, Some("b.ldtkl"))], true);
    let r = Project::new(p, vec![Some(level(10, None)), None]);
    assert_eq!(r.err(), Some(MissingExternalLevelError { level: 1 }));

    let p = project(vec![level(1, Some("a.ldtkl")), level(2, None)], true);
    let r = Project::new(p, vec![Some(level(10, None)), Some(level(20, None))]);
    assert_eq!(r.err(), Some(MissingExternalLevelError { level: 1 }));

    let mut p = project(vec![level(1, Some("a.ldtkl"))], true);
    assert_eq!(p.load_external_levels(Vec::new()), Err(MissingExternalLevelError { level: 0 }));
    assert_eq!(p.levels.len(), 1);
    assert_eq!(p.levels[0].uid, 1);
}

#[test]
fn inline_projects_name_no_files() {
    let p = project(vec![level(1, Some("a.ldtkl"))], false);
    assert!(p.external_level_paths().is_empty());
}
