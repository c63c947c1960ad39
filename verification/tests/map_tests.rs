use cdda_map_editor::common::{MeabyMulti, MeabyWeighted, Weighted};
use cdda_map_editor::coordinates::Coordinates;
use cdda_map_editor::loader::{can_load, names_terrain, MapEntityLoader, MapEntityType, MapgenDefinition, MapgenObject};
use cdda_map_editor::map::{ComputedParameters, MapEntity, Tile, TileMap};
use cdda_map_editor::palettes::{CDDAData, MapObjectId, MeabyParam, Palette};
use cdda_map_editor::region_settings::{RegionSettings, RegionSettingsLoader, TerrainAndFurniture};
use rand::SeedableRng;
use cdda_map_editor::palettes::get_tile_id_from_character;

fn rng() -> rand::rngs::StdRng {
    rand::rngs::StdRng::seed_from_u64(1)
}

fn id(s: &str) -> MapObjectId<MeabyParam> {
    MapObjectId::Single(MeabyWeighted::NotWeighted(MeabyParam::TileId(s.to_string())))
}

#[test]
fn tile_map_reads_back_what_was_placed() {
    let mut m = TileMap::new();
    assert_eq!(m.len(), 0);
    m.insert(Coordinates::new(1, 2), Tile::from('a'));
    m.insert(Coordinates::new(3, 4), Tile::from('b'));
    m.insert(Coordinates::new(1, 2), Tile::from('c'));
    assert_eq!(m.len(), 2);
    assert_eq!(m.get(&Coordinates::new(1, 2)).unwrap().character, 'c');
    assert_eq!(m.get(&Coordinates::new(3, 4)).unwrap().character, 'b');
    assert!(m.get(&Coordinates::new(0, 0)).is_none());
    assert_eq!(m.remove(&Coordinates::new(1, 2)).unwrap().character, 'c');
    assert!(m.get(&Coordinates::new(1, 2)).is_none());
    assert!(m.remove(&Coordinates::new(1, 2)).is_none());
    assert_eq!(m.len(), 1);
}

#[test]
fn map_entity_neighbours_are_top_right_below_left() {
    let mut e = MapEntity::new("house".to_string());
    assert_eq!(e.size(), (24, 24));
    e.set_tile(Coordinates::new(5, 4), Tile::from('n'));
    e.set_tile(Coordinates::new(6, 5), Tile::from('e'));
    e.set_tile(Coordinates::new(4, 5), Tile::from('w'));
    let around = e.get_tiles_around(&Coordinates::new(5, 5));
    let chars: Vec<Option<char>> = around.iter().map(|(t, _)| t.map(|t| t.character)).collect();
    assert_eq!(chars, vec![Some('n'), Some('e'), None, Some('w')]);
    assert_eq!(around[2].1, Coordinates::new(5, 6));
    assert_eq!(e.remove_tile(&Coordinates::new(6, 5)).unwrap().character, 'e');
    assert!(e.tiles().get(&Coordinates::new(6, 5)).is_none());
}

#[test]
fn ids_come_from_the_map_then_its_palettes() {
    let mut e = MapEntity::new("house".to_string());
    let mut palette = Palette::default();
    palette.id = "pal".to_string();
    palette.terrain.push(('g', id("t_grass")));
    palette.terrain.push(('w', id("t_palette_wall")));
    palette.furniture.push(('c', id("f_chair")));
    if let MapEntity::Single(s) = &mut e {
        s.tile_selection.terrain.push(('w', id("t_wall")));
        s.tile_selection.palettes.push(MapObjectId::Single(MeabyWeighted::NotWeighted(MeabyParam::TileId("pal".to_string()))));
    }
    let cdda = CDDAData::from_palettes(vec![palette]);
    let mut r = rng();
    let w = e.get_ids(&cdda, &'w', &mut r);
    assert_eq!(w.terrain.as_deref(), Some("t_wall"));
    assert!(w.furniture.is_none());
    let g = e.get_ids(&cdda, &'g', &mut r);
    assert_eq!(g.terrain.as_deref(), Some("t_grass"));
    let c = e.get_ids(&cdda, &'c', &mut r);
    assert_eq!(c.furniture.as_deref(), Some("f_chair"));
    assert!(c.terrain.is_none());
    let x = e.get_ids(&cdda, &'x', &mut r);
    assert!(x.terrain.is_none() && x.furniture.is_none() && x.toilet.is_none() && x.item.is_none());
}

#[test]
fn later_palettes_with_the_same_id_win() {
    let mut a = Palette::default();
    a.id = "p".to_string();
    a.terrain.push(('a', id("t_a")));
    let mut b = Palette::default();
    b.id = "p".to_string();
    b.terrain.push(('b', id("t_b")));
    let cdda = CDDAData::from_palettes(vec![a, b]);
    assert_eq!(cdda.palettes.len(), 1);
    assert_eq!(cdda.palettes[0].1.terrain[0].0, 'b');
}

#[test]
fn computed_parameters_search_own_values_then_palettes() {
    let inner = ComputedParameters { this: vec![("p".to_string(), "from_palette".to_string()), ("q".to_string(), "q1".to_string())], palettes: vec![] };
    let cp = ComputedParameters { this: vec![("p".to_string(), "own".to_string())], palettes: vec![("pal".to_string(), inner)] };
    assert_eq!(cp.get_value(&"p".to_string()).unwrap(), "own");
    assert_eq!(cp.get_value(&"q".to_string()).unwrap(), "q1");
    assert!(cp.get_value(&"z".to_string()).is_none());
}

#[test]
fn loader_reads_the_first_entry_for_the_terrain() {
    let def = |rows: Vec<&str>| MapgenDefinition {
        parameters: vec![],
        rows: rows.into_iter().map(|r| r.to_string()).collect(),
        mapgensize: None,
        palettes: vec![],
        terrain: vec![],
        furniture: vec![],
        fill_ter: Some("t_dirt".to_string()),
    };
    let objects = vec![
        MapgenObject { om_terrain: Some(MapObjectId::Single(MeabyWeighted::NotWeighted("field".to_string()))), object: Some(def(vec!["x"])) },
        MapgenObject { om_terrain: Some(MapObjectId::Single(MeabyWeighted::NotWeighted("house".to_string()))), object: Some(def(vec!["ab", "c"])) },
        MapgenObject { om_terrain: Some(MapObjectId::Single(MeabyWeighted::NotWeighted("house".to_string()))), object: Some(def(vec!["zz"])) },
    ];
    let loader = MapEntityLoader::new("file.json".to_string(), "house".to_string());
    let cdda = CDDAData::from_palettes(vec![]);
    let mut r = rng();
    let loaded = loader.load(objects, &cdda, &mut r).unwrap();
    match loaded.map_type {
        MapEntityType::Default { om_terrain, weight } => assert_eq!((om_terrain.as_str(), weight), ("house", 100)),
        _ => panic!("expected a single terrain"),
    }
    match loaded.entity {
        MapEntity::Single(s) => {
            assert_eq!(s.om_terrain, "house");
            assert_eq!(s.size, (24, 24));
            assert_eq!(s.tiles.len(), 3);
            assert_eq!(s.tiles.get(&Coordinates::new(1, 0)).unwrap().character, 'b');
            assert_eq!(s.tiles.get(&Coordinates::new(0, 1)).unwrap().character, 'c');
            assert_eq!(s.tile_selection.fill_ter.as_deref(), Some("t_dirt"));
        },
        _ => panic!("expected a single map object"),
    }
}

#[test]
fn region_settings_draw_tiles_from_regions() {
    let settings = RegionSettings {
        id: "default".to_string(),
        default_oter: vec![],
        default_groundcover: vec![Weighted::new("t_grass".to_string(), 1)],
        region_terrain_and_furniture: TerrainAndFurniture {
            terrain: vec![
                ("t_region_soil".to_string(), vec![("t_region_inner".to_string(), 1), ("t_sand".to_string(), 0)]),
                ("t_region_inner".to_string(), vec![("t_dirt".to_string(), 5)]),
            ],
            furniture: vec![("f_region_flower".to_string(), vec![("f_rose".to_string(), 2), ("f_tulip".to_string(), 2)])],
        },
    };
    let mut r = rng();
    for _ in 0..10 {
        assert_eq!(settings.get_random_terrain_from_region(&"t_region_soil".to_string(), &mut r).unwrap(), "t_dirt");
        let f = settings.get_random_furniture_from_region(&"f_region_flower".to_string(), &mut r).unwrap();
        assert!(f == "f_rose" || f == "f_tulip");
    }
    assert!(settings.get_random_terrain_from_region(&"t_grass".to_string(), &mut r).is_none());
}

#[test]
fn region_settings_loader_selects_the_object_with_the_id() {
    let loader = RegionSettingsLoader::new("regional_map_settings.json".to_string(), "default".to_string());
    let ids = vec![Some("other".to_string()), Some("default".to_string()), Some("default".to_string())];
    assert_eq!(loader.select(&ids), Some(1));
    assert_eq!(loader.select(&vec![None, Some("default".to_string())]), None);
    assert_eq!(loader.select(&vec![Some("x".to_string())]), None);
}

#[test]
fn meaby_values() {
    assert_eq!(MeabyMulti::Single(3).single(), 3);
    assert_eq!(MeabyMulti::Multi(vec![1, 2]).multi(), vec![1, 2]);
    assert_eq!(*MeabyWeighted::NotWeighted(4).value(), 4);
    assert_eq!(*MeabyWeighted::Weighted(Weighted::new(5, 9)).value(), 5);
    assert_eq!(MeabyWeighted::Weighted(Weighted::new(5, 9)).weighted().weight, 9);
    assert_eq!(MeabyWeighted::NotWeighted(6).not_weighted(), 6);
}

#[test]
fn set_tile_at_keeps_a_placed_tile() {
    let mut e = MapEntity::new("m".to_string());
    let placed = e.set_tile_at('a', (1, 1)).unwrap();
    assert_eq!(placed.character, 'a');
    assert!(e.set_tile_at('b', (1, 1)).is_none());
    assert_eq!(e.tiles().get(&Coordinates::new(1, 1)).unwrap().character, 'a');
}

#[test]
fn tile_id_from_character_reads_the_first_palette_that_maps_it() {
    let mut a = Palette::default();
    a.terrain.push(('x', id("t_x")));
    let mut b = Palette::default();
    b.terrain.push(('y', id("t_y")));
    b.terrain.push(('x', id("t_other")));
    b.terrain.push(('z', MapObjectId::Grouped(vec![])));
    let palettes = vec![a, b];
    assert_eq!(get_tile_id_from_character(&palettes, &'x').unwrap(), "t_x");
    assert_eq!(get_tile_id_from_character(&palettes, &'y').unwrap(), "t_y");
    assert!(get_tile_id_from_character(&palettes, &'z').is_none());
    assert_eq!(get_tile_id_from_character(&palettes, &'q').unwrap(), "TODO_IMPLEMENT_DEFAULT");
}

fn definition(rows: Vec<&str>) -> MapgenDefinition {
    MapgenDefinition {
        parameters: vec![],
        rows: rows.into_iter().map(|r| r.to_string()).collect(),
        mapgensize: None,
        palettes: vec![],
        terrain: vec![],
        furniture: vec![],
        fill_ter: None,
    }
}

#[test]
fn loader_reads_a_field() {
    let objects = vec![MapgenObject {
        om_terrain: Some(MapObjectId::Single(MeabyWeighted::NotWeighted("field".to_string()))),
        object: Some(definition(vec!["ab", "cd"])),
    }];
    let loader = MapEntityLoader::new("f.json".to_string(), "field".to_string());
    let loaded = loader.load(objects, &CDDAData::from_palettes(vec![]), &mut rng()).unwrap();
    assert!(matches!(&loaded.map_type, MapEntityType::Default { om_terrain, weight: 100 } if om_terrain == "field"));
    match loaded.entity {
        MapEntity::Single(s) => {
            assert_eq!(s.size, (24, 24));
            assert_eq!(s.tiles.len(), 4);
            for (x, y, c) in [(0, 0, 'a'), (1, 0, 'b'), (0, 1, 'c'), (1, 1, 'd')] {
                assert_eq!(*s.tiles.get(&Coordinates::new(x, y)).unwrap(), Tile::from(c));
            }
            assert!(s.tile_selection.fill_ter.is_none());
            assert!(s.tile_selection.palettes.is_empty());
        },
        _ => panic!("expected a single map object"),
    }
}

#[test]
fn loader_keeps_how_a_group_is_placed() {
    let grouped = |ids: Vec<&str>| MapObjectId::Grouped(ids.into_iter().map(|i| MeabyWeighted::NotWeighted(i.to_string())).collect());
    let nested = MapObjectId::Nested(vec![
        vec![MeabyWeighted::NotWeighted("a".to_string()), MeabyWeighted::NotWeighted("b".to_string())],
    ]);
    let objects = vec![
        MapgenObject { om_terrain: Some(nested), object: Some(definition(vec!["x"])) },
        MapgenObject { om_terrain: Some(grouped(vec!["h1", "h2"])), object: Some(definition(vec!["y"])) },
    ];
    assert!(names_terrain(&objects, &"h2".to_string()));
    assert!(names_terrain(&objects, &"b".to_string()));
    assert!(!names_terrain(&objects, &"zz".to_string()));
    let loader = MapEntityLoader::new("f.json".to_string(), "h2".to_string());
    let grid_loader = MapEntityLoader::new("f.json".to_string(), "b".to_string());
    let objects_again = vec![
        MapgenObject {
            om_terrain: Some(MapObjectId::Nested(vec![
                vec![MeabyWeighted::NotWeighted("a".to_string()), MeabyWeighted::NotWeighted("b".to_string())],
            ])),
            object: Some(definition(vec!["x"])),
        },
    ];
    match grid_loader.load(objects_again, &CDDAData::from_palettes(vec![]), &mut rng()).unwrap().entity {
        // the matched grid is two terrains wide and one high
        MapEntity::Single(s) => assert_eq!(s.size, (48, 24)),
        _ => panic!("expected a single map object"),
    }
    let loaded = loader.load(objects, &CDDAData::from_palettes(vec![]), &mut rng()).unwrap();
    match loaded.map_type {
        MapEntityType::Multi { om_terrain, weight } => assert_eq!((om_terrain, weight), (vec!["h1".to_string(), "h2".to_string()], 100)),
        _ => panic!("expected a list of terrains"),
    }
    match loaded.entity {
        // an earlier grid that does not match leaves the size at 24 by 24
        MapEntity::Single(s) => assert_eq!(s.size, (24, 24)),
        _ => panic!("expected a single map object"),
    }
}

#[test]
fn loading_is_checked_before_it_is_tried() {
    let palette_ref = |id: &str| MapObjectId::Single(MeabyWeighted::NotWeighted(MeabyParam::TileId(id.to_string())));
    let entry = |terrain: &str, palettes: Vec<MapObjectId<MeabyParam>>| {
        let mut d = definition(vec!["ab"]);
        d.palettes = palettes;
        MapgenObject { om_terrain: Some(MapObjectId::Single(MeabyWeighted::NotWeighted(terrain.to_string()))), object: Some(d) }
    };
    let mut inner = Palette::default();
    inner.id = "inner".to_string();
    let mut outer = Palette::default();
    outer.id = "outer".to_string();
    outer.palettes.push(palette_ref("inner"));
    let cdda = CDDAData::from_palettes(vec![inner, outer]);
    let objects = vec![entry("house", vec![palette_ref("outer")]), entry("shed", vec![palette_ref("missing")])];
    assert!(can_load(&objects, &"house".to_string(), &cdda, 8));
    // The palettes nest two deep: one level is not enough to follow them.
    assert!(!can_load(&objects, &"house".to_string(), &cdda, 1));
    // A palette that does not exist, and a terrain that no entry names.
    assert!(!can_load(&objects, &"shed".to_string(), &cdda, 8));
    assert!(!can_load(&objects, &"barn".to_string(), &cdda, 8));
    // An entry without a definition.
    let bare = vec![MapgenObject { om_terrain: Some(MapObjectId::Single(MeabyWeighted::NotWeighted("house".to_string()))), object: None }];
    assert!(!can_load(&bare, &"house".to_string(), &cdda, 8));
}
