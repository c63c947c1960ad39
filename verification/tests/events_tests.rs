use cdda_map_editor::coordinates::Coordinates;
use cdda_map_editor::events::{
    entities_to_despawn, layer_action, neighbours_to_update, record_sprite, spawn_requests, LayerAction, Offset,
    SpawnRequest, SpriteKind, SpriteLayer,
};
use cdda_map_editor::graphics::{fallback_sprites, Sprite, SpriteSource, TextureHandle};
use cdda_map_editor::map::{MapEntity, SpriteRepresentation, Tile};
use cdda_map_editor::state::{EditorData, Project, ProjectSaveState};
use cdda_map_editor::textures::TileSprite;

fn sprite(x: i32, y: i32) -> Sprite {
    Sprite { fg: None, bg: None, offset_x: x, offset_y: y, is_animated: false }
}

#[test]
fn placed_tiles_spawn_terrain_and_furniture() {
    let t = sprite(1, 2);
    let f = sprite(-3, 0);
    let requests = spawn_requests(&TileSprite::Exists { terrain: Some(&t), furniture: Some(&f), items: None, toilets: None });
    assert_eq!(
        requests,
        vec![
            SpawnRequest { layer: SpriteLayer::Terrain, z: 1, offset_x: 1, offset_y: 2 },
            SpawnRequest { layer: SpriteLayer::Furniture, z: 3, offset_x: -3, offset_y: 0 },
        ]
    );
    let fallback = sprite(5, 5);
    assert_eq!(
        spawn_requests(&TileSprite::Fallback(&fallback)),
        vec![SpawnRequest { layer: SpriteLayer::Fallback, z: 1, offset_x: 0, offset_y: 0 }]
    );
    assert!(spawn_requests(&TileSprite::Empty).is_empty());
}

#[test]
fn layers_are_spawned_or_replaced() {
    assert_eq!(layer_action(false, Some(3)), LayerAction::Nothing);
    assert_eq!(layer_action(true, None), LayerAction::Spawn);
    assert_eq!(layer_action(true, Some(3)), LayerAction::Replace(3));
}

#[test]
fn deleting_a_tile_removes_all_its_entities() {
    let mut t = Tile::from('x');
    t.terrain = SpriteRepresentation { fg_entity: Some(1), bg_entity: Some(2) };
    t.items = SpriteRepresentation { fg_entity: None, bg_entity: Some(7) };
    t.fallback = SpriteRepresentation { fg_entity: Some(9), bg_entity: None };
    assert_eq!(entities_to_despawn(&t), vec![1, 2, 7, 9]);
    assert!(entities_to_despawn(&Tile::from('y')).is_empty());
}

#[test]
fn neighbours_of_a_changed_tile_are_updated() {
    let mut e = MapEntity::new("m".to_string());
    e.set_tile(Coordinates::new(2, 1), Tile::from('a'));
    e.set_tile(Coordinates::new(1, 2), Tile::from('b'));
    let n = neighbours_to_update(&e, &Coordinates::new(2, 2));
    let got: Vec<(char, Coordinates)> = n.iter().map(|(t, c)| (t.character, *c)).collect();
    assert_eq!(got, vec![('a', Coordinates::new(2, 1)), ('b', Coordinates::new(1, 2))]);
}

#[test]
fn offsets_come_from_coordinates() {
    assert_eq!(Offset::from(Coordinates::new(4, -2)), Offset { x: 4, y: -2 });
}

#[test]
fn editor_data_switches_between_open_projects() {
    let mut data = EditorData::new();
    assert!(data.get_current_project().is_none());
    data.projects.push(Project { name: "a".to_string(), map_entity: MapEntity::new("a".to_string()), save_state: ProjectSaveState::NotSaved });
    data.projects.push(Project { name: "b".to_string(), map_entity: MapEntity::new("b".to_string()), save_state: ProjectSaveState::NotSaved });
    data.switch_project(1);
    assert_eq!(data.get_current_project().unwrap().name, "b");
    data.current_project_index = Some(5);
    assert!(data.get_current_project().is_none());
}

#[test]
fn sprite_kinds_give_their_layers() {
    let with_bg = Sprite {
        fg: Some(SpriteSource::Single(TextureHandle::Loaded(1))),
        bg: Some(SpriteSource::Single(TextureHandle::Loaded(2))),
        offset_x: 0,
        offset_y: 0,
        is_animated: false,
    };
    let terrain = SpriteKind::Terrain(with_bg);
    assert!(matches!(terrain.get_fg(), Some(SpriteSource::Single(TextureHandle::Loaded(1)))));
    assert!(matches!(terrain.get_bg(), Some(SpriteSource::Single(TextureHandle::Loaded(2)))));
    let fallback = SpriteKind::Fallback(Sprite {
        fg: Some(SpriteSource::Single(TextureHandle::Fallback(0))),
        bg: Some(SpriteSource::Single(TextureHandle::Loaded(2))),
        offset_x: 0,
        offset_y: 0,
        is_animated: false,
    });
    assert!(fallback.get_bg().is_none());
}

#[test]
fn fallback_textures_become_sprites() {
    let table = vec![("!_WHITE".to_string(), vec![1u8]), ("#_RED".to_string(), vec![2u8])];
    let sprites = fallback_sprites(&table);
    assert_eq!(sprites.len(), 2);
    assert_eq!(sprites[1].0, "#_RED");
    assert!(matches!(sprites[1].1.fg, Some(SpriteSource::Single(TextureHandle::Fallback(1)))));
    assert!(sprites[1].1.bg.is_none());
}

#[test]
fn spawned_sprites_are_recorded_on_their_tile() {
    let mut t = Tile::from('x');
    t.furniture = SpriteRepresentation { fg_entity: Some(4), bg_entity: None };
    let before = t;
    record_sprite(&mut t, SpriteLayer::Terrain, true, 9);
    assert_eq!(t.terrain, SpriteRepresentation { fg_entity: Some(9), bg_entity: None });
    assert_eq!(t.furniture, before.furniture);
    assert_eq!(t.fallback, before.fallback);
    record_sprite(&mut t, SpriteLayer::Furniture, false, 11);
    assert_eq!(t.furniture, SpriteRepresentation { fg_entity: Some(4), bg_entity: Some(11) });

    let mut e = MapEntity::new("m".to_string());
    e.set_tile(Coordinates::new(1, 1), Tile::from('g'));
    assert!(e.record_sprite_at(Coordinates::new(1, 1), SpriteLayer::Terrain, true, 7));
    assert_eq!(e.tiles().get(&Coordinates::new(1, 1)).unwrap().terrain.fg_entity, Some(7));
    assert!(!e.record_sprite_at(Coordinates::new(2, 2), SpriteLayer::Terrain, true, 7));
    assert!(e.tiles().get(&Coordinates::new(2, 2)).is_none());
}
