use cdda_map_editor::graphics::{same_kind, Corner, Edge, FullCardinal, Sprite, SpriteSource, SpriteType, TextureHandle};
use cdda_map_editor::textures::{fallback_for, get_terrain_representation, get_textures, representation_char, SpriteState, TileSprite};
use rand::SeedableRng;
use cdda_map_editor::common::Weighted;
use cdda_map_editor::textures::sprite_state;

fn sprite(i: i32) -> Sprite {
    Sprite { fg: Some(SpriteSource::Single(TextureHandle::Loaded(i))), bg: None, offset_x: 0, offset_y: 0, is_animated: false }
}

fn fg(s: &Sprite) -> i32 {
    match &s.fg {
        Some(SpriteSource::Single(TextureHandle::Loaded(i))) => *i,
        _ => -1,
    }
}

fn multitile() -> SpriteType {
    SpriteType::Multitile {
        center: sprite(0),
        corner: Corner { north_west: sprite(1), south_west: sprite(2), south_east: sprite(3), north_east: sprite(4) },
        t_connection: FullCardinal { north: sprite(5), east: sprite(6), south: sprite(7), west: sprite(8) },
        edge: Edge { north_south: sprite(9), east_west: sprite(10) },
        end_piece: FullCardinal { north: sprite(11), east: sprite(12), south: sprite(13), west: sprite(14) },
        unconnected: sprite(15),
    }
}

#[test]
fn multitile_sprite_follows_the_neighbours() {
    let m = multitile();
    let cases = [
        ((true, true, true, true), 0),
        ((true, true, true, false), 8),
        ((true, true, false, true), 7),
        ((true, false, true, true), 6),
        ((false, true, true, true), 5),
        ((true, true, false, false), 2),
        ((true, false, false, true), 3),
        ((false, true, true, false), 1),
        ((false, false, true, true), 4),
        ((true, false, false, false), 13),
        ((false, true, false, false), 14),
        ((false, false, true, false), 11),
        ((false, false, false, true), 12),
        ((false, true, false, true), 10),
        ((true, false, true, false), 9),
        ((false, false, false, false), 15),
    ];
    for ((a, r, b, l), expected) in cases {
        assert_eq!(fg(m.select_sprite(a, r, b, l)), expected);
    }
    assert_eq!(fg(m.representation()), 0);
    let s = SpriteType::Single(sprite(42));
    assert_eq!(fg(s.select_sprite(false, true, false, true)), 42);
}

#[test]
fn same_kind_joins_equal_ids_and_the_fill_terrain() {
    let s = |x: &str| Some(x.to_string());
    assert!(same_kind(&s("t_wall"), &s("t_wall"), &None, true));
    assert!(!same_kind(&s("t_wall"), &s("t_floor"), &None, true));
    assert!(same_kind(&s("t_grass"), &None, &s("t_grass"), true));
    assert!(!same_kind(&s("t_grass"), &None, &s("t_grass"), false));
    assert!(same_kind(&None, &s("t_grass"), &s("t_grass"), true));
    assert!(same_kind(&None, &None, &s("t_grass"), true));
    assert!(!same_kind(&None, &None, &None, true));
    assert!(!same_kind(&None, &None, &s("t_grass"), false));
}

#[test]
fn fallback_sprites_by_uppercase_character() {
    let table = vec![("A_WHITE".to_string(), 1), ("?_WHITE".to_string(), 2), ("#_WHITE".to_string(), 3)];
    assert_eq!(fallback_for(&table, 'a'), Some(&1));
    assert_eq!(fallback_for(&table, 'A'), Some(&1));
    assert_eq!(fallback_for(&table, '#'), Some(&3));
    assert_eq!(fallback_for(&table, 'z'), Some(&2));
    let empty: Vec<(String, i32)> = vec![];
    assert_eq!(fallback_for(&empty, 'a'), None);
}

#[test]
fn representation_character_follows_the_first_underscore() {
    assert_eq!(representation_char("t_grass"), 'g');
    assert_eq!(representation_char("f_chair_wood"), 'c');
    assert_eq!(representation_char("grass"), '?');
    assert_eq!(representation_char("t_"), '?');
}

#[test]
fn terrain_representation_uses_regions_and_fallbacks() {
    let textures = vec![("t_grass".to_string(), SpriteType::Single(sprite(1))), ("t_wall".to_string(), multitile())];
    let regions = vec![("t_region_grass".to_string(), vec![("t_grass".to_string(), 3u32)]), ("t_empty".to_string(), vec![])];
    let fallback = vec![("G_WHITE".to_string(), sprite(70)), ("?_WHITE".to_string(), sprite(63)), ("R_WHITE".to_string(), sprite(82))];
    assert_eq!(fg(get_terrain_representation(&textures, &regions, &fallback, &"t_grass".to_string()).unwrap()), 1);
    assert_eq!(fg(get_terrain_representation(&textures, &regions, &fallback, &"t_wall".to_string()).unwrap()), 0);
    assert_eq!(fg(get_terrain_representation(&textures, &regions, &fallback, &"t_region_grass".to_string()).unwrap()), 1);
    assert_eq!(fg(get_terrain_representation(&textures, &regions, &fallback, &"t_rock".to_string()).unwrap()), 82);
    assert_eq!(fg(get_terrain_representation(&textures, &regions, &fallback, &"rock".to_string()).unwrap()), 63);
    assert!(get_terrain_representation(&textures, &regions, &fallback, &"t_empty".to_string()).is_none());
}

#[test]
fn tile_sprite_combines_the_layers() {
    let fallback = 9;
    match get_textures(SpriteState::Defined(1), SpriteState::TextureNotFound, SpriteState::NotMapped, SpriteState::NotMapped, fallback, None) {
        TileSprite::Exists { terrain, furniture, items, toilets } => {
            assert_eq!((terrain, furniture, items, toilets), (Some(1), Some(9), None, None));
        },
        _ => panic!("expected sprites"),
    }
    match get_textures(SpriteState::NotMapped, SpriteState::NotMapped, SpriteState::NotMapped, SpriteState::NotMapped, fallback, Some(5)) {
        TileSprite::Exists { terrain, .. } => assert_eq!(terrain, Some(5)),
        _ => panic!("expected the fill terrain"),
    }
    assert!(matches!(
        get_textures::<i32>(SpriteState::NotMapped, SpriteState::NotMapped, SpriteState::NotMapped, SpriteState::NotMapped, fallback, None),
        TileSprite::Empty
    ));
}

#[test]
fn sprite_state_follows_regions_and_neighbours() {
    let textures = vec![("t_grass".to_string(), SpriteType::Single(sprite(1))), ("t_wall".to_string(), multitile())];
    assert!(matches!(sprite_state(&None, None, &textures, true, true, true, true), SpriteState::NotMapped));
    assert!(matches!(sprite_state(&Some("t_rock".to_string()), None, &textures, true, true, true, true), SpriteState::TextureNotFound));
    match sprite_state(&Some("t_wall".to_string()), None, &textures, false, false, false, false) {
        SpriteState::Defined(s) => assert_eq!(fg(s), 15),
        _ => panic!("expected a sprite"),
    }
    let drawn = "t_grass".to_string();
    match sprite_state(&Some("t_region".to_string()), Some(&drawn), &textures, true, true, true, true) {
        SpriteState::Defined(s) => assert_eq!(fg(s), 1),
        _ => panic!("expected a sprite"),
    }
}

#[test]
fn random_sprites_come_from_the_list() {
    let mut rng = rand::rngs::StdRng::seed_from_u64(1);
    let single = SpriteSource::Single(TextureHandle::Rotated(3, 90));
    assert_eq!(single.get_randomized_sprite(&mut rng), Some(TextureHandle::Rotated(3, 90)));
    let weighted = SpriteSource::Weighted(vec![Weighted::new(4, 0), Weighted::new(5, 2)]);
    for _ in 0..20 {
        let h = weighted.get_randomized_sprite(&mut rng).unwrap();
        assert!(h == TextureHandle::Loaded(4) || h == TextureHandle::Loaded(5));
    }
    assert_eq!(SpriteSource::Weighted(vec![]).get_randomized_sprite(&mut rng), None);
}

#[test]
fn joining_is_symmetric_on_examples() {
    let ids = [None, Some("t_grass".to_string()), Some("t_wall".to_string())];
    for a in &ids {
        for b in &ids {
            for fill in &ids {
                for terrain in [true, false] {
                    assert_eq!(same_kind(a, b, fill, terrain), same_kind(b, a, fill, terrain));
                }
            }
        }
    }
}
