use cdda_map_editor::common::{MeabyMulti, MeabyWeighted, Weighted};
use cdda_map_editor::graphics::{Sprite, SpriteSource, SpriteType, TextureHandle};
use cdda_map_editor::tileset::{AdditionalTile, LegacyTileset, TileGroup, TilesetInfo, TilesetTileDescriptor};

fn nw(v: i32) -> MeabyWeighted<i32> {
    MeabyWeighted::NotWeighted(v)
}

fn tile(id: MeabyMulti<String>, fg: Option<MeabyMulti<MeabyWeighted<i32>>>, bg: Option<MeabyMulti<MeabyWeighted<i32>>>) -> TilesetTileDescriptor {
    TilesetTileDescriptor {
        id,
        fg,
        bg,
        is_rotate_allowed: None,
        is_multitile: None,
        is_animated: Some(true),
        additional_tiles: None,
    }
}

fn one_group(tiles: Vec<TilesetTileDescriptor>) -> LegacyTileset {
    LegacyTileset {
        name: "T".to_string(),
        config_file_name: "c.json".to_string(),
        info: TilesetInfo { pixelscale: 1, tile_width: 32, tile_height: 32 },
        tiles: vec![TileGroup {
            file: "a.png".to_string(),
            range: Some("range 1 to 10".to_string()),
            tiles,
            ascii: None,
            sprite_width: None,
            sprite_height: None,
            sprite_offset_x: Some(3),
            sprite_offset_y: None,
        }],
    }
}

fn single_index(s: &Option<SpriteSource>) -> Option<TextureHandle> {
    match s {
        Some(SpriteSource::Single(h)) => Some(*h),
        _ => None,
    }
}

fn weighted(s: &Option<SpriteSource>) -> Vec<(i32, u32)> {
    match s {
        Some(SpriteSource::Weighted(v)) => v.iter().map(|w| (w.value, w.weight)).collect(),
        _ => panic!("not weighted"),
    }
}

fn find<'a>(table: &'a Vec<(String, SpriteType)>, id: &str) -> &'a SpriteType {
    &table.iter().find(|(k, _)| k == id).unwrap().1
}

#[test]
fn single_tiles_get_their_sprites() {
    let data = one_group(vec![
        tile(MeabyMulti::Single("t_grass".to_string()), Some(MeabyMulti::Single(nw(1))), Some(MeabyMulti::Single(nw(2)))),
        tile(
            MeabyMulti::Multi(vec!["a".to_string(), "b".to_string()]),
            Some(MeabyMulti::Multi(vec![nw(1), MeabyWeighted::Weighted(Weighted::new(2, 7))])),
            Some(MeabyMulti::Multi(vec![nw(9), nw(2)])),
        ),
        tile(MeabyMulti::Single("no_fg".to_string()), None, None),
    ]);
    let table = data.load_sprite_handles(&vec![1, 2]).unwrap();
    assert_eq!(table.len(), 3);
    match find(&table, "t_grass") {
        SpriteType::Single(s) => {
            assert_eq!(single_index(&s.fg), Some(TextureHandle::Loaded(1)));
            assert_eq!(single_index(&s.bg), Some(TextureHandle::Loaded(2)));
            assert_eq!((s.offset_x, s.offset_y, s.is_animated), (3, 0, true));
        },
        _ => panic!("expected a single sprite"),
    }
    for id in ["a", "b"] {
        match find(&table, id) {
            SpriteType::Single(s) => {
                assert_eq!(weighted(&s.fg), vec![(1, 0), (2, 7)]);
                assert_eq!(weighted(&s.bg), vec![(2, 0)]);
            },
            _ => panic!("expected a single sprite"),
        }
    }
    assert!(table.iter().all(|(k, _)| k != "no_fg"));
}

#[test]
fn a_foreground_list_must_be_loaded() {
    let data = one_group(vec![tile(
        MeabyMulti::Single("x".to_string()),
        Some(MeabyMulti::Multi(vec![nw(1), nw(5)])),
        None,
    )]);
    assert!(data.load_sprite_handles(&vec![1]).is_none());
    assert!(data.load_sprite_handles(&vec![1, 5]).is_some());
}

#[test]
fn a_single_foreground_that_was_not_loaded_is_left_out() {
    let data = one_group(vec![tile(MeabyMulti::Single("x".to_string()), Some(MeabyMulti::Single(nw(4))), None)]);
    let table = data.load_sprite_handles(&vec![]).unwrap();
    match find(&table, "x") {
        SpriteType::Single(s) => assert!(s.fg.is_none()),
        _ => panic!("expected a single sprite"),
    }
}

#[test]
fn later_tiles_replace_earlier_ones() {
    let data = one_group(vec![
        tile(MeabyMulti::Single("x".to_string()), Some(MeabyMulti::Single(nw(1))), None),
        tile(MeabyMulti::Single("x".to_string()), Some(MeabyMulti::Single(nw(2))), None),
    ]);
    let table = data.load_sprite_handles(&vec![1, 2]).unwrap();
    assert_eq!(table.len(), 1);
    match find(&table, "x") {
        SpriteType::Single(s) => assert_eq!(single_index(&s.fg), Some(TextureHandle::Loaded(2))),
        _ => panic!("expected a single sprite"),
    }
}

#[test]
fn multitiles_get_their_parts_and_defaults() {
    let mut t = tile(MeabyMulti::Single("t_wall".to_string()), Some(MeabyMulti::Single(nw(1))), None);
    t.additional_tiles = Some(vec![
        AdditionalTile { id: "center".to_string(), fg: Some(MeabyMulti::Single(nw(2))), bg: None },
        AdditionalTile { id: "corner".to_string(), fg: Some(MeabyMulti::Single(nw(3))), bg: Some(MeabyMulti::Single(nw(1))) },
        AdditionalTile { id: "edge".to_string(), fg: Some(MeabyMulti::Multi(vec![nw(4), nw(5)])), bg: None },
        AdditionalTile { id: "broken".to_string(), fg: Some(MeabyMulti::Single(nw(6))), bg: None },
        AdditionalTile { id: "unconnected".to_string(), fg: None, bg: None },
    ]);
    let data = one_group(vec![t]);
    let table = data.load_sprite_handles(&vec![1, 2, 3, 4, 5]).unwrap();
    match find(&table, "t_wall") {
        SpriteType::Multitile { center, corner, t_connection, edge, end_piece, unconnected } => {
            assert_eq!(single_index(&center.fg), Some(TextureHandle::Loaded(2)));
            assert_eq!((center.offset_x, center.is_animated), (3, true));
            assert_eq!(single_index(&corner.north_west.fg), Some(TextureHandle::Rotated(3, 0)));
            assert_eq!(single_index(&corner.south_west.fg), Some(TextureHandle::Rotated(3, 270)));
            assert_eq!(single_index(&corner.south_east.fg), Some(TextureHandle::Rotated(3, 180)));
            assert_eq!(single_index(&corner.north_east.fg), Some(TextureHandle::Rotated(3, 90)));
            assert_eq!(single_index(&corner.north_east.bg), Some(TextureHandle::Loaded(1)));
            assert_eq!(single_index(&edge.north_south.fg), Some(TextureHandle::Loaded(4)));
            assert_eq!(single_index(&edge.east_west.fg), Some(TextureHandle::Loaded(5)));
            let defaults: [&Sprite; 5] = [&t_connection.north, &t_connection.west, &end_piece.south, &end_piece.east, unconnected];
            for d in defaults {
                assert_eq!(single_index(&d.fg), Some(TextureHandle::Loaded(1)));
                assert_eq!((d.offset_x, d.offset_y, d.is_animated), (0, 0, false));
            }
        },
        _ => panic!("expected a multitile"),
    }
}

#[test]
fn a_part_whose_sprite_was_not_loaded_fails() {
    let mut t = tile(MeabyMulti::Single("t_wall".to_string()), Some(MeabyMulti::Single(nw(1))), None);
    t.additional_tiles = Some(vec![AdditionalTile {
        id: "t_connection".to_string(),
        fg: Some(MeabyMulti::Single(nw(8))),
        bg: None,
    }]);
    let data = one_group(vec![t]);
    assert!(data.load_sprite_handles(&vec![1]).is_none());
}
