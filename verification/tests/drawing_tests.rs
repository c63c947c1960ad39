use cdda_map_editor::common::MeabyWeighted;
use cdda_map_editor::coordinates::Coordinates;
use cdda_map_editor::drawing::tile_sprite;
use cdda_map_editor::graphics::{Corner, Edge, FullCardinal, Sprite, SpriteSource, SpriteType, TextureHandle};
use cdda_map_editor::map::{MapEntity, Tile};
use cdda_map_editor::palettes::{CDDAData, MapObjectId, MeabyParam};
use cdda_map_editor::region_settings::{RegionSettings, TerrainAndFurniture};
use cdda_map_editor::textures::TileSprite;
use rand::SeedableRng;

fn sprite(i: i32) -> Sprite {
    Sprite { fg: Some(SpriteSource::Single(TextureHandle::Loaded(i))), bg: None, offset_x: 0, offset_y: 0, is_animated: false }
}

fn fg(s: Option<&Sprite>) -> Option<i32> {
    s.map(|s| match &s.fg {
        Some(SpriteSource::Single(TextureHandle::Loaded(i))) => *i,
        _ => -1,
    })
}

fn multitile() -> SpriteType {
    SpriteType::Multitile {
        center: sprite(0),
        corner: Corner { north_west: sprite(1), south_west: sprite(2), south_east: sprite(3), north_east: sprite(4) },
        t_connection: FullCardinal { north: sprite(5), east: sprite(6), south: sprite(7), west: sprite(8) },
        edge: Edge { north_south: sprite(9), east_west: sprite(10) },
        end_piece: FullCardinal { north: sprite(11), east: sprite(12), south: sprite(13), west: sprite(14) },
        unconnected: sprite(15),
    }
}

fn id(s: &str) -> MapObjectId<MeabyParam> {
    MapObjectId::Single(MeabyWeighted::NotWeighted(MeabyParam::TileId(s.to_string())))
}

fn layers(t: TileSprite<&Sprite>) -> Option<(Option<i32>, Option<i32>, Option<i32>, Option<i32>)> {
    match t {
        TileSprite::Exists { terrain, furniture, items, toilets } => Some((fg(terrain), fg(furniture), fg(items), fg(toilets))),
        _ => None,
    }
}

#[test]
fn a_tile_is_drawn_from_its_layers_its_neighbours_and_the_fill_terrain() {
    let mut e = MapEntity::new("house".to_string());
    if let MapEntity::Single(s) = &mut e {
        s.tile_selection.terrain.push(('w', id("t_wall")));
        s.tile_selection.terrain.push(('g', id("t_grass")));
        s.tile_selection.terrain.push(('r', id("t_region")));
        s.tile_selection.furniture.push(('c', id("f_chair")));
        s.tile_selection.fill_ter = Some("t_floor".to_string());
    }
    for (x, y, c) in [(5, 5, 'w'), (5, 4, 'w'), (6, 5, 'g'), (4, 5, 'w'), (9, 9, 'c'), (12, 12, 'r')] {
        e.set_tile(Coordinates::new(x, y), Tile::from(c));
    }
    let cdda = CDDAData::from_palettes(vec![]);
    let regions = RegionSettings {
        id: "default".to_string(),
        default_oter: vec![],
        default_groundcover: vec![],
        region_terrain_and_furniture: TerrainAndFurniture {
            terrain: vec![("t_region".to_string(), vec![("t_grass".to_string(), 1)])],
            furniture: vec![],
        },
    };
    let textures = vec![
        ("t_wall".to_string(), multitile()),
        ("t_grass".to_string(), SpriteType::Single(sprite(20))),
        ("t_floor".to_string(), SpriteType::Single(sprite(30))),
    ];
    let fallback = vec![("?_WHITE".to_string(), sprite(63)), ("C_WHITE".to_string(), sprite(67))];
    let mut rng = rand::rngs::StdRng::seed_from_u64(1);

    // A wall joins the walls above and to the left, not the grass to the right.
    let wall = tile_sprite(&e, &cdda, &regions, &textures, &fallback, 'w', &Coordinates::new(5, 5), &mut rng);
    assert_eq!(layers(wall), Some((Some(3), None, None, None)));
    // A chair stands on the fill terrain and, without a sprite of its own, shows the fallback of `c`.
    let chair = tile_sprite(&e, &cdda, &regions, &textures, &fallback, 'c', &Coordinates::new(9, 9), &mut rng);
    assert_eq!(layers(chair), Some((Some(30), Some(67), None, None)));
    // A region draws a tile id, whose sprite is shown.
    let region = tile_sprite(&e, &cdda, &regions, &textures, &fallback, 'r', &Coordinates::new(12, 12), &mut rng);
    assert_eq!(layers(region), Some((Some(20), None, None, None)));
    // Without a fill terrain an unmapped character shows nothing.
    if let MapEntity::Single(s) = &mut e {
        s.tile_selection.fill_ter = None;
    }
    let nothing = tile_sprite(&e, &cdda, &regions, &textures, &fallback, 'x', &Coordinates::new(20, 20), &mut rng);
    assert!(matches!(nothing, TileSprite::Empty));
}
