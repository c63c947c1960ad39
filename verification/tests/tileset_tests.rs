use cdda_map_editor::common::{MeabyMulti, MeabyWeighted, Weighted};
use cdda_map_editor::tileset::{
    fallback_tile_mapping_exec, get_local_index, group_range, is_fallback, parse_tileset_header,
    texture_cuts, tile_position, turn_texture, AdditionalTile, AsciiTilesetDescriptor, LegacyTileset,
    LegacyTilesetLoader, RgbaImage, TileGroup, TilesetInfo, TilesetTileDescriptor,
};

fn nw(v: i32) -> MeabyWeighted<i32> {
    MeabyWeighted::NotWeighted(v)
}

fn tile(id: &str, fg: Option<MeabyMulti<MeabyWeighted<i32>>>) -> TilesetTileDescriptor {
    TilesetTileDescriptor {
        id: MeabyMulti::Single(id.to_string()),
        fg,
        bg: None,
        is_rotate_allowed: None,
        is_multitile: None,
        is_animated: None,
        additional_tiles: None,
    }
}

fn group(file: &str, range: Option<&str>, tiles: Vec<TilesetTileDescriptor>) -> TileGroup {
    TileGroup {
        file: file.to_string(),
        range: range.map(|r| r.to_string()),
        tiles,
        ascii: None,
        sprite_width: None,
        sprite_height: None,
        sprite_offset_x: None,
        sprite_offset_y: None,
    }
}

fn tileset(groups: Vec<TileGroup>, w: u32, h: u32) -> LegacyTileset {
    LegacyTileset {
        name: "TEST".to_string(),
        config_file_name: "tile_config.json".to_string(),
        info: TilesetInfo { pixelscale: 1, tile_width: w, tile_height: h },
        tiles: groups,
    }
}

/// An image whose pixel (x, y) has bytes [x, y, 0, 255].
fn gradient(width: u32, height: u32) -> RgbaImage {
    let mut pixels = Vec::new();
    for y in 0..height {
        for x in 0..width {
            pixels.extend_from_slice(&[x as u8, y as u8, 0, 255]);
        }
    }
    RgbaImage { width, height, pixels }
}

fn crop(img: &RgbaImage, x: u32, y: u32, w: u32, h: u32) -> Vec<u8> {
    let mut out = Vec::new();
    for r in 0..h {
        for c in 0..w {
            let i = (((y + r) * img.width + x + c) * 4) as usize;
            out.extend_from_slice(&img.pixels[i..i + 4]);
        }
    }
    out
}

#[test]
fn test_load_legacy_tileset() {
    let lines = vec![
        "NAME: TEST\n".to_string(),
        "VIEW: Test\n".to_string(),
        "JSON: tile_config.json\n".to_string(),
        "TILESET: tiles.png\n".to_string(),
    ];
    let (name, config_file_name) = parse_tileset_header(&lines);
    assert_eq!(config_file_name, "tile_config.json");
    assert_eq!(name, "TEST");

    let data = tileset(
        vec![group(
            "normal_items.png",
            Some("range 1 to 2"),
            vec![TilesetTileDescriptor {
                id: MeabyMulti::Single("10mm_fmj".to_string()),
                fg: Some(MeabyMulti::Single(nw(1))),
                bg: Some(MeabyMulti::Single(nw(9443))),
                is_rotate_allowed: Some(false),
                is_multitile: None,
                is_animated: None,
                additional_tiles: None,
            }],
        )],
        32,
        32,
    );
    assert_eq!(data.info.tile_width, 32);
    assert_eq!(data.info.tile_height, 32);
    assert_eq!(data.info.pixelscale, 1);
    let first_group = data.tiles.first().unwrap();
    assert_eq!(first_group.file, "normal_items.png");
    assert_eq!(first_group.range.as_ref().unwrap(), "range 1 to 2");
    assert_eq!(group_range(&first_group.range), Some((0, 2)));
    let first_tile = first_group.tiles.first().unwrap();
    assert!(matches!(first_tile.fg, Some(MeabyMulti::Single(MeabyWeighted::NotWeighted(1)))));
    assert!(matches!(first_tile.bg, Some(MeabyMulti::Single(MeabyWeighted::NotWeighted(9443)))));
    assert_eq!(first_tile.is_rotate_allowed, Some(false));
}

#[test]
fn test_load_textures() {
    let data = tileset(
        vec![group("normal_items.png", Some("range 1 to 2"), vec![tile("10mm_fmj", Some(MeabyMulti::Single(nw(1))))])],
        32,
        32,
    );
    let image = gradient(64, 32);
    let textures = data.load_textures(&vec![image]).unwrap();
    let image = gradient(64, 32);
    let item = textures.iter().find(|(k, _)| *k == 1).unwrap();
    assert_eq!(item.1, crop(&image, 32, 0, 32, 32));
}

#[test]
fn header_without_lines_is_empty() {
    let (name, config) = parse_tileset_header(&vec![]);
    assert_eq!(name, "");
    assert_eq!(config, "");
    let (name, config) = parse_tileset_header(&vec!["NAME: A\r\n".to_string()]);
    assert_eq!(name, "A\r");
    assert_eq!(config, "");
}

#[test]
fn group_range_rejects_bad_comments() {
    assert_eq!(group_range(&None), None);
    assert_eq!(group_range(&Some("range 0 to 5".to_string())), None);
    assert_eq!(group_range(&Some("range a to 5".to_string())), None);
    assert_eq!(group_range(&Some("range 3 to x".to_string())), None);
    assert_eq!(group_range(&Some("range 10 to 20".to_string())), Some((9, 20)));
}

#[test]
fn tile_positions_are_sixteen_a_row() {
    assert_eq!(tile_position(1, 0, 32, 32), Some((32, 0)));
    assert_eq!(tile_position(17, 0, 32, 32), Some((32, 32)));
    assert_eq!(tile_position(20, 4, 10, 20), Some((0, 20)));
    // below the start the index wraps around as `as u32` does
    assert_eq!(get_local_index(0, 1), Some(u32::MAX));
    assert_eq!(tile_position(0, 1, 1, 1), Some((15, 268435455)));
    assert_eq!(tile_position(0, 1, 1, 32), None);
    assert_eq!(get_local_index(i32::MIN, 1), None);
}

#[test]
fn texture_cuts_follow_the_tiles_in_order() {
    let multi = MeabyMulti::Multi(vec![nw(3), MeabyWeighted::Weighted(Weighted::new(2, 5)), nw(3)]);
    let mut with_extra = tile("wall", Some(MeabyMulti::Single(nw(1))));
    with_extra.additional_tiles = Some(vec![AdditionalTile {
        id: "center".to_string(),
        fg: Some(MeabyMulti::Single(nw(4))),
        bg: None,
    }]);
    let data = tileset(
        vec![
            group("fallback.png", None, vec![]),
            group("a.png", Some("range 1 to 4"), vec![tile("x", Some(multi)), with_extra, tile("none", None)]),
        ],
        8,
        8,
    );
    let cuts = texture_cuts(&data).unwrap();
    let got: Vec<(i32, usize, u32, u32)> = cuts.iter().map(|c| (c.index, c.group, c.x, c.y)).collect();
    assert_eq!(got, vec![(3, 1, 24, 0), (2, 1, 16, 0), (1, 1, 8, 0), (4, 1, 32, 0)]);
}

#[test]
fn single_out_of_range_skips_the_rest_of_the_tile() {
    let mut t = tile("wall", Some(MeabyMulti::Single(nw(9))));
    t.additional_tiles = Some(vec![AdditionalTile {
        id: "center".to_string(),
        fg: Some(MeabyMulti::Single(nw(2))),
        bg: None,
    }]);
    let data = tileset(vec![group("a.png", Some("range 1 to 4"), vec![t, tile("b", Some(MeabyMulti::Single(nw(1))))])], 8, 8);
    let cuts = texture_cuts(&data).unwrap();
    let got: Vec<i32> = cuts.iter().map(|c| c.index).collect();
    assert_eq!(got, vec![1]);
}

#[test]
fn texture_cuts_fail_without_a_range() {
    let data = tileset(vec![group("a.png", None, vec![tile("x", Some(MeabyMulti::Single(nw(1))))])], 8, 8);
    assert!(texture_cuts(&data).is_none());
}

#[test]
fn load_textures_fails_when_a_cut_leaves_the_image() {
    let data = tileset(vec![group("a.png", Some("range 1 to 40"), vec![tile("x", Some(MeabyMulti::Single(nw(17))))])], 8, 8);
    assert!(data.load_textures(&vec![gradient(128, 8)]).is_none());
    let textures = data.load_textures(&vec![gradient(128, 16)]).unwrap();
    assert_eq!(textures.len(), 1);
    assert_eq!(textures[0].1, crop(&gradient(128, 16), 8, 8, 8, 8));
}

#[test]
fn fallback_textures_are_keyed_by_character_and_color() {
    let mut g = group("fallback.png", None, vec![]);
    g.ascii = Some(vec![AsciiTilesetDescriptor { offset: 0, bold: false, color: "WHITE".to_string() }]);
    let data = tileset(vec![g], 2, 2);
    let image = gradient(32, 32);
    let table = data.load_fallback_textures(&vec![gradient(32, 32)]).unwrap();
    assert_eq!(table.len(), fallback_tile_mapping_exec().len());
    let bang = table.iter().find(|(k, _)| k == "!_WHITE").unwrap();
    // sprite 0 + 1 + 33 = 34: column 2, row 2
    assert_eq!(bang.1, crop(&image, 4, 4, 2, 2));
    let bar = table.iter().find(|(k, _)| k == "|_WHITE").unwrap();
    // 179: column 3, row 11
    assert_eq!(bar.1, crop(&image, 6, 22, 2, 2));
}

#[test]
fn fallback_textures_need_the_colors() {
    let data = tileset(vec![group("fallback.png", None, vec![])], 2, 2);
    assert!(data.load_fallback_textures(&vec![gradient(32, 32)]).is_none());
    let other = tileset(vec![group("a.png", None, vec![])], 2, 2);
    assert_eq!(other.load_fallback_textures(&vec![]).unwrap().len(), 0);
}

#[test]
fn fallback_mapping_and_file_name() {
    let m = fallback_tile_mapping_exec();
    assert_eq!(m.len(), 60);
    assert_eq!(m[0], ('!', 33));
    assert_eq!(m[57], ('{', 122));
    assert_eq!(m[59], ('|', 178));
    assert!(is_fallback(&"fallback.png".to_string()));
    assert!(!is_fallback(&"normal.png".to_string()));
    assert_eq!(LegacyTilesetLoader::new("dir".to_string()).path, "dir");
}

#[test]
fn each_index_is_cut_once() {
    let data = tileset(
        vec![
            group("a.png", Some("range 1 to 8"), vec![tile("x", Some(MeabyMulti::Multi(vec![nw(2), nw(2), nw(3)]))), tile("y", Some(MeabyMulti::Single(nw(2))))]),
            group("b.png", Some("range 9 to 16"), vec![tile("z", Some(MeabyMulti::Multi(vec![nw(3), nw(9)])))]),
        ],
        8,
        8,
    );
    let cuts = texture_cuts(&data).unwrap();
    let mut indices: Vec<i32> = cuts.iter().map(|c| c.index).collect();
    assert_eq!(indices, vec![2, 3, 9]);
    indices.dedup();
    assert_eq!(indices.len(), cuts.len());
    // the second image starts at index 8: index 9 is its second sprite
    assert_eq!((cuts[2].group, cuts[2].x, cuts[2].y), (1, 8, 0));
}

#[test]
fn header_values_have_no_line_breaks() {
    let (name, config) = parse_tileset_header(&vec!["NAME: a\nb\n".to_string(), "x\n".to_string(), "JSON: c\n\n".to_string()]);
    assert!(!name.contains('\n') && !config.contains('\n'));
    assert_eq!((name.as_str(), config.as_str()), ("ab", "c"));
}

fn png(img: &RgbaImage) -> Vec<u8> {
    let buffer: image::RgbaImage = image::ImageBuffer::from_raw(img.width, img.height, img.pixels.clone()).unwrap();
    let mut bytes = std::io::Cursor::new(Vec::new());
    image::DynamicImage::ImageRgba8(buffer).write_to(&mut bytes, image::ImageOutputFormat::Png).unwrap();
    bytes.into_inner()
}

#[test]
fn textures_are_cut_from_decoded_files() {
    let data = tileset(
        vec![
            group("fallback.png", None, vec![]),
            group("normal_items.png", Some("range 1 to 2"), vec![tile("10mm_fmj", Some(MeabyMulti::Single(nw(1))))]),
        ],
        32,
        32,
    );
    let image = gradient(64, 32);
    // the fallback image is not read for the textures
    let files = vec![vec![], png(&image)];
    let textures = data.load_textures_from_files(&files).unwrap();
    assert_eq!(textures.len(), 1);
    assert_eq!(textures[0].1, crop(&image, 32, 0, 32, 32));
    assert!(data.load_textures_from_files(&vec![vec![], vec![1, 2, 3]]).is_none());
    assert!(data.load_textures_from_files(&vec![vec![]]).is_none());
    assert!(data.load_fallback_textures_from_files(&files).is_none());
}

#[test]
fn fallback_textures_are_cut_from_the_decoded_fallback_file() {
    let mut g = group("fallback.png", None, vec![]);
    g.ascii = Some(vec![AsciiTilesetDescriptor { offset: 0, bold: false, color: "WHITE".to_string() }]);
    let data = tileset(vec![g], 2, 2);
    let image = gradient(32, 32);
    let table = data.load_fallback_textures_from_files(&vec![png(&image)]).unwrap();
    let bang = table.iter().find(|(k, _)| k == "!_WHITE").unwrap();
    assert_eq!(bang.1, crop(&image, 4, 4, 2, 2));
}

#[test]
fn textures_turn_clockwise() {
    // 2 by 1: pixel (0, 0) is [0,0,0,255], pixel (1, 0) is [1,0,0,255]
    let img = gradient(2, 1);
    let quarter = turn_texture(&img, 90).unwrap();
    assert_eq!((quarter.width, quarter.height), (1, 2));
    assert_eq!(quarter.pixels, vec![0, 0, 0, 255, 1, 0, 0, 255]);
    let half = turn_texture(&img, 180).unwrap();
    assert_eq!(half.pixels, vec![1, 0, 0, 255, 0, 0, 0, 255]);
    let three = turn_texture(&img, 270).unwrap();
    assert_eq!((three.width, three.height), (1, 2));
    assert_eq!(three.pixels, vec![1, 0, 0, 255, 0, 0, 0, 255]);
    assert_eq!(turn_texture(&img, 0).unwrap().pixels, img.pixels);
    assert!(turn_texture(&img, 45).is_none());
}
