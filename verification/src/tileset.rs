use vstd::prelude::*;
use vstd::string::*;

use crate::common::{MeabyMulti, MeabyWeighted};
use crate::table::{insert, keys_unique, lookup};
use crate::text::{
    after_last, before_first, lemma_without_char, parse_u32, remove_char, spec_parse_u32, split_first,
    split_last, without_char,
};

verus! {

/// The name of the file of a legacy tileset that holds its name and its config file.
pub const TILESET_INFO_NAME: &'static str = "tileset.txt";

/// How many sprites a row of a tileset image holds.
pub const AMOUNT_OF_SPRITES_PER_ROW: u32 = 16;

/// The size of the tiles of a tileset.
#[derive(Debug, Clone, Copy)]
pub struct TilesetInfo {
    pub pixelscale: u32,
    pub tile_width: u32,
    pub tile_height: u32,
}

/// A sprite reference of a tile: one index, or a list of them, each maybe weighted.
pub type SpriteRef = MeabyMulti<MeabyWeighted<i32>>;

/// One image file of a tileset with the tiles whose sprites it holds.
#[derive(Debug)]
pub struct TileGroup {
    pub file: String,
    /// The comment of the group, such as `range 1 to 2`: the indices its image holds.
    pub range: Option<String>,
    pub tiles: Vec<TilesetTileDescriptor>,
    pub ascii: Option<Vec<AsciiTilesetDescriptor>>,
    pub sprite_width: Option<u32>,
    pub sprite_height: Option<u32>,
    pub sprite_offset_x: Option<i32>,
    pub sprite_offset_y: Option<i32>,
}

/// A sprite of a multitile for one way of being connected (`center`, `corner`, ...).
#[derive(Debug)]
pub struct AdditionalTile {
    pub id: String,
    pub fg: Option<SpriteRef>,
    pub bg: Option<SpriteRef>,
}

/// The sprites of one or more tile ids.
#[derive(Debug)]
pub struct TilesetTileDescriptor {
    pub id: MeabyMulti<String>,
    /// The sprite drawn in the foreground.
    pub fg: Option<SpriteRef>,
    /// The sprite drawn behind it; may be missing.
    pub bg: Option<SpriteRef>,
    pub is_rotate_allowed: Option<bool>,
    pub is_multitile: Option<bool>,
    pub is_animated: Option<bool>,
    pub additional_tiles: Option<Vec<AdditionalTile>>,
}

/// The ascii sprites of one color in the fallback image.
#[derive(Debug)]
pub struct AsciiTilesetDescriptor {
    pub offset: u32,
    pub bold: bool,
    pub color: String,
}

/// A tileset in the legacy format: `tileset.txt` and its json config.
#[derive(Debug)]
pub struct LegacyTileset {
    pub name: String,
    pub config_file_name: String,
    pub info: TilesetInfo,
    pub tiles: Vec<TileGroup>,
}

/// Loads a legacy tileset from a directory.
#[derive(Debug)]
pub struct LegacyTilesetLoader {
    pub path: String,
}

impl LegacyTilesetLoader {
    pub fn new(path: String) -> (r: Self)
        ensures
            r.path == path,
    {
        Self { path }
    }
}

/// The text of a header line after the last `marker`, without line breaks.
pub open spec fn header_value(line: Seq<char>, marker: Seq<char>) -> Seq<char> {
    without_char(after_last(line, marker), '\n')
}

/// The name of a tileset: read from the first line of `tileset.txt`, empty when it
/// has none.
pub open spec fn spec_tileset_name(lines: Seq<String>) -> Seq<char> {
    if lines.len() > 0 {
        header_value(lines[0]@, "NAME: "@)
    } else {
        Seq::empty()
    }
}

/// The config file of a tileset: read from the third line of `tileset.txt`, empty
/// when it has none.
pub open spec fn spec_config_file_name(lines: Seq<String>) -> Seq<char> {
    if lines.len() > 2 {
        header_value(lines[2]@, "JSON: "@)
    } else {
        Seq::empty()
    }
}

/// The name and the config file name of a tileset, from the lines of its
/// `tileset.txt` as they were read, line breaks included.
pub fn parse_tileset_header(lines: &Vec<String>) -> (r: (String, String))
    ensures
        r.0@ == spec_tileset_name(lines@),
        r.1@ == spec_config_file_name(lines@),
{
    proof {
        reveal_strlit("NAME: ");
        reveal_strlit("JSON: ");
    }
    let name = if lines.len() > 0 {
        let piece = split_last(lines[0].as_str(), "NAME: ");
        remove_char(piece.as_str(), '\n')
    } else {
        String::new()
    };
    let config = if lines.len() > 2 {
        let piece = split_last(lines[2].as_str(), "JSON: ");
        remove_char(piece.as_str(), '\n')
    } else {
        String::new()
    };
    (name, config)
}

/// The indices that the image of a group holds, read from its comment such as
/// `range 1 to 2`: the first is made zero-based, the last is kept. None where the
/// comment is missing, a number does not parse or the first is zero.
pub open spec fn spec_group_range(range: Option<String>) -> Option<(u32, u32)> {
    match range {
        None => None,
        Some(r) => {
            let first = spec_parse_u32(after_last(before_first(r@, " to "@), "range "@));
            let last = spec_parse_u32(after_last(r@, " to "@));
            if first is Some && last is Some && first.unwrap() > 0 {
                Some(((first.unwrap() - 1) as u32, last.unwrap()))
            } else {
                None
            }
        },
    }
}

/// The range of indices of a group (see `spec_group_range`).
pub fn group_range(range: &Option<String>) -> (r: Option<(u32, u32)>)
    ensures
        r == spec_group_range(*range),
{
    proof {
        reveal_strlit(" to ");
        reveal_strlit("range ");
    }
    match range {
        None => None,
        Some(text) => {
            let head = split_first(text.as_str(), " to ");
            let first_text = split_last(head.as_str(), "range ");
            let first = parse_u32(first_text.as_str());
            match first {
                None => None,
                Some(first) => {
                    if first == 0 {
                        return None;
                    }
                    let last_text = split_last(text.as_str(), " to ");
                    match parse_u32(last_text.as_str()) {
                        None => None,
                        Some(last) => Some((first - 1, last)),
                    }
                },
            }
        },
    }
}

/// The index of a sprite within its group, as `(index - start as i32) as u32`
/// computes it; None where that subtraction overflows.
pub open spec fn local_index(index: i32, start: u32) -> Option<u32> {
    let d = index - (start as i32);
    if d < i32::MIN || d > i32::MAX {
        None
    } else if d >= 0 {
        Some(d as u32)
    } else {
        Some((d + 0x1_0000_0000) as u32)
    }
}

/// The top left corner of sprite `index` in the image of a group that starts at
/// `start`, with sixteen sprites a row of `width` by `height` pixels. None where the
/// arithmetic overflows.
pub open spec fn spec_tile_position(index: i32, start: u32, width: u32, height: u32) -> Option<
    (u32, u32),
> {
    match local_index(index, start) {
        None => None,
        Some(l) => {
            let x = (l % 16) * width;
            let y = (l / 16) * height;
            if x <= u32::MAX && y <= u32::MAX {
                Some((x as u32, y as u32))
            } else {
                None
            }
        },
    }
}

/// The index of a sprite within its group (see `local_index`).
pub fn get_local_index(index: i32, start: u32) -> (r: Option<u32>)
    ensures
        r == local_index(index, start),
{
    let s = start as i32;
    let d: i64 = index as i64 - s as i64;
    if d < -2147483648 || d > 2147483647 {
        None
    } else if d >= 0 {
        Some(d as u32)
    } else {
        Some((d + 0x1_0000_0000i64) as u32)
    }
}

/// The top left corner of a sprite in the image of its group (see
/// `spec_tile_position`).
pub fn tile_position(index: i32, start: u32, width: u32, height: u32) -> (r: Option<(u32, u32)>)
    ensures
        r == spec_tile_position(index, start, width, height),
{
    match get_local_index(index, start) {
        None => None,
        Some(l) => {
            let col: u64 = (l % AMOUNT_OF_SPRITES_PER_ROW) as u64;
            let row: u64 = (l / AMOUNT_OF_SPRITES_PER_ROW) as u64;
            assert(col * width <= 0xffff_ffff * 0xffff_ffff) by (nonlinear_arith)
                requires
                    col <= 0xffff_ffff,
                    width <= 0xffff_ffff,
            ;
            assert(row * height <= 0xffff_ffff * 0xffff_ffff) by (nonlinear_arith)
                requires
                    row <= 0xffff_ffff,
                    height <= 0xffff_ffff,
            ;
            let x: u64 = col * width as u64;
            let y: u64 = row * height as u64;
            if x <= 0xffff_ffff && y <= 0xffff_ffff {
                Some((x as u32, y as u32))
            } else {
                None
            }
        },
    }
}

/// Where a sprite is cut from the image of its group.
#[derive(Debug, Clone, Copy)]
pub struct TextureCut {
    pub index: i32,
    /// The position of the group in the tileset.
    pub group: usize,
    pub x: u32,
    pub y: u32,
    pub width: u32,
    pub height: u32,
}

/// What the cuts of one group share: its position, its range of indices and the size
/// of its sprites.
#[derive(Debug, Clone, Copy)]
pub struct GroupFrame {
    pub group: usize,
    pub start: u32,
    pub end: u32,
    pub width: u32,
    pub height: u32,
}

/// The cuts held as a sequence, or none.
pub open spec fn cuts_view(r: Option<Vec<TextureCut>>) -> Option<Seq<TextureCut>> {
    match r {
        None => None,
        Some(v) => Some(v@),
    }
}

/// Some cut already has this index.
pub open spec fn has_cut(cuts: Seq<TextureCut>, index: i32) -> bool {
    exists|i: int| 0 <= i < cuts.len() && #[trigger] cuts[i].index == index
}

/// The cut of sprite `index` in a group, or none where its position overflows.
pub open spec fn cut_at(index: i32, f: GroupFrame) -> Option<TextureCut> {
    match spec_tile_position(index, f.start, f.width, f.height) {
        None => None,
        Some(p) => Some(
            TextureCut { index, group: f.group, x: p.0, y: p.1, width: f.width, height: f.height },
        ),
    }
}

/// A sprite of a list: it is cut unless some cut has its index already; the range of
/// the group is not consulted.
pub open spec fn add_listed(cuts: Seq<TextureCut>, index: i32, f: GroupFrame) -> Option<
    Seq<TextureCut>,
> {
    if has_cut(cuts, index) {
        Some(cuts)
    } else {
        match cut_at(index, f) {
            None => None,
            Some(c) => Some(cuts.push(c)),
        }
    }
}

/// The sprites of a list, in order.
pub open spec fn add_list(cuts: Seq<TextureCut>, list: Seq<MeabyWeighted<i32>>, f: GroupFrame) -> Option<
    Seq<TextureCut>,
>
    decreases list.len(),
{
    if list.len() == 0 {
        Some(cuts)
    } else {
        match add_list(cuts, list.drop_last(), f) {
            None => None,
            Some(c) => add_listed(c, list.last().spec_value(), f),
        }
    }
}

/// The index lies in the range of the group, both ends included.
pub open spec fn in_range(index: i32, f: GroupFrame) -> bool {
    (f.start as i32) <= index <= (f.end as i32)
}

/// A single sprite: skipped (`.1`) when some cut has its index already or it lies
/// outside the range of its group, else cut.
pub open spec fn add_single(cuts: Seq<TextureCut>, index: i32, f: GroupFrame) -> Option<
    (Seq<TextureCut>, bool),
> {
    if has_cut(cuts, index) {
        Some((cuts, true))
    } else if local_index(index, f.start) is None {
        None
    } else if !in_range(index, f) {
        Some((cuts, true))
    } else {
        match cut_at(index, f) {
            None => None,
            Some(c) => Some((cuts.push(c), false)),
        }
    }
}

/// The sprites that a reference names; `.1` says a single sprite was skipped.
pub open spec fn add_sprite_ref(cuts: Seq<TextureCut>, r: Option<SpriteRef>, f: GroupFrame) -> Option<
    (Seq<TextureCut>, bool),
> {
    match r {
        None => Some((cuts, false)),
        Some(MeabyMulti::Multi(l)) => match add_list(cuts, l@, f) {
            None => None,
            Some(c) => Some((c, false)),
        },
        Some(MeabyMulti::Single(w)) => add_single(cuts, w.spec_value(), f),
    }
}

/// The foregrounds of the additional tiles of a multitile, in order.
pub open spec fn add_additional(cuts: Seq<TextureCut>, ats: Seq<AdditionalTile>, f: GroupFrame) -> Option<
    Seq<TextureCut>,
>
    decreases ats.len(),
{
    if ats.len() == 0 {
        Some(cuts)
    } else {
        match add_additional(cuts, ats.drop_last(), f) {
            None => None,
            Some(c) => match add_sprite_ref(c, ats.last().fg, f) {
                None => None,
                Some(p) => Some(p.0),
            },
        }
    }
}

/// The foreground of a tile, then the foregrounds of its additional tiles; a skipped
/// single foreground skips the additional tiles too.
pub open spec fn add_tile(cuts: Seq<TextureCut>, t: TilesetTileDescriptor, f: GroupFrame) -> Option<
    Seq<TextureCut>,
> {
    match add_sprite_ref(cuts, t.fg, f) {
        None => None,
        Some(p) => if p.1 {
            Some(p.0)
        } else {
            match t.additional_tiles {
                None => Some(p.0),
                Some(ats) => add_additional(p.0, ats@, f),
            }
        },
    }
}

/// The tiles of a group, in order.
pub open spec fn add_tiles(cuts: Seq<TextureCut>, ts: Seq<TilesetTileDescriptor>, f: GroupFrame) -> Option<
    Seq<TextureCut>,
>
    decreases ts.len(),
{
    if ts.len() == 0 {
        Some(cuts)
    } else {
        match add_tiles(cuts, ts.drop_last(), f) {
            None => None,
            Some(c) => add_tile(c, ts.last(), f),
        }
    }
}

/// The image of ascii fallback sprites.
pub open spec fn is_fallback_file(file: Seq<char>) -> bool {
    file == "fallback.png"@
}

/// The frame of group `gi`: its range, and its sprite size or else the tileset's.
pub open spec fn group_frame(g: TileGroup, gi: usize, info: TilesetInfo) -> Option<GroupFrame> {
    match spec_group_range(g.range) {
        None => None,
        Some(r) => Some(
            GroupFrame {
                group: gi,
                start: r.0,
                end: r.1,
                width: match g.sprite_width {
                    Some(w) => w,
                    None => info.tile_width,
                },
                height: match g.sprite_height {
                    Some(h) => h,
                    None => info.tile_height,
                },
            },
        ),
    }
}

/// The cuts of one group: none for the fallback image.
pub open spec fn add_group(cuts: Seq<TextureCut>, g: TileGroup, gi: usize, info: TilesetInfo) -> Option<
    Seq<TextureCut>,
> {
    if is_fallback_file(g.file@) {
        Some(cuts)
    } else {
        match group_frame(g, gi, info) {
            None => None,
            Some(f) => add_tiles(cuts, g.tiles@, f),
        }
    }
}

/// The cuts of the first `n` groups.
pub open spec fn texture_cuts_upto(t: LegacyTileset, n: int) -> Option<Seq<TextureCut>>
    decreases n,
{
    if n <= 0 {
        Some(Seq::empty())
    } else {
        match texture_cuts_upto(t, n - 1) {
            None => None,
            Some(c) => add_group(c, t.tiles@[n - 1], (n - 1) as usize, t.info),
        }
    }
}

/// Which sprite of which image each foreground index of a tileset is cut from, in
/// the order the tiles name them, each index once. None where loading the textures
/// fails: a group other than the fallback image without a readable range, or a
/// position that overflows.
pub open spec fn spec_texture_cuts(t: LegacyTileset) -> Option<Seq<TextureCut>> {
    texture_cuts_upto(t, t.tiles@.len() as int)
}

fn has_cut_exec(cuts: &Vec<TextureCut>, index: i32) -> (b: bool)
    ensures
        b == has_cut(cuts@, index),
{
    let mut i: usize = 0;
    while i < cuts.len()
        invariant
            i <= cuts.len(),
            forall|j: int| 0 <= j < i ==> cuts@[j].index != index,
        decreases cuts.len() - i,
    {
        if cuts[i].index == index {
            return true;
        }
        i = i + 1;
    }
    false
}

fn cut_at_exec(index: i32, f: GroupFrame) -> (r: Option<TextureCut>)
    ensures
        r == cut_at(index, f),
{
    match tile_position(index, f.start, f.width, f.height) {
        None => None,
        Some(p) => Some(
            TextureCut { index, group: f.group, x: p.0, y: p.1, width: f.width, height: f.height },
        ),
    }
}

fn add_list_exec(init: Vec<TextureCut>, list: &Vec<MeabyWeighted<i32>>, f: GroupFrame) -> (r: Option<
    Vec<TextureCut>,
>)
    ensures
        cuts_view(r) == add_list(init@, list@, f),
{
    let ghost start = init@;
    let mut cuts = init;
    let mut i: usize = 0;
    while i < list.len()
        invariant
            i <= list.len(),
            start == init@,
            add_list(start, list@.take(i as int), f) == Some(cuts@),
        decreases list.len() - i,
    {
        let index = *list[i].value();
        assert(list@.take(i + 1).drop_last() =~= list@.take(i as int));
        assert(list@.take(i + 1).last() == list@[i as int]);
        if !has_cut_exec(&cuts, index) {
            match cut_at_exec(index, f) {
                None => {
                    assert(list@.take(i + 1).last() == list@[i as int]);
                    assert(add_list(start, list@.take(i + 1), f) is None);
                    assert(add_list(start, list@, f) is None) by {
                        lemma_add_list_stays_none(start, list@, f, i + 1);
                    }
                    return None;
                },
                Some(c) => {
                    cuts.push(c);
                },
            }
        }
        i = i + 1;
    }
    assert(list@.take(list.len() as int) =~= list@);
    Some(cuts)
}

proof fn lemma_add_list_stays_none(
    cuts: Seq<TextureCut>,
    list: Seq<MeabyWeighted<i32>>,
    f: GroupFrame,
    n: int,
)
    requires
        0 <= n <= list.len(),
        add_list(cuts, list.take(n), f) is None,
    ensures
        add_list(cuts, list, f) is None,
    decreases list.len() - n,
{
    if n < list.len() {
        assert(list.take(n + 1).drop_last() =~= list.take(n));
        lemma_add_list_stays_none(cuts, list, f, n + 1);
    } else {
        assert(list.take(n) =~= list);
    }
}

fn add_single_exec(init: Vec<TextureCut>, index: i32, f: GroupFrame) -> (r: Option<
    (Vec<TextureCut>, bool),
>)
    ensures
        match r {
            None => add_single(init@, index, f) is None,
            Some(p) => add_single(init@, index, f) == Some((p.0@, p.1)),
        },
{
    let mut cuts = init;
    if has_cut_exec(&cuts, index) {
        return Some((cuts, true));
    }
    if get_local_index(index, f.start).is_none() {
        return None;
    }
    if index < f.start as i32 || index > f.end as i32 {
        return Some((cuts, true));
    }
    match cut_at_exec(index, f) {
        None => None,
        Some(c) => {
            cuts.push(c);
            Some((cuts, false))
        },
    }
}

fn add_sprite_ref_exec(init: Vec<TextureCut>, r: &Option<SpriteRef>, f: GroupFrame) -> (res: Option<
    (Vec<TextureCut>, bool),
>)
    ensures
        match res {
            None => add_sprite_ref(init@, *r, f) is None,
            Some(p) => add_sprite_ref(init@, *r, f) == Some((p.0@, p.1)),
        },
{
    match r {
        None => Some((init, false)),
        Some(MeabyMulti::Multi(l)) => match add_list_exec(init, l, f) {
            None => None,
            Some(c) => Some((c, false)),
        },
        Some(MeabyMulti::Single(w)) => add_single_exec(init, *w.value(), f),
    }
}

proof fn lemma_add_additional_stays_none(
    cuts: Seq<TextureCut>,
    ats: Seq<AdditionalTile>,
    f: GroupFrame,
    n: int,
)
    requires
        0 <= n <= ats.len(),
        add_additional(cuts, ats.take(n), f) is None,
    ensures
        add_additional(cuts, ats, f) is None,
    decreases ats.len() - n,
{
    if n < ats.len() {
        assert(ats.take(n + 1).drop_last() =~= ats.take(n));
        lemma_add_additional_stays_none(cuts, ats, f, n + 1);
    } else {
        assert(ats.take(n) =~= ats);
    }
}

fn add_additional_exec(init: Vec<TextureCut>, ats: &Vec<AdditionalTile>, f: GroupFrame) -> (r: Option<
    Vec<TextureCut>,
>)
    ensures
        cuts_view(r) == add_additional(init@, ats@, f),
{
    let ghost start = init@;
    let mut cuts = init;
    let mut i: usize = 0;
    while i < ats.len()
        invariant
            i <= ats.len(),
            start == init@,
            add_additional(start, ats@.take(i as int), f) == Some(cuts@),
        decreases ats.len() - i,
    {
        assert(ats@.take(i + 1).drop_last() =~= ats@.take(i as int));
        assert(ats@.take(i + 1).last() == ats@[i as int]);
        match add_sprite_ref_exec(cuts, &ats[i].fg, f) {
            None => {
                assert(add_additional(start, ats@.take(i + 1), f) is None);
                proof {
                    lemma_add_additional_stays_none(start, ats@, f, i + 1);
                }
                return None;
            },
            Some(p) => {
                cuts = p.0;
            },
        }
        i = i + 1;
    }
    assert(ats@.take(ats.len() as int) =~= ats@);
    Some(cuts)
}

fn add_tile_exec(init: Vec<TextureCut>, t: &TilesetTileDescriptor, f: GroupFrame) -> (r: Option<
    Vec<TextureCut>,
>)
    ensures
        cuts_view(r) == add_tile(init@, *t, f),
{
    match add_sprite_ref_exec(init, &t.fg, f) {
        None => None,
        Some(p) => {
            if p.1 {
                Some(p.0)
            } else {
                match &t.additional_tiles {
                    None => Some(p.0),
                    Some(ats) => add_additional_exec(p.0, ats, f),
                }
            }
        },
    }
}

proof fn lemma_add_tiles_stays_none(
    cuts: Seq<TextureCut>,
    ts: Seq<TilesetTileDescriptor>,
    f: GroupFrame,
    n: int,
)
    requires
        0 <= n <= ts.len(),
        add_tiles(cuts, ts.take(n), f) is None,
    ensures
        add_tiles(cuts, ts, f) is None,
    decreases ts.len() - n,
{
    if n < ts.len() {
        assert(ts.take(n + 1).drop_last() =~= ts.take(n));
        lemma_add_tiles_stays_none(cuts, ts, f, n + 1);
    } else {
        assert(ts.take(n) =~= ts);
    }
}

fn add_tiles_exec(init: Vec<TextureCut>, ts: &Vec<TilesetTileDescriptor>, f: GroupFrame) -> (r: Option<
    Vec<TextureCut>,
>)
    ensures
        cuts_view(r) == add_tiles(init@, ts@, f),
{
    let ghost start = init@;
    let mut cuts = init;
    let mut i: usize = 0;
    while i < ts.len()
        invariant
            i <= ts.len(),
            start == init@,
            add_tiles(start, ts@.take(i as int), f) == Some(cuts@),
        decreases ts.len() - i,
    {
        assert(ts@.take(i + 1).drop_last() =~= ts@.take(i as int));
        assert(ts@.take(i + 1).last() == ts@[i as int]);
        match add_tile_exec(cuts, &ts[i], f) {
            None => {
                assert(add_tiles(start, ts@.take(i + 1), f) is None);
                proof {
                    lemma_add_tiles_stays_none(start, ts@, f, i + 1);
                }
                return None;
            },
            Some(c) => {
                cuts = c;
            },
        }
        i = i + 1;
    }
    assert(ts@.take(ts.len() as int) =~= ts@);
    Some(cuts)
}

/// Whether a file is the image of ascii fallback sprites.
pub fn is_fallback(file: &String) -> (b: bool)
    ensures
        b == is_fallback_file(file@),
{
    let name = String::from_str("fallback.png");
    *file == name
}

fn group_frame_exec(g: &TileGroup, gi: usize, info: TilesetInfo) -> (r: Option<GroupFrame>)
    ensures
        r == group_frame(*g, gi, info),
{
    match group_range(&g.range) {
        None => None,
        Some(r) => Some(
            GroupFrame {
                group: gi,
                start: r.0,
                end: r.1,
                width: match g.sprite_width {
                    Some(w) => w,
                    None => info.tile_width,
                },
                height: match g.sprite_height {
                    Some(h) => h,
                    None => info.tile_height,
                },
            },
        ),
    }
}

proof fn lemma_texture_cuts_stays_none(t: LegacyTileset, n: int)
    requires
        0 <= n <= t.tiles@.len(),
        texture_cuts_upto(t, n) is None,
    ensures
        spec_texture_cuts(t) is None,
    decreases t.tiles@.len() - n,
{
    if n < t.tiles@.len() {
        lemma_texture_cuts_stays_none(t, n + 1);
    }
}

/// Which sprite of which group image each foreground index of the tileset is cut from
/// (see `spec_texture_cuts`). None where loading the textures fails.
pub fn texture_cuts(t: &LegacyTileset) -> (r: Option<Vec<TextureCut>>)
    ensures
        cuts_view(r) == spec_texture_cuts(*t),
{
    let mut cuts: Vec<TextureCut> = Vec::new();
    let mut i: usize = 0;
    while i < t.tiles.len()
        invariant
            i <= t.tiles.len(),
            texture_cuts_upto(*t, i as int) == Some(cuts@),
        decreases t.tiles.len() - i,
    {
        let g = &t.tiles[i];
        if !is_fallback(&g.file) {
            match group_frame_exec(g, i, t.info) {
                None => {
                    proof {
                        lemma_texture_cuts_stays_none(*t, i + 1);
                    }
                    return None;
                },
                Some(f) => match add_tiles_exec(cuts, &g.tiles, f) {
                    None => {
                        proof {
                            lemma_texture_cuts_stays_none(*t, i + 1);
                        }
                        return None;
                    },
                    Some(c) => {
                        cuts = c;
                    },
                },
            }
        }
        i = i + 1;
    }
    Some(cuts)
}

/// The ascii characters of the fallback image with the number of their sprite,
/// counted from the offset of a color. Some sprites at the start and the end of
/// each color are left out.
pub open spec fn fallback_tile_mapping() -> Seq<(char, u32)> {
    seq![
        ('!', 33u32),
        ('#', 35u32),
        ('$', 36u32),
        ('%', 37u32),
        ('&', 38u32),
        ('(', 40u32),
        (')', 41u32),
        ('*', 42u32),
        ('+', 43u32),
        ('0', 48u32),
        ('1', 49u32),
        ('2', 50u32),
        ('3', 51u32),
        ('4', 52u32),
        ('5', 53u32),
        ('6', 54u32),
        ('7', 55u32),
        ('8', 56u32),
        ('9', 57u32),
        (':', 58u32),
        (';', 59u32),
        ('<', 60u32),
        ('=', 61u32),
        ('?', 62u32),
        ('@', 63u32),
        ('A', 64u32),
        ('B', 65u32),
        ('C', 66u32),
        ('D', 67u32),
        ('E', 68u32),
        ('F', 69u32),
        ('G', 70u32),
        ('H', 71u32),
        ('I', 72u32),
        ('J', 73u32),
        ('K', 74u32),
        ('L', 75u32),
        ('M', 76u32),
        ('N', 77u32),
        ('O', 78u32),
        ('P', 79u32),
        ('Q', 80u32),
        ('R', 81u32),
        ('S', 82u32),
        ('T', 83u32),
        ('U', 84u32),
        ('V', 85u32),
        ('W', 86u32),
        ('X', 87u32),
        ('Y', 88u32),
        ('Z', 89u32),
        ('[', 90u32),
        ('\\', 91u32),
        (']', 92u32),
        ('^', 93u32),
        ('_', 94u32),
        ('`', 95u32),
        ('{', 122u32),
        ('}', 124u32),
        ('|', 178u32)
    ]
}

/// The characters of the fallback image with the numbers of their sprites (see
/// `fallback_tile_mapping`).
#[verifier::spinoff_prover]
#[verifier::rlimit(40)]
pub fn fallback_tile_mapping_exec() -> (r: Vec<(char, u32)>)
    ensures
        r@ == fallback_tile_mapping(),
{
    let mut r: Vec<(char, u32)> = Vec::new();
    r.push(('!', 33));
    r.push(('#', 35));
    r.push(('$', 36));
    r.push(('%', 37));
    r.push(('&', 38));
    r.push(('(', 40));
    r.push((')', 41));
    r.push(('*', 42));
    r.push(('+', 43));
    r.push(('0', 48));
    r.push(('1', 49));
    r.push(('2', 50));
    r.push(('3', 51));
    r.push(('4', 52));
    r.push(('5', 53));
    r.push(('6', 54));
    r.push(('7', 55));
    r.push(('8', 56));
    r.push(('9', 57));
    r.push((':', 58));
    r.push((';', 59));
    r.push(('<', 60));
    r.push(('=', 61));
    r.push(('?', 62));
    r.push(('@', 63));
    r.push(('A', 64));
    r.push(('B', 65));
    r.push(('C', 66));
    r.push(('D', 67));
    r.push(('E', 68));
    r.push(('F', 69));
    r.push(('G', 70));
    r.push(('H', 71));
    r.push(('I', 72));
    r.push(('J', 73));
    r.push(('K', 74));
    r.push(('L', 75));
    r.push(('M', 76));
    r.push(('N', 77));
    r.push(('O', 78));
    r.push(('P', 79));
    r.push(('Q', 80));
    r.push(('R', 81));
    r.push(('S', 82));
    r.push(('T', 83));
    r.push(('U', 84));
    r.push(('V', 85));
    r.push(('W', 86));
    r.push(('X', 87));
    r.push(('Y', 88));
    r.push(('Z', 89));
    r.push(('[', 90));
    r.push(('\\', 91));
    r.push((']', 92));
    r.push(('^', 93));
    r.push(('_', 94));
    r.push(('`', 95));
    r.push(('{', 122));
    r.push(('}', 124));
    r.push(('|', 178));
    assert(r@ =~= fallback_tile_mapping());
    r
}

/// A decoded image: `width * height` pixels row by row, four bytes (RGBA) each.
#[derive(Debug)]
pub struct RgbaImage {
    pub width: u32,
    pub height: u32,
    pub pixels: Vec<u8>,
}

/// The value of a decoded image: its size and its pixel bytes.
pub struct ImageView {
    pub width: u32,
    pub height: u32,
    pub pixels: Seq<u8>,
}

impl View for RgbaImage {
    type V = ImageView;

    open spec fn view(&self) -> ImageView {
        ImageView { width: self.width, height: self.height, pixels: self.pixels@ }
    }
}

/// The values of a list of images.
pub open spec fn image_views(s: Seq<RgbaImage>) -> Seq<ImageView> {
    s.map_values(|i: RgbaImage| i@)
}

/// The image holds all its pixels.
pub open spec fn image_holds(img: ImageView) -> bool {
    img.pixels.len() >= 4 * img.width * img.height
}

/// A rectangle lies within the image.
pub open spec fn fits_in(img: ImageView, x: u32, y: u32, w: u32, h: u32) -> bool {
    x + w <= img.width && y + h <= img.height
}

/// The pixels of the `w` by `h` rectangle at `(x, y)` of an image `image_width`
/// pixels wide, row by row, four bytes each.
pub open spec fn cropped(pixels: Seq<u8>, image_width: u32, x: u32, y: u32, w: u32, h: u32) -> Seq<u8> {
    Seq::new(
        (4 * w * h) as nat,
        |i: int| pixels[((y + (i / 4) / (w as int)) * image_width + x + (i / 4) % (w as int)) * 4 + i % 4],
    )
}

/// Cuts a rectangle out of an image with the `image` crate: `ImageBuffer::from_raw`,
/// `GenericImageView::view` and `SubImage::to_image`. Trusted to give the pixels of
/// the rectangle row by row, as the crate's source copies them pixel by pixel.
#[verifier::external_body]
fn crop_rgba(img: &RgbaImage, x: u32, y: u32, w: u32, h: u32) -> (r: Vec<u8>)
    requires
        image_holds(img@),
        fits_in(img@, x, y, w, h),
    ensures
        r@ == cropped(img.pixels@, img.width, x, y, w, h),
{
    let buffer: image::ImageBuffer<image::Rgba<u8>, Vec<u8>> = image::ImageBuffer::from_raw(
        img.width,
        img.height,
        img.pixels.clone(),
    ).unwrap();
    image::GenericImageView::view(&buffer, x, y, w, h).to_image().into_raw()
}

/// The image of the cut's group holds its pixels and the cut lies within it.
pub open spec fn cut_ok(c: TextureCut, images: Seq<ImageView>) -> bool {
    &&& c.group < images.len()
    &&& image_holds(images[c.group as int])
    &&& fits_in(images[c.group as int], c.x, c.y, c.width, c.height)
}

/// Every cut lies within the image of its group.
pub open spec fn all_cuts_ok(cuts: Seq<TextureCut>, images: Seq<ImageView>) -> bool {
    forall|i: int| 0 <= i < cuts.len() ==> cut_ok(#[trigger] cuts[i], images)
}

/// The pixels of a cut.
pub open spec fn cut_pixels(c: TextureCut, images: Seq<ImageView>) -> Seq<u8> {
    let img = images[c.group as int];
    cropped(img.pixels, img.width, c.x, c.y, c.width, c.height)
}

fn image_holds_exec(img: &RgbaImage) -> (b: bool)
    ensures
        b == image_holds(img@),
{
    let w: u128 = img.width as u128;
    let h: u128 = img.height as u128;
    assert(w * h <= 0xffff_ffff * 0xffff_ffff) by (nonlinear_arith)
        requires
            w <= 0xffff_ffff,
            h <= 0xffff_ffff,
    ;
    let need: u128 = 4 * (w * h);
    assert(need == 4 * img.width * img.height) by (nonlinear_arith)
        requires
            need == 4 * (w * h),
            w == img.width,
            h == img.height,
    ;
    img.pixels.len() as u128 >= need
}

fn fits_in_exec(img: &RgbaImage, x: u32, y: u32, w: u32, h: u32) -> (b: bool)
    ensures
        b == fits_in(img@, x, y, w, h),
{
    x as u64 + w as u64 <= img.width as u64 && y as u64 + h as u64 <= img.height as u64
}

/// The pixels of each cut, in the order of the cuts, with its index. None where a cut
/// does not lie within the image of its group.
pub fn cut_textures(cuts: &Vec<TextureCut>, images: &Vec<RgbaImage>) -> (r: Option<Vec<(i32, Vec<u8>)>>)
    ensures
        r is Some <==> all_cuts_ok(cuts@, image_views(images@)),
        r matches Some(v) ==> v.len() == cuts.len() && forall|i: int|
            0 <= i < cuts.len() ==> (#[trigger] v@[i]).0 == cuts@[i].index && v@[i].1@ == cut_pixels(
                cuts@[i],
                image_views(images@),
            ),
{
    let mut out: Vec<(i32, Vec<u8>)> = Vec::new();
    let mut i: usize = 0;
    while i < cuts.len()
        invariant
            i <= cuts.len(),
            out.len() == i,
            forall|j: int| 0 <= j < i ==> cut_ok(#[trigger] cuts@[j], image_views(images@)),
            forall|j: int|
                0 <= j < i ==> (#[trigger] out@[j]).0 == cuts@[j].index && out@[j].1@ == cut_pixels(
                    cuts@[j],
                    image_views(images@),
                ),
        decreases cuts.len() - i,
    {
        let c = cuts[i];
        if c.group >= images.len() {
            return None;
        }
        let img = &images[c.group];
        if !image_holds_exec(img) || !fits_in_exec(img, c.x, c.y, c.width, c.height) {
            return None;
        }
        let pixels = crop_rgba(img, c.x, c.y, c.width, c.height);
        out.push((c.index, pixels));
        i = i + 1;
    }
    Some(out)
}

/// The key of a fallback sprite: its character, `_` and the name of its color.
pub open spec fn fallback_key(ch: char, color: Seq<char>) -> Seq<char> {
    seq![ch, '_'] + color
}

/// Where sprite `number` of a color at `offset` lies in the fallback image: the
/// sprite after `offset + number`, sixteen a row. None where the arithmetic
/// overflows.
pub open spec fn fallback_position(offset: u32, number: u32, info: TilesetInfo) -> Option<(u32, u32)> {
    let v = offset + 1 + number;
    if v > u32::MAX {
        None
    } else {
        let x = (v % 16) * info.tile_width;
        let y = (v / 16) * info.tile_height;
        if x <= u32::MAX && y <= u32::MAX {
            Some((x as u32, y as u32))
        } else {
            None
        }
    }
}

/// The fallback sprite of character `number` in a color whose sprites start at
/// `offset` is the sprite numbered `offset + 1 + number` of the fallback image: it lies
/// where a tile sprite of that number lies in a group that starts at 0.
pub proof fn lemma_fallback_sprite_is_numbered_from_its_color_offset(offset: u32, number: u32, info: TilesetInfo)
    requires
        offset + 1 + number <= i32::MAX,
    ensures
        fallback_position(offset, number, info) == spec_tile_position(
            (offset + 1 + number) as i32,
            0,
            info.tile_width,
            info.tile_height,
        ),
{
}

/// Two colors at different offsets give the same character two different sprites,
/// when sprites have a size.
pub proof fn lemma_colors_at_different_offsets_differ(o1: u32, o2: u32, number: u32, info: TilesetInfo)
    requires
        o1 != o2,
        info.tile_width > 0,
        info.tile_height > 0,
        fallback_position(o1, number, info) is Some,
        fallback_position(o2, number, info) is Some,
    ensures
        fallback_position(o1, number, info) != fallback_position(o2, number, info),
{
    let v1: int = o1 + 1 + number;
    let v2: int = o2 + 1 + number;
    let w: int = info.tile_width as int;
    let h: int = info.tile_height as int;
    assert(v1 != v2);
    assert(v1 == (v1 / 16) * 16 + v1 % 16 && v2 == (v2 / 16) * 16 + v2 % 16) by (nonlinear_arith)
        requires
            v1 >= 0,
            v2 >= 0,
    ;
    if v1 % 16 != v2 % 16 {
        assert((v1 % 16) * w != (v2 % 16) * w) by (nonlinear_arith)
            requires
                v1 % 16 != v2 % 16,
                w > 0,
        ;
    } else {
        assert(v1 / 16 != v2 / 16);
        assert((v1 / 16) * h != (v2 / 16) * h) by (nonlinear_arith)
            requires
                v1 / 16 != v2 / 16,
                h > 0,
        ;
    }
}

/// The value of key `k` in map `m`, if any.
pub open spec fn map_get(m: Map<Seq<char>, Seq<u8>>, k: Seq<char>) -> Option<Seq<u8>> {
    if m.dom().contains(k) {
        Some(m[k])
    } else {
        None
    }
}

/// The first `n` fallback sprites of a color added to `m`, each under its key; later
/// ones replace earlier ones with the same key.
pub open spec fn add_color_sprites(
    m: Map<Seq<char>, Seq<u8>>,
    color: AsciiTilesetDescriptor,
    img: ImageView,
    info: TilesetInfo,
    n: int,
) -> Option<Map<Seq<char>, Seq<u8>>>
    decreases n,
{
    if n <= 0 {
        Some(m)
    } else {
        match add_color_sprites(m, color, img, info, n - 1) {
            None => None,
            Some(m2) => {
                let e = fallback_tile_mapping()[n - 1];
                match fallback_position(color.offset, e.1, info) {
                    None => None,
                    Some(p) => if image_holds(img) && fits_in(
                        img,
                        p.0,
                        p.1,
                        info.tile_width,
                        info.tile_height,
                    ) {
                        Some(
                            m2.insert(
                                fallback_key(e.0, color.color@),
                                cropped(
                                    img.pixels,
                                    img.width,
                                    p.0,
                                    p.1,
                                    info.tile_width,
                                    info.tile_height,
                                ),
                            ),
                        )
                    } else {
                        None
                    },
                }
            },
        }
    }
}

/// The fallback sprites of the colors, in order.
pub open spec fn add_colors(
    m: Map<Seq<char>, Seq<u8>>,
    colors: Seq<AsciiTilesetDescriptor>,
    img: ImageView,
    info: TilesetInfo,
) -> Option<Map<Seq<char>, Seq<u8>>>
    decreases colors.len(),
{
    if colors.len() == 0 {
        Some(m)
    } else {
        match add_colors(m, colors.drop_last(), img, info) {
            None => None,
            Some(m2) => add_color_sprites(
                m2,
                colors.last(),
                img,
                info,
                fallback_tile_mapping().len() as int,
            ),
        }
    }
}

/// The fallback sprites of the first `n` groups; only the fallback image has any,
/// and it must list its colors and have its image.
pub open spec fn fallback_textures_upto(t: LegacyTileset, images: Seq<ImageView>, n: int) -> Option<
    Map<Seq<char>, Seq<u8>>,
>
    decreases n,
{
    if n <= 0 {
        Some(Map::empty())
    } else {
        match fallback_textures_upto(t, images, n - 1) {
            None => None,
            Some(m) => {
                let g = t.tiles@[n - 1];
                if !is_fallback_file(g.file@) {
                    Some(m)
                } else {
                    match g.ascii {
                        None => None,
                        Some(a) => if n - 1 < images.len() {
                            add_colors(m, a@, images[n - 1], t.info)
                        } else {
                            None
                        },
                    }
                }
            },
        }
    }
}

/// The ascii fallback sprites of a tileset by key (`!_WHITE`, ...), cut from the
/// image of its fallback group. None where that fails: the group lists no colors,
/// a position overflows or does not lie within the image.
pub open spec fn spec_fallback_textures(t: LegacyTileset, images: Seq<ImageView>) -> Option<
    Map<Seq<char>, Seq<u8>>,
> {
    fallback_textures_upto(t, images, t.tiles@.len() as int)
}

/// The text of a character. Calls `char::to_string`.
#[verifier::external_body]
fn char_string(c: char) -> (r: String)
    ensures
        r@ == seq![c],
{
    c.to_string()
}

fn fallback_position_exec(offset: u32, number: u32, info: TilesetInfo) -> (r: Option<(u32, u32)>)
    ensures
        r == fallback_position(offset, number, info),
{
    let v: u64 = offset as u64 + 1 + number as u64;
    if v > 0xffff_ffff {
        return None;
    }
    let col: u64 = v % 16;
    let row: u64 = v / 16;
    assert(col * info.tile_width <= 0xffff_ffff * 0xffff_ffff) by (nonlinear_arith)
        requires
            col <= 0xffff_ffff,
            info.tile_width <= 0xffff_ffff,
    ;
    assert(row * info.tile_height <= 0xffff_ffff * 0xffff_ffff) by (nonlinear_arith)
        requires
            row <= 0xffff_ffff,
            info.tile_height <= 0xffff_ffff,
    ;
    let x: u64 = col * info.tile_width as u64;
    let y: u64 = row * info.tile_height as u64;
    if x <= 0xffff_ffff && y <= 0xffff_ffff {
        Some((x as u32, y as u32))
    } else {
        None
    }
}

/// The table `v` holds what map `m` maps, each key once.
pub open spec fn table_is_map(v: Seq<(String, Vec<u8>)>, m: Map<Seq<char>, Seq<u8>>) -> bool {
    &&& keys_unique(v)
    &&& forall|k: Seq<char>|
        #[trigger] map_get(m, k) == match lookup(v, k) {
            None => None,
            Some(p) => Some(p@),
        }
}

fn add_color_exec(
    table: &mut Vec<(String, Vec<u8>)>,
    mapping: &Vec<(char, u32)>,
    color: &AsciiTilesetDescriptor,
    img: &RgbaImage,
    info: TilesetInfo,
    Ghost(m): Ghost<Map<Seq<char>, Seq<u8>>>,
) -> (r: bool)
    requires
        mapping@ == fallback_tile_mapping(),
        table_is_map(old(table)@, m),
    ensures
        r <==> add_color_sprites(m, *color, img@, info, fallback_tile_mapping().len() as int) is Some,
        r ==> table_is_map(
            final(table)@,
            add_color_sprites(m, *color, img@, info, fallback_tile_mapping().len() as int).unwrap(),
        ),
{
    let ghost mut cur = m;
    let mut j: usize = 0;
    while j < mapping.len()
        invariant
            j <= mapping.len(),
            mapping@ == fallback_tile_mapping(),
            add_color_sprites(m, *color, img@, info, j as int) == Some(cur),
            table_is_map(table@, cur),
        decreases mapping.len() - j,
    {
        let e = mapping[j];
        match fallback_position_exec(color.offset, e.1, info) {
            None => {
                proof {
                    lemma_color_sprites_stays_none(m, *color, img@, info, j + 1);
                }
                return false;
            },
            Some(p) => {
                if !image_holds_exec(img) || !fits_in_exec(
                    img,
                    p.0,
                    p.1,
                    info.tile_width,
                    info.tile_height,
                ) {
                    proof {
                        lemma_color_sprites_stays_none(m, *color, img@, info, j + 1);
                    }
                    return false;
                }
                let pixels = crop_rgba(img, p.0, p.1, info.tile_width, info.tile_height);
                let mut key = char_string(e.0);
                key.append("_");
                key.append(color.color.as_str());
                proof {
                    reveal_strlit("_");
                }
                assert(key@ =~= fallback_key(e.0, color.color@));
                let ghost old_table = table@;
                let ghost old_cur = cur;
                insert(table, key, pixels);
                proof {
                    cur = cur.insert(fallback_key(e.0, color.color@), pixels@);
                    assert forall|k: Seq<char>|
                        #[trigger] map_get(cur, k) == match lookup(table@, k) {
                            None => None,
                            Some(q) => Some(q@),
                        } by {
                        if k != fallback_key(e.0, color.color@) {
                            assert(map_get(old_cur, k) == map_get(cur, k));
                        }
                    }
                }
            },
        }
        j = j + 1;
    }
    true
}

proof fn lemma_color_sprites_stays_none(
    m: Map<Seq<char>, Seq<u8>>,
    color: AsciiTilesetDescriptor,
    img: ImageView,
    info: TilesetInfo,
    n: int,
)
    requires
        0 <= n <= fallback_tile_mapping().len(),
        add_color_sprites(m, color, img, info, n) is None,
    ensures
        add_color_sprites(m, color, img, info, fallback_tile_mapping().len() as int) is None,
    decreases fallback_tile_mapping().len() - n,
{
    if n < fallback_tile_mapping().len() {
        lemma_color_sprites_stays_none(m, color, img, info, n + 1);
    }
}

proof fn lemma_add_colors_stays_none(
    m: Map<Seq<char>, Seq<u8>>,
    colors: Seq<AsciiTilesetDescriptor>,
    img: ImageView,
    info: TilesetInfo,
    n: int,
)
    requires
        0 <= n <= colors.len(),
        add_colors(m, colors.take(n), img, info) is None,
    ensures
        add_colors(m, colors, img, info) is None,
    decreases colors.len() - n,
{
    if n < colors.len() {
        assert(colors.take(n + 1).drop_last() =~= colors.take(n));
        lemma_add_colors_stays_none(m, colors, img, info, n + 1);
    } else {
        assert(colors.take(n) =~= colors);
    }
}

fn add_colors_exec(
    table: &mut Vec<(String, Vec<u8>)>,
    mapping: &Vec<(char, u32)>,
    colors: &Vec<AsciiTilesetDescriptor>,
    img: &RgbaImage,
    info: TilesetInfo,
    Ghost(m): Ghost<Map<Seq<char>, Seq<u8>>>,
) -> (r: bool)
    requires
        mapping@ == fallback_tile_mapping(),
        table_is_map(old(table)@, m),
    ensures
        r <==> add_colors(m, colors@, img@, info) is Some,
        r ==> table_is_map(final(table)@, add_colors(m, colors@, img@, info).unwrap()),
{
    let ghost mut cur = m;
    let mut i: usize = 0;
    while i < colors.len()
        invariant
            i <= colors.len(),
            mapping@ == fallback_tile_mapping(),
            add_colors(m, colors@.take(i as int), img@, info) == Some(cur),
            table_is_map(table@, cur),
        decreases colors.len() - i,
    {
        assert(colors@.take(i + 1).drop_last() =~= colors@.take(i as int));
        assert(colors@.take(i + 1).last() == colors@[i as int]);
        if !add_color_exec(table, mapping, &colors[i], img, info, Ghost(cur)) {
            proof {
                lemma_add_colors_stays_none(m, colors@, img@, info, i + 1);
            }
            return false;
        }
        proof {
            cur = add_color_sprites(
                cur,
                colors@[i as int],
                img@,
                info,
                fallback_tile_mapping().len() as int,
            ).unwrap();
        }
        i = i + 1;
    }
    assert(colors@.take(colors.len() as int) =~= colors@);
    true
}

proof fn lemma_fallback_stays_none(t: LegacyTileset, images: Seq<ImageView>, n: int)
    requires
        0 <= n <= t.tiles@.len(),
        fallback_textures_upto(t, images, n) is None,
    ensures
        spec_fallback_textures(t, images) is None,
    decreases t.tiles@.len() - n,
{
    if n < t.tiles@.len() {
        lemma_fallback_stays_none(t, images, n + 1);
    }
}

impl LegacyTileset {
    /// The pixels of each foreground sprite of the tileset by index, each index once,
    /// cut from `images`, the decoded image of each group in order. None where
    /// loading fails: see `spec_texture_cuts` and `cut_ok`.
    pub fn load_textures(&self, images: &Vec<RgbaImage>) -> (r: Option<Vec<(i32, Vec<u8>)>>)
        ensures
            spec_texture_cuts(*self) is None ==> r is None,
            spec_texture_cuts(*self) matches Some(cuts) ==> (r is Some <==> all_cuts_ok(cuts, image_views(images@))),
            spec_texture_cuts(*self) matches Some(cuts) ==> (r matches Some(v) ==> (v.len()
                == cuts.len() && forall|i: int|
                0 <= i < cuts.len() ==> (#[trigger] v@[i]).0 == cuts[i].index && v@[i].1@
                    == cut_pixels(cuts[i], image_views(images@)))),
    {
        match texture_cuts(self) {
            None => None,
            Some(cuts) => {
                let r = cut_textures(&cuts, images);
                assert(spec_texture_cuts(*self) == Some(cuts@));
                r
            },
        }
    }

    /// The ascii fallback sprites by key (`!_WHITE`, ...), each key once, cut from
    /// `images`, the decoded image of each group in order. None where loading fails
    /// (see `spec_fallback_textures`).
    pub fn load_fallback_textures(&self, images: &Vec<RgbaImage>) -> (r: Option<
        Vec<(String, Vec<u8>)>,
    >)
        ensures
            match spec_fallback_textures(*self, image_views(images@)) {
                None => r is None,
                Some(m) => r matches Some(v) && table_is_map(v@, m),
            },
    {
        let mapping = fallback_tile_mapping_exec();
        let mut table: Vec<(String, Vec<u8>)> = Vec::new();
        let ghost mut cur: Map<Seq<char>, Seq<u8>> = Map::empty();
        let mut i: usize = 0;
        while i < self.tiles.len()
            invariant
                i <= self.tiles.len(),
                mapping@ == fallback_tile_mapping(),
                fallback_textures_upto(*self, image_views(images@), i as int) == Some(cur),
                table_is_map(table@, cur),
            decreases self.tiles.len() - i,
        {
            let g = &self.tiles[i];
            if is_fallback(&g.file) {
                match &g.ascii {
                    None => {
                        proof {
                            lemma_fallback_stays_none(*self, image_views(images@), i + 1);
                        }
                        return None;
                    },
                    Some(a) => {
                        if i >= images.len() {
                            proof {
                                lemma_fallback_stays_none(*self, image_views(images@), i + 1);
                            }
                            return None;
                        }
                        if !add_colors_exec(&mut table, &mapping, a, &images[i], self.info, Ghost(cur)) {
                            proof {
                                lemma_fallback_stays_none(*self, image_views(images@), i + 1);
                            }
                            return None;
                        }
                        proof {
                            cur = add_colors(cur, a@, images@[i as int]@, self.info).unwrap();
                        }
                    },
                }
            }
            i = i + 1;
        }
        Some(table)
    }
}

/// No two cuts have the same index.
pub open spec fn cut_indices_unique(c: Seq<TextureCut>) -> bool {
    forall|i: int, j: int|
        0 <= i < c.len() && 0 <= j < c.len() && i != j ==> #[trigger] c[i].index != #[trigger] c[j].index
}

proof fn lemma_add_listed_unique(c: Seq<TextureCut>, index: i32, f: GroupFrame)
    requires
        cut_indices_unique(c),
    ensures
        add_listed(c, index, f) matches Some(d) ==> cut_indices_unique(d),
{
}

proof fn lemma_add_list_unique(c: Seq<TextureCut>, l: Seq<MeabyWeighted<i32>>, f: GroupFrame)
    requires
        cut_indices_unique(c),
    ensures
        add_list(c, l, f) matches Some(d) ==> cut_indices_unique(d),
    decreases l.len(),
{
    if l.len() > 0 {
        lemma_add_list_unique(c, l.drop_last(), f);
        if let Some(d) = add_list(c, l.drop_last(), f) {
            lemma_add_listed_unique(d, l.last().spec_value(), f);
        }
    }
}

proof fn lemma_add_sprite_ref_unique(c: Seq<TextureCut>, r: Option<SpriteRef>, f: GroupFrame)
    requires
        cut_indices_unique(c),
    ensures
        add_sprite_ref(c, r, f) matches Some(p) ==> cut_indices_unique(p.0),
{
    match r {
        Some(MeabyMulti::Multi(l)) => lemma_add_list_unique(c, l@, f),
        _ => {},
    }
}

proof fn lemma_add_additional_unique(c: Seq<TextureCut>, ats: Seq<AdditionalTile>, f: GroupFrame)
    requires
        cut_indices_unique(c),
    ensures
        add_additional(c, ats, f) matches Some(d) ==> cut_indices_unique(d),
    decreases ats.len(),
{
    if ats.len() > 0 {
        lemma_add_additional_unique(c, ats.drop_last(), f);
        if let Some(d) = add_additional(c, ats.drop_last(), f) {
            lemma_add_sprite_ref_unique(d, ats.last().fg, f);
        }
    }
}

proof fn lemma_add_tiles_unique(c: Seq<TextureCut>, ts: Seq<TilesetTileDescriptor>, f: GroupFrame)
    requires
        cut_indices_unique(c),
    ensures
        add_tiles(c, ts, f) matches Some(d) ==> cut_indices_unique(d),
    decreases ts.len(),
{
    if ts.len() > 0 {
        lemma_add_tiles_unique(c, ts.drop_last(), f);
        if let Some(d) = add_tiles(c, ts.drop_last(), f) {
            let t = ts.last();
            lemma_add_sprite_ref_unique(d, t.fg, f);
            if let Some(p) = add_sprite_ref(d, t.fg, f) {
                if let Some(ats) = t.additional_tiles {
                    lemma_add_additional_unique(p.0, ats@, f);
                }
            }
        }
    }
}

proof fn lemma_texture_cuts_upto_unique(t: LegacyTileset, n: int)
    ensures
        texture_cuts_upto(t, n) matches Some(c) ==> cut_indices_unique(c),
    decreases n,
{
    if n > 0 {
        lemma_texture_cuts_upto_unique(t, n - 1);
        if let Some(c) = texture_cuts_upto(t, n - 1) {
            let g = t.tiles@[n - 1];
            if let Some(f) = group_frame(g, (n - 1) as usize, t.info) {
                lemma_add_tiles_unique(c, g.tiles@, f);
            }
        }
    }
}

/// Loading the textures of a tileset cuts each foreground index once: the first
/// tile that names an index decides where its sprite is cut from.
pub proof fn lemma_texture_cut_indices_unique(t: LegacyTileset)
    ensures
        spec_texture_cuts(t) matches Some(c) ==> cut_indices_unique(c),
{
    lemma_texture_cuts_upto_unique(t, t.tiles@.len() as int);
}

/// A cut has the sprite size of the group it is cut from: the group's own sprite width
/// and height where the group sets them, else the tile size of the tileset.
pub open spec fn sized_as_its_group(c: TextureCut, t: LegacyTileset) -> bool {
    &&& c.group < t.tiles@.len()
    &&& c.width == match t.tiles@[c.group as int].sprite_width {
        Some(w) => w,
        None => t.info.tile_width,
    }
    &&& c.height == match t.tiles@[c.group as int].sprite_height {
        Some(h) => h,
        None => t.info.tile_height,
    }
}

/// Every cut has the sprite size of its group.
pub open spec fn all_sized(c: Seq<TextureCut>, t: LegacyTileset) -> bool {
    forall|i: int| 0 <= i < c.len() ==> sized_as_its_group(#[trigger] c[i], t)
}

/// The frame of a group of the tileset, with that group's sprite size.
spec fn frame_of_group(f: GroupFrame, t: LegacyTileset) -> bool {
    sized_as_its_group(TextureCut { index: 0, group: f.group, x: 0, y: 0, width: f.width, height: f.height }, t)
}

proof fn lemma_add_listed_sized(c: Seq<TextureCut>, index: i32, f: GroupFrame, t: LegacyTileset)
    requires
        all_sized(c, t),
        frame_of_group(f, t),
    ensures
        add_listed(c, index, f) matches Some(d) ==> all_sized(d, t),
{
    if let Some(d) = add_listed(c, index, f) {
        assert forall|i: int| 0 <= i < d.len() implies sized_as_its_group(#[trigger] d[i], t) by {
            if i < c.len() {
                assert(d[i] == c[i]);
            }
        }
    }
}

proof fn lemma_add_list_sized(c: Seq<TextureCut>, l: Seq<MeabyWeighted<i32>>, f: GroupFrame, t: LegacyTileset)
    requires
        all_sized(c, t),
        frame_of_group(f, t),
    ensures
        add_list(c, l, f) matches Some(d) ==> all_sized(d, t),
    decreases l.len(),
{
    if l.len() > 0 {
        lemma_add_list_sized(c, l.drop_last(), f, t);
        if let Some(d) = add_list(c, l.drop_last(), f) {
            lemma_add_listed_sized(d, l.last().spec_value(), f, t);
        }
    }
}

proof fn lemma_add_sprite_ref_sized(c: Seq<TextureCut>, r: Option<SpriteRef>, f: GroupFrame, t: LegacyTileset)
    requires
        all_sized(c, t),
        frame_of_group(f, t),
    ensures
        add_sprite_ref(c, r, f) matches Some(p) ==> all_sized(p.0, t),
{
    match r {
        Some(MeabyMulti::Multi(l)) => lemma_add_list_sized(c, l@, f, t),
        Some(MeabyMulti::Single(w)) => {
            if let Some(p) = add_sprite_ref(c, r, f) {
                assert forall|i: int| 0 <= i < p.0.len() implies sized_as_its_group(#[trigger] p.0[i], t) by {
                    if i < c.len() {
                        assert(p.0[i] == c[i]);
                    }
                }
            }
        },
        None => {},
    }
}

proof fn lemma_add_additional_sized(c: Seq<TextureCut>, ats: Seq<AdditionalTile>, f: GroupFrame, t: LegacyTileset)
    requires
        all_sized(c, t),
        frame_of_group(f, t),
    ensures
        add_additional(c, ats, f) matches Some(d) ==> all_sized(d, t),
    decreases ats.len(),
{
    if ats.len() > 0 {
        lemma_add_additional_sized(c, ats.drop_last(), f, t);
        if let Some(d) = add_additional(c, ats.drop_last(), f) {
            lemma_add_sprite_ref_sized(d, ats.last().fg, f, t);
        }
    }
}

proof fn lemma_add_tiles_sized(c: Seq<TextureCut>, ts: Seq<TilesetTileDescriptor>, f: GroupFrame, t: LegacyTileset)
    requires
        all_sized(c, t),
        frame_of_group(f, t),
    ensures
        add_tiles(c, ts, f) matches Some(d) ==> all_sized(d, t),
    decreases ts.len(),
{
    if ts.len() > 0 {
        lemma_add_tiles_sized(c, ts.drop_last(), f, t);
        if let Some(d) = add_tiles(c, ts.drop_last(), f) {
            let tile = ts.last();
            lemma_add_sprite_ref_sized(d, tile.fg, f, t);
            if let Some(p) = add_sprite_ref(d, tile.fg, f) {
                if let Some(ats) = tile.additional_tiles {
                    lemma_add_additional_sized(p.0, ats@, f, t);
                }
            }
        }
    }
}

proof fn lemma_texture_cuts_upto_sized(t: LegacyTileset, n: int)
    requires
        n <= t.tiles@.len(),
    ensures
        texture_cuts_upto(t, n) matches Some(c) ==> all_sized(c, t),
    decreases n,
{
    if n > 0 {
        lemma_texture_cuts_upto_sized(t, n - 1);
        if let Some(c) = texture_cuts_upto(t, n - 1) {
            let g = t.tiles@[n - 1];
            if let Some(f) = group_frame(g, (n - 1) as usize, t.info) {
                assert(t.tiles@.len() == t.tiles.len());
                assert(f.group as int == n - 1);
                assert(t.tiles@[f.group as int] == g);
                assert(frame_of_group(f, t));
                lemma_add_tiles_sized(c, g.tiles@, f, t);
            }
        }
    }
}

/// Every texture cut from a group has that group's sprite size: the group's own
/// `sprite_width` and `sprite_height` where it sets them, and the tileset's tile size
/// only where it does not.
pub proof fn lemma_texture_cuts_have_their_group_size(t: LegacyTileset)
    ensures
        spec_texture_cuts(t) matches Some(c) ==> forall|i: int| 0 <= i < c.len() ==> {
            let g = t.tiles@[(#[trigger] c[i]).group as int];
            &&& c[i].group < t.tiles@.len()
            &&& c[i].width == match g.sprite_width {
                Some(w) => w,
                None => t.info.tile_width,
            }
            &&& c[i].height == match g.sprite_height {
                Some(h) => h,
                None => t.info.tile_height,
            }
        },
{
    lemma_texture_cuts_upto_sized(t, t.tiles@.len() as int);
    if let Some(c) = spec_texture_cuts(t) {
        assert forall|i: int| 0 <= i < c.len() implies sized_as_its_group(#[trigger] c[i], t) by {}
    }
}

/// The name and the config file name read from `tileset.txt` hold no line break.
pub proof fn lemma_header_values_have_no_line_breaks(lines: Seq<String>)
    ensures
        !spec_tileset_name(lines).contains('\n'),
        !spec_config_file_name(lines).contains('\n'),
{
    if lines.len() > 0 {
        lemma_without_char(after_last(lines[0]@, "NAME: "@), '\n');
    }
    if lines.len() > 2 {
        lemma_without_char(after_last(lines[2]@, "JSON: "@), '\n');
    }
}

/// What decoding an encoded image (a PNG file) gives: its width, its height and its
/// pixels as RGBA bytes, or none where the bytes are no image that can be read.
pub uninterp spec fn decoded_rgba(bytes: Seq<u8>) -> Option<(u32, u32, Seq<u8>)>;

/// Decodes an image file with `image::load_from_memory` and converts it with
/// `DynamicImage::to_rgba8`. Trusted to give `decoded_rgba` of the bytes (decoding
/// depends on the bytes alone), and an RGBA buffer of four bytes a pixel, as the
/// crate's `ImageBuffer` holds; none where the crate returns an error.
#[verifier::external_body]
pub(crate) fn decode_rgba(bytes: &Vec<u8>) -> (r: Option<RgbaImage>)
    ensures
        match r {
            Some(i) => decoded_rgba(bytes@) == Some((i.width, i.height, i.pixels@))
                && i.pixels@.len() == 4 * i.width * i.height,
            None => decoded_rgba(bytes@) is None,
        },
{
    match image::load_from_memory(bytes.as_slice()) {
        Ok(d) => {
            let i = d.to_rgba8();
            Some(RgbaImage { width: i.width(), height: i.height(), pixels: i.into_raw() })
        },
        Err(_) => None,
    }
}

/// The image of group `g` is decoded: those of the fallback image when `fallback`,
/// those of the other groups otherwise.
pub open spec fn decodes_group(t: LegacyTileset, g: int, fallback: bool) -> bool {
    is_fallback_file(t.tiles@[g].file@) == fallback
}

/// The image decoded from a file, as a value.
pub open spec fn decoded_view(bytes: Seq<u8>) -> ImageView {
    let d = decoded_rgba(bytes).unwrap();
    ImageView { width: d.0, height: d.1, pixels: d.2 }
}

/// An image with no pixels, for a group whose image is not read.
pub open spec fn empty_view() -> ImageView {
    ImageView { width: 0, height: 0, pixels: Seq::empty() }
}

/// The images of the groups, each decoded from the file at its position, for the
/// groups that `fallback` selects (see `decodes_group`); the others get an empty
/// image. None where a selected group has no file, or its file does not decode.
pub open spec fn decoded_groups(t: LegacyTileset, files: Seq<Vec<u8>>, fallback: bool) -> Option<
    Seq<ImageView>,
> {
    if forall|g: int|
        0 <= g < t.tiles@.len() && #[trigger] decodes_group(t, g, fallback) ==> g < files.len()
            && decoded_rgba(files[g]@) is Some {
        Some(
            Seq::new(
                t.tiles@.len(),
                |g: int|
                    if decodes_group(t, g, fallback) {
                        decoded_view(files[g]@)
                    } else {
                        empty_view()
                    },
            ),
        )
    } else {
        None
    }
}

fn decode_groups(t: &LegacyTileset, files: &Vec<Vec<u8>>, fallback: bool) -> (r: Option<Vec<RgbaImage>>)
    ensures
        match r {
            None => decoded_groups(*t, files@, fallback) is None,
            Some(v) => decoded_groups(*t, files@, fallback) == Some(image_views(v@)),
        },
{
    let mut out: Vec<RgbaImage> = Vec::new();
    let mut g: usize = 0;
    while g < t.tiles.len()
        invariant
            g <= t.tiles@.len(),
            out@.len() == g,
            forall|k: int|
                0 <= k < g && #[trigger] decodes_group(*t, k, fallback) ==> k < files@.len()
                    && decoded_rgba(files@[k]@) is Some,
            forall|k: int|
                0 <= k < g ==> (#[trigger] out@[k])@ == if decodes_group(*t, k, fallback) {
                    decoded_view(files@[k]@)
                } else {
                    empty_view()
                },
        decreases t.tiles@.len() - g,
    {
        if is_fallback(&t.tiles[g].file) == fallback {
            assert(decodes_group(*t, g as int, fallback));
            if g >= files.len() {
                return None;
            }
            match decode_rgba(&files[g]) {
                None => {
                    return None;
                },
                Some(img) => {
                    out.push(img);
                },
            }
        } else {
            assert(!decodes_group(*t, g as int, fallback));
            let empty = RgbaImage { width: 0, height: 0, pixels: Vec::new() };
            assert(empty@.pixels =~= Seq::<u8>::empty());
            out.push(empty);
        }
        g = g + 1;
    }
    assert(image_views(out@) =~= decoded_groups(*t, files@, fallback).unwrap());
    Some(out)
}

impl LegacyTileset {
    /// The pixels of each foreground sprite by index, as `load_textures` cuts them
    /// from the images decoded from `files`, the file of each group in order; the
    /// fallback image is not read. None where a file is missing or does not decode,
    /// or where loading the textures fails.
    pub fn load_textures_from_files(&self, files: &Vec<Vec<u8>>) -> (r: Option<Vec<(i32, Vec<u8>)>>)
        ensures
            decoded_groups(*self, files@, false) is None ==> r is None,
            decoded_groups(*self, files@, false) matches Some(imgs) ==> {
                &&& spec_texture_cuts(*self) is None ==> r is None
                &&& spec_texture_cuts(*self) matches Some(cuts) ==> (r is Some <==> all_cuts_ok(
                    cuts,
                    imgs,
                ))
                &&& spec_texture_cuts(*self) matches Some(cuts) ==> (r matches Some(v) ==> (v.len()
                    == cuts.len() && forall|i: int|
                    0 <= i < cuts.len() ==> (#[trigger] v@[i]).0 == cuts[i].index && v@[i].1@
                        == cut_pixels(cuts[i], imgs)))
            },
    {
        match decode_groups(self, files, false) {
            None => None,
            Some(images) => self.load_textures(&images),
        }
    }

    /// The ascii fallback sprites by key, as `load_fallback_textures` cuts them from
    /// the image decoded from the file of the fallback group (`files` holds the file
    /// of each group in order; the other images are not read). None where that file
    /// is missing or does not decode, or where loading the sprites fails.
    pub fn load_fallback_textures_from_files(&self, files: &Vec<Vec<u8>>) -> (r: Option<
        Vec<(String, Vec<u8>)>,
    >)
        ensures
            match decoded_groups(*self, files@, true) {
                None => r is None,
                Some(imgs) => match spec_fallback_textures(*self, imgs) {
                    None => r is None,
                    Some(m) => r matches Some(v) && table_is_map(v@, m),
                },
            },
    {
        match decode_groups(self, files, true) {
            None => None,
            Some(images) => self.load_fallback_textures(&images),
        }
    }
}

/// Where output pixel `(x, y)` of an image turned clockwise by `degrees` (90, 180 or
/// 270) comes from in an image `w` by `h` pixels.
pub open spec fn turned_source(w: int, h: int, degrees: u32, x: int, y: int) -> (int, int) {
    if degrees == 90 {
        (y, h - 1 - x)
    } else if degrees == 180 {
        (w - 1 - x, h - 1 - y)
    } else {
        (w - 1 - y, x)
    }
}

/// An image turned clockwise by `degrees` (0, 90, 180 or 270): a quarter or three
/// quarter turn swaps its width and height, and each pixel comes from where
/// `turned_source` says.
pub open spec fn turned(img: ImageView, degrees: u32) -> ImageView {
    if degrees == 0 {
        img
    } else {
        let (w, h) = if degrees == 180 {
            (img.width, img.height)
        } else {
            (img.height, img.width)
        };
        ImageView {
            width: w,
            height: h,
            pixels: Seq::new(
                (4 * w * h) as nat,
                |i: int|
                    {
                        let p = i / 4;
                        let src = turned_source(
                            img.width as int,
                            img.height as int,
                            degrees,
                            p % (w as int),
                            p / (w as int),
                        );
                        img.pixels[(src.1 * img.width + src.0) * 4 + i % 4]
                    },
            ),
        }
    }
}

/// Turns an image a quarter clockwise with `image::imageops::rotate90`. Trusted to
/// give the image the crate's loop writes: output pixel `(h - 1 - y, x)` is input
/// pixel `(x, y)`.
#[verifier::external_body]
fn rotate90_rgba(img: &RgbaImage) -> (r: RgbaImage)
    requires
        image_holds(img@),
    ensures
        r@ == turned(img@, 90),
{
    let buffer: image::ImageBuffer<image::Rgba<u8>, Vec<u8>> = image::ImageBuffer::from_raw(
        img.width,
        img.height,
        img.pixels.clone(),
    ).unwrap();
    let out = image::imageops::rotate90(&buffer);
    RgbaImage { width: out.width(), height: out.height(), pixels: out.into_raw() }
}

/// Turns an image half round with `image::imageops::rotate180`. Trusted to give the
/// image the crate's loop writes: output pixel `(w - 1 - x, h - 1 - y)` is input
/// pixel `(x, y)`.
#[verifier::external_body]
fn rotate180_rgba(img: &RgbaImage) -> (r: RgbaImage)
    requires
        image_holds(img@),
    ensures
        r@ == turned(img@, 180),
{
    let buffer: image::ImageBuffer<image::Rgba<u8>, Vec<u8>> = image::ImageBuffer::from_raw(
        img.width,
        img.height,
        img.pixels.clone(),
    ).unwrap();
    let out = image::imageops::rotate180(&buffer);
    RgbaImage { width: out.width(), height: out.height(), pixels: out.into_raw() }
}

/// Turns an image three quarters clockwise with `image::imageops::rotate270`.
/// Trusted to give the image the crate's loop writes: output pixel `(y, w - 1 - x)`
/// is input pixel `(x, y)`.
#[verifier::external_body]
fn rotate270_rgba(img: &RgbaImage) -> (r: RgbaImage)
    requires
        image_holds(img@),
    ensures
        r@ == turned(img@, 270),
{
    let buffer: image::ImageBuffer<image::Rgba<u8>, Vec<u8>> = image::ImageBuffer::from_raw(
        img.width,
        img.height,
        img.pixels.clone(),
    ).unwrap();
    let out = image::imageops::rotate270(&buffer);
    RgbaImage { width: out.width(), height: out.height(), pixels: out.into_raw() }
}

/// The texture that a turned sprite of a multitile shows: the image turned clockwise
/// by `degrees` (see `turned`). None for an image that does not hold its pixels or
/// a turn other than 0, 90, 180 and 270 degrees.
pub fn turn_texture(img: &RgbaImage, degrees: u32) -> (r: Option<RgbaImage>)
    ensures
        match r {
            None => !image_holds(img@) || !(degrees == 0 || degrees == 90 || degrees == 180
                || degrees == 270),
            Some(t) => image_holds(img@) && (degrees == 0 || degrees == 90 || degrees == 180
                || degrees == 270) && t@ == turned(img@, degrees),
        },
{
    if !image_holds_exec(img) {
        return None;
    }
    if degrees == 0 {
        let mut pixels: Vec<u8> = Vec::new();
        let mut i: usize = 0;
        while i < img.pixels.len()
            invariant
                i <= img.pixels@.len(),
                pixels@ =~= img.pixels@.take(i as int),
            decreases img.pixels@.len() - i,
        {
            pixels.push(img.pixels[i]);
            i = i + 1;
        }
        assert(img.pixels@.take(i as int) =~= img.pixels@);
        Some(RgbaImage { width: img.width, height: img.height, pixels })
    } else if degrees == 90 {
        Some(rotate90_rgba(img))
    } else if degrees == 180 {
        Some(rotate180_rgba(img))
    } else if degrees == 270 {
        Some(rotate270_rgba(img))
    } else {
        None
    }
}

} // verus!
