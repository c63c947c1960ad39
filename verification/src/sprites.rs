use vstd::prelude::*;
use vstd::string::*;

use crate::common::{MeabyMulti, MeabyWeighted, Weighted};
use crate::graphics::{
    corner_from, edge_from, full_cardinal_from, sources_view, source_view, Corner, CornerView,
    Edge, EdgeView, FullCardinal, FullCardinalView, SourceView, Sprite, SpriteSource, SpriteType,
    SpriteTypeView, SpriteView, TextureHandle,
};
use crate::table::{insert, keys_unique, lookup};
use crate::tileset::{AdditionalTile, LegacyTileset, SpriteRef, TilesetTileDescriptor};

verus! {

/// A texture with this index was loaded.
pub open spec fn is_loaded(loaded: Seq<i32>, v: i32) -> bool {
    loaded.contains(v)
}

/// A listed sprite as an `(index, weight)` pair, with weight `d` when it has none.
pub open spec fn entry_pair(e: MeabyWeighted<i32>, d: u32) -> (i32, u32) {
    match e {
        MeabyWeighted::NotWeighted(v) => (v, d),
        MeabyWeighted::Weighted(w) => (w.value, w.weight),
    }
}

/// Every sprite of the list was loaded.
pub open spec fn all_loaded(l: Seq<MeabyWeighted<i32>>, loaded: Seq<i32>) -> bool {
    forall|i: int| 0 <= i < l.len() ==> is_loaded(loaded, #[trigger] l[i].spec_value())
}

/// Every weighted sprite of the list was loaded.
pub open spec fn weighted_loaded(l: Seq<MeabyWeighted<i32>>, loaded: Seq<i32>) -> bool {
    forall|i: int|
        0 <= i < l.len() && #[trigger] l[i] is Weighted ==> is_loaded(loaded, l[i].spec_value())
}

/// The loaded sprites of a list as `(index, weight)` pairs, in order.
pub open spec fn loaded_pairs(l: Seq<MeabyWeighted<i32>>, loaded: Seq<i32>, d: u32) -> Seq<(i32, u32)>
    decreases l.len(),
{
    if l.len() == 0 {
        Seq::empty()
    } else {
        let r = loaded_pairs(l.drop_last(), loaded, d);
        if is_loaded(loaded, l.last().spec_value()) {
            r.push(entry_pair(l.last(), d))
        } else {
            r
        }
    }
}

/// The source of one loaded texture.
pub open spec fn single_source(v: i32) -> SourceView {
    SourceView::Single(TextureHandle::Loaded(v))
}

/// The foreground of a tile. A single sprite that was not loaded gives none; a list
/// must be loaded whole, and its unweighted sprites get weight 0. None where the
/// loading fails.
pub open spec fn main_fg(fg: SpriteRef, loaded: Seq<i32>) -> Option<Option<SourceView>> {
    match fg {
        MeabyMulti::Single(e) => Some(
            if is_loaded(loaded, e.spec_value()) {
                Some(single_source(e.spec_value()))
            } else {
                None
            },
        ),
        MeabyMulti::Multi(l) => if all_loaded(l@, loaded) {
            Some(Some(SourceView::Weighted(l@.map_values(|e: MeabyWeighted<i32>| entry_pair(e, 0)))))
        } else {
            None
        },
    }
}

/// The background of a tile: its loaded sprites, unweighted ones with weight 0; none
/// for an empty list or a single sprite that was not loaded.
pub open spec fn main_bg(bg: Option<SpriteRef>, loaded: Seq<i32>) -> Option<SourceView> {
    match bg {
        None => None,
        Some(MeabyMulti::Single(e)) => if is_loaded(loaded, e.spec_value()) {
            Some(single_source(e.spec_value()))
        } else {
            None
        },
        Some(MeabyMulti::Multi(l)) => if l.len() > 0 {
            Some(SourceView::Weighted(loaded_pairs(l@, loaded, 0)))
        } else {
            None
        },
    }
}

/// The foreground of a `center` or `unconnected` part: a single sprite must be
/// loaded; of a list the loaded sprites, unweighted ones with weight 1, and its
/// weighted sprites must be loaded. None where the loading fails.
pub open spec fn part_fg(fg: SpriteRef, loaded: Seq<i32>) -> Option<SourceView> {
    match fg {
        MeabyMulti::Single(e) => if is_loaded(loaded, e.spec_value()) {
            Some(single_source(e.spec_value()))
        } else {
            None
        },
        MeabyMulti::Multi(l) => if weighted_loaded(l@, loaded) {
            Some(SourceView::Weighted(loaded_pairs(l@, loaded, 1)))
        } else {
            None
        },
    }
}

/// The background of a part: the loaded sprites of a list, unweighted ones with
/// weight 1; a single sprite if it was loaded.
pub open spec fn part_bg(bg: Option<SpriteRef>, loaded: Seq<i32>) -> Option<SourceView> {
    match bg {
        None => None,
        Some(MeabyMulti::Single(e)) => if is_loaded(loaded, e.spec_value()) {
            Some(single_source(e.spec_value()))
        } else {
            None
        },
        Some(MeabyMulti::Multi(l)) => Some(SourceView::Weighted(loaded_pairs(l@, loaded, 1))),
    }
}

/// The foregrounds of a part with four directions: one sprite turned by 0, 270, 180
/// and 90 degrees, or the listed sprites, which must all be loaded. None where the
/// loading fails.
pub open spec fn turned_fgs(fg: SpriteRef, loaded: Seq<i32>) -> Option<Seq<SourceView>> {
    match fg {
        MeabyMulti::Single(e) => {
            let v = e.spec_value();
            if is_loaded(loaded, v) {
                Some(
                    seq![
                        SourceView::Single(TextureHandle::Rotated(v, 0)),
                        SourceView::Single(TextureHandle::Rotated(v, 270)),
                        SourceView::Single(TextureHandle::Rotated(v, 180)),
                        SourceView::Single(TextureHandle::Rotated(v, 90)),
                    ],
                )
            } else {
                None
            }
        },
        MeabyMulti::Multi(l) => if all_loaded(l@, loaded) {
            Some(l@.map_values(|e: MeabyWeighted<i32>| single_source(e.spec_value())))
        } else {
            None
        },
    }
}

/// The parts of a multitile found so far.
pub struct MultitileParts {
    pub center: Option<Sprite>,
    pub corner: Option<Corner>,
    pub t_connection: Option<FullCardinal>,
    pub edge: Option<Edge>,
    pub end_piece: Option<FullCardinal>,
    pub unconnected: Option<Sprite>,
}

/// The value of the parts of a multitile found so far.
pub struct PartsView {
    pub center: Option<SpriteView>,
    pub corner: Option<CornerView>,
    pub t_connection: Option<FullCardinalView>,
    pub edge: Option<EdgeView>,
    pub end_piece: Option<FullCardinalView>,
    pub unconnected: Option<SpriteView>,
}

/// The view of an optional sprite.
pub open spec fn opt_sprite(s: Option<Sprite>) -> Option<SpriteView> {
    match s {
        None => None,
        Some(x) => Some(x@),
    }
}

/// The view of optional corner sprites.
pub open spec fn opt_corner(s: Option<Corner>) -> Option<CornerView> {
    match s {
        None => None,
        Some(x) => Some(x@),
    }
}

/// The view of optional sprites for the four directions.
pub open spec fn opt_cardinal(s: Option<FullCardinal>) -> Option<FullCardinalView> {
    match s {
        None => None,
        Some(x) => Some(x@),
    }
}

/// The view of optional straight-piece sprites.
pub open spec fn opt_edge(s: Option<Edge>) -> Option<EdgeView> {
    match s {
        None => None,
        Some(x) => Some(x@),
    }
}

impl View for MultitileParts {
    type V = PartsView;

    open spec fn view(&self) -> PartsView {
        PartsView {
            center: opt_sprite(self.center),
            corner: opt_corner(self.corner),
            t_connection: opt_cardinal(self.t_connection),
            edge: opt_edge(self.edge),
            end_piece: opt_cardinal(self.end_piece),
            unconnected: opt_sprite(self.unconnected),
        }
    }
}

/// No part found yet.
pub open spec fn no_parts() -> PartsView {
    PartsView {
        center: None,
        corner: None,
        t_connection: None,
        edge: None,
        end_piece: None,
        unconnected: None,
    }
}

/// The parts after an additional tile: one with a foreground sets the part its id
/// names (a later one replaces an earlier one); other ids are passed over. None where
/// the loading fails.
pub open spec fn add_part(
    p: PartsView,
    at: AdditionalTile,
    loaded: Seq<i32>,
    ox: i32,
    oy: i32,
    anim: bool,
) -> Option<PartsView> {
    match at.fg {
        None => Some(p),
        Some(fg) => {
            let bg = part_bg(at.bg, loaded);
            let id = at.id@;
            if id == "center"@ || id == "unconnected"@ {
                match part_fg(fg, loaded) {
                    None => None,
                    Some(f) => {
                        let s = SpriteView {
                            fg: Some(f),
                            bg,
                            offset_x: ox,
                            offset_y: oy,
                            is_animated: anim,
                        };
                        if id == "center"@ {
                            Some(PartsView { center: Some(s), ..p })
                        } else {
                            Some(PartsView { unconnected: Some(s), ..p })
                        }
                    },
                }
            } else if id == "corner"@ || id == "t_connection"@ || id == "edge"@ || id
                == "end_piece"@ {
                match turned_fgs(fg, loaded) {
                    None => None,
                    Some(l) => if id == "corner"@ {
                        Some(PartsView { corner: Some(corner_from(l, bg, ox, oy, anim)), ..p })
                    } else if id == "t_connection"@ {
                        Some(
                            PartsView {
                                t_connection: Some(full_cardinal_from(l, bg, ox, oy, anim)),
                                ..p
                            },
                        )
                    } else if id == "edge"@ {
                        Some(PartsView { edge: Some(edge_from(l, bg, ox, oy, anim)), ..p })
                    } else {
                        Some(
                            PartsView {
                                end_piece: Some(full_cardinal_from(l, bg, ox, oy, anim)),
                                ..p
                            },
                        )
                    },
                }
            } else {
                Some(p)
            }
        },
    }
}

/// An additional tile with a loaded foreground sets exactly the part that its id
/// names, from its foreground (turned, or listed, for the parts that face four ways)
/// and its background, and leaves every other part as it was: `center` and
/// `unconnected` set those sprites, `corner`, `t_connection`, `edge` and `end_piece`
/// set those parts. A tile without a foreground, or with an id that names no part,
/// changes nothing.
pub proof fn lemma_additional_tile_sets_the_part_it_names(
    p: PartsView,
    at: AdditionalTile,
    loaded: Seq<i32>,
    ox: i32,
    oy: i32,
    anim: bool,
)
    ensures
        at.fg is None ==> add_part(p, at, loaded, ox, oy, anim) == Some(p),
        at.fg matches Some(fg) ==> (part_fg(fg, loaded) matches Some(f) ==> {
            let s = SpriteView { fg: Some(f), bg: part_bg(at.bg, loaded), offset_x: ox, offset_y: oy, is_animated: anim };
            &&& at.id@ == "center"@ ==> add_part(p, at, loaded, ox, oy, anim) == Some(PartsView { center: Some(s), ..p })
            &&& at.id@ == "unconnected"@ ==> add_part(p, at, loaded, ox, oy, anim) == Some(PartsView { unconnected: Some(s), ..p })
        }),
        at.fg matches Some(fg) ==> (turned_fgs(fg, loaded) matches Some(l) ==> {
            let bg = part_bg(at.bg, loaded);
            &&& at.id@ == "corner"@ ==> add_part(p, at, loaded, ox, oy, anim) == Some(
                PartsView { corner: Some(corner_from(l, bg, ox, oy, anim)), ..p },
            )
            &&& at.id@ == "t_connection"@ ==> add_part(p, at, loaded, ox, oy, anim) == Some(
                PartsView { t_connection: Some(full_cardinal_from(l, bg, ox, oy, anim)), ..p },
            )
            &&& at.id@ == "edge"@ ==> add_part(p, at, loaded, ox, oy, anim) == Some(
                PartsView { edge: Some(edge_from(l, bg, ox, oy, anim)), ..p },
            )
            &&& at.id@ == "end_piece"@ ==> add_part(p, at, loaded, ox, oy, anim) == Some(
                PartsView { end_piece: Some(full_cardinal_from(l, bg, ox, oy, anim)), ..p },
            )
        }),
        at.fg is Some && at.id@ != "center"@ && at.id@ != "unconnected"@ && at.id@ != "corner"@
            && at.id@ != "t_connection"@ && at.id@ != "edge"@ && at.id@ != "end_piece"@ ==> add_part(
            p,
            at,
            loaded,
            ox,
            oy,
            anim,
        ) == Some(p),
{
    reveal_strlit("center");
    reveal_strlit("unconnected");
    reveal_strlit("corner");
    reveal_strlit("t_connection");
    reveal_strlit("edge");
    reveal_strlit("end_piece");
    let names = seq!["center"@, "unconnected"@, "corner"@, "t_connection"@, "edge"@, "end_piece"@];
    assert forall|i: int, j: int| 0 <= i < j < 6 implies names[i] != names[j] by {
        assert(names[i].len() != names[j].len() || names[i][0] != names[j][0] || names[i][1] != names[j][1]);
    }
    assert(names[0] != names[3] && names[0] != names[5] && names[3] != names[5] && names[2] != names[3]);
}

/// The parts of a multitile from its additional tiles, in order.
pub open spec fn parts_of(
    ats: Seq<AdditionalTile>,
    loaded: Seq<i32>,
    ox: i32,
    oy: i32,
    anim: bool,
) -> Option<PartsView>
    decreases ats.len(),
{
    if ats.len() == 0 {
        Some(no_parts())
    } else {
        match parts_of(ats.drop_last(), loaded, ox, oy, anim) {
            None => None,
            Some(p) => add_part(p, ats.last(), loaded, ox, oy, anim),
        }
    }
}

/// The multitile from its parts; a missing part is the default sprite, in every
/// direction.
pub open spec fn multitile_view(p: PartsView, d: SpriteView) -> SpriteTypeView {
    SpriteTypeView::Multitile {
        center: match p.center {
            Some(s) => s,
            None => d,
        },
        corner: match p.corner {
            Some(c) => c,
            None => CornerView { north_west: d, south_west: d, south_east: d, north_east: d },
        },
        t_connection: match p.t_connection {
            Some(c) => c,
            None => FullCardinalView { north: d, east: d, south: d, west: d },
        },
        edge: match p.edge {
            Some(e) => e,
            None => EdgeView { north_south: d, east_west: d },
        },
        end_piece: match p.end_piece {
            Some(c) => c,
            None => FullCardinalView { north: d, east: d, south: d, west: d },
        },
        unconnected: match p.unconnected {
            Some(s) => s,
            None => d,
        },
    }
}

/// The ids that a tile gives its sprites to.
pub open spec fn tile_ids(id: MeabyMulti<String>) -> Seq<Seq<char>> {
    match id {
        MeabyMulti::Single(s) => seq![s@],
        MeabyMulti::Multi(v) => v@.map_values(|s: String| s@),
    }
}

/// `m` with each of `ids` set to `v`.
pub open spec fn insert_all(
    m: Map<Seq<char>, SpriteTypeView>,
    ids: Seq<Seq<char>>,
    v: SpriteTypeView,
) -> Map<Seq<char>, SpriteTypeView>
    decreases ids.len(),
{
    if ids.len() == 0 {
        m
    } else {
        insert_all(m, ids.drop_last(), v).insert(ids.last(), v)
    }
}

/// Whether the tile is animated; not unless it says so.
pub open spec fn tile_animated(t: TilesetTileDescriptor) -> bool {
    match t.is_animated {
        Some(b) => b,
        None => false,
    }
}

/// The sprites of a tile set for each of its ids. A tile without a foreground is
/// passed over. Without additional tiles each id gets a single sprite; with them,
/// a multitile whose missing parts are the tile's own sprite at no offset and not
/// animated. None where the loading fails.
pub open spec fn add_sprite_tile(
    m: Map<Seq<char>, SpriteTypeView>,
    t: TilesetTileDescriptor,
    loaded: Seq<i32>,
    ox: i32,
    oy: i32,
) -> Option<Map<Seq<char>, SpriteTypeView>> {
    match t.fg {
        None => Some(m),
        Some(fg) => match main_fg(fg, loaded) {
            None => None,
            Some(mf) => {
                let mb = main_bg(t.bg, loaded);
                let anim = tile_animated(t);
                let ids = tile_ids(t.id);
                match t.additional_tiles {
                    None => Some(
                        insert_all(
                            m,
                            ids,
                            SpriteTypeView::Single(
                                SpriteView {
                                    fg: mf,
                                    bg: mb,
                                    offset_x: ox,
                                    offset_y: oy,
                                    is_animated: anim,
                                },
                            ),
                        ),
                    ),
                    Some(ats) => if ids.len() == 0 {
                        Some(m)
                    } else {
                        match parts_of(ats@, loaded, ox, oy, anim) {
                            None => None,
                            Some(p) => Some(
                                insert_all(
                                    m,
                                    ids,
                                    multitile_view(
                                        p,
                                        SpriteView {
                                            fg: mf,
                                            bg: mb,
                                            offset_x: 0,
                                            offset_y: 0,
                                            is_animated: false,
                                        },
                                    ),
                                ),
                            ),
                        }
                    },
                }
            },
        },
    }
}

/// The sprites of the tiles of a group, in order.
pub open spec fn add_sprite_tiles(
    m: Map<Seq<char>, SpriteTypeView>,
    ts: Seq<TilesetTileDescriptor>,
    loaded: Seq<i32>,
    ox: i32,
    oy: i32,
) -> Option<Map<Seq<char>, SpriteTypeView>>
    decreases ts.len(),
{
    if ts.len() == 0 {
        Some(m)
    } else {
        match add_sprite_tiles(m, ts.drop_last(), loaded, ox, oy) {
            None => None,
            Some(m2) => add_sprite_tile(m2, ts.last(), loaded, ox, oy),
        }
    }
}

/// The sprites of the first `n` groups; a group's sprites are offset by its own
/// offsets, 0 where it has none.
pub open spec fn sprites_upto(t: LegacyTileset, loaded: Seq<i32>, n: int) -> Option<
    Map<Seq<char>, SpriteTypeView>,
>
    decreases n,
{
    if n <= 0 {
        Some(Map::empty())
    } else {
        match sprites_upto(t, loaded, n - 1) {
            None => None,
            Some(m) => {
                let g = t.tiles@[n - 1];
                let ox = match g.sprite_offset_x {
                    Some(x) => x,
                    None => 0,
                };
                let oy = match g.sprite_offset_y {
                    Some(y) => y,
                    None => 0,
                };
                add_sprite_tiles(m, g.tiles@, loaded, ox, oy)
            },
        }
    }
}

/// The sprites of each tile id of a tileset, given the indices of the textures that
/// were loaded; a later tile with the same id replaces an earlier one. None where
/// the loading fails: a sprite that must be loaded was not.
pub open spec fn spec_sprites(t: LegacyTileset, loaded: Seq<i32>) -> Option<
    Map<Seq<char>, SpriteTypeView>,
> {
    sprites_upto(t, loaded, t.tiles@.len() as int)
}

fn is_loaded_exec(loaded: &Vec<i32>, v: i32) -> (b: bool)
    ensures
        b == is_loaded(loaded@, v),
{
    let mut i: usize = 0;
    while i < loaded.len()
        invariant
            i <= loaded.len(),
            forall|j: int| 0 <= j < i ==> loaded@[j] != v,
        decreases loaded.len() - i,
    {
        if loaded[i] == v {
            assert(loaded@[i as int] == v);
            return true;
        }
        i = i + 1;
    }
    false
}

fn all_loaded_exec(l: &Vec<MeabyWeighted<i32>>, loaded: &Vec<i32>) -> (b: bool)
    ensures
        b == all_loaded(l@, loaded@),
{
    let mut i: usize = 0;
    while i < l.len()
        invariant
            i <= l.len(),
            forall|j: int| 0 <= j < i ==> is_loaded(loaded@, #[trigger] l@[j].spec_value()),
        decreases l.len() - i,
    {
        if !is_loaded_exec(loaded, *l[i].value()) {
            return false;
        }
        i = i + 1;
    }
    true
}

fn weighted_loaded_exec(l: &Vec<MeabyWeighted<i32>>, loaded: &Vec<i32>) -> (b: bool)
    ensures
        b == weighted_loaded(l@, loaded@),
{
    let mut i: usize = 0;
    while i < l.len()
        invariant
            i <= l.len(),
            forall|j: int|
                0 <= j < i && #[trigger] l@[j] is Weighted ==> is_loaded(loaded@, l@[j].spec_value()),
        decreases l.len() - i,
    {
        match &l[i] {
            MeabyWeighted::Weighted(w) => {
                if !is_loaded_exec(loaded, w.value) {
                    return false;
                }
            },
            MeabyWeighted::NotWeighted(_) => {},
        }
        i = i + 1;
    }
    true
}

fn entry_weighted(e: &MeabyWeighted<i32>, d: u32) -> (r: Weighted<i32>)
    ensures
        (r.value, r.weight) == entry_pair(*e, d),
{
    match e {
        MeabyWeighted::NotWeighted(v) => Weighted::new(*v, d),
        MeabyWeighted::Weighted(w) => Weighted::new(w.value, w.weight),
    }
}

fn loaded_pairs_exec(l: &Vec<MeabyWeighted<i32>>, loaded: &Vec<i32>, d: u32) -> (r: Vec<Weighted<i32>>)
    ensures
        crate::graphics::weighted_pairs(r@) == loaded_pairs(l@, loaded@, d),
{
    let mut out: Vec<Weighted<i32>> = Vec::new();
    let mut i: usize = 0;
    while i < l.len()
        invariant
            i <= l.len(),
            crate::graphics::weighted_pairs(out@) == loaded_pairs(l@.take(i as int), loaded@, d),
        decreases l.len() - i,
    {
        assert(l@.take(i + 1).drop_last() =~= l@.take(i as int));
        assert(l@.take(i + 1).last() == l@[i as int]);
        let ghost before = out@;
        if is_loaded_exec(loaded, *l[i].value()) {
            out.push(entry_weighted(&l[i], d));
            assert(crate::graphics::weighted_pairs(out@) =~= crate::graphics::weighted_pairs(before).push(
                entry_pair(l@[i as int], d),
            ));
        }
        i = i + 1;
    }
    assert(l@.take(l.len() as int) =~= l@);
    out
}

fn main_fg_exec(fg: &SpriteRef, loaded: &Vec<i32>) -> (r: Option<Option<SpriteSource>>)
    ensures
        match r {
            None => main_fg(*fg, loaded@) is None,
            Some(o) => main_fg(*fg, loaded@) == Some(source_view(o)),
        },
{
    match fg {
        MeabyMulti::Single(e) => {
            let v = *e.value();
            if is_loaded_exec(loaded, v) {
                Some(Some(SpriteSource::Single(TextureHandle::Loaded(v))))
            } else {
                Some(None)
            }
        },
        MeabyMulti::Multi(l) => {
            if !all_loaded_exec(l, loaded) {
                return None;
            }
            let mut out: Vec<Weighted<i32>> = Vec::new();
            let mut i: usize = 0;
            while i < l.len()
                invariant
                    i <= l.len(),
                    out.len() == i,
                    forall|j: int|
                        0 <= j < i ==> ((#[trigger] out@[j]).value, out@[j].weight) == entry_pair(
                            l@[j],
                            0,
                        ),
                decreases l.len() - i,
            {
                out.push(entry_weighted(&l[i], 0));
                i = i + 1;
            }
            assert(crate::graphics::weighted_pairs(out@) =~= l@.map_values(
                |e: MeabyWeighted<i32>| entry_pair(e, 0),
            ));
            Some(Some(SpriteSource::Weighted(out)))
        },
    }
}

fn main_bg_exec(bg: &Option<SpriteRef>, loaded: &Vec<i32>) -> (r: Option<SpriteSource>)
    ensures
        source_view(r) == main_bg(*bg, loaded@),
{
    match bg {
        None => None,
        Some(MeabyMulti::Single(e)) => {
            let v = *e.value();
            if is_loaded_exec(loaded, v) {
                Some(SpriteSource::Single(TextureHandle::Loaded(v)))
            } else {
                None
            }
        },
        Some(MeabyMulti::Multi(l)) => {
            if l.len() > 0 {
                Some(SpriteSource::Weighted(loaded_pairs_exec(l, loaded, 0)))
            } else {
                None
            }
        },
    }
}

fn part_fg_exec(fg: &SpriteRef, loaded: &Vec<i32>) -> (r: Option<SpriteSource>)
    ensures
        source_view(r) == part_fg(*fg, loaded@),
{
    match fg {
        MeabyMulti::Single(e) => {
            let v = *e.value();
            if is_loaded_exec(loaded, v) {
                Some(SpriteSource::Single(TextureHandle::Loaded(v)))
            } else {
                None
            }
        },
        MeabyMulti::Multi(l) => {
            if weighted_loaded_exec(l, loaded) {
                Some(SpriteSource::Weighted(loaded_pairs_exec(l, loaded, 1)))
            } else {
                None
            }
        },
    }
}

fn part_bg_exec(bg: &Option<SpriteRef>, loaded: &Vec<i32>) -> (r: Option<SpriteSource>)
    ensures
        source_view(r) == part_bg(*bg, loaded@),
{
    match bg {
        None => None,
        Some(MeabyMulti::Single(e)) => {
            let v = *e.value();
            if is_loaded_exec(loaded, v) {
                Some(SpriteSource::Single(TextureHandle::Loaded(v)))
            } else {
                None
            }
        },
        Some(MeabyMulti::Multi(l)) => Some(SpriteSource::Weighted(loaded_pairs_exec(l, loaded, 1))),
    }
}

fn turned_fgs_exec(fg: &SpriteRef, loaded: &Vec<i32>) -> (r: Option<Vec<SpriteSource>>)
    ensures
        match r {
            None => turned_fgs(*fg, loaded@) is None,
            Some(v) => turned_fgs(*fg, loaded@) == Some(sources_view(v@)),
        },
{
    match fg {
        MeabyMulti::Single(e) => {
            let v = *e.value();
            if !is_loaded_exec(loaded, v) {
                return None;
            }
            let mut out: Vec<SpriteSource> = Vec::new();
            out.push(SpriteSource::Single(TextureHandle::Rotated(v, 0)));
            out.push(SpriteSource::Single(TextureHandle::Rotated(v, 270)));
            out.push(SpriteSource::Single(TextureHandle::Rotated(v, 180)));
            out.push(SpriteSource::Single(TextureHandle::Rotated(v, 90)));
            assert(sources_view(out@) =~= seq![
                SourceView::Single(TextureHandle::Rotated(v, 0)),
                SourceView::Single(TextureHandle::Rotated(v, 270)),
                SourceView::Single(TextureHandle::Rotated(v, 180)),
                SourceView::Single(TextureHandle::Rotated(v, 90)),
            ]);
            Some(out)
        },
        MeabyMulti::Multi(l) => {
            if !all_loaded_exec(l, loaded) {
                return None;
            }
            let mut out: Vec<SpriteSource> = Vec::new();
            let mut i: usize = 0;
            while i < l.len()
                invariant
                    i <= l.len(),
                    out.len() == i,
                    forall|j: int|
                        0 <= j < i ==> (#[trigger] out@[j])@ == single_source(l@[j].spec_value()),
                decreases l.len() - i,
            {
                out.push(SpriteSource::Single(TextureHandle::Loaded(*l[i].value())));
                i = i + 1;
            }
            assert(sources_view(out@) =~= l@.map_values(
                |e: MeabyWeighted<i32>| single_source(e.spec_value()),
            ));
            Some(out)
        },
    }
}

fn id_is(id: &String, name: &str) -> (b: bool)
    ensures
        b == (id@ == name@),
{
    let n = String::from_str(name);
    *id == n
}

fn add_part_exec(
    p: MultitileParts,
    at: &AdditionalTile,
    loaded: &Vec<i32>,
    ox: i32,
    oy: i32,
    anim: bool,
) -> (r: Option<MultitileParts>)
    ensures
        match r {
            None => add_part(p@, *at, loaded@, ox, oy, anim) is None,
            Some(q) => add_part(p@, *at, loaded@, ox, oy, anim) == Some(q@),
        },
{
    let fg = match &at.fg {
        None => {
            return Some(p);
        },
        Some(fg) => fg,
    };
    let bg = part_bg_exec(&at.bg, loaded);
    let is_center = id_is(&at.id, "center");
    let is_unconnected = id_is(&at.id, "unconnected");
    let is_corner = id_is(&at.id, "corner");
    let is_t = id_is(&at.id, "t_connection");
    let is_edge = id_is(&at.id, "edge");
    let is_end = id_is(&at.id, "end_piece");
    let mut p = p;
    if is_center || is_unconnected {
        match part_fg_exec(fg, loaded) {
            None => None,
            Some(f) => {
                let s = Sprite { fg: Some(f), bg, offset_x: ox, offset_y: oy, is_animated: anim };
                if is_center {
                    p.center = Some(s);
                } else {
                    p.unconnected = Some(s);
                }
                Some(p)
            },
        }
    } else if is_corner || is_t || is_edge || is_end {
        match turned_fgs_exec(fg, loaded) {
            None => None,
            Some(l) => {
                if is_corner {
                    p.corner = Some(Corner::from_parts(&l, &bg, ox, oy, anim));
                } else if is_t {
                    p.t_connection = Some(FullCardinal::from_parts(&l, &bg, ox, oy, anim));
                } else if is_edge {
                    p.edge = Some(Edge::from_parts(&l, &bg, ox, oy, anim));
                } else {
                    p.end_piece = Some(FullCardinal::from_parts(&l, &bg, ox, oy, anim));
                }
                Some(p)
            },
        }
    } else {
        Some(p)
    }
}

proof fn lemma_parts_of_stays_none(
    ats: Seq<AdditionalTile>,
    loaded: Seq<i32>,
    ox: i32,
    oy: i32,
    anim: bool,
    n: int,
)
    requires
        0 <= n <= ats.len(),
        parts_of(ats.take(n), loaded, ox, oy, anim) is None,
    ensures
        parts_of(ats, loaded, ox, oy, anim) is None,
    decreases ats.len() - n,
{
    if n < ats.len() {
        assert(ats.take(n + 1).drop_last() =~= ats.take(n));
        lemma_parts_of_stays_none(ats, loaded, ox, oy, anim, n + 1);
    } else {
        assert(ats.take(n) =~= ats);
    }
}

fn parts_of_exec(
    ats: &Vec<AdditionalTile>,
    loaded: &Vec<i32>,
    ox: i32,
    oy: i32,
    anim: bool,
) -> (r: Option<MultitileParts>)
    ensures
        match r {
            None => parts_of(ats@, loaded@, ox, oy, anim) is None,
            Some(q) => parts_of(ats@, loaded@, ox, oy, anim) == Some(q@),
        },
{
    let mut p = MultitileParts {
        center: None,
        corner: None,
        t_connection: None,
        edge: None,
        end_piece: None,
        unconnected: None,
    };
    let mut i: usize = 0;
    assert(ats@.take(0) =~= Seq::<AdditionalTile>::empty());
    while i < ats.len()
        invariant
            i <= ats.len(),
            parts_of(ats@.take(i as int), loaded@, ox, oy, anim) == Some(p@),
        decreases ats.len() - i,
    {
        assert(ats@.take(i + 1).drop_last() =~= ats@.take(i as int));
        assert(ats@.take(i + 1).last() == ats@[i as int]);
        match add_part_exec(p, &ats[i], loaded, ox, oy, anim) {
            None => {
                proof {
                    lemma_parts_of_stays_none(ats@, loaded@, ox, oy, anim, i + 1);
                }
                return None;
            },
            Some(q) => {
                p = q;
            },
        }
        i = i + 1;
    }
    assert(ats@.take(ats.len() as int) =~= ats@);
    Some(p)
}

fn or_default(s: &Option<Sprite>, d: &Sprite) -> (r: Sprite)
    ensures
        r@ == match opt_sprite(*s) {
            Some(x) => x,
            None => d@,
        },
{
    match s {
        Some(x) => x.copy(),
        None => d.copy(),
    }
}

fn multitile_exec(p: &MultitileParts, d: &Sprite) -> (r: SpriteType)
    ensures
        r@ == multitile_view(p@, d@),
{
    let corner = match &p.corner {
        Some(c) => c.copy(),
        None => Corner {
            north_west: d.copy(),
            south_west: d.copy(),
            south_east: d.copy(),
            north_east: d.copy(),
        },
    };
    let t_connection = match &p.t_connection {
        Some(c) => c.copy(),
        None => FullCardinal { north: d.copy(), east: d.copy(), south: d.copy(), west: d.copy() },
    };
    let edge = match &p.edge {
        Some(e) => e.copy(),
        None => Edge { north_south: d.copy(), east_west: d.copy() },
    };
    let end_piece = match &p.end_piece {
        Some(c) => c.copy(),
        None => FullCardinal { north: d.copy(), east: d.copy(), south: d.copy(), west: d.copy() },
    };
    SpriteType::Multitile {
        center: or_default(&p.center, d),
        corner,
        t_connection,
        edge,
        end_piece,
        unconnected: or_default(&p.unconnected, d),
    }
}

/// The value of key `k` in map `m`, if any.
pub open spec fn sprite_map_get(m: Map<Seq<char>, SpriteTypeView>, k: Seq<char>) -> Option<
    SpriteTypeView,
> {
    if m.dom().contains(k) {
        Some(m[k])
    } else {
        None
    }
}

/// The view of an optional sprite type.
pub open spec fn opt_sprite_type(s: Option<SpriteType>) -> Option<SpriteTypeView> {
    match s {
        None => None,
        Some(x) => Some(x@),
    }
}

/// The table `v` holds what map `m` maps, each key once.
pub open spec fn sprite_table_is(v: Seq<(String, SpriteType)>, m: Map<Seq<char>, SpriteTypeView>) -> bool {
    &&& keys_unique(v)
    &&& forall|k: Seq<char>| #[trigger] sprite_map_get(m, k) == opt_sprite_type(lookup(v, k))
}

fn insert_all_exec(
    table: &mut Vec<(String, SpriteType)>,
    ids: &MeabyMulti<String>,
    v: &SpriteType,
    Ghost(m): Ghost<Map<Seq<char>, SpriteTypeView>>,
)
    requires
        sprite_table_is(old(table)@, m),
    ensures
        sprite_table_is(final(table)@, insert_all(m, tile_ids(*ids), v@)),
{
    match ids {
        MeabyMulti::Single(id) => {
            let ghost before = table@;
            insert(table, id.clone(), v.copy());
            proof {
                let ids_s = tile_ids(*ids);
                assert(ids_s.drop_last() =~= Seq::<Seq<char>>::empty());
                assert(insert_all(m, ids_s.drop_last(), v@) == m);
                assert(insert_all(m, ids_s, v@) == m.insert(id@, v@));
                assert forall|k: Seq<char>|
                    #[trigger] sprite_map_get(m.insert(id@, v@), k) == opt_sprite_type(lookup(table@, k)) by {
                    if k != id@ {
                        assert(sprite_map_get(m, k) == opt_sprite_type(lookup(before, k)));
                    }
                }
            }
        },
        MeabyMulti::Multi(list) => {
            let ghost all = tile_ids(*ids);
            let mut i: usize = 0;
            while i < list.len()
                invariant
                    i <= list.len(),
                    all == list@.map_values(|s: String| s@),
                    sprite_table_is(table@, insert_all(m, all.take(i as int), v@)),
                decreases list.len() - i,
            {
                let ghost before = table@;
                let ghost mi = insert_all(m, all.take(i as int), v@);
                insert(table, list[i].clone(), v.copy());
                proof {
                    assert(all.take(i + 1).drop_last() =~= all.take(i as int));
                    assert(all.take(i + 1).last() == list@[i as int]@);
                    let key = list@[i as int]@;
                    assert forall|k: Seq<char>|
                        #[trigger] sprite_map_get(mi.insert(key, v@), k) == opt_sprite_type(
                            lookup(table@, k),
                        ) by {
                        if k != key {
                            assert(sprite_map_get(mi, k) == opt_sprite_type(lookup(before, k)));
                        }
                    }
                }
                i = i + 1;
            }
            assert(all.take(list.len() as int) =~= all);
        },
    }
}

fn add_sprite_tile_exec(
    table: &mut Vec<(String, SpriteType)>,
    t: &TilesetTileDescriptor,
    loaded: &Vec<i32>,
    ox: i32,
    oy: i32,
    Ghost(m): Ghost<Map<Seq<char>, SpriteTypeView>>,
) -> (r: bool)
    requires
        sprite_table_is(old(table)@, m),
    ensures
        r <==> add_sprite_tile(m, *t, loaded@, ox, oy) is Some,
        r ==> sprite_table_is(final(table)@, add_sprite_tile(m, *t, loaded@, ox, oy).unwrap()),
        !r ==> final(table)@ == old(table)@,
{
    let fg = match &t.fg {
        None => {
            return true;
        },
        Some(fg) => fg,
    };
    let mf = match main_fg_exec(fg, loaded) {
        None => {
            return false;
        },
        Some(mf) => mf,
    };
    let mb = main_bg_exec(&t.bg, loaded);
    let anim = match t.is_animated {
        Some(b) => b,
        None => false,
    };
    match &t.additional_tiles {
        None => {
            let st = SpriteType::Single(
                Sprite { fg: mf, bg: mb, offset_x: ox, offset_y: oy, is_animated: anim },
            );
            insert_all_exec(table, &t.id, &st, Ghost(m));
            true
        },
        Some(ats) => {
            let no_ids = match &t.id {
                MeabyMulti::Single(_) => false,
                MeabyMulti::Multi(v) => v.len() == 0,
            };
            if no_ids {
                return true;
            }
            match parts_of_exec(ats, loaded, ox, oy, anim) {
                None => false,
                Some(p) => {
                    let d = Sprite { fg: mf, bg: mb, offset_x: 0, offset_y: 0, is_animated: false };
                    let st = multitile_exec(&p, &d);
                    insert_all_exec(table, &t.id, &st, Ghost(m));
                    true
                },
            }
        },
    }
}

proof fn lemma_sprite_tiles_stays_none(
    m: Map<Seq<char>, SpriteTypeView>,
    ts: Seq<TilesetTileDescriptor>,
    loaded: Seq<i32>,
    ox: i32,
    oy: i32,
    n: int,
)
    requires
        0 <= n <= ts.len(),
        add_sprite_tiles(m, ts.take(n), loaded, ox, oy) is None,
    ensures
        add_sprite_tiles(m, ts, loaded, ox, oy) is None,
    decreases ts.len() - n,
{
    if n < ts.len() {
        assert(ts.take(n + 1).drop_last() =~= ts.take(n));
        lemma_sprite_tiles_stays_none(m, ts, loaded, ox, oy, n + 1);
    } else {
        assert(ts.take(n) =~= ts);
    }
}

fn add_sprite_tiles_exec(
    table: &mut Vec<(String, SpriteType)>,
    ts: &Vec<TilesetTileDescriptor>,
    loaded: &Vec<i32>,
    ox: i32,
    oy: i32,
    Ghost(m): Ghost<Map<Seq<char>, SpriteTypeView>>,
) -> (r: bool)
    requires
        sprite_table_is(old(table)@, m),
    ensures
        r <==> add_sprite_tiles(m, ts@, loaded@, ox, oy) is Some,
        r ==> sprite_table_is(final(table)@, add_sprite_tiles(m, ts@, loaded@, ox, oy).unwrap()),
{
    let ghost mut cur = m;
    let mut i: usize = 0;
    while i < ts.len()
        invariant
            i <= ts.len(),
            add_sprite_tiles(m, ts@.take(i as int), loaded@, ox, oy) == Some(cur),
            sprite_table_is(table@, cur),
        decreases ts.len() - i,
    {
        assert(ts@.take(i + 1).drop_last() =~= ts@.take(i as int));
        assert(ts@.take(i + 1).last() == ts@[i as int]);
        if !add_sprite_tile_exec(table, &ts[i], loaded, ox, oy, Ghost(cur)) {
            proof {
                lemma_sprite_tiles_stays_none(m, ts@, loaded@, ox, oy, i + 1);
            }
            return false;
        }
        proof {
            cur = add_sprite_tile(cur, ts@[i as int], loaded@, ox, oy).unwrap();
        }
        i = i + 1;
    }
    assert(ts@.take(ts.len() as int) =~= ts@);
    true
}

proof fn lemma_sprites_stays_none(t: LegacyTileset, loaded: Seq<i32>, n: int)
    requires
        0 <= n <= t.tiles@.len(),
        sprites_upto(t, loaded, n) is None,
    ensures
        spec_sprites(t, loaded) is None,
    decreases t.tiles@.len() - n,
{
    if n < t.tiles@.len() {
        lemma_sprites_stays_none(t, loaded, n + 1);
    }
}

impl LegacyTileset {
    /// The sprites of each tile id, each id once, given the indices of the textures
    /// that were loaded (see `spec_sprites`). None where that fails.
    pub fn load_sprite_handles(&self, loaded: &Vec<i32>) -> (r: Option<Vec<(String, SpriteType)>>)
        ensures
            match spec_sprites(*self, loaded@) {
                None => r is None,
                Some(m) => r matches Some(v) && sprite_table_is(v@, m),
            },
    {
        let mut table: Vec<(String, SpriteType)> = Vec::new();
        let ghost mut cur: Map<Seq<char>, SpriteTypeView> = Map::empty();
        let mut i: usize = 0;
        while i < self.tiles.len()
            invariant
                i <= self.tiles.len(),
                sprites_upto(*self, loaded@, i as int) == Some(cur),
                sprite_table_is(table@, cur),
            decreases self.tiles.len() - i,
        {
            let g = &self.tiles[i];
            let ox = match g.sprite_offset_x {
                Some(x) => x,
                None => 0,
            };
            let oy = match g.sprite_offset_y {
                Some(y) => y,
                None => 0,
            };
            if !add_sprite_tiles_exec(&mut table, &g.tiles, loaded, ox, oy, Ghost(cur)) {
                proof {
                    lemma_sprites_stays_none(*self, loaded@, i + 1);
                }
                return None;
            }
            proof {
                cur = add_sprite_tiles(cur, g.tiles@, loaded@, ox, oy).unwrap();
            }
            i = i + 1;
        }
        Some(table)
    }
}

proof fn lemma_insert_all_dom(m: Map<Seq<char>, SpriteTypeView>, ids: Seq<Seq<char>>, v: SpriteTypeView)
    ensures
        forall|k: Seq<char>| m.dom().contains(k) ==> #[trigger] insert_all(m, ids, v).dom().contains(k),
        forall|i: int| 0 <= i < ids.len() ==> insert_all(m, ids, v).dom().contains(#[trigger] ids[i]),
    decreases ids.len(),
{
    if ids.len() > 0 {
        lemma_insert_all_dom(m, ids.drop_last(), v);
        assert forall|k: Seq<char>| m.dom().contains(k) implies #[trigger] insert_all(m, ids, v).dom().contains(
            k,
        ) by {
            assert(insert_all(m, ids.drop_last(), v).dom().contains(k));
        }
        assert forall|i: int| 0 <= i < ids.len() implies insert_all(m, ids, v).dom().contains(
            #[trigger] ids[i],
        ) by {
            if i < ids.len() - 1 {
                assert(ids.drop_last()[i] == ids[i]);
            }
        }
    }
}

/// A tile gets sprites for its ids: it has a foreground.
pub open spec fn gets_sprites(t: TilesetTileDescriptor) -> bool {
    t.fg is Some
}

proof fn lemma_add_sprite_tile_dom(
    m: Map<Seq<char>, SpriteTypeView>,
    t: TilesetTileDescriptor,
    loaded: Seq<i32>,
    ox: i32,
    oy: i32,
)
    ensures
        add_sprite_tile(m, t, loaded, ox, oy) matches Some(m2) ==> {
            &&& forall|k: Seq<char>| m.dom().contains(k) ==> #[trigger] m2.dom().contains(k)
            &&& gets_sprites(t) ==> forall|i: int|
                0 <= i < tile_ids(t.id).len() ==> m2.dom().contains(#[trigger] tile_ids(t.id)[i])
        },
{
    if let Some(fg) = t.fg {
        if let Some(mf) = main_fg(fg, loaded) {
            let mb = main_bg(t.bg, loaded);
            let anim = tile_animated(t);
            let ids = tile_ids(t.id);
            match t.additional_tiles {
                None => {
                    lemma_insert_all_dom(
                        m,
                        ids,
                        SpriteTypeView::Single(
                            SpriteView {
                                fg: mf,
                                bg: mb,
                                offset_x: ox,
                                offset_y: oy,
                                is_animated: anim,
                            },
                        ),
                    );
                },
                Some(ats) => {
                    if let Some(p) = parts_of(ats@, loaded, ox, oy, anim) {
                        lemma_insert_all_dom(
                            m,
                            ids,
                            multitile_view(
                                p,
                                SpriteView {
                                    fg: mf,
                                    bg: mb,
                                    offset_x: 0,
                                    offset_y: 0,
                                    is_animated: false,
                                },
                            ),
                        );
                    }
                },
            }
        }
    }
}

proof fn lemma_add_sprite_tiles_dom(
    m: Map<Seq<char>, SpriteTypeView>,
    ts: Seq<TilesetTileDescriptor>,
    loaded: Seq<i32>,
    ox: i32,
    oy: i32,
)
    ensures
        add_sprite_tiles(m, ts, loaded, ox, oy) matches Some(m2) ==> {
            &&& forall|k: Seq<char>| m.dom().contains(k) ==> #[trigger] m2.dom().contains(k)
            &&& forall|j: int, i: int|
                0 <= j < ts.len() && gets_sprites(ts[j]) && 0 <= i < tile_ids(ts[j].id).len()
                    ==> m2.dom().contains(#[trigger] tile_ids(ts[j].id)[i])
        },
    decreases ts.len(),
{
    if ts.len() > 0 {
        lemma_add_sprite_tiles_dom(m, ts.drop_last(), loaded, ox, oy);
        if let Some(m1) = add_sprite_tiles(m, ts.drop_last(), loaded, ox, oy) {
            lemma_add_sprite_tile_dom(m1, ts.last(), loaded, ox, oy);
            if let Some(m2) = add_sprite_tile(m1, ts.last(), loaded, ox, oy) {
                assert forall|j: int, i: int|
                    0 <= j < ts.len() && gets_sprites(ts[j]) && 0 <= i < tile_ids(ts[j].id).len()
                        implies m2.dom().contains(#[trigger] tile_ids(ts[j].id)[i]) by {
                    if j < ts.len() - 1 {
                        assert(ts.drop_last()[j] == ts[j]);
                        assert(m1.dom().contains(tile_ids(ts.drop_last()[j].id)[i]));
                    }
                }
            }
        }
    }
}

proof fn lemma_sprites_upto_dom(t: LegacyTileset, loaded: Seq<i32>, n: int)
    requires
        0 <= n <= t.tiles@.len(),
    ensures
        sprites_upto(t, loaded, n) matches Some(m) ==> forall|g: int, j: int, i: int|
            0 <= g < n && 0 <= j < t.tiles@[g].tiles@.len() && gets_sprites(t.tiles@[g].tiles@[j])
                && 0 <= i < tile_ids(t.tiles@[g].tiles@[j].id).len() ==> m.dom().contains(
                #[trigger] tile_ids(t.tiles@[g].tiles@[j].id)[i],
            ),
    decreases n,
{
    if n > 0 {
        lemma_sprites_upto_dom(t, loaded, n - 1);
        if let Some(m1) = sprites_upto(t, loaded, n - 1) {
            let g = t.tiles@[n - 1];
            let ox = match g.sprite_offset_x {
                Some(x) => x,
                None => 0,
            };
            let oy = match g.sprite_offset_y {
                Some(y) => y,
                None => 0,
            };
            lemma_add_sprite_tiles_dom(m1, g.tiles@, loaded, ox, oy);
        }
    }
}

/// Loading the sprites of a tileset gives sprites to every id of every tile that has a
/// foreground.
pub proof fn lemma_every_tile_with_a_foreground_gets_sprites(t: LegacyTileset, loaded: Seq<i32>)
    ensures
        spec_sprites(t, loaded) matches Some(m) ==> forall|g: int, j: int, i: int|
            0 <= g < t.tiles@.len() && 0 <= j < t.tiles@[g].tiles@.len() && gets_sprites(
                t.tiles@[g].tiles@[j],
            ) && 0 <= i < tile_ids(t.tiles@[g].tiles@[j].id).len() ==> m.dom().contains(
                #[trigger] tile_ids(t.tiles@[g].tiles@[j].id)[i],
            ),
{
    lemma_sprites_upto_dom(t, loaded, t.tiles@.len() as int);
}

} // verus!
