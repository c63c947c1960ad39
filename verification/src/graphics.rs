use vstd::prelude::*;

use crate::common::{GetRandom, Weighted};

verus! {

/// A texture that a sprite draws: one cut from the tileset by its index, such a
/// texture turned by `degrees` (0, 90, 180 or 270), or the fallback sprite at a
/// position of the table of fallback sprites.
#[derive(Debug, Clone, Copy, PartialEq, Eq, Structural)]
pub enum TextureHandle {
    Loaded(i32),
    Rotated(i32, u32),
    Fallback(usize),
}

/// What the foreground or the background of a sprite draws: one texture, or one of
/// several drawn at random by weight.
#[derive(Debug)]
pub enum SpriteSource {
    Single(TextureHandle),
    Weighted(Vec<Weighted<i32>>),
}

/// The value of a sprite source: the weighted textures as `(index, weight)` pairs.
pub enum SourceView {
    Single(TextureHandle),
    Weighted(Seq<(i32, u32)>),
}

/// A sprite: its foreground and background, where it is drawn relative to its tile,
/// and whether it is animated.
#[derive(Debug)]
pub struct Sprite {
    pub fg: Option<SpriteSource>,
    pub bg: Option<SpriteSource>,
    pub offset_x: i32,
    pub offset_y: i32,
    pub is_animated: bool,
}

/// The value of a sprite.
pub struct SpriteView {
    pub fg: Option<SourceView>,
    pub bg: Option<SourceView>,
    pub offset_x: i32,
    pub offset_y: i32,
    pub is_animated: bool,
}

/// Sprites for the four directions.
#[derive(Debug)]
pub struct FullCardinal {
    pub north: Sprite,
    pub east: Sprite,
    pub south: Sprite,
    pub west: Sprite,
}

/// The value of sprites for the four directions.
pub struct FullCardinalView {
    pub north: SpriteView,
    pub east: SpriteView,
    pub south: SpriteView,
    pub west: SpriteView,
}

/// Sprites for the four corners.
#[derive(Debug)]
pub struct Corner {
    pub north_west: Sprite,
    pub south_west: Sprite,
    pub south_east: Sprite,
    pub north_east: Sprite,
}

/// The value of sprites for the four corners.
pub struct CornerView {
    pub north_west: SpriteView,
    pub south_west: SpriteView,
    pub south_east: SpriteView,
    pub north_east: SpriteView,
}

/// Sprites for a straight piece, north to south and east to west.
#[derive(Debug)]
pub struct Edge {
    pub north_south: Sprite,
    pub east_west: Sprite,
}

/// The value of straight-piece sprites.
pub struct EdgeView {
    pub north_south: SpriteView,
    pub east_west: SpriteView,
}

/// The sprites of a tile id: one, or one for each way a multitile connects to its
/// neighbours.
#[derive(Debug)]
pub enum SpriteType {
    Single(Sprite),
    Multitile {
        center: Sprite,
        corner: Corner,
        t_connection: FullCardinal,
        edge: Edge,
        end_piece: FullCardinal,
        unconnected: Sprite,
    },
}

/// The value of the sprites of a tile id.
pub enum SpriteTypeView {
    Single(SpriteView),
    Multitile {
        center: SpriteView,
        corner: CornerView,
        t_connection: FullCardinalView,
        edge: EdgeView,
        end_piece: FullCardinalView,
        unconnected: SpriteView,
    },
}

/// The `(index, weight)` pairs of a weighted list.
pub open spec fn weighted_pairs(s: Seq<Weighted<i32>>) -> Seq<(i32, u32)> {
    s.map_values(|w: Weighted<i32>| (w.value, w.weight))
}

impl View for SpriteSource {
    type V = SourceView;

    open spec fn view(&self) -> SourceView {
        match self {
            SpriteSource::Single(h) => SourceView::Single(*h),
            SpriteSource::Weighted(v) => SourceView::Weighted(weighted_pairs(v@)),
        }
    }
}

/// The value of an optional sprite source.
pub open spec fn source_view(s: Option<SpriteSource>) -> Option<SourceView> {
    match s {
        None => None,
        Some(x) => Some(x@),
    }
}

impl View for Sprite {
    type V = SpriteView;

    open spec fn view(&self) -> SpriteView {
        SpriteView {
            fg: source_view(self.fg),
            bg: source_view(self.bg),
            offset_x: self.offset_x,
            offset_y: self.offset_y,
            is_animated: self.is_animated,
        }
    }
}

impl View for FullCardinal {
    type V = FullCardinalView;

    open spec fn view(&self) -> FullCardinalView {
        FullCardinalView {
            north: self.north@,
            east: self.east@,
            south: self.south@,
            west: self.west@,
        }
    }
}

impl View for Corner {
    type V = CornerView;

    open spec fn view(&self) -> CornerView {
        CornerView {
            north_west: self.north_west@,
            south_west: self.south_west@,
            south_east: self.south_east@,
            north_east: self.north_east@,
        }
    }
}

impl View for Edge {
    type V = EdgeView;

    open spec fn view(&self) -> EdgeView {
        EdgeView { north_south: self.north_south@, east_west: self.east_west@ }
    }
}

impl View for SpriteType {
    type V = SpriteTypeView;

    open spec fn view(&self) -> SpriteTypeView {
        match self {
            SpriteType::Single(s) => SpriteTypeView::Single(s@),
            SpriteType::Multitile { center, corner, t_connection, edge, end_piece, unconnected } =>
                SpriteTypeView::Multitile {
                center: center@,
                corner: corner@,
                t_connection: t_connection@,
                edge: edge@,
                end_piece: end_piece@,
                unconnected: unconnected@,
            },
        }
    }
}

impl SpriteSource {
    /// A copy of the source.
    pub fn copy(&self) -> (r: SpriteSource)
        ensures
            r@ == self@,
    {
        match self {
            SpriteSource::Single(h) => SpriteSource::Single(*h),
            SpriteSource::Weighted(v) => {
                let mut out: Vec<Weighted<i32>> = Vec::new();
                let mut i: usize = 0;
                while i < v.len()
                    invariant
                        i <= v.len(),
                        out.len() == i,
                        forall|j: int|
                            0 <= j < i ==> (#[trigger] out@[j]).value == v@[j].value
                                && out@[j].weight == v@[j].weight,
                    decreases v.len() - i,
                {
                    out.push(Weighted::new(v[i].value, v[i].weight));
                    i = i + 1;
                }
                assert(weighted_pairs(out@) =~= weighted_pairs(v@));
                SpriteSource::Weighted(out)
            },
        }
    }
}

/// A copy of an optional source.
pub fn copy_source(s: &Option<SpriteSource>) -> (r: Option<SpriteSource>)
    ensures
        source_view(r) == source_view(*s),
{
    match s {
        None => None,
        Some(x) => Some(x.copy()),
    }
}

impl Sprite {
    /// A copy of the sprite.
    pub fn copy(&self) -> (r: Sprite)
        ensures
            r@ == self@,
    {
        Sprite {
            fg: copy_source(&self.fg),
            bg: copy_source(&self.bg),
            offset_x: self.offset_x,
            offset_y: self.offset_y,
            is_animated: self.is_animated,
        }
    }
}

/// The sprite with the `k`-th foreground of a list, if it has one, and the shared
/// background, offsets and animation.
pub open spec fn nth_sprite(
    fgs: Seq<SourceView>,
    k: int,
    bg: Option<SourceView>,
    offset_x: i32,
    offset_y: i32,
    is_animated: bool,
) -> SpriteView {
    SpriteView {
        fg: if k < fgs.len() {
            Some(fgs[k])
        } else {
            None
        },
        bg,
        offset_x,
        offset_y,
        is_animated,
    }
}

/// The views of a list of sources.
pub open spec fn sources_view(s: Seq<SpriteSource>) -> Seq<SourceView> {
    s.map_values(|x: SpriteSource| x@)
}

fn nth_sprite_exec(
    fgs: &Vec<SpriteSource>,
    k: usize,
    bg: &Option<SpriteSource>,
    offset_x: i32,
    offset_y: i32,
    is_animated: bool,
) -> (r: Sprite)
    ensures
        r@ == nth_sprite(sources_view(fgs@), k as int, source_view(*bg), offset_x, offset_y, is_animated),
{
    let fg = if k < fgs.len() {
        Some(fgs[k].copy())
    } else {
        None
    };
    Sprite { fg, bg: copy_source(bg), offset_x, offset_y, is_animated }
}

impl FullCardinal {
    /// The sprites of the four directions from a list of foregrounds in the order
    /// north, west, south, east; a direction past the end of the list has none.
    pub fn from_parts(
        fgs: &Vec<SpriteSource>,
        bg: &Option<SpriteSource>,
        offset_x: i32,
        offset_y: i32,
        is_animated: bool,
    ) -> (r: FullCardinal)
        ensures
            r@ == full_cardinal_from(
                sources_view(fgs@),
                source_view(*bg),
                offset_x,
                offset_y,
                is_animated,
            ),
    {
        FullCardinal {
            north: nth_sprite_exec(fgs, 0, bg, offset_x, offset_y, is_animated),
            west: nth_sprite_exec(fgs, 1, bg, offset_x, offset_y, is_animated),
            south: nth_sprite_exec(fgs, 2, bg, offset_x, offset_y, is_animated),
            east: nth_sprite_exec(fgs, 3, bg, offset_x, offset_y, is_animated),
        }
    }
}

impl Corner {
    /// The sprites of the four corners from a list of foregrounds in the order
    /// north west, south west, south east, north east.
    pub fn from_parts(
        fgs: &Vec<SpriteSource>,
        bg: &Option<SpriteSource>,
        offset_x: i32,
        offset_y: i32,
        is_animated: bool,
    ) -> (r: Corner)
        ensures
            r@ == corner_from(sources_view(fgs@), source_view(*bg), offset_x, offset_y, is_animated),
    {
        Corner {
            north_west: nth_sprite_exec(fgs, 0, bg, offset_x, offset_y, is_animated),
            south_west: nth_sprite_exec(fgs, 1, bg, offset_x, offset_y, is_animated),
            south_east: nth_sprite_exec(fgs, 2, bg, offset_x, offset_y, is_animated),
            north_east: nth_sprite_exec(fgs, 3, bg, offset_x, offset_y, is_animated),
        }
    }
}

impl Edge {
    /// The sprites of a straight piece from a list of foregrounds in the order north
    /// to south, east to west.
    pub fn from_parts(
        fgs: &Vec<SpriteSource>,
        bg: &Option<SpriteSource>,
        offset_x: i32,
        offset_y: i32,
        is_animated: bool,
    ) -> (r: Edge)
        ensures
            r@ == edge_from(sources_view(fgs@), source_view(*bg), offset_x, offset_y, is_animated),
    {
        Edge {
            north_south: nth_sprite_exec(fgs, 0, bg, offset_x, offset_y, is_animated),
            east_west: nth_sprite_exec(fgs, 1, bg, offset_x, offset_y, is_animated),
        }
    }
}

/// The four directions from foregrounds in the order north, west, south, east.
pub open spec fn full_cardinal_from(
    fgs: Seq<SourceView>,
    bg: Option<SourceView>,
    ox: i32,
    oy: i32,
    anim: bool,
) -> FullCardinalView {
    FullCardinalView {
        north: nth_sprite(fgs, 0, bg, ox, oy, anim),
        west: nth_sprite(fgs, 1, bg, ox, oy, anim),
        south: nth_sprite(fgs, 2, bg, ox, oy, anim),
        east: nth_sprite(fgs, 3, bg, ox, oy, anim),
    }
}

/// The four corners from foregrounds in the order north west, south west, south east,
/// north east.
pub open spec fn corner_from(
    fgs: Seq<SourceView>,
    bg: Option<SourceView>,
    ox: i32,
    oy: i32,
    anim: bool,
) -> CornerView {
    CornerView {
        north_west: nth_sprite(fgs, 0, bg, ox, oy, anim),
        south_west: nth_sprite(fgs, 1, bg, ox, oy, anim),
        south_east: nth_sprite(fgs, 2, bg, ox, oy, anim),
        north_east: nth_sprite(fgs, 3, bg, ox, oy, anim),
    }
}

/// The straight pieces from foregrounds in the order north to south, east to west.
pub open spec fn edge_from(
    fgs: Seq<SourceView>,
    bg: Option<SourceView>,
    ox: i32,
    oy: i32,
    anim: bool,
) -> EdgeView {
    EdgeView {
        north_south: nth_sprite(fgs, 0, bg, ox, oy, anim),
        east_west: nth_sprite(fgs, 1, bg, ox, oy, anim),
    }
}

/// The sprite of a multitile for which of its neighbours (above, right, below,
/// left) are of the same kind; a single sprite whatever they are.
pub open spec fn spec_select_sprite(
    st: SpriteTypeView,
    above: bool,
    right: bool,
    below: bool,
    left: bool,
) -> SpriteView {
    match st {
        SpriteTypeView::Single(s) => s,
        SpriteTypeView::Multitile { center, corner, t_connection, edge, end_piece, unconnected } => {
            match (above, right, below, left) {
                (true, true, true, true) => center,
                (true, true, true, false) => t_connection.west,
                (true, true, false, true) => t_connection.south,
                (true, false, true, true) => t_connection.east,
                (false, true, true, true) => t_connection.north,
                (true, true, false, false) => corner.south_west,
                (true, false, false, true) => corner.south_east,
                (false, true, true, false) => corner.north_west,
                (false, false, true, true) => corner.north_east,
                (true, false, false, false) => end_piece.south,
                (false, true, false, false) => end_piece.west,
                (false, false, true, false) => end_piece.north,
                (false, false, false, true) => end_piece.east,
                (false, true, false, true) => edge.east_west,
                (true, false, true, false) => edge.north_south,
                (false, false, false, false) => unconnected,
            }
        },
    }
}

impl SpriteType {
    /// The sprite to draw for which neighbours (above, right, below, left) are of the
    /// same kind (see `spec_select_sprite`).
    pub fn select_sprite(&self, above: bool, right: bool, below: bool, left: bool) -> (r: &Sprite)
        ensures
            r@ == spec_select_sprite(self@, above, right, below, left),
    {
        match self {
            SpriteType::Single(s) => s,
            SpriteType::Multitile { center, corner, t_connection, edge, end_piece, unconnected } => {
                match (above, right, below, left) {
                    (true, true, true, true) => center,
                    (true, true, true, false) => &t_connection.west,
                    (true, true, false, true) => &t_connection.south,
                    (true, false, true, true) => &t_connection.east,
                    (false, true, true, true) => &t_connection.north,
                    (true, true, false, false) => &corner.south_west,
                    (true, false, false, true) => &corner.south_east,
                    (false, true, true, false) => &corner.north_west,
                    (false, false, true, true) => &corner.north_east,
                    (true, false, false, false) => &end_piece.south,
                    (false, true, false, false) => &end_piece.west,
                    (false, false, true, false) => &end_piece.north,
                    (false, false, false, true) => &end_piece.east,
                    (false, true, false, true) => &edge.east_west,
                    (true, false, true, false) => &edge.north_south,
                    (false, false, false, false) => unconnected,
                }
            },
        }
    }

    /// The sprite that stands for the tile id as a whole: the single one, or the
    /// center of a multitile.
    pub fn representation(&self) -> (r: &Sprite)
        ensures
            r@ == spec_select_sprite(self@, true, true, true, true),
            *r == match *self {
                SpriteType::Single(s) => s,
                SpriteType::Multitile { center, .. } => center,
            },
    {
        match self {
            SpriteType::Single(s) => s,
            SpriteType::Multitile { center, .. } => center,
        }
    }
}

/// Whether a neighbour counts as the same kind as a tile for joining multitiles, from
/// the ids that the tile and the neighbour have for a layer and the fill terrain of
/// the map: equal ids join; a tile without an id of its own stands for the fill
/// terrain, on the terrain layer only.
pub open spec fn spec_same_kind(
    this: Option<Seq<char>>,
    around: Option<Seq<char>>,
    fill: Option<Seq<char>>,
    is_terrain: bool,
) -> bool {
    let this_filled = this is None && fill is Some && is_terrain;
    let around_filled = around is None && fill is Some && is_terrain;
    match (around, this) {
        (Some(a), Some(t)) => a == t,
        (None, Some(t)) => around_filled && t == fill.unwrap(),
        (Some(a), None) => this_filled && a == fill.unwrap(),
        (None, None) => this_filled && around_filled,
    }
}

/// The ids of an optional tile id, as text.
pub open spec fn id_view(s: Option<String>) -> Option<Seq<char>> {
    match s {
        None => None,
        Some(x) => Some(x@),
    }
}

/// Whether a neighbour counts as the same kind as a tile (see `spec_same_kind`).
pub fn same_kind(
    this: &Option<String>,
    around: &Option<String>,
    fill: &Option<String>,
    is_terrain: bool,
) -> (r: bool)
    ensures
        r == spec_same_kind(id_view(*this), id_view(*around), id_view(*fill), is_terrain),
{
    let this_filled = this.is_none() && fill.is_some() && is_terrain;
    let around_filled = around.is_none() && fill.is_some() && is_terrain;
    match (around, this) {
        (Some(a), Some(t)) => *a == *t,
        (None, Some(t)) => around_filled && match fill {
            Some(f) => *t == *f,
            None => false,
        },
        (Some(a), None) => this_filled && match fill {
            Some(f) => *a == *f,
            None => false,
        },
        (None, None) => this_filled && around_filled,
    }
}

impl FullCardinal {
    /// A copy of the sprites.
    pub fn copy(&self) -> (r: FullCardinal)
        ensures
            r@ == self@,
    {
        FullCardinal {
            north: self.north.copy(),
            east: self.east.copy(),
            south: self.south.copy(),
            west: self.west.copy(),
        }
    }
}

impl Corner {
    /// A copy of the sprites.
    pub fn copy(&self) -> (r: Corner)
        ensures
            r@ == self@,
    {
        Corner {
            north_west: self.north_west.copy(),
            south_west: self.south_west.copy(),
            south_east: self.south_east.copy(),
            north_east: self.north_east.copy(),
        }
    }
}

impl Edge {
    /// A copy of the sprites.
    pub fn copy(&self) -> (r: Edge)
        ensures
            r@ == self@,
    {
        Edge { north_south: self.north_south.copy(), east_west: self.east_west.copy() }
    }
}

impl SpriteType {
    /// A copy of the sprites.
    pub fn copy(&self) -> (r: SpriteType)
        ensures
            r@ == self@,
    {
        match self {
            SpriteType::Single(s) => SpriteType::Single(s.copy()),
            SpriteType::Multitile { center, corner, t_connection, edge, end_piece, unconnected } =>
                SpriteType::Multitile {
                center: center.copy(),
                corner: corner.copy(),
                t_connection: t_connection.copy(),
                edge: edge.copy(),
                end_piece: end_piece.copy(),
                unconnected: unconnected.copy(),
            },
        }
    }
}

/// Joining is symmetric: a tile is of the same kind as its neighbour exactly when the
/// neighbour is of the same kind as the tile, so multitiles join from both sides.
pub proof fn lemma_same_kind_symmetric(
    a: Option<Seq<char>>,
    b: Option<Seq<char>>,
    fill: Option<Seq<char>>,
    is_terrain: bool,
)
    ensures
        spec_same_kind(a, b, fill, is_terrain) == spec_same_kind(b, a, fill, is_terrain),
{
}

impl SpriteSource {
    /// The texture to draw: the single one, or one drawn at random from the weighted
    /// list, where an unweighted (zero) entry counts as weight 1. None for an empty list,
    /// which has nothing to draw.
    pub fn get_randomized_sprite(&self, rng: &mut rand::rngs::StdRng) -> (r: Option<TextureHandle>)
        requires
            self matches SpriteSource::Weighted(v) ==> v.can_choose(),
        ensures
            self matches SpriteSource::Single(h) ==> r == Some(*h),
            self matches SpriteSource::Weighted(v) ==> (r is Some <==> v@.len() > 0),
            self matches SpriteSource::Weighted(v) ==> (r matches Some(h) ==> (h matches TextureHandle::Loaded(x)
                && v.may_choose(x))),
    {
        match self {
            SpriteSource::Single(h) => Some(*h),
            SpriteSource::Weighted(v) => match v.get_random_weighted(rng) {
                None => None,
                Some(x) => Some(TextureHandle::Loaded(*x)),
            },
        }
    }
}

/// The sprite of a fallback texture: the texture as foreground, no background, no
/// offset, not animated.
pub open spec fn fallback_sprite_view(k: usize) -> SpriteView {
    SpriteView {
        fg: Some(SourceView::Single(TextureHandle::Fallback(k))),
        bg: None,
        offset_x: 0,
        offset_y: 0,
        is_animated: false,
    }
}

/// The sprites of the fallback textures, under the same keys and in the same order.
pub fn fallback_sprites(textures: &Vec<(String, Vec<u8>)>) -> (r: Vec<(String, Sprite)>)
    ensures
        r@.len() == textures@.len(),
        forall|k: int|
            0 <= k < textures@.len() ==> (#[trigger] r@[k]).0 == textures@[k].0 && r@[k].1@
                == fallback_sprite_view(k as usize),
{
    let mut r: Vec<(String, Sprite)> = Vec::new();
    let mut i: usize = 0;
    while i < textures.len()
        invariant
            i <= textures.len(),
            r@.len() == i,
            forall|k: int|
                0 <= k < i ==> (#[trigger] r@[k]).0 == textures@[k].0 && r@[k].1@
                    == fallback_sprite_view(k as usize),
        decreases textures.len() - i,
    {
        let s = Sprite {
            fg: Some(SpriteSource::Single(TextureHandle::Fallback(i))),
            bg: None,
            offset_x: 0,
            offset_y: 0,
            is_animated: false,
        };
        r.push((textures[i].0.clone(), s));
        i = i + 1;
    }
    r
}

} // verus!
