use vstd::prelude::*;

use crate::coordinates::Coordinates;
use crate::graphics::{Sprite, SpriteSource};
use crate::map::{neighbours, tile_at, MapEntity, SpriteRepresentation, Tile};
use crate::textures::TileSprite;

verus! {

/// The layer of a tile that a sprite shows.
#[derive(Debug, Clone, Copy, PartialEq, Eq, Structural)]
pub enum SpriteLayer {
    Terrain,
    Furniture,
    Fallback,
}

/// A sprite to show for a placed tile: its layer, its depth and its offset.
#[derive(Debug, Clone, Copy, PartialEq, Eq, Structural)]
pub struct SpawnRequest {
    pub layer: SpriteLayer,
    pub z: u32,
    pub offset_x: i32,
    pub offset_y: i32,
}

/// The sprites to show for a placed tile: its terrain at depth 1 and its furniture at
/// depth 3, each at its own offset; a fallback sprite at depth 1 and no offset. Items
/// and toilets are not shown.
pub open spec fn spec_spawn_requests(ts: TileSprite<&Sprite>) -> Seq<SpawnRequest> {
    match ts {
        TileSprite::Exists { terrain, furniture, .. } => {
            let t = match terrain {
                Some(s) => seq![
                    SpawnRequest {
                        layer: SpriteLayer::Terrain,
                        z: 1,
                        offset_x: s.offset_x,
                        offset_y: s.offset_y,
                    },
                ],
                None => Seq::empty(),
            };
            let f = match furniture {
                Some(s) => seq![
                    SpawnRequest {
                        layer: SpriteLayer::Furniture,
                        z: 3,
                        offset_x: s.offset_x,
                        offset_y: s.offset_y,
                    },
                ],
                None => Seq::empty(),
            };
            t + f
        },
        TileSprite::Fallback(_) => seq![
            SpawnRequest { layer: SpriteLayer::Fallback, z: 1, offset_x: 0, offset_y: 0 },
        ],
        TileSprite::Empty => Seq::empty(),
    }
}

/// The sprites to show for a placed tile (see `spec_spawn_requests`).
pub fn spawn_requests(ts: &TileSprite<&Sprite>) -> (r: Vec<SpawnRequest>)
    ensures
        r@ == spec_spawn_requests(*ts),
{
    let mut r: Vec<SpawnRequest> = Vec::new();
    match ts {
        TileSprite::Exists { terrain, furniture, .. } => {
            if let Some(s) = terrain {
                r.push(
                    SpawnRequest {
                        layer: SpriteLayer::Terrain,
                        z: 1,
                        offset_x: s.offset_x,
                        offset_y: s.offset_y,
                    },
                );
            }
            if let Some(s) = furniture {
                r.push(
                    SpawnRequest {
                        layer: SpriteLayer::Furniture,
                        z: 3,
                        offset_x: s.offset_x,
                        offset_y: s.offset_y,
                    },
                );
            }
        },
        TileSprite::Fallback(_) => {
            r.push(SpawnRequest { layer: SpriteLayer::Fallback, z: 1, offset_x: 0, offset_y: 0 });
        },
        TileSprite::Empty => {},
    }
    assert(r@ =~= spec_spawn_requests(*ts));
    r
}

/// What to do with one layer of a shown tile when its sprites are updated.
#[derive(Debug, Clone, Copy, PartialEq, Eq, Structural)]
pub enum LayerAction {
    /// The sprite has nothing for this layer.
    Nothing,
    /// Show a new entity.
    Spawn,
    /// Change the texture of the entity that shows it.
    Replace(u64),
}

/// What to do with a layer: nothing when the sprite has nothing for it; a new entity
/// when the tile shows none yet; else the shown entity gets the new texture.
pub fn layer_action(has_sprite: bool, entity: Option<u64>) -> (r: LayerAction)
    ensures
        r == if !has_sprite {
            LayerAction::Nothing
        } else {
            match entity {
                None => LayerAction::Spawn,
                Some(e) => LayerAction::Replace(e),
            }
        },
{
    if !has_sprite {
        LayerAction::Nothing
    } else {
        match entity {
            None => LayerAction::Spawn,
            Some(e) => LayerAction::Replace(e),
        }
    }
}

/// The entities of a layer, foreground first.
pub open spec fn rep_entities(r: SpriteRepresentation) -> Seq<u64> {
    (match r.fg_entity {
        Some(e) => seq![e],
        None => Seq::empty(),
    }) + (match r.bg_entity {
        Some(e) => seq![e],
        None => Seq::empty(),
    })
}

/// The entities that show a tile, layer by layer: terrain, furniture, toilets, items,
/// fallback.
pub open spec fn spec_tile_entities(t: Tile) -> Seq<u64> {
    rep_entities(t.terrain) + rep_entities(t.furniture) + rep_entities(t.toilets) + rep_entities(
        t.items,
    ) + rep_entities(t.fallback)
}

fn push_rep(out: &mut Vec<u64>, r: SpriteRepresentation)
    ensures
        final(out)@ == old(out)@ + rep_entities(r),
{
    let ghost before = out@;
    if let Some(e) = r.fg_entity {
        out.push(e);
    }
    if let Some(e) = r.bg_entity {
        out.push(e);
    }
    assert(out@ =~= before + rep_entities(r));
}

/// The entities to remove when a tile is deleted (see `spec_tile_entities`).
pub fn entities_to_despawn(t: &Tile) -> (r: Vec<u64>)
    ensures
        r@ == spec_tile_entities(*t),
{
    let mut out: Vec<u64> = Vec::new();
    push_rep(&mut out, t.terrain);
    push_rep(&mut out, t.furniture);
    push_rep(&mut out, t.toilets);
    push_rep(&mut out, t.items);
    push_rep(&mut out, t.fallback);
    assert(out@ =~= spec_tile_entities(*t));
    out
}

/// The placed tiles among the first `k` positions of `n`, each with its position.
pub open spec fn placed_prefix(m: Map<Coordinates, Tile>, n: Seq<Coordinates>, k: int) -> Seq<
    (Tile, Coordinates),
>
    decreases k,
{
    if k <= 0 {
        Seq::empty()
    } else {
        let s = placed_prefix(m, n, k - 1);
        match tile_at(m, n[k - 1]) {
            Some(t) => s.push((t, n[k - 1])),
            None => s,
        }
    }
}

/// The placed neighbours of `c` (above, right, below, left), each with its
/// coordinates: the tiles whose sprites change when `c` changes.
pub open spec fn spec_neighbours_to_update(m: Map<Coordinates, Tile>, c: Coordinates) -> Seq<
    (Tile, Coordinates),
> {
    placed_prefix(m, neighbours(c), 4)
}

/// The placed neighbours of a tile (see `spec_neighbours_to_update`).
pub fn neighbours_to_update(entity: &MapEntity, c: &Coordinates) -> (r: Vec<(Tile, Coordinates)>)
    requires
        i32::MIN < c.x < i32::MAX,
        i32::MIN < c.y < i32::MAX,
    ensures
        r@ == spec_neighbours_to_update(entity.spec_tiles()@, *c),
{
    let around = entity.get_tiles_around(c);
    let mut r: Vec<(Tile, Coordinates)> = Vec::new();
    let mut i: usize = 0;
    let ghost m = entity.spec_tiles()@;
    let ghost n = neighbours(*c);
    while i < 4
        invariant
            i <= 4,
            around@.len() == 4,
            forall|k: int|
                0 <= k < 4 ==> (#[trigger] around@[k]).1 == n[k] && around@[k].0 == tile_at(m, n[k]),
            r@ == placed_prefix(m, n, i as int),
        decreases 4 - i,
    {
        let (t, pos) = around[i];
        if let Some(t) = t {
            r.push((t, pos));
        }
        i = i + 1;
    }
    r
}

/// A request to remove the sprites of all tiles shown.
#[derive(Debug, Clone, Copy)]
pub struct ClearTiles;

/// Where a sprite is drawn relative to its tile, in pixels.
#[derive(Debug, Clone, Copy, Default, PartialEq, Eq, Structural)]
pub struct Offset {
    pub x: i32,
    pub y: i32,
}

impl From<Coordinates> for Offset {
    fn from(value: Coordinates) -> (r: Self) {
        Offset { x: value.x, y: value.y }
    }
}

impl vstd::std_specs::convert::FromSpecImpl<Coordinates> for Offset {
    open spec fn obeys_from_spec() -> bool {
        true
    }

    open spec fn from_spec(v: Coordinates) -> Offset {
        Offset { x: v.x, y: v.y }
    }
}

/// A sprite to show, with the layer it shows.
#[derive(Debug)]
pub enum SpriteKind {
    Item(Sprite),
    Terrain(Sprite),
    Furniture(Sprite),
    Toilet(Sprite),
    Fallback(Sprite),
}

impl SpriteKind {
    /// The sprite, whatever the layer.
    pub open spec fn sprite(self) -> Sprite {
        match self {
            SpriteKind::Item(s) => s,
            SpriteKind::Terrain(s) => s,
            SpriteKind::Furniture(s) => s,
            SpriteKind::Toilet(s) => s,
            SpriteKind::Fallback(s) => s,
        }
    }

    /// The foreground of the sprite.
    pub fn get_fg(&self) -> (r: &Option<SpriteSource>)
        ensures
            *r == self.sprite().fg,
    {
        match self {
            SpriteKind::Item(i) => &i.fg,
            SpriteKind::Terrain(t) => &t.fg,
            SpriteKind::Furniture(f) => &f.fg,
            SpriteKind::Toilet(t) => &t.fg,
            SpriteKind::Fallback(f) => &f.fg,
        }
    }

    /// The background of the sprite; a fallback sprite shows none.
    pub fn get_bg(&self) -> (r: Option<&SpriteSource>)
        ensures
            match *self {
                SpriteKind::Fallback(_) => r is None,
                _ => match self.sprite().bg {
                    Some(b) => r == Some(&b),
                    None => r is None,
                },
            },
    {
        match self {
            SpriteKind::Item(i) => i.bg.as_ref(),
            SpriteKind::Terrain(t) => t.bg.as_ref(),
            SpriteKind::Furniture(f) => f.bg.as_ref(),
            SpriteKind::Toilet(t) => t.bg.as_ref(),
            SpriteKind::Fallback(_) => None,
        }
    }
}

/// A layer with the entity that shows its foreground (or its background) set.
pub open spec fn rep_with(r: SpriteRepresentation, foreground: bool, entity: u64) -> SpriteRepresentation {
    if foreground {
        SpriteRepresentation { fg_entity: Some(entity), ..r }
    } else {
        SpriteRepresentation { bg_entity: Some(entity), ..r }
    }
}

/// A tile whose `layer` is shown, in the foreground or the background, by `entity`;
/// its other layers stay as they were.
pub open spec fn tile_with_entity(t: Tile, layer: SpriteLayer, foreground: bool, entity: u64) -> Tile {
    match layer {
        SpriteLayer::Terrain => Tile { terrain: rep_with(t.terrain, foreground, entity), ..t },
        SpriteLayer::Furniture => Tile { furniture: rep_with(t.furniture, foreground, entity), ..t },
        SpriteLayer::Fallback => Tile { fallback: rep_with(t.fallback, foreground, entity), ..t },
    }
}

/// Records on a tile the entity spawned to show one of its layers (see
/// `tile_with_entity`).
pub fn record_sprite(tile: &mut Tile, layer: SpriteLayer, foreground: bool, entity: u64)
    ensures
        *final(tile) == tile_with_entity(*old(tile), layer, foreground, entity),
{
    let rep = match layer {
        SpriteLayer::Terrain => &mut tile.terrain,
        SpriteLayer::Furniture => &mut tile.furniture,
        SpriteLayer::Fallback => &mut tile.fallback,
    };
    if foreground {
        rep.fg_entity = Some(entity);
    } else {
        rep.bg_entity = Some(entity);
    }
}

impl MapEntity {
    /// Records on the tile at `coordinates` the entity spawned to show one of its
    /// layers (see `tile_with_entity`). False, and nothing changes, where no tile is
    /// placed there.
    pub fn record_sprite_at(
        &mut self,
        coordinates: Coordinates,
        layer: SpriteLayer,
        foreground: bool,
        entity: u64,
    ) -> (r: bool)
        ensures
            r == (tile_at(old(self).spec_tiles()@, coordinates) is Some),
            match tile_at(old(self).spec_tiles()@, coordinates) {
                Some(t) => final(self).spec_tiles()@ == old(self).spec_tiles()@.insert(
                    coordinates,
                    tile_with_entity(t, layer, foreground, entity),
                ),
                None => final(self).spec_tiles()@ == old(self).spec_tiles()@,
            },
            final(self).spec_object() == old(self).spec_object(),
    {
        let found = match self.tiles().get(&coordinates) {
            None => {
                return false;
            },
            Some(t) => *t,
        };
        let mut tile = found;
        record_sprite(&mut tile, layer, foreground, entity);
        self.set_tile(coordinates, tile);
        true
    }
}

} // verus!
