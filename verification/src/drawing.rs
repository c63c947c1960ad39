use vstd::prelude::*;

use crate::common::TileId;
use crate::coordinates::Coordinates;
use crate::graphics::{id_view, same_kind, spec_same_kind, Sprite, SpriteType, SpriteView};
use crate::map::{neighbours, tile_at, MapEntity, Tile};
use crate::palettes::CDDAData;
use crate::region_settings::{region_depth, region_leads_to, region_ok, RegionSettings};
use crate::resolve::filled;
use crate::table::{find, lookup};
use crate::textures::{
    fallback_for, get_textures, spec_fallback_for, spec_sprite_state, spec_tile_sprite, sprite_state, state_view,
    SpriteState, TileSprite,
};

verus! {

/// An id that `get_ids` can give a layer of character `c` (the furniture layer, or
/// the terrain layer).
pub open spec fn possible_id(e: MapEntity, cdda: CDDAData, c: char, furniture: bool, id: Option<TileId>) -> bool {
    filled(None, e.first_definer(cdda, c, furniture), e.spec_object().computed_parameters, id)
}

/// The region table of a layer.
pub open spec fn region_table(regions: RegionSettings, furniture: bool) -> Seq<(String, Vec<(TileId, u32)>)> {
    if furniture {
        regions.region_terrain_and_furniture.furniture@
    } else {
        regions.region_terrain_and_furniture.terrain@
    }
}

/// Every region of a table can be drawn from, to some finite depth.
pub open spec fn region_drawable(table: Seq<(String, Vec<(TileId, u32)>)>, r: Seq<char>) -> bool {
    exists|n: nat| region_ok(table, r, n)
}

/// What drawing from the region table gives for the id of a layer: nothing without an
/// id or for an id that is no region, else a tile id that the region can lead to.
pub open spec fn possible_draw(table: Seq<(String, Vec<(TileId, u32)>)>, id: Option<TileId>, drawn: Option<TileId>) -> bool {
    match id {
        None => drawn is None,
        Some(t) => match drawn {
            None => lookup(table, t@) is None,
            Some(d) => region_leads_to(table, t@, d, region_depth(table, t@)),
        },
    }
}

/// The sprites are looked up by the drawn tile id if there is one, else by the id.
pub open spec fn sprite_key(id: Option<TileId>, drawn: Option<TileId>) -> Option<Seq<char>> {
    match drawn {
        Some(d) => Some(d@),
        None => id_view(id),
    }
}

/// The sprites of the key are a multitile, whose choice depends on the neighbours.
pub open spec fn is_multitile(textures: Seq<(String, SpriteType)>, key: Option<Seq<char>>) -> bool {
    match key {
        None => false,
        Some(k) => lookup(textures, k) matches Some(SpriteType::Multitile { .. }),
    }
}

/// One way the neighbour on `side` (0 above, 1 right, 2 below, 3 left) can be judged
/// of the same kind as the tile, given the id `this` drawn for the tile and `around`
/// drawn for the neighbour's character: same character, or same kind of id.
pub open spec fn flag_from(
    e: MapEntity,
    cdda: CDDAData,
    c: char,
    at: Coordinates,
    side: int,
    furniture: bool,
    this: Option<TileId>,
    around: Option<TileId>,
    flag: bool,
) -> bool {
    match tile_at(e.spec_tiles()@, neighbours(at)[side]) {
        None => !flag,
        Some(t) => possible_id(e, cdda, t.character, furniture, around) && flag == (t.character == c
            || spec_same_kind(id_view(this), id_view(around), id_view(e.spec_object().fill_ter), !furniture)),
    }
}

/// The neighbour on `side` may be judged of the same kind (`flag`) or not: no tile
/// there is never the same kind; a tile there is, for some id drawn for its character.
pub open spec fn main_flag(
    e: MapEntity,
    cdda: CDDAData,
    c: char,
    at: Coordinates,
    side: int,
    furniture: bool,
    this: Option<TileId>,
    flag: bool,
) -> bool {
    exists|around: Option<TileId>| #[trigger] flag_from(e, cdda, c, at, side, furniture, this, around, flag)
}

/// One way a layer of character `c` at `at` can come out as `s`: the id given to the
/// layer, the tile id drawn from it when it is a region, and for a multitile the id
/// drawn again for the tile and the neighbours judged of the same kind.
pub open spec fn layer_from(
    e: MapEntity,
    cdda: CDDAData,
    regions: RegionSettings,
    textures: Seq<(String, SpriteType)>,
    c: char,
    at: Coordinates,
    furniture: bool,
    id: Option<TileId>,
    drawn: Option<TileId>,
    this: Option<TileId>,
    flags: (bool, bool, bool, bool),
    s: Option<Option<SpriteView>>,
) -> bool {
    &&& possible_id(e, cdda, c, furniture, id)
    &&& possible_draw(region_table(regions, furniture), id, drawn)
    &&& is_multitile(textures, sprite_key(id, drawn)) ==> {
        &&& possible_id(e, cdda, c, furniture, this)
        &&& main_flag(e, cdda, c, at, 0, furniture, this, flags.0)
        &&& main_flag(e, cdda, c, at, 1, furniture, this, flags.1)
        &&& main_flag(e, cdda, c, at, 2, furniture, this, flags.2)
        &&& main_flag(e, cdda, c, at, 3, furniture, this, flags.3)
    }
    &&& s == spec_sprite_state(id_view(id), id_view(drawn), textures, flags.0, flags.1, flags.2, flags.3)
}

/// What a layer of character `c` at `at` can show (see `layer_from`).
pub open spec fn layer_possible(
    e: MapEntity,
    cdda: CDDAData,
    regions: RegionSettings,
    textures: Seq<(String, SpriteType)>,
    c: char,
    at: Coordinates,
    furniture: bool,
    s: Option<Option<SpriteView>>,
) -> bool {
    exists|id: Option<TileId>, drawn: Option<TileId>, this: Option<TileId>, flags: (bool, bool, bool, bool)|
        #[trigger] layer_from(e, cdda, regions, textures, c, at, furniture, id, drawn, this, flags, s)
}

/// One way the neighbour on `side` can be judged of the same kind as the fill
/// terrain `fill`, given the terrain id `around` drawn for the neighbour's character.
pub open spec fn fill_flag_from(
    e: MapEntity,
    cdda: CDDAData,
    at: Coordinates,
    side: int,
    fill: TileId,
    around: Option<TileId>,
    flag: bool,
) -> bool {
    match tile_at(e.spec_tiles()@, neighbours(at)[side]) {
        None => !flag,
        Some(t) => possible_id(e, cdda, t.character, false, around) && flag == spec_same_kind(
            Some(fill@),
            id_view(around),
            id_view(e.spec_object().fill_ter),
            true,
        ),
    }
}

/// The neighbour on `side` may be judged of the same kind as the fill terrain (`flag`).
pub open spec fn fill_flag(e: MapEntity, cdda: CDDAData, at: Coordinates, side: int, fill: TileId, flag: bool) -> bool {
    exists|around: Option<TileId>| #[trigger] fill_flag_from(e, cdda, at, side, fill, around, flag)
}

/// One way the fill terrain can be drawn at `at` as `s`, for the neighbours judged of
/// its kind.
pub open spec fn fill_from(
    e: MapEntity,
    cdda: CDDAData,
    textures: Seq<(String, SpriteType)>,
    at: Coordinates,
    flags: (bool, bool, bool, bool),
    s: Option<SpriteView>,
) -> bool {
    match e.spec_object().fill_ter {
        None => s is None,
        Some(f) => match lookup(textures, f@) {
            None => s is None,
            Some(st) => {
                &&& st is Multitile ==> {
                    &&& fill_flag(e, cdda, at, 0, f, flags.0)
                    &&& fill_flag(e, cdda, at, 1, f, flags.1)
                    &&& fill_flag(e, cdda, at, 2, f, flags.2)
                    &&& fill_flag(e, cdda, at, 3, f, flags.3)
                }
                &&& s == Some(crate::graphics::spec_select_sprite(st@, flags.0, flags.1, flags.2, flags.3))
            },
        },
    }
}

/// What the fill terrain of the map can show at `at`: nothing without a fill terrain
/// or without sprites for it, else its sprite for some judgement of the neighbours.
pub open spec fn fill_possible(
    e: MapEntity,
    cdda: CDDAData,
    textures: Seq<(String, SpriteType)>,
    at: Coordinates,
    s: Option<SpriteView>,
) -> bool {
    exists|flags: (bool, bool, bool, bool)| #[trigger] fill_from(e, cdda, textures, at, flags, s)
}

/// The view of a sprite state as a state of sprite values.
pub open spec fn state_of(s: Option<Option<SpriteView>>) -> SpriteState<SpriteView> {
    match s {
        None => SpriteState::NotMapped,
        Some(None) => SpriteState::TextureNotFound,
        Some(Some(v)) => SpriteState::Defined(v),
    }
}

/// The value of an optional sprite.
pub open spec fn sprite_opt_view(s: Option<&Sprite>) -> Option<SpriteView> {
    match s {
        None => None,
        Some(x) => Some(x@),
    }
}

/// The value of what is drawn on a tile.
pub open spec fn tile_view(t: TileSprite<&Sprite>) -> TileSprite<SpriteView> {
    match t {
        TileSprite::Exists { terrain, furniture, items, toilets } => TileSprite::Exists {
            terrain: sprite_opt_view(terrain),
            furniture: sprite_opt_view(furniture),
            items: sprite_opt_view(items),
            toilets: sprite_opt_view(toilets),
        },
        TileSprite::Fallback(s) => TileSprite::Fallback(s@),
        TileSprite::Empty => TileSprite::Empty,
    }
}

/// The fallback sprite of character `c` in the fallback table.
pub open spec fn fallback_view(fallback: Seq<(String, Sprite)>, c: char) -> SpriteView {
    spec_fallback_for(fallback, c)->Some_0@
}

/// One way a tile of character `c` at `at` can be drawn as `r`: what its terrain and
/// furniture layers show, and the fill terrain where the terrain layer names nothing.
/// Items and toilets are never mapped by the map objects of the editor.
pub open spec fn tile_from(
    e: MapEntity,
    cdda: CDDAData,
    regions: RegionSettings,
    textures: Seq<(String, SpriteType)>,
    fallback: Seq<(String, Sprite)>,
    c: char,
    at: Coordinates,
    terrain: Option<Option<SpriteView>>,
    furniture: Option<Option<SpriteView>>,
    fill: Option<SpriteView>,
    r: TileSprite<SpriteView>,
) -> bool {
    &&& layer_possible(e, cdda, regions, textures, c, at, false, terrain)
    &&& layer_possible(e, cdda, regions, textures, c, at, true, furniture)
    &&& terrain is None ==> fill_possible(e, cdda, textures, at, fill)
    &&& r == spec_tile_sprite(
        state_of(terrain),
        state_of(furniture),
        SpriteState::NotMapped,
        SpriteState::NotMapped,
        fallback_view(fallback, c),
        fill,
    )
}

/// What a tile of character `c` at `at` can be drawn as (see `tile_from`).
pub open spec fn tile_possible(
    e: MapEntity,
    cdda: CDDAData,
    regions: RegionSettings,
    textures: Seq<(String, SpriteType)>,
    fallback: Seq<(String, Sprite)>,
    c: char,
    at: Coordinates,
    r: TileSprite<SpriteView>,
) -> bool {
    exists|terrain: Option<Option<SpriteView>>, furniture: Option<Option<SpriteView>>, fill: Option<SpriteView>|
        #[trigger] tile_from(e, cdda, regions, textures, fallback, c, at, terrain, furniture, fill, r)
}

/// What drawing a layer needs: the ids of the tile's character and of its placed
/// neighbours can be worked out, every region can be drawn from, and the coordinates
/// have neighbours.
pub open spec fn layer_drawable(e: MapEntity, cdda: CDDAData, regions: RegionSettings, c: char, at: Coordinates) -> bool {
    &&& e.ids_known(cdda, c)
    &&& forall|side: int| 0 <= side < 4 ==> (#[trigger] tile_at(e.spec_tiles()@, neighbours(at)[side]) matches Some(t)
        ==> e.ids_known(cdda, t.character))
    &&& forall|r: Seq<char>| #[trigger] region_drawable(region_table(regions, false), r)
    &&& forall|r: Seq<char>| #[trigger] region_drawable(region_table(regions, true), r)
    &&& i32::MIN < at.x < i32::MAX
    &&& i32::MIN < at.y < i32::MAX
}

/// What `tile_sprite` needs: what drawing a layer needs, and the fallback sprite of
/// `?` in the fallback table.
pub open spec fn drawable(
    e: MapEntity,
    cdda: CDDAData,
    regions: RegionSettings,
    fallback: Seq<(String, Sprite)>,
    c: char,
    at: Coordinates,
) -> bool {
    &&& layer_drawable(e, cdda, regions, c, at)
    &&& lookup(fallback, "?_WHITE"@) is Some
}

/// Whether the neighbour tile `around` on `side` counts as the same kind as the tile
/// of character `c` on a layer, for the id `this` drawn for the tile.
fn neighbour_flag(
    e: &MapEntity,
    cdda: &CDDAData,
    c: char,
    at: &Coordinates,
    side: usize,
    around: &Option<Tile>,
    furniture: bool,
    this: &Option<TileId>,
    rng: &mut rand::rngs::StdRng,
) -> (flag: bool)
    requires
        side < 4,
        *around == tile_at(e.spec_tiles()@, neighbours(*at)[side as int]),
        around matches Some(t) ==> e.ids_known(*cdda, t.character),
    ensures
        main_flag(*e, *cdda, c, *at, side as int, furniture, *this, flag),
{
    match around {
        None => {
            assert(flag_from(*e, *cdda, c, *at, side as int, furniture, *this, None, false));
            false
        },
        Some(t) => {
            let ids = e.get_ids(cdda, &t.character, rng);
            let a = if furniture {
                ids.furniture
            } else {
                ids.terrain
            };
            let flag = t.character == c || same_kind(this, &a, &e.object().fill_ter, !furniture);
            assert(flag_from(*e, *cdda, c, *at, side as int, furniture, *this, a, flag));
            flag
        },
    }
}

/// Whether the neighbour tile `around` on `side` counts as the same kind as the fill
/// terrain of the map.
fn fill_neighbour_flag(
    e: &MapEntity,
    cdda: &CDDAData,
    at: &Coordinates,
    side: usize,
    around: &Option<Tile>,
    rng: &mut rand::rngs::StdRng,
) -> (flag: bool)
    requires
        side < 4,
        e.spec_object().fill_ter is Some,
        *around == tile_at(e.spec_tiles()@, neighbours(*at)[side as int]),
        around matches Some(t) ==> e.ids_known(*cdda, t.character),
    ensures
        fill_flag(*e, *cdda, *at, side as int, e.spec_object().fill_ter->Some_0, flag),
{
    let ghost fill = e.spec_object().fill_ter->Some_0;
    match around {
        None => {
            assert(fill_flag_from(*e, *cdda, *at, side as int, fill, None, false));
            false
        },
        Some(t) => {
            let ids = e.get_ids(cdda, &t.character, rng);
            let a = ids.terrain;
            let fill_ter = &e.object().fill_ter;
            let flag = same_kind(fill_ter, &a, fill_ter, true);
            assert(fill_flag_from(*e, *cdda, *at, side as int, fill, a, flag));
            flag
        },
    }
}

/// What a layer (terrain, or furniture) of the tile of character `c` at `at` shows: the
/// id that the map gives the layer, a tile id drawn from it where it is a region, and
/// the sprite of that id; a multitile's sprite is chosen by which neighbours are of the
/// same kind, for an id drawn again for the tile and one for each neighbour.
fn layer_state<'a>(
    e: &MapEntity,
    cdda: &CDDAData,
    regions: &RegionSettings,
    textures: &'a Vec<(String, SpriteType)>,
    c: char,
    at: &Coordinates,
    furniture: bool,
    rng: &mut rand::rngs::StdRng,
) -> (s: SpriteState<&'a Sprite>)
    requires
        layer_drawable(*e, *cdda, *regions, c, *at),
    ensures
        layer_possible(*e, *cdda, *regions, textures@, c, *at, furniture, state_view(s)),
{
    let ids = e.get_ids(cdda, &c, rng);
    let id: Option<TileId> = if furniture {
        ids.furniture
    } else {
        ids.terrain
    };
    let drawn: Option<&TileId> = match &id {
        None => None,
        Some(t) => {
            assert(region_drawable(region_table(*regions, furniture), t@));
            if furniture {
                regions.get_random_furniture_from_region(t, rng)
            } else {
                regions.get_random_terrain_from_region(t, rng)
            }
        },
    };
    let ghost dv: Option<TileId> = match drawn {
        Some(d) => Some(*d),
        None => None,
    };
    let key: Option<&TileId> = match drawn {
        Some(d) => Some(d),
        None => match &id {
            Some(t) => Some(t),
            None => None,
        },
    };
    let multitile = match key {
        None => false,
        Some(k) => match find(textures, k) {
            Some(SpriteType::Multitile { .. }) => true,
            _ => false,
        },
    };
    assert(multitile == is_multitile(textures@, sprite_key(id, dv)));
    if multitile {
        let around = e.get_tiles_around(at);
        let this_ids = e.get_ids(cdda, &c, rng);
        let this: Option<TileId> = if furniture {
            this_ids.furniture
        } else {
            this_ids.terrain
        };
        assert(tile_at(e.spec_tiles()@, neighbours(*at)[0]) == around@[0].0);
        assert(tile_at(e.spec_tiles()@, neighbours(*at)[1]) == around@[1].0);
        assert(tile_at(e.spec_tiles()@, neighbours(*at)[2]) == around@[2].0);
        assert(tile_at(e.spec_tiles()@, neighbours(*at)[3]) == around@[3].0);
        let above = neighbour_flag(e, cdda, c, at, 0, &around[0].0, furniture, &this, rng);
        let right = neighbour_flag(e, cdda, c, at, 1, &around[1].0, furniture, &this, rng);
        let below = neighbour_flag(e, cdda, c, at, 2, &around[2].0, furniture, &this, rng);
        let left = neighbour_flag(e, cdda, c, at, 3, &around[3].0, furniture, &this, rng);
        let s = sprite_state(&id, drawn, textures, above, right, below, left);
        assert(layer_from(*e, *cdda, *regions, textures@, c, *at, furniture, id, dv, this, (above, right, below, left), state_view(s)));
        s
    } else {
        let s = sprite_state(&id, drawn, textures, false, false, false, false);
        assert(layer_from(*e, *cdda, *regions, textures@, c, *at, furniture, id, dv, None, (false, false, false, false), state_view(s)));
        s
    }
}

/// What the fill terrain of the map shows at `at`: nothing without a fill terrain or
/// without sprites for it, else its sprite, a multitile's chosen by which neighbours
/// are of its kind.
fn fill_sprite<'a>(
    e: &MapEntity,
    cdda: &CDDAData,
    textures: &'a Vec<(String, SpriteType)>,
    at: &Coordinates,
    rng: &mut rand::rngs::StdRng,
) -> (s: Option<&'a Sprite>)
    requires
        forall|side: int| 0 <= side < 4 ==> (#[trigger] tile_at(e.spec_tiles()@, neighbours(*at)[side]) matches Some(t)
            ==> e.ids_known(*cdda, t.character)),
        i32::MIN < at.x < i32::MAX,
        i32::MIN < at.y < i32::MAX,
    ensures
        fill_possible(*e, *cdda, textures@, *at, sprite_opt_view(s)),
{
    let fill = match &e.object().fill_ter {
        None => {
            assert(fill_from(*e, *cdda, textures@, *at, (false, false, false, false), None));
            return None;
        },
        Some(f) => f,
    };
    let st = match find(textures, fill) {
        None => {
            assert(fill_from(*e, *cdda, textures@, *at, (false, false, false, false), None));
            return None;
        },
        Some(st) => st,
    };
    match st {
        SpriteType::Single(_) => {
            let s = st.select_sprite(false, false, false, false);
            assert(fill_from(*e, *cdda, textures@, *at, (false, false, false, false), Some(s@)));
            Some(s)
        },
        SpriteType::Multitile { .. } => {
            let around = e.get_tiles_around(at);
            assert(tile_at(e.spec_tiles()@, neighbours(*at)[0]) == around@[0].0);
            assert(tile_at(e.spec_tiles()@, neighbours(*at)[1]) == around@[1].0);
            assert(tile_at(e.spec_tiles()@, neighbours(*at)[2]) == around@[2].0);
            assert(tile_at(e.spec_tiles()@, neighbours(*at)[3]) == around@[3].0);
            let above = fill_neighbour_flag(e, cdda, at, 0, &around[0].0, rng);
            let right = fill_neighbour_flag(e, cdda, at, 1, &around[1].0, rng);
            let below = fill_neighbour_flag(e, cdda, at, 2, &around[2].0, rng);
            let left = fill_neighbour_flag(e, cdda, at, 3, &around[3].0, rng);
            let s = st.select_sprite(above, right, below, left);
            assert(fill_from(*e, *cdda, textures@, *at, (above, right, below, left), Some(s@)));
            Some(s)
        },
    }
}

/// What a tile of character `c` at `at` is drawn as: the sprites that its terrain and
/// furniture layers show, the fill terrain's where the terrain layer names nothing,
/// and the fallback sprite of `c` for a layer whose id has no sprite (see
/// `tile_from`). Ids that are groups or regions are drawn at random, so the result is
/// one of those `tile_possible` allows.
pub fn tile_sprite<'a>(
    entity: &MapEntity,
    cdda: &CDDAData,
    regions: &RegionSettings,
    textures: &'a Vec<(String, SpriteType)>,
    fallback: &'a Vec<(String, Sprite)>,
    c: char,
    at: &Coordinates,
    rng: &mut rand::rngs::StdRng,
) -> (r: TileSprite<&'a Sprite>)
    requires
        drawable(*entity, *cdda, *regions, fallback@, c, *at),
    ensures
        tile_possible(*entity, *cdda, *regions, textures@, fallback@, c, *at, tile_view(r)),
{
    let terrain = layer_state(entity, cdda, regions, textures, c, at, false, rng);
    let furniture = layer_state(entity, cdda, regions, textures, c, at, true, rng);
    let fb = match fallback_for(fallback, c) {
        Some(s) => s,
        None => vstd::pervasive::unreached(),
    };
    let fill = match &terrain {
        SpriteState::NotMapped => fill_sprite(entity, cdda, textures, at, rng),
        _ => None,
    };
    let ghost ts = state_view(terrain);
    let ghost fs = state_view(furniture);
    let r = get_textures(terrain, furniture, SpriteState::NotMapped, SpriteState::NotMapped, fb, fill);
    assert(tile_from(
        *entity,
        *cdda,
        *regions,
        textures@,
        fallback@,
        c,
        *at,
        ts,
        fs,
        sprite_opt_view(fill),
        tile_view(r),
    ));
    r
}

/// How a neighbour is judged for joining a multitile: no tile there never joins; a
/// tile with the same character joins; a tile whose id on the layer equals the tile's
/// own id joins, whatever its character; a tile of another character with another id
/// does not join; on the terrain layer a tile without a terrain id stands for the fill
/// terrain, while on the furniture layer a tile of another character without an id on
/// either side does not join.
pub proof fn lemma_neighbour_joins_by_character_or_id(
    e: MapEntity,
    cdda: CDDAData,
    c: char,
    at: Coordinates,
    side: int,
    furniture: bool,
    this: Option<TileId>,
    around: Option<TileId>,
    flag: bool,
)
    requires
        0 <= side < 4,
        flag_from(e, cdda, c, at, side, furniture, this, around, flag),
    ensures
        tile_at(e.spec_tiles()@, neighbours(at)[side]) is None ==> !flag,
        tile_at(e.spec_tiles()@, neighbours(at)[side]) matches Some(t) && t.character == c ==> flag,
        tile_at(e.spec_tiles()@, neighbours(at)[side]) is Some && this is Some && around is Some
            && this->Some_0@ == around->Some_0@ ==> flag,
        tile_at(e.spec_tiles()@, neighbours(at)[side]) matches Some(t) && t.character != c && this is Some
            && around is Some && this->Some_0@ != around->Some_0@ ==> !flag,
        !furniture && tile_at(e.spec_tiles()@, neighbours(at)[side]) is Some && e.spec_object().fill_ter is Some
            && this is None && around is Some && around->Some_0@ == e.spec_object().fill_ter->Some_0@ ==> flag,
        tile_at(e.spec_tiles()@, neighbours(at)[side]) matches Some(t) && t.character != c && furniture && (
        this is None || around is None) ==> !flag,
{
}

/// Drawing the fill terrain, a neighbour joins exactly when its terrain id is the fill
/// terrain, or it has no terrain id (and so stands on the fill terrain); no tile there
/// never joins.
pub proof fn lemma_fill_neighbour_joins_by_id(
    e: MapEntity,
    cdda: CDDAData,
    at: Coordinates,
    side: int,
    fill: TileId,
    around: Option<TileId>,
    flag: bool,
)
    requires
        0 <= side < 4,
        e.spec_object().fill_ter == Some(fill),
        fill_flag_from(e, cdda, at, side, fill, around, flag),
    ensures
        tile_at(e.spec_tiles()@, neighbours(at)[side]) is None ==> !flag,
        tile_at(e.spec_tiles()@, neighbours(at)[side]) is Some ==> (flag <==> match around {
            Some(a) => a@ == fill@,
            None => true,
        }),
{
}

} // verus!
