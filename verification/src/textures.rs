use vstd::prelude::*;
use vstd::string::*;

use crate::coordinates::first_index_of;
use crate::graphics::{spec_select_sprite, Sprite, SpriteType, SpriteView};
use crate::region_settings::RegionTable;
use crate::table::{find, lookup, TableKey};

verus! {

/// What the uppercase mapping of Unicode gives for a character: one or more
/// characters.
pub uninterp spec fn uppercase_of(c: char) -> Seq<char>;

/// The uppercase of a character as text. Calls `char::to_uppercase` and collects
/// the characters it yields. Trusted to give `uppercase_of(c)`, and for ASCII
/// characters what the Unicode tables give: `a` to `z` become `A` to `Z`, the others
/// stay as they are. For other characters the mapping is only named.
#[verifier::external_body]
fn uppercase(c: char) -> (r: String)
    ensures
        r@ == uppercase_of(c),
        ('a' <= c && c <= 'z') ==> r@ == seq![((c as u32) - 32) as char],
        ((c as u32) < 128 && !('a' <= c && c <= 'z')) ==> r@ == seq![c],
{
    c.to_uppercase().collect::<String>()
}

/// The key of the white fallback sprite of a character: its uppercase, then
/// `_WHITE`.
pub open spec fn fallback_key_of(c: char) -> Seq<char> {
    uppercase_of(c) + "_WHITE"@
}

/// The white fallback sprite of a character, or else that of `?`. None where neither
/// is in the table.
pub open spec fn spec_fallback_for<V>(table: Seq<(String, V)>, c: char) -> Option<V> {
    match lookup(table, fallback_key_of(c)) {
        Some(v) => Some(v),
        None => lookup(table, "?_WHITE"@),
    }
}

/// The white fallback sprite of a character (see `spec_fallback_for`).
pub fn fallback_for<V>(table: &Vec<(String, V)>, c: char) -> (r: Option<&V>)
    ensures
        match r {
            None => spec_fallback_for(table@, c) is None,
            Some(v) => spec_fallback_for(table@, c) == Some(*v),
        },
{
    let mut key = uppercase(c);
    key.append("_WHITE");
    match find(table, &key) {
        Some(v) => Some(v),
        None => {
            let q = String::from_str("?_WHITE");
            find(table, &q)
        },
    }
}

/// The character whose fallback sprite stands for a tile id: the one after its first
/// `_` (`t_grass` gives `g`), or `?` when there is none.
pub open spec fn spec_representation_char(id: Seq<char>) -> char {
    let p = first_index_of(id, '_');
    if p + 1 < id.len() {
        id[p + 1]
    } else {
        '?'
    }
}

/// The character whose fallback sprite stands for a tile id (see
/// `spec_representation_char`).
pub fn representation_char(id: &str) -> (c: char)
    ensures
        c == spec_representation_char(id@),
{
    let n = id.unicode_len();
    let mut p: usize = 0;
    assert(id@.skip(0) =~= id@);
    while p < n && id.get_char(p) != '_'
        invariant
            p <= n,
            n == id@.len(),
            first_index_of(id@, '_') == p + first_index_of(id@.skip(p as int), '_'),
        decreases n - p,
    {
        proof {
            lemma_first_index_of_skip(id@, '_', p as int);
        }
        p = p + 1;
    }
    proof {
        if p < n {
            assert(id@.skip(p as int)[0] == '_');
        } else {
            assert(id@.skip(p as int).len() == 0);
        }
    }
    if p < n && p + 1 < n {
        id.get_char(p + 1)
    } else {
        '?'
    }
}

proof fn lemma_first_index_of_skip(s: Seq<char>, c: char, i: int)
    requires
        0 <= i < s.len(),
        s[i] != c,
    ensures
        first_index_of(s.skip(i), c) == 1 + first_index_of(s.skip(i + 1), c),
{
    assert(s.skip(i)[0] == s[i]);
    assert(s.skip(i).drop_first() =~= s.skip(i + 1));
}

/// The sprite that stands for a tile or region id: a region stands for the first id
/// it lists; an id without sprites for the fallback sprite of its character (see
/// `spec_representation_char`). None where that fails: an empty region, or no
/// fallback sprite.
pub open spec fn spec_representation(
    textures: Seq<(String, SpriteType)>,
    regions: Seq<(String, Vec<(String, u32)>)>,
    fallback: Seq<(String, Sprite)>,
    id: Seq<char>,
) -> Option<Sprite> {
    let tile = match lookup(regions, id) {
        None => Some(id),
        Some(w) => if w@.len() > 0 {
            Some(w@[0].0@)
        } else {
            None
        },
    };
    match tile {
        None => None,
        Some(t) => match lookup(textures, t) {
            Some(st) => match st {
                SpriteType::Single(s) => Some(s),
                SpriteType::Multitile { center, .. } => Some(center),
            },
            None => spec_fallback_for(fallback, spec_representation_char(id)),
        },
    }
}

/// The sprite that stands for a tile or region id (see `spec_representation`).
pub fn get_terrain_representation<'a>(
    textures: &'a Vec<(String, SpriteType)>,
    regions: &RegionTable,
    fallback: &'a Vec<(String, Sprite)>,
    id: &String,
) -> (r: Option<&'a Sprite>)
    ensures
        match r {
            None => spec_representation(textures@, regions@, fallback@, id@) is None,
            Some(s) => spec_representation(textures@, regions@, fallback@, id@) == Some(*s),
        },
{
    let found = match find(regions, id) {
        None => find(textures, id),
        Some(w) => {
            if w.len() == 0 {
                return None;
            }
            find(textures, &w[0].0)
        },
    };
    match found {
        Some(st) => Some(st.representation()),
        None => fallback_for(fallback, representation_char(id.as_str())),
    }
}

/// What the map says of a layer of a tile: a sprite was found, the id it names has
/// no sprite, or it names none.
#[derive(Debug)]
pub enum SpriteState<T> {
    Defined(T),
    TextureNotFound,
    NotMapped,
}

/// What is drawn on a tile: a sprite for some layers, or nothing.
#[derive(Debug)]
pub enum TileSprite<T> {
    Exists { terrain: Option<T>, furniture: Option<T>, items: Option<T>, toilets: Option<T> },
    Fallback(T),
    Empty,
}

/// The sprite of a layer: the one found, the fallback sprite when the id has none,
/// and for a layer that names none what `unmapped` gives.
pub open spec fn spec_layer_sprite<T>(state: SpriteState<T>, fallback: T, unmapped: Option<T>) -> Option<T> {
    match state {
        SpriteState::Defined(s) => Some(s),
        SpriteState::TextureNotFound => Some(fallback),
        SpriteState::NotMapped => unmapped,
    }
}

/// The sprites of a tile from what its layers say: the terrain of a tile that names
/// none is that of the fill terrain (`fill`, if the map has one); a tile with no
/// sprite on any layer is empty.
pub open spec fn spec_tile_sprite<T>(
    terrain: SpriteState<T>,
    furniture: SpriteState<T>,
    items: SpriteState<T>,
    toilets: SpriteState<T>,
    fallback: T,
    fill: Option<T>,
) -> TileSprite<T> {
    let t = spec_layer_sprite(terrain, fallback, fill);
    let f = spec_layer_sprite(furniture, fallback, None);
    let i = spec_layer_sprite(items, fallback, None);
    let o = spec_layer_sprite(toilets, fallback, None);
    if t is None && f is None && i is None && o is None {
        TileSprite::Empty
    } else {
        TileSprite::Exists { terrain: t, furniture: f, items: i, toilets: o }
    }
}

fn layer_sprite<T: Copy>(state: SpriteState<T>, fallback: T, unmapped: Option<T>) -> (r: Option<T>)
    ensures
        r == spec_layer_sprite(state, fallback, unmapped),
{
    match state {
        SpriteState::Defined(s) => Some(s),
        SpriteState::TextureNotFound => Some(fallback),
        SpriteState::NotMapped => unmapped,
    }
}

/// The sprites of a tile (see `spec_tile_sprite`).
pub fn get_textures<T: Copy>(
    terrain: SpriteState<T>,
    furniture: SpriteState<T>,
    items: SpriteState<T>,
    toilets: SpriteState<T>,
    fallback: T,
    fill: Option<T>,
) -> (r: TileSprite<T>)
    ensures
        r == spec_tile_sprite(terrain, furniture, items, toilets, fallback, fill),
{
    let t = layer_sprite(terrain, fallback, fill);
    let f = layer_sprite(furniture, fallback, None);
    let i = layer_sprite(items, fallback, None);
    let o = layer_sprite(toilets, fallback, None);
    if t.is_none() && f.is_none() && i.is_none() && o.is_none() {
        TileSprite::Empty
    } else {
        TileSprite::Exists { terrain: t, furniture: f, items: i, toilets: o }
    }
}

/// What a layer of a tile shows, from the id the map gives it (none when it gives
/// none), the tile id drawn from it when it is a region, and which neighbours are of
/// the same kind: the sprite of the id (or of the drawn tile) for those neighbours, or
/// no texture when the tileset has none for it.
pub open spec fn spec_sprite_state(
    id: Option<Seq<char>>,
    drawn: Option<Seq<char>>,
    textures: Seq<(String, SpriteType)>,
    above: bool,
    right: bool,
    below: bool,
    left: bool,
) -> Option<Option<SpriteView>> {
    match id {
        None => None,
        Some(t) => {
            let key = match drawn {
                Some(d) => d,
                None => t,
            };
            match lookup(textures, key) {
                None => Some(None),
                Some(st) => Some(Some(spec_select_sprite(st@, above, right, below, left))),
            }
        },
    }
}

/// The view of a sprite state: none when nothing is mapped, else the sprite if one was
/// found.
pub open spec fn state_view(s: SpriteState<&Sprite>) -> Option<Option<SpriteView>> {
    match s {
        SpriteState::NotMapped => None,
        SpriteState::TextureNotFound => Some(None),
        SpriteState::Defined(x) => Some(Some(x@)),
    }
}

/// What a layer of a tile shows (see `spec_sprite_state`).
pub fn sprite_state<'a>(
    id: &Option<String>,
    drawn: Option<&String>,
    textures: &'a Vec<(String, SpriteType)>,
    above: bool,
    right: bool,
    below: bool,
    left: bool,
) -> (r: SpriteState<&'a Sprite>)
    ensures
        state_view(r) == spec_sprite_state(
            match *id {
                Some(t) => Some(t@),
                None => None,
            },
            match drawn {
                Some(d) => Some(d@),
                None => None,
            },
            textures@,
            above,
            right,
            below,
            left,
        ),
{
    match id {
        None => SpriteState::NotMapped,
        Some(t) => {
            let key = match drawn {
                Some(d) => d,
                None => t,
            };
            match find(textures, key) {
                None => SpriteState::TextureNotFound,
                Some(st) => SpriteState::Defined(st.select_sprite(above, right, below, left)),
            }
        },
    }
}

} // verus!
