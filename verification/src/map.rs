use vstd::prelude::*;

use crate::common::TileId;
use crate::palettes::{MapObjectId, MeabyParam, PaletteId, Parameter};
use crate::coordinates::Coordinates;
use crate::table::{
    find, find_index, insert, keys_unique, lemma_lookup_index, lemma_lookup_remove,
    lemma_lookup_unique, lookup, table_map, TableKey,
};

verus! {

pub type ParameterId = String;

/// The values that the parameters of a map object, and of each palette it uses
/// (by palette id), took when the map was loaded.
#[derive(Debug)]
pub struct ComputedParameters {
    pub this: Vec<(ParameterId, String)>,
    pub palettes: Vec<(PaletteId, ComputedParameters)>,
}

/// The value of parameter `k`: its own value if it has one, else the first value
/// found in the palettes, in order, each searched the same way.
pub open spec fn param_value(cp: ComputedParameters, k: Seq<char>) -> Option<String>
    decreases cp, 1nat, 0int,
{
    match lookup(cp.this@, k) {
        Some(v) => Some(v),
        None => nested_param_value(cp, k, 0),
    }
}

/// The first value of parameter `k` among the palettes of `cp` from index `i` on.
pub open spec fn nested_param_value(cp: ComputedParameters, k: Seq<char>, i: int) -> Option<
    String,
>
    decreases cp, 0nat, cp.palettes@.len() - i,
{
    if 0 <= i < cp.palettes@.len() {
        proof {
            assert(decreases_to!(cp => cp.palettes));
            assert(decreases_to!(cp.palettes => cp.palettes@));
            assert(decreases_to!(cp.palettes@ => cp.palettes@[i]));
            assert(decreases_to!(cp.palettes@[i] => cp.palettes@[i].1));
        }
        match param_value(cp.palettes@[i].1, k) {
            Some(v) => Some(v),
            None => nested_param_value(cp, k, i + 1),
        }
    } else {
        None
    }
}

impl ComputedParameters {
    pub fn get_value(&self, parameter_id: &String) -> (r: Option<&String>)
        ensures
            match r {
                None => param_value(*self, parameter_id@) is None,
                Some(v) => param_value(*self, parameter_id@) == Some(*v),
            },
        decreases self,
    {
        match find(&self.this, parameter_id) {
            Some(v) => {
                return Some(v);
            },
            None => {},
        }
        let mut i: usize = 0;
        assert(param_value(*self, parameter_id@) == nested_param_value(*self, parameter_id@, 0));
        while i < self.palettes.len()
            invariant
                i <= self.palettes.len(),
                param_value(*self, parameter_id@) == nested_param_value(
                    *self,
                    parameter_id@,
                    i as int,
                ),
            decreases self.palettes.len() - i,
        {
            let parameters = &self.palettes[i].1;
            proof {
                assert(decreases_to!(*self => self.palettes));
                assert(decreases_to!(self.palettes => self.palettes@));
                assert(decreases_to!(self.palettes@ => self.palettes@[i as int]));
                assert(decreases_to!(self.palettes@[i as int] => self.palettes@[i as int].1));
            }
            match parameters.get_value(parameter_id) {
                None => {},
                Some(v) => {
                    return Some(v);
                },
            }
            i = i + 1;
        }
        None
    }
}

} // verus!

verus! {

/// The ids of the sprites (entities) that show one layer of a tile.
#[derive(Clone, Copy, Debug, PartialEq, Eq, Structural)]
pub struct SpriteRepresentation {
    pub fg_entity: Option<u64>,
    pub bg_entity: Option<u64>,
}

impl SpriteRepresentation {
    pub fn new() -> (r: Self)
        ensures
            r.fg_entity is None,
            r.bg_entity is None,
    {
        SpriteRepresentation { fg_entity: None, bg_entity: None }
    }
}

/// A tile of a map: the character that stands for it in the mapgen rows, and the
/// sprites that show it.
#[derive(Clone, Copy, Debug, PartialEq, Eq, Structural)]
pub struct Tile {
    pub character: char,
    pub fallback: SpriteRepresentation,
    pub terrain: SpriteRepresentation,
    pub furniture: SpriteRepresentation,
    pub items: SpriteRepresentation,
    pub toilets: SpriteRepresentation,
}

/// A tile with no sprites yet.
pub open spec fn spec_tile_from(c: char) -> Tile {
    let none = SpriteRepresentation { fg_entity: None, bg_entity: None };
    Tile { character: c, fallback: none, terrain: none, furniture: none, items: none, toilets: none }
}

impl From<char> for Tile {
    fn from(value: char) -> (r: Self) {
        Tile {
            character: value,
            fallback: SpriteRepresentation::new(),
            terrain: SpriteRepresentation::new(),
            furniture: SpriteRepresentation::new(),
            items: SpriteRepresentation::new(),
            toilets: SpriteRepresentation::new(),
        }
    }
}

impl vstd::std_specs::convert::FromSpecImpl<char> for Tile {
    open spec fn obeys_from_spec() -> bool {
        true
    }

    open spec fn from_spec(v: char) -> Tile {
        spec_tile_from(v)
    }
}

/// The tiles of a map, by coordinates.
#[derive(Debug)]
pub struct TileMap {
    entries: Vec<(Coordinates, Tile)>,
}

impl View for TileMap {
    type V = Map<Coordinates, Tile>;

    closed spec fn view(&self) -> Map<Coordinates, Tile> {
        table_map(self.entries@)
    }
}

impl TileMap {
    #[verifier::type_invariant]
    spec fn wf(self) -> bool {
        keys_unique(self.entries@)
    }

    /// The entries, each coordinate once.
    pub closed spec fn spec_entries(&self) -> Seq<(Coordinates, Tile)> {
        self.entries@
    }

    /// The map is what its entries say.
    pub proof fn lemma_view(&self)
        ensures
            self@ == table_map(self.spec_entries()),
    {
    }

    pub fn new() -> (r: Self)
        ensures
            r@ == Map::<Coordinates, Tile>::empty(),
    {
        let r = TileMap { entries: Vec::new() };
        assert(r@ =~= Map::<Coordinates, Tile>::empty());
        r
    }

    /// The entries, each coordinate once, for iteration.
    pub fn entries(&self) -> (r: &Vec<(Coordinates, Tile)>)
        ensures
            r@ == self.spec_entries(),
            keys_unique(r@),
    {
        proof {
            use_type_invariant(self);
        }
        &self.entries
    }

    pub fn len(&self) -> (r: usize)
        ensures
            r == self@.dom().len(),
    {
        proof {
            use_type_invariant(self);
            lemma_table_map_len(self.entries@);
        }
        self.entries.len()
    }

    pub fn get(&self, coordinates: &Coordinates) -> (r: Option<&Tile>)
        ensures
            match r {
                None => !self@.dom().contains(*coordinates),
                Some(t) => self@.dom().contains(*coordinates) && self@[*coordinates] == *t,
            },
    {
        find(&self.entries, coordinates)
    }

    /// Sets the tile at `coordinates`.
    pub fn insert(&mut self, coordinates: Coordinates, tile: Tile)
        ensures
            final(self)@ == old(self)@.insert(coordinates, tile),
    {
        proof {
            use_type_invariant(&*self);
        }
        let ghost old_entries = self.entries@;
        let mut entries = Vec::new();
        std::mem::swap(&mut entries, &mut self.entries);
        insert(&mut entries, coordinates, tile);
        self.entries = entries;
        assert(self@ =~= old(self)@.insert(coordinates, tile)) by {
            assert forall|k: Coordinates| #[trigger] lookup(self.entries@, k) == (if k
                == coordinates {
                Some(tile)
            } else {
                lookup(old_entries, k)
            }) by {}
        }
    }

    /// Removes the tile at `coordinates`, if there is one, and returns it.
    pub fn remove(&mut self, coordinates: &Coordinates) -> (r: Option<Tile>)
        ensures
            final(self)@ == old(self)@.remove(*coordinates),
            match r {
                None => !old(self)@.dom().contains(*coordinates),
                Some(t) => old(self)@.dom().contains(*coordinates) && old(self)@[*coordinates]
                    == t,
            },
    {
        proof {
            use_type_invariant(&*self);
        }
        match find_index(&self.entries, coordinates) {
            None => {
                assert(self@ =~= old(self)@.remove(*coordinates));
                None
            },
            Some(i) => {
                let ghost old_entries = self.entries@;
                let mut entries = Vec::new();
                std::mem::swap(&mut entries, &mut self.entries);
                let (_, t) = entries.remove(i);
                proof {
                    assert forall|k: Coordinates| true implies #[trigger] lookup(entries@, k) == (
                    if k == *coordinates {
                        None
                    } else {
                        lookup(old_entries, k)
                    }) by {
                        lemma_lookup_remove(old_entries, i as int, k);
                    }
                    lemma_lookup_remove(old_entries, i as int, *coordinates);
                }
                self.entries = entries;
                assert(self@ =~= old(self)@.remove(*coordinates));
                Some(t)
            },
        }
    }
}

/// A list with unique keys has as many entries as its map has keys.
proof fn lemma_table_map_len(s: Seq<(Coordinates, Tile)>)
    requires
        keys_unique(s),
    ensures
        table_map(s).dom().finite(),
        table_map(s).dom().len() == s.len(),
    decreases s.len(),
{
    let m = table_map(s);
    if s.len() == 0 {
        assert(m.dom() =~= Set::<Coordinates>::empty());
    } else {
        let last = s.last();
        let init = s.drop_last();
        assert(keys_unique(init)) by {
            assert forall|a: int, b: int|
                0 <= a < init.len() && 0 <= b < init.len() && a != b implies #[trigger] init[a].0.key_view()
                != #[trigger] init[b].0.key_view() by {
                assert(init[a] == s[a]);
                assert(init[b] == s[b]);
            }
        }
        lemma_table_map_len(init);
        assert(s.remove(s.len() - 1) =~= init);
        assert forall|k: Coordinates| true implies #[trigger] m.dom().contains(k) == (
        table_map(init).dom().contains(k) || k == last.0) by {
            lemma_lookup_remove(s, s.len() - 1, k);
            lemma_lookup_unique(s, s.len() - 1);
        }
        assert(m.dom() =~= table_map(init).dom().insert(last.0));
        lemma_lookup_index(init, last.0);
        assert forall|j: int| 0 <= j < init.len() implies init[j].0.key_view() != last.0 by {
            assert(init[j] == s[j]);
        }
    }
}

} // verus!

verus! {

/// What a map object says about its characters and parameters.
#[derive(Debug)]
pub struct TileSelection {
    pub computed_parameters: ComputedParameters,
    pub parameters: Vec<(ParameterId, Parameter)>,
    pub fill_ter: Option<TileId>,
    pub palettes: Vec<MapObjectId<MeabyParam>>,
    pub terrain: Vec<(char, MapObjectId<MeabyParam>)>,
    pub furniture: Vec<(char, MapObjectId<MeabyParam>)>,
}

impl TileSelection {
    /// A selection that maps nothing.
    pub fn new() -> (r: Self)
        ensures
            r.computed_parameters.this@.len() == 0,
            r.computed_parameters.palettes@.len() == 0,
            r.parameters@.len() == 0,
            r.fill_ter is None,
            r.palettes@.len() == 0,
            r.terrain@.len() == 0,
            r.furniture@.len() == 0,
    {
        TileSelection {
            computed_parameters: ComputedParameters { this: Vec::new(), palettes: Vec::new() },
            parameters: Vec::new(),
            fill_ter: None,
            palettes: Vec::new(),
            terrain: Vec::new(),
            furniture: Vec::new(),
        }
    }
}

/// A map object for one overmap terrain.
#[derive(Debug)]
pub struct Single {
    pub om_terrain: String,
    pub tile_selection: TileSelection,
    pub tiles: TileMap,
    pub size: (i32, i32),
}

/// A map object shared by several overmap terrains.
#[derive(Debug)]
pub struct Multi {
    pub om_terrain: Vec<String>,
    pub tile_selection: TileSelection,
    pub tiles: TileMap,
}

/// A map object that spans a grid of overmap terrains.
#[derive(Debug)]
pub struct Nested {
    pub row_size: usize,
    pub om_terrain: Vec<String>,
    pub tile_selection: TileSelection,
    pub tiles: TileMap,
}

/// The map object that a project edits.
#[derive(Debug)]
pub enum MapEntity {
    Single(Single),
    Multi(Multi),
    Nested(Nested),
}

/// The ids that a character of a map stands for, layer by layer.
#[derive(Debug)]
pub struct TileIdGroup {
    pub terrain: Option<TileId>,
    pub furniture: Option<TileId>,
    pub toilet: Option<TileId>,
    pub item: Option<TileId>,
}

impl TileIdGroup {
    pub fn new() -> (r: Self)
        ensures
            r.terrain is None,
            r.furniture is None,
            r.toilet is None,
            r.item is None,
    {
        TileIdGroup { terrain: None, furniture: None, toilet: None, item: None }
    }
}

/// The four neighbours of `c`, in the order top, right, below, left.
pub open spec fn neighbours(c: Coordinates) -> Seq<Coordinates> {
    seq![
        Coordinates { x: c.x, y: (c.y - 1) as i32 },
        Coordinates { x: (c.x + 1) as i32, y: c.y },
        Coordinates { x: c.x, y: (c.y + 1) as i32 },
        Coordinates { x: (c.x - 1) as i32, y: c.y },
    ]
}

impl MapEntity {
    pub open spec fn spec_object(self) -> TileSelection {
        match self {
            MapEntity::Single(s) => s.tile_selection,
            MapEntity::Multi(m) => m.tile_selection,
            MapEntity::Nested(n) => n.tile_selection,
        }
    }

    pub open spec fn spec_tiles(self) -> TileMap {
        match self {
            MapEntity::Single(s) => s.tiles,
            MapEntity::Multi(m) => m.tiles,
            MapEntity::Nested(n) => n.tiles,
        }
    }

    /// A new single map object: 24 by 24 tiles, none placed, nothing mapped.
    pub fn new(om_terrain: String) -> (r: Self)
        ensures
            r matches MapEntity::Single(s) && s.om_terrain == om_terrain && s.size == (24i32, 24i32),
            r.spec_tiles()@ == Map::<Coordinates, Tile>::empty(),
            r.spec_object().palettes@.len() == 0,
            r.spec_object().terrain@.len() == 0,
            r.spec_object().furniture@.len() == 0,
            r.spec_object().fill_ter is None,
    {
        MapEntity::Single(
            Single {
                om_terrain,
                tile_selection: TileSelection::new(),
                tiles: TileMap::new(),
                size: (24, 24),
            },
        )
    }

    pub fn object(&self) -> (r: &TileSelection)
        ensures
            *r == self.spec_object(),
    {
        match self {
            MapEntity::Single(s) => &s.tile_selection,
            MapEntity::Multi(m) => &m.tile_selection,
            MapEntity::Nested(n) => &n.tile_selection,
        }
    }

    pub fn tiles(&self) -> (r: &TileMap)
        ensures
            *r == self.spec_tiles(),
    {
        match self {
            MapEntity::Single(s) => &s.tiles,
            MapEntity::Multi(m) => &m.tiles,
            MapEntity::Nested(n) => &n.tiles,
        }
    }

    /// Sets the tile at `coordinates` and leaves the rest of the map object as it was.
    pub fn set_tile(&mut self, coordinates: Coordinates, tile: Tile)
        ensures
            final(self).spec_tiles()@ == old(self).spec_tiles()@.insert(coordinates, tile),
            final(self).spec_object() == old(self).spec_object(),
            same_kind(*old(self), *final(self)),
    {
        match self {
            MapEntity::Single(s) => s.tiles.insert(coordinates, tile),
            MapEntity::Multi(m) => m.tiles.insert(coordinates, tile),
            MapEntity::Nested(n) => n.tiles.insert(coordinates, tile),
        }
    }

    /// Places a tile of `character` at `cords` unless a tile is there already. The
    /// placed tile is returned, to be announced; nothing changes when the place is
    /// taken.
    pub fn set_tile_at(&mut self, character: char, cords: (i32, i32)) -> (r: Option<Tile>)
        ensures
            ({
                let c = Coordinates { x: cords.0, y: cords.1 };
                &&& tile_at(old(self).spec_tiles()@, c) is Some ==> r is None
                    && final(self).spec_tiles()@ == old(self).spec_tiles()@
                &&& tile_at(old(self).spec_tiles()@, c) is None ==> r == Some(spec_tile_from(character))
                    && final(self).spec_tiles()@ == old(self).spec_tiles()@.insert(c, spec_tile_from(character))
            }),
            final(self).spec_object() == old(self).spec_object(),
            same_kind(*old(self), *final(self)),
    {
        let coordinates = Coordinates { x: cords.0, y: cords.1 };
        if self.tiles().get(&coordinates).is_some() {
            return None;
        }
        let tile = Tile::from(character);
        self.set_tile(coordinates, tile);
        Some(tile)
    }

    /// Removes the tile at `coordinates`, if any, and leaves the rest as it was.
    pub fn remove_tile(&mut self, coordinates: &Coordinates) -> (r: Option<Tile>)
        ensures
            final(self).spec_tiles()@ == old(self).spec_tiles()@.remove(*coordinates),
            final(self).spec_object() == old(self).spec_object(),
            same_kind(*old(self), *final(self)),
            match r {
                None => !old(self).spec_tiles()@.dom().contains(*coordinates),
                Some(t) => old(self).spec_tiles()@.dom().contains(*coordinates)
                    && old(self).spec_tiles()@[*coordinates] == t,
            },
    {
        match self {
            MapEntity::Single(s) => s.tiles.remove(coordinates),
            MapEntity::Multi(m) => m.tiles.remove(coordinates),
            MapEntity::Nested(n) => n.tiles.remove(coordinates),
        }
    }

    /// The tiles above, right of, below and left of `coordinates` (none where no tile
    /// is placed), each with its coordinates.
    pub fn get_tiles_around(&self, coordinates: &Coordinates) -> (r: Vec<(Option<Tile>, Coordinates)>)
        requires
            i32::MIN < coordinates.x < i32::MAX,
            i32::MIN < coordinates.y < i32::MAX,
        ensures
            r@.len() == 4,
            forall|i: int|
                0 <= i < 4 ==> (#[trigger] r@[i]).1 == neighbours(*coordinates)[i] && r@[i].0
                    == tile_at(self.spec_tiles()@, neighbours(*coordinates)[i]),
    {
        let tiles = self.tiles();
        let top = Coordinates { x: coordinates.x, y: coordinates.y - 1 };
        let right = Coordinates { x: coordinates.x + 1, y: coordinates.y };
        let below = Coordinates { x: coordinates.x, y: coordinates.y + 1 };
        let left = Coordinates { x: coordinates.x - 1, y: coordinates.y };
        let mut r: Vec<(Option<Tile>, Coordinates)> = Vec::new();
        r.push((copied(tiles.get(&top)), top));
        r.push((copied(tiles.get(&right)), right));
        r.push((copied(tiles.get(&below)), below));
        r.push((copied(tiles.get(&left)), left));
        r
    }

    /// The size of the map in tiles: the stored size of a single map object, 24 by 24
    /// for one shared by several terrains, and the terrain count by the row size for a
    /// nested one.
    pub fn size(&self) -> (r: (i64, i64))
        requires
            self matches MapEntity::Nested(n) ==> n.om_terrain@.len() <= i64::MAX && n.row_size
                <= i64::MAX,
        ensures
            r == match *self {
                MapEntity::Single(s) => (s.size.0 as i64, s.size.1 as i64),
                MapEntity::Multi(_) => (24i64, 24i64),
                MapEntity::Nested(n) => (n.om_terrain@.len() as i64, n.row_size as i64),
            },
    {
        match self {
            MapEntity::Single(s) => (s.size.0 as i64, s.size.1 as i64),
            MapEntity::Multi(_) => (24, 24),
            MapEntity::Nested(n) => (n.om_terrain.len() as i64, n.row_size as i64),
        }
    }
}

/// The two map objects are of the same kind and have the same terrain ids and sizes.
pub open spec fn same_kind(a: MapEntity, b: MapEntity) -> bool {
    match (a, b) {
        (MapEntity::Single(x), MapEntity::Single(y)) => x.om_terrain == y.om_terrain && x.size
            == y.size,
        (MapEntity::Multi(x), MapEntity::Multi(y)) => x.om_terrain == y.om_terrain,
        (MapEntity::Nested(x), MapEntity::Nested(y)) => x.om_terrain == y.om_terrain
            && x.row_size == y.row_size,
        _ => false,
    }
}

/// The tile placed at `c`, if any.
pub open spec fn tile_at(m: Map<Coordinates, Tile>, c: Coordinates) -> Option<Tile> {
    if m.dom().contains(c) {
        Some(m[c])
    } else {
        None
    }
}

fn copied(t: Option<&Tile>) -> (r: Option<Tile>)
    ensures
        r == match t {
            Some(x) => Some(*x),
            None => None::<Tile>,
        },
{
    match t {
        Some(x) => Some(*x),
        None => None,
    }
}

/// A tile placed at a position is what reading that position gives; placing it leaves
/// the other positions as they were; and removing it again leaves the position empty.
pub proof fn lemma_place_then_read(m: Map<Coordinates, Tile>, c: Coordinates, t: Tile, d: Coordinates)
    ensures
        tile_at(m.insert(c, t), c) == Some(t),
        d != c ==> tile_at(m.insert(c, t), d) == tile_at(m, d),
        tile_at(m.insert(c, t).remove(c), c) is None,
        d != c ==> tile_at(m.remove(c), d) == tile_at(m, d),
{
}

} // verus!
