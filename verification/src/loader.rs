use vstd::prelude::*;
use vstd::string::*;

use crate::common::{meaby_weighted_weights, GetRandom, MeabyWeighted, TileId};
use crate::random::weight_sum;
use crate::coordinates::Coordinates;
use crate::map::{
    spec_tile_from, ComputedParameters, MapEntity, ParameterId, Single, Tile, TileMap,
    TileSelection,
};
use crate::palettes::{CDDAData, MapGenValue, MapObjectId, MeabyParam, Palette, Parameter, PaletteId};
use crate::table::{find, insert, lookup};

verus! {

/// How a map object is placed on the overmap.
#[derive(Debug)]
pub enum MapEntityType {
    NestedMapgen { nested_mapgen_id: String },
    Default { om_terrain: String, weight: u32 },
    Multi { om_terrain: Vec<String>, weight: u32 },
    Nested { om_terrain: Vec<Vec<String>>, weight: u32 },
}

/// The `object` of a mapgen entry, as the loader reads it.
#[derive(Debug)]
pub struct MapgenDefinition {
    pub parameters: Vec<(ParameterId, Parameter)>,
    pub rows: Vec<String>,
    pub mapgensize: Option<(i32, i32)>,
    pub palettes: Vec<MapObjectId<MeabyParam>>,
    pub terrain: Vec<(char, MapObjectId<MeabyParam>)>,
    pub furniture: Vec<(char, MapObjectId<MeabyParam>)>,
    pub fill_ter: Option<TileId>,
}

/// An entry of a mapgen file: the overmap terrains it is for (none when the entry
/// names none), and its definition (none when it has no `object`).
#[derive(Debug)]
pub struct MapgenObject {
    pub om_terrain: Option<MapObjectId<String>>,
    pub object: Option<MapgenDefinition>,
}

/// Loads the map object for one overmap terrain id from a mapgen file.
pub struct MapEntityLoader {
    pub path: String,
    pub id: String,
}

/// `o` names overmap terrain `id`.
pub open spec fn om_matches(o: MapObjectId<String>, id: Seq<char>) -> bool {
    match o {
        MapObjectId::Grouped(g) => exists|i: int| 0 <= i < g@.len() && (#[trigger] g@[i]).spec_value()@ == id,
        MapObjectId::Nested(n) => exists|i: int, j: int|
            0 <= i < n@.len() && 0 <= j < n@[i]@.len() && (#[trigger] n@[i]@[j]).spec_value()@ == id,
        MapObjectId::Single(s) => s.spec_value()@ == id,
        _ => false,
    }
}

/// The loader can read the overmap terrains of an entry: a list, a non-empty grid
/// whose size in tiles (24 per terrain) fits an `i32`, or a single id.
pub open spec fn om_supported(o: MapObjectId<String>) -> bool {
    match o {
        MapObjectId::Grouped(_) => true,
        MapObjectId::Nested(n) => n@.len() > 0 && 24 * n@.len() <= i32::MAX && 24 * n@[0]@.len()
            <= i32::MAX,
        MapObjectId::Single(_) => true,
        _ => false,
    }
}

/// The entry names overmap terrain `id`.
pub open spec fn object_matches(o: MapgenObject, id: Seq<char>) -> bool {
    o.om_terrain matches Some(t) && om_matches(t, id)
}

/// Every entry that the search looks at (those up to the first match) names its
/// overmap terrains in a form the loader reads.
pub open spec fn searchable(objects: Seq<MapgenObject>, id: Seq<char>) -> bool {
    forall|i: int|
        0 <= i < objects.len() && (forall|j: int| 0 <= j < i ==> !object_matches(#[trigger] objects[j], id))
            ==> ((#[trigger] objects[i]).om_terrain matches Some(t) ==> om_supported(t))
}

/// The size in tiles that the overmap terrains of an entry give: 24 tiles per terrain
/// of a grid, across its first row and down its rows; 24 by 24 otherwise.
pub open spec fn om_size_of(o: Option<MapObjectId<String>>) -> (int, int) {
    match o {
        Some(MapObjectId::Nested(n)) => ((24 * n@[0]@.len()) as int, (24 * n@.len()) as int),
        _ => (24, 24),
    }
}

/// How the matching entry is placed: a single id, a list of ids, or a grid of ids.
pub open spec fn map_type_of(t: MapEntityType, o: MapObjectId<String>) -> bool {
    match (t, o) {
        (MapEntityType::Default { om_terrain, weight }, MapObjectId::Single(s)) => weight == 100
            && om_terrain == s.spec_value(),
        (MapEntityType::Multi { om_terrain, weight }, MapObjectId::Grouped(g)) => weight == 100
            && om_terrain@.len() == g@.len() && forall|i: int|
            0 <= i < g@.len() ==> #[trigger] om_terrain@[i] == g@[i].spec_value(),
        (MapEntityType::Nested { om_terrain, weight }, MapObjectId::Nested(n)) => weight == 100
            && om_terrain@.len() == n@.len() && forall|i: int|
            0 <= i < n@.len() ==> (#[trigger] om_terrain@[i])@.len() == n@[i]@.len() && forall|j: int|
                0 <= j < n@[i]@.len() ==> #[trigger] om_terrain@[i]@[j] == n@[i]@[j].spec_value(),
        _ => false,
    }
}

/// The entry that a search for an overmap terrain found.
pub struct FoundMapObject {
    pub index: usize,
    pub map_type: MapEntityType,
    pub om_size: (i32, i32),
}

fn om_values(g: &Vec<MeabyWeighted<String>>) -> (r: Vec<String>)
    ensures
        r@.len() == g@.len(),
        forall|i: int| 0 <= i < g@.len() ==> #[trigger] r@[i] == g@[i].spec_value(),
{
    let mut r: Vec<String> = Vec::new();
    let mut i: usize = 0;
    while i < g.len()
        invariant
            i <= g.len(),
            r@.len() == i,
            forall|j: int| 0 <= j < i ==> #[trigger] r@[j] == g@[j].spec_value(),
        decreases g.len() - i,
    {
        r.push(g[i].value().clone());
        i = i + 1;
    }
    r
}

fn contains_id(g: &Vec<MeabyWeighted<String>>, id: &String) -> (b: bool)
    ensures
        b == exists|i: int| 0 <= i < g@.len() && (#[trigger] g@[i]).spec_value()@ == id@,
{
    let mut i: usize = 0;
    while i < g.len()
        invariant
            i <= g.len(),
            forall|j: int| 0 <= j < i ==> (#[trigger] g@[j]).spec_value()@ != id@,
        decreases g.len() - i,
    {
        if *g[i].value() == *id {
            return true;
        }
        i = i + 1;
    }
    false
}

/// Looks at the entries in order for the first one that names overmap terrain `id`,
/// and says how it is placed and what size its own overmap terrains give (see
/// `om_size_of`).
pub fn find_map_object(objects: &Vec<MapgenObject>, id: &String) -> (r: Option<FoundMapObject>)
    requires
        searchable(objects@, id@),
    ensures
        match r {
            None => forall|i: int| 0 <= i < objects@.len() ==> !object_matches(#[trigger] objects@[i], id@),
            Some(f) => f.index < objects@.len() && object_matches(objects@[f.index as int], id@)
                && (forall|j: int| 0 <= j < f.index ==> !object_matches(#[trigger] objects@[j], id@))
                && map_type_of(f.map_type, objects@[f.index as int].om_terrain->Some_0)
                && f.om_size.0 == om_size_of(objects@[f.index as int].om_terrain).0
                && f.om_size.1 == om_size_of(objects@[f.index as int].om_terrain).1,
        },
{
    let size: (i32, i32) = (24, 24);
    let mut i: usize = 0;
    while i < objects.len()
        invariant
            i <= objects.len(),
            searchable(objects@, id@),
            forall|j: int| 0 <= j < i ==> !object_matches(#[trigger] objects@[j], id@),
            size == (24i32, 24i32),
        decreases objects.len() - i,
    {
        assert(objects@[i as int].om_terrain matches Some(t) ==> om_supported(t)) by {
            assert(forall|j: int| 0 <= j < i ==> !object_matches(#[trigger] objects@[j], id@));
        }
        match &objects[i].om_terrain {
            None => {},
            Some(MapObjectId::Grouped(group)) => {
                if contains_id(group, id) {
                    let ids = om_values(group);
                    return Some(FoundMapObject { index: i, map_type: MapEntityType::Multi { om_terrain: ids, weight: 100 }, om_size: size });
                }
            },
            Some(MapObjectId::Nested(nested)) => {
                let width = nested[0].len();
                let height = nested.len();
                let grid_size: (i32, i32) = ((24 * width) as i32, (24 * height) as i32);
                let mut any_matches = false;
                let mut om_terrain: Vec<Vec<String>> = Vec::new();
                let mut a: usize = 0;
                while a < nested.len()
                    invariant
                        a <= nested@.len(),
                        om_terrain@.len() == a,
                        any_matches == exists|x: int, y: int|
                            0 <= x < a && 0 <= y < nested@[x]@.len() && (#[trigger] nested@[x]@[y]).spec_value()@ == id@,
                        forall|x: int| 0 <= x < a ==> (#[trigger] om_terrain@[x])@.len() == nested@[x]@.len() && forall|y: int|
                            0 <= y < nested@[x]@.len() ==> #[trigger] om_terrain@[x]@[y] == nested@[x]@[y].spec_value(),
                    decreases nested@.len() - a,
                {
                    if contains_id(&nested[a], id) {
                        any_matches = true;
                    }
                    om_terrain.push(om_values(&nested[a]));
                    a = a + 1;
                }
                if any_matches {
                    return Some(FoundMapObject { index: i, map_type: MapEntityType::Nested { om_terrain, weight: 100 }, om_size: grid_size });
                }
            },
            Some(MapObjectId::Single(s)) => {
                if *s.value() == *id {
                    return Some(FoundMapObject { index: i, map_type: MapEntityType::Default { om_terrain: s.value().clone(), weight: 100 }, om_size: size });
                }
            },
            Some(_) => {
                assert(false);
                return None;
            },
        }
        i = i + 1;
    }
    None
}


/// The tiles that the rows of a map object give: the character in column `x` of row
/// `y` at coordinates `(x, y)`.
pub open spec fn rows_map(rows: Seq<String>) -> Map<Coordinates, Tile> {
    Map::new(
        |k: Coordinates| 0 <= k.y < rows.len() && 0 <= k.x < rows[k.y as int]@.len(),
        |k: Coordinates| spec_tile_from(rows[k.y as int]@[k.x as int]),
    )
}

/// Row and column numbers fit in an `i32`.
pub open spec fn rows_fit(rows: Seq<String>) -> bool {
    rows.len() <= i32::MAX + 1 && forall|i: int| 0 <= i < rows.len() ==> (#[trigger] rows[i])@.len() <= i32::MAX + 1
}

/// The tiles of the rows of a map object.
pub fn tiles_from_rows(rows: &Vec<String>) -> (r: TileMap)
    requires
        rows_fit(rows@),
    ensures
        r@ == rows_map(rows@),
{
    let mut tiles = TileMap::new();
    let mut row: usize = 0;
    while row < rows.len()
        invariant
            row <= rows@.len(),
            rows_fit(rows@),
            tiles@ == Map::new(
                |k: Coordinates| 0 <= k.y < row && 0 <= k.x < rows@[k.y as int]@.len(),
                |k: Coordinates| spec_tile_from(rows@[k.y as int]@[k.x as int]),
            ),
        decreases rows@.len() - row,
    {
        let line = rows[row].as_str();
        let n = line.unicode_len();
        assert(rows@[row as int]@.len() <= i32::MAX + 1);
        let mut column: usize = 0;
        while column < n
            invariant
                row < rows@.len(),
                column <= n,
                n == line@.len(),
                line@ == rows@[row as int]@,
                n <= i32::MAX + 1,
                row <= i32::MAX,
                tiles@ == Map::new(
                    |k: Coordinates| (0 <= k.y < row && 0 <= k.x < rows@[k.y as int]@.len()) || (k.y == row && 0 <= k.x < column),
                    |k: Coordinates| spec_tile_from(rows@[k.y as int]@[k.x as int]),
                ),
            decreases n - column,
        {
            let c = line.get_char(column);
            let coordinates = Coordinates::new(column as i32, row as i32);
            let tile = Tile::from(c);
            tiles.insert(coordinates, tile);
            column = column + 1;
            assert(tiles@ =~= Map::new(
                |k: Coordinates| (0 <= k.y < row && 0 <= k.x < rows@[k.y as int]@.len()) || (k.y == row && 0 <= k.x < column),
                |k: Coordinates| spec_tile_from(rows@[k.y as int]@[k.x as int]),
            ));
        }
        row = row + 1;
        assert(tiles@ =~= Map::new(
            |k: Coordinates| 0 <= k.y < row && 0 <= k.x < rows@[k.y as int]@.len(),
            |k: Coordinates| spec_tile_from(rows@[k.y as int]@[k.x as int]),
        ));
    }
    assert(tiles@ =~= rows_map(rows@));
    tiles
}


/// The default of `p` is a distribution that a value can be drawn from.
pub open spec fn drawable(p: Parameter) -> bool {
    p.default matches MapGenValue::Distribution { distribution } && distribution@.len() > 0
        && distribution.can_choose()
}

/// `v` can be drawn from the default of `p`.
pub open spec fn may_draw(p: Parameter, v: String) -> bool {
    p.default matches MapGenValue::Distribution { distribution } && distribution.may_choose(v)
}

/// Every parameter has a value that can be drawn.
pub open spec fn all_drawable(params: Seq<(ParameterId, Parameter)>) -> bool {
    forall|i: int| 0 <= i < params.len() ==> drawable(#[trigger] params[i].1)
}

/// Parameters with ids `params` exist in `params` just when they have a value in
/// `vals`, and each value can be drawn from the default of a parameter with its id.
pub open spec fn values_drawn(params: Seq<(ParameterId, Parameter)>, vals: Seq<(String, String)>) -> bool {
    &&& forall|k: Seq<char>| #[trigger] lookup(vals, k) is Some <==> exists|i: int| 0 <= i < params.len() && (#[trigger] params[i]).0@ == k
    &&& forall|k: Seq<char>| #[trigger] lookup(vals, k) matches Some(v) ==> exists|i: int|
        0 <= i < params.len() && (#[trigger] params[i]).0@ == k && may_draw(params[i].1, v)
}

/// Draws a value for each parameter from its default.
pub fn draw_parameters(params: &Vec<(ParameterId, Parameter)>, rng: &mut rand::rngs::StdRng) -> (r: Vec<(String, String)>)
    requires
        all_drawable(params@),
    ensures
        values_drawn(params@, r@),
{
    let mut vals: Vec<(String, String)> = Vec::new();
    let mut i: usize = 0;
    while i < params.len()
        invariant
            i <= params.len(),
            all_drawable(params@),
            values_drawn(params@.take(i as int), vals@),
        decreases params.len() - i,
    {
        assert(drawable(params@[i as int].1));
        let v = params[i].1.default.get_value(rng);
        let k = params[i].0.clone();
        let ghost old_vals = vals@;
        insert(&mut vals, k, v);
        i = i + 1;
        let ghost pre = params@.take(i - 1);
        let ghost cur = params@.take(i as int);
        assert forall|q: Seq<char>| #[trigger] lookup(vals@, q) is Some <==> exists|j: int| 0 <= j < cur.len() && (#[trigger] cur[j]).0@ == q by {
            if q != k@ {
                if lookup(vals@, q) is Some {
                    let j = choose|j: int| 0 <= j < pre.len() && (#[trigger] pre[j]).0@ == q;
                    assert(cur[j] == pre[j]);
                }
                if exists|j: int| 0 <= j < cur.len() && (#[trigger] cur[j]).0@ == q {
                    let j = choose|j: int| 0 <= j < cur.len() && (#[trigger] cur[j]).0@ == q;
                    assert(pre[j] == cur[j]);
                }
            } else {
                assert(cur[i - 1].0@ == q);
            }
        }
        assert forall|q: Seq<char>| #[trigger] lookup(vals@, q) is Some implies exists|j: int|
            0 <= j < cur.len() && (#[trigger] cur[j]).0@ == q && may_draw(cur[j].1, lookup(vals@, q)->Some_0) by {
            if q != k@ {
                let w = lookup(vals@, q)->Some_0;
                let j = choose|j: int| 0 <= j < pre.len() && (#[trigger] pre[j]).0@ == q && may_draw(pre[j].1, w);
                assert(cur[j] == pre[j]);
            } else {
                assert(cur[i - 1].0@ == q);
            }
        }
    }
    assert(params@.take(i as int) =~= params@);
    vals
}

/// The id of the palette that `r` names, once the parameters have the values `vals`:
/// a plain id, or a parameter's value (else its fallback).
pub open spec fn computed_ref_id(r: MapObjectId<MeabyParam>, vals: Seq<(String, String)>) -> Option<Seq<char>> {
    match r {
        MapObjectId::Param { param, fallback } => match lookup(vals, param@) {
            Some(v) => Some(v@),
            None => match fallback {
                Some(f) => Some(f@),
                None => None,
            },
        },
        MapObjectId::Single(MeabyWeighted::NotWeighted(MeabyParam::TileId(id))) => Some(id@),
        _ => None,
    }
}

/// `r` names a palette whatever values the parameters `params` are drawn with.
pub open spec fn ref_supported(r: MapObjectId<MeabyParam>, params: Seq<(ParameterId, Parameter)>) -> bool {
    match r {
        MapObjectId::Param { param, fallback } => (exists|i: int| 0 <= i < params.len() && (#[trigger] params[i]).0@ == param@) || fallback is Some,
        MapObjectId::Single(MeabyWeighted::NotWeighted(MeabyParam::TileId(_))) => true,
        _ => false,
    }
}

/// `x` is an id that `r` may name once the parameters `params` are drawn.
pub open spec fn possible_ref_id(r: MapObjectId<MeabyParam>, params: Seq<(ParameterId, Parameter)>, x: Seq<char>) -> bool {
    match r {
        MapObjectId::Param { param, fallback } => if exists|i: int| 0 <= i < params.len() && (#[trigger] params[i]).0@ == param@ {
            exists|i: int, v: String| #![trigger params[i], may_draw(params[i].1, v)] 0 <= i < params.len() && params[i].0@ == param@ && may_draw(params[i].1, v) && v@ == x
        } else {
            fallback matches Some(f) && f@ == x
        },
        MapObjectId::Single(MeabyWeighted::NotWeighted(MeabyParam::TileId(id))) => id@ == x,
        _ => false,
    }
}

/// The parameters of a map object or palette can be drawn, and every palette that
/// it may use can be computed to a depth below `n`.
pub open spec fn object_computable(cdda: CDDAData, params: Seq<(ParameterId, Parameter)>, refs: Seq<MapObjectId<MeabyParam>>, n: nat) -> bool
    decreases n, 1int,
{
    &&& all_drawable(params)
    &&& forall|i: int| 0 <= i < refs.len() ==> ref_supported(#[trigger] refs[i], params)
    &&& forall|i: int, x: Seq<char>| 0 <= i < refs.len() && #[trigger] possible_ref_id(refs[i], params, x) ==> palette_computable(cdda, x, n)
}

/// The palette `id` exists and can be computed to a depth below `n`.
pub open spec fn palette_computable(cdda: CDDAData, id: Seq<char>, n: nat) -> bool
    decreases n, 0int,
{
    if n == 0 {
        false
    } else {
        match lookup(cdda.palettes@, id) {
            None => false,
            Some(p) => object_computable(cdda, p.parameters@, p.palettes@, (n - 1) as nat),
        }
    }
}

/// `result` holds, by palette id, a computation of each palette that `refs` name with
/// the parameter values `vals`, and nothing else.
pub open spec fn palettes_computed(cdda: CDDAData, vals: Seq<(String, String)>, refs: Seq<MapObjectId<MeabyParam>>, result: Seq<(PaletteId, ComputedParameters)>, n: nat) -> bool
    decreases n, 0int,
{
    &&& forall|k: Seq<char>| #[trigger] lookup(result, k) is Some <==> exists|i: int| 0 <= i < refs.len() && computed_ref_id(#[trigger] refs[i], vals) == Some(k)
    &&& n > 0 ==> forall|k: Seq<char>| #[trigger] lookup(result, k) matches Some(cp) ==> palette_computed(cdda, k, cp, (n - 1) as nat)
}

/// `cp` is a computation of palette `id`: values drawn for its parameters, and a
/// computation of the palettes it uses with those values.
pub open spec fn palette_computed(cdda: CDDAData, id: Seq<char>, cp: ComputedParameters, n: nat) -> bool
    decreases n, 1int,
{
    match lookup(cdda.palettes@, id) {
        None => false,
        Some(p) => values_drawn(p.parameters@, cp.this@) && palettes_computed(cdda, cp.this@, p.palettes@, cp.palettes@, n),
    }
}

/// Once the parameters are drawn, a supported reference names one of its possible ids.
proof fn lemma_ref_after_draw(r: MapObjectId<MeabyParam>, params: Seq<(ParameterId, Parameter)>, vals: Seq<(String, String)>)
    requires
        ref_supported(r, params),
        values_drawn(params, vals),
    ensures
        computed_ref_id(r, vals) matches Some(x) && possible_ref_id(r, params, x),
{
    match r {
        MapObjectId::Param { param, fallback } => {
            if exists|i: int| 0 <= i < params.len() && (#[trigger] params[i]).0@ == param@ {
                assert(lookup(vals, param@) is Some);
                let v = lookup(vals, param@)->Some_0;
                let i = choose|i: int| 0 <= i < params.len() && (#[trigger] params[i]).0@ == param@ && may_draw(params[i].1, v);
                assert(possible_ref_id(r, params, v@));
            } else {
                assert(lookup(vals, param@) is None);
            }
        },
        _ => {},
    }
}

fn computed_ref(r: &MapObjectId<MeabyParam>, vals: &Vec<(String, String)>) -> (id: String)
    requires
        computed_ref_id(*r, vals@) is Some,
    ensures
        computed_ref_id(*r, vals@) == Some(id@),
{
    match r {
        MapObjectId::Param { param, fallback } => match find(vals, param) {
            Some(v) => v.clone(),
            None => match fallback {
                Some(f) => f.clone(),
                None => vstd::pervasive::unreached(),
            },
        },
        MapObjectId::Single(MeabyWeighted::NotWeighted(MeabyParam::TileId(id))) => id.clone(),
        _ => vstd::pervasive::unreached(),
    }
}

/// Computes, by palette id, the parameter values of each palette that `refs` name (with
/// the parameter values `vals`) and, the same way, of the palettes each of them uses.
pub fn compute_palettes(
    cdda_data: &CDDAData,
    vals: &Vec<(String, String)>,
    refs: &Vec<MapObjectId<MeabyParam>>,
    Ghost(n): Ghost<nat>,
    rng: &mut rand::rngs::StdRng,
) -> (r: Vec<(PaletteId, ComputedParameters)>)
    requires
        forall|i: int| 0 <= i < refs@.len() ==> (computed_ref_id(#[trigger] refs@[i], vals@) matches Some(x) && palette_computable(*cdda_data, x, n)),
    ensures
        palettes_computed(*cdda_data, vals@, refs@, r@, n),
    decreases n,
{
    let mut computed: Vec<(PaletteId, ComputedParameters)> = Vec::new();
    let mut j: usize = 0;
    while j < refs.len()
        invariant
            j <= refs@.len(),
            forall|i: int| 0 <= i < refs@.len() ==> (computed_ref_id(#[trigger] refs@[i], vals@) matches Some(x) && palette_computable(*cdda_data, x, n)),
            forall|k: Seq<char>| #[trigger] lookup(computed@, k) is Some <==> exists|i: int| 0 <= i < j && computed_ref_id(#[trigger] refs@[i], vals@) == Some(k),
            n > 0 ==> forall|k: Seq<char>| #[trigger] lookup(computed@, k) matches Some(cp) ==> palette_computed(*cdda_data, k, cp, (n - 1) as nat),
        decreases refs@.len() - j,
    {
        assert(computed_ref_id(refs@[j as int], vals@) matches Some(x) && palette_computable(*cdda_data, x, n));
        let id = computed_ref(&refs[j], vals);
        assert(n > 0);
        let p = match find(&cdda_data.palettes, &id) {
            Some(p) => p,
            None => vstd::pervasive::unreached(),
        };
        let ghost m: nat = (n - 1) as nat;
        assert(object_computable(*cdda_data, p.parameters@, p.palettes@, m));
        let this = draw_parameters(&p.parameters, rng);
        proof {
            assert forall|i: int| 0 <= i < p.palettes@.len() implies (computed_ref_id(#[trigger] p.palettes@[i], this@) matches Some(x) && palette_computable(*cdda_data, x, m)) by {
                assert(ref_supported(p.palettes@[i], p.parameters@));
                lemma_ref_after_draw(p.palettes@[i], p.parameters@, this@);
                let x = computed_ref_id(p.palettes@[i], this@)->Some_0;
                assert(possible_ref_id(p.palettes@[i], p.parameters@, x));
            }
        }
        let palettes = compute_palettes(cdda_data, &this, &p.palettes, Ghost(m), rng);
        let cp = ComputedParameters { this, palettes };
        assert(palette_computed(*cdda_data, id@, cp, m));
        let ghost old_computed = computed@;
        insert(&mut computed, id, cp);
        j = j + 1;
        assert forall|k: Seq<char>| #[trigger] lookup(computed@, k) is Some <==> exists|i: int| 0 <= i < j && computed_ref_id(#[trigger] refs@[i], vals@) == Some(k) by {
            if k != id@ {
                if exists|i: int| 0 <= i < j && computed_ref_id(#[trigger] refs@[i], vals@) == Some(k) {
                    let i = choose|i: int| 0 <= i < j && computed_ref_id(#[trigger] refs@[i], vals@) == Some(k);
                    assert(i < j - 1);
                    assert(lookup(old_computed, k) is Some);
                }
            } else {
                assert(computed_ref_id(refs@[j - 1], vals@) == Some(k));
            }
        }
    }
    computed
}


/// `k` is the first entry that names overmap terrain `id`.
pub open spec fn first_match(objects: Seq<MapgenObject>, id: Seq<char>, k: int) -> bool {
    0 <= k < objects.len() && object_matches(objects[k], id) && forall|j: int| 0 <= j < k ==> !object_matches(#[trigger] objects[j], id)
}

/// The definition can be loaded: it is there, its rows fit, and its parameters and
/// palettes can be computed to some depth.
pub open spec fn definition_loadable(d: Option<MapgenDefinition>, cdda: CDDAData) -> bool {
    d matches Some(def) && rows_fit(def.rows@) && exists|n: nat| object_computable(cdda, def.parameters@, def.palettes@, n)
}

/// A depth to which the parameters and palettes of `def` can be computed.
pub open spec fn definition_depth(def: MapgenDefinition, cdda: CDDAData) -> nat {
    choose|n: nat| object_computable(cdda, def.parameters@, def.palettes@, n)
}

/// What the loader needs: the search for `id` reads every entry it looks at, some entry
/// names `id`, and the first such entry has a definition that can be loaded.
pub open spec fn loadable(objects: Seq<MapgenObject>, id: Seq<char>, cdda: CDDAData) -> bool {
    &&& searchable(objects, id)
    &&& exists|k: int| 0 <= k < objects.len() && object_matches(#[trigger] objects[k], id)
    &&& forall|k: int| #[trigger] first_match(objects, id, k) ==> definition_loadable(objects[k].object, cdda)
}

/// The map object loaded from the definition `def` of the first entry for `id`.
pub open spec fn loaded_from(s: Single, def: MapgenDefinition, objects: Seq<MapgenObject>, k: int, id: Seq<char>, cdda: CDDAData) -> bool {
    &&& s.om_terrain@ == id
    &&& s.size == match def.mapgensize {
        Some(size) => size,
        None => (om_size_of(objects[k].om_terrain).0 as i32, om_size_of(objects[k].om_terrain).1 as i32),
    }
    &&& s.tiles@ == rows_map(def.rows@)
    &&& s.tile_selection.parameters == def.parameters
    &&& s.tile_selection.fill_ter == def.fill_ter
    &&& s.tile_selection.palettes == def.palettes
    &&& s.tile_selection.terrain == def.terrain
    &&& s.tile_selection.furniture == def.furniture
    &&& values_drawn(def.parameters@, s.tile_selection.computed_parameters.this@)
    &&& palettes_computed(cdda, s.tile_selection.computed_parameters.this@, def.palettes@, s.tile_selection.computed_parameters.palettes@, definition_depth(def, cdda))
}

fn nested_names(n: &Vec<Vec<MeabyWeighted<String>>>, id: &String) -> (b: bool)
    ensures
        b == exists|i: int, j: int|
            0 <= i < n@.len() && 0 <= j < n@[i]@.len() && (#[trigger] n@[i]@[j]).spec_value()@ == id@,
{
    let mut a: usize = 0;
    while a < n.len()
        invariant
            a <= n@.len(),
            forall|x: int, y: int|
                0 <= x < a && 0 <= y < n@[x]@.len() ==> (#[trigger] n@[x]@[y]).spec_value()@ != id@,
        decreases n@.len() - a,
    {
        if contains_id(&n[a], id) {
            proof {
                let y = choose|y: int|
                    0 <= y < n@[a as int]@.len() && (#[trigger] n@[a as int]@[y]).spec_value()@ == id@;
                assert(n@[a as int]@[y].spec_value()@ == id@);
            }
            return true;
        }
        a = a + 1;
    }
    false
}

fn om_names(o: &MapObjectId<String>, id: &String) -> (b: bool)
    ensures
        b == om_matches(*o, id@),
{
    match o {
        MapObjectId::Grouped(g) => contains_id(g, id),
        MapObjectId::Nested(n) => nested_names(n, id),
        MapObjectId::Single(s) => *s.value() == *id,
        _ => false,
    }
}

/// Whether some entry of a mapgen file names overmap terrain `id`.
pub fn names_terrain(objects: &Vec<MapgenObject>, id: &String) -> (b: bool)
    ensures
        b == exists|k: int| 0 <= k < objects@.len() && object_matches(#[trigger] objects@[k], id@),
{
    let mut i: usize = 0;
    while i < objects.len()
        invariant
            i <= objects@.len(),
            forall|k: int| 0 <= k < i ==> !object_matches(#[trigger] objects@[k], id@),
        decreases objects@.len() - i,
    {
        match &objects[i].om_terrain {
            Some(o) => {
                if om_names(o, id) {
                    return true;
                }
            },
            None => {},
        }
        i = i + 1;
    }
    false
}

/// The total weight of the entries of a distribution.
fn distribution_weight(d: &Vec<MeabyWeighted<String>>) -> (t: u128)
    ensures
        t == weight_sum(meaby_weighted_weights(d@)),
{
    let ghost ws = meaby_weighted_weights(d@);
    let mut t: u128 = 0;
    let mut i: usize = 0;
    while i < d.len()
        invariant
            i <= d@.len(),
            ws == meaby_weighted_weights(d@),
            t == weight_sum(ws.take(i as int)),
            t <= i * 0xffff_ffffu128,
        decreases d@.len() - i,
    {
        let w: u128 = match &d[i] {
            MeabyWeighted::NotWeighted(_) => 1,
            MeabyWeighted::Weighted(w) => w.weight as u128,
        };
        assert(ws.take(i + 1).drop_last() =~= ws.take(i as int));
        t = t + w;
        i = i + 1;
    }
    assert(ws.take(i as int) =~= ws);
    t
}

/// Whether a value can be drawn from the default of a parameter (see `drawable`).
fn parameter_drawable(p: &Parameter) -> (b: bool)
    ensures
        b == drawable(*p),
{
    match &p.default {
        MapGenValue::Distribution { distribution } => {
            if distribution.len() == 0 {
                false
            } else {
                let t = distribution_weight(distribution);
                t > 0 && t <= 0xffff_ffff_ffff_ffffu128
            }
        },
        _ => false,
    }
}

/// Whether every parameter has a value that can be drawn.
fn parameters_drawable(params: &Vec<(ParameterId, Parameter)>) -> (b: bool)
    ensures
        b == all_drawable(params@),
{
    let mut i: usize = 0;
    while i < params.len()
        invariant
            i <= params@.len(),
            forall|j: int| 0 <= j < i ==> drawable(#[trigger] params@[j].1),
        decreases params@.len() - i,
    {
        if !parameter_drawable(&params[i].1) {
            return false;
        }
        i = i + 1;
    }
    true
}

/// Whether some parameter has id `id`.
fn has_parameter(params: &Vec<(ParameterId, Parameter)>, id: &String) -> (b: bool)
    ensures
        b == exists|i: int| 0 <= i < params@.len() && (#[trigger] params@[i]).0@ == id@,
{
    let mut i: usize = 0;
    while i < params.len()
        invariant
            i <= params@.len(),
            forall|j: int| 0 <= j < i ==> (#[trigger] params@[j]).0@ != id@,
        decreases params@.len() - i,
    {
        if params[i].0 == *id {
            return true;
        }
        i = i + 1;
    }
    false
}

/// Whether the palette `id` can be computed to a depth below `n`.
fn palette_computable_to(cdda: &CDDAData, id: &String, n: u32) -> (b: bool)
    ensures
        b == palette_computable(*cdda, id@, n as nat),
    decreases n, 0int,
{
    if n == 0 {
        return false;
    }
    match find(&cdda.palettes, id) {
        None => false,
        Some(p) => object_computable_to(cdda, &p.parameters, &p.palettes, n - 1),
    }
}

/// Whether every value of the distribution with a positive weight names a palette
/// that can be computed to a depth below `n`.
fn values_computable_to(cdda: &CDDAData, d: &Vec<MeabyWeighted<String>>, n: u32) -> (b: bool)
    ensures
        b == forall|v: String| #[trigger] d.may_choose(v) ==> palette_computable(*cdda, v@, n as nat),
    decreases n, 1int,
{
    let mut j: usize = 0;
    while j < d.len()
        invariant
            j <= d@.len(),
            forall|k: int|
                0 <= k < j && (#[trigger] d@[k]).choice_weight() > 0 ==> palette_computable(*cdda, d@[k].spec_value()@, n as nat),
        decreases d@.len() - j,
    {
        let w: u32 = match &d[j] {
            MeabyWeighted::NotWeighted(_) => 1,
            MeabyWeighted::Weighted(w) => w.weight,
        };
        if w > 0 {
            if !palette_computable_to(cdda, d[j].value(), n) {
                assert(d.may_choose(d@[j as int].spec_value()));
                return false;
            }
        }
        j = j + 1;
    }
    true
}

/// Whether the palette reference `r` is one the loader reads and every palette it may
/// name can be computed to a depth below `n`.
fn ref_computable_to(cdda: &CDDAData, params: &Vec<(ParameterId, Parameter)>, r: &MapObjectId<MeabyParam>, n: u32) -> (b: bool)
    ensures
        b == (ref_supported(*r, params@) && forall|x: Seq<char>|
            #[trigger] possible_ref_id(*r, params@, x) ==> palette_computable(*cdda, x, n as nat)),
    decreases n, 2int,
{
    match r {
        MapObjectId::Param { param, fallback } => {
            if has_parameter(params, param) {
                let mut i: usize = 0;
                while i < params.len()
                    invariant
                        i <= params@.len(),
                        *r == (MapObjectId::<MeabyParam>::Param { param: *param, fallback: *fallback }),
                        exists|k: int| 0 <= k < params@.len() && (#[trigger] params@[k]).0@ == param@,
                        forall|k: int, v: String|
                            0 <= k < i && (#[trigger] params@[k]).0@ == param@ && #[trigger] may_draw(params@[k].1, v)
                                ==> palette_computable(*cdda, v@, n as nat),
                    decreases params@.len() - i,
                {
                    if params[i].0 == *param {
                        match &params[i].1.default {
                            MapGenValue::Distribution { distribution } => {
                                if !values_computable_to(cdda, distribution, n) {
                                    proof {
                                        let v = choose|v: String| #[trigger] distribution.may_choose(v) && !palette_computable(*cdda, v@, n as nat);
                                        assert(may_draw(params@[i as int].1, v));
                                        assert(possible_ref_id(*r, params@, v@));
                                    }
                                    return false;
                                }
                            },
                            _ => {},
                        }
                    }
                    i = i + 1;
                }
                true
            } else {
                match fallback {
                    Some(f) => {
                        assert(possible_ref_id(*r, params@, f@));
                        palette_computable_to(cdda, f, n)
                    },
                    None => false,
                }
            }
        },
        MapObjectId::Single(MeabyWeighted::NotWeighted(MeabyParam::TileId(id))) => {
            assert(possible_ref_id(*r, params@, id@));
            palette_computable_to(cdda, id, n)
        },
        _ => false,
    }
}

/// Whether the parameters `params` can be drawn and every palette that `refs` may name
/// can be computed to a depth below `n` (see `object_computable`).
fn object_computable_to(
    cdda: &CDDAData,
    params: &Vec<(ParameterId, Parameter)>,
    refs: &Vec<MapObjectId<MeabyParam>>,
    n: u32,
) -> (b: bool)
    ensures
        b == object_computable(*cdda, params@, refs@, n as nat),
    decreases n, 3int,
{
    if !parameters_drawable(params) {
        return false;
    }
    let mut i: usize = 0;
    while i < refs.len()
        invariant
            i <= refs@.len(),
            all_drawable(params@),
            forall|j: int| 0 <= j < i ==> ref_supported(#[trigger] refs@[j], params@),
            forall|j: int, x: Seq<char>|
                0 <= j < i && #[trigger] possible_ref_id(refs@[j], params@, x) ==> palette_computable(*cdda, x, n as nat),
        decreases refs@.len() - i,
    {
        if !ref_computable_to(cdda, params, &refs[i], n) {
            proof {
                if ref_supported(refs@[i as int], params@) {
                    let x = choose|x: Seq<char>| #[trigger] possible_ref_id(refs@[i as int], params@, x) && !palette_computable(*cdda, x, n as nat);
                    assert(possible_ref_id(refs@[i as int], params@, x));
                }
            }
            return false;
        }
        i = i + 1;
    }
    true
}

/// Whether the overmap terrains of an entry are in a form the loader reads (see
/// `om_supported`).
fn om_readable(o: &MapObjectId<String>) -> (b: bool)
    ensures
        b == om_supported(*o),
{
    match o {
        MapObjectId::Grouped(_) => true,
        MapObjectId::Nested(n) => n.len() > 0 && n.len() <= 89478485 && n[0].len() <= 89478485,
        MapObjectId::Single(_) => true,
        _ => false,
    }
}

/// Whether the row and column numbers of the rows fit in an `i32` (see `rows_fit`).
fn rows_fit_check(rows: &Vec<String>) -> (b: bool)
    ensures
        b == rows_fit(rows@),
{
    if rows.len() as u64 > 2147483648u64 {
        return false;
    }
    let mut i: usize = 0;
    while i < rows.len()
        invariant
            i <= rows@.len(),
            forall|j: int| 0 <= j < i ==> (#[trigger] rows@[j])@.len() <= i32::MAX + 1,
        decreases rows@.len() - i,
    {
        if rows[i].as_str().unicode_len() as u64 > 2147483648u64 {
            return false;
        }
        i = i + 1;
    }
    true
}

/// `loadable`, with the parameters and palettes of the first entry for `id` computable
/// to a depth below `n`.
pub open spec fn loadable_to(objects: Seq<MapgenObject>, id: Seq<char>, cdda: CDDAData, n: nat) -> bool {
    &&& searchable(objects, id)
    &&& exists|k: int| 0 <= k < objects.len() && object_matches(#[trigger] objects[k], id)
    &&& forall|k: int| #[trigger] first_match(objects, id, k) ==> (objects[k].object matches Some(def)
        && rows_fit(def.rows@) && object_computable(cdda, def.parameters@, def.palettes@, n))
}

/// Whether `MapEntityLoader::load` can load overmap terrain `id` from these entries with
/// these palettes, following palettes at most `max_depth` deep (see `loadable_to`).
/// Where it says so, `loadable` holds; a file whose palettes nest deeper is answered
/// false.
pub fn can_load(objects: &Vec<MapgenObject>, id: &String, cdda: &CDDAData, max_depth: u32) -> (b: bool)
    ensures
        b == loadable_to(objects@, id@, *cdda, max_depth as nat),
        b ==> loadable(objects@, id@, *cdda),
{
    let mut i: usize = 0;
    while i < objects.len()
        invariant
            i <= objects@.len(),
            forall|k: int| 0 <= k < i ==> !object_matches(#[trigger] objects@[k], id@),
            forall|k: int| 0 <= k < i ==> ((#[trigger] objects@[k]).om_terrain matches Some(t) ==> om_supported(t)),
        decreases objects@.len() - i,
    {
        match &objects[i].om_terrain {
            None => {},
            Some(o) => {
                if !om_readable(o) {
                    assert(!searchable(objects@, id@));
                    return false;
                }
                if om_names(o, id) {
                    assert(first_match(objects@, id@, i as int));
                    let def = match &objects[i].object {
                        None => return false,
                        Some(d) => d,
                    };
                    if !rows_fit_check(&def.rows) {
                        return false;
                    }
                    if !object_computable_to(cdda, &def.parameters, &def.palettes, max_depth) {
                        return false;
                    }
                    proof {
                        assert(object_matches(objects@[i as int], id@));
                        assert forall|k: int| #[trigger] first_match(objects@, id@, k) implies definition_loadable(objects@[k].object, *cdda) by {
                            if k < i {
                                assert(!object_matches(objects@[k], id@));
                            } else if k > i {
                                assert(!object_matches(objects@[i as int], id@));
                            }
                            assert(object_computable(*cdda, def.parameters@, def.palettes@, max_depth as nat));
                        }
                        assert forall|k: int| #[trigger] first_match(objects@, id@, k) implies (objects@[k].object matches Some(d)
                            && rows_fit(d.rows@) && object_computable(*cdda, d.parameters@, d.palettes@, max_depth as nat)) by {
                            if k < i {
                                assert(!object_matches(objects@[k], id@));
                            } else if k > i {
                                assert(!object_matches(objects@[i as int], id@));
                            }
                        }
                        assert forall|k: int|
                            0 <= k < objects@.len() && (forall|j: int| 0 <= j < k ==> !object_matches(#[trigger] objects@[j], id@))
                            implies ((#[trigger] objects@[k]).om_terrain matches Some(t) ==> om_supported(t)) by {
                            if k > i {
                                assert(!object_matches(objects@[i as int], id@));
                            }
                        }
                    }
                    return true;
                }
            },
        }
        i = i + 1;
    }
    false
}

/// A map object loaded from a mapgen file, with how its entry places it on the
/// overmap (a single terrain, a list of terrains or a grid of them, with weight 100).
#[derive(Debug)]
pub struct LoadedMap {
    pub map_type: MapEntityType,
    pub entity: MapEntity,
}

impl MapEntityLoader {
    pub fn new(path: String, id: String) -> (r: Self)
        ensures
            r.path == path,
            r.id == id,
    {
        MapEntityLoader { path, id }
    }

    /// The map object for overmap terrain `self.id`, from the first entry of the
    /// mapgen file that names it: how that entry places it on the overmap, the tiles
    /// of its rows, its size, its mappings, and values drawn for its parameters and
    /// those of the palettes it uses.
    pub fn load(&self, objects: Vec<MapgenObject>, cdda_data: &CDDAData, rng: &mut rand::rngs::StdRng) -> (r: Result<LoadedMap, crate::common::LoadError>)
        requires
            loadable(objects@, self.id@, *cdda_data),
        ensures
            r matches Ok(m) && m.entity matches MapEntity::Single(s) && forall|k: int| #[trigger] first_match(objects@, self.id@, k) ==> (loaded_from(s, objects@[k].object->Some_0, objects@, k, self.id@, *cdda_data) && map_type_of(m.map_type, objects@[k].om_terrain->Some_0)),
    {
        let found = match find_map_object(&objects, &self.id) {
            Some(f) => f,
            None => {
                proof {
                    let k = choose|k: int| 0 <= k < objects@.len() && object_matches(#[trigger] objects@[k], self.id@);
                }
                return vstd::pervasive::unreached();
            },
        };
        let k = found.index;
        assert(first_match(objects@, self.id@, k as int));
        let ghost orig = objects@;
        let mut objects = objects;
        let object = objects.swap_remove(k);
        let def = match object.object {
            Some(d) => d,
            None => vstd::pervasive::unreached(),
        };
        let ghost n = definition_depth(def, *cdda_data);
        let size = match def.mapgensize {
            Some(s) => s,
            None => found.om_size,
        };
        let this = draw_parameters(&def.parameters, rng);
        proof {
            assert forall|i: int| 0 <= i < def.palettes@.len() implies (computed_ref_id(#[trigger] def.palettes@[i], this@) matches Some(x) && palette_computable(*cdda_data, x, n)) by {
                lemma_ref_after_draw(def.palettes@[i], def.parameters@, this@);
                let x = computed_ref_id(def.palettes@[i], this@)->Some_0;
                assert(possible_ref_id(def.palettes@[i], def.parameters@, x));
            }
        }
        let palettes = compute_palettes(cdda_data, &this, &def.palettes, Ghost(n), rng);
        let tiles = tiles_from_rows(&def.rows);
        let single = Single {
            om_terrain: self.id.clone(),
            tile_selection: TileSelection {
                computed_parameters: ComputedParameters { this, palettes },
                parameters: def.parameters,
                fill_ter: def.fill_ter,
                palettes: def.palettes,
                terrain: def.terrain,
                furniture: def.furniture,
            },
            tiles,
            size,
        };
        proof {
            assert forall|k2: int| #[trigger] first_match(orig, self.id@, k2) implies k2 == k by {
                if k2 < k {
                    assert(!object_matches(orig[k2], self.id@));
                } else if k2 > k {
                    assert(!object_matches(orig[k as int], self.id@));
                }
            }
        }
        Ok(LoadedMap { map_type: found.map_type, entity: MapEntity::Single(single) })
    }
}

} // verus!
