use vstd::prelude::*;

use crate::common::{GetRandom, TileId, Weighted};
use crate::table::{find, lookup};

verus! {

/// Region ids, each with the ids (tiles or other regions) it is made of and their weights.
pub type RegionTable = Vec<(String, Vec<(TileId, u32)>)>;

/// The terrain and furniture regions of a region setting.
#[derive(Debug)]
pub struct TerrainAndFurniture {
    pub terrain: RegionTable,
    pub furniture: RegionTable,
}

/// The region settings of CDDA (the fields that the editor reads).
#[derive(Debug)]
pub struct RegionSettings {
    pub id: String,
    pub default_oter: Vec<String>,
    pub default_groundcover: Vec<Weighted<String>>,
    pub region_terrain_and_furniture: TerrainAndFurniture,
}

/// Drawing from region `r`, and from each region drawn, can always be done, to a depth
/// below `n`: every region reached has ids to draw from with a positive total weight.
pub open spec fn region_ok(table: Seq<(String, Vec<(TileId, u32)>)>, r: Seq<char>, n: nat) -> bool
    decreases n,
{
    match lookup(table, r) {
        None => true,
        Some(w) => n > 0 && w@.len() > 0 && w.can_choose() && forall|i: int|
            0 <= i < w@.len() && (#[trigger] w@[i]).1 > 0 ==> region_ok(table, w@[i].0@, (n - 1) as nat),
    }
}

/// Drawing from region `r` can end in tile `t`: some id of `r` with a positive weight is
/// `t` itself (not a region) or a region from which drawing can end in `t`.
pub open spec fn region_leads_to(table: Seq<(String, Vec<(TileId, u32)>)>, r: Seq<char>, t: TileId, n: nat) -> bool
    decreases n,
{
    match lookup(table, r) {
        None => false,
        Some(w) => n > 0 && exists|i: int|
            0 <= i < w@.len() && (#[trigger] w@[i]).1 > 0 && ((lookup(table, w@[i].0@) is None && t == w@[i].0)
                || region_leads_to(table, w@[i].0@, t, (n - 1) as nat)),
    }
}

/// A depth to which region `r` can be drawn from.
pub open spec fn region_depth(table: Seq<(String, Vec<(TileId, u32)>)>, r: Seq<char>) -> nat {
    choose|n: nat| region_ok(table, r, n)
}

/// Draws from region `r`, and again from each region drawn, until a tile id comes out.
fn random_from_region<'a>(table: &'a RegionTable, r: &String, Ghost(n): Ghost<nat>, rng: &mut rand::rngs::StdRng) -> (t: Option<&'a TileId>)
    requires
        region_ok(table@, r@, n),
    ensures
        match t {
            None => lookup(table@, r@) is None,
            Some(t) => region_leads_to(table@, r@, *t, n),
        },
    decreases n,
{
    if let Some(weights) = find(table, r) {
        let picked = match weights.get_random_weighted(rng) {
            Some(p) => p,
            None => vstd::pervasive::unreached(),
        };
        let ghost i = choose|i: int| 0 <= i < weights@.len() && #[trigger] weights@[i].0 == *picked && weights@[i].1 > 0;
        assert(region_ok(table@, weights@[i].0@, (n - 1) as nat));
        return match random_from_region(table, picked, Ghost((n - 1) as nat), rng) {
            Some(t) => Some(t),
            None => Some(picked),
        };
    }
    None
}

impl RegionSettings {
    /// A terrain id drawn from terrain region `region_id` (regions can be made of other
    /// regions), or none when it is not a terrain region.
    pub fn get_random_terrain_from_region(&self, region_id: &String, rng: &mut rand::rngs::StdRng) -> (t: Option<&TileId>)
        requires
            exists|n: nat| region_ok(self.region_terrain_and_furniture.terrain@, region_id@, n),
        ensures
            match t {
                None => lookup(self.region_terrain_and_furniture.terrain@, region_id@) is None,
                Some(t) => region_leads_to(self.region_terrain_and_furniture.terrain@, region_id@, *t, region_depth(self.region_terrain_and_furniture.terrain@, region_id@)),
            },
    {
        let ghost n = region_depth(self.region_terrain_and_furniture.terrain@, region_id@);
        random_from_region(&self.region_terrain_and_furniture.terrain, region_id, Ghost(n), rng)
    }

    /// A furniture id drawn from furniture region `region_id` (regions can be made of
    /// other regions), or none when it is not a furniture region.
    pub fn get_random_furniture_from_region(&self, region_id: &String, rng: &mut rand::rngs::StdRng) -> (t: Option<&TileId>)
        requires
            exists|n: nat| region_ok(self.region_terrain_and_furniture.furniture@, region_id@, n),
        ensures
            match t {
                None => lookup(self.region_terrain_and_furniture.furniture@, region_id@) is None,
                Some(t) => region_leads_to(self.region_terrain_and_furniture.furniture@, region_id@, *t, region_depth(self.region_terrain_and_furniture.furniture@, region_id@)),
            },
    {
        let ghost n = region_depth(self.region_terrain_and_furniture.furniture@, region_id@);
        random_from_region(&self.region_terrain_and_furniture.furniture, region_id, Ghost(n), rng)
    }
}

/// Loads the region settings with an id from a json file.
#[derive(Debug)]
pub struct RegionSettingsLoader {
    pub path: String,
    pub id: String,
}

/// The first object of the list whose id is `id`, reading each in turn; none when an
/// object read before has no id, or none has it.
pub open spec fn spec_select_region(ids: Seq<Option<String>>, id: Seq<char>) -> Option<int>
    decreases ids.len(),
{
    if ids.len() == 0 {
        None
    } else {
        match ids[0] {
            None => None,
            Some(i) => if i@ == id {
                Some(0)
            } else {
                match spec_select_region(ids.drop_first(), id) {
                    None => None,
                    Some(k) => Some(k + 1),
                }
            },
        }
    }
}

impl RegionSettingsLoader {
    pub fn new(path: String, id: String) -> (r: Self)
        ensures
            r.path == path,
            r.id == id,
    {
        Self { path, id }
    }

    /// Which object of the file holds the settings to load, given the id of each
    /// object in the file in order (see `spec_select_region`).
    pub fn select(&self, ids: &Vec<Option<String>>) -> (r: Option<usize>)
        ensures
            match r {
                None => spec_select_region(ids@, self.id@) is None,
                Some(k) => spec_select_region(ids@, self.id@) == Some(k as int),
            },
    {
        let mut i: usize = 0;
        assert(ids@.skip(0) =~= ids@);
        while i < ids.len()
            invariant
                i <= ids.len(),
                spec_select_region(ids@, self.id@) == match spec_select_region(ids@.skip(i as int), self.id@) {
                    None => None,
                    Some(k) => Some(k + i),
                },
            decreases ids.len() - i,
        {
            assert(ids@.skip(i as int)[0] == ids@[i as int]);
            assert(ids@.skip(i as int).drop_first() =~= ids@.skip(i + 1));
            match &ids[i] {
                None => {
                    return None;
                },
                Some(name) => {
                    if *name == self.id {
                        return Some(i);
                    }
                },
            }
            i = i + 1;
        }
        None
    }
}

} // verus!
