use vstd::prelude::*;
use vstd::string::*;

use crate::common::{GetRandom, ItemId, MeabyMulti, MeabyNumberRange, MeabyWeighted, TileId};
use crate::table::{find, find_index, insert, lookup, TableKey};

verus! {

pub type PaletteId = String;

/// The chance (in percent) that CDDA gives an item entry that names none.
pub fn default_chance() -> (r: u32)
    ensures
        r == 100,
{
    100
}

/// A reference to a parameter whose value selects a case.
#[derive(Clone, Debug)]
pub struct Switch {
    pub param: String,
    pub fallback: Option<String>,
}

/// The value that a parameter takes by default.
#[derive(Clone, Debug)]
pub enum MapGenValue {
    Simple(String),
    Distribution { distribution: Vec<MeabyWeighted<String>> },
    Param { param: String, fallback: Option<String> },
    Switch { switch: Switch, cases: Vec<(String, String)> },
}

impl MapGenValue {
    /// A value drawn from a distribution: one of its entries with a positive weight.
    /// Only distributions have a value here.
    pub fn get_value(&self, rng: &mut rand::rngs::StdRng) -> (r: TileId)
        requires
            self is Distribution,
            self->distribution.len() > 0,
            self->distribution.can_choose(),
        ensures
            self->distribution.may_choose(r),
    {
        match self {
            MapGenValue::Distribution { distribution } => {
                match distribution.get_random_weighted(rng) {
                    Some(v) => v.clone(),
                    None => vstd::pervasive::unreached(),
                }
            },
            _ => vstd::pervasive::unreached(),
        }
    }
}

#[derive(Clone, Debug, PartialEq, Eq, Structural)]
pub enum ParameterType {
    TerStrId,
    FurnStrId,
    NestedMapgenId,
    String,
    PaletteId,
}

/// A parameter of a map object or palette.
#[derive(Clone, Debug)]
pub struct Parameter {
    pub parameter_type: ParameterType,
    pub default: MapGenValue,
    pub calculated_value: Option<TileId>,
}

#[derive(Clone, Debug)]
pub struct ParameterReference {
    pub param: String,
    pub fallback: String,
}

/// An id, or a reference to a parameter that gives one.
#[derive(Clone, Debug)]
pub enum MeabyParam {
    TileId(TileId),
    Parameter(ParameterReference),
}

/// The forms in which CDDA json names a map object.
#[derive(Clone, Debug)]
pub enum MapObjectId<T> {
    Grouped(Vec<MeabyWeighted<T>>),
    Nested(Vec<Vec<MeabyWeighted<T>>>),
    Param { param: String, fallback: Option<String> },
    Switch { switch: Switch, cases: Vec<(String, T)> },
    Single(MeabyWeighted<T>),
}

#[derive(Clone, Debug, PartialEq, Eq, Hash)]
pub struct ItemCollectionGroup {
    pub group: String,
    pub prob: u32,
}

#[derive(Clone, Debug)]
pub struct DistributionCollectionItem {
    pub item: String,
    pub count: MeabyNumberRange<i32>,
}

#[derive(Clone, Debug)]
pub struct SubItem {
    pub item: String,
    pub prob: u32,
    pub count: Option<MeabyNumberRange<i32>>,
}

#[derive(Clone, Debug)]
pub struct SubGroup {
    pub group: String,
    pub prob: u32,
    pub count: Option<MeabyNumberRange<i32>>,
}

#[derive(Clone, Debug)]
pub enum SubItemKind {
    Item(SubItem),
    Collection { collection: Vec<SubItem>, prob: u32 },
    Group(SubGroup),
}

#[derive(Clone, Debug)]
pub struct SubType {
    pub subtype: String,
    pub entries: Vec<SubItemKind>,
}

#[derive(Clone, Debug)]
pub enum Item {
    Default { item: ItemId, chance: u32, repeat: Option<MeabyNumberRange<u32>> },
    Distribution { item: SubType, chance: u32, repeat: Option<MeabyNumberRange<u32>> },
}

#[derive(Clone, Debug)]
pub enum ParentPalette {
    NotComputed(MapObjectId<MeabyParam>),
    Computed(Palette),
}

/// A mapgen palette: what characters stand for, parameters, and parent palettes.
/// `toilets` holds the json text of each entry, which nothing reads.
#[derive(Clone, Debug)]
pub struct Palette {
    pub id: String,
    pub palettes: Vec<MapObjectId<MeabyParam>>,
    pub parameters: Vec<(String, Parameter)>,
    pub terrain: Vec<(char, MapObjectId<MeabyParam>)>,
    pub furniture: Vec<(char, MapObjectId<MeabyParam>)>,
    pub items: Vec<(char, MeabyMulti<Item>)>,
    pub toilets: Vec<(char, String)>,
}

impl Default for Palette {
    fn default() -> (r: Self)
        ensures
            r.id@ == "unnamed"@,
            r.palettes@.len() == 0,
            r.parameters@.len() == 0,
            r.terrain@.len() == 0,
            r.furniture@.len() == 0,
            r.items@.len() == 0,
            r.toilets@.len() == 0,
    {
        Self {
            id: String::from_str("unnamed"),
            palettes: Vec::new(),
            parameters: Vec::new(),
            terrain: Vec::new(),
            furniture: Vec::new(),
            items: Vec::new(),
            toilets: Vec::new(),
        }
    }
}

/// The game data that the editor reads: the palettes, by id.
#[derive(Debug)]
pub struct CDDAData {
    pub palettes: Vec<(String, Palette)>,
}

impl CDDAData {
    /// The palettes, one per id: a later palette with an id already seen replaces it,
    /// as inserting into a map by id does.
    pub fn from_palettes(list: Vec<Palette>) -> (r: CDDAData)
        ensures
            forall|k: Seq<char>|
                #[trigger] lookup(r.palettes@, k) == last_with_id(list@, k),
    {
        let mut palettes: Vec<(String, Palette)> = Vec::new();
        let mut list = list;
        let ghost orig = list@;
        while list.len() > 0
            invariant
                forall|k: Seq<char>|
                    #[trigger] last_with_id(orig, k) == match lookup(palettes@, k) {
                        Some(p) => Some(p),
                        None => last_with_id(list@, k),
                    },
            decreases list.len(),
        {
            let ghost before = list@;
            let p = list.pop().unwrap();
            assert(before.drop_last() =~= list@);
            match find_index(&palettes, &p.id) {
                Some(_) => {},
                None => {
                    let id = p.id.clone();
                    insert(&mut palettes, id, p);
                },
            }
        }
        CDDAData { palettes }
    }
}

/// The last palette in `s` with id `k`.
pub open spec fn last_with_id(s: Seq<Palette>, k: Seq<char>) -> Option<Palette>
    decreases s.len(),
{
    if s.len() == 0 {
        None
    } else if s.last().id@ == k {
        Some(s.last())
    } else {
        last_with_id(s.drop_last(), k)
    }
}

/// Loads the palettes of the json files under a directory.
#[derive(Debug)]
pub struct PalettesLoader {
    pub parent_dir: String,
}

impl PalettesLoader {
    pub fn new(dir_path: String) -> (r: Self)
        ensures
            r.parent_dir == dir_path,
    {
        Self { parent_dir: dir_path }
    }
}

/// The terrain id that a character stands for in the first palette that maps it:
/// only a single unweighted id can be read; none where the first mapping found is
/// another form. `TODO_IMPLEMENT_DEFAULT` when no palette maps it.
pub open spec fn spec_tile_id_from_character(palettes: Seq<Palette>, c: char) -> Option<Seq<char>>
    decreases palettes.len(),
{
    if palettes.len() == 0 {
        Some("TODO_IMPLEMENT_DEFAULT"@)
    } else {
        match lookup(palettes[0].terrain@, c) {
            None => spec_tile_id_from_character(palettes.drop_first(), c),
            Some(m) => match m {
                MapObjectId::Single(MeabyWeighted::NotWeighted(MeabyParam::TileId(v))) => Some(v@),
                _ => None,
            },
        }
    }
}

/// The terrain id that a character stands for in a list of palettes (see
/// `spec_tile_id_from_character`).
pub fn get_tile_id_from_character(palettes: &Vec<Palette>, character: &char) -> (r: Option<TileId>)
    ensures
        match r {
            None => spec_tile_id_from_character(palettes@, *character) is None,
            Some(t) => spec_tile_id_from_character(palettes@, *character) == Some(t@),
        },
{
    let mut i: usize = 0;
    assert(palettes@.skip(0) =~= palettes@);
    while i < palettes.len()
        invariant
            i <= palettes.len(),
            spec_tile_id_from_character(palettes@, *character) == spec_tile_id_from_character(
                palettes@.skip(i as int),
                *character,
            ),
        decreases palettes.len() - i,
    {
        assert(palettes@.skip(i as int)[0] == palettes@[i as int]);
        assert(palettes@.skip(i as int).drop_first() =~= palettes@.skip(i + 1));
        match find(&palettes[i].terrain, character) {
            None => {},
            Some(m) => {
                return match m {
                    MapObjectId::Single(MeabyWeighted::NotWeighted(MeabyParam::TileId(v))) => Some(
                        v.clone(),
                    ),
                    _ => None,
                };
            },
        }
        i = i + 1;
    }
    Some(String::from_str("TODO_IMPLEMENT_DEFAULT"))
}

} // verus!
