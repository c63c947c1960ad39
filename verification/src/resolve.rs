use vstd::prelude::*;

use crate::common::{weighted_weights, GetRandom, MeabyWeighted, TileId, Weighted};
use crate::map::{param_value, ComputedParameters, MapEntity, TileIdGroup};
use crate::palettes::{CDDAData, MapObjectId, MeabyParam, Palette};
use crate::random::weight_sum;
use crate::table::{find, lookup};

verus! {

/// The weights with which a group of ids is drawn from: one for an entry without a
/// weight, and a weight of zero counts as one.
pub open spec fn grouped_weights(g: Seq<MeabyWeighted<MeabyParam>>) -> Seq<u64> {
    Seq::new(
        g.len(),
        |i: int|
            match g[i] {
                MeabyWeighted::NotWeighted(_) => 1u64,
                MeabyWeighted::Weighted(w) => if w.weight == 0 {
                    1u64
                } else {
                    w.weight as u64
                },
            },
    )
}

/// The editor can tell which id `m` names: a plain id, a group of plain ids, or a
/// parameter that has a value.
pub open spec fn resolvable(m: MapObjectId<MeabyParam>, cp: ComputedParameters) -> bool {
    match m {
        MapObjectId::Single(MeabyWeighted::NotWeighted(MeabyParam::TileId(_))) => true,
        MapObjectId::Grouped(g) => g@.len() > 0 && (forall|i: int|
            0 <= i < g@.len() ==> (#[trigger] g@[i]).spec_value() is TileId) && weight_sum(
            grouped_weights(g@),
        ) <= u64::MAX,
        MapObjectId::Param { param, fallback: _ } => param_value(cp, param@) is Some,
        _ => false,
    }
}

/// `id` is a value that `m` can name: the plain id, one of the group, or the value of
/// the parameter.
pub open spec fn may_yield(m: MapObjectId<MeabyParam>, cp: ComputedParameters, id: String) -> bool {
    match m {
        MapObjectId::Single(MeabyWeighted::NotWeighted(MeabyParam::TileId(t))) => id == t,
        MapObjectId::Grouped(g) => exists|i: int|
            0 <= i < g@.len() && (#[trigger] g@[i]).spec_value() == MeabyParam::TileId(id),
        MapObjectId::Param { param, fallback: _ } => param_value(cp, param@) == Some(id),
        _ => false,
    }
}

/// The id that `m` names; a group draws one of its ids at random.
pub fn resolve_id(m: &MapObjectId<MeabyParam>, cp: &ComputedParameters, rng: &mut rand::rngs::StdRng) -> (r: TileId)
    requires
        resolvable(*m, *cp),
    ensures
        may_yield(*m, *cp, r),
{
    match m {
        MapObjectId::Single(MeabyWeighted::NotWeighted(MeabyParam::TileId(id))) => id.clone(),
        MapObjectId::Grouped(g) => {
            let mut final_group: Vec<Weighted<String>> = Vec::new();
            let mut i: usize = 0;
            while i < g.len()
                invariant
                    i <= g.len(),
                    final_group@.len() == i,
                    forall|j: int| 0 <= j < g@.len() ==> (#[trigger] g@[j]).spec_value() is TileId,
                    forall|j: int|
                        0 <= j < i ==> MeabyParam::TileId((#[trigger] final_group@[j]).value)
                            == g@[j].spec_value(),
                    weighted_weights(final_group@) =~= grouped_weights(g@).take(i as int),
                decreases g.len() - i,
            {
                assert(g@[i as int].spec_value() is TileId);
                let w = match &g[i] {
                    MeabyWeighted::NotWeighted(MeabyParam::TileId(id)) => Weighted::new(id.clone(), 1),
                    MeabyWeighted::Weighted(w) => match &w.value {
                        MeabyParam::TileId(id) => Weighted::new(id.clone(), w.weight),
                        _ => vstd::pervasive::unreached(),
                    },
                    _ => vstd::pervasive::unreached(),
                };
                final_group.push(w);
                i = i + 1;
                assert(weighted_weights(final_group@) =~= grouped_weights(g@).take(i as int));
            }
            assert(grouped_weights(g@).take(i as int) =~= grouped_weights(g@));
            match final_group.get_random_weighted(rng) {
                Some(v) => {
                    let ghost k = choose|k: int|
                        0 <= k < final_group@.len() && #[trigger] final_group@[k].value == *v;
                    assert(g@[k].spec_value() == MeabyParam::TileId(*v));
                    v.clone()
                },
                None => vstd::pervasive::unreached(),
            }
        },
        MapObjectId::Param { param, fallback: _ } => match cp.get_value(param) {
            Some(v) => v.clone(),
            None => vstd::pervasive::unreached(),
        },
        _ => vstd::pervasive::unreached(),
    }
}

/// The id of the palette that a palette reference names, if the editor can follow it:
/// a plain id, or a parameter's value (else its fallback).
pub open spec fn palette_ref_id(r: MapObjectId<MeabyParam>, cp: ComputedParameters) -> Option<
    Seq<char>,
> {
    match r {
        MapObjectId::Param { param, fallback } => match param_value(cp, param@) {
            Some(v) => Some(v@),
            None => match fallback {
                Some(f) => Some(f@),
                None => None,
            },
        },
        MapObjectId::Single(MeabyWeighted::NotWeighted(MeabyParam::TileId(id))) => Some(id@),
        _ => None,
    }
}

fn resolve_palette_ref(r: &MapObjectId<MeabyParam>, cp: &ComputedParameters) -> (id: String)
    requires
        palette_ref_id(*r, *cp) is Some,
    ensures
        palette_ref_id(*r, *cp) == Some(id@),
{
    match r {
        MapObjectId::Param { param, fallback } => match cp.get_value(param) {
            Some(v) => v.clone(),
            None => match fallback {
                Some(f) => f.clone(),
                None => vstd::pervasive::unreached(),
            },
        },
        MapObjectId::Single(MeabyWeighted::NotWeighted(MeabyParam::TileId(id))) => id.clone(),
        _ => vstd::pervasive::unreached(),
    }
}

/// A palette chosen by a parameter is the parameter's value whenever it has one,
/// whatever the fallback; the fallback only stands in for a parameter without a value;
/// a plain palette id names itself.
pub proof fn lemma_palette_ref_prefers_the_parameter(
    param: String,
    fallback: Option<String>,
    id: String,
    cp: ComputedParameters,
)
    ensures
        param_value(cp, param@) matches Some(v) ==> palette_ref_id(
            MapObjectId::Param { param, fallback },
            cp,
        ) == Some(v@),
        param_value(cp, param@) is None ==> palette_ref_id(MapObjectId::Param { param, fallback }, cp)
            == match fallback {
            Some(f) => Some(f@),
            None => None::<Seq<char>>,
        },
        palette_ref_id(MapObjectId::Single(MeabyWeighted::NotWeighted(MeabyParam::TileId(id))), cp)
            == Some(id@),
{
}

/// The terrain (or furniture) table of a palette.
pub open spec fn layer(p: Palette, furniture: bool) -> Seq<(char, MapObjectId<MeabyParam>)> {
    if furniture {
        p.furniture@
    } else {
        p.terrain@
    }
}

/// What the palette named by `r`, and then its parent palettes depth first, map `c` to:
/// the first mapping found, searching at most `n` palettes deep.
pub open spec fn palette_lookup(
    cdda: CDDAData,
    cp: ComputedParameters,
    r: MapObjectId<MeabyParam>,
    c: char,
    furniture: bool,
    n: nat,
) -> Option<MapObjectId<MeabyParam>>
    decreases n, 0int,
{
    if n == 0 {
        None
    } else {
        match palette_ref_id(r, cp) {
            None => None,
            Some(id) => match lookup(cdda.palettes@, id) {
                None => None,
                Some(p) => match lookup(layer(p, furniture), c) {
                    Some(m) => Some(m),
                    None => palettes_lookup(cdda, cp, p.palettes@, 0, c, furniture, (n - 1) as nat),
                },
            },
        }
    }
}

/// The first mapping of `c` among the palettes `refs[i..]`, each searched with
/// `palette_lookup`.
pub open spec fn palettes_lookup(
    cdda: CDDAData,
    cp: ComputedParameters,
    refs: Seq<MapObjectId<MeabyParam>>,
    i: int,
    c: char,
    furniture: bool,
    n: nat,
) -> Option<MapObjectId<MeabyParam>>
    decreases n, refs.len() - i,
{
    if 0 <= i < refs.len() {
        match palette_lookup(cdda, cp, refs[i], c, furniture, n) {
            Some(m) => Some(m),
            None => palettes_lookup(cdda, cp, refs, i + 1, c, furniture, n),
        }
    } else {
        None
    }
}

/// The palette named by `r` can be followed, and so can its parents, to a depth
/// below `n`.
pub open spec fn ref_ok(cdda: CDDAData, cp: ComputedParameters, r: MapObjectId<MeabyParam>, n: nat) -> bool
    decreases n, 0int,
{
    if n == 0 {
        false
    } else {
        match palette_ref_id(r, cp) {
            None => false,
            Some(id) => match lookup(cdda.palettes@, id) {
                None => false,
                Some(p) => refs_ok(cdda, cp, p.palettes@, 0, (n - 1) as nat),
            },
        }
    }
}

/// Every palette reference in `refs[i..]` can be followed to a depth below `n`.
pub open spec fn refs_ok(
    cdda: CDDAData,
    cp: ComputedParameters,
    refs: Seq<MapObjectId<MeabyParam>>,
    i: int,
    n: nat,
) -> bool
    decreases n, refs.len() - i,
{
    if 0 <= i < refs.len() {
        ref_ok(cdda, cp, refs[i], n) && refs_ok(cdda, cp, refs, i + 1, n)
    } else {
        true
    }
}

/// A layer of a group after a search: a value already found stays; otherwise the
/// mapping found (if any) gives a value that it can name.
pub open spec fn filled(
    before: Option<String>,
    found: Option<MapObjectId<MeabyParam>>,
    cp: ComputedParameters,
    after: Option<String>,
) -> bool {
    match before {
        Some(_) => after == before,
        None => match found {
            None => after is None,
            Some(m) => after matches Some(id) && may_yield(m, cp, id),
        },
    }
}

/// Searching `a` and then the rest is searching the first one that finds something.
proof fn lemma_filled_step(
    g0: Option<String>,
    g1: Option<String>,
    gf: Option<String>,
    a: Option<MapObjectId<MeabyParam>>,
    rest: Option<MapObjectId<MeabyParam>>,
    cp: ComputedParameters,
)
    requires
        filled(g0, a, cp, g1),
        filled(g1, rest, cp, gf),
    ensures
        filled(
            g0,
            match a {
                Some(m) => Some(m),
                None => rest,
            },
            cp,
            gf,
        ),
{
}

/// A search that found nothing to fill: the value stays.
proof fn lemma_filled_none(g: Option<String>, cp: ComputedParameters)
    ensures
        filled(g, None, cp, g),
{
}

impl MapEntity {
    /// The palettes of the map object can be followed to some finite depth.
    pub open spec fn palettes_followable(self, cdda: CDDAData) -> bool {
        exists|n: nat| refs_ok(cdda, self.spec_object().computed_parameters, self.spec_object().palettes@, 0, n)
    }

    /// A depth to which the palettes can be followed.
    pub open spec fn palette_depth(self, cdda: CDDAData) -> nat {
        choose|n: nat| refs_ok(cdda, self.spec_object().computed_parameters, self.spec_object().palettes@, 0, n)
    }

    /// What `c` stands for in a layer: the map object's own mapping, else the first
    /// mapping found in its palettes, in order, each with its parents depth first.
    pub open spec fn first_definer(self, cdda: CDDAData, c: char, furniture: bool) -> Option<MapObjectId<MeabyParam>> {
        let obj = self.spec_object();
        match lookup(if furniture { obj.furniture@ } else { obj.terrain@ }, c) {
            Some(m) => Some(m),
            None => palettes_lookup(cdda, obj.computed_parameters, obj.palettes@, 0, c, furniture, self.palette_depth(cdda)),
        }
    }

    /// `get_ids` can work out the ids of `c`: the palettes can be followed, and what `c`
    /// stands for in each layer names an id that the editor can tell.
    pub open spec fn ids_known(self, cdda: CDDAData, c: char) -> bool {
        &&& self.palettes_followable(cdda)
        &&& self.first_definer(cdda, c, false) matches Some(m) ==> resolvable(m, self.spec_object().computed_parameters)
        &&& self.first_definer(cdda, c, true) matches Some(m) ==> resolvable(m, self.spec_object().computed_parameters)
    }

    /// The terrain and furniture ids that character `c` stands for. Groups of ids are
    /// drawn from at random.
    pub fn get_ids(&self, cdda_data: &CDDAData, character: &char, rng: &mut rand::rngs::StdRng) -> (group: TileIdGroup)
        requires
            self.ids_known(*cdda_data, *character),
        ensures
            filled(None, self.first_definer(*cdda_data, *character, false), self.spec_object().computed_parameters, group.terrain),
            filled(None, self.first_definer(*cdda_data, *character, true), self.spec_object().computed_parameters, group.furniture),
            group.toilet is None,
            group.item is None,
    {
        let obj = self.object();
        let cp = &obj.computed_parameters;
        let mut group = TileIdGroup::new();
        let ghost n = self.palette_depth(*cdda_data);
        let ghost refs = obj.palettes@;
        if let Some(id) = find(&obj.terrain, character) {
            group.terrain = Some(resolve_id(id, cp, rng));
        }
        if let Some(id) = find(&obj.furniture, character) {
            group.furniture = Some(resolve_id(id, cp, rng));
        }
        let ghost t0 = group.terrain;
        let ghost f0 = group.furniture;
        assert(filled(None, lookup(obj.terrain@, *character), *cp, t0));
        let mut j: usize = 0;
        while j < obj.palettes.len()
            invariant
                j <= obj.palettes.len(),
                refs == obj.palettes@,
                refs_ok(*cdda_data, *cp, refs, j as int, n),
                group.toilet is None,
                group.item is None,
                group.terrain is None ==> (palettes_lookup(*cdda_data, *cp, refs, j as int, *character, false, n) matches Some(m) ==> resolvable(m, *cp)),
                group.furniture is None ==> (palettes_lookup(*cdda_data, *cp, refs, j as int, *character, true, n) matches Some(m) ==> resolvable(m, *cp)),
                forall|gf: Option<String>|
                    #[trigger] filled(group.terrain, palettes_lookup(*cdda_data, *cp, refs, j as int, *character, false, n), *cp, gf)
                    ==> filled(t0, palettes_lookup(*cdda_data, *cp, refs, 0, *character, false, n), *cp, gf),
                forall|gf: Option<String>|
                    #[trigger] filled(group.furniture, palettes_lookup(*cdda_data, *cp, refs, j as int, *character, true, n), *cp, gf)
                    ==> filled(f0, palettes_lookup(*cdda_data, *cp, refs, 0, *character, true, n), *cp, gf),
            decreases obj.palettes.len() - j,
        {
            let ghost tj = group.terrain;
            let ghost fj = group.furniture;
            match_palette(cdda_data, cp, &mut group, character, &obj.palettes[j], Ghost(n), rng);
            proof {
                let a_t = palette_lookup(*cdda_data, *cp, refs[j as int], *character, false, n);
                let rest_t = palettes_lookup(*cdda_data, *cp, refs, j + 1, *character, false, n);
                assert forall|gf: Option<String>|
                    #[trigger] filled(group.terrain, rest_t, *cp, gf)
                    implies filled(t0, palettes_lookup(*cdda_data, *cp, refs, 0, *character, false, n), *cp, gf) by {
                    lemma_filled_step(tj, group.terrain, gf, a_t, rest_t, *cp);
                    assert(filled(tj, palettes_lookup(*cdda_data, *cp, refs, j as int, *character, false, n), *cp, gf));
                }
                let a_f = palette_lookup(*cdda_data, *cp, refs[j as int], *character, true, n);
                let rest_f = palettes_lookup(*cdda_data, *cp, refs, j + 1, *character, true, n);
                assert forall|gf: Option<String>|
                    #[trigger] filled(group.furniture, rest_f, *cp, gf)
                    implies filled(f0, palettes_lookup(*cdda_data, *cp, refs, 0, *character, true, n), *cp, gf) by {
                    lemma_filled_step(fj, group.furniture, gf, a_f, rest_f, *cp);
                    assert(filled(fj, palettes_lookup(*cdda_data, *cp, refs, j as int, *character, true, n), *cp, gf));
                }
            }
            j = j + 1;
        }
        proof {
            lemma_filled_none(group.terrain, *cp);
            lemma_filled_none(group.furniture, *cp);
            assert(filled(group.terrain, palettes_lookup(*cdda_data, *cp, refs, j as int, *character, false, n), *cp, group.terrain));
            assert(filled(group.furniture, palettes_lookup(*cdda_data, *cp, refs, j as int, *character, true, n), *cp, group.furniture));
        }
        group
    }
}

/// Fills the layers of `group` that are still empty from the palette named by
/// `palette`, and then from its parents, depth first.
fn match_palette(
    cdda_data: &CDDAData,
    cp: &ComputedParameters,
    group: &mut TileIdGroup,
    character: &char,
    palette: &MapObjectId<MeabyParam>,
    Ghost(n): Ghost<nat>,
    rng: &mut rand::rngs::StdRng,
)
    requires
        ref_ok(*cdda_data, *cp, *palette, n),
        old(group).terrain is None ==> (palette_lookup(*cdda_data, *cp, *palette, *character, false, n) matches Some(m) ==> resolvable(m, *cp)),
        old(group).furniture is None ==> (palette_lookup(*cdda_data, *cp, *palette, *character, true, n) matches Some(m) ==> resolvable(m, *cp)),
    ensures
        filled(old(group).terrain, palette_lookup(*cdda_data, *cp, *palette, *character, false, n), *cp, final(group).terrain),
        filled(old(group).furniture, palette_lookup(*cdda_data, *cp, *palette, *character, true, n), *cp, final(group).furniture),
        final(group).toilet == old(group).toilet,
        final(group).item == old(group).item,
    decreases n,
{
    let palette_id = resolve_palette_ref(palette, cp);
    let p = match find(&cdda_data.palettes, &palette_id) {
        Some(p) => p,
        None => vstd::pervasive::unreached(),
    };
    if let Some(id) = find(&p.furniture, character) {
        if group.furniture.is_none() {
            group.furniture = Some(resolve_id(id, cp, rng));
        }
    }
    if let Some(id) = find(&p.terrain, character) {
        if group.terrain.is_none() {
            group.terrain = Some(resolve_id(id, cp, rng));
        }
    }
    let ghost m: nat = (n - 1) as nat;
    let ghost refs = p.palettes@;
    let ghost t0 = group.terrain;
    let ghost f0 = group.furniture;
    let mut j: usize = 0;
    while j < p.palettes.len()
        invariant
            j <= p.palettes.len(),
            n > 0,
            m == n - 1,
            refs == p.palettes@,
            refs_ok(*cdda_data, *cp, refs, j as int, m),
            group.toilet == old(group).toilet,
            group.item == old(group).item,
            group.terrain is None ==> (palettes_lookup(*cdda_data, *cp, refs, j as int, *character, false, m) matches Some(d) ==> resolvable(d, *cp)),
            group.furniture is None ==> (palettes_lookup(*cdda_data, *cp, refs, j as int, *character, true, m) matches Some(d) ==> resolvable(d, *cp)),
            forall|gf: Option<String>|
                #[trigger] filled(group.terrain, palettes_lookup(*cdda_data, *cp, refs, j as int, *character, false, m), *cp, gf)
                ==> filled(t0, palettes_lookup(*cdda_data, *cp, refs, 0, *character, false, m), *cp, gf),
            forall|gf: Option<String>|
                #[trigger] filled(group.furniture, palettes_lookup(*cdda_data, *cp, refs, j as int, *character, true, m), *cp, gf)
                ==> filled(f0, palettes_lookup(*cdda_data, *cp, refs, 0, *character, true, m), *cp, gf),
        decreases p.palettes.len() - j,
    {
        let ghost tj = group.terrain;
        let ghost fj = group.furniture;
        match_palette(cdda_data, cp, group, character, &p.palettes[j], Ghost(m), rng);
        proof {
            let a_t = palette_lookup(*cdda_data, *cp, refs[j as int], *character, false, m);
            let rest_t = palettes_lookup(*cdda_data, *cp, refs, j + 1, *character, false, m);
            assert forall|gf: Option<String>|
                #[trigger] filled(group.terrain, rest_t, *cp, gf)
                implies filled(t0, palettes_lookup(*cdda_data, *cp, refs, 0, *character, false, m), *cp, gf) by {
                lemma_filled_step(tj, group.terrain, gf, a_t, rest_t, *cp);
                assert(filled(tj, palettes_lookup(*cdda_data, *cp, refs, j as int, *character, false, m), *cp, gf));
            }
            let a_f = palette_lookup(*cdda_data, *cp, refs[j as int], *character, true, m);
            let rest_f = palettes_lookup(*cdda_data, *cp, refs, j + 1, *character, true, m);
            assert forall|gf: Option<String>|
                #[trigger] filled(group.furniture, rest_f, *cp, gf)
                implies filled(f0, palettes_lookup(*cdda_data, *cp, refs, 0, *character, true, m), *cp, gf) by {
                lemma_filled_step(fj, group.furniture, gf, a_f, rest_f, *cp);
                assert(filled(fj, palettes_lookup(*cdda_data, *cp, refs, j as int, *character, true, m), *cp, gf));
            }
        }
        j = j + 1;
    }
    proof {
        lemma_filled_none(group.terrain, *cp);
        lemma_filled_none(group.furniture, *cp);
        assert(filled(group.terrain, palettes_lookup(*cdda_data, *cp, refs, j as int, *character, false, m), *cp, group.terrain));
        assert(filled(group.furniture, palettes_lookup(*cdda_data, *cp, refs, j as int, *character, true, m), *cp, group.furniture));
    }
}

} // verus!
