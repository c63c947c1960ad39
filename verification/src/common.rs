use vstd::prelude::*;

use crate::random::{gen_range_i32, gen_range_u32, sample_weighted_index, weight_sum};

verus! {

/// The id of a terrain, furniture or other map object (for example `t_grass`).
pub type TileId = String;

/// Why a load failed.
#[derive(Debug)]
pub enum LoadError {
    NoAutoSave,
    DirectoryNotFound,
    ParseError,
}

/// Either a list of values or a single one, as CDDA json allows for many fields.
#[derive(Debug, Clone)]
pub enum MeabyMulti<T> {
    Multi(Vec<T>),
    Single(T),
}

impl<T> MeabyMulti<T> {
    /// The list held by a `Multi`.
    pub fn multi(self) -> (r: Vec<T>)
        requires
            self is Multi,
        ensures
            r == self->Multi_0,
    {
        match self {
            MeabyMulti::Multi(mul) => mul,
            MeabyMulti::Single(_) => vstd::pervasive::unreached(),
        }
    }

    /// The value held by a `Single`.
    pub fn single(self) -> (r: T)
        requires
            self is Single,
        ensures
            r == self->Single_0,
    {
        match self {
            MeabyMulti::Multi(_) => vstd::pervasive::unreached(),
            MeabyMulti::Single(s) => s,
        }
    }
}


/// Why a save failed.
#[derive(Debug)]
pub enum SaveError {
    DirectoryNotFound(String),
    InvalidPath(anyhow::Error),
}

/// The error type of the `anyhow` crate, carried by `SaveError::InvalidPath`.
#[verifier::external_type_specification]
#[verifier::external_body]
pub struct ExAnyhowError(anyhow::Error);

/// Something that can be loaded.
pub trait Load<T> {
    fn load(&self) -> Result<T, LoadError>;
}

/// Something that can save a value.
pub trait Save<T> {
    fn save(&self, value: &T) -> Result<(), SaveError>;
}

/// The id of an item type.
#[derive(Clone, Debug, PartialEq, Eq, Hash)]
pub struct ItemId(pub String);

/// A value with a weight for random selection.
#[derive(Clone, Debug)]
pub struct Weighted<T> {
    pub value: T,
    pub weight: u32,
}

impl<T> Weighted<T> {
    pub fn new(value: T, weight: u32) -> (r: Self)
        ensures
            r.value == value,
            r.weight == weight,
    {
        Self { value, weight }
    }
}

/// A value that may or may not carry a weight.
#[derive(Clone, Debug)]
pub enum MeabyWeighted<T> {
    NotWeighted(T),
    Weighted(Weighted<T>),
}

impl<T> MeabyWeighted<T> {
    /// The value, whichever the variant.
    pub open spec fn spec_value(self) -> T {
        match self {
            MeabyWeighted::NotWeighted(v) => v,
            MeabyWeighted::Weighted(w) => w.value,
        }
    }

    /// The weight that a random choice gives the value: 1 when it has none.
    pub open spec fn choice_weight(self) -> u64 {
        match self {
            MeabyWeighted::NotWeighted(_) => 1,
            MeabyWeighted::Weighted(w) => w.weight as u64,
        }
    }

    pub fn value(&self) -> (r: &T)
        ensures
            *r == self.spec_value(),
    {
        match self {
            MeabyWeighted::NotWeighted(v) => v,
            MeabyWeighted::Weighted(w) => &w.value,
        }
    }

    pub fn weighted(self) -> (r: Weighted<T>)
        requires
            self is Weighted,
        ensures
            r == self->Weighted_0,
    {
        match self {
            MeabyWeighted::NotWeighted(_) => vstd::pervasive::unreached(),
            MeabyWeighted::Weighted(w) => w,
        }
    }

    pub fn not_weighted(self) -> (r: T)
        requires
            self is NotWeighted,
        ensures
            r == self->NotWeighted_0,
    {
        match self {
            MeabyWeighted::NotWeighted(nw) => nw,
            MeabyWeighted::Weighted(_) => vstd::pervasive::unreached(),
        }
    }
}

/// A number, or a range from which one is drawn.
#[derive(Clone, Debug)]
pub enum MeabyNumberRange<T> {
    Range(T, T),
    Single(T),
}

impl MeabyNumberRange<i32> {
    /// The single number, or one drawn from `start..end`.
    pub fn get_num(&self, rng: &mut rand::rngs::StdRng) -> (r: i32)
        requires
            self matches MeabyNumberRange::Range(start, end) ==> *start < *end,
        ensures
            match self {
                MeabyNumberRange::Range(start, end) => *start <= r < *end,
                MeabyNumberRange::Single(n) => r == *n,
            },
    {
        match self {
            MeabyNumberRange::Range(start, end) => gen_range_i32(rng, *start, *end),
            MeabyNumberRange::Single(num) => *num,
        }
    }
}

impl MeabyNumberRange<u32> {
    /// The single number, or one drawn from `start..end`.
    pub fn get_num(&self, rng: &mut rand::rngs::StdRng) -> (r: u32)
        requires
            self matches MeabyNumberRange::Range(start, end) ==> *start < *end,
        ensures
            match self {
                MeabyNumberRange::Range(start, end) => *start <= r < *end,
                MeabyNumberRange::Single(n) => r == *n,
            },
    {
        match self {
            MeabyNumberRange::Range(start, end) => gen_range_u32(rng, *start, *end),
            MeabyNumberRange::Single(num) => *num,
        }
    }
}

/// A weight of zero counts as one when choosing among `Weighted` values.
pub open spec fn weighted_choice_weight<T>(w: Weighted<T>) -> u64 {
    if w.weight == 0 {
        1
    } else {
        w.weight as u64
    }
}

/// The weights with which a random choice sees each element of `s`.
pub open spec fn weighted_weights<T>(s: Seq<Weighted<T>>) -> Seq<u64> {
    Seq::new(s.len(), |i: int| weighted_choice_weight(s[i]))
}

/// The weights of a list of maybe-weighted values: 1 for an unweighted one.
pub open spec fn meaby_weighted_weights<T>(s: Seq<MeabyWeighted<T>>) -> Seq<u64> {
    Seq::new(s.len(), |i: int| s[i].choice_weight())
}

/// The weights of the entries of a weighted table.
pub open spec fn table_weights<K>(s: Seq<(K, u32)>) -> Seq<u64> {
    Seq::new(s.len(), |i: int| s[i].1 as u64)
}

/// A weighted random choice among the elements of a collection.
pub trait GetRandom<T> {
    /// The choice can be made without failing: the weights have a positive total
    /// that fits in a `u64` (or there is nothing to choose from).
    spec fn can_choose(&self) -> bool;

    /// There is something to choose from.
    spec fn has_choices(&self) -> bool;

    /// `v` has a positive weight in the collection, so it may come out.
    spec fn may_choose(&self, v: T) -> bool;

    fn get_random_weighted(&self, rng: &mut rand::rngs::StdRng) -> (r: Option<&T>)
        requires
            self.can_choose(),
        ensures
            r is Some <==> self.has_choices(),
            r matches Some(v) ==> self.may_choose(*v),
    ;
}

impl<T> GetRandom<T> for Vec<Weighted<T>> {
    open spec fn can_choose(&self) -> bool {
        weight_sum(weighted_weights(self@)) <= u64::MAX
    }

    open spec fn has_choices(&self) -> bool {
        self.len() > 0
    }

    open spec fn may_choose(&self, v: T) -> bool {
        exists|i: int| 0 <= i < self.len() && #[trigger] self@[i].value == v
    }

    fn get_random_weighted(&self, rng: &mut rand::rngs::StdRng) -> (r: Option<&T>) {
        if self.len() == 0 {
            return None;
        }
        let mut weights: Vec<u64> = Vec::new();
        let mut i: usize = 0;
        while i < self.len()
            invariant
                i <= self.len(),
                weights@ =~= weighted_weights(self@).take(i as int),
            decreases self.len() - i,
        {
            let w: u64 = if self[i].weight == 0 { 1 } else { self[i].weight as u64 };
            weights.push(w);
            i = i + 1;
            assert(weights@ =~= weighted_weights(self@).take(i as int));
        }
        assert(weighted_weights(self@).take(i as int) =~= weighted_weights(self@));
        proof {
            lemma_weight_sum_positive(weights@);
        }
        let k = sample_weighted_index(rng, &weights);
        Some(&self[k].value)
    }
}

impl<T> GetRandom<T> for Vec<MeabyWeighted<T>> {
    open spec fn can_choose(&self) -> bool {
        self.len() > 0 ==> (weight_sum(meaby_weighted_weights(self@)) > 0 && weight_sum(
            meaby_weighted_weights(self@),
        ) <= u64::MAX)
    }

    open spec fn has_choices(&self) -> bool {
        self.len() > 0
    }

    open spec fn may_choose(&self, v: T) -> bool {
        exists|i: int|
            0 <= i < self.len() && #[trigger] self@[i].spec_value() == v
                && self@[i].choice_weight() > 0
    }

    fn get_random_weighted(&self, rng: &mut rand::rngs::StdRng) -> (r: Option<&T>) {
        if self.len() == 0 {
            return None;
        }
        let mut weights: Vec<u64> = Vec::new();
        let mut i: usize = 0;
        while i < self.len()
            invariant
                i <= self.len(),
                weights@ =~= meaby_weighted_weights(self@).take(i as int),
            decreases self.len() - i,
        {
            let w: u64 = match &self[i] {
                MeabyWeighted::NotWeighted(_) => 1,
                MeabyWeighted::Weighted(w) => w.weight as u64,
            };
            weights.push(w);
            i = i + 1;
            assert(weights@ =~= meaby_weighted_weights(self@).take(i as int));
        }
        assert(meaby_weighted_weights(self@).take(i as int) =~= meaby_weighted_weights(self@));
        let k = sample_weighted_index(rng, &weights);
        let r = self[k].value();
        assert(self@[k as int].spec_value() == *r);
        Some(r)
    }
}

impl<K> GetRandom<K> for Vec<(K, u32)> {
    open spec fn can_choose(&self) -> bool {
        self.len() > 0 ==> (weight_sum(table_weights(self@)) > 0 && weight_sum(
            table_weights(self@),
        ) <= u64::MAX)
    }

    open spec fn has_choices(&self) -> bool {
        self.len() > 0
    }

    open spec fn may_choose(&self, v: K) -> bool {
        exists|i: int| 0 <= i < self.len() && #[trigger] self@[i].0 == v && self@[i].1 > 0
    }

    fn get_random_weighted(&self, rng: &mut rand::rngs::StdRng) -> (r: Option<&K>) {
        if self.len() == 0 {
            return None;
        }
        let mut weights: Vec<u64> = Vec::new();
        let mut i: usize = 0;
        while i < self.len()
            invariant
                i <= self.len(),
                weights@ =~= table_weights(self@).take(i as int),
            decreases self.len() - i,
        {
            weights.push(self[i].1 as u64);
            i = i + 1;
            assert(weights@ =~= table_weights(self@).take(i as int));
        }
        assert(table_weights(self@).take(i as int) =~= table_weights(self@));
        let k = sample_weighted_index(rng, &weights);
        Some(&self[k].0)
    }
}

/// When every weight is positive and there is at least one, the total is positive.
pub proof fn lemma_weight_sum_positive(s: Seq<u64>)
    requires
        s.len() > 0,
        forall|i: int| 0 <= i < s.len() ==> s[i] > 0,
    ensures
        weight_sum(s) > 0,
    decreases s.len(),
{
    assert(s[s.len() - 1] > 0);
    if s.len() > 1 {
        assert forall|i: int| 0 <= i < s.drop_last().len() implies s.drop_last()[i] > 0 by {
            assert(s.drop_last()[i] == s[i]);
        }
        lemma_weight_sum_positive(s.drop_last());
    } else {
        assert(weight_sum(s.drop_last()) == 0);
    }
}

} // verus!
