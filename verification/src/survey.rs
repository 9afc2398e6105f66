//! Plain models of what the view reads about planets and their predicted
//! flora, which entries still count, and the order of the planet list.
use vstd::prelude::*;

use crate::ui::SortMode;

verus! {

/// Whether a predicted species can still spawn on its planet.
#[derive(Clone, Copy, PartialEq, Eq, Structural, Debug)]
pub enum WillSpawn {
    Yes,
    Maybe,
    No,
}

/// One predicted species on a planet, with what the planet's scans of the
/// same genus say.
pub struct SpeciesEntry {
    /// The species' display name.
    pub name: String,
    /// What a first logging of the species pays.
    pub base_value: u64,
    pub will_spawn: WillSpawn,
    /// Scanned at least once.
    pub confirmed: bool,
    /// Scanned three times and logged.
    pub completed: bool,
    /// The variant name recorded for the planet's organic of this genus.
    pub genus_variant: Option<String>,
    /// How many of three scans the planet's organic of this genus has.
    pub genus_progress: Option<u8>,
}

/// A scanned organic that the prediction did not list.
pub struct Organic {
    /// The species' display name.
    pub name: String,
    pub base_value: u64,
    pub completed: bool,
    /// How many of three scans are done.
    pub progress: u8,
}

/// Counts of the signals that a body scan reported.
#[derive(Clone, Copy, Debug)]
pub struct SignalCounts {
    pub biological: usize,
    pub human: usize,
    pub geological: usize,
    pub thargoid: usize,
    pub guardian: usize,
    pub other: usize,
}

/// The most detailed scan a body has had.
#[derive(Clone, Copy, PartialEq, Eq, Structural, Debug)]
pub enum ScanLevel {
    /// A detailed surface scan.
    Full,
    /// A surface mapping scan only.
    Saa,
    /// Discovered, never scanned.
    Fss,
}

/// Per-planet data prepared once per frame for sorting and rendering.
pub struct PlanetView {
    pub id: u8,
    pub name: String,
    pub entries: Vec<SpeciesEntry>,
    /// Scanned organics that no entry predicts.
    pub unpredicted: Vec<Organic>,
    pub complete: bool,
    /// The least the planet's flora is worth, when it can be computed.
    pub estimated: Option<u64>,
    /// The bit pattern of the distance from the arrival star, if scanned.
    pub distance_bits: Option<u32>,
    pub landable: Option<bool>,
    pub scan: ScanLevel,
    pub signals: Option<SignalCounts>,
}

/// What the header reads about the current system.
pub struct SystemSummary {
    /// The system's name, once a location event named it.
    pub star_name: Option<String>,
    /// Bodies scanned so far (planets and stars).
    pub scanned: usize,
    /// Bodies in the system, once a discovery scan counted them.
    pub total: Option<u8>,
    /// The body the player is close to.
    pub near: Option<u8>,
}

/// An entry still worth acting on: predicted to spawn (or already
/// confirmed) and worth at least the threshold.
pub open spec fn active(e: SpeciesEntry, threshold: u64) -> bool {
    (e.will_spawn == WillSpawn::Yes || e.will_spawn == WillSpawn::Maybe || e.confirmed)
        && e.base_value >= threshold
}

/// A planet is done when it has species to find and every active one is
/// complete, or none of them is active.
pub open spec fn complete(entries: Seq<SpeciesEntry>, threshold: u64) -> bool {
    entries.len() > 0 && forall|i: int|
        0 <= i < entries.len() ==> !active(#[trigger] entries[i], threshold) || entries[i].completed
}

/// A species entry still worth acting on: predicted to spawn (or already
/// confirmed) and above the player's value threshold.
pub fn is_active(entry: &SpeciesEntry, threshold: u64) -> (r: bool)
    ensures
        r == active(*entry, threshold),
{
    (entry.will_spawn == WillSpawn::Yes || entry.will_spawn == WillSpawn::Maybe
        || entry.confirmed) && entry.base_value >= threshold
}

/// A planet is done when it has species to find and every active one is
/// complete (3/3 scans), or none of them are active.
pub fn is_complete(entries: &[SpeciesEntry], threshold: u64) -> (r: bool)
    ensures
        r == complete(entries@, threshold),
{
    if entries.len() == 0 {
        return false;
    }
    let mut i: usize = 0;
    while i < entries.len()
        invariant
            i <= entries@.len(),
            forall|j: int|
                0 <= j < i ==> !active(#[trigger] entries@[j], threshold) || entries@[j].completed,
        decreases entries@.len() - i,
    {
        if is_active(&entries[i], threshold) && !entries[i].completed {
            return false;
        }
        i = i + 1;
    }
    true
}

/// A planet with a species that can still spawn (or was confirmed), is
/// worth at least the threshold and is not yet completed, at any position
/// of its list, is not done.
pub proof fn law_open_species_keeps_planet_open(entries: Seq<SpeciesEntry>, threshold: u64, i: int)
    requires
        0 <= i < entries.len(),
        entries[i].will_spawn == WillSpawn::Yes || entries[i].will_spawn == WillSpawn::Maybe
            || entries[i].confirmed,
        entries[i].base_value >= threshold,
        !entries[i].completed,
    ensures
        !complete(entries, threshold),
{
}

/// A planet is done exactly when it has species and each of them is
/// completed, cannot spawn without having been confirmed, or is worth less
/// than the threshold.
pub proof fn law_done_planets(entries: Seq<SpeciesEntry>, threshold: u64)
    ensures
        complete(entries, threshold) <==> entries.len() > 0 && forall|i: int|
            0 <= i < entries.len() ==> (#[trigger] entries[i]).completed || (entries[i].will_spawn
                == WillSpawn::No && !entries[i].confirmed) || entries[i].base_value < threshold,
{
}

/// The key by which floats are ordered in IEEE total order, read from
/// their bit pattern: negatives reversed below all positives.
pub open spec fn total_order_key(bits: u32) -> u32 {
    if bits & 0x8000_0000u32 != 0 {
        !bits
    } else {
        bits | 0x8000_0000u32
    }
}

fn distance_key(bits: u32) -> (k: u32)
    ensures
        k == total_order_key(bits),
{
    if bits & 0x8000_0000u32 != 0 {
        !bits
    } else {
        bits | 0x8000_0000u32
    }
}

/// A three-part sort key, compared part by part.
pub type SortKey = (u64, u64, u64);

/// `a` sorts strictly before `b`.
pub open spec fn key_lt(a: SortKey, b: SortKey) -> bool {
    a.0 < b.0 || (a.0 == b.0 && (a.1 < b.1 || (a.1 == b.1 && a.2 < b.2)))
}

/// `a` sorts before or with `b`.
pub open spec fn key_le(a: SortKey, b: SortKey) -> bool {
    key_lt(a, b) || a == b
}

fn key_less(a: SortKey, b: SortKey) -> (r: bool)
    ensures
        r == key_lt(a, b),
{
    a.0 < b.0 || (a.0 == b.0 && (a.1 < b.1 || (a.1 == b.1 && a.2 < b.2)))
}

/// `order` lists each index below `n` exactly once.
pub open spec fn is_permutation(order: Seq<usize>, n: nat) -> bool {
    &&& order.len() == n
    &&& order.no_duplicates()
    &&& forall|i: int| 0 <= i < order.len() ==> #[trigger] order[i] < n
    &&& forall|x: usize| x < n ==> #[trigger] order.contains(x)
}

/// Position `a` goes before position `b`: a smaller key, or the same key
/// and an earlier position.
pub open spec fn goes_before(keys: Seq<SortKey>, a: usize, b: usize) -> bool {
    key_lt(keys[a as int], keys[b as int]) || (keys[a as int] == keys[b as int] && a < b)
}

proof fn lemma_sorted_lists_agree(keys: Seq<SortKey>, o1: Seq<usize>, o2: Seq<usize>)
    requires
        o1.no_duplicates(),
        o2.no_duplicates(),
        forall|i: int, j: int|
            #![trigger o1[i], o1[j]]
            0 <= i < j < o1.len() ==> goes_before(keys, o1[i], o1[j]),
        forall|i: int, j: int|
            #![trigger o2[i], o2[j]]
            0 <= i < j < o2.len() ==> goes_before(keys, o2[i], o2[j]),
        forall|x: usize|
            #![trigger o1.contains(x)]
            #![trigger o2.contains(x)]
            o1.contains(x) <==> o2.contains(x),
    ensures
        o1 == o2,
    decreases o1.len(),
{
    if o1.len() == 0 {
        if o2.len() > 0 {
            assert(o2.contains(o2[0]));
        }
        assert(o1 =~= o2);
    } else {
        assert(o1.contains(o1[0]));
        assert(o2.len() > 0);
        let a = o1[0];
        let b = o2[0];
        if a != b {
            assert(o2.contains(b));
            assert(o1.contains(b));
            assert(o2.contains(a));
            let i = choose|i: int| 0 <= i < o1.len() && o1[i] == b;
            let j = choose|j: int| 0 <= j < o2.len() && o2[j] == a;
            assert(i > 0 && j > 0);
            assert(goes_before(keys, o1[0], o1[i]));
            assert(goes_before(keys, o2[0], o2[j]));
        }
        let t1 = o1.drop_first();
        let t2 = o2.drop_first();
        assert forall|x: usize|
            #![trigger t1.contains(x)]
            #![trigger t2.contains(x)]
            t1.contains(x) <==> t2.contains(x) by {
            if t1.contains(x) {
                let i = choose|i: int| 0 <= i < t1.len() && t1[i] == x;
                assert(o1[i + 1] == x);
                assert(x != a);
                assert(o1.contains(x));
                assert(o2.contains(x));
                let j = choose|j: int| 0 <= j < o2.len() && o2[j] == x;
                assert(j != 0);
                assert(t2[j - 1] == x);
            }
            if t2.contains(x) {
                let i = choose|i: int| 0 <= i < t2.len() && t2[i] == x;
                assert(o2[i + 1] == x);
                assert(x != b);
                assert(o2.contains(x));
                assert(o1.contains(x));
                let j = choose|j: int| 0 <= j < o1.len() && o1[j] == x;
                assert(j != 0);
                assert(t1[j - 1] == x);
            }
        }
        assert forall|i: int, j: int|
            #![trigger t1[i], t1[j]]
            0 <= i < j < t1.len() implies goes_before(keys, t1[i], t1[j]) by {
            assert(t1[i] == o1[i + 1] && t1[j] == o1[j + 1]);
        }
        assert forall|i: int, j: int|
            #![trigger t2[i], t2[j]]
            0 <= i < j < t2.len() implies goes_before(keys, t2[i], t2[j]) by {
            assert(t2[i] == o2[i + 1] && t2[j] == o2[j + 1]);
        }
        lemma_sorted_lists_agree(keys, t1, t2);
        assert(o1 =~= seq![a] + t1);
        assert(o2 =~= seq![b] + t2);
    }
}

proof fn lemma_stably_sorted_goes_before(keys: Seq<SortKey>, o: Seq<usize>)
    requires
        stably_sorted(keys, o),
    ensures
        forall|i: int, j: int|
            #![trigger o[i], o[j]]
            0 <= i < j < o.len() ==> goes_before(keys, o[i], o[j]),
{
    assert forall|i: int, j: int|
        #![trigger o[i], o[j]]
        0 <= i < j < o.len() implies goes_before(keys, o[i], o[j]) by {
        assert(o[i] != o[j]);
    }
}

/// There is only one stable sorted order of a list of keys.
pub proof fn lemma_stable_order_unique(keys: Seq<SortKey>, o1: Seq<usize>, o2: Seq<usize>)
    requires
        stably_sorted(keys, o1),
        stably_sorted(keys, o2),
    ensures
        o1 == o2,
{
    lemma_stably_sorted_goes_before(keys, o1);
    lemma_stably_sorted_goes_before(keys, o2);
    assert forall|x: usize|
        #![trigger o1.contains(x)]
        #![trigger o2.contains(x)]
        o1.contains(x) <==> o2.contains(x) by {
        if o1.contains(x) {
            let i = choose|i: int| 0 <= i < o1.len() && o1[i] == x;
            assert(o1[i] < keys.len());
            assert(o2.contains(x));
        }
        if o2.contains(x) {
            let i = choose|i: int| 0 <= i < o2.len() && o2[i] == x;
            assert(o2[i] < keys.len());
            assert(o1.contains(x));
        }
    }
    lemma_sorted_lists_agree(keys, o1, o2);
}

/// The stable sorted order of `keys`.
pub open spec fn sorted_positions(keys: Seq<SortKey>) -> Seq<usize> {
    choose|o: Seq<usize>| stably_sorted(keys, o)
}

/// `order` lists the indices of `keys` sorted by key, with equal keys kept
/// in their original order (a stable sort).
pub open spec fn stably_sorted(keys: Seq<SortKey>, order: Seq<usize>) -> bool {
    &&& is_permutation(order, keys.len())
    &&& forall|i: int, j: int|
        #![trigger order[i], order[j]]
        0 <= i < j < order.len() ==> key_le(keys[order[i] as int], keys[order[j] as int]) && (
        keys[order[i] as int] == keys[order[j] as int] ==> order[i] < order[j])
}

/// The indices of `keys` in stable sorted order.
pub fn stable_order(keys: &Vec<SortKey>) -> (order: Vec<usize>)
    ensures
        stably_sorted(keys@, order@),
        order@ == sorted_positions(keys@),
{
    let n = keys.len();
    let mut order: Vec<usize> = Vec::new();
    let mut idx: usize = 0;
    while idx < n
        invariant
            n == keys@.len(),
            idx <= n,
            is_permutation(order@, idx as nat),
            forall|i: int, j: int|
                #![trigger order@[i], order@[j]]
                0 <= i < j < order@.len() ==> key_le(
                    keys@[order@[i] as int],
                    keys@[order@[j] as int],
                ) && (keys@[order@[i] as int] == keys@[order@[j] as int] ==> order@[i]
                    < order@[j]),
        decreases n - idx,
    {
        let k = keys[idx];
        let mut p: usize = 0;
        while p < order.len() && !key_less(k, keys[order[p]])
            invariant
                n == keys@.len(),
                idx < n,
                k == keys@[idx as int],
                p <= order@.len(),
                is_permutation(order@, idx as nat),
                forall|q: int| 0 <= q < p ==> key_le(#[trigger] keys@[order@[q] as int], k),
            decreases order@.len() - p,
        {
            proof {
                let a = keys@[order@[p as int] as int];
                assert(!key_lt(k, a));
            }
            p = p + 1;
        }
        let ghost before = order@;
        proof {
            assert forall|q: int| p <= q < before.len() implies key_lt(
                k,
                #[trigger] keys@[before[q] as int],
            ) by {
                if q > p {
                    assert(key_le(keys@[before[p as int] as int], keys@[before[q] as int]));
                }
            }
        }
        order.insert(p, idx);
        proof {
            let after = order@;
            assert(after == before.insert(p as int, idx));
            assert forall|i: int| 0 <= i < after.len() implies #[trigger] after[i] < idx + 1 by {
                if i < p {
                    assert(after[i] == before[i]);
                } else if i > p {
                    assert(after[i] == before[i - 1]);
                }
            }
            assert forall|i: int, j: int| 0 <= i < j < after.len() implies after[i] != after[j] by {
                if i < p && j < p {
                    assert(after[i] == before[i] && after[j] == before[j]);
                } else if i < p && j == p {
                    assert(after[i] == before[i]);
                } else if i < p && j > p {
                    assert(after[i] == before[i] && after[j] == before[j - 1]);
                } else if i == p {
                    assert(after[j] == before[j - 1]);
                } else {
                    assert(after[i] == before[i - 1] && after[j] == before[j - 1]);
                }
            }
            assert(after.no_duplicates());
            assert forall|x: usize| x < idx + 1 implies #[trigger] after.contains(x) by {
                if x == idx {
                    assert(after[p as int] == idx);
                } else {
                    assert(before.contains(x));
                    let q = choose|q: int| 0 <= q < before.len() && before[q] == x;
                    if q < p {
                        assert(after[q] == x);
                    } else {
                        assert(after[q + 1] == x);
                    }
                }
            }
            assert forall|i: int, j: int|
                #![trigger after[i], after[j]]
                0 <= i < j < after.len() implies key_le(
                    keys@[after[i] as int],
                    keys@[after[j] as int],
                ) && (keys@[after[i] as int] == keys@[after[j] as int] ==> after[i] < after[j]) by {
                if i < p && j < p {
                    assert(after[i] == before[i] && after[j] == before[j]);
                } else if i < p && j == p {
                    assert(after[i] == before[i]);
                    assert(key_le(keys@[before[i] as int], k));
                } else if i < p && j > p {
                    assert(after[i] == before[i] && after[j] == before[j - 1]);
                } else if i == p {
                    assert(after[j] == before[j - 1]);
                    assert(key_lt(k, keys@[before[j - 1] as int]));
                } else {
                    assert(after[i] == before[i - 1] && after[j] == before[j - 1]);
                }
            }
        }
        idx = idx + 1;
    }
    proof {
        lemma_stable_order_unique(keys@, order@, sorted_positions(keys@));
    }
    order
}

/// Where a planet goes in the list: incomplete before complete, then by
/// body id, by estimated value (highest first, an unknown value as zero),
/// or by distance from the arrival star (nearest first, unscanned last).
pub open spec fn planet_key(v: PlanetView, sort: SortMode) -> SortKey {
    let done: u64 = if v.complete {
        1
    } else {
        0
    };
    match sort {
        SortMode::BodyId => (done, v.id as u64, 0),
        SortMode::Value => (done, match v.estimated {
            Some(e) => (u64::MAX - e) as u64,
            None => u64::MAX,
        }, 0),
        SortMode::Distance => match v.distance_bits {
            Some(bits) => (done, 0, total_order_key(bits) as u64),
            None => (done, 1, 0),
        },
    }
}

/// The keys of all planets under one order.
pub open spec fn planet_keys(views: Seq<PlanetView>, sort: SortMode) -> Seq<SortKey> {
    Seq::new(views.len(), |i: int| planet_key(views[i], sort))
}

/// In the planet list every planet that is not done comes before every
/// planet that is, whatever the order chosen.
pub proof fn law_unfinished_planets_first(
    views: Seq<PlanetView>,
    sort: SortMode,
    order: Seq<usize>,
    i: int,
    j: int,
)
    requires
        stably_sorted(planet_keys(views, sort), order),
        0 <= i < j < order.len(),
        views[order[i] as int].complete,
    ensures
        views[order[j] as int].complete,
{
    let keys = planet_keys(views, sort);
    assert(key_le(keys[order[i] as int], keys[order[j] as int]));
    assert(order[i] < views.len() && order[j] < views.len());
}

/// Sorted by value, of two planets equally done (or not) whose values are
/// known, the one worth more is listed first, and of two worth the same
/// the one that came first stays first.
pub proof fn law_higher_value_first(
    views: Seq<PlanetView>,
    order: Seq<usize>,
    i: int,
    j: int,
    a: u64,
    b: u64,
)
    requires
        stably_sorted(planet_keys(views, SortMode::Value), order),
        0 <= i < order.len(),
        0 <= j < order.len(),
        views[order[i] as int].complete == views[order[j] as int].complete,
        views[order[i] as int].estimated == Some(a),
        views[order[j] as int].estimated == Some(b),
    ensures
        a > b ==> i < j,
        a == b && order[i] < order[j] ==> i < j,
{
    let keys = planet_keys(views, SortMode::Value);
    assert(order[i] < views.len() && order[j] < views.len());
    if j < i {
        assert(key_le(keys[order[j] as int], keys[order[i] as int]));
    }
}

/// Sorted by body id, of two planets equally done (or not) the one with
/// the lower id is listed first.
pub proof fn law_lower_id_first(views: Seq<PlanetView>, order: Seq<usize>, i: int, j: int)
    requires
        stably_sorted(planet_keys(views, SortMode::BodyId), order),
        0 <= i < order.len(),
        0 <= j < order.len(),
        views[order[i] as int].complete == views[order[j] as int].complete,
        views[order[i] as int].id < views[order[j] as int].id,
    ensures
        i < j,
{
    let keys = planet_keys(views, SortMode::BodyId);
    assert(order[i] < views.len() && order[j] < views.len());
    if j < i {
        assert(key_le(keys[order[j] as int], keys[order[i] as int]));
    }
}

/// Sorted by distance, of two planets equally done (or not) a scanned one
/// comes before an unscanned one, and of two scanned at non-negative
/// distances the nearer comes first (for such floats the bit patterns
/// order as the numbers do).
pub proof fn law_nearer_first(views: Seq<PlanetView>, order: Seq<usize>, i: int, j: int)
    requires
        stably_sorted(planet_keys(views, SortMode::Distance), order),
        0 <= i < order.len(),
        0 <= j < order.len(),
        views[order[i] as int].complete == views[order[j] as int].complete,
        views[order[i] as int].distance_bits is Some,
        match views[order[j] as int].distance_bits {
            Some(d) => views[order[i] as int].distance_bits->0 < d && d & 0x8000_0000u32 == 0,
            None => true,
        },
    ensures
        i < j,
{
    let keys = planet_keys(views, SortMode::Distance);
    assert(order[i] < views.len() && order[j] < views.len());
    let c = views[order[i] as int].distance_bits->0;
    if let Some(d) = views[order[j] as int].distance_bits {
        assert(c < d && d & 0x8000_0000u32 == 0 ==> c & 0x8000_0000u32 == 0 && (c | 0x8000_0000u32)
            < (d | 0x8000_0000u32)) by (bit_vector);
    }
    if j < i {
        assert(key_le(keys[order[j] as int], keys[order[i] as int]));
    }
}

/// Every planet is listed exactly once.
pub proof fn law_each_planet_once(views: Seq<PlanetView>, sort: SortMode, order: Seq<usize>, p: usize)
    requires
        stably_sorted(planet_keys(views, sort), order),
        p < views.len(),
    ensures
        order.contains(p),
        forall|i: int, j: int| 0 <= i < j < order.len() ==> order[i] != order[j],
{
}

fn planet_key_of(v: &PlanetView, sort: SortMode) -> (k: SortKey)
    ensures
        k == planet_key(*v, sort),
{
    let done: u64 = if v.complete {
        1
    } else {
        0
    };
    match sort {
        SortMode::BodyId => (done, v.id as u64, 0),
        SortMode::Value => (done, match v.estimated {
            Some(e) => u64::MAX - e,
            None => u64::MAX,
        }, 0),
        SortMode::Distance => match v.distance_bits {
            Some(bits) => (done, 0, distance_key(bits) as u64),
            None => (done, 1, 0),
        },
    }
}

/// The order in which the planets are listed: a stable sort of their
/// positions by `planet_key`.
pub fn planet_order(views: &Vec<PlanetView>, sort: SortMode) -> (order: Vec<usize>)
    ensures
        stably_sorted(planet_keys(views@, sort), order@),
        order@ == sorted_positions(planet_keys(views@, sort)),
{
    let mut keys: Vec<SortKey> = Vec::new();
    let mut i: usize = 0;
    while i < views.len()
        invariant
            i <= views@.len(),
            keys@ == planet_keys(views@, sort).take(i as int),
        decreases views@.len() - i,
    {
        let k = planet_key_of(&views[i], sort);
        keys.push(k);
        assert(planet_keys(views@, sort).take(i + 1) == planet_keys(views@, sort).take(
            i as int,
        ).push(k));
        i = i + 1;
    }
    assert(planet_keys(views@, sort).take(views@.len() as int) == planet_keys(views@, sort));
    stable_order(&keys)
}

} // verus!
