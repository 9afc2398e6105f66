//! The game-state types of `ed-journals`, `ed-state` and `ed-exobiology`
//! that the library carries, and the calls and field reads it makes on
//! them. These values cannot be looked into here; what a call returns is
//! named as a function of the values it reads, so that callers can say
//! which reads their results come from.
use vstd::prelude::*;

use ed_exobiology::TargetSystem;
use ed_journals::exobiology::{Genus, Species, Variant};
use ed_journals::logs::LogEvent;
use ed_state::state::{EventSink, SinkResult};
use ed_state::system::{PlanetOrganic, PlanetSpeciesEntry, PlanetState, SystemState};

use crate::survey::{SignalCounts, WillSpawn};
use crate::systems::opt_seq;

verus! {

#[verifier::external_type_specification]
#[verifier::external_body]
pub struct ExLogEvent(ed_journals::logs::LogEvent);

#[verifier::external_type_specification]
#[verifier::external_body]
pub struct ExSystemState(ed_state::system::SystemState);

#[verifier::external_type_specification]
#[verifier::external_body]
pub struct ExPlanetState(ed_state::system::PlanetState);

#[verifier::external_type_specification]
#[verifier::external_body]
pub struct ExTargetSystem(ed_exobiology::TargetSystem);

#[verifier::external_type_specification]
#[verifier::external_body]
pub struct ExPlanetSpeciesEntry(ed_state::system::PlanetSpeciesEntry);

#[verifier::external_type_specification]
#[verifier::external_body]
pub struct ExPlanetOrganic(ed_state::system::PlanetOrganic);

#[verifier::external_type_specification]
#[verifier::external_body]
pub struct ExSpecies(ed_journals::exobiology::Species);

#[verifier::external_type_specification]
#[verifier::external_body]
pub struct ExGenus(ed_journals::exobiology::Genus);

#[verifier::external_type_specification]
#[verifier::external_body]
pub struct ExVariant(ed_journals::exobiology::Variant);

/// What a system's state did with an event.
#[derive(Clone, Copy, PartialEq, Eq, Structural, Debug)]
pub enum SinkOutcome {
    /// The event changed nothing.
    Ignored,
    /// The event was taken into the state.
    Accepted,
}


/// The address of the system a journal event places the player in: the
/// `system_address` of `LogEventContent::location_info` (Location, FSDJump
/// and CarrierJump events), none for other events.
pub uninterp spec fn event_address(event: LogEvent) -> Option<u64>;

/// `LogEventContent::system_address` of an event: the system it belongs
/// to, for the events that name one.
pub uninterp spec fn event_system_of(event: LogEvent) -> Option<u64>;

/// `LogEventContent::body_id` of an event: the body it concerns, for the
/// events that name one.
pub uninterp spec fn event_body_of(event: LogEvent) -> Option<u8>;

/// The `star_system` name of `LogEventContent::location_info` (Location,
/// FSDJump and CarrierJump events), none for other events.
pub uninterp spec fn event_star_name(event: LogEvent) -> Option<Seq<char>>;

/// The bodies an event counts: `body_count` of an FSSDiscoveryScan event,
/// `count` of an FSSAllBodiesFound event, none for other events.
pub uninterp spec fn counted_bodies_of(event: LogEvent) -> Option<u8>;

/// The `body_id` of an ApproachBody event, none for other events.
pub uninterp spec fn approached_body_of(event: LogEvent) -> Option<u8>;

/// Whether an event is a LeaveBody event.
pub uninterp spec fn leaves_body(event: LogEvent) -> bool;

/// The `system_address` field of a system state.
pub uninterp spec fn system_address_of(system: SystemState) -> u64;

/// What `EventSink::sink_log` of a system state reports for an event.
pub uninterp spec fn sink_outcome(system: SystemState, event: LogEvent) -> SinkOutcome;

/// `SystemState::nr_of_scanned_bodies` of a system state.
pub uninterp spec fn scanned_count(system: SystemState) -> usize;

/// The `star_system` name of a system state's `location_info`.
pub uninterp spec fn star_name_of(system: SystemState) -> Option<Seq<char>>;

/// The `number_of_bodies` field of a system state.
pub uninterp spec fn body_total_of(system: SystemState) -> Option<u8>;

/// The `near_body` field of a system state.
pub uninterp spec fn near_body_of(system: SystemState) -> Option<u8>;

/// The keys of a system state's `planet_state` map.
pub uninterp spec fn planet_key_set(system: SystemState) -> Set<u8>;

/// The entry of a system state's `planet_state` map for a body id.
pub uninterp spec fn planet_at(system: SystemState, id: u8) -> Option<PlanetState>;

/// Whether a system state's `star_scans` map has a body id.
pub uninterp spec fn star_body(system: SystemState, id: u8) -> bool;

/// Whether a system state's `belt_scans` map has a body id.
pub uninterp spec fn belt_body(system: SystemState, id: u8) -> bool;

/// The `exobiology_system` field of a system state.
pub uninterp spec fn target_of(system: SystemState) -> Option<TargetSystem>;

/// `PlanetState::get_planet_species` of a planet for a target system.
pub uninterp spec fn predicted_entries(planet: PlanetState, target: TargetSystem) -> Seq<
    PlanetSpeciesEntry,
>;

/// `PlanetState::get_lowest_exobiology_value` of a planet for a target
/// system.
pub uninterp spec fn lowest_value_of(planet: PlanetState, target: TargetSystem) -> u64;

/// The `body_name` of a planet state's `scan`.
pub uninterp spec fn scan_name_of(planet: PlanetState) -> Option<Seq<char>>;

/// The `body_name` of a planet state's `saa_scan`.
pub uninterp spec fn saa_name_of(planet: PlanetState) -> Option<Seq<char>>;

/// The bit pattern of `LocalDistance::as_ls` of the `distance_from_arrival`
/// of a planet state's `scan`.
pub uninterp spec fn distance_bits_of(planet: PlanetState) -> Option<u32>;

/// The `landable` flag of a planet state's `exobiology_body`.
pub uninterp spec fn landable_of(planet: PlanetState) -> Option<bool>;

/// The `signal_counts` field of a planet state.
pub uninterp spec fn signals_of(planet: PlanetState) -> Option<SignalCounts>;

/// The entry of a planet state's `organics` map for a genus.
pub uninterp spec fn organic_by_genus(planet: PlanetState, genus: Genus) -> Option<PlanetOrganic>;

/// The values of a planet state's `organics` map.
pub uninterp spec fn organic_values(planet: PlanetState) -> vstd::multiset::Multiset<PlanetOrganic>;

/// The `species` field of a predicted species entry.
pub uninterp spec fn species_of_entry(entry: PlanetSpeciesEntry) -> Species;

/// The `will_spawn` field of a predicted species entry.
pub uninterp spec fn spawn_of(entry: PlanetSpeciesEntry) -> WillSpawn;

/// The `confirmed` field of a predicted species entry.
pub uninterp spec fn confirmed_of(entry: PlanetSpeciesEntry) -> bool;

/// The `completed` field of a predicted species entry.
pub uninterp spec fn completed_of(entry: PlanetSpeciesEntry) -> bool;

/// The `species` field of a scanned organic.
pub uninterp spec fn organic_species_of(organic: PlanetOrganic) -> Species;

/// The `variant` field of a scanned organic.
pub uninterp spec fn organic_variant_of(organic: PlanetOrganic) -> Option<Variant>;

/// `PlanetOrganic::progress_nr` of a scanned organic.
pub uninterp spec fn progress_of(organic: PlanetOrganic) -> u8;

/// `PlanetOrganic::is_completed` of a scanned organic.
pub uninterp spec fn organic_done_of(organic: PlanetOrganic) -> bool;

/// The `Display` text of a species.
pub uninterp spec fn species_text(species: Species) -> Seq<char>;

/// `Species::base_value` of a species.
pub uninterp spec fn base_value_of(species: Species) -> u64;

/// `Species::genus` of a species.
pub uninterp spec fn genus_of(species: Species) -> Genus;

/// `PartialEq::eq` of two species.
pub uninterp spec fn species_eq(a: Species, b: Species) -> bool;

/// The `Display` text of a variant.
pub uninterp spec fn variant_text(variant: Variant) -> Seq<char>;

/// `LogEventContent::location_info` (Location, FSDJump and CarrierJump
/// events) and the `system_address` field of what it returns. For these
/// events `LogEventContent::system_address` gives the same address.
#[verifier::external_body]
pub(crate) fn event_location(event: &LogEvent) -> (r: Option<u64>)
    ensures
        r == event_address(*event),
        r is Some <==> event_star_name(*event) is Some,
        r matches Some(a) ==> event_system_of(*event) == Some(a),
{
    event.content.location_info().map(|info| info.system_address)
}

/// `SystemState::from(u64)`: a fresh state for the system at `address`,
/// which its source builds from `Default` with only the address set: no
/// planets, stars or belt clusters, no name, body count, near body or
/// exobiology data. The state as a whole is not named: it holds hash
/// tables whose hashers std seeds anew for each table.
#[verifier::external_body]
pub(crate) fn new_system(address: u64) -> (r: SystemState)
    ensures
        system_address_of(r) == address,
        planet_key_set(r) == Set::<u8>::empty(),
        forall|id: u8| #[trigger] planet_at(r, id) is None,
        forall|id: u8| !#[trigger] star_body(r, id) && !belt_body(r, id),
        star_name_of(r) is None,
        body_total_of(r) is None,
        near_body_of(r) is None,
        target_of(r) is None,
{
    SystemState::from(address)
}

/// `EventSink::sink_log` of `SystemState`: feeds an event to a system's
/// state and reports whether anything changed. As its source shows, an
/// event that names no system, or another system, changes nothing. One of
/// this system keeps the address; adds the event's body, when it names
/// one, to the planet map and leaves the other planets as they were;
/// records the system's name and starts its exobiology data on the first
/// location event; takes the body count of a discovery scan; and sets the
/// near body on ApproachBody and clears it on LeaveBody. The new state as a
/// whole is not named: it may hold hash tables created on the way, whose
/// hashers std seeds anew for each table.
#[verifier::external_body]
pub(crate) fn sink_system(system: &mut SystemState, event: &LogEvent) -> (r: SinkOutcome)
    ensures
        r == sink_outcome(*old(system), *event),
        event_system_of(*event) != Some(system_address_of(*old(system))) ==> r
            == SinkOutcome::Ignored && *final(system) == *old(system),
        system_address_of(*final(system)) == system_address_of(*old(system)),
        event_system_of(*event) == Some(system_address_of(*old(system)))
            ==> planet_key_set(*final(system)) == match event_body_of(*event) {
            Some(b) => planet_key_set(*old(system)).insert(b),
            None => planet_key_set(*old(system)),
        },
        event_system_of(*event) == Some(system_address_of(*old(system))) ==> forall|id: u8|
            event_body_of(*event) != Some(id) ==> #[trigger] planet_at(*final(system), id)
                == planet_at(*old(system), id),
        event_system_of(*event) == Some(system_address_of(*old(system)))
            ==> star_name_of(*final(system)) == match star_name_of(*old(system)) {
            Some(n) => Some(n),
            None => event_star_name(*event),
        },
        event_system_of(*event) == Some(system_address_of(*old(system))) ==> (target_of(
            *final(system),
        ) is Some <==> target_of(*old(system)) is Some || (star_name_of(*old(system)) is None
            && event_star_name(*event) is Some)),
        event_system_of(*event) == Some(system_address_of(*old(system)))
            ==> body_total_of(*final(system)) == match counted_bodies_of(*event) {
            Some(n) => Some(n),
            None => body_total_of(*old(system)),
        },
        event_system_of(*event) == Some(system_address_of(*old(system)))
            ==> near_body_of(*final(system)) == match approached_body_of(*event) {
            Some(b) => Some(b),
            None => if leaves_body(*event) {
                None
            } else {
                near_body_of(*old(system))
            },
        },
{
    match system.sink_log(event) {
        SinkResult::Accepted => SinkOutcome::Accepted,
        SinkResult::Ignored => SinkOutcome::Ignored,
    }
}

/// `SystemState::nr_of_scanned_bodies`: planets and stars scanned.
#[verifier::external_body]
pub(crate) fn scanned_bodies(system: &SystemState) -> (r: usize)
    ensures
        r == scanned_count(*system),
{
    system.nr_of_scanned_bodies()
}

/// The `star_system` name of the `location_info` field of a system state.
#[verifier::external_body]
pub(crate) fn system_name(system: &SystemState) -> (r: Option<String>)
    ensures
        opt_seq(r) == star_name_of(*system),
{
    system.location_info.as_ref().map(|info| info.star_system.clone())
}

/// The `number_of_bodies` field of a system state.
#[verifier::external_body]
pub(crate) fn body_count(system: &SystemState) -> (r: Option<u8>)
    ensures
        r == body_total_of(*system),
{
    system.number_of_bodies
}

/// The `near_body` field of a system state.
#[verifier::external_body]
pub(crate) fn near_body(system: &SystemState) -> (r: Option<u8>)
    ensures
        r == near_body_of(*system),
{
    system.near_body
}

/// The keys of the `planet_state` map of a system state, in the map's
/// iteration order (which is not stated); a map holds each key once.
#[verifier::external_body]
pub(crate) fn planet_ids(system: &SystemState) -> (r: Vec<u8>)
    ensures
        r@.no_duplicates(),
        r@.to_set() == planet_key_set(*system),
{
    system.planet_state.keys().copied().collect()
}

/// `HashMap::get` on the `planet_state` map of a system state; a key of
/// the map has an entry.
#[verifier::external_body]
pub(crate) fn planet_of(system: &SystemState, id: u8) -> (r: Option<&PlanetState>)
    ensures
        match r {
            Some(p) => planet_at(*system, id) == Some(*p),
            None => planet_at(*system, id) is None,
        },
        r is Some <==> planet_key_set(*system).contains(id),
{
    system.planet_state.get(&id)
}

/// `HashMap::contains_key` on the `star_scans` map of a system state.
#[verifier::external_body]
pub(crate) fn is_star(system: &SystemState, id: u8) -> (r: bool)
    ensures
        r == star_body(*system, id),
{
    system.star_scans.contains_key(&id)
}

/// `HashMap::contains_key` on the `belt_scans` map of a system state.
#[verifier::external_body]
pub(crate) fn is_belt(system: &SystemState, id: u8) -> (r: bool)
    ensures
        r == belt_body(*system, id),
{
    system.belt_scans.contains_key(&id)
}

/// The `exobiology_system` field of a system state.
#[verifier::external_body]
pub(crate) fn target_system(system: &SystemState) -> (r: Option<&TargetSystem>)
    ensures
        match r {
            Some(t) => target_of(*system) == Some(*t),
            None => target_of(*system) is None,
        },
{
    system.exobiology_system.as_ref()
}

/// `PlanetState::get_planet_species`: the species predicted for a planet.
#[verifier::external_body]
pub(crate) fn planet_species(planet: &PlanetState, target: &TargetSystem) -> (r: Vec<
    PlanetSpeciesEntry,
>)
    ensures
        r@ == predicted_entries(*planet, *target),
{
    planet.get_planet_species(target)
}

/// `PlanetState::get_lowest_exobiology_value`: the least a planet's flora
/// is worth on what is known so far. Its source subtracts the number of
/// species predicted to spawn from the planet's biological signal count
/// and sums base values, both without overflow checks; `requires` leaves
/// out the planets where either would overflow.
#[verifier::external_body]
pub(crate) fn lowest_value(planet: &PlanetState, target: &TargetSystem) -> (r: u64)
    requires
        value_computable(*planet, *target),
    ensures
        r == lowest_value_of(*planet, *target),
{
    planet.get_lowest_exobiology_value(target)
}

/// The `body_name` of the `scan` field of a planet state.
#[verifier::external_body]
pub(crate) fn scan_name(planet: &PlanetState) -> (r: Option<String>)
    ensures
        opt_seq(r) == scan_name_of(*planet),
{
    planet.scan.as_ref().map(|scan| scan.body_name.clone())
}

/// The `body_name` of the `saa_scan` field of a planet state.
#[verifier::external_body]
pub(crate) fn saa_name(planet: &PlanetState) -> (r: Option<String>)
    ensures
        opt_seq(r) == saa_name_of(*planet),
{
    planet.saa_scan.as_ref().map(|scan| scan.body_name.clone())
}

/// `LocalDistance::as_ls` on the `distance_from_arrival` of the `scan`
/// field of a planet state, as the bit pattern of the float.
#[verifier::external_body]
pub(crate) fn distance_bits(planet: &PlanetState) -> (r: Option<u32>)
    ensures
        r == distance_bits_of(*planet),
{
    match &planet.scan {
        Some(scan) => Some(scan.distance_from_arrival.as_ls().to_bits()),
        None => None,
    }
}

/// The `landable` flag of the `exobiology_body` field of a planet state.
#[verifier::external_body]
pub(crate) fn landable(planet: &PlanetState) -> (r: Option<bool>)
    ensures
        r == landable_of(*planet),
{
    planet.exobiology_body.as_ref().map(|body| body.landable)
}

/// The `signal_counts` field of a planet state, field by field.
#[verifier::external_body]
pub(crate) fn signal_counts(planet: &PlanetState) -> (r: Option<SignalCounts>)
    ensures
        r == signals_of(*planet),
{
    match &planet.signal_counts {
        Some(c) => Some(
            SignalCounts {
                biological: c.biological_signal_count,
                human: c.human_signal_count,
                geological: c.geological_signal_count,
                thargoid: c.thargoid_signal_count,
                guardian: c.guardian_signal_count,
                other: c.other_signal_count,
            },
        ),
        None => None,
    }
}

/// `HashMap::get` on the `organics` map of a planet state.
#[verifier::external_body]
pub(crate) fn organic_of_genus<'a>(planet: &'a PlanetState, genus: &Genus) -> (r: Option<
    &'a PlanetOrganic,
>)
    ensures
        match r {
            Some(o) => organic_by_genus(*planet, *genus) == Some(*o),
            None => organic_by_genus(*planet, *genus) is None,
        },
{
    planet.organics.get(genus)
}

/// The values of the `organics` map of a planet state, in the map's
/// iteration order (which is not stated).
#[verifier::external_body]
pub(crate) fn organics(planet: &PlanetState) -> (r: Vec<&PlanetOrganic>)
    ensures
        r@.map_values(|o: &PlanetOrganic| *o).to_multiset() == organic_values(*planet),
{
    planet.organics.values().collect()
}

/// The `species` field of a predicted species entry.
#[verifier::external_body]
pub(crate) fn entry_species(entry: &PlanetSpeciesEntry) -> (r: &Species)
    ensures
        *r == species_of_entry(*entry),
{
    &entry.species
}

/// The `will_spawn` field of a predicted species entry, variant by variant.
#[verifier::external_body]
pub(crate) fn entry_spawn(entry: &PlanetSpeciesEntry) -> (r: WillSpawn)
    ensures
        r == spawn_of(*entry),
{
    match entry.will_spawn {
        ed_state::system::WillSpawn::Yes => WillSpawn::Yes,
        ed_state::system::WillSpawn::Maybe => WillSpawn::Maybe,
        ed_state::system::WillSpawn::No => WillSpawn::No,
    }
}

/// The `confirmed` field of a predicted species entry.
#[verifier::external_body]
pub(crate) fn entry_confirmed(entry: &PlanetSpeciesEntry) -> (r: bool)
    ensures
        r == confirmed_of(*entry),
{
    entry.confirmed
}

/// The `completed` field of a predicted species entry.
#[verifier::external_body]
pub(crate) fn entry_completed(entry: &PlanetSpeciesEntry) -> (r: bool)
    ensures
        r == completed_of(*entry),
{
    entry.completed
}

/// The `species` field of a scanned organic.
#[verifier::external_body]
pub(crate) fn organic_species(organic: &PlanetOrganic) -> (r: &Species)
    ensures
        *r == organic_species_of(*organic),
{
    &organic.species
}

/// The `variant` field of a scanned organic.
#[verifier::external_body]
pub(crate) fn organic_variant(organic: &PlanetOrganic) -> (r: Option<&Variant>)
    ensures
        match r {
            Some(v) => organic_variant_of(*organic) == Some(*v),
            None => organic_variant_of(*organic) is None,
        },
{
    organic.variant.as_ref()
}

/// `PlanetOrganic::progress_nr`: how many of three scans are done, which
/// its source gives as 3, 2 or 1.
#[verifier::external_body]
pub(crate) fn organic_progress(organic: &PlanetOrganic) -> (r: u8)
    ensures
        r == progress_of(*organic),
        1 <= r <= 3,
{
    organic.progress_nr()
}

/// `PlanetOrganic::is_completed`: whether the third scan is done.
#[verifier::external_body]
pub(crate) fn organic_completed(organic: &PlanetOrganic) -> (r: bool)
    ensures
        r == organic_done_of(*organic),
{
    organic.is_completed()
}

/// The `Display` text of a species.
#[verifier::external_body]
pub(crate) fn species_name(species: &Species) -> (r: String)
    ensures
        r@ == species_text(*species),
{
    species.to_string()
}

/// `Species::base_value`: what a first logging of the species pays.
#[verifier::external_body]
pub(crate) fn species_value(species: &Species) -> (r: u64)
    ensures
        r == base_value_of(*species),
{
    species.base_value()
}

/// `Species::genus`: the genus a species belongs to.
#[verifier::external_body]
pub(crate) fn species_genus(species: &Species) -> (r: Genus)
    ensures
        r == genus_of(*species),
{
    species.genus()
}

/// `PartialEq::eq` of species.
#[verifier::external_body]
pub(crate) fn same_species(a: &Species, b: &Species) -> (r: bool)
    ensures
        r == species_eq(*a, *b),
{
    a == b
}

/// The `Display` text of a variant.
#[verifier::external_body]
pub(crate) fn variant_name(variant: &Variant) -> (r: String)
    ensures
        r@ == variant_text(*variant),
{
    variant.to_string()
}

// ---------------------------------------------------------------------------
// What a system's state does with an event.
/// `s` is a fresh state for the system at `address`: nothing known of it
/// but its address.
pub open spec fn fresh_system(s: SystemState, address: u64) -> bool {
    &&& system_address_of(s) == address
    &&& planet_key_set(s) == Set::<u8>::empty()
    &&& star_name_of(s) is None
    &&& body_total_of(s) is None
    &&& near_body_of(s) is None
    &&& target_of(s) is None
}

/// `after` is what `before` became by taking in `event`: unchanged when the
/// event belongs to no system or another one; else the address kept, the
/// event's body added to the planet map, the name recorded on the first
/// location event, the body count and the near body followed.
pub open spec fn sunk(before: SystemState, after: SystemState, event: LogEvent) -> bool {
    if event_system_of(event) != Some(system_address_of(before)) {
        after == before
    } else {
        &&& system_address_of(after) == system_address_of(before)
        &&& planet_key_set(after) == match event_body_of(event) {
            Some(b) => planet_key_set(before).insert(b),
            None => planet_key_set(before),
        }
        &&& forall|id: u8|
            event_body_of(event) != Some(id) ==> #[trigger] planet_at(after, id) == planet_at(
                before,
                id,
            )
        &&& star_name_of(after) == match star_name_of(before) {
            Some(n) => Some(n),
            None => event_star_name(event),
        }
        &&& (target_of(after) is Some <==> target_of(before) is Some || (star_name_of(before) is None
            && event_star_name(event) is Some))
        &&& body_total_of(after) == match counted_bodies_of(event) {
            Some(n) => Some(n),
            None => body_total_of(before),
        }
        &&& near_body_of(after) == match approached_body_of(event) {
            Some(b) => Some(b),
            None => if leaves_body(event) {
                None
            } else {
                near_body_of(before)
            },
        }
    }
}

// ---------------------------------------------------------------------------
// When the lowest value can be computed.
/// How many predicted entries are marked as spawning for certain.
pub open spec fn spawning_count(es: Seq<PlanetSpeciesEntry>) -> nat
    decreases es.len(),
{
    if es.len() == 0 {
        0
    } else {
        spawning_count(es.drop_last()) + if spawn_of(es.last()) == WillSpawn::Yes {
            1nat
        } else {
            0nat
        }
    }
}

/// The summed base values of the entries that can still spawn.
pub open spec fn possible_value(es: Seq<PlanetSpeciesEntry>) -> nat
    decreases es.len(),
{
    if es.len() == 0 {
        0
    } else {
        possible_value(es.drop_last()) + if spawn_of(es.last()) == WillSpawn::No {
            0nat
        } else {
            base_value_of(species_of_entry(es.last())) as nat
        }
    }
}

/// The planets whose lowest value `get_lowest_exobiology_value` computes
/// without overflow: no more species marked as spawning than biological
/// signals, and the values of the species that can spawn fit in a `u64`.
pub open spec fn value_computable(planet: PlanetState, target: TargetSystem) -> bool {
    let es = predicted_entries(planet, target);
    &&& match signals_of(planet) {
        Some(c) => spawning_count(es) <= c.biological,
        None => true,
    }
    &&& possible_value(es) <= u64::MAX
}

} // verus!
