//! The systems visited this session, fed from journal events, and the
//! plain models of them that the view is built from.
use vstd::prelude::*;

use std::collections::HashMap;

use ed_journals::logs::LogEvent;
use ed_exobiology::TargetSystem;
use ed_state::system::{PlanetOrganic, PlanetSpeciesEntry, PlanetState, SystemState};

use crate::game::{
    base_value_of, belt_body, body_count, body_total_of, completed_of, confirmed_of,
    distance_bits, distance_bits_of, entry_completed, entry_confirmed, entry_spawn,
    entry_species, event_address, event_location, event_system_of, fresh_system, sunk, system_address_of, genus_of, is_belt, is_star, landable,
    landable_of, lowest_value, lowest_value_of, near_body, near_body_of, new_system,
    organic_by_genus, organic_completed, organic_done_of, organic_of_genus, organic_progress,
    organic_species, organic_species_of, organic_values, organic_variant, organic_variant_of,
    organics, planet_at, planet_ids, planet_key_set, planet_of, planet_species,
    possible_value, predicted_entries, progress_of, saa_name, saa_name_of, same_species,
    scan_name, scan_name_of, scanned_bodies, scanned_count, signal_counts, signals_of,
    sink_outcome, sink_system, spawn_of, spawning_count, species_eq, species_genus,
    species_name, species_of_entry, species_text, species_value, star_body, star_name_of,
    system_name, target_of, target_system, value_computable, variant_name, variant_text,
    SinkOutcome,
};
use crate::screen::{
    footer_line, footer_line_spec, header_line, header_line_spec, list_body_spec, planet_list,
    popup_area, popup_area_spec, popup_lines, popup_lines_spec, popup_title, popup_title_text,
    route_line, route_line_spec, rows_view, spans_view, Area, ListBody, Span,
};
use crate::survey::{
    complete, is_complete, Organic, PlanetView, ScanLevel, SignalCounts, SpeciesEntry,
    SystemSummary, WillSpawn,
};
use crate::text::{decimal, decimal_string};
use crate::ui::{arrived, Ui};

verus! {

broadcast use vstd::std_specs::hash::group_hash_axioms;

/// All systems visited this session, plus the one the player is currently in.
pub struct SystemsState {
    pub systems: HashMap<u64, SystemState>,
    pub current: Option<u64>,
}

/// The current system, when there is one, has a state.
pub open spec fn current_known(s: &SystemsState) -> bool {
    s.current matches Some(a) ==> s.systems@.contains_key(a)
}

/// Each system's state is the one for the address it is kept under.
pub open spec fn keyed_by_address(s: &SystemsState) -> bool {
    forall|k: u64| #[trigger] s.systems@.contains_key(k) ==> system_address_of(s.systems@[k]) == k
}

/// `after` is `before` after taking in `event`: a location event moves to
/// its system, creating a fresh state for it on first sight; the current
/// system's state then takes the event; every other system is kept as it
/// was. Where every state is kept under its own address, that stays so,
/// and a location event leaves its system with a name.
pub open spec fn event_taken(before: &SystemsState, after: &SystemsState, event: LogEvent) -> bool {
    &&& after.current == match event_address(event) {
        Some(a) => Some(a),
        None => before.current,
    }
    &&& event_address(event) matches Some(a) ==> after.systems@.contains_key(a)
    &&& before.systems@.dom().subset_of(after.systems@.dom())
    &&& forall|k: u64|
        #[trigger] after.systems@.contains_key(k) ==> before.systems@.contains_key(k)
            || after.current == Some(k)
    &&& forall|k: u64|
        #[trigger] before.systems@.contains_key(k) && after.current != Some(k)
            ==> after.systems@[k] == before.systems@[k]
    &&& after.current is None ==> after.systems@ == before.systems@
    &&& after.current matches Some(c) ==> (before.systems@.contains_key(c) ==> sunk(
        before.systems@[c],
        after.systems@[c],
        event,
    ))
    &&& event_address(event) matches Some(a) ==> (!before.systems@.contains_key(a) ==> exists|
        fresh: SystemState,
    | #[trigger] fresh_system(fresh, a) && sunk(fresh, after.systems@[a], event))
    &&& current_known(before) ==> current_known(after)
    &&& keyed_by_address(before) ==> keyed_by_address(after)
    &&& keyed_by_address(before) ==> (event_address(event) matches Some(a) ==> star_name_of(
        after.systems@[a],
    ) is Some)
}

impl Default for SystemsState {
    fn default() -> (s: SystemsState)
        ensures
            s.systems@ == Map::<u64, SystemState>::empty(),
            s.current is None,
            keyed_by_address(&s),
    {
        SystemsState { systems: HashMap::new(), current: None }
    }
}

impl SystemsState {
    /// Moves the player to the system at `address`, creating its state on
    /// first sight; `None` leaves everything as it is.
    pub fn enter_location(&mut self, address: Option<u64>)
        ensures
            address is None ==> final(self).systems@ == old(self).systems@ && final(self).current
                == old(self).current,
            address matches Some(a) ==> {
                &&& final(self).current == Some(a)
                &&& old(self).systems@.contains_key(a) ==> final(self).systems@ == old(self).systems@
                &&& !old(self).systems@.contains_key(a) ==> {
                    &&& final(self).systems@ == old(self).systems@.insert(a, final(self).systems@[a])
                    &&& fresh_system(final(self).systems@[a], a)
                }
            },
            keyed_by_address(old(self)) ==> keyed_by_address(final(self)),
    {
        if let Some(a) = address {
            self.current = Some(a);
            if !self.systems.contains_key(&a) {
                let fresh = new_system(a);
                self.systems.insert(a, fresh);
            }
        }
    }

    /// Feeds an event to the state of the current system, which ignores
    /// what does not belong to it; without a current system nothing happens.
    pub fn forward(&mut self, event: &LogEvent) -> (r: SinkOutcome)
        ensures
            final(self).current == old(self).current,
            final(self).systems@.dom() == old(self).systems@.dom(),
            forall|k: u64|
                #![trigger old(self).systems@.contains_key(k)]
                old(self).current != Some(k) && old(self).systems@.contains_key(k) ==> final(self).systems@[k] == old(self).systems@[k],
            !current_known(old(self)) || old(self).current is None ==> r == SinkOutcome::Ignored
                && final(self).systems@ == old(self).systems@,
            old(self).current matches Some(a) ==> (old(self).systems@.contains_key(a) ==> r
                == sink_outcome(old(self).systems@[a], *event) && sunk(
                old(self).systems@[a],
                final(self).systems@[a],
                *event,
            )),
            keyed_by_address(old(self)) ==> keyed_by_address(final(self)),
    {
        match self.current {
            None => SinkOutcome::Ignored,
            Some(a) => match self.systems.remove(&a) {
                None => SinkOutcome::Ignored,
                Some(system) => {
                    let mut system = system;
                    let r = sink_system(&mut system, event);
                    self.systems.insert(a, system);
                    assert(self.systems@.dom() =~= old(self).systems@.dom());
                    r
                },
            },
        }
    }

    /// Takes a journal event in: location events (Location, FSDJump,
    /// CarrierJump) switch to their system, creating it on first sight;
    /// then the event goes to the current system's state.
    pub fn sink_log(&mut self, event: &LogEvent) -> (r: SinkOutcome)
        ensures
            event_taken(old(self), final(self), *event),
            final(self).current is None ==> r == SinkOutcome::Ignored,
            final(self).current matches Some(c) ==> (old(self).systems@.contains_key(c) ==> r
                == sink_outcome(old(self).systems@[c], *event)),
    {
        let address = event_location(event);
        self.enter_location(address);
        let ghost mid = self.systems@;
        assert forall|k: u64|
            #![trigger old(self).systems@.contains_key(k)]
            old(self).systems@.contains_key(k) && self.current != Some(k) implies mid.contains_key(k)
                && mid[k] == old(self).systems@[k] by {
            if let Some(a) = address {
                if !old(self).systems@.contains_key(a) {
                    assert(mid == old(self).systems@.insert(a, mid[a]));
                }
            }
        }
        let r = self.forward(event);
        proof {
            let before = old(self).systems@;
            let after = self.systems@;
            if let Some(a) = address {
                if !before.contains_key(a) {
                    assert(fresh_system(mid[a], a) && sunk(mid[a], after[a], *event));
                }
            }
            if keyed_by_address(old(self)) {
                assert forall|k: u64| #[trigger] after.contains_key(k) implies system_address_of(after[k]) == k by {
                    if self.current != Some(k) {
                        assert(before.contains_key(k));
                    }
                }
                if let Some(a) = address {
                    assert(event_system_of(*event) == Some(a));
                    assert(system_address_of(mid[a]) == a);
                }
            }
            assert(before.dom().subset_of(after.dom()));
        }
        r
    }
}

/// Takes a journal event in and moves a loaded route along: a location
/// event for a system on the route ticks off everything up to it. Returns
/// the name of the next destination to put on the clipboard, if a stop was
/// ticked off and the route goes on.
pub fn take_event(systems: &mut SystemsState, ui: &mut Ui, event: &LogEvent) -> (r: Option<String>)
    ensures
        final(ui)@.scroll == old(ui)@.scroll,
        final(ui)@.sort == old(ui)@.sort,
        final(ui)@.threshold == old(ui)@.threshold,
        final(ui)@.input == old(ui)@.input,
        old(ui)@.route is None ==> final(ui)@.route is None && r is None,
        (final(ui)@.route, opt_seq(r)) == match event_address(*event) {
            Some(a) => arrived(old(ui)@.route, a),
            None => (old(ui)@.route, None),
        },
        event_taken(old(systems), final(systems), *event),
{
    systems.sink_log(event);
    let arrived = event_location(event);
    match arrived {
        Some(address) => ui.arrive(address),
        None => None,
    }
}

// ---------------------------------------------------------------------------
// Plain models of a system's planets.
/// A planet's display name: its detailed scan's body name, else its
/// surface mapping scan's, else `Body <id>`.
pub open spec fn planet_name_spec(id: u8, scan: Option<Seq<char>>, saa: Option<Seq<char>>) -> Seq<
    char,
> {
    match scan {
        Some(n) => n,
        None => match saa {
            Some(n) => n,
            None => "Body "@ + decimal(id as nat),
        },
    }
}

/// The most detailed scan a planet has had, from which scans exist.
pub open spec fn scan_level_spec(has_scan: bool, has_saa: bool) -> ScanLevel {
    if has_scan {
        ScanLevel::Full
    } else if has_saa {
        ScanLevel::Saa
    } else {
        ScanLevel::Fss
    }
}

/// The text of an optional string.
pub open spec fn opt_seq(s: Option<String>) -> Option<Seq<char>> {
    match s {
        Some(t) => Some(t@),
        None => None,
    }
}

/// Builds a planet's model from what is known of it: the name from the
/// scans, the scan level, and whether its checklist is complete.
pub fn planet_view(
    id: u8,
    scan: Option<String>,
    saa: Option<String>,
    entries: Vec<SpeciesEntry>,
    unpredicted: Vec<Organic>,
    estimated: Option<u64>,
    distance_bits: Option<u32>,
    landable: Option<bool>,
    signals: Option<SignalCounts>,
    threshold: u64,
) -> (v: PlanetView)
    ensures
        v.id == id,
        v.name@ == planet_name_spec(id, opt_seq(scan), opt_seq(saa)),
        v.scan == scan_level_spec(scan is Some, saa is Some),
        v.entries@ == entries@,
        v.unpredicted@ == unpredicted@,
        v.complete == complete(entries@, threshold),
        v.estimated == estimated,
        v.distance_bits == distance_bits,
        v.landable == landable,
        v.signals == signals,
{
    let level = if scan.is_some() {
        ScanLevel::Full
    } else if saa.is_some() {
        ScanLevel::Saa
    } else {
        ScanLevel::Fss
    };
    let name = match scan {
        Some(n) => n,
        None => match saa {
            Some(n) => n,
            None => {
                let mut n = String::from_str("Body ");
                let d = decimal_string(id as u64);
                n.append(d.as_str());
                n
            },
        },
    };
    let done = is_complete(entries.as_slice(), threshold);
    PlanetView {
        id,
        name,
        entries,
        unpredicted,
        complete: done,
        estimated,
        distance_bits,
        landable,
        scan: level,
        signals,
    }
}

/// The species predicted for a planet of a system: none while the
/// system's exobiology data is missing.
pub open spec fn predicted_of(system: SystemState, planet: PlanetState) -> Seq<
    PlanetSpeciesEntry,
> {
    match target_of(system) {
        Some(t) => predicted_entries(planet, t),
        None => Seq::empty(),
    }
}

/// The least a planet's flora is worth as the view shows it: zero while
/// the system's exobiology data is missing, none where the value cannot be
/// computed.
pub open spec fn estimate_of(system: SystemState, planet: PlanetState) -> Option<u64> {
    match target_of(system) {
        None => Some(0),
        Some(t) => if value_computable(planet, t) {
            Some(lowest_value_of(planet, t))
        } else {
            None
        },
    }
}

/// Where the system has exobiology data, the planet has no more species
/// predicted to spawn for certain than biological signals (or no signal
/// count at all), and the values of the species that can spawn sum within
/// a `u64`, the estimate is the planet's lowest value as ed-state computes
/// it; with as many certain species as signals too.
pub proof fn law_estimate_known(system: SystemState, planet: PlanetState, target: TargetSystem)
    requires
        target_of(system) == Some(target),
        match signals_of(planet) {
            Some(c) => spawning_count(predicted_entries(planet, target)) <= c.biological,
            None => true,
        },
        possible_value(predicted_entries(planet, target)) <= u64::MAX,
    ensures
        estimate_of(system, planet) == Some(lowest_value_of(planet, target)),
{
}

/// The estimate is unknown only where ed-state's computation would
/// overflow: more species predicted to spawn for certain than biological
/// signals, or spawnable values summing past a `u64`; and it is zero
/// while the system has no exobiology data.
pub proof fn law_estimate_unknown(system: SystemState, planet: PlanetState)
    ensures
        target_of(system) is None ==> estimate_of(system, planet) == Some(0u64),
        target_of(system) matches Some(t) ==> (estimate_of(system, planet) is None <==> (
        possible_value(predicted_entries(planet, t)) > u64::MAX || (signals_of(planet) matches Some(
            c,
        ) && spawning_count(predicted_entries(planet, t)) > c.biological))),
{
}

/// `m` is what the view reads of the predicted entry `e` on `planet`: the
/// entry's own fields, and the variant and scan count of the planet's
/// organic of the same genus.
pub open spec fn models_entry(planet: PlanetState, e: PlanetSpeciesEntry, m: SpeciesEntry) -> bool {
    let sp = species_of_entry(e);
    let found = organic_by_genus(planet, genus_of(sp));
    &&& m.name@ == species_text(sp)
    &&& m.base_value == base_value_of(sp)
    &&& m.will_spawn == spawn_of(e)
    &&& m.confirmed == confirmed_of(e)
    &&& m.completed == completed_of(e)
    &&& opt_seq(m.genus_variant) == match found {
        Some(o) => match organic_variant_of(o) {
            Some(v) => Some(variant_text(v)),
            None => None,
        },
        None => None,
    }
    &&& m.genus_progress == match found {
        Some(o) => Some(progress_of(o)),
        None => None,
    }
}

/// Some entry of `preds` names the species of the organic `o`.
pub open spec fn listed(preds: Seq<PlanetSpeciesEntry>, o: PlanetOrganic) -> bool {
    exists|j: int|
        0 <= j < preds.len() && #[trigger] species_eq(
            species_of_entry(preds[j]),
            organic_species_of(o),
        )
}

/// `m` is what the view reads of the scanned organic `o`.
pub open spec fn models_organic(o: PlanetOrganic, m: Organic) -> bool {
    let sp = organic_species_of(o);
    &&& m.name@ == species_text(sp)
    &&& m.base_value == base_value_of(sp)
    &&& m.completed == organic_done_of(o)
    &&& m.progress == progress_of(o)
}

/// `out` models, in order, the organics of `os` that `preds` does not list.
pub open spec fn unlisted_models(
    os: Seq<PlanetOrganic>,
    preds: Seq<PlanetSpeciesEntry>,
    out: Seq<Organic>,
) -> bool
    decreases os.len(),
{
    if os.len() == 0 {
        out.len() == 0
    } else if listed(preds, os.last()) {
        unlisted_models(os.drop_last(), preds, out)
    } else {
        &&& out.len() > 0
        &&& models_organic(os.last(), out.last())
        &&& unlisted_models(os.drop_last(), preds, out.drop_last())
    }
}

/// A body of the system's planet map that is no star and no belt cluster.
pub open spec fn kept_body(system: SystemState, id: u8) -> bool {
    &&& !star_body(system, id)
    &&& !belt_body(system, id)
    &&& planet_at(system, id) is Some
}

/// `v` is the model of the planet `id` of `system` at `threshold`.
pub open spec fn models_view(system: SystemState, id: u8, threshold: u64, v: PlanetView) -> bool {
    let p = planet_at(system, id)->0;
    let preds = predicted_of(system, p);
    &&& v.id == id
    &&& v.name@ == planet_name_spec(id, scan_name_of(p), saa_name_of(p))
    &&& v.scan == scan_level_spec(scan_name_of(p) is Some, saa_name_of(p) is Some)
    &&& v.distance_bits == distance_bits_of(p)
    &&& v.landable == landable_of(p)
    &&& v.signals == signals_of(p)
    &&& v.estimated == estimate_of(system, p)
    &&& v.entries@.len() == preds.len()
    &&& forall|k: int| 0 <= k < preds.len() ==> models_entry(p, preds[k], #[trigger] v.entries@[k])
    &&& exists|os: Seq<PlanetOrganic>|
        #![trigger unlisted_models(os, preds, v.unpredicted@)]
        os.to_multiset() == organic_values(p) && unlisted_models(os, preds, v.unpredicted@)
    &&& v.complete == complete(v.entries@, threshold)
}

/// `views` models, in order, the bodies of `ids` that are planets.
pub open spec fn views_match(system: SystemState, ids: Seq<u8>, threshold: u64, views: Seq<PlanetView>) -> bool
    decreases ids.len(),
{
    if ids.len() == 0 {
        views.len() == 0
    } else if kept_body(system, ids.last()) {
        &&& views.len() > 0
        &&& models_view(system, ids.last(), threshold, views.last())
        &&& views_match(system, ids.drop_last(), threshold, views.drop_last())
    } else {
        views_match(system, ids.drop_last(), threshold, views)
    }
}

/// The planet models of a system are those of the bodies of its planet
/// map that are neither stars nor belt clusters: each such body has a
/// model with its id, and each model is of such a body, with the planet's
/// name and its lowest value as the view shows it.
pub proof fn law_views_list_planets(
    system: SystemState,
    ids: Seq<u8>,
    threshold: u64,
    views: Seq<PlanetView>,
)
    requires
        views_match(system, ids, threshold, views),
    ensures
        forall|i: int|
            0 <= i < views.len() ==> {
                let id = (#[trigger] views[i]).id;
                &&& ids.contains(id)
                &&& !star_body(system, id)
                &&& !belt_body(system, id)
                &&& planet_at(system, id) is Some
                &&& views[i].name@ == planet_name_spec(
                    id,
                    scan_name_of(planet_at(system, id)->0),
                    saa_name_of(planet_at(system, id)->0),
                )
                &&& views[i].estimated == estimate_of(system, planet_at(system, id)->0)
            },
        forall|k: int|
            0 <= k < ids.len() && !star_body(system, #[trigger] ids[k]) && !belt_body(system, ids[k])
                && planet_at(system, ids[k]) is Some ==> exists|i: int|
                0 <= i < views.len() && (#[trigger] views[i]).id == ids[k],
    decreases ids.len(),
{
    if ids.len() > 0 {
        let last = ids.last();
        let pre = ids.drop_last();
        if kept_body(system, last) {
            law_views_list_planets(system, pre, threshold, views.drop_last());
            assert forall|i: int| 0 <= i < views.len() implies ids.contains((#[trigger] views[i]).id)
                by {
                if i < views.len() - 1 {
                    assert(views[i] == views.drop_last()[i]);
                    let m = choose|m: int| 0 <= m < pre.len() && pre[m] == views[i].id;
                    assert(ids[m] == pre[m]);
                } else {
                    assert(ids[ids.len() - 1] == last);
                }
            }
            assert forall|k: int|
                0 <= k < ids.len() && !star_body(system, #[trigger] ids[k]) && !belt_body(
                    system,
                    ids[k],
                ) && planet_at(system, ids[k]) is Some implies exists|i: int|
                0 <= i < views.len() && (#[trigger] views[i]).id == ids[k] by {
                if k < ids.len() - 1 {
                    assert(ids[k] == pre[k]);
                    let i = choose|i: int|
                        0 <= i < views.drop_last().len() && (#[trigger] views.drop_last()[i]).id
                            == pre[k];
                    assert(views[i] == views.drop_last()[i]);
                } else {
                    assert(views[views.len() - 1] == views.last());
                }
            }
            assert forall|i: int| 0 <= i < views.len() - 1 implies views[i] == views.drop_last()[i] by {}
        } else {
            law_views_list_planets(system, pre, threshold, views);
            assert forall|i: int| 0 <= i < views.len() implies ids.contains((#[trigger] views[i]).id)
                by {
                let m = choose|m: int| 0 <= m < pre.len() && pre[m] == views[i].id;
                assert(ids[m] == pre[m]);
            }
            assert forall|k: int|
                0 <= k < ids.len() && !star_body(system, #[trigger] ids[k]) && !belt_body(
                    system,
                    ids[k],
                ) && planet_at(system, ids[k]) is Some implies exists|i: int|
                0 <= i < views.len() && (#[trigger] views[i]).id == ids[k] by {
                assert(k < ids.len() - 1);
                assert(ids[k] == pre[k]);
            }
        }
    }
}

/// `s` is what the header reads of `system`.
pub open spec fn models_summary(system: SystemState, s: SystemSummary) -> bool {
    &&& opt_seq(s.star_name) == star_name_of(system)
    &&& s.scanned == scanned_count(system)
    &&& s.total == body_total_of(system)
    &&& s.near == near_body_of(system)
}

/// The species predicted for a planet; none while the system's
/// exobiology data is missing.
fn predicted(system: &SystemState, planet: &PlanetState) -> (r: Vec<PlanetSpeciesEntry>)
    ensures
        r@ == predicted_of(*system, *planet),
{
    match target_system(system) {
        Some(target) => planet_species(planet, target),
        None => Vec::new(),
    }
}

proof fn lemma_prefix_counts(es: Seq<PlanetSpeciesEntry>, i: int)
    requires
        0 <= i <= es.len(),
    ensures
        spawning_count(es.take(i)) <= spawning_count(es),
        possible_value(es.take(i)) <= possible_value(es),
    decreases es.len() - i,
{
    if i < es.len() {
        lemma_prefix_counts(es, i + 1);
        assert(es.take(i + 1).drop_last() =~= es.take(i));
    } else {
        assert(es.take(i) =~= es);
    }
}

/// Whether `PlanetState::get_lowest_exobiology_value` computes the
/// planet's value without overflow.
fn value_check(planet: &PlanetState, target: &TargetSystem) -> (r: bool)
    ensures
        r == value_computable(*planet, *target),
{
    let es = planet_species(planet, target);
    let mut yes: usize = 0;
    let mut total: u64 = 0;
    let mut i: usize = 0;
    while i < es.len()
        invariant
            i <= es@.len(),
            yes <= i,
            es@ == predicted_entries(*planet, *target),
            yes as nat == spawning_count(es@.take(i as int)),
            total as nat == possible_value(es@.take(i as int)),
        decreases es.len() - i,
    {
        proof {
            assert(es@.take(i + 1).drop_last() =~= es@.take(i as int));
            lemma_prefix_counts(es@, i as int);
        }
        let species = entry_species(&es[i]);
        match entry_spawn(&es[i]) {
            WillSpawn::No => {},
            spawn => {
                if spawn == WillSpawn::Yes {
                    yes = yes + 1;
                }
                match total.checked_add(species_value(species)) {
                    Some(t) => total = t,
                    None => {
                        proof {
                            lemma_prefix_counts(es@, i + 1);
                        }
                        return false;
                    },
                }
            },
        }
        i = i + 1;
    }
    proof {
        assert(es@.take(i as int) =~= es@);
    }
    match signal_counts(planet) {
        Some(c) => yes <= c.biological,
        None => true,
    }
}

/// The least a planet's flora is worth: zero while the system's
/// exobiology data is missing, and none where its value would overflow.
pub fn estimated_value(system: &SystemState, planet: &PlanetState) -> (r: Option<u64>)
    ensures
        r == estimate_of(*system, *planet),
{
    match target_system(system) {
        Some(target) => if value_check(planet, target) {
            Some(lowest_value(planet, target))
        } else {
            None
        },
        None => Some(0),
    }
}

/// A predicted entry as the view reads it, with the planet's organic of
/// the same genus: its variant name and its scan count (1 to 3) both come
/// from that one organic, so there is no variant without a count.
fn entry_model(planet: &PlanetState, entry: &PlanetSpeciesEntry) -> (r: SpeciesEntry)
    ensures
        models_entry(*planet, *entry, r),
        r.genus_progress matches Some(p) ==> 1 <= p <= 3,
        r.genus_variant is Some ==> r.genus_progress is Some,
{
    let species = entry_species(entry);
    let genus = species_genus(species);
    let organic = organic_of_genus(planet, &genus);
    let genus_variant = match organic {
        Some(o) => match organic_variant(o) {
            Some(v) => Some(variant_name(v)),
            None => None,
        },
        None => None,
    };
    let genus_progress = match organic {
        Some(o) => Some(organic_progress(o)),
        None => None,
    };
    SpeciesEntry {
        name: species_name(species),
        base_value: species_value(species),
        will_spawn: entry_spawn(entry),
        confirmed: entry_confirmed(entry),
        completed: entry_completed(entry),
        genus_variant,
        genus_progress,
    }
}

/// The scanned organics of a planet that no predicted entry names, each
/// with its scan count (1 to 3), in the order the planet's map holds them.
fn unpredicted_organics(planet: &PlanetState, predicted: &Vec<PlanetSpeciesEntry>) -> (out: Vec<
    Organic,
>)
    ensures
        exists|os: Seq<PlanetOrganic>|
            #![trigger unlisted_models(os, predicted@, out@)]
            os.to_multiset() == organic_values(*planet) && unlisted_models(os, predicted@, out@),
        forall|k: int| 0 <= k < out@.len() ==> 1 <= (#[trigger] out@[k]).progress <= 3,
{
    let found = organics(planet);
    let ghost os = found@.map_values(|o: &PlanetOrganic| *o);
    let mut out: Vec<Organic> = Vec::new();
    let mut i: usize = 0;
    while i < found.len()
        invariant
            i <= found@.len(),
            os == found@.map_values(|o: &PlanetOrganic| *o),
            unlisted_models(os.take(i as int), predicted@, out@),
            forall|k: int| 0 <= k < out@.len() ==> 1 <= (#[trigger] out@[k]).progress <= 3,
        decreases found.len() - i,
    {
        let o = found[i];
        let species = organic_species(o);
        let mut listed_here = false;
        let mut j: usize = 0;
        while j < predicted.len()
            invariant
                j <= predicted@.len(),
                *species == organic_species_of(os[i as int]),
                listed_here == exists|m: int|
                    0 <= m < j && #[trigger] species_eq(
                        species_of_entry(predicted@[m]),
                        organic_species_of(os[i as int]),
                    ),
            decreases predicted.len() - j,
        {
            if same_species(entry_species(&predicted[j]), species) {
                listed_here = true;
            }
            j = j + 1;
        }
        assert(os.take(i + 1).drop_last() =~= os.take(i as int));
        if !listed_here {
            let m = Organic {
                name: species_name(species),
                base_value: species_value(species),
                completed: organic_completed(o),
                progress: organic_progress(o),
            };
            let ghost before = out@;
            out.push(m);
            assert(out@.drop_last() =~= before);
        }
        i = i + 1;
    }
    assert(os.take(found@.len() as int) =~= os);
    out
}

/// Models of a system's planets, in the order its state holds them; stars
/// and belt clusters, which get a planet entry too, are left out.
pub fn build_views(system: &SystemState, threshold: u64) -> (views: Vec<PlanetView>)
    ensures
        exists|ids: Seq<u8>|
            #![trigger views_match(*system, ids, threshold, views@)]
            ids.no_duplicates() && ids.to_set() == planet_key_set(*system) && views_match(
                *system,
                ids,
                threshold,
                views@,
            ),
        forall|i: int|
            0 <= i < views@.len() ==> (#[trigger] views@[i]).complete == complete(
                views@[i].entries@,
                threshold,
            ),
        forall|i: int|
            0 <= i < views@.len() && (#[trigger] views@[i]).scan == ScanLevel::Fss ==> views@[i].name@
                == "Body "@ + decimal(views@[i].id as nat),
        forall|i: int, j: int|
            0 <= i < j < views@.len() ==> (#[trigger] views@[i]).id != (#[trigger] views@[j]).id,
{
    let ids = planet_ids(system);
    let mut views: Vec<PlanetView> = Vec::new();
    let mut k: usize = 0;
    while k < ids.len()
        invariant
            k <= ids@.len(),
            ids@.no_duplicates(),
            views_match(*system, ids@.take(k as int), threshold, views@),
            forall|i: int|
                0 <= i < views@.len() ==> (#[trigger] views@[i]).complete == complete(
                    views@[i].entries@,
                    threshold,
                ),
            forall|i: int|
                0 <= i < views@.len() && (#[trigger] views@[i]).scan == ScanLevel::Fss
                    ==> views@[i].name@ == "Body "@ + decimal(views@[i].id as nat),
            forall|i: int|
                0 <= i < views@.len() ==> exists|j: int|
                    0 <= j < k && ids@[j] == (#[trigger] views@[i]).id,
            forall|i: int, j: int|
                0 <= i < j < views@.len() ==> (#[trigger] views@[i]).id != (
                #[trigger] views@[j]).id,
        decreases ids@.len() - k,
    {
        let id = ids[k];
        assert(ids@.take(k + 1).drop_last() =~= ids@.take(k as int));
        let star = is_star(system, id);
        let belt = is_belt(system, id);
        let found = planet_of(system, id);
        if !star && !belt && found.is_some() {
            let planet = found.unwrap();
            let raw = predicted(system, planet);
            let mut entries: Vec<SpeciesEntry> = Vec::new();
            let mut i: usize = 0;
            while i < raw.len()
                invariant
                    i <= raw@.len(),
                    entries@.len() == i,
                    forall|m: int| 0 <= m < i ==> models_entry(*planet, raw@[m], #[trigger] entries@[m]),
                decreases raw.len() - i,
            {
                entries.push(entry_model(planet, &raw[i]));
                i = i + 1;
            }
            let extra = unpredicted_organics(planet, &raw);
            let view = planet_view(
                id,
                scan_name(planet),
                saa_name(planet),
                entries,
                extra,
                estimated_value(system, planet),
                distance_bits(planet),
                landable(planet),
                signal_counts(planet),
                threshold,
            );
            proof {
                assert forall|i: int| 0 <= i < views@.len() implies (#[trigger] views@[i]).id != id by {
                    let j = choose|j: int| 0 <= j < k && ids@[j] == views@[i].id;
                    assert(ids@[j] != ids@[k as int]);
                }
            }
            let ghost before = views@;
            views.push(view);
            assert(views@.drop_last() =~= before);
        }
        k = k + 1;
    }
    assert(ids@.take(ids@.len() as int) =~= ids@);
    views
}

/// What the header reads about a system.
fn system_summary(system: &SystemState) -> (s: SystemSummary)
    ensures
        models_summary(*system, s),
{
    SystemSummary {
        star_name: system_name(system),
        scanned: scanned_bodies(system),
        total: body_count(system),
        near: near_body(system),
    }
}

// ---------------------------------------------------------------------------
// One frame of the view.
/// An open input popup as drawn: where, its title and its lines.
pub struct Popup {
    pub area: Area,
    pub title: String,
    pub lines: Vec<Vec<Span>>,
}

/// Everything one frame shows, with the models it was made from.
pub struct Screen {
    /// What the header read about the current system, if there is one.
    pub summary: Option<SystemSummary>,
    /// The current system's planets, in the order its state holds them.
    pub views: Vec<PlanetView>,
    pub header: Vec<Span>,
    pub body: ListBody,
    pub footer: Vec<Span>,
    /// The route panel, while a route is loaded.
    pub route: Option<Vec<Span>>,
    pub popup: Option<Popup>,
}

/// The frame for the current system on a screen of `area` with
/// `list_height` lines for the planet list. Entering another system than
/// the last frame showed puts the list back at its top.
pub fn compose(systems: &SystemsState, ui: &mut Ui, list_height: usize, area: Area) -> (screen:
    Screen)
    requires
        old(ui).last_system == systems.current ==> (systems.current matches Some(a) ==> (
        systems.systems@.contains_key(a) ==> (near_body_of(systems.systems@[a]) is Some
            ==> old(ui).scroll + list_height <= usize::MAX))),
        old(ui).input is Some ==> area.x + area.width <= u16::MAX && area.y + area.height
            <= u16::MAX,
    ensures
        final(ui).last_system == systems.current,
        final(ui).journal_dir == old(ui).journal_dir,
        final(ui).sort == old(ui).sort,
        final(ui).threshold == old(ui).threshold,
        final(ui).input == old(ui).input,
        screen.summary is Some <==> (systems.current matches Some(a) && systems.systems@.contains_key(a)),
        screen.summary is None ==> screen.views@.len() == 0,
        screen.summary matches Some(s) ==> models_summary(systems.systems@[systems.current->0], s),
        systems.current matches Some(a) ==> (systems.systems@.contains_key(a) ==> exists|
            ids: Seq<u8>,
        |
            #![trigger views_match(systems.systems@[a], ids, old(ui).threshold, screen.views@)]
            ids.no_duplicates() && ids.to_set() == planet_key_set(systems.systems@[a])
                && views_match(systems.systems@[a], ids, old(ui).threshold, screen.views@)),
        forall|i: int|
            0 <= i < screen.views@.len() ==> (#[trigger] screen.views@[i]).complete == complete(
                screen.views@[i].entries@,
                old(ui).threshold,
            ),
        spans_view(screen.header@) == header_line_spec(
            screen.summary,
            screen.views@,
            old(ui).sort,
            old(ui).threshold,
        ),
        list_body_spec(
            screen.summary,
            screen.views@,
            old(ui).sort,
            old(ui).threshold,
            if old(ui).last_system == systems.current {
                old(ui).scroll as nat
            } else {
                0
            },
            list_height as nat,
            screen.body,
            final(ui).scroll as nat,
        ),
        final(ui)@.route == old(ui)@.route,
        spans_view(screen.footer@) == footer_line_spec(old(ui).sort, old(ui).journal_dir@),
        screen.route is Some <==> old(ui)@.route is Some,
        screen.route matches Some(r) ==> spans_view(r@) == route_line_spec(old(ui)@.route->0),
        screen.popup is Some <==> old(ui).input is Some,
        screen.popup matches Some(p) ==> {
            &&& p.area == popup_area_spec(area)
            &&& p.title@ == popup_title(old(ui)@.input->0.purpose)
            &&& rows_view(p.lines@) == popup_lines_spec(
                old(ui)@.input->0.buffer,
                old(ui)@.input->0.error,
            )
        },
{
    let address = systems.current;
    ui.enter_system(address);
    let system: Option<&SystemState> = match address {
        Some(a) => systems.systems.get(&a),
        None => None,
    };
    let (summary, views) = match system {
        Some(s) => (Some(system_summary(s)), build_views(s, ui.threshold)),
        None => (None, Vec::new()),
    };
    let header = header_line(summary.as_ref(), &views, ui);
    let body = planet_list(summary.as_ref(), &views, ui, list_height);
    let footer = footer_line(ui);
    let route = match &ui.route {
        Some(r) => Some(route_line(r)),
        None => None,
    };
    let popup = match &ui.input {
        Some(input) => Some(
            Popup {
                area: popup_area(area),
                title: popup_title_text(input.purpose),
                lines: popup_lines(input),
            },
        ),
        None => None,
    };
    Screen { summary, views, header, body, footer, route, popup }
}

} // verus!
