//! A loaded route: its ordered stops and how many of them are done.
use vstd::prelude::*;

use crate::text::{is_u64_text, parse_u64, u64_text_value};

verus! {

/// One stop on a loaded route: the system name (for display and the
/// clipboard) and the address (for matching journal location events).
pub struct Stop {
    pub name: String,
    pub address: u64,
    pub jumps: u32,
}

/// A stop as the route file lists it, before its address is read.
pub struct RawStop {
    pub system: String,
    pub id64: String,
    pub jumps: u32,
}

/// Why a list of raw stops is not a route.
pub enum RouteError {
    /// The address text of a stop is not an unsigned 64-bit integer.
    BadAddress(String),
    /// The route has no stops.
    Empty,
}

/// A loaded route: ordered stops plus how many of them are done. The order
/// is strict: entering the stop at index i ticks off everything up to and
/// including i, so no state needs to persist between sessions.
pub struct Route {
    stops: Vec<Stop>,
    visited: usize,
}

/// The first index at or after `from` whose stop has `address`.
pub open spec fn first_match(stops: Seq<Stop>, from: int, address: u64) -> Option<int>
    decreases stops.len() - from,
{
    if from < 0 || from >= stops.len() {
        None
    } else if stops[from].address == address {
        Some(from)
    } else {
        first_match(stops, from + 1, address)
    }
}

/// The first match at or after `from` is a stop with that address, no
/// earlier stop from `from` on has it, and there is a match exactly when
/// some stop from `from` on has the address.
pub proof fn lemma_first_match(stops: Seq<Stop>, from: int, address: u64)
    requires
        0 <= from,
    ensures
        first_match(stops, from, address) is Some <==> exists|j: int|
            from <= j < stops.len() && (#[trigger] stops[j]).address == address,
        first_match(stops, from, address) matches Some(j) ==> {
            &&& from <= j < stops.len()
            &&& stops[j].address == address
            &&& forall|k: int| from <= k < j ==> (#[trigger] stops[k]).address != address
        },
    decreases stops.len() - from,
{
    if from < stops.len() && stops[from].address != address {
        lemma_first_match(stops, from + 1, address);
        if exists|j: int| from <= j < stops.len() && (#[trigger] stops[j]).address == address {
            let j = choose|j: int| from <= j < stops.len() && (#[trigger] stops[j]).address == address;
            assert(j != from);
            assert(from + 1 <= j < stops.len() && stops[j].address == address);
        }
    }
}

/// Whether every raw stop has a readable address.
pub open spec fn all_addresses_read(raw: Seq<RawStop>) -> bool {
    forall|i: int| 0 <= i < raw.len() ==> is_u64_text(#[trigger] raw[i].id64@)
}

/// The first raw stop whose address cannot be read.
pub open spec fn first_bad_address(raw: Seq<RawStop>, k: int) -> bool {
    &&& 0 <= k < raw.len()
    &&& !is_u64_text(raw[k].id64@)
    &&& forall|i: int| 0 <= i < k ==> is_u64_text(#[trigger] raw[i].id64@)
}

/// The stop that a raw stop with a readable address becomes.
pub open spec fn stop_from_raw(raw: RawStop, stop: Stop) -> bool {
    &&& stop.name@ == raw.system@
    &&& stop.address as nat == u64_text_value(raw.id64@)
    &&& stop.jumps == raw.jumps
}

/// `after` is `before` advanced by a location event at `address`: the
/// same stops, done up to and including the first match from the current
/// position, or as before where none matches.
pub open spec fn advanced(before: Route, after: Route, address: u64) -> bool {
    &&& after.stops() == before.stops()
    &&& after.done() == match first_match(before.stops(), before.done() as int, address) {
        Some(j) => (j + 1) as nat,
        None => before.done(),
    }
}

/// A route loaded from a non-empty list of stops and then advanced by any
/// number of location events keeps exactly as many stops as the list had,
/// so its length is that count, at least one.
pub proof fn law_route_length_kept(raw: Seq<RawStop>, trail: Seq<Route>, addresses: Seq<u64>)
    requires
        raw.len() > 0,
        trail.len() == addresses.len() + 1,
        trail[0].stops().len() == raw.len(),
        forall|i: int| 0 <= i < addresses.len() ==> advanced(#[trigger] trail[i], trail[i + 1], addresses[i]),
    ensures
        forall|i: int| 0 <= i < trail.len() ==> (#[trigger] trail[i]).stops().len() == raw.len(),
    decreases addresses.len(),
{
    if addresses.len() > 0 {
        let n = addresses.len() - 1;
        law_route_length_kept(raw, trail.take(n + 1), addresses.take(n));
        assert(advanced(trail[n], trail[n + 1], addresses[n]));
        assert forall|i: int| 0 <= i < trail.len() implies (#[trigger] trail[i]).stops().len() == raw.len() by {
            if i <= n {
                assert(trail.take(n + 1)[i] == trail[i]);
            } else {
                assert(trail.take(n + 1)[n] == trail[n]);
                assert(trail[n].stops().len() == raw.len());
            }
        }
    }
}

impl Route {
    #[verifier::type_invariant]
    spec fn well_formed(self) -> bool {
        &&& self.stops.len() > 0
        &&& self.visited <= self.stops.len()
    }

    /// The stops of the route, in order.
    pub closed spec fn stops(&self) -> Seq<Stop> {
        self.stops@
    }

    /// How many stops, from the first, are done.
    pub closed spec fn done(&self) -> nat {
        self.visited as nat
    }

    /// Builds a route from the stops of a route file, reading each address;
    /// the first stop whose address cannot be read is the error, and a list
    /// without stops is no route.
    pub fn from_stops(raw: Vec<RawStop>) -> (r: Result<Route, RouteError>)
        ensures
            r is Ok <==> raw@.len() > 0 && all_addresses_read(raw@),
            r matches Ok(route) ==> {
                &&& route.done() == 0
                &&& route.stops().len() == raw@.len()
                &&& forall|i: int|
                    0 <= i < raw@.len() ==> stop_from_raw(raw@[i], #[trigger] route.stops()[i])
            },
            r matches Err(RouteError::BadAddress(id)) ==> exists|k: int|
                first_bad_address(raw@, k) && id@ == raw@[k].id64@,
            r matches Err(RouteError::Empty) ==> raw@.len() == 0,
    {
        let ghost original = raw@;
        let mut stops: Vec<Stop> = Vec::new();
        let n = raw.len();
        let mut i: usize = 0;
        while i < n
            invariant
                n == original.len(),
                i <= n,
                raw@ == original,
                stops@.len() == i,
                forall|j: int| 0 <= j < i ==> is_u64_text(#[trigger] original[j].id64@),
                forall|j: int| 0 <= j < i ==> stop_from_raw(original[j], #[trigger] stops@[j]),
            decreases n - i,
        {
            let parsed = parse_u64(raw[i].id64.as_str());
            match parsed {
                Some(address) => {
                    let stop = Stop {
                        name: raw[i].system.clone(),
                        address,
                        jumps: raw[i].jumps,
                    };
                    stops.push(stop);
                },
                None => {
                    let id = raw[i].id64.clone();
                    assert(!is_u64_text(original[i as int].id64@));
                    assert(first_bad_address(original, i as int));
                    return Err(RouteError::BadAddress(id));
                },
            }
            i = i + 1;
        }
        if n == 0 {
            return Err(RouteError::Empty);
        }
        Ok(Route { stops, visited: 0 })
    }

    /// Ticks off stops up to and including the first one matching `address`
    /// at or after the current position. Returns true if anything new was
    /// ticked off.
    pub fn advance(&mut self, address: u64) -> (r: bool)
        ensures
            advanced(*old(self), *final(self), address),
            final(self).stops() == old(self).stops(),
            r == first_match(old(self).stops(), old(self).done() as int, address) is Some,
            r ==> final(self).done() == first_match(
                old(self).stops(),
                old(self).done() as int,
                address,
            )->0 + 1,
            !r ==> final(self).done() == old(self).done(),
            r ==> old(self).done() < final(self).done() <= final(self).stops().len(),
            r ==> final(self).stops()[final(self).done() - 1].address == address,
    {
        proof {
            use_type_invariant(&*self);
            lemma_first_match(self.stops@, self.visited as int, address);
        }
        let n = self.stops.len();
        let mut i = self.visited;
        while i < n
            invariant
                n == self.stops@.len(),
                self.stops@ == old(self).stops@,
                self.visited == old(self).visited,
                self.visited <= i <= n,
                first_match(self.stops@, self.visited as int, address) == first_match(
                    self.stops@,
                    i as int,
                    address,
                ),
            decreases n - i,
        {
            if self.stops[i].address == address {
                self.visited = i + 1;
                return true;
            }
            i = i + 1;
        }
        false
    }

    /// The next destination, or None when the route is complete.
    pub fn next(&self) -> (r: Option<&Stop>)
        ensures
            r is Some <==> self.done() < self.stops().len(),
            r matches Some(s) ==> *s == self.stops()[self.done() as int],
    {
        proof {
            use_type_invariant(self);
        }
        if self.visited < self.stops.len() {
            Some(&self.stops[self.visited])
        } else {
            None
        }
    }

    /// The stop just ticked off, if any.
    pub fn last(&self) -> (r: Option<&Stop>)
        ensures
            r is Some <==> self.done() > 0,
            r matches Some(s) ==> *s == self.stops()[self.done() - 1],
    {
        proof {
            use_type_invariant(self);
        }
        if self.visited == 0 {
            None
        } else {
            Some(&self.stops[self.visited - 1])
        }
    }

    /// How many stops are done.
    pub fn visited(&self) -> (r: usize)
        ensures
            r == self.done(),
            r <= self.stops().len(),
    {
        proof {
            use_type_invariant(self);
        }
        self.visited
    }

    /// Whether every stop is done.
    pub fn complete(&self) -> (r: bool)
        ensures
            r <==> self.done() == self.stops().len(),
    {
        proof {
            use_type_invariant(self);
        }
        self.next().is_none()
    }

    /// The number of stops.
    pub fn len(&self) -> (r: usize)
        ensures
            r == self.stops().len(),
            r > 0,
    {
        proof {
            use_type_invariant(self);
        }
        self.stops.len()
    }
}

impl RouteError {
    /// The message that explains the error to the user.
    pub fn message(&self) -> (s: String)
        ensures
            self matches RouteError::BadAddress(id) ==> s@ == "bad system id64 '"@ + id@
                + "' in route"@,
            self is Empty ==> s@ == "route file contains no systems"@,
    {
        match self {
            RouteError::BadAddress(id) => {
                let mut s = String::from_str("bad system id64 '");
                s.append(id.as_str());
                s.append("' in route");
                s
            },
            RouteError::Empty => String::from_str("route file contains no systems"),
        }
    }
}

} // verus!
