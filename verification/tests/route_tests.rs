use exobio_rat::route::{RawStop, Route, RouteError};

fn raw(system: &str, id64: &str, jumps: u32) -> RawStop {
    RawStop { system: system.to_string(), id64: id64.to_string(), jumps }
}

fn sample() -> Route {
    let stops = vec![raw("Alpha", "10", 1), raw("Beta", "20", 2), raw("Gamma", "30", 3), raw("Beta", "20", 4)];
    match Route::from_stops(stops) {
        Ok(route) => route,
        Err(_) => panic!("sample route refused"),
    }
}

#[test]
fn from_stops_reads_every_stop() {
    let route = sample();
    assert_eq!(route.len(), 4);
    assert_eq!(route.visited(), 0);
    assert!(!route.complete());
    let next = route.next().unwrap();
    assert_eq!(next.name, "Alpha");
    assert_eq!(next.address, 10);
    assert_eq!(next.jumps, 1);
    assert!(route.last().is_none());
}

#[test]
fn from_stops_refuses_a_bad_address() {
    let stops = vec![raw("Alpha", "10", 1), raw("Beta", "x20", 2), raw("Gamma", "-3", 3)];
    match Route::from_stops(stops) {
        Err(RouteError::BadAddress(id)) => assert_eq!(id, "x20"),
        _ => panic!("expected the first bad address"),
    }
}

#[test]
fn from_stops_refuses_an_empty_route() {
    match Route::from_stops(Vec::new()) {
        Err(RouteError::Empty) => {}
        _ => panic!("expected an empty route error"),
    }
}

#[test]
fn route_error_messages() {
    assert_eq!(RouteError::BadAddress("abc".to_string()).message(), "bad system id64 'abc' in route");
    assert_eq!(RouteError::Empty.message(), "route file contains no systems");
}

#[test]
fn arriving_ticks_off_everything_up_to_the_stop() {
    let mut route = sample();
    assert!(route.advance(30));
    assert_eq!(route.visited(), 3);
    assert_eq!(route.last().unwrap().name, "Gamma");
    assert_eq!(route.next().unwrap().jumps, 4);
}

#[test]
fn advance_takes_the_first_match_after_the_position() {
    let mut route = sample();
    assert!(route.advance(20));
    assert_eq!(route.visited(), 2);
    assert!(route.advance(20));
    assert_eq!(route.visited(), 4);
    assert!(route.complete());
    assert!(route.next().is_none());
    assert_eq!(route.last().unwrap().jumps, 4);
}

#[test]
fn advance_never_goes_back() {
    let mut route = sample();
    assert!(route.advance(30));
    assert!(!route.advance(10));
    assert_eq!(route.visited(), 3);
    assert!(!route.advance(99));
    assert_eq!(route.visited(), 3);
}
