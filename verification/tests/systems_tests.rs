use exobio_rat::game::SinkOutcome;
use exobio_rat::screen::{Area, ListBody, Span, Tone};
use exobio_rat::systems::{build_views, compose, estimated_value, planet_view, SystemsState};
use exobio_rat::survey::ScanLevel;
use exobio_rat::route::{RawStop, Route};
use exobio_rat::systems::take_event;
use exobio_rat::ui::{Input, Purpose, Ui};

use ed_journals::logs::LogEvent;

const JUMP: &str = r#"{ "timestamp":"2023-01-10T14:13:28Z", "event":"FSDJump", "Taxi":false, "Multicrew":false, "StarSystem":"Tosia EN-H b37-0", "SystemAddress":161732389185, "StarPos":[-37941.84375,-20.90625,43257.03125], "SystemAllegiance":"", "SystemEconomy":"$economy_None;", "SystemEconomy_Localised":"None", "SystemSecondEconomy":"$economy_None;", "SystemSecondEconomy_Localised":"None", "SystemGovernment":"$government_None;", "SystemGovernment_Localised":"None", "SystemSecurity":"$GAlAXY_MAP_INFO_state_anarchy;", "SystemSecurity_Localised":"Anarchy", "Population":0, "Body":"Tosia EN-H b37-0 A", "BodyID":1, "BodyType":"Star", "JumpDist":84.870, "FuelUsed":7.790057, "FuelLevel":23.139944 }"#;
const STAR_SCAN: &str = r#"{ "timestamp":"2023-01-10T14:13:33Z", "event":"Scan", "ScanType":"AutoScan", "BodyName":"Tosia EN-H b37-0 A", "BodyID":1, "Parents":[ {"Null":0} ], "StarSystem":"Tosia EN-H b37-0", "SystemAddress":161732389185, "DistanceFromArrivalLS":0.000000, "StarType":"M", "Subclass":4, "StellarMass":0.367188, "Radius":400430336.000000, "AbsoluteMagnitude":8.880798, "Age_MY":13054, "SurfaceTemperature":2997.000000, "Luminosity":"Va", "SemiMajorAxis":547525870800.018311, "Eccentricity":0.399529, "OrbitalInclination":-3.570758, "Periapsis":183.934238, "OrbitalPeriod":1087305843.830109, "AscendingNode":13.110958, "MeanAnomaly":269.809939, "RotationPeriod":183427.155087, "AxialTilt":0.000000, "WasDiscovered":false, "WasMapped":false }"#;
const DISCOVERY: &str = r#"{ "timestamp":"2023-01-10T14:13:34Z", "event":"FSSDiscoveryScan", "Progress":0.798150, "BodyCount":4, "NonBodyCount":0, "SystemName":"Tosia EN-H b37-0", "SystemAddress":161732389185 }"#;
const PLANET_SCAN: &str = r#"{ "timestamp":"2023-01-10T14:14:33Z", "event":"Scan", "ScanType":"Detailed", "BodyName":"Tosia EN-H b37-0 B 1", "BodyID":5, "Parents":[ {"Star":3}, {"Null":2}, {"Null":0} ], "StarSystem":"Tosia EN-H b37-0", "SystemAddress":161732389185, "DistanceFromArrivalLS":5154.098510, "TidalLock":true, "TerraformState":"", "PlanetClass":"Sudarsky class III gas giant", "Atmosphere":"", "AtmosphereComposition":[ { "Name":"Hydrogen", "Percent":74.996178 }, { "Name":"Helium", "Percent":25.003836 } ], "Volcanism":"", "MassEM":252.784683, "Radius":66948520.000000, "SurfaceGravity":22.479063, "SurfaceTemperature":672.623047, "SurfacePressure":0.000000, "Landable":false, "SemiMajorAxis":921303987.503052, "Eccentricity":0.098136, "OrbitalInclination":13.323776, "Periapsis":294.826236, "OrbitalPeriod":37127.000093, "AscendingNode":-124.366625, "MeanAnomaly":44.870491, "RotationPeriod":37210.797663, "AxialTilt":0.244418, "WasDiscovered":false, "WasMapped":false }"#;
const ALL_FOUND: &str = r#"{ "timestamp":"2023-01-10T14:14:33Z", "event":"FSSAllBodiesFound", "SystemName":"Tosia EN-H b37-0", "SystemAddress":161732389185, "Count":4 }"#;
const NEXT_JUMP: &str = r#"{ "timestamp":"2023-01-10T14:15:12Z", "event":"FSDJump", "Taxi":false, "Multicrew":false, "StarSystem":"Tosia VL-A b41-0", "SystemAddress":162000824673, "StarPos":[-37924.37500,-23.93750,43337.37500], "SystemAllegiance":"", "SystemEconomy":"$economy_None;", "SystemEconomy_Localised":"None", "SystemSecondEconomy":"$economy_None;", "SystemSecondEconomy_Localised":"None", "SystemGovernment":"$government_None;", "SystemGovernment_Localised":"None", "SystemSecurity":"$GAlAXY_MAP_INFO_state_anarchy;", "SystemSecurity_Localised":"Anarchy", "Population":0, "Body":"Tosia VL-A b41-0 A", "BodyID":1, "BodyType":"Star", "JumpDist":82.277, "FuelUsed":7.173890, "FuelLevel":23.376137 }"#;

const APPROACH: &str = r#"{ "timestamp":"2023-01-10T14:20:00Z", "event":"ApproachBody", "StarSystem":"Tosia EN-H b37-0", "SystemAddress":161732389185, "Body":"Tosia EN-H b37-0 B 1", "BodyID":5 }"#;
const LEAVE: &str = r#"{ "timestamp":"2023-01-10T14:30:00Z", "event":"LeaveBody", "StarSystem":"Tosia EN-H b37-0", "SystemAddress":161732389185, "Body":"Tosia EN-H b37-0 B 1", "BodyID":5 }"#;

fn event(json: &str) -> LogEvent {
    serde_json::from_str(json).expect("journal line")
}

fn text(row: &[Span]) -> String {
    row.iter().map(|s| s.text.as_str()).collect()
}

fn fed(lines: &[&str]) -> SystemsState {
    let mut systems = SystemsState::default();
    for line in lines {
        systems.sink_log(&event(line));
    }
    systems
}

#[test]
fn empty_state() {
    let systems = SystemsState::default();
    assert!(systems.systems.is_empty());
    assert!(systems.current.is_none());
}

#[test]
fn events_before_any_location_are_ignored() {
    let mut systems = SystemsState::default();
    assert_eq!(systems.sink_log(&event(DISCOVERY)), SinkOutcome::Ignored);
    assert!(systems.systems.is_empty());
    assert!(systems.current.is_none());
}

#[test]
fn a_jump_enters_and_creates_the_system() {
    let mut systems = SystemsState::default();
    systems.sink_log(&event(JUMP));
    assert_eq!(systems.current, Some(161732389185));
    assert!(systems.systems.contains_key(&161732389185));
    assert_eq!(systems.sink_log(&event(DISCOVERY)), SinkOutcome::Accepted);
    assert_eq!(systems.systems[&161732389185].number_of_bodies, Some(4));
}

#[test]
fn systems_are_kept_when_leaving() {
    let systems = fed(&[JUMP, STAR_SCAN, DISCOVERY, NEXT_JUMP]);
    assert_eq!(systems.current, Some(162000824673));
    assert_eq!(systems.systems.len(), 2);
    assert_eq!(systems.systems[&161732389185].number_of_bodies, Some(4));
    let mut again = fed(&[JUMP, STAR_SCAN, DISCOVERY, NEXT_JUMP]);
    again.sink_log(&event(JUMP));
    assert_eq!(again.current, Some(161732389185));
    assert_eq!(again.systems.len(), 2);
    assert_eq!(again.systems[&161732389185].number_of_bodies, Some(4));
}

#[test]
fn views_leave_out_stars() {
    let systems = fed(&[JUMP, STAR_SCAN, DISCOVERY, PLANET_SCAN, ALL_FOUND]);
    let system = &systems.systems[&161732389185];
    let views = build_views(system, 0);
    assert!(views.iter().all(|v| v.id != 1));
    let giant = views.iter().find(|v| v.id == 5).expect("the gas giant");
    assert_eq!(giant.name, "Tosia EN-H b37-0 B 1");
    assert_eq!(giant.scan, ScanLevel::Full);
    assert_eq!(giant.landable, Some(false));
    assert!(giant.entries.is_empty());
    assert!(!giant.complete);
    assert_eq!(giant.distance_bits, Some(5154.098510f32.to_bits()));
    assert_eq!(giant.estimated, Some(0));
    assert!(giant.unpredicted.is_empty());
    let planet = &system.planet_state[&5];
    assert_eq!(estimated_value(system, planet), Some(0));
}

#[test]
fn planet_view_names() {
    let v = planet_view(7, None, None, Vec::new(), Vec::new(), Some(0), None, None, None, 0);
    assert_eq!(v.name, "Body 7");
    assert_eq!(v.scan, ScanLevel::Fss);
    let v = planet_view(7, None, Some("Saa name".to_string()), Vec::new(), Vec::new(), Some(0), None, None, None, 0);
    assert_eq!(v.name, "Saa name");
    assert_eq!(v.scan, ScanLevel::Saa);
    let v = planet_view(7, Some("Full".to_string()), Some("Saa".to_string()), Vec::new(), Vec::new(), Some(0), None, None, None, 0);
    assert_eq!(v.name, "Full");
    assert_eq!(v.scan, ScanLevel::Full);
    assert!(!v.complete);
}

#[test]
fn a_frame_before_any_event() {
    let systems = SystemsState::default();
    let mut ui = Ui::default();
    ui.scroll = 4;
    let screen = compose(&systems, &mut ui, 10, Area { x: 0, y: 0, width: 80, height: 12 });
    assert_eq!(text(&screen.header), " waiting for system…    sort: body id  threshold: 0  near: —");
    match &screen.body {
        ListBody::Message(m) => assert_eq!(text(m), " Waiting for journal events…"),
        ListBody::Rows { .. } => panic!("expected a message"),
    }
    assert!(screen.popup.is_none());
    assert_eq!(ui.scroll, 4);
}

#[test]
fn a_frame_of_a_scanned_system() {
    let systems = fed(&[JUMP, STAR_SCAN, DISCOVERY, PLANET_SCAN, ALL_FOUND]);
    let mut ui = Ui::default();
    ui.scroll = 4;
    ui.input = Some(Input { buffer: "9".to_string(), error: None, purpose: Purpose::Threshold });
    let screen = compose(&systems, &mut ui, 10, Area { x: 0, y: 0, width: 80, height: 12 });
    assert_eq!(ui.last_system, Some(161732389185));
    assert_eq!(screen.header[0].text, " Tosia EN-H b37-0");
    assert_eq!(screen.header[0].tone, Tone::Bold);
    assert!(screen.header[1].text.ends_with("/4 bodies"));
    match &screen.body {
        ListBody::Rows { rows, offset } => {
            assert!(rows.iter().any(|r| text(r).contains("Tosia EN-H b37-0 B 1")));
            assert_eq!(*offset, ui.scroll);
        }
        ListBody::Message(_) => panic!("expected rows"),
    }
    let popup = screen.popup.expect("the popup");
    assert_eq!(popup.area, Area { x: 20, y: 3, width: 40, height: 5 });
    assert_eq!(text(&popup.lines[0]), "> 9");
}

#[test]
fn jumps_move_the_route_along() {
    let stops = vec![
        RawStop { system: "Tosia EN-H b37-0".to_string(), id64: "161732389185".to_string(), jumps: 1 },
        RawStop { system: "Tosia VL-A b41-0".to_string(), id64: "162000824673".to_string(), jumps: 1 },
        RawStop { system: "Blua Flyoae PX-G b44-0".to_string(), id64: "162537564537".to_string(), jumps: 1 },
    ];
    let route = match Route::from_stops(stops) {
        Ok(route) => route,
        Err(_) => panic!("route refused"),
    };
    let mut systems = SystemsState::default();
    let mut ui = Ui::default();
    assert_eq!(take_event(&mut systems, &mut ui, &event(JUMP)), None);
    ui.route = Some(route);
    assert_eq!(take_event(&mut systems, &mut ui, &event(DISCOVERY)), None);
    assert_eq!(ui.route.as_ref().unwrap().visited(), 0);
    assert_eq!(
        take_event(&mut systems, &mut ui, &event(NEXT_JUMP)),
        Some("Blua Flyoae PX-G b44-0".to_string())
    );
    assert_eq!(ui.route.as_ref().unwrap().visited(), 2);
    assert_eq!(systems.current, Some(162000824673));
    let screen = compose(&systems, &mut ui, 5, Area { x: 0, y: 0, width: 80, height: 8 });
    assert_eq!(text(&screen.route.expect("the route panel")), " route 2/3  ✓ Tosia VL-A b41-0  next: Blua Flyoae PX-G b44-0");
}

#[test]
fn a_system_takes_its_own_events() {
    let mut systems = fed(&[JUMP]);
    let a = 161732389185u64;
    {
        let system = &systems.systems[&a];
        assert_eq!(system.system_address, a);
        assert_eq!(system.location_info.as_ref().map(|i| i.star_system.as_str()), Some("Tosia EN-H b37-0"));
        assert!(system.exobiology_system.is_some());
        assert!(system.planet_state.contains_key(&1));
        assert_eq!(system.near_body, None);
    }
    assert_eq!(systems.sink_log(&event(APPROACH)), SinkOutcome::Accepted);
    assert_eq!(systems.systems[&a].near_body, Some(5));
    assert!(systems.systems[&a].planet_state.contains_key(&5));
    systems.sink_log(&event(LEAVE));
    assert_eq!(systems.systems[&a].near_body, None);
    systems.sink_log(&event(NEXT_JUMP));
    assert_eq!(systems.sink_log(&event(APPROACH)), SinkOutcome::Ignored);
    assert_eq!(systems.systems[&162000824673].near_body, None);
    assert_eq!(systems.systems[&162000824673].system_address, 162000824673);
    assert_eq!(systems.systems[&a].near_body, None);
}

#[test]
fn a_second_visit_keeps_what_was_learnt() {
    let mut systems = fed(&[JUMP, STAR_SCAN, DISCOVERY, PLANET_SCAN, NEXT_JUMP]);
    systems.sink_log(&event(JUMP));
    let system = &systems.systems[&161732389185];
    assert_eq!(system.number_of_bodies, Some(4));
    assert!(system.planet_state.contains_key(&5));
    assert!(system.star_scans.contains_key(&1));
}

#[test]
fn a_frame_without_popup_takes_any_area_and_scroll() {
    let systems = fed(&[JUMP, STAR_SCAN, DISCOVERY, PLANET_SCAN]);
    let mut ui = Ui::default();
    ui.last_system = systems.current;
    ui.scroll = usize::MAX;
    let screen = compose(&systems, &mut ui, 10, Area { x: u16::MAX, y: u16::MAX, width: 80, height: 12 });
    assert!(screen.popup.is_none());
    match &screen.body {
        ListBody::Rows { offset, .. } => assert_eq!(*offset, ui.scroll),
        ListBody::Message(_) => panic!("expected rows"),
    }
    assert!(ui.scroll < usize::MAX);
}
