use exobio_rat::args::{detect_failed_message, journal_dir_choice, DirChoice};
use exobio_rat::screen::{
    footer_line, header_line, planet_header_row, planet_inset_rows, planet_list, popup_area,
    popup_lines, popup_title_text, Area, ListBody, Span, Tone,
};
use exobio_rat::survey::{
    is_active, is_complete, planet_order, Organic, PlanetView, ScanLevel, SignalCounts,
    SpeciesEntry, SystemSummary, WillSpawn,
};
use exobio_rat::clipboard::{base64_encode, clipboard_sequence};
use exobio_rat::route::{RawStop, Route};
use exobio_rat::screen::route_line;
use exobio_rat::ui::{Input, Purpose, SortMode, Ui};

fn flat(row: &[Span]) -> Vec<(String, Tone)> {
    row.iter().map(|s| (s.text.clone(), s.tone)).collect()
}

fn text(row: &[Span]) -> String {
    row.iter().map(|s| s.text.as_str()).collect()
}

fn entry(name: &str, value: u64, spawn: WillSpawn, confirmed: bool, completed: bool) -> SpeciesEntry {
    SpeciesEntry {
        name: name.to_string(),
        base_value: value,
        will_spawn: spawn,
        confirmed,
        completed,
        genus_variant: None,
        genus_progress: None,
    }
}

fn counts(bio: usize, geo: usize) -> SignalCounts {
    SignalCounts { biological: bio, human: 0, geological: geo, thargoid: 0, guardian: 0, other: 0 }
}

fn planet(id: u8, name: &str) -> PlanetView {
    PlanetView {
        id,
        name: name.to_string(),
        entries: Vec::new(),
        unpredicted: Vec::new(),
        complete: false,
        estimated: Some(0),
        distance_bits: None,
        landable: None,
        scan: ScanLevel::Fss,
        signals: None,
    }
}

fn s(t: &str, tone: Tone) -> (String, Tone) {
    (t.to_string(), tone)
}

#[test]
fn active_entries() {
    let yes = entry("A", 1000, WillSpawn::Yes, false, false);
    let maybe = entry("B", 1000, WillSpawn::Maybe, false, false);
    let confirmed = entry("C", 1000, WillSpawn::No, true, false);
    let no = entry("D", 1000, WillSpawn::No, false, false);
    assert!(is_active(&yes, 1000));
    assert!(is_active(&maybe, 0));
    assert!(!is_active(&yes, 1001));
    assert!(is_active(&confirmed, 0));
    assert!(is_active(&confirmed, 1000));
    assert!(!is_active(&confirmed, 1001));
    assert!(!is_active(&no, 0));
}

#[test]
fn unknown_estimates_show_a_dash_and_sort_as_zero() {
    let mut v = planet(7, "X");
    v.estimated = None;
    let row = flat(&planet_header_row(&v, false));
    assert_eq!(row[6], (format!("  est {:>12}", "—"), Tone::Plain));
    let mut a = planet(1, "A");
    a.estimated = None;
    let mut b = planet(2, "B");
    b.estimated = Some(5);
    let mut c = planet(3, "C");
    c.estimated = Some(0);
    let views = vec![a, b, c];
    assert_eq!(planet_order(&views, SortMode::Value), vec![1, 0, 2]);
}

#[test]
fn complete_planets() {
    assert!(!is_complete(&[], 0));
    let done = entry("A", 5000, WillSpawn::Yes, true, true);
    let open = entry("B", 5000, WillSpawn::Maybe, false, false);
    let cheap = entry("C", 10, WillSpawn::Yes, false, false);
    let impossible = entry("D", 5000, WillSpawn::No, false, false);
    assert!(is_complete(&[done, cheap, impossible], 100));
    let done = entry("A", 5000, WillSpawn::Yes, true, true);
    assert!(!is_complete(&[done, open], 100));
    let cheap = entry("C", 10, WillSpawn::Yes, false, false);
    assert!(is_complete(&[cheap], 100));
}

#[test]
fn header_row_of_a_landable_planet() {
    let mut v = planet(5, "Tosia EN-H b37-0 B 1");
    v.estimated = Some(1234567);
    v.landable = Some(true);
    v.scan = ScanLevel::Full;
    v.signals = Some(counts(2, 0));
    assert_eq!(
        flat(&planet_header_row(&v, false)),
        vec![
            s("   ", Tone::DarkGray),
            s(" 5  ", Tone::Plain),
            s("Tosia EN-H b37-0 B 1", Tone::Plain),
            s(" landable", Tone::Plain),
            s(" [full]", Tone::Plain),
            s("  bio:2", Tone::BoldGreen),
            (format!("  est {:>12}", "1,234,567"), Tone::Plain),
        ]
    );
}

#[test]
fn header_row_of_a_near_and_of_a_done_planet() {
    let mut v = planet(12, "A very long planet name indeed");
    v.landable = Some(false);
    v.scan = ScanLevel::Saa;
    v.signals = Some(counts(0, 3));
    assert_eq!(
        flat(&planet_header_row(&v, true)),
        vec![
            s(" @", Tone::BoldYellow),
            s(" 12  ", Tone::BoldYellow),
            s("A very long planet …", Tone::BoldYellow),
            s(" no-land", Tone::BoldYellow),
            s(" [saa]", Tone::BoldYellow),
            s("  bio:0", Tone::Dim),
            (format!("  est {:>12}", "0"), Tone::BoldYellow),
        ]
    );
    v.complete = true;
    v.signals = None;
    v.landable = None;
    v.scan = ScanLevel::Fss;
    let row = flat(&planet_header_row(&v, true));
    assert_eq!(row[1], s(" 12  ", Tone::Dim));
    assert_eq!(row[3], s(" —", Tone::Dim));
    assert_eq!(row[4], s(" [fss]", Tone::Dim));
    assert_eq!(row[5], s("  bio:—", Tone::Dim));
    assert_eq!(row[7], s("  [EXOBIO ✓]", Tone::BoldGreen));
    assert_eq!(row.len(), 8);
}

#[test]
fn checklist_of_a_planet() {
    let mut v = planet(3, "B 3");
    v.scan = ScanLevel::Full;
    v.landable = Some(true);
    v.signals = Some(counts(3, 1));
    let mut aurasus = entry("Bacterium Aurasus", 1000000, WillSpawn::Yes, true, false);
    aurasus.genus_variant = Some("Bacterium Aurasus - Teal".to_string());
    aurasus.genus_progress = Some(2);
    v.entries = vec![
        aurasus,
        entry("Stratum Tectonicas", 19010800, WillSpawn::Maybe, false, false),
        entry("Fungoida Setisis", 1670100, WillSpawn::No, false, false),
        entry("Osseus Fractus", 4027800, WillSpawn::Yes, true, true),
        entry("Bacterium Vesicula", 400000, WillSpawn::Maybe, false, false),
    ];
    v.unpredicted = vec![Organic {
        name: "Frutexa Flabellum".to_string(),
        base_value: 1808900,
        completed: false,
        progress: 1,
    }];
    let rows = planet_inset_rows(&v, 500000);
    let got: Vec<Vec<(String, Tone)>> = rows.iter().map(|r| flat(r)).collect();
    let line = |marker: &str, mt: Tone, label: &str, lt: Tone, value: &str| {
        vec![s("     ", Tone::Plain), s(marker, mt), s(label, lt), s(value, Tone::Dim)]
    };
    assert_eq!(
        got,
        vec![
            vec![
                s("     ", Tone::Plain),
                s("signals:", Tone::Dim),
                s(" ", Tone::Plain),
                s("bio 3", Tone::Green),
                s(" ", Tone::Plain),
                s("gel 1", Tone::Yellow),
            ],
            line("?   ", Tone::Yellow, "Stratum Tectonicas", Tone::Plain, "    19,010,800"),
            line("✓ 1/3", Tone::Green, "Frutexa Flabellum (not predicted)", Tone::Plain, "     1,808,900"),
            line("✓ 2/3", Tone::Green, "Bacterium Aurasus - Teal", Tone::Plain, "     1,000,000"),
            line("✓✓✓", Tone::Green, "Osseus Fractus", Tone::Dim, "     4,027,800"),
            line("·  ", Tone::Dim, "Bacterium Vesicula", Tone::Dim, "       400,000"),
            vec![s("     — 1 species excluded (impossible)", Tone::Dim)],
        ]
    );
}

#[test]
fn checklist_hints_without_predictions() {
    let v = planet(1, "A");
    let rows = planet_inset_rows(&v, 0);
    assert_eq!(rows.len(), 1);
    assert_eq!(flat(&rows[0]), vec![s("  scan this body to predict flora", Tone::Dim)]);
    let mut v = planet(1, "A");
    v.scan = ScanLevel::Full;
    v.landable = Some(false);
    v.signals = Some(counts(0, 0));
    let rows = planet_inset_rows(&v, 0);
    assert_eq!(flat(&rows[0]), vec![s("     ", Tone::Plain), s("signals:", Tone::Dim), s(" none", Tone::Dim)]);
    assert_eq!(flat(&rows[1]), vec![s("  not landable", Tone::Dim)]);
    v.landable = Some(true);
    let rows = planet_inset_rows(&v, 0);
    assert_eq!(flat(&rows[1]), vec![s("  no biological signals", Tone::Dim)]);
}

#[test]
fn unfinished_planets_come_first() {
    let mut a = planet(4, "A");
    a.complete = true;
    a.estimated = Some(900);
    a.distance_bits = Some(10.0f32.to_bits());
    let mut b = planet(2, "B");
    b.estimated = Some(100);
    b.distance_bits = Some(500.0f32.to_bits());
    let mut c = planet(9, "C");
    c.estimated = Some(300);
    let mut d = planet(1, "D");
    d.estimated = Some(300);
    d.distance_bits = Some(20.0f32.to_bits());
    let views = vec![a, b, c, d];
    assert_eq!(planet_order(&views, SortMode::BodyId), vec![3, 1, 2, 0]);
    assert_eq!(planet_order(&views, SortMode::Value), vec![2, 3, 1, 0]);
    assert_eq!(planet_order(&views, SortMode::Distance), vec![3, 1, 2, 0]);
}

#[test]
fn distance_order_follows_float_total_order() {
    let values = [-3.5f32, -0.0, 0.0, 1.0e-3, 42.0, 5154.0985, f32::INFINITY];
    let views: Vec<PlanetView> = values
        .iter()
        .rev()
        .enumerate()
        .map(|(i, d)| {
            let mut v = planet(i as u8, "x");
            v.distance_bits = Some(d.to_bits());
            v
        })
        .collect();
    let order = planet_order(&views, SortMode::Distance);
    let sorted: Vec<u32> = order.iter().map(|&i| views[i].distance_bits.unwrap()).collect();
    let mut expected: Vec<f32> = values.to_vec();
    expected.sort_by(|a, b| a.total_cmp(b));
    assert_eq!(sorted, expected.iter().map(|d| d.to_bits()).collect::<Vec<u32>>());
}

fn summary(near: Option<u8>) -> SystemSummary {
    SystemSummary { star_name: Some("Sol".to_string()), scanned: 7, total: Some(12), near }
}

#[test]
fn list_keeps_the_near_planet_visible() {
    let mut views = Vec::new();
    for id in 0..6u8 {
        views.push(planet(id, "P"));
    }
    let mut ui = Ui::default();
    let body = planet_list(Some(&summary(Some(4))), &views, &mut ui, 3);
    match body {
        ListBody::Rows { rows, offset } => {
            assert_eq!(rows.len(), 12);
            assert_eq!(text(&rows[8]).starts_with(" @ 4  "), true);
            assert_eq!(offset, 6);
            assert_eq!(ui.scroll, 6);
        }
        ListBody::Message(_) => panic!("expected rows"),
    }
    ui.scroll = 100;
    let body = planet_list(Some(&summary(None)), &views, &mut ui, 5);
    match body {
        ListBody::Rows { offset, .. } => assert_eq!(offset, 7),
        ListBody::Message(_) => panic!("expected rows"),
    }
    ui.scroll = 10;
    let body = planet_list(Some(&summary(Some(1))), &views, &mut ui, 4);
    match body {
        ListBody::Rows { offset, .. } => assert_eq!(offset, 2),
        ListBody::Message(_) => panic!("expected rows"),
    }
    ui.scroll = usize::MAX;
    let body = planet_list(Some(&summary(Some(1))), &views, &mut ui, 5);
    match body {
        ListBody::Rows { offset, .. } => assert_eq!(offset, 2),
        ListBody::Message(_) => panic!("expected rows"),
    }
}

#[test]
fn list_messages() {
    let mut ui = Ui::default();
    ui.scroll = 5;
    match planet_list(None, &Vec::new(), &mut ui, 10) {
        ListBody::Message(m) => assert_eq!(flat(&m), vec![s(" Waiting for journal events…", Tone::Dim)]),
        ListBody::Rows { .. } => panic!("expected a message"),
    }
    match planet_list(Some(&summary(None)), &Vec::new(), &mut ui, 10) {
        ListBody::Message(m) => {
            assert_eq!(flat(&m), vec![s(" No bodies discovered yet — run an FSS scan.", Tone::Dim)])
        }
        ListBody::Rows { .. } => panic!("expected a message"),
    }
    assert_eq!(ui.scroll, 5);
}

#[test]
fn header_lines() {
    let mut ui = Ui::default();
    ui.threshold = 2500000;
    ui.sort = SortMode::Value;
    let views = vec![planet(3, "Sol 3"), planet(4, "Sol 4")];
    assert_eq!(
        flat(&header_line(Some(&summary(Some(4))), &views, &ui)),
        vec![
            s(" Sol", Tone::Bold),
            s("  7/12 bodies", Tone::Plain),
            s("  sort: value", Tone::Plain),
            s("  threshold: 2,500,000", Tone::Cyan),
            s("  near: Sol 4", Tone::Yellow),
        ]
    );
    let bare = SystemSummary { star_name: None, scanned: 2, total: None, near: Some(9) };
    let row = flat(&header_line(Some(&bare), &views, &ui));
    assert_eq!(row[0], s(" waiting for system…", Tone::Bold));
    assert_eq!(row[1], s("  2 bodies scanned", Tone::Plain));
    assert_eq!(row[4], s("  near: —", Tone::Yellow));
    let row = flat(&header_line(None, &Vec::new(), &Ui::default()));
    assert_eq!(row[1], s("  ", Tone::Plain));
    assert_eq!(row[2], s("  sort: body id", Tone::Plain));
    assert_eq!(row[3], s("  threshold: 0", Tone::Cyan));
}

#[test]
fn footer_lines() {
    let mut ui = Ui::default();
    ui.journal_dir = "/tmp/journal".to_string();
    ui.sort = SortMode::Distance;
    let row = flat(&footer_line(&ui));
    assert_eq!(text(&footer_line(&ui)), " q quit · ↑/↓ scroll · v value · d distance · t threshold   journal: /tmp/journal");
    assert_eq!(row[4], s("v value", Tone::Dim));
    assert_eq!(row[6], s("d distance", Tone::Bold));
}

#[test]
fn popup_geometry_and_lines() {
    let area = popup_area(Area { x: 0, y: 0, width: 100, height: 30 });
    assert_eq!(area, Area { x: 30, y: 12, width: 40, height: 5 });
    let small = popup_area(Area { x: 2, y: 1, width: 10, height: 3 });
    assert_eq!(small, Area { x: 3, y: 2, width: 8, height: 1 });
    let none = popup_area(Area { x: 0, y: 0, width: 1, height: 0 });
    assert_eq!(none, Area { x: 0, y: 0, width: 0, height: 0 });
    let input = Input { buffer: "12".to_string(), error: None, purpose: Purpose::Threshold };
    let lines = popup_lines(&input);
    assert_eq!(flat(&lines[0]), vec![s("> 12", Tone::Bold)]);
    assert_eq!(flat(&lines[1]), vec![s("Enter to apply · Esc to cancel", Tone::Dim)]);
    let input = Input { buffer: "x".to_string(), error: Some("not a valid number".to_string()), purpose: Purpose::Threshold };
    assert_eq!(flat(&popup_lines(&input)[1]), vec![s("not a valid number", Tone::Red)]);
    assert_eq!(popup_title_text(Purpose::Threshold), " Species value threshold ");
    assert_eq!(popup_title_text(Purpose::RoutePath), " Route file ");
}

#[test]
fn command_line_choices() {
    let args = |v: &[&str]| v.iter().map(|a| a.to_string()).collect::<Vec<String>>();
    assert!(matches!(journal_dir_choice(&args(&[])), Ok(DirChoice::Detect)));
    match journal_dir_choice(&args(&["--dir", "/j", "extra"])) {
        Ok(DirChoice::Given(d)) => assert_eq!(d, "/j"),
        _ => panic!("expected a directory"),
    }
    match journal_dir_choice(&args(&["--dir"])) {
        Err(m) => assert_eq!(m, "usage: exobio-rat [--dir <journal directory>]"),
        _ => panic!("expected the usage line"),
    }
    match journal_dir_choice(&args(&["-d", "x"])) {
        Err(m) => assert_eq!(m, "unknown argument: -d (usage: exobio-rat [--dir <journal directory>])"),
        _ => panic!("expected a refusal"),
    }
    assert_eq!(detect_failed_message(), "could not auto-detect the journal directory, pass --dir <path>");
}

#[test]
fn route_panel() {
    let stops = vec![
        RawStop { system: "Alpha".to_string(), id64: "10".to_string(), jumps: 1 },
        RawStop { system: "Beta".to_string(), id64: "20".to_string(), jumps: 2 },
    ];
    let mut route = match Route::from_stops(stops) {
        Ok(route) => route,
        Err(_) => panic!("route refused"),
    };
    assert_eq!(
        flat(&route_line(&route)),
        vec![s(" route ", Tone::Bold), s("0/2", Tone::Plain), s("  next: Alpha", Tone::Yellow)]
    );
    route.advance(10);
    assert_eq!(
        flat(&route_line(&route)),
        vec![
            s(" route ", Tone::Bold),
            s("1/2", Tone::Plain),
            s("  ✓ Alpha", Tone::Green),
            s("  next: Beta", Tone::Yellow),
        ]
    );
    route.advance(20);
    assert_eq!(
        flat(&route_line(&route)),
        vec![
            s(" route ", Tone::Bold),
            s("2/2", Tone::Plain),
            s("  ✓ Beta", Tone::Green),
            s("  complete", Tone::BoldGreen),
        ]
    );
}

#[test]
fn base64_vectors() {
    assert_eq!(base64_encode(b""), "");
    assert_eq!(base64_encode(b"f"), "Zg==");
    assert_eq!(base64_encode(b"fo"), "Zm8=");
    assert_eq!(base64_encode(b"foo"), "Zm9v");
    assert_eq!(base64_encode(b"foob"), "Zm9vYg==");
    assert_eq!(base64_encode(b"fooba"), "Zm9vYmE=");
    assert_eq!(base64_encode(b"foobar"), "Zm9vYmFy");
    assert_eq!(base64_encode(&[0xff, 0xfe, 0x00]), "//4A");
}

#[test]
fn clipboard_sequences() {
    assert_eq!(clipboard_sequence("Sol"), "\u{1b}]52;c;U29s\u{7}");
    assert_eq!(clipboard_sequence("Blua Flyoae PX-G b44-0"), format!("\u{1b}]52;c;{}\u{7}", base64_encode("Blua Flyoae PX-G b44-0".as_bytes())));
}
