use exobio_rat::route::{RawStop, Route};
use exobio_rat::ui::{Input, Key, KeyAction, Purpose, SortMode, Ui};

fn press(ui: &mut Ui, key: Key) -> KeyAction {
    ui.handle_key(key, false)
}

#[test]
fn default_ui() {
    let ui = Ui::default();
    assert_eq!(ui.scroll, 0);
    assert_eq!(ui.sort, SortMode::BodyId);
    assert_eq!(ui.threshold, 0);
    assert!(ui.input.is_none());
    assert!(ui.last_system.is_none());
    assert_eq!(ui.journal_dir, "");
}

#[test]
fn sort_labels() {
    assert_eq!(SortMode::BodyId.label(), "body id");
    assert_eq!(SortMode::Value.label(), "value");
    assert_eq!(SortMode::Distance.label(), "distance");
}

#[test]
fn quit_keys() {
    let mut ui = Ui::default();
    assert_eq!(press(&mut ui, Key::Char('q')), KeyAction::Quit);
    assert_eq!(press(&mut ui, Key::Esc), KeyAction::Quit);
    assert_eq!(ui.handle_key(Key::Char('q'), true), KeyAction::Quit);
    assert_eq!(press(&mut ui, Key::Char('x')), KeyAction::Keep);
}

#[test]
fn scrolling_by_three() {
    let mut ui = Ui::default();
    press(&mut ui, Key::Down);
    press(&mut ui, Key::Char('j'));
    assert_eq!(ui.scroll, 6);
    press(&mut ui, Key::Up);
    assert_eq!(ui.scroll, 3);
    press(&mut ui, Key::Char('k'));
    press(&mut ui, Key::Char('k'));
    assert_eq!(ui.scroll, 0);
    ui.scroll = 2;
    press(&mut ui, Key::Up);
    assert_eq!(ui.scroll, 0);
}

#[test]
fn sort_keys() {
    let mut ui = Ui::default();
    press(&mut ui, Key::Char('v'));
    assert_eq!(ui.sort, SortMode::Value);
    press(&mut ui, Key::Char('d'));
    assert_eq!(ui.sort, SortMode::Distance);
}

#[test]
fn typed_threshold_applies() {
    let mut ui = Ui::default();
    ui.scroll = 9;
    press(&mut ui, Key::Char('t'));
    assert!(ui.input.is_some());
    for c in "1500000".chars() {
        assert_eq!(press(&mut ui, Key::Char(c)), KeyAction::Keep);
    }
    assert_eq!(ui.input.as_ref().unwrap().buffer, "1500000");
    press(&mut ui, Key::Enter);
    assert_eq!(ui.threshold, 1500000);
    assert!(ui.input.is_none());
    assert_eq!(ui.scroll, 9);
    assert_eq!(ui.sort, SortMode::BodyId);
}

#[test]
fn bad_threshold_is_refused() {
    let mut ui = Ui::default();
    ui.threshold = 5;
    press(&mut ui, Key::Char('t'));
    press(&mut ui, Key::Char('1'));
    press(&mut ui, Key::Char('x'));
    press(&mut ui, Key::Enter);
    assert_eq!(ui.threshold, 5);
    let input = ui.input.as_ref().unwrap();
    assert_eq!(input.buffer, "1x");
    assert_eq!(input.error.as_deref(), Some("not a valid number"));
    press(&mut ui, Key::Backspace);
    let input = ui.input.as_ref().unwrap();
    assert_eq!(input.buffer, "1");
    assert!(input.error.is_none());
    press(&mut ui, Key::Enter);
    assert_eq!(ui.threshold, 1);
    assert!(ui.input.is_none());
}

#[test]
fn empty_threshold_is_refused() {
    let mut ui = Ui::default();
    press(&mut ui, Key::Char('t'));
    press(&mut ui, Key::Enter);
    assert_eq!(ui.input.as_ref().unwrap().error.as_deref(), Some("not a valid number"));
    press(&mut ui, Key::Backspace);
    assert_eq!(ui.input.as_ref().unwrap().buffer, "");
}

#[test]
fn popup_takes_every_key() {
    let mut ui = Ui::default();
    press(&mut ui, Key::Char('t'));
    assert_eq!(press(&mut ui, Key::Char('q')), KeyAction::Keep);
    assert_eq!(press(&mut ui, Key::Down), KeyAction::Keep);
    assert_eq!(press(&mut ui, Key::Char('v')), KeyAction::Keep);
    assert_eq!(ui.scroll, 0);
    assert_eq!(ui.sort, SortMode::BodyId);
    assert_eq!(ui.input.as_ref().unwrap().buffer, "qv");
    assert_eq!(ui.handle_key(Key::Char('c'), true), KeyAction::Keep);
    assert_eq!(ui.input.as_ref().unwrap().buffer, "qv");
}

#[test]
fn escape_discards_the_popup() {
    let mut ui = Ui::default();
    ui.threshold = 77;
    ui.input = Some(Input { buffer: "123".to_string(), error: None, purpose: Purpose::Threshold });
    assert_eq!(press(&mut ui, Key::Esc), KeyAction::Keep);
    assert!(ui.input.is_none());
    assert_eq!(ui.threshold, 77);
}

#[test]
fn entering_another_system_resets_the_scroll() {
    let mut ui = Ui::default();
    ui.scroll = 12;
    ui.enter_system(None);
    assert_eq!(ui.scroll, 12);
    ui.enter_system(Some(5));
    assert_eq!(ui.scroll, 0);
    assert_eq!(ui.last_system, Some(5));
    ui.scroll = 4;
    ui.enter_system(Some(5));
    assert_eq!(ui.scroll, 4);
}

fn route() -> Route {
    let stops = vec![
        RawStop { system: "Alpha".to_string(), id64: "10".to_string(), jumps: 1 },
        RawStop { system: "Beta".to_string(), id64: "20".to_string(), jumps: 2 },
        RawStop { system: "Gamma".to_string(), id64: "30".to_string(), jumps: 3 },
    ];
    match Route::from_stops(stops) {
        Ok(route) => route,
        Err(_) => panic!("route refused"),
    }
}

#[test]
fn route_popup_asks_for_loading() {
    let mut ui = Ui::default();
    press(&mut ui, Key::Char('r'));
    assert_eq!(ui.input.as_ref().unwrap().purpose, Purpose::RoutePath);
    for c in "/tmp/r.json".chars() {
        press(&mut ui, Key::Char(c));
    }
    assert_eq!(press(&mut ui, Key::Enter), KeyAction::LoadRoute("/tmp/r.json".to_string()));
    assert!(ui.input.is_some());
    ui.route_loaded(Err("cannot read /tmp/r.json: gone".to_string()));
    let input = ui.input.as_ref().unwrap();
    assert_eq!(input.error.as_deref(), Some("cannot read /tmp/r.json: gone"));
    assert_eq!(input.buffer, "/tmp/r.json");
    assert!(ui.route.is_none());
    ui.route_loaded(Ok(route()));
    assert!(ui.input.is_none());
    assert_eq!(ui.route.as_ref().unwrap().len(), 3);
}

#[test]
fn a_loaded_route_without_the_popup_is_dropped() {
    let mut ui = Ui::default();
    ui.route_loaded(Ok(route()));
    assert!(ui.route.is_none());
    press(&mut ui, Key::Char('t'));
    ui.route_loaded(Ok(route()));
    assert!(ui.route.is_none());
    assert_eq!(ui.input.as_ref().unwrap().purpose, Purpose::Threshold);
}

#[test]
fn copy_the_next_destination() {
    let mut ui = Ui::default();
    assert_eq!(press(&mut ui, Key::Char('c')), KeyAction::Keep);
    ui.route = Some(route());
    assert_eq!(press(&mut ui, Key::Char('c')), KeyAction::Copy("Alpha".to_string()));
    assert_eq!(ui.arrive(20), Some("Gamma".to_string()));
    assert_eq!(press(&mut ui, Key::Char('c')), KeyAction::Copy("Gamma".to_string()));
    assert_eq!(ui.arrive(20), None);
    assert_eq!(ui.arrive(30), None);
    assert!(ui.route.as_ref().unwrap().complete());
    assert_eq!(press(&mut ui, Key::Char('c')), KeyAction::Keep);
}

#[test]
fn arriving_without_a_route() {
    let mut ui = Ui::default();
    assert_eq!(ui.arrive(10), None);
    assert!(ui.route.is_none());
}
