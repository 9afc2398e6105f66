//! The view's own state and what each key press does to it.
use vstd::prelude::*;

use crate::route::{first_match, lemma_first_match, Route, Stop};
use crate::systems::opt_seq;
use crate::text::{
    decimal, is_u64_text, lemma_decimal_reads_back, parse_u64, pop_char, push_char, u64_text_value,
};

verus! {

/// Everything the view remembers between frames.
pub struct Ui {
    pub journal_dir: String,
    pub scroll: usize,
    pub sort: SortMode,
    pub threshold: u64,
    pub input: Option<Input>,
    pub last_system: Option<u64>,
    /// The loaded route, if any.
    pub route: Option<Route>,
}

/// What an open popup asks for.
#[derive(Clone, Copy, PartialEq, Eq, Structural, Debug)]
pub enum Purpose {
    /// The minimum species value.
    Threshold,
    /// The path of a route file to load.
    RoutePath,
}

/// An open popup: what it asks for, what has been typed and the last
/// complaint.
pub struct Input {
    pub buffer: String,
    pub error: Option<String>,
    pub purpose: Purpose,
}

/// How the planet list is ordered (after incomplete-before-complete).
#[derive(Clone, Copy, PartialEq, Eq, Structural, Debug)]
pub enum SortMode {
    BodyId,
    Value,
    Distance,
}

/// What the program does after a key.
#[derive(PartialEq, Eq, Debug)]
pub enum KeyAction {
    /// Go on.
    Keep,
    /// Stop.
    Quit,
    /// Load the route file at this path and report back with `route_loaded`.
    LoadRoute(String),
    /// Put this text on the clipboard.
    Copy(String),
}

/// The abstract action after a key.
pub enum Action {
    Keep,
    Quit,
    LoadRoute(Seq<char>),
    Copy(Seq<char>),
}

impl View for KeyAction {
    type V = Action;

    open spec fn view(&self) -> Action {
        match self {
            KeyAction::Keep => Action::Keep,
            KeyAction::Quit => Action::Quit,
            KeyAction::LoadRoute(p) => Action::LoadRoute(p@),
            KeyAction::Copy(t) => Action::Copy(t@),
        }
    }
}

/// A key press as the view tells keys apart.
#[derive(Clone, Copy, PartialEq, Eq, Structural, Debug)]
pub enum Key {
    Esc,
    Enter,
    Backspace,
    Up,
    Down,
    Char(char),
    Other,
}

/// The abstract state of the popup.
pub struct InputState {
    pub buffer: Seq<char>,
    pub error: Option<Seq<char>>,
    pub purpose: Purpose,
}

/// The abstract state of a loaded route: its stops and how many are done.
pub struct RouteState {
    pub stops: Seq<Stop>,
    pub done: nat,
}

/// The abstract state of the view.
pub struct UiState {
    pub journal_dir: Seq<char>,
    pub scroll: nat,
    pub sort: SortMode,
    pub threshold: u64,
    pub input: Option<InputState>,
    pub last_system: Option<u64>,
    pub route: Option<RouteState>,
}

impl View for Input {
    type V = InputState;

    open spec fn view(&self) -> InputState {
        InputState {
            buffer: self.buffer@,
            error: match self.error {
                Some(e) => Some(e@),
                None => None,
            },
            purpose: self.purpose,
        }
    }
}

impl View for Ui {
    type V = UiState;

    open spec fn view(&self) -> UiState {
        UiState {
            journal_dir: self.journal_dir@,
            scroll: self.scroll as nat,
            sort: self.sort,
            threshold: self.threshold,
            input: match self.input {
                Some(i) => Some(i@),
                None => None,
            },
            last_system: self.last_system,
            route: match self.route {
                Some(r) => Some(RouteState { stops: r.stops(), done: r.done() }),
                None => None,
            },
        }
    }
}

/// The complaint shown when the typed threshold is not a number.
pub open spec fn not_a_number() -> Seq<char> {
    "not a valid number"@
}

/// `s` with another popup state.
pub open spec fn with_input(s: UiState, input: Option<InputState>) -> UiState {
    UiState { input, ..s }
}

/// What a key does to the popup while it is open.
pub open spec fn after_popup_key(s: UiState, i: InputState, key: Key, control: bool) -> UiState {
    match key {
        Key::Esc => with_input(s, None),
        Key::Enter => if i.purpose == Purpose::RoutePath {
            s
        } else if is_u64_text(i.buffer) {
            UiState { threshold: u64_text_value(i.buffer) as u64, input: None, ..s }
        } else {
            with_input(
                s,
                Some(InputState { buffer: i.buffer, error: Some(not_a_number()), purpose: i.purpose }),
            )
        },
        Key::Backspace => with_input(
            s,
            Some(
                InputState {
                    buffer: if i.buffer.len() > 0 {
                        i.buffer.drop_last()
                    } else {
                        i.buffer
                    },
                    error: None,
                    purpose: i.purpose,
                },
            ),
        ),
        Key::Char(c) => if !control {
            with_input(s, Some(InputState { buffer: i.buffer.push(c), error: None, purpose: i.purpose }))
        } else {
            s
        },
        _ => s,
    }
}

/// What a key does to the view when no popup is open.
pub open spec fn after_list_key(s: UiState, key: Key) -> UiState {
    match key {
        Key::Up => UiState { scroll: if s.scroll >= 3 { (s.scroll - 3) as nat } else { 0 }, ..s },
        Key::Down => UiState { scroll: s.scroll + 3, ..s },
        Key::Char(c) => if c == 'k' {
            UiState { scroll: if s.scroll >= 3 { (s.scroll - 3) as nat } else { 0 }, ..s }
        } else if c == 'j' {
            UiState { scroll: s.scroll + 3, ..s }
        } else if c == 'v' {
            UiState { sort: SortMode::Value, ..s }
        } else if c == 'd' {
            UiState { sort: SortMode::Distance, ..s }
        } else if c == 't' {
            with_input(
                s,
                Some(InputState { buffer: Seq::empty(), error: None, purpose: Purpose::Threshold }),
            )
        } else if c == 'r' {
            with_input(
                s,
                Some(InputState { buffer: Seq::empty(), error: None, purpose: Purpose::RoutePath }),
            )
        } else {
            s
        },
        _ => s,
    }
}

/// The view after a key press.
pub open spec fn after_key(s: UiState, key: Key, control: bool) -> UiState {
    match s.input {
        Some(i) => after_popup_key(s, i, key, control),
        None => after_list_key(s, key),
    }
}

/// A loaded route and the text to copy after arriving in the system at
/// `address`: everything up to and including the first stop at or after
/// the position with that address is ticked off, and the next
/// destination's name is copied when a stop was ticked off and the route
/// goes on.
pub open spec fn arrived(route: Option<RouteState>, address: u64) -> (Option<RouteState>, Option<
    Seq<char>,
>) {
    match route {
        None => (None, None),
        Some(b) => match first_match(b.stops, b.done as int, address) {
            Some(j) => (
                Some(RouteState { stops: b.stops, done: (j + 1) as nat }),
                if j + 1 < b.stops.len() {
                    Some(b.stops[j + 1].name@)
                } else {
                    None
                },
            ),
            None => (Some(b), None),
        },
    }
}

/// The next destination of a route, if it is not complete.
pub open spec fn next_stop(r: RouteState) -> Option<Stop> {
    if r.done < r.stops.len() {
        Some(r.stops[r.done as int])
    } else {
        None
    }
}

/// What follows a key: with no popup open, `q` and Esc quit and `c` copies
/// the next route destination; in the route popup Enter asks for the typed
/// path to be loaded; everything else goes on.
pub open spec fn key_action(s: UiState, key: Key) -> Action {
    match s.input {
        None => if key == Key::Esc || key == Key::Char('q') {
            Action::Quit
        } else if key == Key::Char('c') {
            match s.route {
                Some(r) => match next_stop(r) {
                    Some(stop) => Action::Copy(stop.name@),
                    None => Action::Keep,
                },
                None => Action::Keep,
            }
        } else {
            Action::Keep
        },
        Some(i) => if key == Key::Enter && i.purpose == Purpose::RoutePath {
            Action::LoadRoute(i.buffer)
        } else {
            Action::Keep
        },
    }
}

/// Whether a key would move the list down.
pub open spec fn scrolls_down(key: Key) -> bool {
    key == Key::Down || key == Key::Char('j')
}

/// The view after typing the characters of `t`, one key each, without
/// the control modifier.
pub open spec fn after_typing(s: UiState, t: Seq<char>) -> UiState
    decreases t.len(),
{
    if t.len() == 0 {
        s
    } else {
        after_key(after_typing(s, t.drop_last()), Key::Char(t.last()), false)
    }
}

proof fn lemma_typing_appends(s: UiState, t: Seq<char>)
    requires
        s.input is Some,
    ensures
        after_typing(s, t).input is Some,
        after_typing(s, t).input->0.buffer == s.input->0.buffer + t,
        t.len() > 0 ==> after_typing(s, t).input->0.error is None,
        after_typing(s, t).input->0.purpose == s.input->0.purpose,
        after_typing(s, t).threshold == s.threshold,
        after_typing(s, t).scroll == s.scroll,
        after_typing(s, t).sort == s.sort,
    decreases t.len(),
{
    if t.len() > 0 {
        lemma_typing_appends(s, t.drop_last());
        assert(s.input->0.buffer + t.drop_last() + seq![t.last()] == s.input->0.buffer + t);
    } else {
        assert(s.input->0.buffer + t == s.input->0.buffer);
    }
}

/// Opening the popup with `t`, typing the decimal digits of a number and
/// pressing Enter sets the threshold to that number and closes the popup;
/// the list's scroll position and order stay as they were.
pub proof fn law_typed_threshold_applies(s: UiState, n: u64)
    requires
        s.input is None,
    ensures
        ({
            let opened = after_key(s, Key::Char('t'), false);
            let done = after_key(after_typing(opened, decimal(n as nat)), Key::Enter, false);
            &&& done.threshold == n
            &&& done.input is None
            &&& done.scroll == s.scroll
            &&& done.sort == s.sort
        }),
{
    let opened = after_key(s, Key::Char('t'), false);
    lemma_typing_appends(opened, decimal(n as nat));
    lemma_decimal_reads_back(n);
    assert(Seq::<char>::empty() + decimal(n as nat) == decimal(n as nat));
}

/// While a popup is open every key is kept from the list: nothing quits
/// or copies, and the scroll position and the order do not change.
pub proof fn law_popup_takes_keys(s: UiState, key: Key, control: bool)
    requires
        s.input is Some,
    ensures
        key_action(s, key) is Keep || key_action(s, key) is LoadRoute,
        after_key(s, key, control).scroll == s.scroll,
        after_key(s, key, control).sort == s.sort,
        key != Key::Enter ==> after_key(s, key, control).threshold == s.threshold,
{
}

/// Esc closes the popup and drops what was typed, with the threshold left
/// as it was.
pub proof fn law_escape_discards(s: UiState)
    requires
        s.input is Some,
    ensures
        after_key(s, Key::Esc, false).input is None,
        after_key(s, Key::Esc, false).threshold == s.threshold,
{
}

/// With no popup open, Down (or `j`) moves the list three lines down and
/// Up (or `k`) three lines up, never above the top, and nothing else
/// changes; Up after Down comes back to where the list was.
pub proof fn law_scroll_keys(s: UiState)
    requires
        s.input is None,
    ensures
        after_key(s, Key::Down, false) == (UiState { scroll: s.scroll + 3, ..s }),
        after_key(s, Key::Char('j'), false) == after_key(s, Key::Down, false),
        after_key(s, Key::Up, false).scroll + 3 >= s.scroll,
        after_key(s, Key::Up, false).scroll <= s.scroll,
        after_key(s, Key::Up, false).scroll == 0 || after_key(s, Key::Up, false).scroll + 3
            == s.scroll,
        after_key(s, Key::Up, false) == (UiState { scroll: after_key(s, Key::Up, false).scroll, ..s }),
        after_key(s, Key::Char('k'), false) == after_key(s, Key::Up, false),
        after_key(after_key(s, Key::Down, false), Key::Up, false) == s,
{
}

/// With no popup open, `v` orders the list by value and `d` by distance,
/// whatever the order was, and nothing else changes; neither quits.
pub proof fn law_sort_keys(s: UiState)
    requires
        s.input is None,
    ensures
        after_key(s, Key::Char('v'), false) == (UiState { sort: SortMode::Value, ..s }),
        after_key(s, Key::Char('d'), false) == (UiState { sort: SortMode::Distance, ..s }),
        key_action(s, Key::Char('v')) is Keep,
        key_action(s, Key::Char('d')) is Keep,
        key_action(s, Key::Char('q')) is Quit,
        key_action(s, Key::Esc) is Quit,
{
}

/// In an open popup, typing a character and then Backspace leaves what was
/// typed as it was, with no complaint shown.
pub proof fn law_backspace_undoes_typing(s: UiState, c: char)
    requires
        s.input is Some,
    ensures
        after_key(after_key(s, Key::Char(c), false), Key::Backspace, false).input == Some(
            (InputState { buffer: s.input->0.buffer, error: None, purpose: s.input->0.purpose }),
        ),
        after_key(after_key(s, Key::Char(c), false), Key::Backspace, false).threshold == s.threshold,
{
    assert(s.input->0.buffer.push(c).drop_last() =~= s.input->0.buffer);
}

/// Enter in the threshold popup with text that is not a number keeps the
/// threshold and the popup, with what was typed, and shows the complaint.
pub proof fn law_bad_threshold_refused(s: UiState)
    requires
        s.input matches Some(i) && i.purpose == Purpose::Threshold && !is_u64_text(i.buffer),
    ensures
        after_key(s, Key::Enter, false).threshold == s.threshold,
        after_key(s, Key::Enter, false).input == Some(
            (InputState {
                buffer: s.input->0.buffer,
                error: Some("not a valid number"@),
                purpose: Purpose::Threshold,
            }),
        ),
{
}

/// Arriving in the system of the first stop at or after the route's
/// position that has its address ticks off every stop up to and including
/// it, and copies the name of the stop after it, if there is one; arriving
/// where no stop from the position on has the address changes nothing.
pub proof fn law_arrival_ticks_off(r: RouteState, k: int)
    requires
        r.done <= k < r.stops.len(),
        forall|m: int| r.done <= m < k ==> (#[trigger] r.stops[m]).address != r.stops[k].address,
    ensures
        arrived(Some(r), r.stops[k].address) == (
            Some((RouteState { stops: r.stops, done: (k + 1) as nat })),
            if k + 1 < r.stops.len() {
                Some(r.stops[k + 1].name@)
            } else {
                None
            },
        ),
{
    lemma_first_match(r.stops, r.done as int, r.stops[k].address);
}

/// Arriving in a system that no stop from the route's position on has
/// leaves the route as it was and copies nothing.
pub proof fn law_arrival_elsewhere(r: RouteState, address: u64)
    requires
        forall|m: int| r.done <= m < r.stops.len() ==> (#[trigger] r.stops[m]).address != address,
    ensures
        arrived(Some(r), address) == (Some(r), None::<Seq<char>>),
{
    lemma_first_match(r.stops, r.done as int, address);
}

impl SortMode {
    /// The name of the order, as the header shows it.
    pub fn label(self) -> (s: &'static str)
        ensures
            self is BodyId ==> s@ == "body id"@,
            self is Value ==> s@ == "value"@,
            self is Distance ==> s@ == "distance"@,
    {
        match self {
            SortMode::BodyId => "body id",
            SortMode::Value => "value",
            SortMode::Distance => "distance",
        }
    }
}

impl Default for SortMode {
    fn default() -> (s: SortMode)
        ensures
            s == SortMode::BodyId,
    {
        SortMode::BodyId
    }
}

impl Default for Ui {
    fn default() -> (ui: Ui)
        ensures
            ui@.journal_dir.len() == 0,
            ui@.scroll == 0,
            ui@.sort == SortMode::BodyId,
            ui@.threshold == 0,
            ui@.input is None,
            ui@.last_system is None,
            ui@.route is None,
    {
        Ui {
            journal_dir: String::new(),
            scroll: 0,
            sort: SortMode::BodyId,
            threshold: 0,
            input: None,
            last_system: None,
            route: None,
        }
    }
}

impl Ui {
    /// Applies one key press. While a popup is open it takes every key;
    /// otherwise keys scroll, pick the order, open a popup, copy the next
    /// route destination or quit.
    pub fn handle_key(&mut self, key: Key, control: bool) -> (r: KeyAction)
        requires
            old(self).input is None && scrolls_down(key) ==> old(self).scroll + 3 <= usize::MAX,
        ensures
            final(self)@ == after_key(old(self)@, key, control),
            r@ == key_action(old(self)@, key),
    {
        match self.input.take() {
            Some(input) => {
                let Input { mut buffer, error, purpose } = input;
                match key {
                    Key::Esc => KeyAction::Keep,
                    Key::Enter => {
                        match purpose {
                            Purpose::RoutePath => {
                                let path = buffer.clone();
                                self.input = Some(Input { buffer, error, purpose });
                                KeyAction::LoadRoute(path)
                            },
                            Purpose::Threshold => {
                                match parse_u64(buffer.as_str()) {
                                    Some(value) => {
                                        self.threshold = value;
                                    },
                                    None => {
                                        self.input = Some(
                                            Input {
                                                buffer,
                                                error: Some(String::from_str("not a valid number")),
                                                purpose,
                                            },
                                        );
                                    },
                                }
                                KeyAction::Keep
                            },
                        }
                    },
                    Key::Backspace => {
                        pop_char(&mut buffer);
                        self.input = Some(Input { buffer, error: None, purpose });
                        KeyAction::Keep
                    },
                    Key::Char(c) => {
                        if !control {
                            push_char(&mut buffer, c);
                            self.input = Some(Input { buffer, error: None, purpose });
                        } else {
                            self.input = Some(Input { buffer, error, purpose });
                        }
                        KeyAction::Keep
                    },
                    _ => {
                        self.input = Some(Input { buffer, error, purpose });
                        KeyAction::Keep
                    },
                }
            },
            None => {
                match key {
                    Key::Esc => {
                        return KeyAction::Quit;
                    },
                    Key::Up => {
                        self.scroll = self.scroll.saturating_sub(3);
                    },
                    Key::Down => {
                        self.scroll = self.scroll + 3;
                    },
                    Key::Char(c) => {
                        if c == 'q' {
                            return KeyAction::Quit;
                        } else if c == 'k' {
                            self.scroll = self.scroll.saturating_sub(3);
                        } else if c == 'j' {
                            self.scroll = self.scroll + 3;
                        } else if c == 'v' {
                            self.sort = SortMode::Value;
                        } else if c == 'd' {
                            self.sort = SortMode::Distance;
                        } else if c == 't' {
                            self.input = Some(
                                Input { buffer: String::new(), error: None, purpose: Purpose::Threshold },
                            );
                        } else if c == 'r' {
                            self.input = Some(
                                Input { buffer: String::new(), error: None, purpose: Purpose::RoutePath },
                            );
                        } else if c == 'c' {
                            if let Some(route) = &self.route {
                                if let Some(stop) = route.next() {
                                    return KeyAction::Copy(stop.name.clone());
                                }
                            }
                        }
                    },
                    _ => {},
                }
                KeyAction::Keep
            },
        }
    }

    /// Takes the outcome of loading the route file asked for by the route
    /// popup: a route replaces the old one and closes the popup, a failure
    /// is shown in it. With no route popup open nothing changes.
    pub fn route_loaded(&mut self, loaded: Result<Route, String>)
        ensures
            old(self)@.input is Some && old(self)@.input->0.purpose == Purpose::RoutePath ==> match loaded {
                Ok(route) => final(self)@ == UiState {
                    input: None,
                    route: Some(RouteState { stops: route.stops(), done: route.done() }),
                    ..old(self)@
                },
                Err(m) => final(self)@ == UiState {
                    input: Some(InputState { error: Some(m@), ..old(self)@.input->0 }),
                    ..old(self)@
                },
            },
            !(old(self)@.input matches Some(i) && i.purpose == Purpose::RoutePath) ==> final(self)@
                == old(self)@,
    {
        let open = match &self.input {
            Some(input) => input.purpose == Purpose::RoutePath,
            None => false,
        };
        if !open {
            return;
        }
        match loaded {
            Ok(route) => {
                self.route = Some(route);
                self.input = None;
            },
            Err(message) => {
                let input = self.input.take();
                if let Some(input) = input {
                    self.input = Some(
                        Input { buffer: input.buffer, error: Some(message), purpose: input.purpose },
                    );
                }
            },
        }
    }

    /// The player arrived in the system at `address`: a loaded route ticks
    /// off everything up to and including the first stop at or after its
    /// position with that address. Returns the name of the next
    /// destination to put on the clipboard when a stop was ticked off and
    /// the route goes on.
    pub fn arrive(&mut self, address: u64) -> (r: Option<String>)
        ensures
            final(self)@.scroll == old(self)@.scroll,
            final(self)@.sort == old(self)@.sort,
            final(self)@.threshold == old(self)@.threshold,
            final(self)@.input == old(self)@.input,
            final(self)@.last_system == old(self)@.last_system,
            final(self)@.journal_dir == old(self)@.journal_dir,
            (final(self)@.route, opt_seq(r)) == arrived(old(self)@.route, address),
            old(self)@.route is None ==> final(self)@.route is None && r is None,
            old(self)@.route matches Some(before) ==> {
                let hit = first_match(before.stops, before.done as int, address);
                &&& final(self)@.route matches Some(after) && after.stops == before.stops && after.done
                    as int == match hit {
                    Some(j) => j + 1,
                    None => before.done as int,
                }
                &&& r is Some <==> (hit matches Some(j) && j + 1 < before.stops.len())
                &&& r matches Some(name) ==> name@ == before.stops[hit->0 + 1].name@
            },
    {
        proof {
            if let Some(b) = old(self)@.route {
                lemma_first_match(b.stops, b.done as int, address);
            }
        }
        match self.route.take() {
            None => None,
            Some(route) => {
                let mut route = route;
                let ticked = route.advance(address);
                let next = if ticked {
                    match route.next() {
                        Some(stop) => Some(stop.name.clone()),
                        None => None,
                    }
                } else {
                    None
                };
                self.route = Some(route);
                next
            },
        }
    }

    /// Starts a frame for the system at `address`: entering another system
    /// than the last frame showed puts the list back at its top.
    pub fn enter_system(&mut self, address: Option<u64>)
        ensures
            final(self).last_system == address,
            final(self).scroll == if old(self).last_system == address {
                old(self).scroll
            } else {
                0
            },
            final(self).journal_dir == old(self).journal_dir,
            final(self).sort == old(self).sort,
            final(self).threshold == old(self).threshold,
            final(self).input == old(self).input,
            final(self).route == old(self).route,
    {
        if self.last_system != address {
            self.scroll = 0;
            self.last_system = address;
        }
    }
}

} // verus!
