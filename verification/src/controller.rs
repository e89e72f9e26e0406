//! The controller: the page's state, what each user event does to it, what
//! is persisted, and how a page starts up from its address and its store.

use vstd::prelude::*;
use crate::codec::{parse, parse_outcome, Outcome, ParseOutcome};
use crate::json::{encoded_flag, encoded_mode, encoded_text, flag_round_trip, mode_round_trip, text_round_trip};
use crate::mode::{mode_named, name_of, name_round_trip, ModeRegistry, ParseMode};
use crate::query::{
    address_round_trip, address_with, build_url, first_value, lookup, pairs_view, parsed_query,
    query_of, read_params,
};
use crate::store::{key_name, stored_dark, stored_mode, stored_value, Key, LocalStore};

verus! {

/// The input that a first-time visitor sees: a small CBOR map in hex.
pub open spec fn seed_text() -> Seq<char> {
    "bf6346756ef563416d7421ff"@
}

/// The text of the permalink anchor.
pub open spec fn permalink_label() -> Seq<char> {
    "Permalink to the playground"@
}

/// The input that a first-time visitor sees.
pub fn seed_input() -> (seed: &'static str)
    ensures
        seed@ == seed_text(),
{
    "bf6346756ef563416d7421ff"
}

/// The long-lived state of the page.
#[derive(Debug)]
pub struct AppState {
    /// The selected parse mode.
    pub mode: ParseMode,
    /// The user's raw text.
    pub input: String,
    /// The last canonical hex, or the last error message.
    pub hex_out: String,
    /// The last pretty diagnostic notation; empty beside an error message.
    pub diag_out: String,
    /// Whether the dark theme is on, that is, whether the body bears the
    /// class `dark`.
    pub dark: bool,
}

/// The mathematical value of an [`AppState`].
pub struct State {
    pub mode: ParseMode,
    pub input: Seq<char>,
    pub hex_out: Seq<char>,
    pub diag_out: Seq<char>,
    pub dark: bool,
}

impl View for AppState {
    type V = State;

    open spec fn view(&self) -> State {
        State {
            mode: self.mode,
            input: self.input@,
            hex_out: self.hex_out@,
            diag_out: self.diag_out@,
            dark: self.dark,
        }
    }
}

/// The permalink anchor: where it points and what it reads.
#[derive(Debug)]
pub struct Permalink {
    /// The anchor's `href`.
    pub href: String,
    /// The anchor's text.
    pub label: String,
}

/// Something the user did.
#[derive(Debug)]
pub enum Event {
    /// The submit button was clicked, or the submit chord pressed.
    Submitted,
    /// A key was released in the input, which now holds the given text.
    TextChanged(String),
    /// The radio of the given mode was selected.
    ModeChanged(ParseMode),
    /// The save button was clicked.
    SaveRequested,
    /// The dark-mode button was clicked.
    DarkToggled,
}

/// The mathematical value of an [`Event`].
pub enum Action {
    Submitted,
    TextChanged(Seq<char>),
    ModeChanged(ParseMode),
    SaveRequested,
    DarkToggled,
}

impl View for Event {
    type V = Action;

    open spec fn view(&self) -> Action {
        match self {
            Event::Submitted => Action::Submitted,
            Event::TextChanged(text) => Action::TextChanged(text@),
            Event::ModeChanged(mode) => Action::ModeChanged(*mode),
            Event::SaveRequested => Action::SaveRequested,
            Event::DarkToggled => Action::DarkToggled,
        }
    }
}

/// Everything the controller owns, as mathematical values: the state, the
/// radio group, the local store, the page's address and the permalink anchor
/// (its `href` and its text, once it was built).
pub struct Page {
    pub state: State,
    pub radios: ModeRegistry,
    pub store: Map<Key, Seq<char>>,
    pub address: Seq<char>,
    pub permalink: Option<(Seq<char>, Seq<char>)>,
}

impl Page {
    /// What holds of the page after start-up and after every event: the
    /// radio group shows exactly the current mode, and the theme is dark
    /// exactly when the store holds `true` under `dark`.
    pub open spec fn consistent(self) -> bool {
        &&& self.radios == ModeRegistry::showing(self.state.mode)
        &&& self.state.dark == (stored_dark(self.store) == Some(true))
    }
}

/// What the two output panes show for an outcome: hex and notation of a
/// success; of a failure the message in the hex pane, and nothing in the
/// other.
pub open spec fn panes_of(outcome: Outcome) -> (Seq<char>, Seq<char>) {
    match outcome {
        Outcome::Success { hex, diag } => (hex, diag),
        Outcome::Failure { message } => (message, Seq::empty()),
    }
}

/// The page after a commit with the given outcome: the panes show the
/// outcome, and the store holds the current mode and input.
pub open spec fn committed(page: Page, outcome: Outcome) -> Page {
    Page {
        state: State { hex_out: panes_of(outcome).0, diag_out: panes_of(outcome).1, ..page.state },
        store: page.store.insert(Key::Type, encoded_mode(page.state.mode)).insert(
            Key::Value,
            encoded_text(page.state.input),
        ),
        ..page
    }
}

/// The page after a silent parse with the given outcome: committed where the
/// input was accepted, and untouched where it was rejected.
pub open spec fn shown_if_parsed(page: Page, outcome: Outcome) -> Page {
    if outcome is Success {
        committed(page, outcome)
    } else {
        page
    }
}

/// The page with the given text in its input.
pub open spec fn typed(page: Page, text: Seq<char>) -> Page {
    Page { state: State { input: text, ..page.state }, ..page }
}

/// The page with the given mode selected.
pub open spec fn switched(page: Page, mode: ParseMode) -> Page {
    Page { state: State { mode, ..page.state }, radios: ModeRegistry::showing(mode), ..page }
}

/// The page with the other theme, persisted.
pub open spec fn toggled(page: Page) -> Page {
    Page {
        state: State { dark: !page.state.dark, ..page.state },
        store: page.store.insert(Key::Dark, encoded_flag(!page.state.dark)),
        ..page
    }
}

/// The pairs that a permalink carries: the mode by its name, and the raw
/// input.
pub open spec fn link_pairs(mode: ParseMode, input: Seq<char>) -> Seq<(Seq<char>, Seq<char>)> {
    seq![(key_name(Key::Type), name_of(mode)), (key_name(Key::Value), input)]
}

/// The address that restores the given mode and input.
pub open spec fn permalink_to(address: Seq<char>, mode: ParseMode, input: Seq<char>) -> Seq<char> {
    address_with(address, link_pairs(mode, input))
}

/// The page with its permalink anchor pointing to the current mode and
/// input.
pub open spec fn with_permalink(page: Page) -> Page {
    Page {
        permalink: Some((permalink_to(page.address, page.state.mode, page.state.input), permalink_label())),
        ..page
    }
}

/// The page after an event.
pub open spec fn after_event(page: Page, action: Action) -> Page {
    match action {
        Action::Submitted => committed(page, parse_outcome(page.state.mode, page.state.input)),
        Action::TextChanged(text) => shown_if_parsed(typed(page, text), parse_outcome(page.state.mode, text)),
        Action::ModeChanged(mode) => committed(switched(page, mode), parse_outcome(mode, page.state.input)),
        Action::SaveRequested => with_permalink(page),
        Action::DarkToggled => toggled(page),
    }
}

/// The mode that the address asks for: the mode named by its first `type`
/// parameter.
pub open spec fn address_mode(params: Seq<(Seq<char>, Seq<char>)>) -> Option<ParseMode> {
    match first_value(params, key_name(Key::Type)) {
        Some(name) => mode_named(name),
        None => None,
    }
}

/// The mode and input that a page starts with. The address wins where it
/// names a mode and has a value; else the store, where it holds both; else
/// the seed.
pub open spec fn start_of(params: Seq<(Seq<char>, Seq<char>)>, entries: Map<Key, Seq<char>>) -> (
    ParseMode,
    Seq<char>,
) {
    let address_value = first_value(params, key_name(Key::Value));
    if address_mode(params) is Some && address_value is Some {
        (address_mode(params)->0, address_value->0)
    } else if stored_mode(entries) is Some && stored_value(entries) is Some {
        (stored_mode(entries)->0, stored_value(entries)->0)
    } else {
        (ParseMode::Hex, seed_text())
    }
}

/// The page before its first parse: mode and input resolved, the theme as
/// stored (light where nothing is stored), empty panes, no permalink.
pub open spec fn opened(address: Seq<char>, entries: Map<Key, Seq<char>>) -> Page {
    let start = start_of(parsed_query(query_of(address)), entries);
    Page {
        state: State {
            mode: start.0,
            input: start.1,
            hex_out: Seq::empty(),
            diag_out: Seq::empty(),
            dark: stored_dark(entries) == Some(true),
        },
        radios: ModeRegistry::showing(start.0),
        store: entries,
        address,
        permalink: None,
    }
}

/// The page after start-up: opened, then committed once.
pub open spec fn bootstrapped(address: Seq<char>, entries: Map<Key, Seq<char>>) -> Page {
    let page = opened(address, entries);
    committed(page, parse_outcome(page.state.mode, page.state.input))
}

/// Resolves the mode and input that a page starts with.
pub fn resolve_start(params: &Vec<(String, String)>, store: &LocalStore) -> (start: (ParseMode, String))
    ensures
        (start.0, start.1@) == start_of(pairs_view(params@), store@),
{
    let address_mode = match lookup(params, Key::Type.name()) {
        Some(name) => ParseMode::from_name(name.as_str()),
        None => None,
    };
    let address_value = lookup(params, Key::Value.name());
    match (address_mode, address_value) {
        (Some(mode), Some(value)) => (mode, value.clone()),
        _ => match (store.load_mode(), store.load_value()) {
            (Some(mode), Some(value)) => (mode, value),
            _ => (ParseMode::Hex, seed_input().to_owned()),
        },
    }
}

/// The controller: it owns the state, the radio group, the local store, the
/// page's address and the permalink anchor, and nothing else changes them.
#[derive(Debug)]
pub struct Controller {
    state: AppState,
    radios: ModeRegistry,
    store: LocalStore,
    address: String,
    permalink: Option<Permalink>,
}

impl View for Controller {
    type V = Page;

    closed spec fn view(&self) -> Page {
        Page {
            state: self.state@,
            radios: self.radios,
            store: self.store@,
            address: self.address@,
            permalink: match self.permalink {
                Some(link) => Some((link.href@, link.label@)),
                None => None,
            },
        }
    }
}

impl Controller {
    /// Starts a page up from its address and its local store: resolves mode
    /// and input, selects the mode's radio, applies the stored theme, and
    /// commits one parse.
    pub fn bootstrap(address: &str, store: LocalStore) -> (controller: Controller)
        ensures
            controller@ == bootstrapped(address@, store@),
            controller@.consistent(),
    {
        let params = read_params(address);
        let (mode, input) = resolve_start(&params, &store);
        let dark = match store.load_dark() {
            Some(flag) => flag,
            None => false,
        };
        let mut radios = ModeRegistry { auto: false, hex: false, diag: false };
        radios.set_mode(mode);
        let mut controller = Controller {
            state: AppState { mode, input, hex_out: String::new(), diag_out: String::new(), dark },
            radios,
            store,
            address: address.to_owned(),
            permalink: None,
        };
        assert(controller@ == opened(address@, store@));
        proof {
            commit_keeps_consistent(controller@, parse_outcome(mode, controller@.state.input));
        }
        controller.commit_parse();
        controller
    }

    /// Shows an outcome and persists mode and input: hex and notation of a
    /// success; of a failure the message in the hex pane and an empty
    /// notation pane.
    pub fn apply_commit(&mut self, outcome: ParseOutcome)
        ensures
            final(self)@ == committed(old(self)@, outcome@),
    {
        match outcome {
            ParseOutcome::Success { hex, diag } => {
                self.state.hex_out = hex;
                self.state.diag_out = diag;
            },
            ParseOutcome::Failure { message } => {
                self.state.hex_out = message;
                self.state.diag_out = String::new();
            },
        }
        self.store.store_mode(self.state.mode);
        self.store.store_value(self.state.input.as_str());
    }

    /// Shows and persists an outcome only where it is a success; a failure
    /// changes nothing at all.
    pub fn apply_silent(&mut self, outcome: ParseOutcome)
        ensures
            final(self)@ == shown_if_parsed(old(self)@, outcome@),
    {
        if outcome.is_success() {
            self.apply_commit(outcome);
        }
    }

    /// Takes over what the input element holds, without parsing it. A
    /// handler that is not told the text by its event reads it this way.
    pub fn read_input(&mut self, text: String)
        ensures
            final(self)@ == typed(old(self)@, text@),
    {
        self.state.input = text;
    }

    /// Parses the current input in the current mode and commits the outcome,
    /// errors included.
    pub fn commit_parse(&mut self)
        ensures
            final(self)@ == after_event(old(self)@, Action::Submitted),
    {
        let outcome = parse(self.state.mode, self.state.input.as_str());
        self.apply_commit(outcome);
    }

    /// Takes the input's new text and parses it silently: a success is shown
    /// and persisted, a failure leaves panes and store as they were.
    pub fn try_silent_parse(&mut self, text: String)
        ensures
            final(self)@ == after_event(old(self)@, Action::TextChanged(text@)),
    {
        self.state.input = text;
        let outcome = parse(self.state.mode, self.state.input.as_str());
        self.apply_silent(outcome);
    }

    /// Selects a mode and commits a parse in it.
    pub fn change_mode(&mut self, mode: ParseMode)
        ensures
            final(self)@ == after_event(old(self)@, Action::ModeChanged(mode)),
    {
        self.state.mode = mode;
        self.radios.set_mode(mode);
        let outcome = parse(self.state.mode, self.state.input.as_str());
        self.apply_commit(outcome);
    }

    /// Switches the theme and persists the new flag.
    pub fn toggle_theme(&mut self)
        ensures
            final(self)@ == after_event(old(self)@, Action::DarkToggled),
    {
        self.state.dark = !self.state.dark;
        self.store.store_dark(self.state.dark);
    }

    /// Points the permalink anchor to the address that restores the current
    /// mode and input.
    pub fn build_permalink(&mut self)
        ensures
            final(self)@ == after_event(old(self)@, Action::SaveRequested),
    {
        let mut pairs: Vec<(String, String)> = Vec::new();
        pairs.push((Key::Type.name().to_owned(), self.state.mode.name().to_owned()));
        pairs.push((Key::Value.name().to_owned(), self.state.input.clone()));
        assert(pairs_view(pairs@) =~= link_pairs(self.state.mode, self.state.input@));
        let href = build_url(self.address.as_str(), &pairs);
        self.permalink = Some(Permalink { href, label: "Permalink to the playground".to_owned() });
    }

    /// Handles one event.
    pub fn handle(&mut self, event: Event)
        ensures
            final(self)@ == after_event(old(self)@, event@),
            old(self)@.consistent() ==> final(self)@.consistent(),
    {
        proof {
            if self@.consistent() {
                event_keeps_consistent(self@, event@);
            }
        }
        match event {
            Event::Submitted => self.commit_parse(),
            Event::TextChanged(text) => self.try_silent_parse(text),
            Event::ModeChanged(mode) => self.change_mode(mode),
            Event::SaveRequested => self.build_permalink(),
            Event::DarkToggled => self.toggle_theme(),
        }
    }

    /// The state of the page.
    pub fn state(&self) -> (state: &AppState)
        ensures
            state@ == self@.state,
    {
        &self.state
    }

    /// The mode that the radio group shows.
    pub fn current_mode(&self) -> (mode: ParseMode)
        ensures
            mode == self@.radios.selected(),
    {
        self.radios.current_mode()
    }

    /// The local store.
    pub fn store(&self) -> (store: &LocalStore)
        ensures
            store@ == self@.store,
    {
        &self.store
    }

    /// The permalink anchor, once it was built.
    pub fn permalink(&self) -> (link: Option<&Permalink>)
        ensures
            match link {
                Some(l) => self@.permalink == Some((l.href@, l.label@)),
                None => self@.permalink is None,
            },
    {
        self.permalink.as_ref()
    }
}

/// A commit keeps the radio group and the theme in step with mode and store.
pub proof fn commit_keeps_consistent(page: Page, outcome: Outcome)
    requires
        page.consistent(),
    ensures
        committed(page, outcome).consistent(),
{
}

/// A page is consistent after start-up, and stays so after every event.
pub proof fn event_keeps_consistent(page: Page, action: Action)
    requires
        page.consistent(),
    ensures
        after_event(page, action).consistent(),
{
    match action {
        Action::DarkToggled => {
            flag_round_trip(!page.state.dark);
        },
        _ => {},
    }
}

/// A page is consistent after start-up, whatever its address and its store.
pub proof fn bootstrap_is_consistent(address: Seq<char>, entries: Map<Key, Seq<char>>)
    ensures
        bootstrapped(address, entries).consistent(),
{
}

/// The address comes before the store, and the store before the seed.
pub proof fn start_precedence(
    params: Seq<(Seq<char>, Seq<char>)>,
    entries: Map<Key, Seq<char>>,
    mode: ParseMode,
    value: Seq<char>,
)
    ensures
        address_mode(params) == Some(mode) && first_value(params, key_name(Key::Value)) == Some(value)
            ==> start_of(params, entries) == (mode, value),
        !(address_mode(params) is Some && first_value(params, key_name(Key::Value)) is Some) && stored_mode(
            entries,
        ) == Some(mode) && stored_value(entries) == Some(value) ==> start_of(params, entries) == (
            mode,
            value,
        ),
        !(address_mode(params) is Some && first_value(params, key_name(Key::Value)) is Some) && !(
        stored_mode(entries) is Some && stored_value(entries) is Some) ==> start_of(params, entries) == (
            ParseMode::Hex,
            seed_text(),
        ),
{
}

/// A key release whose text fails to parse leaves both panes, the store and
/// everything else but the input as they were.
pub proof fn failed_keyup_keeps_panes(page: Page, text: Seq<char>)
    requires
        parse_outcome(page.state.mode, text) is Failure,
    ensures
        after_event(page, Action::TextChanged(text)) == typed(page, text),
        after_event(page, Action::TextChanged(text)).state.hex_out == page.state.hex_out,
        after_event(page, Action::TextChanged(text)).state.diag_out == page.state.diag_out,
        after_event(page, Action::TextChanged(text)).store == page.store,
{
}

/// After a commit the store holds the current mode under `type` and the
/// current input under `value`, and the panes show the outcome.
pub proof fn commit_persists(page: Page, outcome: Outcome)
    ensures
        stored_mode(committed(page, outcome).store) == Some(page.state.mode),
        stored_value(committed(page, outcome).store) == Some(page.state.input),
        committed(page, outcome).state.mode == page.state.mode,
        committed(page, outcome).state.input == page.state.input,
        (committed(page, outcome).state.hex_out, committed(page, outcome).state.diag_out) == panes_of(outcome),
{
    mode_round_trip(page.state.mode);
    text_round_trip(page.state.input);
}

/// Each of the commit events (submit, a mode change, a key release that
/// parses, start-up) ends with the store holding the mode and input that the
/// page then has.
pub proof fn commit_events_persist(page: Page, action: Action)
    requires
        match action {
            Action::Submitted => true,
            Action::ModeChanged(_) => true,
            Action::TextChanged(text) => parse_outcome(page.state.mode, text) is Success,
            _ => false,
        },
    ensures
        stored_mode(after_event(page, action).store) == Some(after_event(page, action).state.mode),
        stored_value(after_event(page, action).store) == Some(after_event(page, action).state.input),
{
    match action {
        Action::Submitted => {
            commit_persists(page, parse_outcome(page.state.mode, page.state.input));
        },
        Action::ModeChanged(mode) => {
            commit_persists(switched(page, mode), parse_outcome(mode, page.state.input));
        },
        Action::TextChanged(text) => {
            commit_persists(typed(page, text), parse_outcome(page.state.mode, text));
        },
        _ => {},
    }
}

/// Start-up ends with the store holding the mode and input it resolved.
pub proof fn bootstrap_persists(address: Seq<char>, entries: Map<Key, Seq<char>>)
    ensures
        stored_mode(bootstrapped(address, entries).store) == Some(bootstrapped(address, entries).state.mode),
        stored_value(bootstrapped(address, entries).store) == Some(
            bootstrapped(address, entries).state.input,
        ),
{
    let page = opened(address, entries);
    commit_persists(page, parse_outcome(page.state.mode, page.state.input));
}

/// The theme is dark exactly when it was toggled to dark: a toggle flips the
/// flag and the store then holds the new flag.
pub proof fn toggle_persists(page: Page)
    ensures
        toggled(page).state.dark == !page.state.dark,
        stored_dark(toggled(page).store) == Some(!page.state.dark),
{
    flag_round_trip(!page.state.dark);
}

/// A permalink restores what it was built from: a page opened at the
/// permalink's address starts with the same mode and input, whatever its
/// store holds, and so shows the same panes.
pub proof fn permalink_restores(
    address: Seq<char>,
    mode: ParseMode,
    input: Seq<char>,
    entries: Map<Key, Seq<char>>,
)
    ensures
        start_of(parsed_query(query_of(permalink_to(address, mode, input))), entries) == (mode, input),
        bootstrapped(permalink_to(address, mode, input), entries).state.mode == mode,
        bootstrapped(permalink_to(address, mode, input), entries).state.input == input,
        (
            bootstrapped(permalink_to(address, mode, input), entries).state.hex_out,
            bootstrapped(permalink_to(address, mode, input), entries).state.diag_out,
        ) == panes_of(parse_outcome(mode, input)),
{
    let pairs = link_pairs(mode, input);
    address_round_trip(address, pairs);
    name_round_trip(mode);
    reveal_strlit("type");
    reveal_strlit("value");
    assert("type"@.len() == 4 && "value"@.len() == 5);
    assert(pairs[0].0 == key_name(Key::Type));
    assert(first_value(pairs, key_name(Key::Type)) == Some(name_of(mode)));
    assert(key_name(Key::Type) != key_name(Key::Value));
    assert(pairs.drop_first()[0] == (key_name(Key::Value), input));
    assert(first_value(pairs.drop_first(), key_name(Key::Value)) == Some(input));
    assert(first_value(pairs, key_name(Key::Value)) == Some(input));
}

} // verus!
