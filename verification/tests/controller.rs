use cbor_playground::controller::{resolve_start, seed_input, Controller, Event};
use cbor_playground::mode::ParseMode;
use cbor_playground::store::{Key, LocalStore};

const PAGE: &str = "https://example.org/playground/";

fn pairs(items: &[(&str, &str)]) -> Vec<(String, String)> {
    items.iter().map(|(k, v)| (k.to_string(), v.to_string())).collect()
}

fn store_with(mode: Option<ParseMode>, value: Option<&str>) -> LocalStore {
    let mut store = LocalStore::new();
    if let Some(mode) = mode {
        store.store_mode(mode);
    }
    if let Some(value) = value {
        store.store_value(value);
    }
    store
}

fn started(mode: ParseMode, input: &str) -> Controller {
    Controller::bootstrap(PAGE, store_with(Some(mode), Some(input)))
}

#[test]
fn address_wins_over_store() {
    let store = store_with(Some(ParseMode::Hex), Some("01"));
    let start = resolve_start(&pairs(&[("type", "diag"), ("value", "[2]")]), &store);
    assert_eq!(start, (ParseMode::Diag, "[2]".to_string()));
    let start = resolve_start(&pairs(&[("value", ""), ("type", "auto")]), &LocalStore::new());
    assert_eq!(start, (ParseMode::Auto, String::new()));
}

#[test]
fn store_wins_where_the_address_is_incomplete() {
    let store = store_with(Some(ParseMode::Hex), Some("01"));
    let stored = (ParseMode::Hex, "01".to_string());
    assert_eq!(resolve_start(&pairs(&[]), &store), stored);
    assert_eq!(resolve_start(&pairs(&[("type", "diag")]), &store), stored);
    assert_eq!(resolve_start(&pairs(&[("value", "[2]")]), &store), stored);
    assert_eq!(resolve_start(&pairs(&[("type", "bogus"), ("value", "[2]")]), &store), stored);
    assert_eq!(resolve_start(&pairs(&[("type", "\"diag\""), ("value", "[2]")]), &store), stored);
    assert_eq!(
        resolve_start(&pairs(&[("type", "bogus"), ("type", "diag"), ("value", "[2]")]), &store),
        stored
    );
}

#[test]
fn seed_where_neither_is_complete() {
    let seed = (ParseMode::Hex, "bf6346756ef563416d7421ff".to_string());
    assert_eq!(seed_input(), "bf6346756ef563416d7421ff");
    assert_eq!(resolve_start(&pairs(&[]), &LocalStore::new()), seed);
    assert_eq!(resolve_start(&pairs(&[("type", "diag")]), &store_with(Some(ParseMode::Diag), None)), seed);
    assert_eq!(resolve_start(&pairs(&[("value", "1")]), &store_with(None, Some("1"))), seed);
    let mut broken = store_with(Some(ParseMode::Diag), Some("1"));
    broken.set_raw(Key::Type, "diag".to_string());
    assert_eq!(resolve_start(&pairs(&[]), &broken), seed);
}

#[test]
fn seeded_load() {
    let controller = Controller::bootstrap(PAGE, LocalStore::new());
    let state = controller.state();
    assert_eq!(state.mode, ParseMode::Hex);
    assert_eq!(controller.current_mode(), ParseMode::Hex);
    assert_eq!(state.input, "bf6346756ef563416d7421ff");
    assert_eq!(state.hex_out, "bf6346756ef563416d7421ff");
    assert!(state.diag_out.starts_with("{_"));
    assert!(state.diag_out.ends_with('}'));
    assert_eq!(state.diag_out, "{_ \"Fun\": true, \"Amt\": -2}");
    assert!(!state.dark);
    assert!(controller.permalink().is_none());
    assert_eq!(controller.store().load_mode(), Some(ParseMode::Hex));
    assert_eq!(controller.store().load_value(), Some("bf6346756ef563416d7421ff".to_string()));
    assert_eq!(controller.store().raw(Key::Dark), None);
}

#[test]
fn bootstrap_from_address() {
    let store = store_with(Some(ParseMode::Hex), Some("01"));
    let controller = Controller::bootstrap("https://example.org/?type=diag&value=%5B1%2C+2%2C+15%5D#top", store);
    assert_eq!(controller.state().mode, ParseMode::Diag);
    assert_eq!(controller.state().input, "[1, 2, 15]");
    assert_eq!(controller.state().hex_out, "8301020f");
    assert_eq!(controller.state().diag_out, "[1, 2, 15]");
    assert_eq!(controller.store().load_mode(), Some(ParseMode::Diag));
    assert_eq!(controller.store().load_value(), Some("[1, 2, 15]".to_string()));
}

#[test]
fn bootstrap_from_store() {
    let controller = started(ParseMode::Diag, "[1, 2, 15]");
    assert_eq!(controller.state().mode, ParseMode::Diag);
    assert_eq!(controller.current_mode(), ParseMode::Diag);
    assert_eq!(controller.state().input, "[1, 2, 15]");
    assert_eq!(controller.state().hex_out, "8301020f");
}

#[test]
fn bootstrap_shows_a_stored_error() {
    let controller = started(ParseMode::Hex, "zz");
    assert_eq!(controller.state().input, "zz");
    assert!(controller.state().hex_out.starts_with("Todo("));
    assert_eq!(controller.state().diag_out, "");
    assert_eq!(controller.store().load_value(), Some("zz".to_string()));
}

#[test]
fn bootstrap_applies_the_stored_theme() {
    let mut store = LocalStore::new();
    store.store_dark(true);
    assert!(Controller::bootstrap(PAGE, store).state().dark);
    let mut store = LocalStore::new();
    store.store_dark(false);
    assert!(!Controller::bootstrap(PAGE, store).state().dark);
    let mut store = LocalStore::new();
    store.set_raw(Key::Dark, "yes".to_string());
    assert!(!Controller::bootstrap(PAGE, store).state().dark);
}

#[test]
fn hex_to_diag_round_trip() {
    let controller = started(ParseMode::Hex, "8301020f");
    assert_eq!(controller.state().hex_out, "8301020f");
    assert_eq!(controller.state().diag_out, "[1, 2, 15]");
}

#[test]
fn diag_to_hex_round_trip() {
    let mut controller = started(ParseMode::Diag, "");
    controller.handle(Event::TextChanged("[1, 2, 15]".to_string()));
    assert_eq!(controller.state().hex_out, "8301020f");
    assert_eq!(controller.state().diag_out, "[1, 2, 15]");
}

#[test]
fn auto_fallback() {
    let mut controller = started(ParseMode::Auto, "");
    controller.handle(Event::TextChanged("[1,2,3]".to_string()));
    controller.handle(Event::Submitted);
    assert_eq!(controller.state().hex_out, "83010203");
    assert_eq!(controller.state().diag_out, "[1, 2, 3]");
}

#[test]
fn keyup_error_suppression() {
    let mut controller = started(ParseMode::Hex, "8301020f");
    let mut text = "8301020f".to_string();
    for _ in 0..3 {
        text.push('z');
        controller.handle(Event::TextChanged(text.clone()));
        assert_eq!(controller.state().input, text);
        assert_eq!(controller.state().hex_out, "8301020f");
        assert_eq!(controller.state().diag_out, "[1, 2, 15]");
        assert_eq!(controller.store().load_value(), Some("8301020f".to_string()));
        assert_eq!(controller.store().load_mode(), Some(ParseMode::Hex));
    }
    controller.handle(Event::Submitted);
    assert!(controller.state().hex_out.starts_with("Todo("));
    assert_eq!(controller.state().diag_out, "");
    assert_eq!(controller.store().load_value(), Some("8301020fzzz".to_string()));
}

#[test]
fn successful_keyup_shows_and_persists() {
    let mut controller = started(ParseMode::Hex, "8301020f");
    controller.try_silent_parse("820102".to_string());
    assert_eq!(controller.state().hex_out, "820102");
    assert_eq!(controller.state().diag_out, "[1, 2]");
    assert_eq!(controller.store().load_value(), Some("820102".to_string()));
}

#[test]
fn commits_persist_mode_and_input() {
    let mut controller = started(ParseMode::Hex, "10");
    controller.handle(Event::ModeChanged(ParseMode::Diag));
    assert_eq!(controller.state().mode, ParseMode::Diag);
    assert_eq!(controller.current_mode(), ParseMode::Diag);
    assert_eq!(controller.state().hex_out, "0a");
    assert_eq!(controller.store().load_mode(), Some(ParseMode::Diag));
    assert_eq!(controller.store().load_value(), Some("10".to_string()));
    controller.handle(Event::TextChanged("[".to_string()));
    controller.handle(Event::ModeChanged(ParseMode::Auto));
    assert_eq!(controller.store().load_mode(), Some(ParseMode::Auto));
    assert_eq!(controller.store().load_value(), Some("[".to_string()));
    assert!(controller.state().hex_out.starts_with("Todo("));
    assert_eq!(controller.state().diag_out, "");
    controller.change_mode(ParseMode::Hex);
    controller.commit_parse();
    assert_eq!(controller.store().raw(Key::Type), Some("\"hex\""));
    assert_eq!(controller.store().raw(Key::Value), Some("\"[\""));
}

#[test]
fn outcomes_are_applied_as_given() {
    let mut controller = started(ParseMode::Hex, "01");
    controller.apply_silent(cbor_playground::codec::ParseOutcome::Failure { message: "no".to_string() });
    assert_eq!(controller.state().hex_out, "01");
    assert_eq!(controller.state().diag_out, "1");
    controller.apply_commit(cbor_playground::codec::ParseOutcome::Failure { message: "no".to_string() });
    assert_eq!(controller.state().hex_out, "no");
    assert_eq!(controller.state().diag_out, "");
    controller.apply_silent(cbor_playground::codec::ParseOutcome::Success {
        hex: "ff".to_string(),
        diag: "x".to_string(),
    });
    assert_eq!(controller.state().hex_out, "ff");
    assert_eq!(controller.state().diag_out, "x");
    assert_eq!(controller.store().load_value(), Some("01".to_string()));
}

#[test]
fn theme_toggle_is_persisted() {
    let mut controller = Controller::bootstrap(PAGE, LocalStore::new());
    assert!(!controller.state().dark);
    controller.handle(Event::DarkToggled);
    assert!(controller.state().dark);
    assert_eq!(controller.store().raw(Key::Dark), Some("true"));
    assert_eq!(controller.store().load_dark(), Some(true));
    controller.toggle_theme();
    assert!(!controller.state().dark);
    assert_eq!(controller.store().load_dark(), Some(false));
    let reloaded = Controller::bootstrap(PAGE, controller.store().clone());
    assert!(!reloaded.state().dark);
    controller.toggle_theme();
    let reloaded = Controller::bootstrap(PAGE, controller.store().clone());
    assert!(reloaded.state().dark);
}

#[test]
fn permalink_round_trip() {
    let mut controller = Controller::bootstrap("https://example.org/playground/?type=hex&value=01#pane", LocalStore::new());
    controller.handle(Event::ModeChanged(ParseMode::Diag));
    controller.handle(Event::TextChanged("42(\"hi\")".to_string()));
    controller.handle(Event::SaveRequested);
    let link = controller.permalink().expect("a permalink");
    assert_eq!(link.href, "https://example.org/playground/?type=diag&value=42%28%22hi%22%29#pane");
    assert_eq!(link.label, "Permalink to the playground");
    let fresh = Controller::bootstrap(&link.href, store_with(Some(ParseMode::Hex), Some("ff")));
    assert_eq!(fresh.state().mode, ParseMode::Diag);
    assert_eq!(fresh.state().input, "42(\"hi\")");
    assert_eq!(fresh.state().hex_out, controller.state().hex_out);
    assert_eq!(fresh.state().diag_out, controller.state().diag_out);
    assert_eq!(fresh.state().hex_out, "d8 2a 62 68 69".replace(' ', ""));
}

#[test]
fn permalink_follows_the_current_input() {
    let mut controller = Controller::bootstrap(PAGE, LocalStore::new());
    controller.handle(Event::TextChanged("not hex & more".to_string()));
    controller.build_permalink();
    let href = controller.permalink().expect("a permalink").href.clone();
    assert_eq!(href, "https://example.org/playground/?type=hex&value=not%20hex%20%26%20more");
    let fresh = Controller::bootstrap(&href, LocalStore::new());
    assert_eq!(fresh.state().input, "not hex & more");
    assert_eq!(fresh.state().mode, ParseMode::Hex);
}
