use cbor_playground::codec::{parse, parse_auto, parse_diag, parse_hex, ParseOutcome};
use cbor_playground::hex::{digit, encode};
use cbor_playground::mode::ParseMode;

fn panes(outcome: ParseOutcome) -> (String, String) {
    match outcome {
        ParseOutcome::Success { hex, diag } => (hex, diag),
        ParseOutcome::Failure { message } => panic!("rejected: {}", message),
    }
}

fn message(outcome: ParseOutcome) -> String {
    match outcome {
        ParseOutcome::Success { hex, .. } => panic!("accepted: {}", hex),
        ParseOutcome::Failure { message } => message,
    }
}

#[test]
fn hex_input_shows_hex_and_notation() {
    let (hex, diag) = panes(parse(ParseMode::Hex, "8301020f"));
    assert_eq!(hex, "8301020f");
    assert_eq!(diag, "[1, 2, 15]");
}

#[test]
fn notation_input_shows_hex() {
    let (hex, diag) = panes(parse(ParseMode::Diag, "[1, 2, 15]"));
    assert_eq!(hex, "8301020f");
    assert_eq!(diag, "[1, 2, 15]");
}

#[test]
fn auto_falls_back_to_notation() {
    let (hex, diag) = panes(parse(ParseMode::Auto, "[1,2,3]"));
    assert_eq!(hex, "83010203");
    assert_eq!(diag, "[1, 2, 3]");
    assert!(!parse_hex("[1,2,3]").is_success());
    assert!(parse_diag("[1,2,3]").is_success());
    assert!(parse_auto("[1,2,3]").is_success());
}

#[test]
fn auto_prefers_hex_where_hex_parses() {
    // "10" is hex for the integer 16 and notation for the integer 10.
    let (hex, diag) = panes(parse_auto("10"));
    assert_eq!(hex, "10");
    assert_eq!(diag, "16");
    let (hex, diag) = panes(parse_diag("10"));
    assert_eq!(hex, "0a");
    assert_eq!(diag, "10");
}

#[test]
fn auto_accepts_exactly_what_either_mode_accepts() {
    for text in ["8301020f", "[1,2,3]", "10", "zz", "", "83 01 02 0f", "{\"a\": 1}", "8301"] {
        let auto = parse(ParseMode::Auto, text).is_success();
        let hex = parse(ParseMode::Hex, text).is_success();
        let diag = parse(ParseMode::Diag, text).is_success();
        assert_eq!(auto, hex || diag, "input {:?}", text);
    }
}

#[test]
fn auto_shows_the_notation_error_after_two_failures() {
    let auto = message(parse_auto("zz"));
    let hex = message(parse_hex("zz"));
    let diag = message(parse_diag("zz"));
    assert_eq!(auto, diag);
    assert_ne!(auto, hex);
    assert!(auto.starts_with("Todo("));
}

#[test]
fn seed_parses_to_an_indefinite_map() {
    let (hex, diag) = panes(parse(ParseMode::Hex, "bf6346756ef563416d7421ff"));
    assert_eq!(hex, "bf6346756ef563416d7421ff");
    assert!(diag.starts_with("{_"));
    assert!(diag.ends_with('}'));
    assert_eq!(diag, "{_ \"Fun\": true, \"Amt\": -2}");
}

#[test]
fn long_items_are_shown_on_several_lines() {
    let text = "[\"a rather long text string\", \"another rather long text string\", \"and a third one, to be sure\"]";
    let (_, diag) = panes(parse(ParseMode::Diag, text));
    assert!(diag.starts_with("[\n"));
    assert!(diag.ends_with("\n]"));
    assert!(diag.lines().count() > 1);
}

#[test]
fn hex_output_is_canonical() {
    let (hex, _) = panes(parse_hex("83 01 02 0F # three small integers"));
    assert_eq!(hex, "8301020f");
    let (again, _) = panes(parse_hex(&hex));
    assert_eq!(again, hex);
}

#[test]
fn outputs_parse_back_to_themselves() {
    for (mode, text) in [
        (ParseMode::Hex, "8301020f"),
        (ParseMode::Diag, "[1, 2, 15]"),
        (ParseMode::Hex, "bf6346756ef563416d7421ff"),
        (ParseMode::Diag, "{\"a\": [true, null, -7]}"),
        (ParseMode::Hex, "d82a626869"),
    ] {
        let (hex, diag) = panes(parse(mode, text));
        assert_eq!(panes(parse(ParseMode::Hex, &hex)), (hex.clone(), diag.clone()));
        assert_eq!(panes(parse(ParseMode::Diag, &diag)), (hex, diag));
    }
}

#[test]
fn hex_reading_shows_the_width_of_a_tag() {
    // Notation without a width indicator parses back to the same bytes, but
    // the bytes read as hex show the width that the encoder chose.
    let (hex, diag) = panes(parse(ParseMode::Diag, "42(\"hi\")"));
    assert_eq!(hex, "d82a626869");
    assert_eq!(diag, "42(\"hi\")");
    let (again, shown) = panes(parse(ParseMode::Hex, &hex));
    assert_eq!(again, hex);
    assert_eq!(shown, "42_0(\"hi\")");
    assert_eq!(panes(parse(ParseMode::Diag, &shown)), (hex, shown));
}

#[test]
fn reading_becomes_outcome() {
    let success = ParseOutcome::from_reading(Ok((vec![0x83, 1, 2, 15], "[1, 2, 15]".to_string())));
    assert_eq!(panes(success), ("8301020f".to_string(), "[1, 2, 15]".to_string()));
    let failure = ParseOutcome::from_reading(Err("boom".to_string()));
    assert!(!failure.is_success());
    assert_eq!(message(failure), "boom");
    let empty = ParseOutcome::from_reading(Ok((Vec::new(), String::new())));
    assert_eq!(panes(empty), (String::new(), String::new()));
}

#[test]
fn outcome_clone_is_equal() {
    let outcome = parse_hex("8301020f");
    assert_eq!(panes(outcome.clone()), panes(outcome));
    let failure = parse_hex("zz");
    assert_eq!(message(failure.clone()), message(failure));
}

#[test]
fn hex_digits_are_lowercase() {
    assert_eq!(digit(0), '0');
    assert_eq!(digit(9), '9');
    assert_eq!(digit(10), 'a');
    assert_eq!(digit(15), 'f');
    assert_eq!(encode(&[]), "");
    assert_eq!(encode(&[0x00, 0xff, 0x1a, 0xb7]), "00ff1ab7");
}

#[test]
fn odd_inputs_are_answered() {
    let deep = "81".repeat(200) + "00";
    let texts = [
        "",
        " ",
        "#",
        "# only a comment",
        "8",
        "83",
        "ff",
        "1f",
        "c1fb7ff0000000000000",
        "c11b7fffffffffffffff",
        "c074323031332d30332d32315432303a30343a30305a",
        "c06378797a",
        "d82550000102030405060708090a0b0c0d0e0f",
        "d8254101",
        "5f41ff",
        "7f61",
        "f97e00",
        "fb7ff8000000000001",
        "[",
        "{",
        "h'0",
        "1(",
        "0(\"2013-03-21T20:04:00Z\")",
        "1(99999999999999999999)",
        "-0",
        "1e999",
        "NaN",
        "simple(255)",
        "simple(256)",
        "\"\\ud800\"",
        "\u{0}",
        "é😀",
        deep.as_str(),
    ];
    for text in texts {
        for mode in [ParseMode::Auto, ParseMode::Hex, ParseMode::Diag] {
            match parse(mode, text) {
                ParseOutcome::Success { hex, .. } => {
                    assert_eq!(hex.len() % 2, 0);
                    assert!(hex.chars().all(|c| matches!(c, '0'..='9' | 'a'..='f')));
                }
                ParseOutcome::Failure { message } => assert!(message.starts_with("Todo(")),
            }
        }
    }
}
