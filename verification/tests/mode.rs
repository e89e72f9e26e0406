use cbor_playground::mode::{ModeRegistry, ParseMode};

#[test]
fn modes_have_lowercase_names() {
    assert_eq!(ParseMode::Auto.name(), "auto");
    assert_eq!(ParseMode::Hex.name(), "hex");
    assert_eq!(ParseMode::Diag.name(), "diag");
}

#[test]
fn names_read_back() {
    for mode in [ParseMode::Auto, ParseMode::Hex, ParseMode::Diag] {
        assert_eq!(ParseMode::from_name(mode.name()), Some(mode));
    }
}

#[test]
fn unknown_name_is_no_mode() {
    assert_eq!(ParseMode::from_name("binary"), None);
    assert_eq!(ParseMode::from_name(""), None);
    assert_eq!(ParseMode::from_name("Hex"), None);
    assert_eq!(ParseMode::from_name("hex "), None);
    assert_eq!(ParseMode::from_name("autohex"), None);
}

#[test]
fn default_mode_is_auto() {
    assert_eq!(ParseMode::default(), ParseMode::Auto);
}

#[test]
fn no_radio_checked_reads_as_auto() {
    let group = ModeRegistry { auto: false, hex: false, diag: false };
    assert_eq!(group.current_mode(), ParseMode::Auto);
}

#[test]
fn first_checked_radio_is_read() {
    let group = ModeRegistry { auto: false, hex: true, diag: true };
    assert_eq!(group.current_mode(), ParseMode::Hex);
    let group = ModeRegistry { auto: false, hex: false, diag: true };
    assert_eq!(group.current_mode(), ParseMode::Diag);
}

#[test]
fn set_mode_checks_one_radio() {
    let mut group = ModeRegistry::new(ParseMode::Auto);
    assert_eq!(group, ModeRegistry { auto: true, hex: false, diag: false });
    for mode in [ParseMode::Diag, ParseMode::Hex, ParseMode::Auto] {
        group.set_mode(mode);
        assert_eq!(group.current_mode(), mode);
        let checked = [group.auto, group.hex, group.diag].iter().filter(|c| **c).count();
        assert_eq!(checked, 1);
    }
}
