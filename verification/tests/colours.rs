use nvcat::synattr::{default_attr, parse_colour, SynAttr};

#[test]
fn hex_truecolor_resolves_to_rgb_fragment() {
    let r = parse_colour("#ff0000", true);
    assert_eq!(r, Some("2;255;0;0".to_string()));
    let r = parse_colour("#123456", true);
    assert_eq!(r, Some("2;18;52;86".to_string()));
    let r = parse_colour("#0", true);
    assert_eq!(r, Some("2;0;0;0".to_string()));
}

#[test]
fn hex_indexed_mode_is_unset() {
    assert_eq!(parse_colour("#ff0000", false), None);
}

#[test]
fn bare_integer_is_direct_palette_index() {
    assert_eq!(parse_colour("9", false), Some("5;9".to_string()));
    assert_eq!(parse_colour("9", true), Some("5;9".to_string()));
    assert_eq!(parse_colour("255", false), Some("5;255".to_string()));
    assert_eq!(parse_colour("007", false), Some("5;7".to_string()));
}

#[test]
fn out_of_range_integer_is_not_an_index() {
    // 300 does not fit a byte and names no colour
    assert_eq!(parse_colour("300", false), None);
    assert_eq!(parse_colour("99999999999999999999", false), None);
}

#[test]
fn named_colours_resolve_through_the_table() {
    assert_eq!(parse_colour("red", false), Some("5;1".to_string()));
    assert_eq!(parse_colour("red", true), Some("2;128;0;0".to_string()));
    assert_eq!(parse_colour("lightred", false), Some("5;9".to_string()));
    assert_eq!(parse_colour("lightred", true), Some("2;255;0;0".to_string()));
    assert_eq!(parse_colour("darkred", false), Some("5;1".to_string()));
    assert_eq!(parse_colour("cyan", false), Some("5;6".to_string()));
    assert_eq!(parse_colour("white", true), Some("2;192;192;192".to_string()));
}

#[test]
fn name_lookup_ignores_ascii_case() {
    assert_eq!(parse_colour("RED", false), Some("5;1".to_string()));
    assert_eq!(parse_colour("LightBlue", false), Some("5;12".to_string()));
}

#[test]
fn empty_and_unknown_are_unset() {
    assert_eq!(parse_colour("", true), None);
    assert_eq!(parse_colour("", false), None);
    assert_eq!(parse_colour("chartreuse", false), None);
    assert_eq!(parse_colour("chartreuse", true), None);
}

#[test]
fn default_attr_is_terminal_neutral() {
    let d = default_attr();
    assert_eq!(d.fg, "39");
    assert_eq!(d.bg, "49");
    assert_eq!(d.bold, "22");
    assert_eq!(d.reverse, "27");
    assert_eq!(d.italic, "23");
    assert_eq!(d.underline, "24");
}

#[test]
fn synattr_new_composes_with_fallback() {
    let a = SynAttr::new("red", "", "", "x", "", "", None, false);
    assert_eq!(a.fg, "38;5;1");
    assert_eq!(a.bg, "49");
    assert_eq!(a.bold, "22");
    assert_eq!(a.reverse, "7");

    let d = SynAttr::new("#102030", "blue", "y", "", "", "", None, true);
    assert_eq!(d.fg, "38;2;16;32;48");
    assert_eq!(d.bg, "48;2;0;0;128");
    assert_eq!(d.bold, "1");

    // absent fields take the supplied default's values
    let base = SynAttr::new("red", "green", "b", "", "i", "", None, false);
    let derived = SynAttr::new("", "", "", "", "", "", Some(&base), false);
    assert_eq!(derived.fg, "38;5;1");
    assert_eq!(derived.bg, "48;5;2");
    assert_eq!(derived.bold, "1");
    assert_eq!(derived.italic, "3");
    assert_eq!(derived.reverse, "27");
}

#[test]
fn render_is_one_escape_and_idempotent() {
    let d = default_attr();
    let once = d.render();
    let twice = d.render();
    assert_eq!(once, "\x1b[39;49;22;27;23;24m");
    assert_eq!(once, twice);
}
