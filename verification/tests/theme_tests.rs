use dnsglobe::theme::{parse_color, parse_muted, Color, Look, Muted, Theme};

#[test]
fn colors_parse_as_names_indexes_and_hex() {
    assert_eq!(parse_color("lightcyan").unwrap(), Color::LightCyan);
    assert_eq!(parse_color("bright red").unwrap(), Color::LightRed);
    assert_eq!(parse_color("208").unwrap(), Color::Indexed(208));
    assert_eq!(parse_color("#ff8700").unwrap(), Color::Rgb(0xff, 0x87, 0x00));
}

#[test]
fn bad_color_names_the_expected_forms() {
    let err = parse_color("ocean").unwrap_err();
    assert!(err.contains("\"ocean\""));
    assert!(err.contains("ANSI name"));
}

#[test]
fn muted_accepts_faint_dim_or_any_color() {
    assert_eq!(parse_muted("faint").unwrap(), Muted::Faint);
    assert_eq!(parse_muted("dim").unwrap(), Muted::Faint);
    assert_eq!(parse_muted("darkgray").unwrap(), Muted::Color(Color::DarkGray));
    assert!(parse_muted("blurple").is_err());
}

#[test]
fn faint_style_carries_no_color() {
    let style = Muted::Faint.style();
    assert_eq!(style.fg, None);
    assert!(style.dim);
    assert_eq!(Muted::Color(Color::DarkGray).style().fg, Some(Color::DarkGray));
}

#[test]
fn every_color_name_is_known() {
    for (name, color) in [
        ("reset", Color::Reset),
        ("black", Color::Black),
        ("red", Color::Red),
        ("green", Color::Green),
        ("yellow", Color::Yellow),
        ("blue", Color::Blue),
        ("magenta", Color::Magenta),
        ("cyan", Color::Cyan),
        ("gray", Color::Gray),
        ("darkgray", Color::DarkGray),
        ("lightred", Color::LightRed),
        ("lightgreen", Color::LightGreen),
        ("lightyellow", Color::LightYellow),
        ("lightblue", Color::LightBlue),
        ("lightmagenta", Color::LightMagenta),
        ("lightcyan", Color::LightCyan),
        ("white", Color::White),
    ] {
        assert_eq!(parse_color(name), Ok(color));
    }
    assert_eq!(
        parse_color("256").unwrap_err(),
        "unrecognized color \"256\" (expected an ANSI name like \"lightcyan\", a 256-color index \
         like \"208\", or hex like \"#ff8700\")"
    );
}

#[test]
fn default_theme_favors_bright_colors() {
    let theme = Theme::default();
    assert_eq!(theme.accent, Color::LightCyan);
    assert_eq!(theme.stale, Color::Indexed(208));
    assert_eq!(theme.muted, Muted::Faint);
    assert_eq!(theme.grid, Color::Indexed(244));
}

#[test]
fn looks_build_up() {
    let look = Look::of(Color::Red).bold().italic();
    assert_eq!(look.fg, Some(Color::Red));
    assert!(look.bold && look.italic && !look.dim);
    assert_eq!(Look::new().bg, None);
}
