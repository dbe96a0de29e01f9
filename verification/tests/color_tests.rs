use tictock::color::{color_names, parse, to_rgb, Color};

#[test]
fn hex_and_rgb_colors() {
    assert_eq!(parse("#33CCFF"), Color::Rgb { r: 51, g: 204, b: 255 });
    assert_eq!(parse("  #000001 "), Color::Rgb { r: 0, g: 0, b: 1 });
    assert_eq!(parse("rgb(1, 2,3)"), Color::Rgb { r: 1, g: 2, b: 3 });
    assert_eq!(parse("RGB( 255 ,0, 128 )"), Color::Rgb { r: 255, g: 0, b: 128 });
    // Out of range or malformed falls through to the names, then to white.
    assert_eq!(parse("rgb(256,0,0)"), Color::White);
    assert_eq!(parse("#12345"), Color::White);
    assert_eq!(parse("#ggeeff"), Color::White);
}

#[test]
fn named_colors() {
    assert_eq!(parse("Purple"), Color::Magenta);
    assert_eq!(parse(" orange "), Color::DarkYellow);
    assert_eq!(parse("grey"), Color::DarkGrey);
    assert_eq!(parse("dark_cyan"), Color::DarkCyan);
    assert_eq!(parse("nonsense"), Color::White);
}

#[test]
fn every_listed_name_is_understood() {
    let names = color_names();
    assert_eq!(names.len(), 16);
    let expected = [
        Color::Black,
        Color::Red,
        Color::Green,
        Color::Yellow,
        Color::Blue,
        Color::Magenta,
        Color::Cyan,
        Color::White,
        Color::DarkGrey,
        Color::DarkRed,
        Color::DarkGreen,
        Color::DarkYellow,
        Color::DarkBlue,
        Color::DarkMagenta,
        Color::DarkCyan,
    ];
    for (name, color) in names.iter().zip(expected.iter()) {
        assert_eq!(parse(name), *color, "{name}");
    }
    assert_eq!(names[15], "#rrggbb (truecolor)");
}

#[test]
fn approximate_rgb() {
    assert_eq!(to_rgb(Color::Rgb { r: 1, g: 2, b: 3 }), (1, 2, 3));
    assert_eq!(to_rgb(Color::DarkYellow), (255, 145, 0));
    assert_eq!(to_rgb(Color::Grey), (229, 229, 229));
    assert_eq!(to_rgb(Color::Reset), (200, 200, 200));
    assert_eq!(to_rgb(Color::AnsiValue(7)), (200, 200, 200));
}

#[test]
fn a_hex_color_is_six_hex_digits() {
    assert_eq!(parse("#+fffff"), Color::White);
    assert_eq!(parse("#-fffff"), Color::White);
    assert_eq!(parse("#1234567"), Color::White);
    assert_eq!(parse("#abcdef"), Color::Rgb { r: 171, g: 205, b: 239 });
}

#[test]
fn names_are_trimmed_of_unicode_whitespace() {
    assert_eq!(parse(" RED "), Color::Red);
    assert_eq!(parse("\u{3000}red\u{a0}"), Color::Red);
    assert_eq!(parse("\t#000001\n"), Color::Rgb { r: 0, g: 0, b: 1 });
}
