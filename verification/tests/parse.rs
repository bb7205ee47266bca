use goober_ui::paint::{Color, BLUE, RED, TRANSPARENT};
use goober_ui::parse::{
    parse_hsl, parse_rgb, DisplayColor, ExtSplit, Parse, ParseColorError, Parsed, ORANGE,
};

fn chars(text: &str) -> Vec<char> {
    text.chars().collect()
}

fn color(text: &str) -> Option<Color> {
    match Parsed::parse(text) {
        Ok(Parsed::Color(c)) => Some(c),
        _ => None,
    }
}

#[test]
fn names_are_colours() {
    assert_eq!(color("red"), Some(Color(RED)));
    assert_eq!(color("blue"), Some(Color(BLUE)));
    assert_eq!(color("orange"), Some(Color(ORANGE)));
    assert_eq!(color("orange"), Some(Color::from_rgb(255, 165, 0)));
    assert_eq!(color("transparent"), Some(Color(TRANSPARENT)));
    assert_eq!(color("Red"), None);
    assert_eq!(color("purple"), None);
    assert_eq!(color(""), None);
}

#[test]
fn rgb_notation_is_read() {
    assert_eq!(parse_rgb("rgb(1, 2, 3)"), Ok(Color::from_rgb(1, 2, 3)));
    assert_eq!(parse_rgb("rgb(1,2,3)"), Ok(Color(0xFF01_0203)));
    assert_eq!(parse_rgb("rgb( 255 ,+0, 007, 128 )"), Ok(Color::from_argb(128, 255, 0, 7)));
    assert_eq!(color("rgb(10, 20, 30, 40)"), Some(Color::from_argb(40, 10, 20, 30)));
}

#[test]
fn rgb_notation_is_refused() {
    for text in [
        "rgb(1, 2, 3",
        "rgb(1, 2)",
        "rgb(1, 2, 3, 4, 5)",
        "rgb(256, 0, 0)",
        "rgb(-1, 0, 0)",
        "rgb(1, 2, x)",
        "rgb(1, 2, )",
        "rgb(1), 2, 3)",
        "rgb(1, 2, 3, )",
        "rgb(1, 2, 3, 256)",
    ] {
        assert_eq!(parse_rgb(text), Err(ParseColorError), "{}", text);
    }
    assert_eq!(color("rgba(1, 2, 3)"), None);
    assert_eq!(color(" rgb(1, 2, 3)"), None);
}

#[test]
fn rgb_notation_takes_out_the_first_brackets() {
    // The opening is taken out where it first stands, not only in front.
    assert_eq!(parse_rgb("1, 2, 3)"), Ok(Color::from_rgb(1, 2, 3)));
    assert_eq!(parse_rgb("4rgb(, 2, 3)"), Ok(Color::from_rgb(4, 2, 3)));
}

#[test]
fn hsl_notation_is_taken_apart() {
    let parts = parse_hsl("hsl(120deg, 50%, 25%)").unwrap();
    assert_eq!(parts.hue, chars("120"));
    assert_eq!(parts.saturation, chars("50"));
    assert_eq!(parts.lightness, chars("25"));
    assert_eq!(parts.alpha, None);
    let parts = parse_hsl("hsl( 12.5deg , 5% ,7.5%, 1%0% )").unwrap();
    assert_eq!(parts.hue, chars("12.5"));
    assert_eq!(parts.saturation, chars("5"));
    assert_eq!(parts.lightness, chars("7.5"));
    assert_eq!(parts.alpha, Some(chars("10")));
    assert!(parse_hsl("hsl(120, 50%, 25%)").is_err());
    assert!(parse_hsl("hsl(120deg, 50, 25%)").is_err());
    assert!(parse_hsl("hsl(120deg, 50%, 25)").is_err());
    assert!(parse_hsl("hsl(120deg, 50%)").is_err());
    assert!(parse_hsl("hsl(120deg, 50%, 25%, 1, 2)").is_err());
    assert!(parse_hsl("hsl(120deg, 50%, 25%").is_err());
    match Parsed::parse("hsl(1deg, 2%, 3%)") {
        Ok(Parsed::Hsl(parts)) => assert_eq!(parts.hue, chars("1")),
        _ => panic!("no hue notation"),
    }
}

#[test]
fn colours_are_written_out() {
    assert_eq!(Color::from_argb(4, 1, 20, 255).fmt_rgb(), chars("rgb(1, 20, 255, 4)"));
    assert_eq!(Color(0).fmt_rgb(), chars("rgb(0, 0, 0, 0)"));
    assert_eq!(Color::from_rgb(100, 109, 99).fmt_rgb(), chars("rgb(100, 109, 99, 255)"));
}

#[test]
fn colour_parts() {
    let c = Color::from_argb(1, 2, 3, 4);
    assert_eq!((c.a(), c.r(), c.g(), c.b()), (1, 2, 3, 4));
    assert_eq!(Color(0x8040_2010).r(), 0x40);
}

fn pieces(mut next: impl FnMut() -> Option<Vec<char>>) -> Vec<String> {
    let mut out = Vec::new();
    while let Some(piece) = next() {
        out.push(piece.into_iter().collect());
        assert!(out.len() < 100);
    }
    out
}

#[test]
fn split_excluding_group_keeps_groups_whole() {
    let mut split = "a,(b,c),d".split_excluding_group(',', '(', ')');
    assert_eq!(pieces(|| split.next()), vec!["a", "(b,c)", "d"]);
    let mut split = "f(a,g(b,c)),d".split_excluding_group(',', '(', ')');
    assert_eq!(pieces(|| split.next()), vec!["f(a,g(b,c))", "d"]);
    let mut split = "a,,b,".split_excluding_group(',', '(', ')');
    assert_eq!(pieces(|| split.next()), vec!["a", "", "b", ""]);
    let mut split = "".split_excluding_group(',', '(', ')');
    assert_eq!(pieces(|| split.next()), Vec::<String>::new());
    let mut split = "(a,b".split_excluding_group(',', '(', ')');
    assert_eq!(pieces(|| split.next()), vec!["(a,b"]);
    let mut split = ",a".split_excluding_group(',', '(', ')');
    assert_eq!(pieces(|| split.next()), vec!["", "a"]);
}

#[test]
fn split_ascii_whitespace_excluding_group_keeps_groups_whole() {
    let mut split = "  a (b c)\td  ".split_ascii_whitespace_excluding_group('(', ')');
    assert_eq!(pieces(|| split.next()), vec!["a", "(b c)", "d"]);
    let mut split = "   ".split_ascii_whitespace_excluding_group('(', ')');
    assert_eq!(pieces(|| split.next()), Vec::<String>::new());
    let mut split = "x".split_ascii_whitespace_excluding_group('(', ')');
    assert_eq!(pieces(|| split.next()), vec!["x"]);
}
