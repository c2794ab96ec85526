use rmux::style::{parse_style, Attrs, Color, Style};

#[test]
fn default_style_is_default() {
    assert!(Style::default().is_default());
}

#[test]
fn style_with_fg_not_default() {
    let s = Style { fg: Color::red(), ..Style::default_value() };
    assert!(!s.is_default());
}

#[test]
fn looks_equal_works() {
    let s1 = Style {
        fg: Color::Rgb { r: 1, g: 2, b: 3 },
        attrs: Attrs::bold(),
        ..Style::default_value()
    };
    let s2 = s1;
    assert!(s1.looks_equal(&s2));
}

#[test]
fn style_with_bg_not_default() {
    let s = Style { bg: Color::blue(), ..Style::default_value() };
    assert!(!s.is_default());
}

#[test]
fn style_with_underline_color() {
    let s = Style { us: Color::red(), ..Style::default_value() };
    assert!(!s.is_default());
}

#[test]
fn style_with_attrs_not_default() {
    let s = Style { attrs: Attrs::bold(), ..Style::default_value() };
    assert!(!s.is_default());

    let s2 = Style { attrs: Attrs::italics(), ..Style::default_value() };
    assert!(!s2.is_default());

    let s3 = Style { attrs: Attrs::underscore(), ..Style::default_value() };
    assert!(!s3.is_default());
}

#[test]
fn looks_equal_ignores_underline_color_when_no_underline() {
    let s1 = Style { us: Color::red(), ..Style::default_value() };
    let s2 = Style { us: Color::blue(), ..Style::default_value() };
    assert!(!s1.looks_equal(&s2));
    let s3 = Style { us: Color::red(), ..Style::default_value() };
    assert!(s1.looks_equal(&s3));
}

#[test]
fn parse_style_fg_bg() {
    let s = parse_style("fg=red,bg=green");
    assert_eq!(s.fg, Color::red());
    assert_eq!(s.bg, Color::green());
}

#[test]
fn parse_style_bold_italic() {
    let s = parse_style("bold,italics");
    assert!(s.attrs.contains(Attrs::bold()));
    assert!(s.attrs.contains(Attrs::italics()));
}

#[test]
fn parse_style_hex_color() {
    let s = parse_style("fg=#ff0000");
    assert_eq!(s.fg, Color::Rgb { r: 255, g: 0, b: 0 });
}

#[test]
fn parse_style_colour_number() {
    let s = parse_style("bg=colour231");
    assert_eq!(s.bg, Color::Palette(231));
}

#[test]
fn parse_style_default_resets() {
    let s = parse_style("fg=red,default");
    assert_eq!(s, Style::default_value());
}

#[test]
fn looks_equal_detects_underline_color_diff() {
    let s1 = Style { attrs: Attrs::underscore(), us: Color::red(), ..Style::default_value() };
    let s2 = Style { attrs: Attrs::underscore(), us: Color::green(), ..Style::default_value() };
    assert!(!s1.looks_equal(&s2));
    let s3 = Style { attrs: Attrs::underscore(), us: Color::red(), ..Style::default_value() };
    assert!(s1.looks_equal(&s3));
}

#[test]
fn parse_style_keywords_and_unknown_tokens() {
    let s = parse_style(" reverse , nosuchthing, fg=colour7 ");
    assert!(s.attrs.contains(Attrs::reverse()));
    assert_eq!(s.fg, Color::Palette(7));
    let s = parse_style("bold,none");
    assert!(s.attrs.is_empty());
    let s = parse_style("fg=#12345");
    assert_eq!(s.fg, Color::Default);
    let s = parse_style("us=brightcyan,bg=default");
    assert_eq!(s.us, Color::bright_cyan());
    assert_eq!(s.bg, Color::Default);
}

#[test]
fn attrs_union_and_contains() {
    let a = Attrs::bold().union(Attrs::dim());
    assert!(a.contains(Attrs::bold()));
    assert!(a.contains(Attrs::dim()));
    assert!(!a.contains(Attrs::blink()));
    assert!(Attrs::empty().is_empty());
}
