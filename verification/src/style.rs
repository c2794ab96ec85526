//! Terminal style types: colors, attributes, and combined styles, and the
//! parser for tmux style strings such as `fg=red,bg=green,bold`.

use vstd::prelude::*;
use crate::text::{
    chars_skip, chars_split, chars_starts_with, chars_trim, is_prefix, split_on, str_chars,
    str_eq, string_from_chars, trim, is_ws,
};

verus! {

/// A terminal color.
#[derive(Debug, Clone, Copy, PartialEq, Eq, Structural)]
pub enum Color {
    /// The terminal's default color.
    Default,
    /// An index into the 256-color palette.
    Palette(u8),
    /// A 24-bit color.
    Rgb { r: u8, g: u8, b: u8 },
}

impl Color {
    /// Palette color 0.
    pub fn black() -> (c: Color)
        ensures
            c == Color::Palette(0),
    {
        Color::Palette(0)
    }
    /// Palette color 1.
    pub fn red() -> (c: Color)
        ensures
            c == Color::Palette(1),
    {
        Color::Palette(1)
    }
    /// Palette color 2.
    pub fn green() -> (c: Color)
        ensures
            c == Color::Palette(2),
    {
        Color::Palette(2)
    }
    /// Palette color 3.
    pub fn yellow() -> (c: Color)
        ensures
            c == Color::Palette(3),
    {
        Color::Palette(3)
    }
    /// Palette color 4.
    pub fn blue() -> (c: Color)
        ensures
            c == Color::Palette(4),
    {
        Color::Palette(4)
    }
    /// Palette color 5.
    pub fn magenta() -> (c: Color)
        ensures
            c == Color::Palette(5),
    {
        Color::Palette(5)
    }
    /// Palette color 6.
    pub fn cyan() -> (c: Color)
        ensures
            c == Color::Palette(6),
    {
        Color::Palette(6)
    }
    /// Palette color 7.
    pub fn white() -> (c: Color)
        ensures
            c == Color::Palette(7),
    {
        Color::Palette(7)
    }
    /// Palette color 8.
    pub fn bright_black() -> (c: Color)
        ensures
            c == Color::Palette(8),
    {
        Color::Palette(8)
    }
    /// Palette color 9.
    pub fn bright_red() -> (c: Color)
        ensures
            c == Color::Palette(9),
    {
        Color::Palette(9)
    }
    /// Palette color 10.
    pub fn bright_green() -> (c: Color)
        ensures
            c == Color::Palette(10),
    {
        Color::Palette(10)
    }
    /// Palette color 11.
    pub fn bright_yellow() -> (c: Color)
        ensures
            c == Color::Palette(11),
    {
        Color::Palette(11)
    }
    /// Palette color 12.
    pub fn bright_blue() -> (c: Color)
        ensures
            c == Color::Palette(12),
    {
        Color::Palette(12)
    }
    /// Palette color 13.
    pub fn bright_magenta() -> (c: Color)
        ensures
            c == Color::Palette(13),
    {
        Color::Palette(13)
    }
    /// Palette color 14.
    pub fn bright_cyan() -> (c: Color)
        ensures
            c == Color::Palette(14),
    {
        Color::Palette(14)
    }
    /// Palette color 15.
    pub fn bright_white() -> (c: Color)
        ensures
            c == Color::Palette(15),
    {
        Color::Palette(15)
    }

    /// Whether this is the default color.
    pub fn is_default(&self) -> (r: bool)
        ensures
            r == (*self is Default),
    {
        matches!(self, Color::Default)
    }
}

/// A set of text attributes, one bit each.
#[derive(Debug, Clone, Copy, PartialEq, Eq, Structural)]
pub struct Attrs {
    pub bits: u16,
}

impl Attrs {
    /// The `bold` attribute.
    pub fn bold() -> (a: Attrs)
        ensures
            a.bits == 0x0001,
    {
        Attrs { bits: 0x0001 }
    }
    /// The `dim` attribute.
    pub fn dim() -> (a: Attrs)
        ensures
            a.bits == 0x0002,
    {
        Attrs { bits: 0x0002 }
    }
    /// The `underscore` attribute.
    pub fn underscore() -> (a: Attrs)
        ensures
            a.bits == 0x0004,
    {
        Attrs { bits: 0x0004 }
    }
    /// The `blink` attribute.
    pub fn blink() -> (a: Attrs)
        ensures
            a.bits == 0x0008,
    {
        Attrs { bits: 0x0008 }
    }
    /// The `reverse` attribute.
    pub fn reverse() -> (a: Attrs)
        ensures
            a.bits == 0x0010,
    {
        Attrs { bits: 0x0010 }
    }
    /// The `hidden` attribute.
    pub fn hidden() -> (a: Attrs)
        ensures
            a.bits == 0x0020,
    {
        Attrs { bits: 0x0020 }
    }
    /// The `italics` attribute.
    pub fn italics() -> (a: Attrs)
        ensures
            a.bits == 0x0040,
    {
        Attrs { bits: 0x0040 }
    }
    /// The `strikethrough` attribute.
    pub fn strikethrough() -> (a: Attrs)
        ensures
            a.bits == 0x0100,
    {
        Attrs { bits: 0x0100 }
    }
    /// The `overline` attribute.
    pub fn overline() -> (a: Attrs)
        ensures
            a.bits == 0x2000,
    {
        Attrs { bits: 0x2000 }
    }

    /// The empty set of attributes.
    pub fn empty() -> (r: Attrs)
        ensures
            r.bits == 0,
    {
        Attrs { bits: 0 }
    }

    /// Whether no attribute is set.
    pub fn is_empty(&self) -> (r: bool)
        ensures
            r == (self.bits == 0),
    {
        self.bits == 0
    }

    /// Whether every attribute of `other` is set in `self`.
    pub fn contains(&self, other: Attrs) -> (r: bool)
        ensures
            r == (self.bits & other.bits == other.bits),
    {
        self.bits & other.bits == other.bits
    }

    /// The union of two attribute sets.
    pub fn union(&self, other: Attrs) -> (r: Attrs)
        ensures
            r.bits == self.bits | other.bits,
    {
        Attrs { bits: self.bits | other.bits }
    }
}

/// A complete terminal style combining colors and attributes.
#[derive(Debug, Clone, Copy, PartialEq, Eq, Structural)]
pub struct Style {
    /// Foreground color.
    pub fg: Color,
    /// Background color.
    pub bg: Color,
    /// Underline color (separate from underline attribute).
    pub us: Color,
    /// Text attributes (bold, italic, etc.).
    pub attrs: Attrs,
}

/// The style with default colors and no attributes.
pub open spec fn default_style() -> Style {
    Style { fg: Color::Default, bg: Color::Default, us: Color::Default, attrs: Attrs { bits: 0 } }
}

impl Style {
    /// A completely default style (default colors, no attributes).
    pub fn default_value() -> (r: Style)
        ensures
            r == default_style(),
    {
        Style { fg: Color::Default, bg: Color::Default, us: Color::Default, attrs: Attrs { bits: 0 } }
    }

    /// Returns true if this style has no colors set and no attributes.
    pub fn is_default(&self) -> (r: bool)
        ensures
            r == (*self == default_style()),
    {
        self.fg.is_default() && self.bg.is_default() && self.us.is_default() && self.attrs.is_empty()
    }

    /// Returns true if two styles look the same visually: same colors and attributes.
    pub fn looks_equal(&self, other: &Self) -> (r: bool)
        ensures
            r == (self.fg == other.fg && self.bg == other.bg && self.us == other.us
                && self.attrs == other.attrs),
    {
        self.fg == other.fg && self.bg == other.bg && self.us == other.us && self.attrs == other.attrs
    }
}

impl Default for Style {
    fn default() -> (r: Style)
        ensures
            r == default_style(),
    {
        Style::default_value()
    }
}

/// The value of a hexadecimal digit, if `c` is one.
pub open spec fn hex_value(c: char) -> Option<int> {
    if '0' <= c && c <= '9' {
        Some(c as int - '0' as int)
    } else if 'a' <= c && c <= 'f' {
        Some(c as int - 'a' as int + 10)
    } else if 'A' <= c && c <= 'F' {
        Some(c as int - 'A' as int + 10)
    } else {
        None
    }
}

/// The byte `u8::from_str_radix(.., 16)` reads from a two-character text: two
/// hex digits, or `+` and one hex digit.
pub open spec fn hex_byte(a: char, b: char) -> Option<u8> {
    if a == '+' {
        match hex_value(b) {
            Some(v) => Some(v as u8),
            None => None,
        }
    } else {
        match (hex_value(a), hex_value(b)) {
            (Some(x), Some(y)) => Some((x * 16 + y) as u8),
            _ => None,
        }
    }
}

/// The color a six-character hex text `RRGGBB` names.
pub open spec fn hex_color(h: Seq<char>) -> Option<Color> {
    if h.len() == 6 {
        match (hex_byte(h[0], h[1]), hex_byte(h[2], h[3]), hex_byte(h[4], h[5])) {
            (Some(r), Some(g), Some(b)) => Some(Color::Rgb { r, g, b }),
            _ => None,
        }
    } else {
        None
    }
}

/// The number of bytes of the UTF-8 encoding of `s`.
pub open spec fn byte_len(s: Seq<char>) -> nat {
    vstd::utf8::encode_utf8(s).len()
}

/// Whether reading a `#RRGGBB` color from `t` (already trimmed) stays on character
/// boundaries: when the text after `#` is six bytes long, bytes 2 and 4 start characters.
pub open spec fn color_text_safe(t: Seq<char>) -> bool {
    let h = t.subrange(1, t.len() as int);
    (t.len() > 0 && t[0] == '#' && byte_len(h) == 6) ==> (
        vstd::utf8::is_char_boundary(vstd::utf8::encode_utf8(h), 2)
        && vstd::utf8::is_char_boundary(vstd::utf8::encode_utf8(h), 4))
}

/// The named colors of tmux.
pub open spec fn named_color(s: Seq<char>) -> Option<Color> {
    if s == "default"@ { Some(Color::Default) }
    else if s == "black"@ { Some(Color::Palette(0)) }
    else if s == "red"@ { Some(Color::Palette(1)) }
    else if s == "green"@ { Some(Color::Palette(2)) }
    else if s == "yellow"@ { Some(Color::Palette(3)) }
    else if s == "blue"@ { Some(Color::Palette(4)) }
    else if s == "magenta"@ { Some(Color::Palette(5)) }
    else if s == "cyan"@ { Some(Color::Palette(6)) }
    else if s == "white"@ { Some(Color::Palette(7)) }
    else if s == "brightblack"@ { Some(Color::Palette(8)) }
    else if s == "brightred"@ { Some(Color::Palette(9)) }
    else if s == "brightgreen"@ { Some(Color::Palette(10)) }
    else if s == "brightyellow"@ { Some(Color::Palette(11)) }
    else if s == "brightblue"@ { Some(Color::Palette(12)) }
    else if s == "brightmagenta"@ { Some(Color::Palette(13)) }
    else if s == "brightcyan"@ { Some(Color::Palette(14)) }
    else if s == "brightwhite"@ { Some(Color::Palette(15)) }
    else { None }
}

/// The palette number after a `colour` or `color` prefix, if it is a valid `u8`.
pub open spec fn palette_color(t: Seq<char>) -> Option<Color> {
    let rest = if is_prefix("colour"@, t) {
        Some(t.subrange(6, t.len() as int))
    } else if is_prefix("color"@, t) {
        Some(t.subrange(5, t.len() as int))
    } else {
        None
    };
    match rest {
        Some(n) => match crate::text::parse_unsigned(n, 255) {
            Some(v) => Some(Color::Palette(v as u8)),
            None => None,
        },
        None => None,
    }
}

/// The color named by `s` in tmux syntax: `#RRGGBB`, `colourN`/`colorN`, or a name.
pub open spec fn color_spec(s: Seq<char>) -> Option<Color> {
    let t = trim(s);
    let h = t.subrange(1, t.len() as int);
    if t.len() > 0 && t[0] == '#' && byte_len(h) == 6 {
        hex_color(h)
    } else if palette_color(t) is Some {
        palette_color(t)
    } else {
        named_color(t)
    }
}

/// The attribute bits a keyword sets.
pub open spec fn attr_keyword(part: Seq<char>) -> Option<u16> {
    if part == "bold"@ { Some(0x0001u16) }
    else if part == "dim"@ { Some(0x0002u16) }
    else if part == "underscore"@ { Some(0x0004u16) }
    else if part == "blink"@ { Some(0x0008u16) }
    else if part == "reverse"@ { Some(0x0010u16) }
    else if part == "hidden"@ { Some(0x0020u16) }
    else if part == "italics"@ { Some(0x0040u16) }
    else if part == "strikethrough"@ { Some(0x0100u16) }
    else if part == "overline"@ { Some(0x2000u16) }
    else { None }
}

/// The style after applying one trimmed part of a style string.
pub open spec fn apply_style_part(st: Style, part: Seq<char>) -> Style {
    if part.len() == 0 {
        st
    } else if is_prefix("fg="@, part) {
        match color_spec(part.subrange(3, part.len() as int)) {
            Some(c) => Style { fg: c, ..st },
            None => st,
        }
    } else if is_prefix("bg="@, part) {
        match color_spec(part.subrange(3, part.len() as int)) {
            Some(c) => Style { bg: c, ..st },
            None => st,
        }
    } else if is_prefix("us="@, part) {
        match color_spec(part.subrange(3, part.len() as int)) {
            Some(c) => Style { us: c, ..st },
            None => st,
        }
    } else if attr_keyword(part) is Some {
        Style { attrs: Attrs { bits: st.attrs.bits | attr_keyword(part).unwrap() }, ..st }
    } else if part == "default"@ {
        default_style()
    } else if part == "none"@ || part == "noattr"@ {
        Style { attrs: Attrs { bits: 0 }, ..st }
    } else {
        st
    }
}

/// The style produced by applying the parts in order, starting from the default style.
pub open spec fn apply_style_parts(parts: Seq<Seq<char>>) -> Style
    decreases parts.len(),
{
    if parts.len() == 0 {
        default_style()
    } else {
        apply_style_part(apply_style_parts(parts.drop_last()), trim(parts.last()))
    }
}

/// The style a tmux style string describes.
pub open spec fn style_spec(s: Seq<char>) -> Style {
    apply_style_parts(split_on(s, ','))
}

/// Whether a trimmed part names its color safely (see `color_text_safe`).
pub open spec fn style_part_safe(part: Seq<char>) -> bool {
    (is_prefix("fg="@, part) || is_prefix("bg="@, part) || is_prefix("us="@, part))
        ==> color_text_safe(trim(part.subrange(3, part.len() as int)))
}

/// Whether every part of the style string names its colors safely.
pub open spec fn style_text_safe(s: Seq<char>) -> bool {
    forall|i: int| 0 <= i < split_on(s, ',').len() ==> style_part_safe(trim(#[trigger] split_on(s, ',')[i]))
}

/// Whether `c` is a hexadecimal digit, with its value.
fn hex_digit(c: char) -> (r: Option<u8>)
    ensures
        match hex_value(c) {
            Some(v) => r == Some(v as u8),
            None => r is None,
        },
{
    if '0' <= c && c <= '9' {
        Some((c as u32 - '0' as u32) as u8)
    } else if 'a' <= c && c <= 'f' {
        Some((c as u32 - 'a' as u32 + 10) as u8)
    } else if 'A' <= c && c <= 'F' {
        Some((c as u32 - 'A' as u32 + 10) as u8)
    } else {
        None
    }
}

/// Reads one byte of a `#RRGGBB` color.
fn parse_hex_byte(a: char, b: char) -> (r: Option<u8>)
    ensures
        r == hex_byte(a, b),
{
    if a == '+' {
        hex_digit(b)
    } else {
        match (hex_digit(a), hex_digit(b)) {
            (Some(x), Some(y)) => Some(x * 16 + y),
            _ => None,
        }
    }
}

/// Whether `t` is one of the named colors, and which.
fn parse_named_color(t: &[char]) -> (r: Option<Color>)
    ensures
        r == named_color(t@),
{
    let s = string_from_chars(t);
    let s = s.as_str();
    proof {
        reveal_strlit("default");
        reveal_strlit("black");
        reveal_strlit("red");
        reveal_strlit("green");
        reveal_strlit("yellow");
        reveal_strlit("blue");
        reveal_strlit("magenta");
        reveal_strlit("cyan");
        reveal_strlit("white");
        reveal_strlit("brightblack");
        reveal_strlit("brightred");
        reveal_strlit("brightgreen");
        reveal_strlit("brightyellow");
        reveal_strlit("brightblue");
        reveal_strlit("brightmagenta");
        reveal_strlit("brightcyan");
        reveal_strlit("brightwhite");
    }
    if str_eq(s, "default") { Some(Color::Default) }
    else if str_eq(s, "black") { Some(Color::Palette(0)) }
    else if str_eq(s, "red") { Some(Color::Palette(1)) }
    else if str_eq(s, "green") { Some(Color::Palette(2)) }
    else if str_eq(s, "yellow") { Some(Color::Palette(3)) }
    else if str_eq(s, "blue") { Some(Color::Palette(4)) }
    else if str_eq(s, "magenta") { Some(Color::Palette(5)) }
    else if str_eq(s, "cyan") { Some(Color::Palette(6)) }
    else if str_eq(s, "white") { Some(Color::Palette(7)) }
    else if str_eq(s, "brightblack") { Some(Color::Palette(8)) }
    else if str_eq(s, "brightred") { Some(Color::Palette(9)) }
    else if str_eq(s, "brightgreen") { Some(Color::Palette(10)) }
    else if str_eq(s, "brightyellow") { Some(Color::Palette(11)) }
    else if str_eq(s, "brightblue") { Some(Color::Palette(12)) }
    else if str_eq(s, "brightmagenta") { Some(Color::Palette(13)) }
    else if str_eq(s, "brightcyan") { Some(Color::Palette(14)) }
    else if str_eq(s, "brightwhite") { Some(Color::Palette(15)) }
    else { None }
}

/// Parse a color name (tmux syntax).
fn parse_color_name(s: &[char]) -> (r: Option<Color>)
    requires
        color_text_safe(trim(s@)),
    ensures
        r == color_spec(s@),
{
    let t = chars_trim(s);
    let ghost h = t@.subrange(1, t@.len() as int);
    if t.len() > 0 && t[0] == '#' {
        let hex = chars_skip(t.as_slice(), 1);
        assert(hex@ == h);
        proof {
            crate::text::lemma_utf8_len_bound(h);
        }
        // A text longer than six characters cannot be six bytes long.
        if hex.len() <= 6 && crate::text::utf8_len(hex.as_slice()) == 6 {
            if hex.len() != 6 {
                return None;
            }
            let r = parse_hex_byte(hex[0], hex[1]);
            let g = parse_hex_byte(hex[2], hex[3]);
            let b = parse_hex_byte(hex[4], hex[5]);
            return match (r, g, b) {
                (Some(r), Some(g), Some(b)) => Some(Color::Rgb { r, g, b }),
                _ => None,
            };
        }
    }
    let colour = str_chars("colour");
    let color = str_chars("color");
    proof {
        reveal_strlit("colour");
        reveal_strlit("color");
    }
    let rest: Option<Vec<char>> = if chars_starts_with(t.as_slice(), colour.as_slice()) {
        Some(chars_skip(t.as_slice(), 6))
    } else if chars_starts_with(t.as_slice(), color.as_slice()) {
        Some(chars_skip(t.as_slice(), 5))
    } else {
        None
    };
    if let Some(n) = rest {
        if let Some(v) = crate::text::parse_unsigned_chars(n.as_slice(), 255) {
            return Some(Color::Palette(v as u8));
        }
    }
    parse_named_color(t.as_slice())
}

/// The attribute bits a keyword sets.
fn parse_attr_keyword(part: &str) -> (r: Option<u16>)
    ensures
        r == attr_keyword(part@),
{
    proof {
        reveal_strlit("bold");
        reveal_strlit("dim");
        reveal_strlit("underscore");
        reveal_strlit("blink");
        reveal_strlit("reverse");
        reveal_strlit("hidden");
        reveal_strlit("italics");
        reveal_strlit("strikethrough");
        reveal_strlit("overline");
    }
    if str_eq(part, "bold") { Some(0x0001u16) }
    else if str_eq(part, "dim") { Some(0x0002u16) }
    else if str_eq(part, "underscore") { Some(0x0004u16) }
    else if str_eq(part, "blink") { Some(0x0008u16) }
    else if str_eq(part, "reverse") { Some(0x0010u16) }
    else if str_eq(part, "hidden") { Some(0x0020u16) }
    else if str_eq(part, "italics") { Some(0x0040u16) }
    else if str_eq(part, "strikethrough") { Some(0x0100u16) }
    else if str_eq(part, "overline") { Some(0x2000u16) }
    else { None }
}

/// Applies one trimmed part of a style string.
fn apply_part(st: Style, part: &[char]) -> (r: Style)
    requires
        style_part_safe(part@),
    ensures
        r == apply_style_part(st, part@),
{
    if part.len() == 0 {
        return st;
    }
    let fg = str_chars("fg=");
    let bg = str_chars("bg=");
    let us = str_chars("us=");
    proof {
        reveal_strlit("fg=");
        reveal_strlit("bg=");
        reveal_strlit("us=");
        reveal_strlit("default");
        reveal_strlit("none");
        reveal_strlit("noattr");
    }
    if chars_starts_with(part, fg.as_slice()) {
        let rest = chars_skip(part, 3);
        match parse_color_name(rest.as_slice()) {
            Some(c) => Style { fg: c, ..st },
            None => st,
        }
    } else if chars_starts_with(part, bg.as_slice()) {
        let rest = chars_skip(part, 3);
        match parse_color_name(rest.as_slice()) {
            Some(c) => Style { bg: c, ..st },
            None => st,
        }
    } else if chars_starts_with(part, us.as_slice()) {
        let rest = chars_skip(part, 3);
        match parse_color_name(rest.as_slice()) {
            Some(c) => Style { us: c, ..st },
            None => st,
        }
    } else {
        let p = string_from_chars(part);
        let p = p.as_str();
        if let Some(bits) = parse_attr_keyword(p) {
            Style { attrs: Attrs { bits: st.attrs.bits | bits }, ..st }
        } else if str_eq(p, "default") {
            Style::default_value()
        } else if str_eq(p, "none") || str_eq(p, "noattr") {
            Style { attrs: Attrs { bits: 0 }, ..st }
        } else {
            st
        }
    }
}

/// Parse a tmux-style string like `fg=red,bg=green,bold` into a `Style`.
///
/// Supports: `fg=COLOR`, `bg=COLOR`, `us=COLOR`, `bold`, `dim`, `underscore`, `blink`,
/// `reverse`, `hidden`, `italics`, `strikethrough`, `overline`, `default`, `none`.
/// Colors can be: named (`red`, `green`), `colour<N>`, `color<N>`, or `#RRGGBB`.
/// Unknown parts and unreadable colors are ignored.
pub fn parse_style(s: &str) -> (r: Style)
    requires
        style_text_safe(s@),
    ensures
        r == style_spec(s@),
{
    let cs = str_chars(s);
    let parts = chars_split(cs.as_slice(), ',');
    let ghost pv = parts@.map_values(|v: Vec<char>| v@);
    let mut style = Style::default_value();
    let mut i: usize = 0;
    while i < parts.len()
        invariant
            i <= parts@.len(),
            pv == split_on(s@, ','),
            pv == parts@.map_values(|v: Vec<char>| v@),
            style_text_safe(s@),
            style == apply_style_parts(pv.subrange(0, i as int)),
        decreases parts@.len() - i,
    {
        let part = chars_trim(parts[i].as_slice());
        assert(pv[i as int] == parts@[i as int]@);
        assert(style_part_safe(trim(split_on(s@, ',')[i as int])));
        assert(pv.subrange(0, i + 1).drop_last() =~= pv.subrange(0, i as int));
        style = apply_part(style, part.as_slice());
        i = i + 1;
    }
    assert(pv.subrange(0, pv.len() as int) =~= pv);
    style
}

/// The value of a two-digit hex number.
pub open spec fn two_digits(hi: char, lo: char) -> int {
    hex_value(hi).unwrap() * 16 + hex_value(lo).unwrap()
}

/// ASCII characters take one byte each in UTF-8.
proof fn lemma_ascii_byte_len(t: Seq<char>)
    requires
        forall|i: int| 0 <= i < t.len() ==> (#[trigger] t[i] as u32) < 0x80,
    ensures
        byte_len(t) == t.len(),
    decreases t.len(),
{
    if t.len() > 0 {
        assert forall|i: int| 0 <= i < t.drop_first().len() implies (#[trigger] t.drop_first()[i] as u32) < 0x80 by {
            assert(t.drop_first()[i] == t[i + 1]);
        }
        lemma_ascii_byte_len(t.drop_first());
        assert((t[0] as u32) < 0x80);
    }
}

/// Text that starts and ends with a non-blank character is its own trim.
proof fn lemma_trim_unblank(t: Seq<char>)
    requires
        t.len() > 0,
        !is_ws(t[0]),
        !is_ws(t.last()),
    ensures
        trim(t) == t,
{
}

/// `#RRGGBB` with six hex digits names the color whose red, green and blue
/// are read from the first, second and third pair of digits, in that order.
pub proof fn law_hex_color_components(h: Seq<char>)
    requires
        h.len() == 6,
        forall|i: int| 0 <= i < 6 ==> #[trigger] hex_value(h[i]) is Some,
    ensures
        color_spec(seq!['#'] + h) == Some(
            Color::Rgb {
                r: two_digits(h[0], h[1]) as u8,
                g: two_digits(h[2], h[3]) as u8,
                b: two_digits(h[4], h[5]) as u8,
            },
        ),
        0 <= two_digits(h[0], h[1]) < 256 && 0 <= two_digits(h[2], h[3]) < 256 && 0 <= two_digits(h[4], h[5]) < 256,
{
    let t = seq!['#'] + h;
    assert(hex_value(h[0]) is Some && hex_value(h[1]) is Some && hex_value(h[2]) is Some);
    assert(hex_value(h[3]) is Some && hex_value(h[4]) is Some && hex_value(h[5]) is Some);
    assert forall|i: int| 0 <= i < h.len() implies (#[trigger] h[i] as u32) < 0x80 by {
        assert(hex_value(h[i]) is Some);
    }
    lemma_ascii_byte_len(h);
    assert(t[0] == '#');
    assert(t.last() == h[5]);
    lemma_trim_unblank(t);
    assert(t.subrange(1, t.len() as int) =~= h);
}

} // verus!
