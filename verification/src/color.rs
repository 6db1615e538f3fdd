//! Colors given as text: `#rrggbb` hex strings and a few CSS color names.
use vstd::prelude::*;
use vstd::utf8::{encode_scalar, encode_utf8, is_ascii_chars};
use piet::Color;
use crate::chars::{chars_of, same_chars, utf8_width};

verus! {

broadcast use vstd::string::group_string_axioms;

/// `piet::Color`, the color type of the canvas renderer; its value is
/// opaque here and only carried from the conversions to their callers.
#[verifier::external_type_specification]
#[verifier::external_body]
pub struct ExColor(piet::Color);

/// What `piet::Color::rgb8(r, g, b)` returns: the opaque color with these
/// channels.
pub uninterp spec fn color_rgb8(r: u8, g: u8, b: u8) -> Color;

/// What `str::to_lowercase` returns for `s` (Unicode lowercase mapping).
pub uninterp spec fn lowercase(s: Seq<char>) -> Seq<char>;

/// Calls `piet::Color::rgb8`, which builds the opaque color with red `r`,
/// green `g`, blue `b` and full opacity. The contract only names the result.
#[verifier::external_body]
fn rgb8(r: u8, g: u8, b: u8) -> (c: Color)
    ensures
        c == color_rgb8(r, g, b),
{
    Color::rgb8(r, g, b)
}

/// An ASCII text with `A`-`Z` turned into `a`-`z`.
pub open spec fn ascii_lowercase(s: Seq<char>) -> Seq<char> {
    Seq::new(
        s.len(),
        |i: int|
            if 'A' <= s[i] && s[i] <= 'Z' {
                ((s[i] as u32) + 32) as char
            } else {
                s[i]
            },
    )
}

/// Calls `str::to_lowercase`, the Unicode lowercase mapping. The contract
/// names the result, and states that of an ASCII text, where the mapping
/// turns `A`-`Z` into `a`-`z` and keeps every other character.
#[verifier::external_body]
pub(crate) fn to_lowercase(s: &str) -> (res: String)
    ensures
        res@ == lowercase(s@),
        is_ascii_chars(s@) ==> res@ == ascii_lowercase(s@),
{
    s.to_lowercase()
}

/// The value of a hexadecimal digit (`char::to_digit(16)`).
pub open spec fn hex_digit(c: char) -> Option<u8> {
    if '0' <= c && c <= '9' {
        Some((c as u32 - '0' as u32) as u8)
    } else if 'a' <= c && c <= 'f' {
        Some((c as u32 - 'a' as u32 + 10) as u8)
    } else if 'A' <= c && c <= 'F' {
        Some((c as u32 - 'A' as u32 + 10) as u8)
    } else {
        None
    }
}

/// `u8::from_str_radix(s, 16).unwrap_or(0)` for a piece `s` that is two
/// bytes long: an optional `+` sign, then hexadecimal digits.
pub open spec fn parse_hex_byte(s: Seq<char>) -> u8 {
    if s.len() == 2 {
        if s[0] == '+' {
            match hex_digit(s[1]) {
                Some(d) => d,
                None => 0,
            }
        } else {
            match (hex_digit(s[0]), hex_digit(s[1])) {
                (Some(a), Some(b)) => (16 * a + b) as u8,
                _ => 0,
            }
        }
    } else {
        0
    }
}

/// The text without its leading `#` characters.
pub open spec fn trim_hashes(s: Seq<char>) -> Seq<char>
    decreases s.len(),
{
    if s.len() > 0 && s[0] == '#' {
        trim_hashes(s.drop_first())
    } else {
        s
    }
}

/// How many characters make up the first two bytes of `h`: two one-byte
/// characters or one two-byte character; `None` when byte 2 falls inside a
/// character.
pub open spec fn two_byte_chars(h: Seq<char>) -> Option<nat> {
    if h.len() >= 1 && encode_scalar(h[0] as u32).len() == 2 {
        Some(1)
    } else if h.len() >= 2 && encode_scalar(h[0] as u32).len() == 1 && encode_scalar(
        h[1] as u32,
    ).len() == 1 {
        Some(2)
    } else {
        None
    }
}

/// A six-byte hex body can be cut at bytes 2 and 4.
pub open spec fn hex_cuts_ok(h: Seq<char>) -> bool {
    match two_byte_chars(h) {
        Some(k) => two_byte_chars(h.skip(k as int)) is Some,
        None => false,
    }
}

/// The channels of a six-byte hex body cut into three two-byte pieces.
pub open spec fn hex_channels(h: Seq<char>) -> (u8, u8, u8) {
    let k1 = two_byte_chars(h).unwrap();
    let rest = h.skip(k1 as int);
    let k2 = two_byte_chars(rest).unwrap();
    (
        parse_hex_byte(h.take(k1 as int)),
        parse_hex_byte(rest.take(k2 as int)),
        parse_hex_byte(rest.skip(k2 as int)),
    )
}

/// Slicing the hex text at bytes 2 and 4 does not cut a character in two.
pub open spec fn hex_color_defined(hex: Seq<char>) -> bool {
    let h = trim_hashes(hex);
    encode_utf8(h).len() == 6 ==> hex_cuts_ok(h)
}

/// The channels of a hex color: after the leading `#`s, six bytes give red,
/// green and blue, two bytes each (a piece that does not parse is 0);
/// anything else is black.
pub open spec fn hex_rgb(hex: Seq<char>) -> (u8, u8, u8) {
    let h = trim_hashes(hex);
    if encode_utf8(h).len() == 6 {
        hex_channels(h)
    } else {
        (0, 0, 0)
    }
}

/// The channels of a color name (already lowercased); unknown names are black.
pub open spec fn named_rgb(n: Seq<char>) -> (u8, u8, u8) {
    if n == "black"@ {
        (0, 0, 0)
    } else if n == "white"@ {
        (255, 255, 255)
    } else if n == "red"@ {
        (255, 0, 0)
    } else if n == "green"@ {
        (0, 128, 0)
    } else if n == "blue"@ {
        (0, 0, 255)
    } else if n == "yellow"@ {
        (255, 255, 0)
    } else if n == "lightgray"@ {
        (211, 211, 211)
    } else if n == "gray"@ {
        (128, 128, 128)
    } else if n == "darkgray"@ {
        (169, 169, 169)
    } else {
        (0, 0, 0)
    }
}

/// The color names that a color text may use.
pub open spec fn known_color_names() -> Seq<Seq<char>> {
    seq![
        "black"@,
        "white"@,
        "red"@,
        "green"@,
        "blue"@,
        "yellow"@,
        "lightgray"@,
        "gray"@,
        "darkgray"@,
    ]
}

/// The known names have the channels that CSS gives them: black and white,
/// the primaries red, green (half intensity) and blue, yellow as red plus
/// green, and the grays lightgray 211, darkgray 169 and gray 128; the grays
/// have equal channels and get darker in that order.
pub proof fn lemma_css_color_channels()
    ensures
        named_rgb("black"@) == (0u8, 0u8, 0u8),
        named_rgb("white"@) == (255u8, 255u8, 255u8),
        named_rgb("red"@) == (255u8, 0u8, 0u8),
        named_rgb("green"@) == (0u8, 128u8, 0u8),
        named_rgb("blue"@) == (0u8, 0u8, 255u8),
        named_rgb("yellow"@) == (named_rgb("red"@).0, 255u8, 0u8),
        named_rgb("lightgray"@) == (211u8, 211u8, 211u8),
        named_rgb("darkgray"@) == (169u8, 169u8, 169u8),
        named_rgb("gray"@) == (128u8, 128u8, 128u8),
        named_rgb("white"@).0 > named_rgb("lightgray"@).0 > named_rgb("darkgray"@).0
            > named_rgb("gray"@).0 > named_rgb("black"@).0,
{
    reveal_strlit("black");
    reveal_strlit("white");
    reveal_strlit("red");
    reveal_strlit("green");
    reveal_strlit("blue");
    reveal_strlit("yellow");
    reveal_strlit("lightgray");
    reveal_strlit("gray");
    reveal_strlit("darkgray");
    assert("black"@.len() == 5 && "black"@[0] == 'b');
    assert("white"@.len() == 5 && "white"@[0] == 'w');
    assert("red"@.len() == 3);
    assert("green"@.len() == 5 && "green"@[0] == 'g');
    assert("blue"@.len() == 4 && "blue"@[0] == 'b');
    assert("yellow"@.len() == 6);
    assert("lightgray"@.len() == 9);
    assert("gray"@.len() == 4 && "gray"@[0] == 'g');
    assert("darkgray"@.len() == 8);
}

/// A name that is not a known color gives black.
pub proof fn lemma_unknown_color_black(n: Seq<char>)
    requires
        !known_color_names().contains(n),
    ensures
        named_rgb(n) == (0u8, 0u8, 0u8),
{
    let k = known_color_names();
    assert(k[0] == "black"@ && k[1] == "white"@ && k[2] == "red"@ && k[3] == "green"@ && k[4]
        == "blue"@ && k[5] == "yellow"@ && k[6] == "lightgray"@ && k[7] == "gray"@ && k[8]
        == "darkgray"@);
    assert(n != k[0] && n != k[1] && n != k[2] && n != k[3] && n != k[4] && n != k[5] && n
        != k[6] && n != k[7] && n != k[8]);
}

/// Two different known color names never give the same color.
pub proof fn lemma_known_colors_distinct(i: int, j: int)
    requires
        0 <= i < j < known_color_names().len(),
    ensures
        known_color_names()[i] != known_color_names()[j],
        named_rgb(known_color_names()[i]) != named_rgb(known_color_names()[j]),
{
    lemma_css_color_channels();
    let k = known_color_names();
    assert(k[0] == "black"@ && k[1] == "white"@ && k[2] == "red"@ && k[3] == "green"@ && k[4]
        == "blue"@ && k[5] == "yellow"@ && k[6] == "lightgray"@ && k[7] == "gray"@ && k[8]
        == "darkgray"@);
}

/// A color text is a hex color when it starts with `#`, else a color name.
pub open spec fn is_hex_form(color: Seq<char>) -> bool {
    color.len() > 0 && color[0] == '#'
}

/// The converted color is defined: a hex form can be cut into its pieces.
pub open spec fn color_defined(color: Seq<char>) -> bool {
    is_hex_form(color) ==> hex_color_defined(color)
}

/// The channels that `convert_to_color` gives `color`.
pub open spec fn color_rgb(color: Seq<char>) -> (u8, u8, u8) {
    if is_hex_form(color) {
        hex_rgb(color)
    } else {
        named_rgb(lowercase(color))
    }
}

fn hex_digit_exec(c: char) -> (res: Option<u8>)
    ensures
        res == hex_digit(c),
{
    if '0' <= c && c <= '9' {
        Some((c as u32 - '0' as u32) as u8)
    } else if 'a' <= c && c <= 'f' {
        Some((c as u32 - 'a' as u32 + 10) as u8)
    } else if 'A' <= c && c <= 'F' {
        Some((c as u32 - 'A' as u32 + 10) as u8)
    } else {
        None
    }
}

/// `parse_hex_byte` of `h[lo..hi]`.
fn parse_hex_byte_at(h: &Vec<char>, lo: usize, hi: usize) -> (res: u8)
    requires
        lo <= hi <= h@.len(),
    ensures
        res == parse_hex_byte(h@.subrange(lo as int, hi as int)),
{
    if hi - lo == 2 {
        let a = h[lo];
        let b = h[lo + 1];
        if a == '+' {
            match hex_digit_exec(b) {
                Some(d) => d,
                None => 0,
            }
        } else {
            match (hex_digit_exec(a), hex_digit_exec(b)) {
                (Some(x), Some(y)) => 16 * x + y,
                _ => 0,
            }
        }
    } else {
        0
    }
}

/// `two_byte_chars(h[from..])`.
fn two_byte_chars_at(h: &Vec<char>, from: usize) -> (res: Option<usize>)
    requires
        from <= h@.len(),
    ensures
        match two_byte_chars(h@.skip(from as int)) {
            Some(k) => res == Some(k as usize),
            None => res is None,
        },
        res matches Some(k) ==> from + k <= h@.len(),
{
    let n = h.len();
    if from < n && utf8_width(h[from]) == 2 {
        Some(1)
    } else if n - from >= 2 && utf8_width(h[from]) == 1 && utf8_width(h[from + 1]) == 1 {
        Some(2)
    } else {
        None
    }
}

/// Whether the UTF-8 encoding of `h[from..]` is exactly six bytes long.
fn is_six_bytes_from(h: &Vec<char>, from: usize) -> (res: bool)
    requires
        from <= h@.len(),
    ensures
        res == (encode_utf8(h@.skip(from as int)).len() == 6),
{
    let n = h.len();
    let mut i: usize = n;
    let mut sum: usize = 0;
    assert(h@.skip(n as int) =~= Seq::<char>::empty());
    while i > from
        invariant
            from <= i <= n,
            n == h@.len(),
            sum == encode_utf8(h@.skip(i as int)).len(),
            sum <= 6,
        decreases i,
    {
        let w = utf8_width(h[i - 1]);
        proof {
            let s = h@.skip(i - 1);
            assert(s.drop_first() =~= h@.skip(i as int));
            assert(s[0] == h@[i - 1]);
        }
        if sum + w > 6 {
            proof {
                lemma_encode_suffix_grows(h@, from as int, (i - 1) as int);
            }
            return false;
        }
        sum = sum + w;
        i -= 1;
    }
    sum == 6
}

proof fn lemma_encode_suffix_grows(h: Seq<char>, from: int, i: int)
    requires
        0 <= from <= i <= h.len(),
    ensures
        encode_utf8(h.skip(i)).len() <= encode_utf8(h.skip(from)).len(),
    decreases i - from,
{
    if from < i {
        lemma_encode_suffix_grows(h, from + 1, i);
        let s = h.skip(from);
        assert(s.drop_first() =~= h.skip(from + 1));
    }
}

/// Number of leading `#` characters of `h`.
fn leading_hashes(h: &Vec<char>) -> (res: usize)
    ensures
        res <= h@.len(),
        h@.skip(res as int) == trim_hashes(h@),
{
    let mut i: usize = 0;
    assert(h@.skip(0) =~= h@);
    while i < h.len() && h[i] == '#'
        invariant
            i <= h@.len(),
            trim_hashes(h@.skip(i as int)) == trim_hashes(h@),
        decreases h@.len() - i,
    {
        assert(h@.skip(i as int).drop_first() =~= h@.skip(i + 1));
        i += 1;
    }
    proof {
        let s = h@.skip(i as int);
        if s.len() > 0 {
            assert(s[0] == h@[i as int]);
        }
    }
    i
}

/// Whether `hex_to_color` accepts `hex`: six bytes after the `#`s that
/// cannot be cut at bytes 2 and 4 are refused (slicing them would panic).
pub fn hex_color_is_defined(hex: &str) -> (res: bool)
    ensures
        res == hex_color_defined(hex@),
{
    let h = chars_of(hex);
    let start = leading_hashes(&h);
    let ghost body = h@.skip(start as int);
    if !is_six_bytes_from(&h, start) {
        return true;
    }
    match two_byte_chars_at(&h, start) {
        Some(k1) => {
            assert(start + k1 <= h.len());
            let mid = start + k1;
            assert(h@.skip(mid as int) =~= body.skip(k1 as int));
            two_byte_chars_at(&h, mid).is_some()
        },
        None => false,
    }
}

/// Whether `convert_to_color` accepts `color`: names always, hex colors
/// when `hex_to_color` accepts them.
pub fn color_is_defined(color: &str) -> (res: bool)
    ensures
        res == color_defined(color@),
{
    let h = chars_of(color);
    if h.len() > 0 && h[0] == '#' {
        hex_color_is_defined(color)
    } else {
        true
    }
}

/// The red, green and blue channels of a `#rrggbb` color text (see `hex_rgb`).
pub fn hex_to_rgb8(hex: &str) -> (res: (u8, u8, u8))
    requires
        hex_color_defined(hex@),
    ensures
        res == hex_rgb(hex@),
{
    let h = chars_of(hex);
    let start = leading_hashes(&h);
    let ghost body = h@.skip(start as int);
    if is_six_bytes_from(&h, start) {
        let k1 = two_byte_chars_at(&h, start).unwrap();
        let mid = start + k1;
        assert(h@.skip(mid as int) =~= body.skip(k1 as int));
        let k2o = two_byte_chars_at(&h, mid);
        let k2 = k2o.unwrap();
        assert(mid + k2 <= h@.len());
        assert(h@.len() == h.len());
        let end = mid + k2;
        proof {
            let rest = body.skip(k1 as int);
            assert(h@.subrange(start as int, mid as int) =~= body.take(k1 as int));
            assert(h@.subrange(mid as int, end as int) =~= rest.take(k2 as int));
            assert(h@.subrange(end as int, h@.len() as int) =~= rest.skip(k2 as int));
        }
        let r = parse_hex_byte_at(&h, start, mid);
        let g = parse_hex_byte_at(&h, mid, end);
        let b = parse_hex_byte_at(&h, end, h.len());
        (r, g, b)
    } else {
        (0, 0, 0)
    }
}

/// Converts a `#rrggbb` text to a color (black when it is not six bytes after the `#`s).
pub fn hex_to_color(hex: &str) -> (c: Color)
    requires
        hex_color_defined(hex@),
    ensures
        c == color_rgb8(hex_rgb(hex@).0, hex_rgb(hex@).1, hex_rgb(hex@).2),
{
    let (r, g, b) = hex_to_rgb8(hex);
    rgb8(r, g, b)
}

/// The channels of a CSS color name, compared after lowercasing; unknown
/// names are black.
pub fn named_color_rgb8(color_name: &str) -> (res: (u8, u8, u8))
    ensures
        res == named_rgb(lowercase(color_name@)),
        is_ascii_chars(color_name@) ==> res == named_rgb(ascii_lowercase(color_name@)),
{
    let lower = to_lowercase(color_name);
    let n = chars_of(lower.as_str());
    if same_chars(&n, "black") {
        (0, 0, 0)
    } else if same_chars(&n, "white") {
        (255, 255, 255)
    } else if same_chars(&n, "red") {
        (255, 0, 0)
    } else if same_chars(&n, "green") {
        (0, 128, 0)
    } else if same_chars(&n, "blue") {
        (0, 0, 255)
    } else if same_chars(&n, "yellow") {
        (255, 255, 0)
    } else if same_chars(&n, "lightgray") {
        (211, 211, 211)
    } else if same_chars(&n, "gray") {
        (128, 128, 128)
    } else if same_chars(&n, "darkgray") {
        (169, 169, 169)
    } else {
        (0, 0, 0)
    }
}

/// Converts a color name to a color (black when the name is unknown).
pub fn named_color_to_rgb(color_name: &str) -> (c: Color)
    ensures
        c == color_rgb8(
            named_rgb(lowercase(color_name@)).0,
            named_rgb(lowercase(color_name@)).1,
            named_rgb(lowercase(color_name@)).2,
        ),
{
    let (r, g, b) = named_color_rgb8(color_name);
    rgb8(r, g, b)
}

/// The channels of a color text: a hex color when it starts with `#`, else a name.
pub fn color_to_rgb8(color: &str) -> (res: (u8, u8, u8))
    requires
        color_defined(color@),
    ensures
        res == color_rgb(color@),
{
    let h = chars_of(color);
    if h.len() > 0 && h[0] == '#' {
        hex_to_rgb8(color)
    } else {
        named_color_rgb8(color)
    }
}

/// Converts a color text (hex or name) to a color.
pub fn convert_to_color(color: &str) -> (c: Color)
    requires
        color_defined(color@),
    ensures
        c == color_rgb8(color_rgb(color@).0, color_rgb(color@).1, color_rgb(color@).2),
{
    let (r, g, b) = color_to_rgb8(color);
    rgb8(r, g, b)
}

} // verus!
