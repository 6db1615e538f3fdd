use piet::Color;
use vec_draw::color::{
    color_is_defined, color_to_rgb8, hex_color_is_defined, convert_to_color, hex_to_color, hex_to_rgb8, named_color_rgb8, named_color_to_rgb,
};
use vec_draw::svg_style::{
    add_style_rules, class_paint, element_paint, fill_source, parse_css_variable, parse_svg_style,
    resolve_css_value, split, split_whitespace, trim, FillSource, StyleMap, point_pieces,
};

#[test]
fn hex_colors() {
    assert_eq!(hex_to_rgb8("#ff0080"), (255, 0, 128));
    assert_eq!(hex_to_rgb8("##A0b1C2"), (160, 177, 194));
    assert_eq!(hex_to_rgb8("ffffff"), (255, 255, 255));
    assert_eq!(hex_to_rgb8("#fff"), (0, 0, 0));
    assert_eq!(hex_to_rgb8("#zz10+f"), (0, 16, 15));
    assert_eq!(hex_to_rgb8("#ééé"), (0, 0, 0));
    assert_eq!(hex_to_color("#123456").as_rgba8(), (0x12, 0x34, 0x56, 255));
}

#[test]
fn named_colors() {
    assert_eq!(named_color_rgb8("green"), (0, 128, 0));
    assert_eq!(named_color_rgb8("LightGray"), (211, 211, 211));
    assert_eq!(named_color_rgb8("teal"), (0, 0, 0));
    assert_eq!(named_color_to_rgb("white"), Color::WHITE);
}

#[test]
fn convert_colors() {
    assert_eq!(color_to_rgb8("#0000FF"), (0, 0, 255));
    assert_eq!(color_to_rgb8("yellow"), (255, 255, 0));
    assert_eq!(convert_to_color("red").as_rgba8(), (255, 0, 0, 255));
    assert_eq!(convert_to_color("nonsense"), Color::BLACK);
}

#[test]
fn colors_that_can_be_converted() {
    assert!(color_is_defined("#ff0000"));
    assert!(color_is_defined("red"));
    assert!(color_is_defined("#fff"));
    assert!(color_is_defined("#é0000"));
    assert!(color_is_defined("#ééé"));
    assert!(!color_is_defined("#0é000"));
    assert!(color_is_defined("#00é00"));
    assert!(!color_is_defined("#000é0"));
    assert!(color_is_defined("é0é00"));
    assert!(hex_color_is_defined("ff0000"));
    assert!(hex_color_is_defined("##ff0000"));
    assert!(!hex_color_is_defined("0é000"));
    assert!(hex_color_is_defined("0é0"));
}

#[test]
fn trim_and_split() {
    let t = trim(&" \t a b \u{3000}".chars().collect());
    assert_eq!(t.iter().collect::<String>(), "a b");
    let parts = split(&"a;;b".chars().collect(), ';');
    assert_eq!(parts.len(), 3);
    assert!(parts[1].is_empty());
    let words = split_whitespace(&"  one two\n three ".chars().collect());
    let words: Vec<String> = words.iter().map(|w| w.iter().collect()).collect();
    assert_eq!(words, vec!["one", "two", "three"]);
}

#[test]
fn style_attribute() {
    let m = parse_svg_style(" stroke : red; fill:none ;bad; stroke: blue; a:b:c");
    assert_eq!(m.get("stroke").map(|s| s.as_str()), Some("blue"));
    assert_eq!(m.get("fill").map(|s| s.as_str()), Some("none"));
    assert!(m.get("bad").is_none());
    assert!(m.get("a").is_none());
}

#[test]
fn element_paints() {
    assert_eq!(element_paint(None, None), ("#000000".to_string(), "none".to_string()));
    assert_eq!(element_paint(Some("fill: #f00"), None), ("#000000".to_string(), "#f00".to_string()));
    assert_eq!(element_paint(None, Some("green")), ("green".to_string(), "none".to_string()));
    assert_eq!(element_paint(Some("stroke:blue"), Some("green")), ("blue".to_string(), "none".to_string()));
}

#[test]
fn style_sheet_and_classes() {
    let mut sheet: StyleMap<StyleMap<String>> = StyleMap::new();
    add_style_rules(&mut sheet, ".a { fill: red; opacity: 0.5 } .b{stroke:blue;fill:green} junk");
    assert_eq!(sheet.get("a").unwrap().get("fill").unwrap(), "red");
    let p = class_paint(" a  b ", &sheet);
    assert_eq!(p.fill.as_deref(), Some("green"));
    assert_eq!(p.stroke.as_deref(), Some("blue"));
    assert_eq!(p.opacity.as_deref(), Some("0.5"));
    let p = class_paint("c", &sheet);
    assert!(p.fill.is_none() && p.stroke.is_none() && p.opacity.is_none());
}

#[test]
fn css_variables() {
    assert_eq!(
        parse_css_variable("var(--accent, #123)"),
        Some(("--accent".to_string(), Some("#123".to_string())))
    );
    assert_eq!(parse_css_variable("var(--x))"), Some(("--x".to_string(), None)));
    assert_eq!(parse_css_variable("var(x)"), None);
    assert_eq!(parse_css_variable("red"), None);
    assert_eq!(resolve_css_value(Some("blue".to_string()), Some("red".to_string())), Some("blue".to_string()));
    assert_eq!(resolve_css_value(Some(String::new()), Some("red".to_string())), Some("red".to_string()));
    assert_eq!(resolve_css_value(None, None), None);
}

#[test]
fn fill_sources() {
    assert_eq!(fill_source("url(#g1)"), FillSource::Gradient { id: "g1".to_string() });
    assert_eq!(fill_source("url(g1)"), FillSource::Gradient { id: String::new() });
    assert_eq!(fill_source("var(--c)"), FillSource::Variable);
    assert_eq!(fill_source(""), FillSource::Paint { color: "black".to_string() });
    assert_eq!(fill_source("#abc"), FillSource::Paint { color: "#abc".to_string() });
    assert_eq!(fill_source("NONE"), FillSource::NoFill);
}

#[test]
fn style_map_read_after_write() {
    let mut m: StyleMap<String> = StyleMap::new();
    assert_eq!(m.get("fill"), None);
    m.insert("fill".to_string(), "red".to_string());
    m.insert("stroke".to_string(), "blue".to_string());
    assert_eq!(m.get("fill"), Some(&"red".to_string()));
    m.insert("fill".to_string(), "green".to_string());
    assert_eq!(m.get("fill"), Some(&"green".to_string()));
    assert_eq!(m.get("stroke"), Some(&"blue".to_string()));
}

#[test]
fn points_attribute_pieces() {
    assert_eq!(point_pieces("1,2"), None);
    assert_eq!(point_pieces("  "), None);
    let v = point_pieces(" 1,2\t3,4,5  x ").unwrap();
    assert_eq!(v, vec![vec!["1".to_string(), "2".to_string()], vec!["3".to_string(), "4".to_string(), "5".to_string()], vec!["x".to_string()]]);
    assert_eq!(point_pieces("a, b").unwrap(), vec![vec!["a".to_string(), "".to_string()], vec!["b".to_string()]]);
}

#[test]
fn upper_case_color_names() {
    assert_eq!(named_color_rgb8("RED"), (255, 0, 0));
    assert_eq!(named_color_rgb8("Blue"), (0, 0, 255));
}
