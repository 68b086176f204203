use idiom_tui::backend::color::{color_by_name, join_words, replace_all};
use idiom_tui::backend::{
    background_rgb, from_str, object_to_u8, parse_color, parse_colorfgbg, parse_osc_rgb,
    parse_raw_rgb, pull_color, serialize_rgb, Color, JsonValue, ParseColorError,
};

fn number(n: u64) -> JsonValue {
    JsonValue::Number(Some(n))
}

fn rgb_object(key: &str, list: Vec<JsonValue>) -> JsonValue {
    JsonValue::Object(vec![(key.to_owned(), JsonValue::Array(list))])
}

const SHAPE: &str =
    "When representing Color as Object(Map) - should be {\"rgb\": [number, number, number]}!";

#[test]
fn color_names() {
    assert_eq!(from_str("reset"), Ok(Color::Reset));
    assert_eq!(from_str("black"), Ok(Color::Black));
    assert_eq!(from_str("red"), Ok(Color::DarkRed));
    assert_eq!(from_str("lightred"), Ok(Color::Red));
    assert_eq!(from_str("green"), Ok(Color::DarkGreen));
    assert_eq!(from_str("lightgreen"), Ok(Color::Green));
    assert_eq!(from_str("yellow"), Ok(Color::DarkYellow));
    assert_eq!(from_str("lightyellow"), Ok(Color::Yellow));
    assert_eq!(from_str("blue"), Ok(Color::DarkBlue));
    assert_eq!(from_str("lightblue"), Ok(Color::Blue));
    assert_eq!(from_str("magenta"), Ok(Color::DarkMagenta));
    assert_eq!(from_str("lightmagenta"), Ok(Color::Magenta));
    assert_eq!(from_str("cyan"), Ok(Color::DarkCyan));
    assert_eq!(from_str("lightcyan"), Ok(Color::Cyan));
    assert_eq!(from_str("gray"), Ok(Color::Grey));
    assert_eq!(from_str("darkgray"), Ok(Color::DarkGrey));
    assert_eq!(from_str("white"), Ok(Color::White));
}

#[test]
fn color_names_in_other_spellings() {
    assert_eq!(from_str("RED"), Ok(Color::DarkRed));
    assert_eq!(from_str("Light-Red"), Ok(Color::Red));
    assert_eq!(from_str("bright_blue"), Ok(Color::Blue));
    assert_eq!(from_str("Bright Green"), Ok(Color::Green));
    assert_eq!(from_str("grey"), Ok(Color::Grey));
    assert_eq!(from_str("silver"), Ok(Color::Grey));
    assert_eq!(from_str("dark grey"), Ok(Color::DarkGrey));
    assert_eq!(from_str("bright black"), Ok(Color::DarkGrey));
    assert_eq!(from_str("light white"), Ok(Color::White));
    assert_eq!(from_str("light grey"), Ok(Color::White));
}

#[test]
fn ansi_numbers_and_hex_colors() {
    assert_eq!(from_str("0"), Ok(Color::AnsiValue(0)));
    assert_eq!(from_str("12"), Ok(Color::AnsiValue(12)));
    assert_eq!(from_str("255"), Ok(Color::AnsiValue(255)));
    assert_eq!(from_str("#ff0000"), Ok(Color::Rgb { r: 255, g: 0, b: 0 }));
    assert_eq!(from_str("#0A1b2C"), Ok(Color::Rgb { r: 10, g: 27, b: 44 }));
}

#[test]
fn colors_by_their_normal_name() {
    assert_eq!(color_by_name("red"), Some(Color::DarkRed));
    assert_eq!(color_by_name("lightred"), Some(Color::Red));
    assert_eq!(color_by_name("darkgray"), Some(Color::DarkGrey));
    assert_eq!(color_by_name("Red"), None);
    assert_eq!(color_by_name("light red"), None);
    assert_eq!(color_by_name(""), None);
}

#[test]
fn texts_that_name_no_color() {
    assert_eq!(from_str(""), Err(ParseColorError));
    assert_eq!(from_str("256"), Err(ParseColorError));
    assert_eq!(from_str("-1"), Err(ParseColorError));
    assert_eq!(from_str("purple"), Err(ParseColorError));
    assert_eq!(from_str("#ff00"), Err(ParseColorError));
    assert_eq!(from_str("#ff00000"), Err(ParseColorError));
    assert_eq!(from_str("#gg0000"), Err(ParseColorError));
    assert_eq!(from_str("ff0000f"), Err(ParseColorError));
    assert_eq!(from_str("#é0000"), Err(ParseColorError));
    assert_eq!(from_str("#0é000"), Err(ParseColorError));
    assert_eq!(ParseColorError.message(), "Failed to parse Colors");
}

#[test]
fn colors_from_json() {
    assert_eq!(parse_color(JsonValue::String("red".to_owned())), Ok(Color::DarkRed));
    assert_eq!(
        parse_color(JsonValue::String("nothing".to_owned())),
        Err("Failed to parse Colors".to_owned())
    );
    assert_eq!(
        parse_color(rgb_object("rgb", vec![number(1), number(2), number(3)])),
        Ok(Color::Rgb { r: 1, g: 2, b: 3 })
    );
    assert_eq!(
        parse_color(rgb_object("Rgb", vec![number(1), JsonValue::String("20".to_owned()), number(300)])),
        Ok(Color::Rgb { r: 1, g: 20, b: 44 })
    );
    assert_eq!(
        parse_color(rgb_object("RGB", vec![number(9), number(8), number(7)])),
        Ok(Color::Rgb { r: 9, g: 8, b: 7 })
    );
    assert_eq!(
        parse_color(JsonValue::Null),
        Err("Color definition should be String or Object!".to_owned())
    );
    assert_eq!(
        parse_color(JsonValue::Bool(true)),
        Err("Color definition should be String or Object!".to_owned())
    );
    assert_eq!(
        parse_color(number(3)),
        Err("Color definition should be String or Object!".to_owned())
    );
    assert_eq!(
        parse_color(JsonValue::Array(vec![])),
        Err("Color definition should be String or Object!".to_owned())
    );
}

#[test]
fn json_objects_that_hold_no_color() {
    assert_eq!(parse_color(JsonValue::Object(vec![])), Err(SHAPE.to_owned()));
    assert_eq!(
        parse_color(rgb_object("rgb", vec![number(1), number(2)])),
        Err(SHAPE.to_owned())
    );
    assert_eq!(
        parse_color(rgb_object("color", vec![number(1), number(2), number(3)])),
        Err(SHAPE.to_owned())
    );
    assert_eq!(
        parse_color(JsonValue::Object(vec![("rgb".to_owned(), number(1))])),
        Err(SHAPE.to_owned())
    );
    // the first of the keys decides, whatever the others hold
    assert_eq!(
        parse_color(JsonValue::Object(vec![
            ("RGB".to_owned(), JsonValue::Array(vec![number(1), number(2), number(3)])),
            ("rgb".to_owned(), JsonValue::Null),
        ])),
        Err(SHAPE.to_owned())
    );
    assert_eq!(
        parse_color(rgb_object("rgb", vec![JsonValue::Null, JsonValue::Null, JsonValue::Null])),
        Err("Failed to parse B in RGB color".to_owned())
    );
    assert_eq!(
        parse_color(rgb_object("rgb", vec![JsonValue::Null, JsonValue::Null, number(1)])),
        Err("Failed to parse G in RGB color".to_owned())
    );
    assert_eq!(
        parse_color(rgb_object("rgb", vec![JsonValue::Null, number(1), number(1)])),
        Err("Failed to parse R in RGB color".to_owned())
    );
}

#[test]
fn raw_rgb_from_json() {
    assert_eq!(
        parse_raw_rgb(rgb_object("rgb", vec![number(1), number(2), number(3)])),
        Ok((1, 2, 3))
    );
    assert_eq!(parse_raw_rgb(JsonValue::String("red".to_owned())), Err(SHAPE.to_owned()));
    assert_eq!(parse_raw_rgb(JsonValue::Null), Err(SHAPE.to_owned()));
}

#[test]
fn numbers_from_json() {
    assert_eq!(object_to_u8(&number(7)), Some(7));
    assert_eq!(object_to_u8(&number(256)), Some(0));
    assert_eq!(object_to_u8(&number(511)), Some(255));
    assert_eq!(object_to_u8(&JsonValue::Number(None)), None);
    assert_eq!(object_to_u8(&JsonValue::String("200".to_owned())), Some(200));
    assert_eq!(object_to_u8(&JsonValue::String("+5".to_owned())), Some(5));
    assert_eq!(object_to_u8(&JsonValue::String("256".to_owned())), None);
    assert_eq!(object_to_u8(&JsonValue::String(" 5".to_owned())), None);
    assert_eq!(object_to_u8(&JsonValue::Bool(false)), None);
    assert_eq!(object_to_u8(&JsonValue::Null), None);
}

#[test]
fn pull_a_color_out_of_a_map() {
    let mut map = vec![
        ("fg".to_owned(), JsonValue::String("blue".to_owned())),
        ("bg".to_owned(), JsonValue::Null),
    ];
    assert_eq!(pull_color(&mut map, "missing"), None);
    assert_eq!(map.len(), 2);
    assert_eq!(pull_color(&mut map, "fg"), Some(Ok(Color::DarkBlue)));
    assert_eq!(map.len(), 1);
    assert_eq!(map[0].0, "bg");
    assert_eq!(
        pull_color(&mut map, "bg"),
        Some(Err("Color definition should be String or Object!".to_owned()))
    );
    assert!(map.is_empty());
}

#[test]
fn background_from_the_answer_of_a_terminal() {
    assert_eq!(parse_osc_rgb("]11;rgb:1e1e/2a2a/ffff"), Some((0x1e, 0x2a, 0xff)));
    assert_eq!(parse_osc_rgb("]11;rgb:0000/0000/0000\u{7}"), Some((0, 0, 0)));
    assert_eq!(parse_osc_rgb("]11;rgb:1e1e/2a2a/fff"), None);
    assert_eq!(parse_osc_rgb("]10;rgb:1e1e/2a2a/ffff"), None);
    assert_eq!(parse_osc_rgb("]11;rgb:zz1e/2a2a/ffff"), None);
    assert_eq!(parse_osc_rgb("]11;rgb:1e1e/zz2a/ffff"), None);
    assert_eq!(parse_osc_rgb("]11;rgb:1e1e/2a2a/zzff"), None);
    assert_eq!(parse_osc_rgb("]11;rgb:é1e/2a2a/fffff"), None);
    assert_eq!(parse_osc_rgb(""), None);
}

#[test]
fn background_from_the_environment() {
    assert_eq!(parse_colorfgbg("15;0"), Some((0, 0, 0)));
    assert_eq!(parse_colorfgbg("0;1"), Some((0x80, 0, 0)));
    assert_eq!(parse_colorfgbg("0;default;2"), Some((0, 0x80, 0)));
    assert_eq!(parse_colorfgbg("0"), None);
    assert_eq!(parse_colorfgbg("0;1;2;3"), None);
    assert_eq!(parse_colorfgbg("0;x"), None);
    assert_eq!(parse_colorfgbg("0;"), None);
    assert_eq!(parse_colorfgbg(""), None);
}

#[test]
fn background_prefers_the_terminal() {
    assert_eq!(background_rgb(None, None), None);
    assert_eq!(background_rgb(Some("]11;rgb:1010/2020/3030"), Some("0;1")), Some((16, 32, 48)));
    assert_eq!(background_rgb(Some("no answer"), Some("0;1")), Some((0x80, 0, 0)));
    assert_eq!(background_rgb(None, Some("0;1")), Some((0x80, 0, 0)));
    assert_eq!(background_rgb(Some("no answer"), None), None);
}

#[test]
fn rgb_for_configuration() {
    assert_eq!(serialize_rgb(1, 2, 3), vec![("rgb", [1, 2, 3])]);
}

#[test]
fn replacing_takes_matches_from_the_left() {
    for (text, from, to) in [
        ("aaa", "aa", "b"),
        ("abcabc", "bc", ""),
        ("brightbright", "bright", "light"),
        ("", "a", "b"),
        ("ab", "abc", "x"),
        ("字é字", "字", "é字"),
        ("aXbXc", "X", "XX"),
    ] {
        assert_eq!(replace_all(text, from, to), text.replace(from, to));
    }
    assert_eq!(replace_all("aaa", "aa", "b"), "ba");
    assert_eq!(join_words("light_sea - green"), "lightseagreen");
    assert_eq!(join_words(" -_"), "");
}
