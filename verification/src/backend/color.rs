//! Colors and how they are written in configuration.
use crate::backend::json::{find_key, position_of, JsonValue};
use crate::utils::encoding::{
    byte_len, char_from, index_at, is_boundary, lemma_index_at, lemma_offset_ends, offset_of,
    on_boundary, slice, str_len,
};
use crate::utils::scan::str_eq;
use vstd::prelude::*;
use vstd::string::StringExecFns;

verus! {

/// A terminal color.
#[derive(Debug, Clone, Copy, PartialEq, Eq)]
pub enum Color {
    Reset,
    Black,
    DarkGrey,
    Red,
    DarkRed,
    Green,
    DarkGreen,
    Yellow,
    DarkYellow,
    Blue,
    DarkBlue,
    Magenta,
    DarkMagenta,
    Cyan,
    DarkCyan,
    White,
    Grey,
    Rgb { r: u8, g: u8, b: u8 },
    AnsiValue(u8),
}

/// A text that names no color.
#[derive(Debug, Clone, Copy, Eq, PartialEq, Hash)]
pub struct ParseColorError;

impl ParseColorError {
    /// What the error says.
    pub fn message(&self) -> (text: String)
        ensures
            text@ == "Failed to parse Colors"@,
    {
        "Failed to parse Colors".to_owned()
    }
}

/// The lower case form that the standard library gives a string.
pub uninterp spec fn lowercased(s: Seq<char>) -> Seq<char>;

/// The number that the standard library reads from a string in a radix, if it reads one.
pub uninterp spec fn u8_in_radix(s: Seq<char>, radix: u32) -> Option<u8>;

/// `s` with every match of `from` replaced by `to`, matches taken from the
/// left and never overlapping.
pub open spec fn replaced(s: Seq<char>, from: Seq<char>, to: Seq<char>) -> Seq<char>
    decreases s.len(),
{
    if from.len() == 0 || s.len() < from.len() {
        s
    } else if s.take(from.len() as int) == from {
        to + replaced(s.skip(from.len() as int), from, to)
    } else {
        seq![s[0]] + replaced(s.drop_first(), from, to)
    }
}

/// Calls `str::to_lowercase`, which maps every character by the Unicode
/// tables of the standard library; the result gets a name.
#[verifier::external_body]
fn lowercase(s: &str) -> (r: String)
    ensures
        r@ == lowercased(s@),
{
    s.to_lowercase()
}

/// `s` with every match of `from` replaced by `to`.
pub fn replace_all(s: &str, from: &str, to: &str) -> (r: String)
    requires
        from@.len() > 0,
    ensures
        r@ == replaced(s@, from@, to@),
{
    let n = str_len(s);
    let m = str_len(from);
    let mut out = String::new();
    let mut at: usize = 0;
    let ghost mut k: int = 0;
    proof {
        lemma_offset_ends(s@);
        assert(s@.skip(0) =~= s@);
        assert(out@ + replaced(s@, from@, to@) =~= replaced(s@, from@, to@));
        crate::utils::encoding::lemma_byte_len_bounds(from@);
    }
    while at < n
        invariant
            n == byte_len(s@),
            m == byte_len(from@),
            m >= 1,
            from@.len() > 0,
            0 <= k <= s@.len(),
            at == offset_of(s@, k),
            at <= n,
            replaced(s@, from@, to@) == out@ + replaced(s@.skip(k), from@, to@),
        decreases n - at,
    {
        let ghost rest = s@.skip(k);
        let ghost before = out@;
        proof {
            lemma_offset_ends(s@);
            lemma_index_at(s@, k);
            lemma_index_at(s@, s@.len() as int);
            assert(k < s@.len());
        }
        let tail = slice(s, at, n);
        proof {
            assert(tail@ =~= rest);
        }
        match crate::utils::scan::strip_prefix(tail, from) {
            Some(_) => {
                out.append(to);
                proof {
                    crate::utils::encoding::lemma_offset_diff(s@, k, k + from@.len());
                    assert(s@.subrange(k, k + from@.len()) =~= rest.take(from@.len() as int));
                    assert(rest.skip(from@.len() as int) =~= s@.skip(k + from@.len()));
                    lemma_index_at(s@, k + from@.len());
                    crate::utils::encoding::lemma_offset_monotone(
                        s@,
                        k + from@.len(),
                        s@.len() as int,
                    );
                    assert(before + (to@ + replaced(rest.skip(from@.len() as int), from@, to@))
                        =~= (before + to@) + replaced(rest.skip(from@.len() as int), from@, to@));
                    k = k + from@.len();
                }
                at = at + m;
            },
            None => {
                let (ch, next) = char_from(s, at);
                out.push(ch);
                proof {
                    assert(rest[0] == s@[k]);
                    assert(rest.drop_first() =~= s@.skip(k + 1));
                    if rest.len() < from@.len() {
                        lemma_replaced_short(rest, from@, to@);
                        lemma_replaced_short(rest.drop_first(), from@, to@);
                        assert(rest =~= seq![rest[0]] + rest.drop_first());
                    }
                    assert(before + (seq![rest[0]] + replaced(rest.drop_first(), from@, to@))
                        =~= before.push(rest[0]) + replaced(rest.drop_first(), from@, to@));
                    k = k + 1;
                }
                at = next;
            },
        }
    }
    proof {
        lemma_offset_ends(s@);
        lemma_index_at(s@, k);
        lemma_index_at(s@, s@.len() as int);
        assert(s@.skip(k) =~= Seq::<char>::empty());
        assert(out@ + Seq::<char>::empty() =~= out@);
    }
    out
}

/// A text that is shorter than the pattern holds no match.
proof fn lemma_replaced_short(s: Seq<char>, from: Seq<char>, to: Seq<char>)
    requires
        s.len() < from.len(),
    ensures
        replaced(s, from, to) == s,
{
}

/// Calls `u8::from_str_radix` and names what it reads; a text that is no
/// number in that radix, or one that does not fit, gives `None`.
#[verifier::external_body]
pub(crate) fn parse_u8_radix(s: &str, radix: u32) -> (r: Option<u8>)
    requires
        2 <= radix <= 36,
    ensures
        r == u8_in_radix(s@, radix),
{
    u8::from_str_radix(s, radix).ok()
}

/// Whether `c` separates the words of a color name.
pub open spec fn is_separator(c: char) -> bool {
    c == ' ' || c == '-' || c == '_'
}

/// `s` without blanks, hyphens and underscores.
pub open spec fn joined(s: Seq<char>) -> Seq<char>
    decreases s.len(),
{
    if s.len() == 0 {
        Seq::empty()
    } else if is_separator(s.last()) {
        joined(s.drop_last())
    } else {
        joined(s.drop_last()).push(s.last())
    }
}

/// `text` without blanks, hyphens and underscores.
pub fn join_words(text: &str) -> (r: String)
    ensures
        r@ == joined(text@),
{
    let n = str_len(text);
    let mut out = String::new();
    let mut at: usize = 0;
    let ghost mut k: int = 0;
    proof {
        lemma_offset_ends(text@);
        assert(text@.take(0) =~= Seq::<char>::empty());
    }
    while at < n
        invariant
            n == byte_len(text@),
            0 <= k <= text@.len(),
            at == offset_of(text@, k),
            at <= n,
            out@ == joined(text@.take(k)),
        decreases n - at,
    {
        proof {
            lemma_offset_ends(text@);
            lemma_index_at(text@, k);
            lemma_index_at(text@, text@.len() as int);
            assert(text@.take(k + 1).drop_last() =~= text@.take(k));
        }
        let (ch, next) = char_from(text, at);
        if !(ch == ' ' || ch == '-' || ch == '_') {
            out.push(ch);
        }
        at = next;
        proof {
            k = k + 1;
        }
    }
    proof {
        lemma_offset_ends(text@);
        lemma_index_at(text@, k);
        lemma_index_at(text@, text@.len() as int);
        assert(text@.take(k) =~= text@);
    }
    out
}

/// The name that a color is looked up under: lower case, without
/// separators, and with the other names of light and gray brought to one.
pub open spec fn normal_name(s: Seq<char>) -> Seq<char> {
    replaced(
        replaced(
            replaced(
                replaced(
                    replaced(
                        replaced(joined(lowercased(s)), "bright"@, "light"@),
                        "grey"@,
                        "gray"@,
                    ),
                    "silver"@,
                    "gray"@,
                ),
                "lightblack"@,
                "darkgray"@,
            ),
            "lightwhite"@,
            "white"@,
        ),
        "lightgray"@,
        "white"@,
    )
}

/// The color with the normal name `name`, if there is one.
pub open spec fn named_color(name: Seq<char>) -> Option<Color> {
    if name == "reset"@ {
        Some(Color::Reset)
    } else if name == "black"@ {
        Some(Color::Black)
    } else if name == "red"@ {
        Some(Color::DarkRed)
    } else if name == "lightred"@ {
        Some(Color::Red)
    } else if name == "green"@ {
        Some(Color::DarkGreen)
    } else if name == "lightgreen"@ {
        Some(Color::Green)
    } else if name == "yellow"@ {
        Some(Color::DarkYellow)
    } else if name == "lightyellow"@ {
        Some(Color::Yellow)
    } else if name == "blue"@ {
        Some(Color::DarkBlue)
    } else if name == "lightblue"@ {
        Some(Color::Blue)
    } else if name == "magenta"@ {
        Some(Color::DarkMagenta)
    } else if name == "lightmagenta"@ {
        Some(Color::Magenta)
    } else if name == "cyan"@ {
        Some(Color::DarkCyan)
    } else if name == "lightcyan"@ {
        Some(Color::Cyan)
    } else if name == "gray"@ {
        Some(Color::Grey)
    } else if name == "darkgray"@ {
        Some(Color::DarkGrey)
    } else if name == "white"@ {
        Some(Color::White)
    } else {
        None
    }
}

/// The two hexadecimal digits that start at byte `at` of `s`, as a number.
pub open spec fn hex_pair(s: Seq<char>, at: int) -> Option<u8> {
    if on_boundary(s, at) && on_boundary(s, at + 2) {
        u8_in_radix(s.subrange(index_at(s, at), index_at(s, at + 2)), 16)
    } else {
        None
    }
}

/// The color that `s` is written for in the form `#rrggbb`.
pub open spec fn hex_color(s: Seq<char>) -> Option<Color> {
    if s.len() > 0 && s[0] == '#' && byte_len(s) == 7 {
        match (hex_pair(s, 1), hex_pair(s, 3), hex_pair(s, 5)) {
            (Some(r), Some(g), Some(b)) => Some(Color::Rgb { r, g, b }),
            _ => None,
        }
    } else {
        None
    }
}

/// The color that the text `s` stands for: a name, else the number of an
/// ANSI color, else red, green and blue in the form `#rrggbb`.
pub open spec fn color_of(s: Seq<char>) -> Option<Color> {
    match named_color(normal_name(s)) {
        Some(color) => Some(color),
        None => match u8_in_radix(s, 10) {
            Some(index) => Some(Color::AnsiValue(index)),
            None => hex_color(s),
        },
    }
}

/// The color with the normal name `name`, if there is one.
pub fn color_by_name(name: &str) -> (r: Option<Color>)
    ensures
        r == named_color(name@),
{
    if str_eq(name, "reset") {
        Some(Color::Reset)
    } else if str_eq(name, "black") {
        Some(Color::Black)
    } else if str_eq(name, "red") {
        Some(Color::DarkRed)
    } else if str_eq(name, "lightred") {
        Some(Color::Red)
    } else if str_eq(name, "green") {
        Some(Color::DarkGreen)
    } else if str_eq(name, "lightgreen") {
        Some(Color::Green)
    } else if str_eq(name, "yellow") {
        Some(Color::DarkYellow)
    } else if str_eq(name, "lightyellow") {
        Some(Color::Yellow)
    } else if str_eq(name, "blue") {
        Some(Color::DarkBlue)
    } else if str_eq(name, "lightblue") {
        Some(Color::Blue)
    } else if str_eq(name, "magenta") {
        Some(Color::DarkMagenta)
    } else if str_eq(name, "lightmagenta") {
        Some(Color::Magenta)
    } else if str_eq(name, "cyan") {
        Some(Color::DarkCyan)
    } else if str_eq(name, "lightcyan") {
        Some(Color::Cyan)
    } else if str_eq(name, "gray") {
        Some(Color::Grey)
    } else if str_eq(name, "darkgray") {
        Some(Color::DarkGrey)
    } else if str_eq(name, "white") {
        Some(Color::White)
    } else {
        None
    }
}

/// The two hexadecimal digits that start at byte `at` of `s`, as a number.
pub(crate) fn hex_at(s: &str, at: usize) -> (r: Option<u8>)
    requires
        at + 2 <= usize::MAX,
    ensures
        r == hex_pair(s@, at as int),
{
    if is_boundary(s, at) && is_boundary(s, at + 2) {
        parse_u8_radix(slice(s, at, at + 2), 16)
    } else {
        None
    }
}

/// The name of `s` brought to its normal form.
fn normalize(s: &str) -> (r: String)
    ensures
        r@ == normal_name(s@),
{
    proof {
        reveal_strlit("bright");
        reveal_strlit("grey");
        reveal_strlit("silver");
        reveal_strlit("lightblack");
        reveal_strlit("lightwhite");
        reveal_strlit("lightgray");
    }
    let lower = lowercase(s);
    let name = join_words(lower.as_str());
    let name = replace_all(name.as_str(), "bright", "light");
    let name = replace_all(name.as_str(), "grey", "gray");
    let name = replace_all(name.as_str(), "silver", "gray");
    let name = replace_all(name.as_str(), "lightblack", "darkgray");
    let name = replace_all(name.as_str(), "lightwhite", "white");
    replace_all(name.as_str(), "lightgray", "white")
}

/// Reads a color from its name, its ANSI number or the form `#rrggbb`.
/// There is a mix of color names and formats in the wild; as many as
/// possible are taken.
pub fn from_str(s: &str) -> (r: Result<Color, ParseColorError>)
    ensures
        match r {
            Ok(color) => color_of(s@) == Some(color),
            Err(_) => color_of(s@) is None,
        },
{
    let name = normalize(s);
    match color_by_name(name.as_str()) {
        Some(color) => Ok(color),
        None => {
            match parse_u8_radix(s, 10) {
                Some(index) => Ok(Color::AnsiValue(index)),
                None => {
                    let starts = match crate::utils::encoding::first_char(s) {
                        Some(c) => c == '#',
                        None => false,
                    };
                    if !starts || str_len(s) != 7 {
                        return Err(ParseColorError);
                    }
                    match (hex_at(s, 1), hex_at(s, 3), hex_at(s, 5)) {
                        (Some(r), Some(g), Some(b)) => Ok(Color::Rgb { r, g, b }),
                        _ => Err(ParseColorError),
                    }
                },
            }
        },
    }
}

/// The number that a JSON value gives for a part of a color: a number as
/// it is, cut to 8 bits, or a string that holds one.
pub open spec fn u8_of(obj: JsonValue) -> Option<u8> {
    match obj {
        JsonValue::Number(num) => match num {
            Some(n) => Some((n % 256) as u8),
            None => None,
        },
        JsonValue::String(string) => u8_in_radix(string@, 10),
        _ => None,
    }
}

/// The number that a JSON value gives for a part of a color.
pub fn object_to_u8(obj: &JsonValue) -> (r: Option<u8>)
    ensures
        r == u8_of(*obj),
{
    match obj {
        JsonValue::Number(num) => match num {
            Some(n) => Some((*n % 256) as u8),
            None => None,
        },
        JsonValue::String(string) => parse_u8_radix(string.as_str(), 10),
        _ => None,
    }
}

/// The entry of an object that holds red, green and blue: the first of the
/// keys `rgb`, `Rgb` and `RGB` that the object has.
pub open spec fn rgb_entry(entries: Seq<(String, JsonValue)>) -> Option<int> {
    match position_of(entries, "rgb"@, 0) {
        Some(i) => Some(i),
        None => match position_of(entries, "Rgb"@, 0) {
            Some(i) => Some(i),
            None => position_of(entries, "RGB"@, 0),
        },
    }
}

/// What is wrong with an object that holds no list of three numbers.
pub open spec fn shape_error() -> Seq<char> {
    "When representing Color as Object(Map) - should be {\"rgb\": [number, number, number]}!"@
}

/// Red, green and blue as a list of three JSON values gives them. The
/// values are read from the last to the first, and the first that is no
/// number decides the error.
pub open spec fn rgb_of_list(list: Seq<JsonValue>) -> Result<(u8, u8, u8), Seq<char>> {
    if list.len() != 3 {
        Err(shape_error())
    } else {
        match u8_of(list[2]) {
            None => Err("Failed to parse B in RGB color"@),
            Some(b) => match u8_of(list[1]) {
                None => Err("Failed to parse G in RGB color"@),
                Some(g) => match u8_of(list[0]) {
                    None => Err("Failed to parse R in RGB color"@),
                    Some(r) => Ok((r, g, b)),
                },
            },
        }
    }
}

/// Red, green and blue as the entries of an object give them.
pub open spec fn rgb_in(entries: Seq<(String, JsonValue)>) -> Result<(u8, u8, u8), Seq<char>> {
    match rgb_entry(entries) {
        Some(i) => match entries[i].1 {
            JsonValue::Array(list) => rgb_of_list(list@),
            _ => Err(shape_error()),
        },
        None => Err(shape_error()),
    }
}

/// The color that a JSON value stands for: a string as `from_str` reads it,
/// or an object with red, green and blue.
pub open spec fn color_in(obj: JsonValue) -> Result<Color, Seq<char>> {
    match obj {
        JsonValue::String(data) => match color_of(data@) {
            Some(color) => Ok(color),
            None => Err("Failed to parse Colors"@),
        },
        JsonValue::Object(entries) => match rgb_in(entries@) {
            Ok((r, g, b)) => Ok(Color::Rgb { r, g, b }),
            Err(e) => Err(e),
        },
        _ => Err("Color definition should be String or Object!"@),
    }
}

/// Red, green and blue as a JSON value gives them that is an object.
pub open spec fn raw_rgb_in(obj: JsonValue) -> Result<(u8, u8, u8), Seq<char>> {
    match obj {
        JsonValue::Object(entries) => rgb_in(entries@),
        _ => Err(shape_error()),
    }
}

/// Red, green and blue from a list of three JSON values.
fn rgb_from_list(list: &Vec<JsonValue>) -> (r: Result<(u8, u8, u8), String>)
    ensures
        match r {
            Ok(rgb) => rgb_of_list(list@) == Ok::<(u8, u8, u8), Seq<char>>(rgb),
            Err(e) => rgb_of_list(list@) == Err::<(u8, u8, u8), Seq<char>>(e@),
        },
{
    if list.len() != 3 {
        return Err(
            "When representing Color as Object(Map) - should be {\"rgb\": [number, number, number]}!".to_owned(),
        );
    }
    let b = match object_to_u8(&list[2]) {
        Some(b) => b,
        None => {
            return Err("Failed to parse B in RGB color".to_owned());
        },
    };
    let g = match object_to_u8(&list[1]) {
        Some(g) => g,
        None => {
            return Err("Failed to parse G in RGB color".to_owned());
        },
    };
    let r = match object_to_u8(&list[0]) {
        Some(r) => r,
        None => {
            return Err("Failed to parse R in RGB color".to_owned());
        },
    };
    Ok((r, g, b))
}

/// Red, green and blue from the entries of an object.
fn rgb_from_entries(entries: &Vec<(String, JsonValue)>) -> (r: Result<(u8, u8, u8), String>)
    ensures
        match r {
            Ok(rgb) => rgb_in(entries@) == Ok::<(u8, u8, u8), Seq<char>>(rgb),
            Err(e) => rgb_in(entries@) == Err::<(u8, u8, u8), Seq<char>>(e@),
        },
{
    let found = match find_key(entries, "rgb") {
        Some(i) => Some(i),
        None => match find_key(entries, "Rgb") {
            Some(i) => Some(i),
            None => find_key(entries, "RGB"),
        },
    };
    match found {
        Some(i) => match &entries[i].1 {
            JsonValue::Array(list) => rgb_from_list(list),
            _ => Err(
                "When representing Color as Object(Map) - should be {\"rgb\": [number, number, number]}!".to_owned(),
            ),
        },
        None => Err(
            "When representing Color as Object(Map) - should be {\"rgb\": [number, number, number]}!".to_owned(),
        ),
    }
}

/// Reads a color from a JSON value: a string with its name, its number or
/// `#rrggbb`, or an object `{"rgb": [red, green, blue]}`.
pub fn parse_color(obj: JsonValue) -> (r: Result<Color, String>)
    ensures
        match r {
            Ok(color) => color_in(obj) == Ok::<Color, Seq<char>>(color),
            Err(e) => color_in(obj) == Err::<Color, Seq<char>>(e@),
        },
{
    match obj {
        JsonValue::String(data) => match from_str(data.as_str()) {
            Ok(color) => Ok(color),
            Err(e) => Err(e.message()),
        },
        JsonValue::Object(entries) => match rgb_from_entries(&entries) {
            Ok((r, g, b)) => Ok(Color::Rgb { r, g, b }),
            Err(e) => Err(e),
        },
        _ => Err("Color definition should be String or Object!".to_owned()),
    }
}

/// Reads red, green and blue from an object `{"rgb": [red, green, blue]}`.
pub fn parse_raw_rgb(map: JsonValue) -> (r: Result<(u8, u8, u8), String>)
    ensures
        match r {
            Ok(rgb) => raw_rgb_in(map) == Ok::<(u8, u8, u8), Seq<char>>(rgb),
            Err(e) => raw_rgb_in(map) == Err::<(u8, u8, u8), Seq<char>>(e@),
        },
{
    match map {
        JsonValue::Object(entries) => rgb_from_entries(&entries),
        _ => Err(
            "When representing Color as Object(Map) - should be {\"rgb\": [number, number, number]}!".to_owned(),
        ),
    }
}

/// Takes the entry with the key `key` out of `map` and reads a color from
/// it; `None` if there is no such entry.
pub fn pull_color(map: &mut Vec<(String, JsonValue)>, key: &str) -> (r: Option<
    Result<Color, String>,
>)
    ensures
        match position_of(old(map)@, key@, 0) {
            Some(i) => final(map)@ == old(map)@.remove(i) && match r {
                Some(Ok(color)) => color_in(old(map)@[i].1) == Ok::<Color, Seq<char>>(color),
                Some(Err(e)) => color_in(old(map)@[i].1) == Err::<Color, Seq<char>>(e@),
                None => false,
            },
            None => final(map)@ == old(map)@ && r is None,
        },
{
    match find_key(map, key) {
        Some(i) => {
            let entry = map.remove(i);
            Some(parse_color(entry.1))
        },
        None => None,
    }
}

} // verus!
