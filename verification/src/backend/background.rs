//! Finding out the background color of the terminal.
//!
//! A terminal answers the question for its background with a text of the
//! form `]11;rgb:rrrr/gggg/bbbb`. Where it does not answer, the environment
//! may name the colors in `COLORFGBG`, as `foreground;background`.
use crate::backend::color::{hex_at, hex_pair, parse_u8_radix, u8_in_radix};
use crate::utils::encoding::{byte_len, str_len};
use crate::utils::scan::{after_last, count_of, split_last, starts_with, strip_prefix};
use vstd::prelude::*;

verus! {

/// Red, green and blue of the ANSI color with the number `code`, as the
/// table of `coolor` has them.
pub uninterp spec fn ansi_rgb(code: u8) -> (u8, u8, u8);

/// Calls `coolor::AnsiColor::to_rgb`, which looks the color up in a table of
/// 256 entries; the result gets a name.
#[verifier::external_body]
fn ansi_to_rgb(code: u8) -> (rgb: (u8, u8, u8))
    ensures
        rgb == ansi_rgb(code),
{
    let coolor::Rgb { r, g, b } = coolor::AnsiColor { code }.to_rgb();
    (r, g, b)
}

/// The color in the answer `response` of a terminal: behind the prefix
/// `]11;rgb:` at least 14 bytes, of which the first two of each of the three
/// parts are read as hexadecimal digits.
pub open spec fn osc_rgb(response: Seq<char>) -> Option<(u8, u8, u8)> {
    let raw = response.skip("]11;rgb:"@.len() as int);
    if starts_with(response, "]11;rgb:"@) && byte_len(raw) >= 14 {
        match (hex_pair(raw, 0), hex_pair(raw, 5), hex_pair(raw, 10)) {
            (Some(r), Some(g), Some(b)) => Some((r, g, b)),
            _ => None,
        }
    } else {
        None
    }
}

/// Reads the color from the answer of a terminal to the question for its background.
pub fn parse_osc_rgb(response: &str) -> (rgb: Option<(u8, u8, u8)>)
    ensures
        rgb == osc_rgb(response@),
{
    match strip_prefix(response, "]11;rgb:") {
        Some(raw_color) => {
            if str_len(raw_color) >= 14 {
                match (hex_at(raw_color, 0), hex_at(raw_color, 5), hex_at(raw_color, 10)) {
                    (Some(r), Some(g), Some(b)) => Some((r, g, b)),
                    _ => None,
                }
            } else {
                None
            }
        },
        None => None,
    }
}

/// The color that `COLORFGBG` names for the background: with two or three
/// parts between semicolons, the last part is the number of an ANSI color.
pub open spec fn fgbg_rgb(color_config: Seq<char>) -> Option<(u8, u8, u8)> {
    if count_of(color_config, ';') == 1 || count_of(color_config, ';') == 2 {
        match u8_in_radix(color_config.skip(after_last(color_config, ';')), 10) {
            Some(code) => Some(ansi_rgb(code)),
            None => None,
        }
    } else {
        None
    }
}

/// Reads the background color from the value of `COLORFGBG`.
pub fn parse_colorfgbg(color_config: &str) -> (rgb: Option<(u8, u8, u8)>)
    ensures
        rgb == fgbg_rgb(color_config@),
{
    let (semicolons, bg) = split_last(color_config, ';');
    if semicolons == 1 || semicolons == 2 {
        match parse_u8_radix(bg, 10) {
            Some(code) => Some(ansi_to_rgb(code)),
            None => None,
        }
    } else {
        None
    }
}

/// The background color: what the terminal answered, if that holds a
/// color, and else what the environment names.
pub open spec fn background_of(osc: Option<Seq<char>>, fgbg: Option<Seq<char>>) -> Option<
    (u8, u8, u8),
> {
    let asked = match osc {
        Some(response) => osc_rgb(response),
        None => None,
    };
    match asked {
        Some(rgb) => Some(rgb),
        None => match fgbg {
            Some(color_config) => fgbg_rgb(color_config),
            None => None,
        },
    }
}

/// The background color of the terminal. `osc_response` is what the
/// terminal answered to the question for its background, if it answered;
/// `color_fgbg` is the value of `COLORFGBG`, if it is set.
pub fn background_rgb(osc_response: Option<&str>, color_fgbg: Option<&str>) -> (rgb: Option<
    (u8, u8, u8),
>)
    ensures
        rgb == background_of(
            match osc_response {
                Some(response) => Some(response@),
                None => None,
            },
            match color_fgbg {
                Some(color_config) => Some(color_config@),
                None => None,
            },
        ),
{
    let asked = match osc_response {
        Some(response) => parse_osc_rgb(response),
        None => None,
    };
    match asked {
        Some(rgb) => Some(rgb),
        None => match color_fgbg {
            Some(color_config) => parse_colorfgbg(color_config),
            None => None,
        },
    }
}

/// Red, green and blue under the key `rgb`, as colors are written to configuration.
pub fn serialize_rgb(r: u8, g: u8, b: u8) -> (rgb: Vec<(&'static str, [u8; 3])>)
    ensures
        rgb@.len() == 1,
        rgb@[0].0@ == "rgb"@,
        rgb@[0].1@ == seq![r, g, b],
{
    let mut rgb = Vec::new();
    rgb.push(("rgb", [r, g, b]));
    proof {
        assert(rgb@[0].1@ =~= seq![r, g, b]);
    }
    rgb
}

} // verus!
