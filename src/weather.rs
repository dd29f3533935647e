//! The glyph that the weather widget shows for a condition code.
use vstd::prelude::*;

verus! {

/// Nerd-font glyphs for the OpenWeather condition groups.
pub open spec fn weather_glyph(condition_id: u32, is_day: bool) -> Seq<char> {
    if 200 <= condition_id <= 299 {
        "\u{f0593}"@
    } else if 300 <= condition_id <= 399 || 500 <= condition_id <= 599 {
        "\u{f0596}"@
    } else if 600 <= condition_id <= 699 {
        "\u{f0598}"@
    } else if 700 <= condition_id <= 799 {
        "\u{f0591}"@
    } else if condition_id == 800 {
        if is_day {
            "\u{f0599}"@
        } else {
            "\u{f0594}"@
        }
    } else if 801 <= condition_id <= 804 {
        if is_day {
            "\u{f0590}"@
        } else {
            "\u{f0591}"@
        }
    } else {
        "\u{f0590}"@
    }
}

/// The icon for a condition code: thunderstorm, drizzle or rain, snow,
/// atmosphere (mist, haze), clear sky (sun or moon), clouds; any other code
/// gets the cloud.
pub fn get_weather_icon(condition_id: u32, is_day: bool) -> (r: &'static str)
    ensures
        r@ == weather_glyph(condition_id, is_day),
{
    if 200 <= condition_id && condition_id <= 299 {
        "\u{f0593}"
    } else if (300 <= condition_id && condition_id <= 399) || (500 <= condition_id
        && condition_id <= 599) {
        "\u{f0596}"
    } else if 600 <= condition_id && condition_id <= 699 {
        "\u{f0598}"
    } else if 700 <= condition_id && condition_id <= 799 {
        "\u{f0591}"
    } else if condition_id == 800 {
        if is_day {
            "\u{f0599}"
        } else {
            "\u{f0594}"
        }
    } else if 801 <= condition_id && condition_id <= 804 {
        if is_day {
            "\u{f0590}"
        } else {
            "\u{f0591}"
        }
    } else {
        "\u{f0590}"
    }
}

} // verus!
