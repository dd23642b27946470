//! The field parsers: frequency, elevation and geographic coordinates.
//!
//! Each finds its field in a piece of flattened text with a regular
//! expression and then reads the captured numerals as exact integers.

use crate::error::{is_parse_error, Error, Result};
use crate::html::option_views;
use crate::number::{
    all_digits, decimal_mantissa, digits_value, fraction_part, is_decimal, lemma_pow10_positive,
    parse_decimal, parse_digits, pow10, power_of_ten, scale_down,
};
use crate::pattern::{captures, group, group_text, regex_captures};
use crate::text::equals;
use crate::types::Degrees;
use vstd::prelude::*;

verus! {

/// A numeral of three to seven digits and points, then `kHz` or `MHz` in any
/// case.
pub const FREQUENCY_PATTERN: &'static str = r"([0-9.]{3,7})\s*(?i:([kM])Hz)";

/// A DME channel: `CH`, a number, and `X` or `Y`.
pub const CHANNEL_PATTERN: &'static str = r"CH(\d+[XY])";

/// A whole number, then `ft` in any case.
pub const ELEVATION_PATTERN: &'static str = r"([0-9]+)\s*(?i:ft)";

/// Whether a captured unit letter stands for megahertz.
pub open spec fn is_mega(unit: Option<Seq<char>>) -> bool {
    unit == Some("M"@) || unit == Some("m"@)
}

/// The value of the numeral `s` in kHz, rounded down: the numeral itself, or
/// a thousand times it where the unit is megahertz.
pub open spec fn numeral_khz(s: Seq<char>, mega: bool) -> nat {
    decimal_mantissa(s) * (if mega {
        1000nat
    } else {
        1nat
    }) / pow10(fraction_part(s).len())
}

/// The frequency that a match of the frequency pattern stands for, where its
/// numeral is one and the result fits.
pub open spec fn frequency_of_match(groups: Seq<Option<Seq<char>>>) -> Option<nat> {
    match group_text(groups, 1) {
        Some(numeral) => {
            let khz = numeral_khz(numeral, is_mega(group_text(groups, 2)));
            if is_decimal(numeral) && decimal_mantissa(numeral) <= u64::MAX && khz
                <= usize::MAX {
                Some(khz)
            } else {
                None
            }
        },
        None => None,
    }
}

/// The VHF frequency in kHz that is paired with a DME channel.
pub open spec fn channel_khz(number: nat, kind: char) -> Option<nat> {
    if kind == 'X' {
        Some(
            if number <= 16 {
                134300 + number * 100
            } else if number <= 59 {
                106300 + number * 100
            } else if number <= 69 {
                127300 + number * 100
            } else {
                105300 + number * 100
            },
        )
    } else if kind == 'Y' {
        Some(
            if number < 70 {
                106350 + number * 100
            } else {
                105350 + number * 100
            },
        )
    } else {
        None
    }
}

/// The frequency that a match of the channel pattern stands for, or the name
/// of what is wrong with it.
pub open spec fn frequency_of_channel(groups: Seq<Option<Seq<char>>>) -> std::result::Result<
    nat,
    Seq<char>,
> {
    match group_text(groups, 1) {
        Some(code) => {
            if code.len() == 0 {
                Err("channel type"@)
            } else {
                let digits = code.drop_last();
                if digits.len() == 0 || !all_digits(digits) || digits_value(digits)
                    > u64::MAX {
                    Err("frequency"@)
                } else {
                    match channel_khz(digits_value(digits), code.last()) {
                        Some(khz) => if khz <= usize::MAX {
                            Ok(khz)
                        } else {
                            Err("frequency"@)
                        },
                        None => Err("channel type"@),
                    }
                }
            }
        },
        None => Err("channel type"@),
    }
}

/// The frequency in kHz that the two matches give: the frequency pattern
/// decides where it matched, the channel pattern where only it matched, and
/// nothing matched is an error of the field `frequency`.
pub open spec fn frequency_of(
    main: Option<Seq<Option<Seq<char>>>>,
    channel: Option<Seq<Option<Seq<char>>>>,
) -> std::result::Result<nat, Seq<char>> {
    match main {
        Some(groups) => match frequency_of_match(groups) {
            Some(khz) => Ok(khz),
            None => Err("frequency"@),
        },
        None => match channel {
            Some(groups) => frequency_of_channel(groups),
            None => Err("frequency"@),
        },
    }
}

/// The frequency in kHz that a piece of text gives.
pub open spec fn frequency_of_text(data: Seq<char>) -> std::result::Result<nat, Seq<char>> {
    frequency_of(
        regex_captures(FREQUENCY_PATTERN@, data),
        regex_captures(CHANNEL_PATTERN@, data),
    )
}

/// The views of captured groups, where there was a match.
pub open spec fn match_view(found: Option<Vec<Option<String>>>) -> Option<Seq<Option<Seq<char>>>> {
    match found {
        Some(groups) => Some(option_views(groups@)),
        None => None,
    }
}

/// Whether a result of a field parser is the expected one: the same
/// number, or an error that names the same field and carries the text that
/// was parsed.
pub open spec fn number_result_is(
    r: Result<usize>,
    expected: std::result::Result<nat, Seq<char>>,
    data: Seq<char>,
) -> bool {
    match r {
        Ok(v) => expected == Ok::<nat, Seq<char>>(v as nat),
        Err(e) => expected matches Err(what) && is_parse_error(e, what, data),
    }
}

/// The frequency of a match of the frequency pattern.
fn frequency_from_match(groups: &Vec<Option<String>>) -> (r: Option<usize>)
    ensures
        match r {
            Some(v) => frequency_of_match(option_views(groups@)) == Some(v as nat),
            None => frequency_of_match(option_views(groups@)) is None,
        },
{
    let numeral = match group(groups, 1) {
        Some(n) => n,
        None => {
            return None;
        },
    };
    let mega = match group(groups, 2) {
        Some(unit) => equals(&unit, "M") || equals(&unit, "m"),
        None => false,
    };
    let number = match parse_decimal(&numeral) {
        Some(d) => d,
        None => {
            return None;
        },
    };
    let factor: u128 = if mega {
        1000
    } else {
        1
    };
    let khz = scale_down(number.mantissa as u128 * factor, number.places);
    if khz > usize::MAX as u128 {
        return None;
    }
    Some(khz as usize)
}

/// The frequency of a match of the channel pattern.
fn frequency_from_channel(groups: &Vec<Option<String>>, data: &str) -> (r: Result<usize>)
    ensures
        number_result_is(r, frequency_of_channel(option_views(groups@)), data@),
{
    let code = match group(groups, 1) {
        Some(c) => c,
        None => {
            return Err(Error::ParseError("channel type", data.to_owned()));
        },
    };
    let n = code.len();
    if n == 0 {
        return Err(Error::ParseError("channel type", data.to_owned()));
    }
    proof {
        assert(code@.drop_last() == code@.subrange(0, n - 1));
    }
    if n == 1 {
        return Err(Error::ParseError("frequency", data.to_owned()));
    }
    let number = match parse_digits(&code, 0, n - 1) {
        Some(f) => f,
        None => {
            return Err(Error::ParseError("frequency", data.to_owned()));
        },
    };
    let kind = code[n - 1];
    let base: u64 = if kind == 'X' {
        if number <= 16 {
            134300
        } else if number <= 59 {
            106300
        } else if number <= 69 {
            127300
        } else {
            105300
        }
    } else if kind == 'Y' {
        if number < 70 {
            106350
        } else {
            105350
        }
    } else {
        return Err(Error::ParseError("channel type", data.to_owned()));
    };
    let khz: u128 = base as u128 + number as u128 * 100;
    if khz > usize::MAX as u128 {
        return Err(Error::ParseError("frequency", data.to_owned()));
    }
    Ok(khz as usize)
}

/// The frequency in kHz that the matches of the frequency pattern and of the
/// channel pattern in `data` give. The channel match is read only where the
/// frequency pattern found nothing.
pub fn frequency_from_captures(
    main: Option<Vec<Option<String>>>,
    channel: Option<Vec<Option<String>>>,
    data: &str,
) -> (r: Result<usize>)
    ensures
        number_result_is(r, frequency_of(match_view(main), match_view(channel)), data@),
{
    match main {
        Some(groups) => match frequency_from_match(&groups) {
            Some(khz) => Ok(khz),
            None => Err(Error::ParseError("frequency", data.to_owned())),
        },
        None => match channel {
            Some(groups) => frequency_from_channel(&groups, data),
            None => Err(Error::ParseError("frequency", data.to_owned())),
        },
    }
}

/// Parses a frequency and returns it in kHz. Accepts a numeral followed by
/// `kHz` or `MHz`, and a DME channel such as `CH88X`.
pub fn parse_frequency(data: &str) -> (r: Result<usize>)
    ensures
        number_result_is(r, frequency_of_text(data@), data@),
{
    let main = captures(FREQUENCY_PATTERN, data);
    if main.is_some() {
        frequency_from_captures(main, None, data)
    } else {
        let channel = captures(CHANNEL_PATTERN, data);
        frequency_from_captures(main, channel, data)
    }
}

/// The elevation in feet that a match of the elevation pattern stands for,
/// where its number fits.
pub open spec fn elevation_of(found: Option<Seq<Option<Seq<char>>>>) -> std::result::Result<
    nat,
    Seq<char>,
> {
    match found {
        Some(groups) => match group_text(groups, 1) {
            Some(digits) => if digits.len() > 0 && all_digits(digits) && digits_value(digits)
                <= usize::MAX {
                Ok(digits_value(digits))
            } else {
                Err("elevation"@)
            },
            None => Err("elevation"@),
        },
        None => Err("elevation"@),
    }
}

/// The elevation in feet that a piece of text gives.
pub open spec fn elevation_of_text(data: Seq<char>) -> std::result::Result<nat, Seq<char>> {
    elevation_of(regex_captures(ELEVATION_PATTERN@, data))
}

/// The elevation in feet that a match of the elevation pattern in `data`
/// gives.
pub fn elevation_from_captures(found: Option<Vec<Option<String>>>, data: &str) -> (r: Result<
    usize,
>)
    ensures
        number_result_is(r, elevation_of(match_view(found)), data@),
{
    let groups = match found {
        Some(g) => g,
        None => {
            return Err(Error::ParseError("elevation", data.to_owned()));
        },
    };
    let digits = match group(&groups, 1) {
        Some(d) => d,
        None => {
            return Err(Error::ParseError("elevation", data.to_owned()));
        },
    };
    let n = digits.len();
    if n == 0 {
        return Err(Error::ParseError("elevation", data.to_owned()));
    }
    proof {
        assert(digits@.subrange(0, n as int) == digits@);
    }
    match parse_digits(&digits, 0, n) {
        Some(feet) => {
            if feet as u128 > usize::MAX as u128 {
                Err(Error::ParseError("elevation", data.to_owned()))
            } else {
                Ok(feet as usize)
            }
        },
        None => Err(Error::ParseError("elevation", data.to_owned())),
    }
}

/// Parses an elevation and returns it in feet. Accepts a whole number
/// followed by `ft` in any case.
pub fn parse_elevation(data: &str) -> (r: Result<usize>)
    ensures
        number_result_is(r, elevation_of_text(data@), data@),
{
    let found = captures(ELEVATION_PATTERN, data);
    elevation_from_captures(found, data)
}

/// The compact notation: six or more digits and points with `N` or `S`, and
/// seven or more with `E` or `W`, either of them optional.
pub const COMPACT_PATTERN: &'static str =
    r"(?:([0-9.]{6,})([NnSs]))?\s*(?:([0-9.]{7,})([EeWw]))?";

/// The notation in degrees, minutes and seconds, with a hemisphere letter.
pub const DMS_PATTERN: &'static str =
    r#"(?:(\d+)°(\d+)'([\d.]+)"([NnSs]))?\s*(?:(\d+)°(\d+)'([\d.]+)"([EeWw]))?"#;

/// Whether a captured hemisphere letter is `letter` in either case. `lower`
/// and `upper` are the two forms of the letter.
pub open spec fn is_letter(found: Option<Seq<char>>, lower: Seq<char>, upper: Seq<char>) -> bool {
    found == Some(lower) || found == Some(upper)
}

/// The angle that a compact numeral writes: the numeral divided by ten
/// thousand. `None` where it is no numeral or the fraction does not fit.
pub open spec fn compact_angle(numeral: Seq<char>, negative: bool) -> Option<Degrees> {
    let scale = 10000 * pow10(fraction_part(numeral).len());
    if is_decimal(numeral) && decimal_mantissa(numeral) <= u64::MAX && scale <= u64::MAX {
        Some(
            Degrees {
                negative,
                numerator: decimal_mantissa(numeral) as u64,
                denominator: scale as u64,
            },
        )
    } else {
        None
    }
}

/// Whether `s` is a whole number that fits: digits only, and at least one.
pub open spec fn is_whole(s: Seq<char>) -> bool {
    s.len() > 0 && all_digits(s) && digits_value(s) <= u64::MAX
}

/// The angle that degrees, minutes and seconds write:
/// `degrees + minutes / 60 + seconds / 3600`, as one fraction over 3600 times
/// a power of ten. `None` where one of the three is no numeral or the
/// fraction does not fit.
pub open spec fn dms_angle(
    degrees: Seq<char>,
    minutes: Seq<char>,
    seconds: Seq<char>,
    negative: bool,
) -> Option<Degrees> {
    let unit = pow10(fraction_part(seconds).len());
    let numerator = (digits_value(degrees) * 3600 + digits_value(minutes) * 60) * unit
        + decimal_mantissa(seconds);
    if is_whole(degrees) && is_whole(minutes) && is_decimal(seconds) && decimal_mantissa(seconds)
        <= u64::MAX && 3600 * unit <= u64::MAX && numerator <= u64::MAX {
        Some(Degrees { negative, numerator: numerator as u64, denominator: (3600 * unit) as u64 })
    } else {
        None
    }
}

/// The coordinate that a match of the compact pattern gives from group `at`
/// on: `Ok(None)` where the group took no part, `Err` where it did and
/// cannot be read.
pub open spec fn compact_coordinate(
    groups: Seq<Option<Seq<char>>>,
    at: int,
    lower: Seq<char>,
    upper: Seq<char>,
) -> std::result::Result<Option<Degrees>, ()> {
    match group_text(groups, at) {
        Some(numeral) => match compact_angle(
            numeral,
            is_letter(group_text(groups, at + 1), lower, upper),
        ) {
            Some(angle) => Ok(Some(angle)),
            None => Err(()),
        },
        None => Ok(None),
    }
}

/// The coordinate that a match of the degrees-minutes-seconds pattern gives
/// from group `at` on: `Ok(None)` where the group took no part, `Err` where
/// it did and cannot be read.
pub open spec fn dms_coordinate(
    groups: Seq<Option<Seq<char>>>,
    at: int,
    lower: Seq<char>,
    upper: Seq<char>,
) -> std::result::Result<Option<Degrees>, ()> {
    match group_text(groups, at) {
        Some(degrees) => match (group_text(groups, at + 1), group_text(groups, at + 2)) {
            (Some(minutes), Some(seconds)) => match dms_angle(
                degrees,
                minutes,
                seconds,
                is_letter(group_text(groups, at + 3), lower, upper),
            ) {
                Some(angle) => Ok(Some(angle)),
                None => Err(()),
            },
            _ => Err(()),
        },
        None => Ok(None),
    }
}

/// One coordinate out of both notations: the one in degrees, minutes and
/// seconds where it is present, else the compact one.
pub open spec fn merged_coordinate(
    compact: std::result::Result<Option<Degrees>, ()>,
    dms: std::result::Result<Option<Degrees>, ()>,
) -> std::result::Result<Option<Degrees>, ()> {
    match (compact, dms) {
        (Ok(c), Ok(d)) => Ok(
            if d is Some {
                d
            } else {
                c
            },
        ),
        _ => Err(()),
    }
}

/// The latitude that the two matches give.
pub open spec fn latitude_of(
    compact: Option<Seq<Option<Seq<char>>>>,
    dms: Option<Seq<Option<Seq<char>>>>,
) -> std::result::Result<Option<Degrees>, ()> {
    merged_coordinate(
        match compact {
            Some(groups) => compact_coordinate(groups, 1, "s"@, "S"@),
            None => Ok(None),
        },
        match dms {
            Some(groups) => dms_coordinate(groups, 1, "s"@, "S"@),
            None => Ok(None),
        },
    )
}

/// The longitude that the two matches give.
pub open spec fn longitude_of(
    compact: Option<Seq<Option<Seq<char>>>>,
    dms: Option<Seq<Option<Seq<char>>>>,
) -> std::result::Result<Option<Degrees>, ()> {
    merged_coordinate(
        match compact {
            Some(groups) => compact_coordinate(groups, 3, "w"@, "W"@),
            None => Ok(None),
        },
        match dms {
            Some(groups) => dms_coordinate(groups, 5, "w"@, "W"@),
            None => Ok(None),
        },
    )
}

/// The pair of coordinates that the two matches give; `None` where one of
/// them cannot be read or neither a latitude nor a longitude was found.
pub open spec fn latlong_of(
    compact: Option<Seq<Option<Seq<char>>>>,
    dms: Option<Seq<Option<Seq<char>>>>,
) -> Option<(Option<Degrees>, Option<Degrees>)> {
    match (latitude_of(compact, dms), longitude_of(compact, dms)) {
        (Ok(lat), Ok(lon)) => if lat is None && lon is None {
            None
        } else {
            Some((lat, lon))
        },
        _ => None,
    }
}

/// The pair of coordinates that a piece of text gives.
pub open spec fn latlong_of_text(data: Seq<char>) -> Option<(Option<Degrees>, Option<Degrees>)> {
    latlong_of(regex_captures(COMPACT_PATTERN@, data), regex_captures(DMS_PATTERN@, data))
}

/// Whether a result of the coordinate parser is the expected one: the same
/// pair, or an error of the field `latlong` that carries the text that was
/// parsed.
pub open spec fn latlong_result_is(
    r: Result<(Option<Degrees>, Option<Degrees>)>,
    expected: Option<(Option<Degrees>, Option<Degrees>)>,
    data: Seq<char>,
) -> bool {
    match r {
        Ok(pair) => expected == Some(pair),
        Err(e) => expected is None && is_parse_error(e, "latlong"@, data),
    }
}

/// Whether group `i` holds exactly `lower` or `upper`.
fn letter_is(groups: &Vec<Option<String>>, i: usize, lower: &str, upper: &str) -> (r: bool)
    ensures
        r == is_letter(group_text(option_views(groups@), i as int), lower@, upper@),
{
    match group(groups, i) {
        Some(found) => equals(&found, lower) || equals(&found, upper),
        None => false,
    }
}

/// The angle of a compact numeral.
fn compact_from(numeral: &Vec<char>, negative: bool) -> (r: Option<Degrees>)
    ensures
        r == compact_angle(numeral@, negative),
        r is Some ==> r->0.wf(),
{
    let number = match parse_decimal(numeral) {
        Some(d) => d,
        None => {
            return None;
        },
    };
    let unit = match power_of_ten(number.places) {
        Some(u) => u,
        None => {
            proof {
                assert(10000 * pow10(number.places as nat) > u64::MAX) by (nonlinear_arith)
                    requires
                        pow10(number.places as nat) > u64::MAX,
                ;
            }
            return None;
        },
    };
    if unit > u64::MAX / 10000 {
        return None;
    }
    proof {
        lemma_pow10_positive(number.places as nat);
    }
    Some(Degrees { negative, numerator: number.mantissa, denominator: 10000 * unit })
}

/// Reads a whole number.
fn whole_from(digits: &Vec<char>) -> (r: Option<u64>)
    ensures
        r is Some <==> is_whole(digits@),
        r is Some ==> r->0 as nat == digits_value(digits@),
{
    let n = digits.len();
    if n == 0 {
        return None;
    }
    proof {
        assert(digits@.subrange(0, n as int) == digits@);
    }
    parse_digits(digits, 0, n)
}

/// The angle of degrees, minutes and seconds.
fn dms_from(degrees: &Vec<char>, minutes: &Vec<char>, seconds: &Vec<char>, negative: bool) -> (r:
    Option<Degrees>)
    ensures
        r == dms_angle(degrees@, minutes@, seconds@, negative),
        r is Some ==> r->0.wf(),
{
    let d = match whole_from(degrees) {
        Some(d) => d,
        None => {
            return None;
        },
    };
    let m = match whole_from(minutes) {
        Some(m) => m,
        None => {
            return None;
        },
    };
    let s = match parse_decimal(seconds) {
        Some(s) => s,
        None => {
            return None;
        },
    };
    let ghost places = fraction_part(seconds@).len();
    let unit = match power_of_ten(s.places) {
        Some(u) => u,
        None => {
            proof {
                assert(3600 * pow10(places) > u64::MAX) by (nonlinear_arith)
                    requires
                        pow10(places) > u64::MAX,
                ;
            }
            return None;
        },
    };
    if unit > u64::MAX / 3600 {
        return None;
    }
    proof {
        lemma_pow10_positive(places);
    }
    // In 128 bits neither the arc seconds nor their product with the unit
    // can overflow.
    let arc: u128 = d as u128 * 3600 + m as u128 * 60;
    if arc > u64::MAX as u128 {
        proof {
            assert((digits_value(degrees@) * 3600 + digits_value(minutes@) * 60) * pow10(places)
                + decimal_mantissa(seconds@) > u64::MAX) by (nonlinear_arith)
                requires
                    digits_value(degrees@) * 3600 + digits_value(minutes@) * 60 > u64::MAX,
                    pow10(places) >= 1,
            ;
        }
        return None;
    }
    assert(arc * unit as u128 <= 0xffff_ffff_ffff_ffff * 0xffff_ffff_ffff_ffff)
        by (nonlinear_arith)
        requires
            arc <= 0xffff_ffff_ffff_ffff,
            unit <= 0xffff_ffff_ffff_ffff,
    ;
    let numerator: u128 = arc * unit as u128 + s.mantissa as u128;
    if numerator > u64::MAX as u128 {
        return None;
    }
    Some(Degrees { negative, numerator: numerator as u64, denominator: 3600 * unit })
}

/// The coordinate of a match of the compact pattern, from group `at` on.
fn compact_coordinate_from(groups: &Vec<Option<String>>, at: usize, lower: &str, upper: &str)
    -> (r: std::result::Result<Option<Degrees>, ()>)
    requires
        at < 100,
    ensures
        r == compact_coordinate(option_views(groups@), at as int, lower@, upper@),
        r matches Ok(Some(angle)) ==> angle.wf(),
{
    match group(groups, at) {
        Some(numeral) => {
            let negative = letter_is(groups, at + 1, lower, upper);
            match compact_from(&numeral, negative) {
                Some(angle) => Ok(Some(angle)),
                None => Err(()),
            }
        },
        None => Ok(None),
    }
}

/// The coordinate of a match of the degrees-minutes-seconds pattern, from
/// group `at` on.
fn dms_coordinate_from(groups: &Vec<Option<String>>, at: usize, lower: &str, upper: &str) -> (r:
    std::result::Result<Option<Degrees>, ()>)
    requires
        at < 100,
    ensures
        r == dms_coordinate(option_views(groups@), at as int, lower@, upper@),
        r matches Ok(Some(angle)) ==> angle.wf(),
{
    match group(groups, at) {
        Some(degrees) => {
            let minutes = group(groups, at + 1);
            let seconds = group(groups, at + 2);
            match (minutes, seconds) {
                (Some(minutes), Some(seconds)) => {
                    let negative = letter_is(groups, at + 3, lower, upper);
                    match dms_from(&degrees, &minutes, &seconds, negative) {
                        Some(angle) => Ok(Some(angle)),
                        None => Err(()),
                    }
                },
                _ => Err(()),
            }
        },
        None => Ok(None),
    }
}

/// One coordinate out of both notations.
fn merge(
    compact: std::result::Result<Option<Degrees>, ()>,
    dms: std::result::Result<Option<Degrees>, ()>,
) -> (r: std::result::Result<Option<Degrees>, ()>)
    ensures
        r == merged_coordinate(compact, dms),
{
    match (compact, dms) {
        (Ok(c), Ok(d)) => Ok(
            if d.is_some() {
                d
            } else {
                c
            },
        ),
        _ => Err(()),
    }
}

/// The coordinates that the matches of the compact pattern and of the
/// degrees-minutes-seconds pattern in `data` give. Each of the two may be
/// absent; that both are absent is an error, and so is a numeral that cannot
/// be read.
pub fn latlong_from_captures(
    compact: Option<Vec<Option<String>>>,
    dms: Option<Vec<Option<String>>>,
    data: &str,
) -> (r: Result<(Option<Degrees>, Option<Degrees>)>)
    ensures
        latlong_result_is(r, latlong_of(match_view(compact), match_view(dms)), data@),
        r matches Ok(pair) ==> (pair.0 matches Some(a) ==> a.wf()) && (pair.1 matches Some(a)
            ==> a.wf()),
{
    let (compact_lat, compact_lon) = match &compact {
        Some(groups) => (
            compact_coordinate_from(groups, 1, "s", "S"),
            compact_coordinate_from(groups, 3, "w", "W"),
        ),
        None => (Ok(None), Ok(None)),
    };
    let (dms_lat, dms_lon) = match &dms {
        Some(groups) => (
            dms_coordinate_from(groups, 1, "s", "S"),
            dms_coordinate_from(groups, 5, "w", "W"),
        ),
        None => (Ok(None), Ok(None)),
    };
    match (merge(compact_lat, dms_lat), merge(compact_lon, dms_lon)) {
        (Ok(lat), Ok(lon)) => {
            if lat.is_none() && lon.is_none() {
                Err(Error::ParseError("latlong", data.to_owned()))
            } else {
                Ok((lat, lon))
            }
        },
        _ => Err(Error::ParseError("latlong", data.to_owned())),
    }
}

/// Parses a latitude and a longitude, in the compact notation
/// (`571209N 0021153W`) or in degrees, minutes and seconds
/// (`50°50'13.60"N`). Where both notations are present the second one
/// decides.
pub fn parse_latlong(data: &str) -> (r: Result<(Option<Degrees>, Option<Degrees>)>)
    ensures
        latlong_result_is(r, latlong_of_text(data@), data@),
        r matches Ok(pair) ==> (pair.0 matches Some(a) ==> a.wf()) && (pair.1 matches Some(a)
            ==> a.wf()),
{
    let compact = captures(COMPACT_PATTERN, data);
    let dms = captures(DMS_PATTERN, data);
    latlong_from_captures(compact, dms, data)
}

/// Text in which neither the frequency pattern nor the channel pattern
/// matches gives no frequency: the parser fails with the field `frequency`.
pub proof fn lemma_frequency_needs_a_match(data: Seq<char>)
    requires
        regex_captures(FREQUENCY_PATTERN@, data) is None,
        regex_captures(CHANNEL_PATTERN@, data) is None,
    ensures
        frequency_of_text(data) == Err::<nat, Seq<char>>("frequency"@),
{
}

/// A frequency in megahertz is a thousand times the numeral, in kilohertz
/// the numeral itself, where the numeral has no fraction.
pub proof fn lemma_megahertz_is_thousandfold(numeral: Seq<char>)
    requires
        fraction_part(numeral).len() == 0,
    ensures
        numeral_khz(numeral, true) == 1000 * numeral_khz(numeral, false),
        numeral_khz(numeral, false) == decimal_mantissa(numeral),
{
    assert(pow10(0) == 1);
}

/// Text in which the elevation pattern does not match gives no elevation.
pub proof fn lemma_elevation_needs_a_match(data: Seq<char>)
    requires
        regex_captures(ELEVATION_PATTERN@, data) is None,
    ensures
        elevation_of_text(data) == Err::<nat, Seq<char>>("elevation"@),
{
}

/// Text in which neither notation gives a latitude or a longitude gives no
/// coordinates; text in which one of them is found gives a pair.
pub proof fn lemma_latlong_needs_a_coordinate(data: Seq<char>)
    ensures
        latitude_of(regex_captures(COMPACT_PATTERN@, data), regex_captures(DMS_PATTERN@, data))
            == Ok::<Option<Degrees>, ()>(None) && longitude_of(
            regex_captures(COMPACT_PATTERN@, data),
            regex_captures(DMS_PATTERN@, data),
        ) == Ok::<Option<Degrees>, ()>(None) ==> latlong_of_text(data) is None,
        latlong_of_text(data) matches Some(pair) ==> pair.0 is Some || pair.1 is Some,
{
}

/// A compact numeral of the southern or western hemisphere gives the angle
/// of the same numeral of the other hemisphere, negated.
pub proof fn lemma_hemisphere_negates(numeral: Seq<char>)
    ensures
        compact_angle(numeral, true) matches Some(a) ==> compact_angle(numeral, false) == Some(
            Degrees { negative: false, ..a },
        ) && a.negative,
{
}

} // verus!
