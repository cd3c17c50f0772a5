//! Season numbers and season folders.
//!
//! A season number is read out of one segment of a relative path, such as
//! `Season 2` or `S03`, by trying a fixed list of patterns in order. A
//! season folder is named after a template in which the number is filled in.

use vstd::prelude::*;
use crate::sanitize::{sanitize_chars, sanitized_name};
use crate::text::{
    chars_of, decimal, decimal_chars, decimal_padded, decimal_padded_chars, parse_u32,
    parsed_u32, replace_all, replaced, string_of, text_of,
};

verus! {

/// What group number `group` holds in the leftmost match of the regular
/// expression `pattern` in `text`, as the `regex` crate finds it; `None`
/// where `pattern` is no regular expression, where it matches nowhere in
/// `text`, and where the group took no part in the match.
pub uninterp spec fn regex_capture(pattern: Seq<char>, text: Seq<char>, group: int) -> Option<
    Seq<char>,
>;

/// Compiles `pattern` with `regex::Regex::new`, searches `text` with
/// `Regex::captures` and reads one group of the match with `Captures::get`
/// and `Match::as_str`. Nothing is claimed of the result but that it is the
/// one these calls give for these arguments.
#[verifier::external_body]
fn capture_group(pattern: &str, text: &str, group: usize) -> (found: Option<String>)
    ensures
        text_of(found) == regex_capture(pattern@, text@, group as int),
{
    match regex::Regex::new(pattern) {
        Ok(re) => match re.captures(text) {
            Some(found) => match found.get(group) {
                Some(m) => Some(m.as_str().to_string()),
                None => None,
            },
            None => None,
        },
        Err(_) => None,
    }
}

/// The number of patterns that a season marker is tried against.
pub const SEASON_PATTERNS: usize = 5;

/// The patterns, in the order in which they are tried: `Season` and
/// digits, `S` and digits, digits between the signs for "number" and
/// "season", then the first two again in lower case. In each the digits are
/// group 1.
pub open spec fn season_pattern(i: int) -> Seq<char> {
    if i == 0 {
        r"Season\s*(\d+)"@
    } else if i == 1 {
        r"S(\d+)"@
    } else if i == 2 {
        r"第(\d+)季"@
    } else if i == 3 {
        r"season\s*(\d+)"@
    } else {
        r"s(\d+)"@
    }
}

/// What each pattern captures in `segment`.
pub open spec fn season_captures(segment: Seq<char>) -> Seq<Option<Seq<char>>> {
    Seq::new(SEASON_PATTERNS as nat, |i: int| regex_capture(season_pattern(i), segment, 1))
}

/// The season that a list of captures gives: the number written by the
/// first capture that is a numeral fitting 32 bits; 1 where there is none.
/// The order of the list breaks ties: an earlier capture wins.
pub open spec fn season_from(captures: Seq<Option<Seq<char>>>) -> u32
    decreases captures.len(),
{
    if captures.len() == 0 {
        1
    } else {
        match captures[0] {
            Some(digits) => match parsed_u32(digits) {
                Some(n) => n,
                None => season_from(captures.drop_first()),
            },
            None => season_from(captures.drop_first()),
        }
    }
}

/// The texts of a list of optional strings.
pub open spec fn capture_texts(captures: Seq<Option<String>>) -> Seq<Option<Seq<char>>> {
    captures.map_values(|c: Option<String>| text_of(c))
}

/// The season that a list of captures gives: see `season_from`.
pub fn season_from_captures(captures: &Vec<Option<String>>) -> (season: u32)
    ensures
        season == season_from(capture_texts(captures@)),
{
    let ghost all = capture_texts(captures@);
    let mut i: usize = 0;
    proof {
        assert(all.skip(0) == all);
    }
    while i < captures.len()
        invariant
            i <= captures.len(),
            all == capture_texts(captures@),
            season_from(all) == season_from(all.skip(i as int)),
        decreases captures.len() - i,
    {
        proof {
            assert(all.skip(i as int).drop_first() == all.skip(i + 1));
            assert(all.skip(i as int)[0] == text_of(captures@[i as int]));
        }
        match &captures[i] {
            Some(digits) => {
                let chars = chars_of(digits.as_str());
                match parse_u32(&chars) {
                    Some(n) => {
                        return n;
                    },
                    None => {},
                }
            },
            None => {},
        }
        i = i + 1;
    }
    1
}

/// Reads the season number out of one path segment. The patterns are tried
/// in their order and the first that captures a numeral decides; a segment
/// that none of them finds a numeral in is season 1.
pub fn extract_season_from_path(segment: &str) -> (season: u32)
    ensures
        season == season_from(season_captures(segment@)),
{
    let mut captures: Vec<Option<String>> = Vec::new();
    captures.push(capture_group(r"Season\s*(\d+)", segment, 1));
    captures.push(capture_group(r"S(\d+)", segment, 1));
    captures.push(capture_group(r"第(\d+)季", segment, 1));
    captures.push(capture_group(r"season\s*(\d+)", segment, 1));
    captures.push(capture_group(r"s(\d+)", segment, 1));
    proof {
        assert(capture_texts(captures@) == season_captures(segment@));
    }
    season_from_captures(&captures)
}

/// The folder name that a template gives for a season: `{season}` becomes
/// the number, then `{season:02}` and `{season:03}` the number with zeros
/// in front up to two and three digits, and the result is sanitised as a
/// name.
pub open spec fn season_folder_name(template: Seq<char>, season: u32) -> Seq<char> {
    sanitized_name(
        replaced(
            replaced(
                replaced(template, "{season}"@, decimal(season as nat)),
                "{season:02}"@,
                decimal_padded(season as nat, 2),
            ),
            "{season:03}"@,
            decimal_padded(season as nat, 3),
        ),
    )
}

/// The folder name that a template gives for a season: see
/// `season_folder_name`.
pub fn generate_season_folder_name(template: &str, season: u32) -> (out: String)
    ensures
        out@ == season_folder_name(template@, season),
{
    let text = chars_of(template);
    let plain = replace_all(&text, &chars_of("{season}"), &decimal_chars(season as u128));
    let two = replace_all(&plain, &chars_of("{season:02}"), &decimal_padded_chars(season as u128, 2));
    let three = replace_all(&two, &chars_of("{season:03}"), &decimal_padded_chars(season as u128, 3));
    string_of(&sanitize_chars(&three))
}

} // verus!
