//! Reading a mode specifier such as `1920x1200x32@0`: the pattern it has to
//! show, the search for that pattern, and the mode that the captured digits
//! denote.

use crate::errors::ModeError;
use crate::mode::{DisplayIndex, Mode, RefreshRate};
use crate::text::{decimal_text, lemma_decimal_text_value, parse_decimal, parsed_decimal};
use vstd::prelude::*;

verus! {

/// The pattern of a mode specifier: width, height, bit depth and refresh rate
/// in whole hertz, each a run of digits, with `x`, `x` and `@` between them.
pub const MODE_PATTERN: &'static str = r"(\d+)x(\d+)x(\d+)@(\d+)";

#[verifier::external_type_specification]
#[verifier::external_body]
pub struct ExPatternError(regex::Error);

/// Whether `regex::Regex::new` accepts `pattern`.
pub uninterp spec fn pattern_compiles(pattern: Seq<char>) -> bool;

/// What `regex::Regex::captures` finds for `pattern` in `haystack`: nothing
/// where the pattern matches nowhere, else the text of every group of the
/// leftmost match, the whole match first, a group that took no part as `None`.
pub uninterp spec fn pattern_captures(pattern: Seq<char>, haystack: Seq<char>) -> Option<
    Seq<Option<Seq<char>>>,
>;

/// Compiles `pattern` with `regex::Regex::new` and searches `haystack` with
/// `regex::Regex::captures`. Nothing is proved of either: the contract only
/// gives their results the names above. The error is the one that the
/// compilation returned; the groups are copied out as they are.
#[verifier::external_body]
fn find_captures(pattern: &str, haystack: &str) -> (r: Result<
    Option<Vec<Option<String>>>,
    regex::Error,
>)
    ensures
        r.is_ok() == pattern_compiles(pattern@),
        r matches Ok(found) ==> found.deep_view() == pattern_captures(pattern@, haystack@),
{
    let re = regex::Regex::new(pattern)?;
    Ok(
        re.captures(haystack).map(
            |caps| caps.iter().map(|group| group.map(|m| m.as_str().to_string())).collect(),
        ),
    )
}

/// The number that group `i` denotes: none where there is no such group,
/// where it took no part, where it is no decimal numeral, or where its value
/// exceeds 64 bits.
pub open spec fn group_number(groups: Seq<Option<Seq<char>>>, i: int) -> Option<u64> {
    if 0 <= i < groups.len() {
        match groups[i] {
            Some(digits) => parsed_decimal(digits),
            None => None,
        }
    } else {
        None
    }
}

/// The mode that captured groups denote for `display`: groups one to four are
/// width, height, bit depth and refresh rate in hertz. It has no pixel size,
/// no flags and no handle. There is none where a group has no number, where
/// the bit depth exceeds `usize`, or where the rate in thousandths of a hertz
/// exceeds 64 bits.
pub open spec fn specified_mode(groups: Seq<Option<Seq<char>>>, display: DisplayIndex) -> Option<
    Mode,
> {
    match (
        group_number(groups, 1),
        group_number(groups, 2),
        group_number(groups, 3),
        group_number(groups, 4),
    ) {
        (Some(width), Some(height), Some(depth), Some(hertz)) => {
            if depth <= usize::MAX && hertz * 1000 <= u64::MAX {
                Some(
                    Mode {
                        display,
                        native_handle: None,
                        width,
                        height,
                        pixel_width: 0,
                        pixel_height: 0,
                        refresh_rate: RefreshRate { millihertz: (hertz * 1000) as u64 },
                        io_flags: 0,
                        bit_depth: depth as usize,
                    },
                )
            } else {
                None
            }
        },
        _ => None,
    }
}

/// Whether the match that `groups` tell of is the whole of `text`: nothing
/// stands before it and nothing behind it.
pub open spec fn matches_whole(groups: Seq<Option<Seq<char>>>, text: Seq<char>) -> bool {
    groups.len() > 0 && groups[0] == Some(text)
}

/// The mode that `text` specifies for `display`, if it specifies one: the
/// pattern has to match the whole of `text`, and the captured numbers have to
/// fit. A text that only holds a specifier somewhere specifies nothing.
pub open spec fn wanted_mode(text: Seq<char>, display: DisplayIndex) -> Option<Mode> {
    match pattern_captures(MODE_PATTERN@, text) {
        Some(groups) => if matches_whole(groups, text) {
            specified_mode(groups, display)
        } else {
            None
        },
        None => None,
    }
}

/// Whether the match that `groups` tell of is the whole of `text`.
pub fn covers_whole(groups: &Vec<Option<String>>, text: &str) -> (r: bool)
    ensures
        r == matches_whole(groups.deep_view(), text@),
{
    if groups.len() == 0 {
        return false;
    }
    match &groups[0] {
        Some(whole) => {
            assert(groups.deep_view()[0] == Some(whole@));
            let owned = text.to_owned();
            *whole == owned
        },
        None => {
            assert(groups.deep_view()[0] == None::<Seq<char>>);
            false
        },
    }
}

fn number_of_group(groups: &Vec<Option<String>>, i: usize) -> (r: Option<u64>)
    ensures
        r == group_number(groups.deep_view(), i as int),
{
    if i < groups.len() {
        match &groups[i] {
            Some(digits) => {
                assert(groups.deep_view()[i as int] == Some(digits@));
                parse_decimal(digits.as_str())
            },
            None => {
                assert(groups.deep_view()[i as int] == None::<Seq<char>>);
                None
            },
        }
    } else {
        None
    }
}

/// Builds the mode that the captured groups of a specifier denote.
pub fn mode_from_captures(groups: &Vec<Option<String>>, display: DisplayIndex) -> (r: Option<Mode>)
    ensures
        r == specified_mode(groups.deep_view(), display),
{
    let width = number_of_group(groups, 1);
    let height = number_of_group(groups, 2);
    let depth = number_of_group(groups, 3);
    let hertz = number_of_group(groups, 4);
    match (width, height, depth, hertz) {
        (Some(width), Some(height), Some(depth), Some(hertz)) => {
            if depth > usize::MAX as u64 {
                return None;
            }
            match RefreshRate::from_hertz(hertz) {
                Some(refresh_rate) => Some(
                    Mode {
                        display,
                        native_handle: None,
                        width,
                        height,
                        pixel_width: 0,
                        pixel_height: 0,
                        refresh_rate,
                        io_flags: 0,
                        bit_depth: depth as usize,
                    },
                ),
                None => None,
            }
        },
        _ => None,
    }
}

/// Reads `text` as a mode specifier for `display`. The whole of `text` has to
/// be the specifier: a text with anything before or behind the match is
/// refused like one without a match.
pub fn parse_specifier(text: &str, display: DisplayIndex) -> (r: Result<Mode, ModeError>)
    ensures
        match r {
            Ok(mode) => pattern_compiles(MODE_PATTERN@) && wanted_mode(text@, display) == Some(
                mode,
            ),
            Err(ModeError::PatternRejected) => !pattern_compiles(MODE_PATTERN@),
            Err(ModeError::InvalidModeSpecifier(carried)) => pattern_compiles(MODE_PATTERN@)
                && wanted_mode(text@, display).is_none() && carried@ == text@,
            Err(_) => false,
        },
{
    match find_captures(MODE_PATTERN, text) {
        Err(_) => Err(ModeError::PatternRejected),
        Ok(None) => Err(ModeError::InvalidModeSpecifier(text.to_owned())),
        Ok(Some(groups)) => {
            if !covers_whole(&groups, text) {
                return Err(ModeError::InvalidModeSpecifier(text.to_owned()));
            }
            match mode_from_captures(&groups, display) {
                Some(mode) => Ok(mode),
                None => Err(ModeError::InvalidModeSpecifier(text.to_owned())),
            }
        },
    }
}

/// The groups that make up the compact form of `mode`: the whole form, then
/// the numerals of width, height, bit depth and whole hertz.
pub open spec fn compact_groups(mode: Mode) -> Seq<Option<Seq<char>>> {
    seq![
        Some(mode.select_text()),
        Some(decimal_text(mode.width as nat)),
        Some(decimal_text(mode.height as nat)),
        Some(decimal_text(mode.bit_depth as nat)),
        Some(decimal_text(mode.refresh_rate.millihertz as nat / 1000)),
    ]
}

/// Reading is a left inverse of the compact form, from the captured groups
/// on: for a mode whose refresh rate is a whole number of hertz, the groups
/// of its compact form cover the whole form and denote a mode that is the
/// same as it, without pixel size, flags or handle.
pub proof fn lemma_compact_groups_read_back(mode: Mode)
    requires
        mode.refresh_rate.millihertz % 1000 == 0,
    ensures
        matches_whole(compact_groups(mode), mode.select_text()),
        specified_mode(compact_groups(mode), mode.display) matches Some(read) && read.same_as(
            &mode,
        ) && read.native_handle.is_none() && read.pixel_width == 0 && read.pixel_height == 0
            && read.io_flags == 0,
{
    lemma_decimal_text_value(mode.width as nat);
    lemma_decimal_text_value(mode.height as nat);
    lemma_decimal_text_value(mode.bit_depth as nat);
    lemma_decimal_text_value(mode.refresh_rate.millihertz as nat / 1000);
    let groups = compact_groups(mode);
    assert(group_number(groups, 1) == Some(mode.width));
    assert(group_number(groups, 2) == Some(mode.height));
    assert(group_number(groups, 3) == Some(mode.bit_depth as u64));
    assert(group_number(groups, 4) == Some((mode.refresh_rate.millihertz / 1000) as u64));
}

} // verus!
