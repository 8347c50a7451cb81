//! Cave and sublevel specifiers: turning what a user typed into the strict
//! form that the generator expects (`scx1` becomes `SCx-1`).
use vstd::prelude::*;
use crate::text::{ascii_lower, ascii_upper, eq_ignore_ascii_case, opt_view, to_ascii_lower, to_ascii_upper};
use vstd::string::StringExecFns;

verus! {

/// Number of entries in the cave abbreviation table.
pub const CAVE_COUNT: usize = 41;

/// The cave abbreviations, in the order in which they are tried.
pub open spec fn cave_abbreviation(i: usize) -> Seq<char> {
    match i {
        0 => "EC"@,
        1 => "SCx"@,
        2 => "FC"@,
        3 => "HoB"@,
        4 => "WFG"@,
        5 => "SH"@,
        6 => "BK"@,
        7 => "CoS"@,
        8 => "GK"@,
        9 => "SC"@,
        10 => "SR"@,
        11 => "CoC"@,
        12 => "DD"@,
        13 => "HoH"@,
        14 => "AT"@,
        15 => "IM"@,
        16 => "AD"@,
        17 => "GD"@,
        18 => "FT"@,
        19 => "WF"@,
        20 => "GdD"@,
        21 => "AS"@,
        22 => "SS"@,
        23 => "CK"@,
        24 => "PoW"@,
        25 => "PoM"@,
        26 => "EA"@,
        27 => "DD"@,
        28 => "PP"@,
        29 => "BG"@,
        30 => "SK"@,
        31 => "CwNN"@,
        32 => "SnD"@,
        33 => "CH"@,
        34 => "RH"@,
        35 => "SA"@,
        36 => "AA"@,
        37 => "TC"@,
        38 => "ER"@,
        39 => "CG"@,
        40 => "SD"@,
        _ => Seq::empty(),
    }
}

/// Entry `i` of the cave abbreviation table.
pub fn cave_abbreviation_at(i: usize) -> (r: &'static str)
    requires
        i < CAVE_COUNT,
    ensures
        r@ == cave_abbreviation(i),
{
    match i {
        0 => "EC",
        1 => "SCx",
        2 => "FC",
        3 => "HoB",
        4 => "WFG",
        5 => "SH",
        6 => "BK",
        7 => "CoS",
        8 => "GK",
        9 => "SC",
        10 => "SR",
        11 => "CoC",
        12 => "DD",
        13 => "HoH",
        14 => "AT",
        15 => "IM",
        16 => "AD",
        17 => "GD",
        18 => "FT",
        19 => "WF",
        20 => "GdD",
        21 => "AS",
        22 => "SS",
        23 => "CK",
        24 => "PoW",
        25 => "PoM",
        26 => "EA",
        27 => "DD",
        28 => "PP",
        29 => "BG",
        30 => "SK",
        31 => "CwNN",
        32 => "SnD",
        33 => "CH",
        34 => "RH",
        35 => "SA",
        36 => "AA",
        37 => "TC",
        38 => "ER",
        39 => "CG",
        40 => "SD",
        _ => "SD",
    }
}

/// The first table index from `i` on whose abbreviation equals `name` when
/// ASCII case is ignored.
pub open spec fn cave_index_from(name: Seq<char>, i: usize) -> Option<usize>
    decreases CAVE_COUNT - i,
{
    if i >= CAVE_COUNT {
        None
    } else if ascii_lower(cave_abbreviation(i)) == ascii_lower(name) {
        Some(i)
    } else {
        cave_index_from(name, (i + 1) as usize)
    }
}

/// The strict sublevel name for a cave name and a sublevel number: the
/// table's spelling of the cave, a dash, and the number; `None` when no
/// abbreviation matches the cave name.
pub open spec fn sublevel_name(cave_name: Seq<char>, number: Seq<char>) -> Option<Seq<char>> {
    match cave_index_from(cave_name, 0) {
        Some(i) => Some(cave_abbreviation(i) + "-"@ + number),
        None => None,
    }
}

/// What `normalize_sublevel` returns for the parts that the sublevel pattern
/// found.
pub open spec fn normalized_sublevel(parts: Option<(Seq<char>, Seq<char>)>) -> Option<Seq<char>> {
    match parts {
        Some((cave_name, number)) => sublevel_name(cave_name, number),
        None => None,
    }
}

/// What `match_cave_specifier` returns, given whether the lower-cased input
/// holds a challenge-mode id and what normalizing it as a sublevel gave.
pub open spec fn cave_specifier(raw: Seq<char>, challenge_found: bool, sublevel: Option<Seq<char>>) -> Option<Seq<char>> {
    if ascii_lower(raw) == "colossal"@ {
        Some("colossal"@)
    } else if challenge_found {
        Some(ascii_upper(ascii_lower(raw)))
    } else {
        sublevel
    }
}

/// Whether a string holds a challenge-mode id (`ch` and digits, `_` or `-`,
/// digits), as the regex crate decides it.
pub uninterp spec fn challenge_id_found(s: Seq<char>) -> bool;

/// The cave-name and number groups of the leftmost sublevel id in a string,
/// as the regex crate finds them.
pub uninterp spec fn sublevel_id_parts(s: Seq<char>) -> Option<(Seq<char>, Seq<char>)>;

/// Relies on regex::Regex::is_match with the pattern `[cC][hH]\d+[_-]\d+`;
/// its result depends on `s` alone. The pattern is valid, so building it does
/// not fail.
#[verifier::external_body]
fn contains_challenge_id(s: &str) -> (r: bool)
    ensures
        r == challenge_id_found(s@),
{
    regex::Regex::new(r"[cC][hH]\d+[_-]\d+").unwrap().is_match(s)
}

/// Relies on regex::Regex::captures with the pattern
/// `([[:alpha:]]{2,5})[_-]?(\d+)` and on Captures::get for its two groups,
/// which take part in every match; the result depends on `s` alone. The
/// pattern is valid, so building it does not fail.
#[verifier::external_body]
fn find_sublevel_id(s: &str) -> (r: Option<(String, String)>)
    ensures
        match r {
            Some(p) => sublevel_id_parts(s@) == Some((p.0@, p.1@)),
            None => sublevel_id_parts(s@) is None,
        },
{
    let re = regex::Regex::new(r"([[:alpha:]]{2,5})[_-]?(\d+)").unwrap();
    let caps = re.captures(s)?;
    Some((caps.get(1)?.as_str().to_string(), caps.get(2)?.as_str().to_string()))
}

/// The strict sublevel name for a cave name and a sublevel number, looked up
/// in the cave table without regard to ASCII case.
pub fn sublevel_from_parts(cave_name: &str, number: &str) -> (r: Option<String>)
    ensures
        opt_view(r) == sublevel_name(cave_name@, number@),
{
    let mut i: usize = 0;
    while i < CAVE_COUNT
        invariant
            i <= CAVE_COUNT,
            cave_index_from(cave_name@, 0) == cave_index_from(cave_name@, i),
        decreases CAVE_COUNT - i,
    {
        let cave = cave_abbreviation_at(i);
        if eq_ignore_ascii_case(cave_name, cave) {
            let mut out = cave.to_owned();
            out.append("-");
            out.append(number);
            return Some(out);
        }
        i = i + 1;
    }
    None
}

/// Turns a loose sublevel specifier such as `scx1` into the strict form
/// `SCx-1`; `None` when the input holds no sublevel id of a known cave.
pub fn normalize_sublevel(raw: &str) -> (r: Option<String>)
    ensures
        opt_view(r) == normalized_sublevel(sublevel_id_parts(raw@)),
{
    match find_sublevel_id(raw) {
        Some((cave_name, number)) => sublevel_from_parts(cave_name.as_str(), number.as_str()),
        None => None,
    }
}

/// Chooses the strict specifier: `colossal` for that word in any case, the
/// upper-cased input when it holds a challenge-mode id, and otherwise the
/// normalized sublevel.
pub fn resolve_cave_specifier(raw: &str, challenge_found: bool, sublevel: Option<String>) -> (r: Option<String>)
    ensures
        opt_view(r) == cave_specifier(raw@, challenge_found, opt_view(sublevel)),
{
    let lower = to_ascii_lower(raw);
    let colossal = "colossal".to_owned();
    if lower == colossal {
        Some(colossal)
    } else if challenge_found {
        Some(to_ascii_upper(lower.as_str()))
    } else {
        sublevel
    }
}

/// Transforms a valid but possibly loose cave or sublevel specifier into the
/// strict form that the generator expects.
pub fn match_cave_specifier(raw: &str) -> (r: Option<String>)
    ensures
        opt_view(r) == cave_specifier(
            raw@,
            challenge_id_found(ascii_lower(raw@)),
            normalized_sublevel(sublevel_id_parts(raw@)),
        ),
{
    let lower = to_ascii_lower(raw);
    let challenge_found = contains_challenge_id(lower.as_str());
    let sublevel = normalize_sublevel(raw);
    resolve_cave_specifier(raw, challenge_found, sublevel)
}

} // verus!
