use cavegen_bot::args::extract_standard_args;
use cavegen_bot::cavegen::{caveinfo_invocation, cavegen_invocation, InvocationError};
use cavegen_bot::policy::{command_allowed, may_delete, DEBUG_GUILD_ID};
use cavegen_bot::seed::{format_seed, match_seed, seed_valid};
use cavegen_bot::specifier::{match_cave_specifier, normalize_sublevel, sublevel_from_parts};
use cavegen_bot::text::{eq_ignore_ascii_case, to_ascii_lower, to_ascii_upper};

fn words(ws: &[&str]) -> Vec<String> {
    ws.iter().map(|w| w.to_string()).collect()
}

#[test]
fn seed_validation() {
    assert!(seed_valid("0x1234ABCD"));
    assert!(!seed_valid("0x1234abcd"));
    assert!(!seed_valid("1234ABCD"));
    assert!(!seed_valid("0x1234ABC"));
    assert!(!seed_valid("0x1234ABCDE"));
    assert!(!seed_valid("a0x1234ABCD"));
    assert!(!seed_valid(""));
    assert!(match_seed("0x1234abcd"));
    assert!(match_seed("0xDEADbeef"));
    assert!(!match_seed("0X1234ABCD"));
    assert!(!match_seed("0x1234abcg"));
}

#[test]
fn seed_formatting() {
    assert_eq!(format_seed(0), "0x00000000");
    assert_eq!(format_seed(0xDEADBEEF), "0xDEADBEEF");
    assert_eq!(format_seed(0x1a2b), "0x00001A2B");
    assert!(seed_valid(&format_seed(u32::MAX)));
}

#[test]
fn ascii_case() {
    assert_eq!(to_ascii_lower("SCx-1 Ä"), "scx-1 Ä");
    assert_eq!(to_ascii_upper("ch1-2 ä"), "CH1-2 ä");
    assert!(eq_ignore_ascii_case("ScX", "scx"));
    assert!(!eq_ignore_ascii_case("scx", "sc"));
    assert!(!eq_ignore_ascii_case("ä", "Ä"));
}

#[test]
fn sublevel_normalization() {
    assert_eq!(normalize_sublevel("scx1"), Some("SCx-1".to_string()));
    assert_eq!(normalize_sublevel("SH-4"), Some("SH-4".to_string()));
    assert_eq!(normalize_sublevel("cwnn_12"), Some("CwNN-12".to_string()));
    assert_eq!(normalize_sublevel("dd3"), Some("DD-3".to_string()));
    assert_eq!(normalize_sublevel("xyz1"), None);
    assert_eq!(normalize_sublevel("scx"), None);
    assert_eq!(sublevel_from_parts("hob", "2"), Some("HoB-2".to_string()));
    assert_eq!(sublevel_from_parts("nope", "2"), None);
}

#[test]
fn cave_specifiers() {
    assert_eq!(match_cave_specifier("Colossal"), Some("colossal".to_string()));
    assert_eq!(match_cave_specifier("ch12-3"), Some("CH12-3".to_string()));
    assert_eq!(match_cave_specifier("Ch1_2"), Some("CH1_2".to_string()));
    assert_eq!(match_cave_specifier("fc-2"), Some("FC-2".to_string()));
    assert_eq!(match_cave_specifier("+score"), None);
}

#[test]
fn standard_args() {
    let a = extract_standard_args(&words(&["scx1", "0xdeadBEEF", "+251", "+Score", "+JPN", "junk"]));
    assert_eq!(a.cave.as_deref(), Some("SCx-1"));
    assert_eq!(a.seed.as_deref(), Some("0xdeadBEEF"));
    assert!(a.mode_251 && a.draw_score && !a.new_year && !a.help);
    assert_eq!(a.region.as_deref(), Some("jpn"));

    let b = extract_standard_args(&words(&["+NEW_YEAR", "help", "fc1", "sh2"]));
    assert!(b.new_year && b.help);
    assert_eq!(b.cave.as_deref(), Some("SH-2"));
    assert_eq!(b.seed, None);

    let c = extract_standard_args(&words(&[]));
    assert!(c.cave.is_none() && c.seed.is_none() && !c.mode_251 && c.region.is_none());
}

#[test]
fn cavegen_planning() {
    let a = extract_standard_args(&words(&["scx1", "0xdeadbeef", "+newyear", "+score", "+jp"]));
    let inv = cavegen_invocation(&a).unwrap();
    assert_eq!(
        inv.arguments,
        words(&[
            "cave", "SCx-1", "-seed", "0xdeadbeef", "-drawNoGateLife", "-quickglance", "-newYear",
            "-drawAllScores", "-region", "jpn"
        ])
    );
    assert_eq!(inv.output_file, "./CaveGen/outputNewYear/SCx-1/DEADBEEF.png");

    let colossal = extract_standard_args(&words(&["colossal", "0x0000000a", "+251"]));
    let inv = cavegen_invocation(&colossal).unwrap();
    assert_eq!(inv.output_file, "./CaveGen/output/colossal-1/0000000A.png");
    assert_eq!(inv.arguments[6], "-251");
}

#[test]
fn cavegen_planning_errors() {
    let no_cave = extract_standard_args(&words(&["0x12345678"]));
    assert_eq!(cavegen_invocation(&no_cave).unwrap_err(), InvocationError::MissingCave);
    let no_seed = extract_standard_args(&words(&["fc1"]));
    assert_eq!(cavegen_invocation(&no_seed).unwrap_err(), InvocationError::MissingSeed);
    assert_eq!(
        InvocationError::MissingSeed.message(),
        "No valid seed specified."
    );
    assert_eq!(
        InvocationError::MissingCave.message(),
        "No valid cave/sublevel specifier was provided."
    );
    assert_eq!(caveinfo_invocation(&no_cave).unwrap_err(), InvocationError::MissingCave);
}

#[test]
fn caveinfo_planning() {
    let a = extract_standard_args(&words(&["sh3", "+251", "+jpn"]));
    let inv = caveinfo_invocation(&a).unwrap();
    assert_eq!(
        inv.arguments,
        words(&["cave", "SH-3", "-caveInfoReport", "-drawAllWayPoints", "-drawSpawnPoints", "-251", "-region", "jpn"])
    );
    assert_eq!(inv.output_file, "./CaveGen/output251/!caveinfo/SH-3.png");
    let plain = extract_standard_args(&words(&["fc1"]));
    assert_eq!(caveinfo_invocation(&plain).unwrap().output_file, "./CaveGen/output/!caveinfo/FC-1.png");
}

#[test]
fn debug_server_gate() {
    assert!(command_allowed(true, Some(DEBUG_GUILD_ID)));
    assert!(!command_allowed(true, Some(1)));
    assert!(!command_allowed(true, None));
    assert!(command_allowed(false, Some(1)));
    assert!(command_allowed(false, None));
    assert!(!command_allowed(false, Some(DEBUG_GUILD_ID)));
}

#[test]
fn reply_removal() {
    assert!(may_delete(Some(5), Some(5)));
    assert!(!may_delete(Some(5), Some(6)));
    assert!(!may_delete(None, None));
    assert!(!may_delete(Some(5), None));
}
