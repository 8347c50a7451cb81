//! What to run for the generator's layout and caveinfo commands, and where the
//! image it writes will be.
use vstd::prelude::*;
use crate::args::{ArgsView, StandardArgs};
use crate::text::{ascii_upper, to_ascii_upper};
use vstd::string::StringExecFns;

verus! {

/// Why an invocation cannot be planned.
#[derive(Clone, Copy, Debug, PartialEq, Eq, Structural)]
pub enum InvocationError {
    MissingCave,
    MissingSeed,
}

impl InvocationError {
    /// The text shown to the user.
    pub fn message(&self) -> (r: &'static str)
        ensures
            r@ == match self {
                InvocationError::MissingCave => "No valid cave/sublevel specifier was provided."@,
                InvocationError::MissingSeed => "No valid seed specified."@,
            },
    {
        match self {
            InvocationError::MissingCave => "No valid cave/sublevel specifier was provided.",
            InvocationError::MissingSeed => "No valid seed specified.",
        }
    }
}

/// The generator's arguments, one word each, and the image file it will write.
#[derive(Debug)]
pub struct Invocation {
    pub arguments: Vec<String>,
    pub output_file: String,
}

pub open spec fn words_of(v: Seq<String>) -> Seq<Seq<char>> {
    v.map_values(|s: String| s@)
}

/// `-251` or `-newYear` for the game variant, the former winning.
pub open spec fn variant_flags(v: ArgsView) -> Seq<Seq<char>> {
    if v.mode_251 {
        seq!["-251"@]
    } else if v.new_year {
        seq!["-newYear"@]
    } else {
        Seq::empty()
    }
}

pub open spec fn score_flags(v: ArgsView) -> Seq<Seq<char>> {
    if v.draw_score {
        seq!["-drawAllScores"@]
    } else {
        Seq::empty()
    }
}

pub open spec fn region_flags(v: ArgsView) -> Seq<Seq<char>> {
    match v.region {
        Some(r) => seq!["-region"@, r],
        None => Seq::empty(),
    }
}

pub open spec fn cavegen_arguments(cave: Seq<char>, seed: Seq<char>, v: ArgsView) -> Seq<Seq<char>> {
    seq!["cave"@, cave, "-seed"@, seed, "-drawNoGateLife"@, "-quickglance"@] + variant_flags(v)
        + score_flags(v) + region_flags(v)
}

pub open spec fn caveinfo_arguments(cave: Seq<char>, v: ArgsView) -> Seq<Seq<char>> {
    seq!["cave"@, cave, "-caveInfoReport"@, "-drawAllWayPoints"@, "-drawSpawnPoints"@]
        + variant_flags(v) + region_flags(v)
}

/// The output folder of the generator, by variant.
pub open spec fn output_root(v: ArgsView) -> Seq<char> {
    if v.mode_251 {
        "./CaveGen/output251/"@
    } else if v.new_year {
        "./CaveGen/outputNewYear/"@
    } else {
        "./CaveGen/output/"@
    }
}

/// A seed's digits: what follows its `0x`.
pub open spec fn seed_digits(seed: Seq<char>) -> Seq<char> {
    if seed.len() >= 2 {
        seed.subrange(2, seed.len() as int)
    } else {
        Seq::empty()
    }
}

pub open spec fn cavegen_output_file(cave: Seq<char>, seed: Seq<char>, v: ArgsView) -> Seq<char> {
    let folder = if cave == "colossal"@ {
        "./CaveGen/output/colossal-1"@
    } else {
        output_root(v) + cave
    };
    folder + "/"@ + ascii_upper(seed_digits(seed)) + ".png"@
}

pub open spec fn caveinfo_output_file(cave: Seq<char>, v: ArgsView) -> Seq<char> {
    output_root(v) + "!caveinfo/"@ + cave + ".png"@
}

fn push_word(v: &mut Vec<String>, w: &str)
    ensures
        words_of(final(v)@) == words_of(old(v)@).push(w@),
{
    v.push(w.to_owned());
    assert(words_of(final(v)@) =~= words_of(old(v)@).push(w@));
}

fn push_variant_flags(out: &mut Vec<String>, args: &StandardArgs)
    ensures
        words_of(final(out)@) == words_of(old(out)@) + variant_flags(args@),
{
    if args.mode_251 {
        push_word(out, "-251");
    } else if args.new_year {
        push_word(out, "-newYear");
    }
    assert(words_of(final(out)@) =~= words_of(old(out)@) + variant_flags(args@));
}

fn push_region_flags(out: &mut Vec<String>, args: &StandardArgs)
    ensures
        words_of(final(out)@) == words_of(old(out)@) + region_flags(args@),
{
    if let Some(region) = &args.region {
        push_word(out, "-region");
        push_word(out, region.as_str());
    }
    assert(words_of(final(out)@) =~= words_of(old(out)@) + region_flags(args@));
}

fn output_root_of(args: &StandardArgs) -> (r: String)
    ensures
        r@ == output_root(args@),
{
    if args.mode_251 {
        "./CaveGen/output251/".to_owned()
    } else if args.new_year {
        "./CaveGen/outputNewYear/".to_owned()
    } else {
        "./CaveGen/output/".to_owned()
    }
}

/// Plans a layout image: the cave and the seed are required.
pub fn cavegen_invocation(args: &StandardArgs) -> (r: Result<Invocation, InvocationError>)
    ensures
        args.cave is None ==> r == Err::<Invocation, _>(InvocationError::MissingCave),
        args.cave is Some && args.seed is None ==> r == Err::<Invocation, _>(
            InvocationError::MissingSeed,
        ),
        args.cave is Some && args.seed is Some ==> r is Ok,
        r matches Ok(inv) ==> words_of(inv.arguments@) == cavegen_arguments(
            args.cave.unwrap()@,
            args.seed.unwrap()@,
            args@,
        ) && inv.output_file@ == cavegen_output_file(
            args.cave.unwrap()@,
            args.seed.unwrap()@,
            args@,
        ),
{
    let cave = match &args.cave {
        Some(c) => c,
        None => {
            return Err(InvocationError::MissingCave);
        },
    };
    let seed = match &args.seed {
        Some(s) => s,
        None => {
            return Err(InvocationError::MissingSeed);
        },
    };
    let mut arguments: Vec<String> = Vec::new();
    push_word(&mut arguments, "cave");
    push_word(&mut arguments, cave.as_str());
    push_word(&mut arguments, "-seed");
    push_word(&mut arguments, seed.as_str());
    push_word(&mut arguments, "-drawNoGateLife");
    push_word(&mut arguments, "-quickglance");
    assert(words_of(arguments@) =~= seq![
        "cave"@,
        cave@,
        "-seed"@,
        seed@,
        "-drawNoGateLife"@,
        "-quickglance"@,
    ]);
    push_variant_flags(&mut arguments, args);
    if args.draw_score {
        push_word(&mut arguments, "-drawAllScores");
    }
    assert(words_of(arguments@) =~= seq![
        "cave"@,
        cave@,
        "-seed"@,
        seed@,
        "-drawNoGateLife"@,
        "-quickglance"@,
    ] + variant_flags(args@) + score_flags(args@));
    push_region_flags(&mut arguments, args);
    assert(words_of(arguments@) =~= cavegen_arguments(cave@, seed@, args@));

    let colossal = "colossal".to_owned();
    let mut output_file = if *cave == colossal {
        "./CaveGen/output/colossal-1".to_owned()
    } else {
        let mut folder = output_root_of(args);
        folder.append(cave.as_str());
        folder
    };
    output_file.append("/");
    let n = seed.as_str().unicode_len();
    let digits = if n >= 2 {
        seed.as_str().substring_char(2, n)
    } else {
        ""
    };
    proof {
        reveal_strlit("");
        if n < 2 {
            assert(digits@ =~= seed_digits(seed@));
        }
    }
    output_file.append(to_ascii_upper(digits).as_str());
    output_file.append(".png");
    Ok(Invocation { arguments, output_file })
}

/// Plans a caveinfo image: the cave is required.
pub fn caveinfo_invocation(args: &StandardArgs) -> (r: Result<Invocation, InvocationError>)
    ensures
        args.cave is None ==> r == Err::<Invocation, _>(InvocationError::MissingCave),
        args.cave is Some ==> r is Ok,
        r matches Ok(inv) ==> words_of(inv.arguments@) == caveinfo_arguments(
            args.cave.unwrap()@,
            args@,
        ) && inv.output_file@ == caveinfo_output_file(args.cave.unwrap()@, args@),
{
    let cave = match &args.cave {
        Some(c) => c,
        None => {
            return Err(InvocationError::MissingCave);
        },
    };
    let mut arguments: Vec<String> = Vec::new();
    push_word(&mut arguments, "cave");
    push_word(&mut arguments, cave.as_str());
    push_word(&mut arguments, "-caveInfoReport");
    push_word(&mut arguments, "-drawAllWayPoints");
    push_word(&mut arguments, "-drawSpawnPoints");
    assert(words_of(arguments@) =~= seq![
        "cave"@,
        cave@,
        "-caveInfoReport"@,
        "-drawAllWayPoints"@,
        "-drawSpawnPoints"@,
    ]);
    push_variant_flags(&mut arguments, args);
    push_region_flags(&mut arguments, args);
    assert(words_of(arguments@) =~= caveinfo_arguments(cave@, args@));

    let mut output_file = output_root_of(args);
    output_file.append("!caveinfo/");
    output_file.append(cave.as_str());
    output_file.append(".png");
    Ok(Invocation { arguments, output_file })
}

} // verus!
