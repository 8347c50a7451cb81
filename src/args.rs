//! The standard arguments of the generator commands, read from the words a
//! user typed.
use vstd::prelude::*;
use crate::seed::{is_seed_text, match_seed};
use crate::specifier::{
    cave_specifier, challenge_id_found, match_cave_specifier, normalized_sublevel,
    sublevel_id_parts,
};
use crate::text::{ascii_lower, eq_ignore_ascii_case, opt_view};

verus! {

/// The arguments recognized among a command's words. A later word overrides
/// an earlier one of the same kind.
#[derive(Debug)]
pub struct StandardArgs {
    /// A seed in text form, as typed.
    pub seed: Option<String>,
    /// A cave or sublevel in strict form.
    pub cave: Option<String>,
    /// `+251`: the 251 challenge variant.
    pub mode_251: bool,
    /// `+newyear` or `+new_year`: the New Year variant.
    pub new_year: bool,
    /// `+score`: draw all scores.
    pub draw_score: bool,
    /// `+jp` or `+jpn`: the region, `jpn`.
    pub region: Option<String>,
    /// `help`: show usage.
    pub help: bool,
}

pub ghost struct ArgsView {
    pub seed: Option<Seq<char>>,
    pub cave: Option<Seq<char>>,
    pub mode_251: bool,
    pub new_year: bool,
    pub draw_score: bool,
    pub region: Option<Seq<char>>,
    pub help: bool,
}

impl View for StandardArgs {
    type V = ArgsView;

    open spec fn view(&self) -> ArgsView {
        ArgsView {
            seed: opt_view(self.seed),
            cave: opt_view(self.cave),
            mode_251: self.mode_251,
            new_year: self.new_year,
            draw_score: self.draw_score,
            region: opt_view(self.region),
            help: self.help,
        }
    }
}

pub open spec fn no_args() -> ArgsView {
    ArgsView {
        seed: None,
        cave: None,
        mode_251: false,
        new_year: false,
        draw_score: false,
        region: None,
        help: false,
    }
}

/// The cave specifier that a word denotes, if any.
pub open spec fn word_cave(w: Seq<char>) -> Option<Seq<char>> {
    cave_specifier(
        w,
        challenge_id_found(ascii_lower(w)),
        normalized_sublevel(sublevel_id_parts(w)),
    )
}

/// Equal when ASCII case is ignored.
pub open spec fn same_ignoring_case(a: Seq<char>, b: Seq<char>) -> bool {
    ascii_lower(a) == ascii_lower(b)
}

/// The effect of one word, tried in this order: a seed, a cave specifier,
/// `+251`, `+newyear`/`+new_year`, `+score`, `+jp`/`+jpn`, `help` (all but
/// `+251` without regard to case). Any other word is ignored.
pub open spec fn apply_word(v: ArgsView, w: Seq<char>) -> ArgsView {
    if is_seed_text(w, true) {
        ArgsView { seed: Some(w), ..v }
    } else if word_cave(w) is Some {
        ArgsView { cave: word_cave(w), ..v }
    } else if w == "+251"@ {
        ArgsView { mode_251: true, ..v }
    } else if same_ignoring_case(w, "+newyear"@) || same_ignoring_case(w, "+new_year"@) {
        ArgsView { new_year: true, ..v }
    } else if same_ignoring_case(w, "+score"@) {
        ArgsView { draw_score: true, ..v }
    } else if same_ignoring_case(w, "+jp"@) || same_ignoring_case(w, "+jpn"@) {
        ArgsView { region: Some("jpn"@), ..v }
    } else if same_ignoring_case(w, "help"@) {
        ArgsView { help: true, ..v }
    } else {
        v
    }
}

/// The arguments that a sequence of words gives, read left to right.
pub open spec fn args_of(words: Seq<Seq<char>>) -> ArgsView
    decreases words.len(),
{
    if words.len() == 0 {
        no_args()
    } else {
        apply_word(args_of(words.drop_last()), words.last())
    }
}

/// Applies one word to the arguments read so far.
fn read_word(args: &mut StandardArgs, word: &String)
    ensures
        final(args)@ == apply_word(old(args)@, word@),
{
    if match_seed(word.as_str()) {
        args.seed = Some(word.clone());
    } else if let Some(cave) = match_cave_specifier(word.as_str()) {
        args.cave = Some(cave);
    } else if *word == "+251".to_owned() {
        args.mode_251 = true;
    } else if eq_ignore_ascii_case(word.as_str(), "+newyear") || eq_ignore_ascii_case(
        word.as_str(),
        "+new_year",
    ) {
        args.new_year = true;
    } else if eq_ignore_ascii_case(word.as_str(), "+score") {
        args.draw_score = true;
    } else if eq_ignore_ascii_case(word.as_str(), "+jp") || eq_ignore_ascii_case(
        word.as_str(),
        "+jpn",
    ) {
        args.region = Some("jpn".to_owned());
    } else if eq_ignore_ascii_case(word.as_str(), "help") {
        args.help = true;
    }
}

/// Reads the standard arguments out of a command's words.
pub fn extract_standard_args(words: &Vec<String>) -> (r: StandardArgs)
    ensures
        r@ == args_of(words@.map_values(|w: String| w@)),
{
    let mut args = StandardArgs {
        seed: None,
        cave: None,
        mode_251: false,
        new_year: false,
        draw_score: false,
        region: None,
        help: false,
    };
    let ghost all = words@.map_values(|w: String| w@);
    let mut i: usize = 0;
    while i < words.len()
        invariant
            i <= words@.len(),
            all == words@.map_values(|w: String| w@),
            args@ == args_of(all.take(i as int)),
        decreases words@.len() - i,
    {
        read_word(&mut args, &words[i]);
        assert(all.take(i + 1).drop_last() =~= all.take(i as int));
        i = i + 1;
    }
    assert(all.take(i as int) =~= all);
    args
}

} // verus!
