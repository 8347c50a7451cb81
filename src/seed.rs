//! Seeds written as text: `0x` followed by eight hexadecimal digits.
use vstd::prelude::*;

verus! {

pub open spec fn is_upper_hex_digit(c: char) -> bool {
    ('0' <= c && c <= '9') || ('A' <= c && c <= 'F')
}

pub open spec fn is_hex_digit(c: char) -> bool {
    is_upper_hex_digit(c) || ('a' <= c && c <= 'f')
}

/// The ten characters of `s` from position `i` are `0x` and eight digits;
/// with `any_case` the digits may be lower-case letters too.
pub open spec fn seed_text_at(s: Seq<char>, i: int, any_case: bool) -> bool {
    &&& 0 <= i
    &&& i + 10 <= s.len()
    &&& s[i] == '0'
    &&& s[i + 1] == 'x'
    &&& forall|j: int|
        i + 2 <= j < i + 10 ==> if any_case {
            is_hex_digit(#[trigger] s[j])
        } else {
            is_upper_hex_digit(s[j])
        }
}

/// `s` is exactly a seed in text form.
pub open spec fn is_seed_text(s: Seq<char>, any_case: bool) -> bool {
    s.len() == 10 && seed_text_at(s, 0, any_case)
}

/// Relies on regex::Regex::is_match with the pattern `0x[0-9A-F]{8}`: true iff
/// some ten consecutive characters of `s` are `0x` and eight characters among
/// 0-9 and A-F. The pattern is valid, so building it does not fail.
#[verifier::external_body]
fn contains_upper_seed(s: &str) -> (r: bool)
    ensures
        r == exists|i: int| seed_text_at(s@, i, false),
{
    regex::Regex::new(r"0x[0-9A-F]{8}").unwrap().is_match(s)
}

/// Relies on regex::Regex::is_match with the pattern `0x[0-9A-Fa-f]{8}`: true
/// iff some ten consecutive characters of `s` are `0x` and eight characters
/// among 0-9, A-F and a-f. The pattern is valid, so building it does not fail.
#[verifier::external_body]
fn contains_seed(s: &str) -> (r: bool)
    ensures
        r == exists|i: int| seed_text_at(s@, i, true),
{
    regex::Regex::new(r"0x[0-9A-Fa-f]{8}").unwrap().is_match(s)
}

/// Whether `seed` is exactly `0x` and eight digits or capitals A to F.
pub fn seed_valid(seed: &str) -> (r: bool)
    ensures
        r == is_seed_text(seed@, false),
{
    let found = contains_upper_seed(seed);
    let r = found && seed.unicode_len() == 10;
    proof {
        if r {
            let i = choose|i: int| seed_text_at(seed@, i, false);
            assert(i == 0);
        }
    }
    r
}

/// Whether `seed` is exactly `0x` and eight hexadecimal digits of either case.
pub fn match_seed(seed: &str) -> (r: bool)
    ensures
        r == is_seed_text(seed@, true),
{
    let found = contains_seed(seed);
    let r = found && seed.unicode_len() == 10;
    proof {
        if r {
            let i = choose|i: int| seed_text_at(seed@, i, true);
            assert(i == 0);
        }
    }
    r
}

/// The upper-case hexadecimal digit for `d`, which is below 16.
pub open spec fn hex_char(d: nat) -> char {
    if d < 10 {
        ('0' as nat + d) as char
    } else {
        ('A' as nat + (d - 10)) as char
    }
}

/// The last `count` hexadecimal digits of `n`, most significant first.
pub open spec fn hex_digits(n: nat, count: nat) -> Seq<char>
    decreases count,
{
    if count == 0 {
        Seq::empty()
    } else {
        hex_digits(n / 16, (count - 1) as nat).push(hex_char(n % 16))
    }
}

fn hex_digit(d: u32) -> (r: char)
    requires
        d < 16,
    ensures
        r == hex_char(d as nat),
{
    if d < 10 {
        ((d as u8) + 48) as char
    } else {
        ((d as u8) + 55) as char
    }
}

fn push_hex_digits(out: &mut String, n: u32, count: u32)
    ensures
        final(out)@ == old(out)@ + hex_digits(n as nat, count as nat),
    decreases count,
{
    if count > 0 {
        push_hex_digits(out, n / 16, count - 1);
        crate::text::push_char(out, hex_digit(n % 16));
        assert(hex_digits(n as nat, count as nat) == hex_digits((n / 16) as nat, (count - 1) as nat).push(hex_char((n % 16) as nat)));
    } else {
        assert(old(out)@ + hex_digits(n as nat, 0) =~= old(out)@);
    }
}

/// `seed` in text form: `0x` and eight upper-case hexadecimal digits.
pub fn format_seed(seed: u32) -> (r: String)
    ensures
        r@ == "0x"@ + hex_digits(seed as nat, 8),
        is_seed_text(r@, false),
{
    let mut out = "0x".to_owned();
    push_hex_digits(&mut out, seed, 8);
    proof {
        reveal_strlit("0x");
        lemma_hex_digits_upper(seed as nat, 8);
    }
    out
}

proof fn lemma_hex_digits_upper(n: nat, count: nat)
    ensures
        hex_digits(n, count).len() == count,
        forall|j: int| 0 <= j < count ==> is_upper_hex_digit(#[trigger] hex_digits(n, count)[j]),
    decreases count,
{
    if count > 0 {
        lemma_hex_digits_upper(n / 16, (count - 1) as nat);
    }
}

} // verus!
