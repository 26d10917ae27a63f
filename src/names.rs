//! Generated branch names and marker-file contents.
use vstd::prelude::*;
use crate::random::draw_digit;

verus! {

/// Number of random digits in a generated branch name.
pub const NAME_DIGITS: usize = 16;

/// Number of random digits in the marker file's content.
pub const MARKER_DIGITS: usize = 64;

pub open spec fn is_digit(c: char) -> bool {
    '0' <= c && c <= '9'
}

pub open spec fn all_digits(s: Seq<char>) -> bool {
    forall|i: int| 0 <= i < s.len() ==> is_digit(#[trigger] s[i])
}

/// `s` is `prefix` followed by exactly `n` decimal digits.
pub open spec fn is_prefixed_digits(s: Seq<char>, prefix: Seq<char>, n: nat) -> bool {
    &&& s.len() == prefix.len() + n
    &&& s.subrange(0, prefix.len() as int) == prefix
    &&& all_digits(s.subrange(prefix.len() as int, s.len() as int))
}

pub open spec fn branch_prefix() -> Seq<char> {
    "kickflip_"@
}

pub open spec fn marker_prefix() -> Seq<char> {
    "Kickflipping: "@
}

/// A generated branch name: `kickflip_` and sixteen decimal digits.
pub open spec fn is_branch_name(s: Seq<char>) -> bool {
    is_prefixed_digits(s, branch_prefix(), NAME_DIGITS as nat)
}

/// Content of the marker file: `Kickflipping: ` and sixty-four decimal digits.
pub open spec fn is_marker_content(s: Seq<char>) -> bool {
    is_prefixed_digits(s, marker_prefix(), MARKER_DIGITS as nat)
}

/// The one-character text of a decimal digit.
pub fn digit_text(d: u8) -> (r: &'static str)
    requires
        d <= 9,
    ensures
        r@ == seq![('0' as u8 + d) as char],
{
    proof {
        reveal_strlit("0");
        reveal_strlit("1");
        reveal_strlit("2");
        reveal_strlit("3");
        reveal_strlit("4");
        reveal_strlit("5");
        reveal_strlit("6");
        reveal_strlit("7");
        reveal_strlit("8");
        reveal_strlit("9");
    }
    match d {
        0 => "0",
        1 => "1",
        2 => "2",
        3 => "3",
        4 => "4",
        5 => "5",
        6 => "6",
        7 => "7",
        8 => "8",
        _ => "9",
    }
}

/// The decimal text of a sequence of digits, one character per digit.
pub open spec fn digits_text(digits: Seq<u8>) -> Seq<char> {
    digits.map_values(|d: u8| ('0' as u8 + d) as char)
}

pub open spec fn all_decimal(digits: Seq<u8>) -> bool {
    forall|i: int| 0 <= i < digits.len() ==> #[trigger] digits[i] <= 9
}

proof fn lemma_digits_text_digits(digits: Seq<u8>)
    requires
        all_decimal(digits),
    ensures
        all_digits(digits_text(digits)),
        digits_text(digits).len() == digits.len(),
{
    assert forall|i: int| 0 <= i < digits_text(digits).len() implies is_digit(
        #[trigger] digits_text(digits)[i],
    ) by {
        assert(digits[i] <= 9);
    }
}

/// Appends the decimal text of `digits` to `s`.
fn append_digits(s: &mut String, digits: &Vec<u8>)
    requires
        all_decimal(digits@),
    ensures
        final(s)@ == old(s)@ + digits_text(digits@),
{
    let ghost start = s@;
    let mut i: usize = 0;
    while i < digits.len()
        invariant
            start == old(s)@,
            all_decimal(digits@),
            i <= digits@.len(),
            s@ == start + digits_text(digits@.subrange(0, i as int)),
        decreases digits@.len() - i,
    {
        assert(digits@[i as int] <= 9);
        s.append(digit_text(digits[i]));
        assert(digits@.subrange(0, i + 1) =~= digits@.subrange(0, i as int).push(digits@[i as int]));
        assert(digits_text(digits@.subrange(0, i + 1)) =~= digits_text(
            digits@.subrange(0, i as int),
        ).push(('0' as u8 + digits@[i as int]) as char));
        i = i + 1;
    }
    assert(digits@.subrange(0, i as int) =~= digits@);
}

/// `n` random decimal digits, in the order they were drawn.
fn draw_digits(n: usize, rng: &mut rand::rngs::StdRng) -> (r: Vec<u8>)
    ensures
        r@.len() == n,
        all_decimal(r@),
{
    let mut r: Vec<u8> = Vec::new();
    let mut i: usize = 0;
    while i < n
        invariant
            i <= n,
            r@.len() == i,
            all_decimal(r@),
        decreases n - i,
    {
        r.push(draw_digit(rng));
        i = i + 1;
    }
    r
}

/// The branch name made of the fixed prefix and the given sixteen digits.
pub fn branch_name_of(digits: &Vec<u8>) -> (r: String)
    requires
        digits@.len() == NAME_DIGITS,
        all_decimal(digits@),
    ensures
        r@ == branch_prefix() + digits_text(digits@),
        is_branch_name(r@),
{
    let mut s = String::from_str("kickflip_");
    append_digits(&mut s, digits);
    proof {
        reveal_strlit("kickflip_");
        lemma_digits_text_digits(digits@);
        assert(s@.subrange(0, branch_prefix().len() as int) =~= branch_prefix());
        assert(s@.subrange(branch_prefix().len() as int, s@.len() as int) =~= digits_text(digits@));
    }
    s
}

/// The marker file's content made of the fixed prefix and the given
/// sixty-four digits.
pub fn marker_content_of(digits: &Vec<u8>) -> (r: String)
    requires
        digits@.len() == MARKER_DIGITS,
        all_decimal(digits@),
    ensures
        r@ == marker_prefix() + digits_text(digits@),
        is_marker_content(r@),
{
    let mut s = String::from_str("Kickflipping: ");
    append_digits(&mut s, digits);
    proof {
        reveal_strlit("Kickflipping: ");
        lemma_digits_text_digits(digits@);
        assert(s@.subrange(0, marker_prefix().len() as int) =~= marker_prefix());
        assert(s@.subrange(marker_prefix().len() as int, s@.len() as int) =~= digits_text(digits@));
    }
    s
}

/// A fresh branch name: the fixed prefix and sixteen random decimal digits.
pub fn gen_branch_name(rng: &mut rand::rngs::StdRng) -> (r: String)
    ensures
        is_branch_name(r@),
{
    let digits = draw_digits(NAME_DIGITS, rng);
    branch_name_of(&digits)
}

/// Random content for the marker file, so that each commit changes it.
pub fn gen_kickflip_content(rng: &mut rand::rngs::StdRng) -> (r: String)
    ensures
        is_marker_content(r@),
{
    let digits = draw_digits(MARKER_DIGITS, rng);
    marker_content_of(&digits)
}

} // verus!
