//! The starting branch of a run, read from the version-control tool's report
//! of the current branch.
use vstd::prelude::*;
use crate::pool::KickflipError;

verus! {

/// A character with the Unicode White_Space property.
pub open spec fn is_white_space(c: char) -> bool {
    ||| '\u{9}' <= c && c <= '\u{d}'
    ||| c == ' '
    ||| c == '\u{85}'
    ||| c == '\u{a0}'
    ||| c == '\u{1680}'
    ||| '\u{2000}' <= c && c <= '\u{200a}'
    ||| c == '\u{2028}'
    ||| c == '\u{2029}'
    ||| c == '\u{202f}'
    ||| c == '\u{205f}'
    ||| c == '\u{3000}'
}

/// `s` without its leading whitespace.
pub open spec fn trim_start(s: Seq<char>) -> Seq<char>
    decreases s.len(),
{
    if s.len() > 0 && is_white_space(s[0]) {
        trim_start(s.drop_first())
    } else {
        s
    }
}

/// `s` without its trailing whitespace.
pub open spec fn trim_end(s: Seq<char>) -> Seq<char>
    decreases s.len(),
{
    if s.len() > 0 && is_white_space(s.last()) {
        trim_end(s.drop_last())
    } else {
        s
    }
}

/// `s` without its leading and trailing whitespace.
pub open spec fn trimmed(s: Seq<char>) -> Seq<char> {
    trim_end(trim_start(s))
}

/// Relies on `str::trim`: the text without its leading and trailing
/// characters of the Unicode White_Space property.
#[verifier::external_body]
fn trim_text(s: &str) -> (r: &str)
    ensures
        r@ == trimmed(s@),
{
    s.trim()
}

/// The current branch, given the report once trimmed: an empty report means
/// that the working copy is on no branch.
pub fn branch_from_trimmed(t: &str) -> (r: Result<String, KickflipError>)
    ensures
        t@.len() == 0 <==> r == Err::<String, KickflipError>(KickflipError::NotInBranch),
        t@.len() > 0 <==> r is Ok,
        r is Ok ==> r->Ok_0@ == t@,
{
    if t.unicode_len() == 0 {
        Err(KickflipError::NotInBranch)
    } else {
        Ok(String::from_str(t))
    }
}

/// The current branch, given the tool's report of it (`git branch
/// --show-current`).
pub fn get_current_branch(report: &str) -> (r: Result<String, KickflipError>)
    ensures
        trimmed(report@).len() == 0 <==> r == Err::<String, KickflipError>(
            KickflipError::NotInBranch,
        ),
        trimmed(report@).len() > 0 <==> r is Ok,
        r is Ok ==> r->Ok_0@ == trimmed(report@),
{
    branch_from_trimmed(trim_text(report))
}

/// Whether the report names a branch.
pub fn is_in_branch(report: &str) -> (r: Result<(), KickflipError>)
    ensures
        trimmed(report@).len() == 0 <==> r == Err::<(), KickflipError>(KickflipError::NotInBranch),
        trimmed(report@).len() > 0 <==> r is Ok,
{
    match get_current_branch(report) {
        Ok(_) => Ok(()),
        Err(e) => Err(e),
    }
}

/// The branch a run starts from: the one asked for, else the current one.
/// Either way the working copy must be on some branch.
pub fn starting_branch(requested: Option<String>, report: &str) -> (r: Result<String, KickflipError>)
    ensures
        trimmed(report@).len() == 0 <==> r == Err::<String, KickflipError>(
            KickflipError::NotInBranch,
        ),
        trimmed(report@).len() > 0 <==> r is Ok,
        r is Ok && requested is Some ==> r->Ok_0 == requested->Some_0,
        r is Ok && requested is None ==> r->Ok_0@ == trimmed(report@),
{
    let current = match get_current_branch(report) {
        Ok(b) => b,
        Err(e) => {
            return Err(e);
        },
    };
    match requested {
        Some(b) => Ok(b),
        None => Ok(current),
    }
}

} // verus!
