//! What holds of the parts of a program by themselves: where they stand and what they are called.
use vstd::prelude::*;
use vstd::utf8::encode_utf8;

use crate::ast::{Signature, SubrSignature, VarPattern, VarSignature};
use crate::error::Location;
use crate::text::{decimal, lambda_name};
use crate::token::Token;

verus! {

/// The first and the last line of a place, where it is known.
pub open spec fn lines(loc: Location) -> Option<(usize, usize)> {
    match loc {
        Location::RangePair { ln_begin, ln_end, .. } => Some((ln_begin, ln_end)),
        Location::Range { ln_begin, ln_end, .. } => Some((ln_begin, ln_end)),
        Location::LineRange(ln_begin, ln_end) => Some((ln_begin, ln_end)),
        Location::Line(lineno) => Some((lineno, lineno)),
        Location::Unknown => None,
    }
}

/// The columns of a place, where it is one range.
pub open spec fn columns(loc: Location) -> Option<(usize, usize)> {
    match loc {
        Location::Range { col_begin, col_end, .. } => Some((col_begin, col_end)),
        _ => None,
    }
}

/// A place from one to another begins where the first does and ends where the second does. If one
/// of them is not known, it is the line of the other. It has columns just if both have.
pub proof fn places_reach_from_the_first_to_the_last(first: Location, last: Location)
    ensures
        ({
            let whole = first.through(last);
            &&& match (lines(first), lines(last)) {
                (Some((begin, _)), Some((_, end))) => lines(whole) == Some((begin, end)),
                (Some((begin, _)), None) => whole == Location::Line(begin),
                (None, Some((_, end))) => whole == Location::Line(end),
                (None, None) => whole is Unknown,
            }
            &&& match (columns(first), columns(last)) {
                (Some((begin, _)), Some((_, end))) => columns(whole) == Some((begin, end)),
                _ => columns(whole) is None,
            }
        }),
{
}

/// A token of a source stands on its line, from its first column over as many as its text has
/// bytes. One that stands in no source has no place.
pub proof fn tokens_stand_on_their_line(token: Token)
    ensures
        token.lineno == 0 ==> token.place() is Unknown,
        token.lineno > 0 ==> {
            &&& lines(token.place()) == Some((token.lineno, token.lineno))
            &&& columns(token.place()) matches Some((begin, end)) && begin == token.col_begin && (
            token.col_begin + encode_utf8(token.content@).len() <= usize::MAX ==> end
                == token.col_begin + encode_utf8(token.content@).len())
        },
{
}

/// The signature of a subroutine begins at its name and ends at the last of its parts.
pub proof fn subroutine_signatures_reach_over_their_parts(sig: SubrSignature)
    ensures
        sig.name.lineno > 0 ==> {
            &&& lines(sig.place()) == Some(
                (
                    sig.name.lineno,
                    match lines(sig.end_loc) {
                        Some((_, end)) => end,
                        None => sig.name.lineno,
                    },
                ),
            )
            &&& columns(sig.end_loc) matches Some((_, end)) ==> columns(sig.place()) == Some(
                (sig.name.col_begin, end),
            )
        },
{
}

/// The signature of a variable is its name and, if its type is written, reaches to the end of that.
pub proof fn variable_signatures_reach_over_their_parts(sig: VarSignature, name: Token)
    requires
        sig.pat == VarPattern::VarName(name) || sig.pat == VarPattern::SelfDot(name),
        name.lineno > 0,
    ensures
        sig.t_spec is None ==> sig.place() == name.place(),
        sig.t_spec is Some ==> {
            &&& lines(sig.place()) == Some(
                (
                    name.lineno,
                    match lines(sig.t_spec_loc) {
                        Some((_, end)) => end,
                        None => name.lineno,
                    },
                ),
            )
            &&& columns(sig.t_spec_loc) matches Some((_, end)) ==> columns(sig.place()) == Some(
                (name.col_begin, end),
            )
        },
{
}

/// A plain name and an attribute of `self` name a variable, and no other pattern does; a subroutine
/// always has a name.
pub proof fn patterns_are_named(pat: VarPattern, sig: Signature)
    ensures
        pat matches VarPattern::VarName(name) ==> pat.name_token() == Some(name),
        pat matches VarPattern::SelfDot(name) ==> pat.name_token() == Some(name),
        !(pat is VarName) && !(pat is SelfDot) ==> pat.name_token() is None,
        sig matches Signature::Subr(subr) ==> sig.name_token() == Some(subr.name),
        sig matches Signature::Var(var) ==> sig.name_token() == var.pat.name_token(),
{
}

/// Whether a text is made of decimal digits.
pub open spec fn all_digits(text: Seq<char>) -> bool {
    forall|i: int| 0 <= i < text.len() ==> '0' <= #[trigger] text[i] <= '9'
}

/// The number that decimal digits stand for.
pub open spec fn number(text: Seq<char>) -> int
    decreases text.len(),
{
    if text.len() == 0 {
        0
    } else {
        10 * number(text.drop_last()) + (text.last() as int - '0' as int)
    }
}

/// A number is written in decimal digits that stand for it, without a zero before others.
pub proof fn numbers_are_written_out(n: nat)
    ensures
        all_digits(decimal(n)),
        number(decimal(n)) == n,
        decimal(n).len() > 0,
        decimal(n).len() > 1 ==> decimal(n)[0] != '0',
    decreases n,
{
    reveal_with_fuel(number, 2);
    if n < 10 {
        assert(decimal(n).drop_last().len() == 0);
    } else {
        numbers_are_written_out(n / 10);
        assert(decimal(n).drop_last() =~= decimal(n / 10));
        if decimal(n / 10).len() == 1 {
            assert(number(decimal(n / 10).drop_last()) == 0) by {
                assert(decimal(n / 10).drop_last().len() == 0);
            }
        }
    }
}

/// The scopes of two lambdas have the same name only if the lambdas have the same id.
pub proof fn lambdas_are_told_apart_by_name(id: usize, other: usize)
    ensures
        lambda_name(id) == lambda_name(other) ==> id == other,
        lambda_name(id).subrange(8, lambda_name(id).len() - 1) == decimal(id as nat),
{
    reveal_strlit("<lambda_");
    reveal_strlit(">");
    let a = lambda_name(id);
    let b = lambda_name(other);
    assert(a.subrange(8, a.len() - 1) =~= decimal(id as nat));
    assert(b.subrange(8, b.len() - 1) =~= decimal(other as nat));
    numbers_are_written_out(id as nat);
    numbers_are_written_out(other as nat);
}

} // verus!
