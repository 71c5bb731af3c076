//! The words that are operators.

use vstd::prelude::*;

verus! {

/// The words that the shell reads as operators rather than as arguments.
pub open spec fn is_reserved(token: Seq<char>) -> bool {
    ||| token == "&&"@
    ||| token == "||"@
    ||| token == "|"@
    ||| token == ">"@
    ||| token == ">>"@
    ||| token == ";"@
}

/// Tells whether `token` is one of the shell's operators.
pub fn reserved(token: &str) -> (r: bool)
    ensures
        r == is_reserved(token@),
{
    token.eq("&&") || token.eq("||") || token.eq("|") || token.eq(">") || token.eq(">>")
        || token.eq(";")
}

} // verus!
