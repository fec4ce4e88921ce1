//! The stopword filter downstream tokenization applies to crawled text:
//! frequent English words that carry no search value are dropped before
//! indexing.

use vstd::prelude::*;

verus! {

use crate::strutil::str_eq;

/// The tokens the filter drops (tokenization upcases first).
pub open spec fn is_stopword_spec(token: Seq<char>) -> bool {
    ||| token == "A"@
    ||| token == "AN"@
    ||| token == "AND"@
    ||| token == "ARE"@
    ||| token == "AS"@
    ||| token == "AT"@
    ||| token == "BE"@
    ||| token == "BUT"@
    ||| token == "BY"@
    ||| token == "FOR"@
    ||| token == "IF"@
    ||| token == "IN"@
    ||| token == "INTO"@
    ||| token == "IS"@
    ||| token == "IT"@
    ||| token == "NO"@
    ||| token == "NOT"@
    ||| token == "OF"@
    ||| token == "ON"@
    ||| token == "OR"@
    ||| token == "SUCH"@
    ||| token == "THAT"@
    ||| token == "THE"@
    ||| token == "THEIR"@
    ||| token == "THEN"@
    ||| token == "THERE"@
    ||| token == "THESE"@
    ||| token == "THEY"@
    ||| token == "THIS"@
    ||| token == "TO"@
    ||| token == "WAS"@
    ||| token == "WILL"@
    ||| token == "WITH"@
}

/// Whether an upcased token is a stopword.
pub fn is_stopword(token: &str) -> (r: bool)
    ensures
        r == is_stopword_spec(token@),
{
    str_eq(token, "A")
        || str_eq(token, "AN")
        || str_eq(token, "AND")
        || str_eq(token, "ARE")
        || str_eq(token, "AS")
        || str_eq(token, "AT")
        || str_eq(token, "BE")
        || str_eq(token, "BUT")
        || str_eq(token, "BY")
        || str_eq(token, "FOR")
        || str_eq(token, "IF")
        || str_eq(token, "IN")
        || str_eq(token, "INTO")
        || str_eq(token, "IS")
        || str_eq(token, "IT")
        || str_eq(token, "NO")
        || str_eq(token, "NOT")
        || str_eq(token, "OF")
        || str_eq(token, "ON")
        || str_eq(token, "OR")
        || str_eq(token, "SUCH")
        || str_eq(token, "THAT")
        || str_eq(token, "THE")
        || str_eq(token, "THEIR")
        || str_eq(token, "THEN")
        || str_eq(token, "THERE")
        || str_eq(token, "THESE")
        || str_eq(token, "THEY")
        || str_eq(token, "THIS")
        || str_eq(token, "TO")
        || str_eq(token, "WAS")
        || str_eq(token, "WILL")
        || str_eq(token, "WITH")
}

} // verus!
