//! The operator table: a pure lookup from exact spellings to operator tags.

use vstd::prelude::*;

use crate::text::str_eq;

verus! {

/// The closed set of operators of the language. Multi-character
/// spellings such as `+=` are single indivisible words, never composed
/// from adjacent shorter operators.
#[derive(Clone, Copy, Debug, PartialEq, Eq)]
pub enum Operators {
    Plus,
    Minus,
    Mul,
    Div,
    PlusPlus,
    Equal,
    PlusEqual,
    MinusEqual,
}

/// The operator, if any, spelled exactly by the word `w`.
pub open spec fn operator_of(w: Seq<char>) -> Option<Operators> {
    if w == "+"@ {
        Some(Operators::Plus)
    } else if w == "-"@ {
        Some(Operators::Minus)
    } else if w == "*"@ {
        Some(Operators::Mul)
    } else if w == "/"@ {
        Some(Operators::Div)
    } else if w == "++"@ {
        Some(Operators::PlusPlus)
    } else if w == "="@ {
        Some(Operators::Equal)
    } else if w == "+="@ {
        Some(Operators::PlusEqual)
    } else if w == "-="@ {
        Some(Operators::MinusEqual)
    } else {
        None
    }
}

/// Exact lookup of a word in the operator table.
pub fn parse(word: &str) -> (r: Option<Operators>)
    ensures
        r == operator_of(word@),
{
    if str_eq(word, "+") {
        Some(Operators::Plus)
    } else if str_eq(word, "-") {
        Some(Operators::Minus)
    } else if str_eq(word, "*") {
        Some(Operators::Mul)
    } else if str_eq(word, "/") {
        Some(Operators::Div)
    } else if str_eq(word, "++") {
        Some(Operators::PlusPlus)
    } else if str_eq(word, "=") {
        Some(Operators::Equal)
    } else if str_eq(word, "+=") {
        Some(Operators::PlusEqual)
    } else if str_eq(word, "-=") {
        Some(Operators::MinusEqual)
    } else {
        None
    }
}

} // verus!
