//! The keyword table: a pure lookup from exact spellings to keyword tags.

use vstd::prelude::*;

use crate::text::str_eq;

verus! {

/// The closed set of keywords of the language.
#[derive(Clone, Copy, Debug, PartialEq, Eq)]
pub enum Keywords {
    Function,
    If,
    Else,
    While,
    For,
    Do,
}

/// The keyword, if any, spelled exactly by the word `w`.
pub open spec fn keyword_of(w: Seq<char>) -> Option<Keywords> {
    if w == "def"@ {
        Some(Keywords::Function)
    } else if w == "if"@ {
        Some(Keywords::If)
    } else if w == "else"@ {
        Some(Keywords::Else)
    } else if w == "while"@ {
        Some(Keywords::While)
    } else if w == "for"@ {
        Some(Keywords::For)
    } else if w == "do"@ {
        Some(Keywords::Do)
    } else {
        None
    }
}

/// Exact lookup of a word in the keyword table: no partial matching and
/// no case folding.
pub fn parse(word: &str) -> (r: Option<Keywords>)
    ensures
        r == keyword_of(word@),
{
    if str_eq(word, "def") {
        Some(Keywords::Function)
    } else if str_eq(word, "if") {
        Some(Keywords::If)
    } else if str_eq(word, "else") {
        Some(Keywords::Else)
    } else if str_eq(word, "while") {
        Some(Keywords::While)
    } else if str_eq(word, "for") {
        Some(Keywords::For)
    } else if str_eq(word, "do") {
        Some(Keywords::Do)
    } else {
        None
    }
}

} // verus!
