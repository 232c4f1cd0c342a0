//! The word classifier: maps each non-empty word to exactly one semantic
//! category, with a fixed precedence order across the categories.

use vstd::prelude::*;
use vstd::string::StrSliceExecFns;

use crate::keywords;
use crate::keywords::Keywords;
use crate::operators;
use crate::operators::Operators;
use crate::text::str_eq;

verus! {

/// Semantic category of a classified word. The text of literal and
/// identifier words is carried verbatim.
#[derive(Debug, PartialEq)]
pub enum Types {
    Nil,
    Number(String),
    StringLiteral(String),
    Keyword(Keywords),
    Operator(Operators),
    Value(String),
}

/// Mathematical mirror of `Types`, carrying word text as a sequence of
/// Unicode scalar values.
pub enum Category {
    Nil,
    Number(Seq<char>),
    StringLiteral(Seq<char>),
    Keyword(Keywords),
    Operator(Operators),
    Value(Seq<char>),
}

/// The category that a `Types` value denotes.
pub open spec fn type_model(t: Types) -> Category {
    match t {
        Types::Nil => Category::Nil,
        Types::Number(s) => Category::Number(s@),
        Types::StringLiteral(s) => Category::StringLiteral(s@),
        Types::Keyword(k) => Category::Keyword(k),
        Types::Operator(op) => Category::Operator(op),
        Types::Value(s) => Category::Value(s@),
    }
}

/// ASCII decimal digit test on a single scalar value.
pub open spec fn is_ascii_digit(c: char) -> bool {
    48 <= c as u32 && c as u32 <= 57
}

/// The classification of a word, with the precedence order fixed by the
/// language: the spelling `nil` first, then a leading digit, then the
/// keyword table, then the operator table, and identifiers as the
/// catch-all. Only the empty word has no classification.
pub open spec fn classify_model(w: Seq<char>) -> Option<Category> {
    if w.len() == 0 {
        None
    } else if w == "nil"@ {
        Some(Category::Nil)
    } else if is_ascii_digit(w[0]) {
        Some(Category::Number(w))
    } else if keywords::keyword_of(w) is Some {
        Some(Category::Keyword(keywords::keyword_of(w)->0))
    } else if operators::operator_of(w) is Some {
        Some(Category::Operator(operators::operator_of(w)->0))
    } else {
        Some(Category::Value(w))
    }
}

/// Classification totality: every non-empty word resolves to exactly one
/// category (`classify_model` is a function into `Some`), and only the
/// empty word yields no category.
pub proof fn lemma_classification_total(w: Seq<char>)
    ensures
        classify_model(w) is Some <==> w.len() > 0,
{
}

/// Classify one word. A word that begins with an ASCII decimal digit is
/// taken verbatim as a numeric literal, with no validation of the
/// remaining characters; a word that matches no table is an identifier.
pub fn get_type(word: &str) -> (r: Option<Types>)
    ensures
        r is None <==> word@.len() == 0,
        r matches Some(t) ==> Some(type_model(t)) == classify_model(word@),
{
    if word.unicode_len() == 0 {
        return None;
    }
    if str_eq(word, "nil") {
        return Some(Types::Nil);
    }
    let c = word.get_char(0);
    let code: u32 = c as u32;
    if 48 <= code && code <= 57 {
        return Some(Types::Number(word.to_owned()));
    }
    if let Some(k) = keywords::parse(word) {
        return Some(Types::Keyword(k));
    }
    if let Some(op) = operators::parse(word) {
        return Some(Types::Operator(op));
    }
    Some(Types::Value(word.to_owned()))
}

} // verus!
