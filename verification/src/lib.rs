//! Lexical front end for a small interpreted language: a bidirectional
//! character cursor over decoded source text, a word classifier with a
//! fixed precedence order, and a tokenizer that pulls classified tokens
//! out of the text one at a time.

pub mod keywords;
pub mod operators;
pub mod reader;
pub mod text;
pub mod tokenizer;
pub mod types;
