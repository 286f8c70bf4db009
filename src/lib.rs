//! Grammar matching by recursive backtracking.
//!
//! A grammar ([`components::regex::Regex`]) is an ordered list of components
//! ([`components::items::RegexComponent`]); a parser
//! ([`parser::naive_parser::NaiveParser`]) holds candidate grammars and splits an
//! input into the tokens of the one grammar that matches all of it.
pub mod components;
pub mod parser;
