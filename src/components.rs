//! The building blocks of grammars.
pub mod items;
pub mod regex;
