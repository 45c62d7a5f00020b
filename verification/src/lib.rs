//! A tokenizer for a small JavaScript-like language.
//!
//! [`tokenizer::Tokenizer`] turns a source text into a flat sequence of
//! [`token::Token`]s: keywords, identifiers, operators, punctuators and
//! integer literals, each with the line and the columns where it stands.
//! What that sequence is for every source text is defined in [`scan`], the
//! tables and classification rules in [`classifier`], and what follows from
//! the definitions is proved in [`laws`].

pub mod classifier;
pub mod laws;
pub mod scan;
pub mod text;
pub mod token;
pub mod tokenizer;
