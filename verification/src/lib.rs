//! Parser for the jazzy language: tokens in, an arena-allocated syntax tree out.

pub mod token;
pub mod types;
pub mod outside;
pub mod nodes;
pub mod ast;
pub mod literal;
pub mod error;
pub mod grammar;
pub mod denote;
pub mod parser;
pub mod text;
pub mod display;
pub mod outline;
pub mod traversal;
pub mod printed;
pub mod precedence;
pub mod checked;
pub mod spelling;
