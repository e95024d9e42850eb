//! Structural matching of code patterns against parsed syntax trees: kind matchers,
//! patterns with meta-variables, and searches over a tree's pre-order traversal.
pub mod tree;
pub mod language;
pub mod kinds;
pub mod meta_var;
pub mod matcher;
pub mod pattern;
pub mod kind;
pub mod any;
pub mod error;
