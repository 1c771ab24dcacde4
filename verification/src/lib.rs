//! Deduction engine for a clue-tracking board game assistant.
//!
//! Players record clues as disjunctions over elements of three categories
//! (weapons, locations, people), each element carrying a tri-state knowledge
//! value. The engine parses a textual clue into a validated expression tree,
//! decides whether a clue currently pins down a single unresolved element,
//! derives the logically forced state for that element, and re-evaluates all
//! stored clues against a registry snapshot.

pub mod cache;
pub mod element;
pub mod constraints;
pub mod scan;
pub mod tokenize;
pub mod tree;
