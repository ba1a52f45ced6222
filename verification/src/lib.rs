//! Conflict analysis for crossword-style word layouts.
//!
//! Given a set of words placed on an integer grid, the analyzer finds every
//! pairwise geometric or content conflict, classifies it by kind, and derives
//! the perimeter-offset interval along each word's outline where the conflict
//! should be highlighted.

pub mod analyzer;

pub mod compatibility;

pub mod conflict_index;

pub mod occupancy;

pub mod spans;

pub mod color_rgba;

pub mod settings;

pub mod word;
