//! Randomised fictional character records, assembled from term dictionaries
//! by a fixed pipeline of feature generators.
//!
//! A dictionary hands out terms, with or without replacement. A generator
//! turns terms, or a pair of years, into one tagged feature value per call.
//! The pipeline holds one generator for each feature that the configuration
//! asks for and runs them once per character, in a fixed order, into a
//! builder that yields the character's record.

pub mod calendar;
pub mod chance;
pub mod character;
pub mod config;
pub mod decimal;
pub mod dictionary;
pub mod generator;
pub mod image;
pub mod pipeline;
pub mod term;
pub mod two_levels;
