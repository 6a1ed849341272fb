//! Narrowing a list of events to the ones that suit one person: by completeness of
//! the record, travel time and distance, relevance to stated interests, and price.

pub mod config;
pub mod distance;
pub mod error;
pub mod event;
pub mod filter;
pub mod good_data;
pub mod guarantees;
pub mod interests;
pub mod json;
pub mod lists;
pub mod listing;
pub mod maps;
pub mod price;
pub mod schedule;
pub mod text;
