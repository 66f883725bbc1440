//! The verified decision logic behind the book endpoints of a novel reader.
use vstd::prelude::*;

pub mod text;
pub mod model;
pub mod keyset;
pub mod local;
pub mod urls;
pub mod requests;
pub mod available;
pub mod shelf;
pub mod relevance;
pub mod search;
pub mod explore;
pub mod numbers;
pub mod form;
pub mod reading;
pub mod scan;
pub mod explore_scan;
pub mod routes;
pub mod events;
pub mod resolve;
pub mod debug;
pub mod query;
pub mod subscription;
pub mod candidates;

verus! {
} // verus!
