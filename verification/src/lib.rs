//! A photo catalog and developer: the catalog's records and the rules for
//! browsing, searching and importing, lens profile matching, image loading
//! and the memory layout of GPU readbacks.
use vstd::prelude::*;

pub mod text;
pub mod lens_match;
pub mod models;
pub mod paths;
pub mod catalog;
pub mod gpu_layout;
pub mod loader;
pub mod lens_xml;
pub mod export;
pub mod metadata;

verus! {
} // verus!
