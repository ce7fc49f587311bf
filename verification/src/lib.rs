//! Build-time catalog pipeline for a European product directory, with the
//! runtime lookup structures the client application consumes.

pub mod catalog;
pub mod codegen;
pub mod country;
pub mod dom;
pub mod error;
pub mod executor;
pub mod extract;
pub mod icons;
pub mod model;
pub mod ordered_map;
pub mod pipeline;
pub mod populate;
pub mod repository;
pub mod resources;
pub mod search;
pub mod text;
pub mod ui;
pub mod urls;
