//! Catalog synchronization and ingestion core of a personal media-library
//! tracker: provider-result normalization, content-addressed artwork caching,
//! a catalog store facade with duplicate detection, the search-session state
//! machine, and the read-model row projections.
pub mod models;
pub mod artwork;
pub mod catalog;
pub mod controller;
pub mod jsonval;
pub mod provider;
pub mod rows;
pub mod session;
pub mod sorting;
pub mod text;
