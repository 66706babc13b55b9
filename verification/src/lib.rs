//! Extraction of a butterfly catalogue from the table markup of a fixed set of
//! pages, and the bookkeeping around it: joining a reference table, planning
//! and recording asset downloads, recording analysed colours, and freezing the
//! result into a snapshot.
//!
//! Everything here computes on plain values. Network and file access belong
//! to the caller, which hands in page text, download outcomes and service
//! replies, and receives plans and updated records.

pub mod assets;
pub mod butterfly;
pub mod butterfly_collector;
pub mod client;
pub mod cloud_vision;
pub mod constants;
pub mod csv_data;
pub mod documents;
pub mod errors;
pub mod image_loader;
pub mod legend;
pub mod ordering;
pub mod page;
pub mod pairing;
pub mod recording;
pub mod shape;
pub mod text;
pub mod webpage_parser;
pub mod width;

pub use butterfly::Butterfly;
pub use butterfly_collector::ButterflyCollector;
pub use client::Client;
pub use cloud_vision::Color;
pub use errors::ButterflyError;
pub use webpage_parser::WebpageParser;
