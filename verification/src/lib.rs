//! Slippy-map tile downloading, the verified core.
//!
//! The crate holds the parts of a tile downloader that decide something:
//! which tiles cover a rectangle of the tile grid at each zoom level and in
//! what order they are visited, how a tile's address is rendered from a URL
//! template, where a tile is stored, and how a single download proceeds
//! through existence check, request, rate-limit pause, retry and storage.
//! Performing the requests, touching the file system and projecting
//! geographic coordinates onto the grid are left to the caller.

pub mod config;
pub mod decimal;
pub mod fetch;
pub mod fixture;
pub mod grid;
pub mod text;
pub mod tile;
pub mod url;
pub mod validators;

pub use config::{estimated_bytes, output_folder, zoom_range, Config, OutputFolder};
pub use fetch::{Action, Download, Event, Outcome, Phase, Policy};
pub use fixture::Fixture;
pub use grid::{Corners, TileRange, Tiles};
pub use tile::Tile;
pub use url::{TemplateError, UrlFormat};
pub use validators::{is_bb_fixture, is_numeric, is_numeric_min, is_positive_u8, is_u8_min};
