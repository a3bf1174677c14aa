//! What a run is told to do, and what follows from it before any tile is
//! requested.

use vstd::prelude::*;
use crate::fetch::Policy;
use crate::grid::{levels_of, valid_levels, Corners, Tiles};
use crate::url::UrlFormat;

verus! {

/// Bytes that one tile is taken to weigh when the size of a run is
/// estimated.
pub const BYTES_PER_TILE: u64 = 10_000;

/// Tile fetching configuration.
#[derive(Debug, PartialEq)]
pub struct Config {
    /// Whether to fetch tiles again that are already on disk.
    pub fetch_existing: bool,
    /// Maximum number of parallel downloads.
    pub fetch_rate: u8,
    /// How many times to retry a failed HTTP request.
    pub request_retries_amount: u8,
    /// The URL to download individual tiles from, with its tokens.
    pub url: UrlFormat,
    /// Timeout for fetching a single tile, in seconds. Zero disables the
    /// timeout.
    pub timeout: u64,
    /// The minimum zoom level to download.
    pub min_zoom: u8,
    /// The maximum zoom level to download.
    pub max_zoom: u8,
}

/// What is to be done about the output folder before a run.
#[derive(Clone, Copy, Debug, PartialEq, Eq, Structural)]
pub enum OutputFolder {
    /// It is a folder: nothing to do.
    Ready,
    /// Nothing is there: create it, with the folders above it.
    Create,
    /// Something is there that is no folder: the run cannot start.
    Blocked,
}

impl Config {
    /// Whether the zoom levels are 1 or above and in order.
    pub open spec fn zoom_in_order(&self) -> bool {
        1 <= self.min_zoom <= self.max_zoom
    }

    /// How many zoom levels the run covers, or `None` where the zoom levels
    /// are below 1 or out of order.
    pub fn zoom_levels(&self) -> (levels: Option<usize>)
        ensures
            match levels {
                Some(n) => self.zoom_in_order() && n == self.max_zoom - self.min_zoom + 1,
                None => !self.zoom_in_order(),
            },
    {
        if 1 <= self.min_zoom && self.min_zoom <= self.max_zoom {
            Some((self.max_zoom - self.min_zoom) as usize + 1)
        } else {
            None
        }
    }

    /// The enumeration of all tiles of the run, where `corners[i]` holds
    /// two opposite corners of the area at zoom level `min_zoom + i`.
    pub fn tiles(&self, corners: &Vec<Corners>) -> (tiles: Tiles)
        requires
            self.zoom_in_order(),
            corners.len() == self.max_zoom - self.min_zoom + 1,
        ensures
            tiles.levels() == levels_of(self.min_zoom, corners@),
            valid_levels(tiles.levels()),
            tiles.position() == 0,
    {
        Tiles::new(self.min_zoom, self.max_zoom, corners)
    }

    /// What a single download goes by.
    pub fn policy(&self) -> (policy: Policy)
        ensures
            policy == (Policy {
                retries: self.request_retries_amount,
                fetch_existing: self.fetch_existing,
            }),
    {
        Policy { retries: self.request_retries_amount, fetch_existing: self.fetch_existing }
    }

    /// The timeout to set on a request, in seconds, or `None` where
    /// requests are to wait without limit.
    pub fn request_timeout(&self) -> (seconds: Option<u64>)
        ensures
            self.timeout == 0 ==> seconds is None,
            self.timeout != 0 ==> seconds == Some(self.timeout),
    {
        if self.timeout == 0 {
            None
        } else {
            Some(self.timeout)
        }
    }
}

/// What is to be done about the output folder: it is created where
/// nothing exists at its path, used where a folder does, and stands in the
/// way of the run where something else does.
pub open spec fn folder_step(exists: bool, is_dir: bool) -> OutputFolder {
    if !exists {
        OutputFolder::Create
    } else if is_dir {
        OutputFolder::Ready
    } else {
        OutputFolder::Blocked
    }
}

/// What is to be done about the output folder, given whether anything
/// exists at its path and whether that is a folder.
pub fn output_folder(exists: bool, is_dir: bool) -> (step: OutputFolder)
    ensures
        step == folder_step(exists, is_dir),
{
    if !exists {
        OutputFolder::Create
    } else if is_dir {
        OutputFolder::Ready
    } else {
        OutputFolder::Blocked
    }
}

/// The zoom levels that a run covers, lowest and highest: `zoom` for both
/// where a single level is asked for, `min_zoom` and `max_zoom` otherwise.
pub fn zoom_range(zoom: Option<u8>, min_zoom: u8, max_zoom: u8) -> (range: (u8, u8))
    ensures
        zoom matches Some(level) ==> range == (level, level),
        zoom is None ==> range == (min_zoom, max_zoom),
{
    match zoom {
        Some(level) => (level, level),
        None => (min_zoom, max_zoom),
    }
}

/// The estimated size of `tile_count` tiles in bytes.
pub fn estimated_bytes(tile_count: usize) -> (bytes: u128)
    ensures
        bytes == tile_count * BYTES_PER_TILE,
{
    assert(tile_count * BYTES_PER_TILE <= u128::MAX) by (nonlinear_arith)
        requires
            tile_count <= u64::MAX,
            BYTES_PER_TILE == 10_000,
    ;
    (tile_count as u128) * (BYTES_PER_TILE as u128)
}

} // verus!
