//! Cover-art preparation for Pico flashcarts: ROM classification, cover
//! naming and placement, download URLs, conversion of downloaded art into
//! the 8-bit paletted BMP files that the DS launcher displays, and the state
//! of the cover window.

pub mod bmp;
pub mod converter;
pub mod downloader;
pub mod error;
pub mod gui;
pub mod plan;
pub mod scanner;
mod text;
pub mod utils;

use vstd::prelude::*;

verus! {

/// The program's options.
#[derive(Clone, Debug)]
pub struct Args {
    /// Run in the terminal instead of opening the window.
    pub cli: bool,
    /// Where ROMs are searched for.
    pub root: String,
    /// Replace covers that already exist.
    pub overwrite: bool,
    /// Comma-separated region list.
    pub regions: String,
    /// Number of ROMs processed at once; the machine's processor count when absent.
    pub threads: Option<usize>,
    /// Output image format.
    pub format: String,
}

impl Args {
    /// The number of ROMs processed at once: the number asked for, or
    /// `available` (the machine's processor count) when none was.
    pub fn worker_count(&self, available: usize) -> (r: usize)
        ensures
            r == match self.threads {
                Some(t) => t,
                None => available,
            },
    {
        match self.threads {
            Some(t) => t,
            None => available,
        }
    }
}

} // verus!
