//! Errors the library reports.

use vstd::prelude::*;

use crate::text::owned;

verus! {

/// Why a cover could not be produced.
#[derive(Debug, Clone)]
pub enum CoverError {
    /// The downloaded bytes are not an image that could be decoded; the
    /// decoder's message is kept.
    ImageDecode(String),
    /// A GBA ROM whose header carries no game code, so its cover has no name.
    MissingGameId,
}

impl CoverError {
    /// The text shown for this error.
    pub fn message(&self) -> (r: String)
        ensures
            self matches CoverError::ImageDecode(m) ==> r@ == m@,
            self is MissingGameId ==> r@ == "No GBA ID"@,
    {
        match self {
            CoverError::ImageDecode(m) => m.clone(),
            CoverError::MissingGameId => owned("No GBA ID"),
        }
    }
}

} // verus!
