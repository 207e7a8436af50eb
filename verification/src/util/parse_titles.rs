//! The errors of a listing reader that insists on exactly one
//! `.media-block-wrap` and exactly one link per block. This library has no
//! such reader: no function here returns this type, and the listing reader
//! in `app::parse_titles` never checks for a second wrap or a second link.
//! The type is kept for callers that report these errors.
use vstd::prelude::*;

verus! {

/// Why a listing page could not be read when it must hold exactly one wrap
/// and exactly one link per block.
#[derive(Debug)]
pub enum ParseTitlesError {
    ResponseError(String),
    BodyError(String),
    TooManyMediaBlockWrap,
    TooManyA,
    ANoTitle,
    ANoId,
}

} // verus!
