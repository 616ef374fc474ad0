//! Input selection: the exact suffix of the input path picks the format.
//! `.osm` is plain XML, `.osm.gz` gzip-compressed, `.osm.bz2`
//! bzip2-compressed; anything else is a configuration error. The
//! decompression itself is the host's business; the library only decides.

use vstd::prelude::*;
use crate::bytestr::{ends_with, is_suffix_of};
use crate::model::OsmError;
use crate::names::{suffix_osm, suffix_osm_gz, suffix_osm_bz2, suffix_osm_bytes,
    suffix_osm_gz_bytes, suffix_osm_bz2_bytes};

verus! {

/// How the bytes of the input stream are wrapped.
#[derive(Clone, Copy, PartialEq, Eq, Structural, Debug)]
pub enum InputFormat {
    /// Plain XML (`.osm`).
    Plain,
    /// Gzip-compressed XML (`.osm.gz`).
    Gzip,
    /// Bzip2-compressed XML (`.osm.bz2`).
    Bzip2,
}

/// The format a path's suffix selects, or the configuration error.
pub open spec fn spec_classify_path(path: Seq<u8>) -> Result<InputFormat, OsmError> {
    if is_suffix_of(path, suffix_osm()) {
        Ok(InputFormat::Plain)
    } else if is_suffix_of(path, suffix_osm_gz()) {
        Ok(InputFormat::Gzip)
    } else if is_suffix_of(path, suffix_osm_bz2()) {
        Ok(InputFormat::Bzip2)
    } else {
        Err(OsmError::NotOsmFile)
    }
}

/// Picks the input format from the path's exact suffix.
pub fn classify_path(path: &[u8]) -> (r: Result<InputFormat, OsmError>)
    ensures
        r == spec_classify_path(path@),
{
    if ends_with(path, suffix_osm_bytes().as_slice()) {
        Ok(InputFormat::Plain)
    } else if ends_with(path, suffix_osm_gz_bytes().as_slice()) {
        Ok(InputFormat::Gzip)
    } else if ends_with(path, suffix_osm_bz2_bytes().as_slice()) {
        Ok(InputFormat::Bzip2)
    } else {
        Err(OsmError::NotOsmFile)
    }
}

} // verus!
