//! Archive compression levels: the algorithm follows from the level.

use vstd::prelude::*;

verus! {

/// Compression level for exported archives; the extreme level switches the
/// algorithm.
#[derive(Debug, Clone, Copy, PartialEq, Eq, Structural)]
pub enum CompressionLevel {
    /// Fastest deflate.
    Fast,
    /// Default deflate.
    Medium,
    /// Best deflate.
    Maximum,
    /// Best block-sorting compression.
    Extreme,
}

impl CompressionLevel {
    /// Whether this level selects block-sorting compression.
    pub fn is_bzip2(&self) -> (r: bool)
        ensures
            r == (*self is Extreme),
    {
        matches!(self, CompressionLevel::Extreme)
    }

    /// The archive extension this level produces.
    pub fn extension(&self) -> (r: &'static str)
        ensures
            *self is Extreme ==> r@ == "tar.bz2"@,
            !(*self is Extreme) ==> r@ == "tar.gz"@,
    {
        if self.is_bzip2() {
            "tar.bz2"
        } else {
            "tar.gz"
        }
    }
}

} // verus!
