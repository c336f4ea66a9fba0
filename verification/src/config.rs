//! Configuration for the stash tool: durable settings with their
//! documented defaults.

use vstd::prelude::*;
use crate::item::opt_view;

verus! {

/// Policy for handling name conflicts in the stash.
#[derive(Debug, Clone, Copy, PartialEq, Eq, Structural)]
pub enum ConflictPolicy {
    /// Abort the operation if a conflict exists.
    Abort,
    /// Automatically rename the stashed item to avoid the conflict.
    Rename,
    /// Overwrite the existing stashed item.
    Overwrite,
    /// Ask interactively.
    Prompt,
}

/// Compression level for stash entries.
#[derive(Debug, Clone, Copy, PartialEq, Eq, Structural)]
pub enum CompressionLevel {
    /// No compression.
    Uncompressed,
    /// Fastest, minimal compression.
    Fast,
    /// Balanced speed and size.
    Medium,
    /// Maximum compression, slower.
    Maximum,
}

/// What to do when path existence leaves the operation ambiguous.
#[derive(Debug, Clone, Copy, PartialEq, Eq, Structural)]
pub enum AmbiguityMode {
    /// Ask interactively.
    Ask,
    /// Prefer stashing.
    PreferPush,
    /// Prefer restoring.
    PreferPop,
}

/// Durable settings.
#[derive(Debug)]
pub struct Config {
    /// Where the store lives; relative to the home directory by default.
    pub stash_dir: String,
    /// The default age, in days, for cleaning old entries.
    pub clean_days: u64,
    /// Warn when an entry exceeds this many megabytes.
    pub warn_size_mb: u64,
    /// What to do on ambiguous input.
    pub ambiguity_mode: AmbiguityMode,
    /// Reapply modification times after relocation.
    pub preserve_mtime: bool,
    /// Hash file contents when stashing.
    pub verify_integrity: bool,
    /// Follow symlinks instead of capturing them.
    pub follow_symlinks: bool,
    /// How dates are rendered in listings.
    pub date_format: String,
    /// Show sizes in listings.
    pub show_sizes: bool,
    /// Compress entries on disk.
    pub compress_entries: bool,
    /// The level used when compressing.
    pub compression_level: CompressionLevel,
}

impl Default for Config {
    /// The documented defaults: a hidden store, thirty-day cleaning,
    /// integrity checks on, symlinks captured as symlinks.
    fn default() -> (r: Config)
        ensures
            r.stash_dir@ == ".stash"@,
            r.clean_days == 30,
            r.warn_size_mb == 100,
            r.ambiguity_mode is Ask,
            r.preserve_mtime,
            r.verify_integrity,
            !r.follow_symlinks,
            r.date_format@ == "%Y-%m-%d %H:%M"@,
            r.show_sizes,
            !r.compress_entries,
            r.compression_level is Medium,
    {
        Config {
            stash_dir: ".stash".to_owned(),
            clean_days: 30,
            warn_size_mb: 100,
            ambiguity_mode: AmbiguityMode::Ask,
            preserve_mtime: true,
            verify_integrity: true,
            follow_symlinks: false,
            date_format: "%Y-%m-%d %H:%M".to_owned(),
            show_sizes: true,
            compress_entries: false,
            compression_level: CompressionLevel::Medium,
        }
    }
}

} // verus!
