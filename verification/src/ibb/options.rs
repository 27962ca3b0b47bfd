//! Where album downloads go and how their files are named.
use vstd::prelude::*;

use super::name_generator::AlbumFileNameMode;
use crate::text::owned;

verus! {

/// The options of an ImgBB download run.
#[derive(Clone, Debug, PartialEq, Eq)]
pub struct IbbSpiderOptions {
    /// The directory under which each album gets its own directory.
    pub base_path: String,
    /// How the files of an album are named.
    pub file_name_mode: AlbumFileNameMode,
}

impl Default for IbbSpiderOptions {
    /// The current directory, with original file names.
    fn default() -> (o: Self)
        ensures
            o.base_path@ == "."@,
            o.file_name_mode == AlbumFileNameMode::PreserveOriginal,
    {
        IbbSpiderOptions { base_path: owned("."), file_name_mode: AlbumFileNameMode::PreserveOriginal }
    }
}

impl IbbSpiderOptions {
    /// Sets the base directory of downloads.
    pub fn with_base_path(self, base_path: &str) -> (o: Self)
        ensures
            o.base_path@ == base_path@,
            o.file_name_mode == self.file_name_mode,
    {
        IbbSpiderOptions { base_path: owned(base_path), ..self }
    }

    /// Names files by a counting pattern.
    pub fn with_file_name_pattern(self, pattern: &str) -> (o: Self)
        ensures
            o.base_path == self.base_path,
            o.file_name_mode matches AlbumFileNameMode::CountPattern(p) && p@ == pattern@,
    {
        IbbSpiderOptions { file_name_mode: AlbumFileNameMode::CountPattern(owned(pattern)), ..self }
    }
}

} // verus!
