//! The error kinds that the viewer's operations can report.

use vstd::prelude::*;

verus! {

/// Everything that can go wrong in the viewer core.
///
/// `EmptyCatalog` covers both a scan that found no image files and an
/// operation attempted on an empty catalog. `MissingFile` means a delete
/// target vanished from disk before removal. `DecodeFailure` means image
/// bytes could not be interpreted. `ExternalToolFailure` means the wallpaper
/// helper process failed or could not be spawned. `PathNotFound` means the
/// startup argument does not exist.
#[derive(Clone, Copy, Debug, PartialEq, Eq, Structural)]
pub enum ViewerError {
    EmptyCatalog,
    MissingFile,
    DecodeFailure,
    ExternalToolFailure,
    PathNotFound,
}

impl ViewerError {
    /// A short diagnostic text for each error kind.
    pub fn describe(&self) -> (r: &'static str)
        ensures
            r@ == match self {
                ViewerError::EmptyCatalog => "no image files found"@,
                ViewerError::MissingFile => "image file does not exist"@,
                ViewerError::DecodeFailure => "image could not be decoded"@,
                ViewerError::ExternalToolFailure => "wallpaper tool failed"@,
                ViewerError::PathNotFound => "file or directory not found"@,
            },
    {
        match self {
            ViewerError::EmptyCatalog => "no image files found",
            ViewerError::MissingFile => "image file does not exist",
            ViewerError::DecodeFailure => "image could not be decoded",
            ViewerError::ExternalToolFailure => "wallpaper tool failed",
            ViewerError::PathNotFound => "file or directory not found",
        }
    }
}

} // verus!
