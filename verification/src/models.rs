//! Shared data structures of the install pipeline.

use vstd::prelude::*;
use crate::pathseg::{spec_components, spec_usable_name};

verus! {

/// Metadata of one archive entry, as handed in by the archive reader:
/// the stored path (with `/` separators), whether the entry is a
/// directory, and its uncompressed size in bytes.
#[derive(Clone, Debug)]
pub struct ArchiveEntry {
    pub path: String,
    pub is_directory: bool,
    pub uncompressed_size: u64,
}

impl ArchiveEntry {
    /// The entry's path, as a sequence of components.
    pub open spec fn comps(&self) -> Seq<Seq<char>> {
        spec_components(self.path@)
    }
}

/// How one archive is to be unpacked: the directory created under the
/// destination, and the single wrapping component stripped from every
/// entry, if there is one.
#[derive(Clone, Debug)]
pub struct ExtractionPlan {
    pub target_directory_name: String,
    pub root_to_strip: Option<String>,
}

impl ExtractionPlan {
    /// A well-formed plan names a usable directory, and any stripped
    /// root is itself a single usable component.
    pub open spec fn wf(&self) -> bool {
        &&& spec_usable_name(self.target_directory_name@)
        &&& match self.root_to_strip {
            Some(r) => spec_usable_name(r@),
            None => true,
        }
    }
}

/// The steps an install passes through.  The sequence is
/// `Downloading`, then `Extracting` or `Saving`, then `Complete`;
/// `Error` is terminal from anywhere.
#[derive(Clone, Copy, Debug, PartialEq, Eq, Structural)]
pub enum InstallStep {
    Downloading,
    Extracting,
    Saving,
    Complete,
    Error,
}

impl InstallStep {
    /// The wire label of the step.
    pub fn label(&self) -> (r: &'static str)
        ensures
            r@ == self.spec_label(),
    {
        match self {
            InstallStep::Downloading => "downloading",
            InstallStep::Extracting => "extracting",
            InstallStep::Saving => "saving",
            InstallStep::Complete => "complete",
            InstallStep::Error => "error",
        }
    }

    /// The wire label, at the specification level.
    pub open spec fn spec_label(&self) -> Seq<char> {
        match self {
            InstallStep::Downloading => "downloading"@,
            InstallStep::Extracting => "extracting"@,
            InstallStep::Saving => "saving"@,
            InstallStep::Complete => "complete"@,
            InstallStep::Error => "error"@,
        }
    }

    /// Position of the step in the forward order of the pipeline.
    pub open spec fn rank(&self) -> int {
        match self {
            InstallStep::Downloading => 0,
            InstallStep::Extracting => 1,
            InstallStep::Saving => 1,
            InstallStep::Complete => 2,
            InstallStep::Error => 2,
        }
    }

    /// Whether the install has reached a terminal step.
    pub open spec fn is_terminal(&self) -> bool {
        self is Complete || self is Error
    }
}

/// One progress record, emitted repeatedly during an install.
/// `percent` is the progress within the current step, scaled to
/// 0..=100.
#[derive(Clone, Debug)]
pub struct InstallationProgress {
    pub step: InstallStep,
    pub percent: u8,
    pub message: String,
    pub source: String,
}

/// The terminal value of one install.
#[derive(Clone, Debug)]
pub struct InstallationResult {
    pub success: bool,
    pub message: String,
    pub final_path: Option<String>,
    pub source: String,
}

/// Whether a directory listing found its directory, and whether the
/// directory held anything.
#[derive(Clone, Copy, Debug, PartialEq, Eq, Structural)]
pub enum ListingStatus {
    ExistsAndPopulated,
    ExistsAndEmpty,
    DoesNotExist,
}

/// One entry of a directory listing.
#[derive(Clone, Debug)]
pub struct FsEntry {
    pub name: Option<String>,
    pub path: String,
    pub is_directory: bool,
    pub size: Option<u64>,
    pub modified: Option<u64>,
    pub thumbnail_path: Option<String>,
    pub thumbnail_mime_type: Option<String>,
}

/// The outcome of listing a directory.
#[derive(Clone, Debug)]
pub struct DirectoryListingResult {
    pub status: ListingStatus,
    pub entries: Vec<FsEntry>,
    pub path: String,
}

} // verus!
