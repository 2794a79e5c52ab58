//! Error taxonomy of the install pipeline.

use vstd::prelude::*;

verus! {

/// Every failure the pipeline can report.  Each variant carries a
/// human-readable detail; `Download` also carries the HTTP status.
#[derive(Clone, Debug)]
pub enum CommandError {
    /// A filesystem operation failed.
    Io(String),
    /// The destination directory could not be resolved.
    DirectoryResolution(String),
    /// The archive was corrupt or unreadable.
    Zip(String),
    /// A transport-level network failure.
    Network(String),
    /// A symlink or junction operation failed.
    Symlink(String),
    /// The server answered with a non-success HTTP status.
    Download { status_code: u16, message: String },
    /// Dispatching work to a background worker failed.
    TaskJoin(String),
    /// Invalid input, an unsafe archive path among it.
    Input(String),
    /// Moving an entry to the trash failed.
    TrashError(String),
}

impl CommandError {
    /// The printable form of the error: a fixed prefix naming the
    /// category, then the carried detail.
    pub fn message(&self) -> (r: String)
        ensures
            r@ == self.spec_message(),
    {
        match self {
            CommandError::Io(d) => prefixed("Filesystem Error: ", d.as_str()),
            CommandError::DirectoryResolution(d) => prefixed(
                "Directory Resolution Error: ",
                d.as_str(),
            ),
            CommandError::Zip(d) => prefixed("Zip Archive Error: ", d.as_str()),
            CommandError::Network(d) => prefixed("Network Error: ", d.as_str()),
            CommandError::Symlink(d) => prefixed("Symlink Operation Error: ", d.as_str()),
            CommandError::Download { status_code, message } => {
                let mut r = prefixed("Download Error: Status ", crate::numfmt::u64_to_dec(
                    *status_code as u64,
                ).as_str());
                r.append(" - ");
                r.append(message.as_str());
                r
            },
            CommandError::TaskJoin(d) => prefixed("Background Task Error: ", d.as_str()),
            CommandError::Input(d) => prefixed("Invalid Input or State: ", d.as_str()),
            CommandError::TrashError(d) => prefixed("Trash Error: ", d.as_str()),
        }
    }

    /// What `message` returns, spelled over character sequences.
    pub open spec fn spec_message(&self) -> Seq<char> {
        match self {
            CommandError::Io(d) => "Filesystem Error: "@ + d@,
            CommandError::DirectoryResolution(d) => "Directory Resolution Error: "@ + d@,
            CommandError::Zip(d) => "Zip Archive Error: "@ + d@,
            CommandError::Network(d) => "Network Error: "@ + d@,
            CommandError::Symlink(d) => "Symlink Operation Error: "@ + d@,
            CommandError::Download { status_code, message } => "Download Error: Status "@
                + crate::numfmt::spec_dec(*status_code as nat) + " - "@ + message@,
            CommandError::TaskJoin(d) => "Background Task Error: "@ + d@,
            CommandError::Input(d) => "Invalid Input or State: "@ + d@,
            CommandError::TrashError(d) => "Trash Error: "@ + d@,
        }
    }
}

/// `prefix` followed by `detail`, as one owned string.
pub fn prefixed(prefix: &str, detail: &str) -> (r: String)
    ensures
        r@ == prefix@ + detail@,
{
    let mut r = prefix.to_owned();
    r.append(detail);
    r
}

/// A `Result` whose error side is the pipeline's taxonomy.
pub type CommandResult<T> = Result<T, CommandError>;

} // verus!
