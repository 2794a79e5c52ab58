//! Content sniffing: decide whether downloaded bytes are a ZIP archive.

use vstd::prelude::*;

verus! {

/// How the pipeline treats a downloaded byte stream.
#[derive(Clone, Copy, Debug, PartialEq, Eq, Structural)]
pub enum ContentKind {
    /// The bytes begin with the PKZIP local-file-header magic.
    Zip,
    /// Anything else, including streams shorter than four bytes.
    Opaque,
}

/// The PKZIP local-file-header magic: `50 4B 03 04` ("PK\x03\x04").
pub open spec fn spec_is_zip_magic(bytes: Seq<u8>) -> bool {
    bytes.len() >= 4 && bytes[0] == 0x50u8 && bytes[1] == 0x4bu8 && bytes[2] == 0x03u8
        && bytes[3] == 0x04u8
}

/// Classify the first bytes of a download.  `Zip` exactly when the
/// stream starts with the 4-byte PKZIP magic; fewer than four bytes
/// always classify as `Opaque`.
pub fn sniff_content(bytes: &[u8]) -> (kind: ContentKind)
    ensures
        kind == ContentKind::Zip <==> spec_is_zip_magic(bytes@),
{
    if bytes.len() >= 4 && bytes[0] == 0x50u8 && bytes[1] == 0x4bu8 && bytes[2] == 0x03u8
        && bytes[3] == 0x04u8 {
        ContentKind::Zip
    } else {
        ContentKind::Opaque
    }
}

} // verus!
