//! Where the game's user-data directory can live: the candidate
//! paths, in the order they are probed.  The shell checks each for
//! existence and takes the first hit.

use vstd::prelude::*;
use crate::error::prefixed;

verus! {

/// The path under a Documents directory on a native install.
pub fn documents_candidate(document_dir: &str) -> (r: String)
    ensures
        r@ == document_dir@ + "/SkaterXL"@,
{
    prefixed(document_dir, "/SkaterXL")
}

/// The path under one Steam library root for an install running
/// through Proton: the game's compatibility prefix, identified by
/// its Steam app id.
pub fn proton_candidate(steam_root: &str) -> (r: String)
    ensures
        r@ == steam_root@
            + "/steamapps/compatdata/962730/pfx/drive_c/users/steamuser/Documents/SkaterXL"@,
{
    prefixed(
        steam_root,
        "/steamapps/compatdata/962730/pfx/drive_c/users/steamuser/Documents/SkaterXL",
    )
}

/// The last-resort path under the home directory's default Steam
/// location.
pub fn home_fallback_candidate(home_dir: &str) -> (r: String)
    ensures
        r@ == home_dir@
            + "/.steam/steam/steamapps/compatdata/962730/pfx/drive_c/users/steamuser/Documents/Skater XL"@,
{
    prefixed(
        home_dir,
        "/.steam/steam/steamapps/compatdata/962730/pfx/drive_c/users/steamuser/Documents/Skater XL",
    )
}

/// Every candidate in probe order: the Documents path, each Steam
/// library's Proton prefix, then the home-directory fallback.
pub fn skaterxl_candidate_paths(
    document_dir: Option<&str>,
    steam_roots: &Vec<String>,
    home_dir: Option<&str>,
) -> (r: Vec<String>)
    ensures
        ({
            let docs: int = if document_dir is Some {
                1int
            } else {
                0int
            };
            let homes: int = if home_dir is Some {
                1int
            } else {
                0int
            };
            &&& r@.len() == docs + steam_roots@.len() + homes
            &&& (document_dir matches Some(d) ==> r@[0]@ == d@ + "/SkaterXL"@)
            &&& forall|i: int|
                0 <= i < steam_roots@.len() ==> r@[docs + i]@ == #[trigger] steam_roots@[i]@
                    + "/steamapps/compatdata/962730/pfx/drive_c/users/steamuser/Documents/SkaterXL"@
            &&& (home_dir matches Some(h) ==> r@[r@.len() - 1]@ == h@
                + "/.steam/steam/steamapps/compatdata/962730/pfx/drive_c/users/steamuser/Documents/Skater XL"@)
        }),
{
    let ghost docs: int = if document_dir is Some {
        1int
    } else {
        0int
    };
    let mut r: Vec<String> = Vec::new();
    match document_dir {
        Some(d) => {
            r.push(documents_candidate(d));
        },
        None => {},
    }
    let mut i: usize = 0;
    while i < steam_roots.len()
        invariant
            i <= steam_roots@.len(),
            docs == if document_dir is Some {
                1int
            } else {
                0int
            },
            r@.len() == docs + i,
            document_dir matches Some(d) ==> r@[0]@ == d@ + "/SkaterXL"@,
            forall|j: int|
                0 <= j < i ==> r@[docs + j]@ == #[trigger] steam_roots@[j]@
                    + "/steamapps/compatdata/962730/pfx/drive_c/users/steamuser/Documents/SkaterXL"@,
        decreases steam_roots@.len() - i,
    {
        r.push(proton_candidate(steam_roots[i].as_str()));
        i += 1;
    }
    match home_dir {
        Some(h) => {
            r.push(home_fallback_candidate(h));
        },
        None => {},
    }
    r
}

} // verus!
