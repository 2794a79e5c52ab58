//! The archive structure analyzer: one metadata pass over the
//! entries, producing an [`ExtractionPlan`] or rejecting the archive.
//!
//! The analyzer is pure: it runs before anything is written to disk,
//! so a traversal rejection here aborts the install with no partial
//! work.

use vstd::prelude::*;
use crate::error::{CommandError, CommandResult, prefixed};
use crate::models::{ArchiveEntry, ExtractionPlan};
use crate::pathseg::{
    comps_have_dotdot,
    is_usable_name,
    spec_components,
    spec_has_dotdot,
    spec_stem_of,
    spec_usable_name,
    split_components,
    stem_of,
};

verus! {

/// Whether some entry's path contains a `..` component.
pub open spec fn spec_has_traversal(entries: Seq<ArchiveEntry>) -> bool {
    exists|i: int| 0 <= i < entries.len() && spec_has_dotdot(#[trigger] entries[i].comps())
}

/// Whether the entry has at least one path component.
pub open spec fn spec_rooted(e: ArchiveEntry) -> bool {
    e.comps().len() > 0
}

/// Whether every entry sits under one common first component, with at
/// least one entry contributing a component at all.
pub open spec fn spec_single_root(entries: Seq<ArchiveEntry>) -> bool {
    &&& exists|i: int| 0 <= i < entries.len() && spec_rooted(#[trigger] entries[i])
    &&& forall|i: int, j: int|
        0 <= i < entries.len() && 0 <= j < entries.len() && spec_rooted(#[trigger] entries[i])
            && spec_rooted(#[trigger] entries[j]) ==> entries[i].comps()[0]
            == entries[j].comps()[0]
}

/// The common first component, when `spec_single_root` holds.
pub open spec fn spec_the_root(entries: Seq<ArchiveEntry>) -> Seq<char> {
    entries[choose|i: int| 0 <= i < entries.len() && spec_rooted(#[trigger] entries[i])].comps()[0]
}

/// Whether some plain file sits directly at the archive root.
pub open spec fn spec_has_root_file(entries: Seq<ArchiveEntry>) -> bool {
    exists|i: int|
        0 <= i < entries.len() && !entries[i].is_directory && (#[trigger] entries[i].comps()).len()
            == 1
}

/// The size and path of the largest file entry, keeping the earliest
/// of equally sized entries.  Directories never count.
pub open spec fn spec_largest(entries: Seq<ArchiveEntry>) -> Option<(u64, Seq<char>)>
    decreases entries.len(),
{
    if entries.len() == 0 {
        None
    } else {
        let prev = spec_largest(entries.drop_last());
        let e = entries.last();
        if e.is_directory {
            prev
        } else {
            match prev {
                None => Some((e.uncompressed_size, e.path@)),
                Some(p) => if e.uncompressed_size > p.0 {
                    Some((e.uncompressed_size, e.path@))
                } else {
                    prev
                },
            }
        }
    }
}

/// The file stem of a path string: the stem of its last component,
/// when it has one.
pub open spec fn spec_path_stem(s: Seq<char>) -> Option<Seq<char>> {
    if spec_components(s).len() == 0 {
        None
    } else {
        Some(spec_stem_of(spec_components(s).last()))
    }
}

/// The fallback target name: the first usable candidate among the
/// largest entry's stem, the reference name's stem, and the fresh
/// token.
pub open spec fn spec_fallback_name(
    entries: Seq<ArchiveEntry>,
    reference: Seq<char>,
    token: Seq<char>,
) -> Seq<char> {
    let c1 = match spec_largest(entries) {
        None => None,
        Some(p) => spec_path_stem(p.1),
    };
    if c1 matches Some(n1) && spec_usable_name(n1) {
        c1->Some_0
    } else if spec_path_stem(reference) matches Some(n2) && spec_usable_name(n2) {
        spec_path_stem(reference)->Some_0
    } else {
        token
    }
}

/// Whether the archive is one wrapping directory that should be
/// stripped: a single usable root component and no file at the root.
pub open spec fn spec_wraps_single_root(entries: Seq<ArchiveEntry>) -> bool {
    &&& entries.len() > 0
    &&& spec_single_root(entries)
    &&& !spec_has_root_file(entries)
    &&& spec_usable_name(spec_the_root(entries))
}

/// What the produced plan must be, for an archive free of traversal.
pub open spec fn spec_plan_matches(
    entries: Seq<ArchiveEntry>,
    reference: Seq<char>,
    token: Seq<char>,
    plan: ExtractionPlan,
) -> bool {
    if spec_wraps_single_root(entries) {
        &&& plan.root_to_strip matches Some(rt) && rt@ == spec_the_root(entries)
        &&& plan.target_directory_name@ == spec_the_root(entries)
    } else {
        &&& plan.root_to_strip is None
        &&& plan.target_directory_name@ == spec_fallback_name(entries, reference, token)
    }
}

/// The stem of a path's last component, when it has one.
pub fn path_stem(s: &str) -> (r: Option<String>)
    ensures
        match r {
            Some(n) => spec_path_stem(s@) == Some(n@),
            None => spec_path_stem(s@) is None,
        },
{
    let comps = split_components(s);
    if comps.len() == 0 {
        None
    } else {
        let last = comps.len() - 1;
        let ghost m = comps@.map_values(|t: String| t@);
        proof {
            assert(m[last as int] == spec_components(s@).last());
        }
        Some(stem_of(comps[last].as_str()))
    }
}

/// Analyze the archive's entries and produce the extraction plan.
///
/// Fails with an `Input` error exactly when some entry path contains
/// a `..` component; nothing has been written to disk at that point.
/// Otherwise: an archive wrapped in one usable root directory is
/// planned to be unwrapped and named after that root; any other
/// archive keeps its full layout and is named by the first usable
/// candidate among the largest entry's stem, the reference name's
/// stem, and the fresh token.
pub fn analyze_archive(entries: &Vec<ArchiveEntry>, reference_name: &str, token: &str) -> (r:
    CommandResult<ExtractionPlan>)
    requires
        spec_usable_name(token@),
    ensures
        r is Err <==> spec_has_traversal(entries@),
        r matches Err(e) ==> e is Input,
        r matches Ok(plan) ==> plan.wf() && spec_plan_matches(
            entries@,
            reference_name@,
            token@,
            plan,
        ),
{
    let n = entries.len();
    let mut root: Option<String> = None;
    let mut all_same = true;
    let mut has_root_file = false;
    let mut largest: Option<(u64, String)> = None;

    let mut i: usize = 0;
    while i < n
        invariant
            i <= n,
            n == entries@.len(),
            forall|k: int| 0 <= k < i ==> !spec_has_dotdot(#[trigger] entries@[k].comps()),
            match root {
                None => all_same && forall|k: int|
                    0 <= k < i ==> !spec_rooted(#[trigger] entries@[k]),
                Some(rt) => {
                    &&& exists|k: int|
                        0 <= k < i && spec_rooted(#[trigger] entries@[k]) && entries@[k].comps()[0]
                            == rt@
                    &&& (all_same <==> forall|k: int|
                        0 <= k < i && spec_rooted(#[trigger] entries@[k])
                            ==> entries@[k].comps()[0] == rt@)
                },
            },
            has_root_file <==> spec_has_root_file(entries@.subrange(0, i as int)),
            match largest {
                None => spec_largest(entries@.subrange(0, i as int)) is None,
                Some(p) => spec_largest(entries@.subrange(0, i as int)) == Some((p.0, p.1@)),
            },
        decreases n - i,
    {
        let ghost pre = entries@.subrange(0, i as int);
        let ghost pre2 = entries@.subrange(0, i + 1 as int);
        proof {
            assert(pre2.drop_last() =~= pre);
            assert(pre2.last() == entries@[i as int]);
        }
        let entry = &entries[i];
        let comps = split_components(entry.path.as_str());
        let ghost m = comps@.map_values(|t: String| t@);
        proof {
            assert(m == entries@[i as int].comps());
        }
        if comps_have_dotdot(&comps) {
            return Err(CommandError::Input(prefixed("unsafe path ", entry.path.as_str())));
        }
        // Track the shared first component.
        if comps.len() > 0 {
            proof {
                assert(m[0] == entries@[i as int].comps()[0]);
                assert(spec_rooted(entries@[i as int]));
            }
            match &root {
                None => {
                    root = Some(comps[0].clone());
                },
                Some(rt) => {
                    if !crate::pathseg::str_eq(rt.as_str(), comps[0].as_str()) {
                        all_same = false;
                    }
                },
            }
        } else {
            proof {
                assert(!spec_rooted(entries@[i as int]));
            }
        }
        // A plain file directly at depth 1?
        if !entry.is_directory && comps.len() == 1 {
            has_root_file = true;
            proof {
                assert(entries@[i as int].comps().len() == 1);
                assert(spec_has_root_file(pre2));
            }
        }
        proof {
            if spec_has_root_file(pre) {
                let w = choose|w: int|
                    0 <= w < pre.len() && !pre[w].is_directory && (#[trigger] pre[w].comps()).len()
                        == 1;
                assert(pre2[w] == pre[w]);
                assert(spec_has_root_file(pre2));
            }
            if !spec_has_root_file(pre) && !(!entries@[i as int].is_directory
                && entries@[i as int].comps().len() == 1) {
                if spec_has_root_file(pre2) {
                    let w = choose|w: int|
                        0 <= w < pre2.len() && !pre2[w].is_directory && (
                        #[trigger] pre2[w].comps()).len() == 1;
                    if w < i {
                        assert(pre[w] == pre2[w]);
                    }
                }
                assert(!spec_has_root_file(pre2));
            }
        }
        // Track the largest file entry.
        if !entry.is_directory {
            let replace = match &largest {
                None => true,
                Some(p) => entry.uncompressed_size > p.0,
            };
            if replace {
                largest = Some((entry.uncompressed_size, entry.path.clone()));
            }
        }
        i += 1;
    }
    proof {
        assert(entries@.subrange(0, n as int) =~= entries@);
    }

    // Decide: unwrap a single usable root, or fall back to naming.
    let use_single = if n > 0 && all_same && !has_root_file {
        match &root {
            Some(rt) => is_usable_name(rt.as_str()),
            None => false,
        }
    } else {
        false
    };
    proof {
        if use_single {
            let rt = root->Some_0;
            assert(spec_single_root(entries@));
            assert(spec_the_root(entries@) == rt@);
            assert(spec_wraps_single_root(entries@));
        } else {
            if entries@.len() > 0 && spec_single_root(entries@) && !spec_has_root_file(entries@) {
                // Some rooted entry exists, so the tracked root is set
                // and agreement makes `all_same` true.
                let w = choose|w: int|
                    0 <= w < entries@.len() && spec_rooted(#[trigger] entries@[w]);
                assert(root is Some);
                let rt = root->Some_0;
                assert(spec_the_root(entries@) == rt@);
                assert(!spec_usable_name(spec_the_root(entries@)));
            }
            assert(!spec_wraps_single_root(entries@));
        }
    }
    if use_single {
        let rt = match root {
            Some(rt) => rt,
            None => String::new(),  // unreachable: use_single implies a root
        };
        return Ok(
            ExtractionPlan {
                target_directory_name: rt.clone(),
                root_to_strip: Some(rt),
            },
        );
    }

    // Fallback naming: largest stem, then reference stem, then token.
    if let Some(p) = &largest {
        if let Some(n1) = path_stem(p.1.as_str()) {
            if is_usable_name(n1.as_str()) {
                return Ok(ExtractionPlan { target_directory_name: n1, root_to_strip: None });
            }
        }
    }
    if let Some(n2) = path_stem(reference_name) {
        if is_usable_name(n2.as_str()) {
            return Ok(ExtractionPlan { target_directory_name: n2, root_to_strip: None });
        }
    }
    Ok(ExtractionPlan { target_directory_name: token.to_owned(), root_to_strip: None })
}

} // verus!
