//! Per-entry extraction planning, with the containment argument that
//! no written path escapes the destination base.
//!
//! The extraction shell walks the archive in order and asks
//! [`plan_entry`] what to do with each entry; it performs only the
//! returned action.  Entries that fall outside a stripped root, strip
//! to nothing, or fail the defense-in-depth traversal re-check are
//! skipped individually — never written.

use vstd::prelude::*;
use crate::models::ExtractionPlan;
use crate::pathseg::{
    comps_have_dotdot,
    keeps,
    lemma_components_of_join,
    lemma_components_split,
    spec_components,
    spec_has_dotdot,
    spec_join,
    split_components,
    str_eq,
    join_components,
};

verus! {

/// What the extraction shell does with one entry.
#[derive(Clone, Debug)]
pub enum EntryAction {
    /// Write nothing for this entry.
    Skip,
    /// Create the directory `rel` (and its ancestors) under the
    /// target directory.
    MakeDir { rel: String },
    /// Create ancestors as needed, then stream the entry's bytes to
    /// the file `rel` under the target directory.
    WriteFile { rel: String },
}

/// The entry's components after root-stripping; `None` marks a stray
/// entry that does not sit under the stripped root.
pub open spec fn spec_stripped(plan: ExtractionPlan, path: Seq<char>) -> Option<Seq<Seq<char>>> {
    let comps = spec_components(path);
    match plan.root_to_strip {
        Some(rt) => if comps.len() > 0 && comps[0] == rt@ {
            Some(comps.drop_first())
        } else {
            None
        },
        None => Some(comps),
    }
}

/// The relative components this entry is written to, or `None` when
/// it is skipped: stray, empty after stripping, or carrying a `..`
/// component past the analyzer.
pub open spec fn spec_entry_rel(plan: ExtractionPlan, path: Seq<char>) -> Option<Seq<Seq<char>>> {
    match spec_stripped(plan, path) {
        None => None,
        Some(cs) => if cs.len() == 0 || spec_has_dotdot(cs) {
            None
        } else {
            Some(cs)
        },
    }
}

/// Decide what to do with one archive entry under the given plan.
///
/// A returned path is always non-empty, relative, and free of `..`
/// components; its components are exactly the entry's components
/// after root-stripping.
pub fn plan_entry(plan: &ExtractionPlan, path: &str, is_directory: bool) -> (a: EntryAction)
    ensures
        a is Skip <==> spec_entry_rel(*plan, path@) is None,
        a matches EntryAction::MakeDir { rel } ==> is_directory && spec_entry_rel(*plan, path@)
            == Some(spec_components(rel@)) && rel@ == spec_join(spec_components(rel@))
            && spec_components(rel@).len() > 0 && !spec_has_dotdot(spec_components(rel@)),
        a matches EntryAction::WriteFile { rel } ==> !is_directory && spec_entry_rel(*plan, path@)
            == Some(spec_components(rel@)) && rel@ == spec_join(spec_components(rel@))
            && spec_components(rel@).len() > 0 && !spec_has_dotdot(spec_components(rel@)),
{
    let mut comps = split_components(path);
    let ghost m = comps@.map_values(|t: String| t@);
    proof {
        assert(m == spec_components(path@));
    }
    // Strip the wrapping root, skipping entries that sit outside it.
    match &plan.root_to_strip {
        Some(rt) => {
            if comps.len() > 0 && str_eq(comps[0].as_str(), rt.as_str()) {
                comps.remove(0);
                proof {
                    assert(comps@.map_values(|t: String| t@) =~= m.drop_first());
                }
            } else {
                proof {
                    assert(spec_stripped(*plan, path@) is None);
                }
                return EntryAction::Skip;
            }
        },
        None => {},
    }
    let ghost cs = comps@.map_values(|t: String| t@);
    proof {
        assert(spec_stripped(*plan, path@) == Some(cs));
    }
    // Nothing left to write: the root directory itself.
    if comps.len() == 0 {
        return EntryAction::Skip;
    }
    // Defense in depth: the analyzer already rejected traversal, but
    // never hand out a path with a `..` component.
    if comps_have_dotdot(&comps) {
        return EntryAction::Skip;
    }
    let rel = join_components(&comps);
    proof {
        lemma_components_of_join(cs);
        assert(spec_components(rel@) == cs);
    }
    if is_directory {
        EntryAction::MakeDir { rel }
    } else {
        EntryAction::WriteFile { rel }
    }
}

/// Join the destination base and a relative path with a `/`.
pub fn entry_output_path(base: &str, rel: &str) -> (r: String)
    ensures
        r@ == base@ + seq!['/'] + rel@,
{
    proof {
        reveal_strlit("/");
        assert("/"@ =~= seq!['/']);
    }
    let mut r = base.to_owned();
    r.append("/");
    r.append(rel);
    proof {
        assert(r@ =~= base@ + seq!['/'] + rel@);
    }
    r
}

/// Every component of a split path is well-formed: kept by the
/// component filter, and free of separators.
proof fn lemma_components_well_formed(s: Seq<char>)
    ensures
        forall|i: int| 0 <= i < spec_components(s).len() ==> keeps(#[trigger] spec_components(s)[i]),
        forall|i: int, j: int|
            0 <= i < spec_components(s).len() && 0 <= j < spec_components(s)[i].len()
                ==> spec_components(s)[i][j] != '/',
{
    crate::pathseg::lemma_raw_chunks_no_sep(s);
    assert forall|i: int| 0 <= i < spec_components(s).len() implies keeps(
        #[trigger] spec_components(s)[i],
    ) && (forall|j: int| 0 <= j < spec_components(s)[i].len() ==> spec_components(s)[i][j]
        != '/') by {
        crate::pathseg::raw_chunks(s).lemma_filter_pred(|c: Seq<char>| keeps(c), i);
        crate::pathseg::lemma_filter_elem_from(crate::pathseg::raw_chunks(s), i);
        let k = choose|k: int|
            0 <= k < crate::pathseg::raw_chunks(s).len() && crate::pathseg::raw_chunks(s)[k]
                == spec_components(s)[i];
        assert(forall|j: int|
            0 <= j < spec_components(s)[i].len() ==> crate::pathseg::raw_chunks(s)[k][j] != '/');
    }
}

/// The extractor's containment law, end to end: whenever the planner
/// admits an entry, the path actually written — the base joined with
/// the planned relative path — resolves strictly inside the base.
pub proof fn lemma_planned_write_contained(plan: ExtractionPlan, path: Seq<char>, base: Seq<char>)
    requires
        spec_entry_rel(plan, path) is Some,
    ensures
        ({
            let rel = spec_join(spec_entry_rel(plan, path)->Some_0);
            let written = spec_components(base + seq!['/'] + rel);
            &&& spec_components(base).is_prefix_of(written)
            &&& written.len() > spec_components(base).len()
            &&& !spec_has_dotdot(spec_components(base)) ==> !spec_has_dotdot(written)
        }),
{
    let cs = spec_entry_rel(plan, path)->Some_0;
    let rel = spec_join(cs);
    // The planned components are a suffix of the path's components,
    // so they are well-formed; joining and re-splitting them is the
    // identity, and the joined string is traversal-free.
    lemma_components_well_formed(path);
    match plan.root_to_strip {
        Some(_) => {
            assert(cs == spec_components(path).drop_first());
            assert forall|i: int| 0 <= i < cs.len() implies keeps(#[trigger] cs[i]) && (forall|
                j: int,
            |
                0 <= j < cs[i].len() ==> cs[i][j] != '/') by {
                assert(cs[i] == spec_components(path)[i + 1]);
            }
        },
        None => {
            assert(cs == spec_components(path));
        },
    }
    assert(forall|i: int| 0 <= i < cs.len() ==> keeps(#[trigger] cs[i]));
    assert(forall|i: int, j: int|
        0 <= i < cs.len() && 0 <= j < cs[i].len() ==> cs[i][j] != '/');
    lemma_components_of_join(cs);
    assert(spec_components(rel) =~~= cs);
    lemma_written_path_contained(base, rel);
}

/// Containment of every written path: joining the destination base
/// with a non-empty relative path free of `..` components yields a
/// path whose components strictly extend the base's components — the
/// write lands strictly inside the destination, and introduces no
/// traversal the base did not already have.
pub proof fn lemma_written_path_contained(base: Seq<char>, rel: Seq<char>)
    requires
        spec_components(rel).len() > 0,
        !spec_has_dotdot(spec_components(rel)),
    ensures
        spec_components(base).is_prefix_of(spec_components(base + seq!['/'] + rel)),
        spec_components(base + seq!['/'] + rel).len() > spec_components(base).len(),
        !spec_has_dotdot(spec_components(base)) ==> !spec_has_dotdot(
            spec_components(base + seq!['/'] + rel),
        ),
{
    lemma_components_split(base, rel);
    let b = spec_components(base);
    let r = spec_components(rel);
    let full = spec_components(base + seq!['/'] + rel);
    assert(full == b + r);
    assert(b.is_prefix_of(b + r)) by {
        assert((b + r).subrange(0, b.len() as int) =~= b);
    }
    if !spec_has_dotdot(b) {
        assert forall|j: int| 0 <= j < full.len() implies #[trigger] full[j]
            != crate::pathseg::dot_dot() by {
            if j < b.len() {
                assert(full[j] == b[j]);
            } else {
                assert(full[j] == r[j - b.len()]);
            }
        }
    }
}

} // verus!
