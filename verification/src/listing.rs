//! The pure half of the directory-listing commands: which entries a
//! listing keeps, how thumbnails attach to them, and the order they
//! are returned in.  The shell reads the directory and file metadata
//! and hands everything here as plain values.

use vstd::prelude::*;
use vstd::string::StringSliceAdditionalSpecFns;
use vstd::seq_lib::lemma_multiset_commutative;
use crate::error::{CommandError, CommandResult, prefixed};
use crate::models::{DirectoryListingResult, FsEntry, ListingStatus};
use crate::pathseg::{spec_components, spec_ext_of, split_components, ext_of};
use crate::utils::{eq_ignore_ascii_case, lower_char, spec_to_ascii_lower};

verus! {

// --- lexicographic order on character sequences ---

/// Lexicographic less-or-equal on character sequences, by code
/// point.
pub open spec fn lex_le(a: Seq<char>, b: Seq<char>) -> bool
    decreases a.len(),
{
    if a.len() == 0 {
        true
    } else if b.len() == 0 {
        false
    } else if a[0] != b[0] {
        a[0] < b[0]
    } else {
        lex_le(a.drop_first(), b.drop_first())
    }
}

/// The order is total.
pub proof fn lemma_lex_le_total(a: Seq<char>, b: Seq<char>)
    ensures
        lex_le(a, b) || lex_le(b, a),
    decreases a.len(),
{
    if a.len() > 0 && b.len() > 0 && a[0] == b[0] {
        lemma_lex_le_total(a.drop_first(), b.drop_first());
    }
}

/// The order is transitive.
pub proof fn lemma_lex_le_trans(a: Seq<char>, b: Seq<char>, c: Seq<char>)
    requires
        lex_le(a, b),
        lex_le(b, c),
    ensures
        lex_le(a, c),
    decreases a.len(),
{
    if a.len() > 0 && b.len() > 0 && c.len() > 0 && a[0] == b[0] && b[0] == c[0] {
        lemma_lex_le_trans(a.drop_first(), b.drop_first(), c.drop_first());
    }
}

/// Compare two strings lexicographically, optionally ignoring ASCII
/// case.
pub fn lex_le_str(a: &str, b: &str, case_insensitive: bool) -> (r: bool)
    ensures
        case_insensitive ==> r == lex_le(spec_to_ascii_lower(a@), spec_to_ascii_lower(b@)),
        !case_insensitive ==> r == lex_le(a@, b@),
{
    let ghost ka = if case_insensitive {
        spec_to_ascii_lower(a@)
    } else {
        a@
    };
    let ghost kb = if case_insensitive {
        spec_to_ascii_lower(b@)
    } else {
        b@
    };
    let la = a.unicode_len();
    let lb = b.unicode_len();
    let mut i: usize = 0;
    proof {
        assert(ka.skip(0) =~= ka);
        assert(kb.skip(0) =~= kb);
    }
    loop
        invariant
            i <= la,
            i <= lb,
            la == a@.len(),
            lb == b@.len(),
            ka.len() == la,
            kb.len() == lb,
            ka == if case_insensitive {
                spec_to_ascii_lower(a@)
            } else {
                a@
            },
            kb == if case_insensitive {
                spec_to_ascii_lower(b@)
            } else {
                b@
            },
            forall|j: int| 0 <= j < i ==> ka[j] == kb[j],
            lex_le(ka, kb) == lex_le(ka.skip(i as int), kb.skip(i as int)),
        decreases la - i,
    {
        if i >= la {
            proof {
                assert(ka.skip(i as int).len() == 0);
            }
            return true;
        }
        if i >= lb {
            proof {
                assert(kb.skip(i as int).len() == 0);
                assert(ka.skip(i as int).len() > 0);
            }
            return false;
        }
        let ca = if case_insensitive {
            lower_char(a.get_char(i))
        } else {
            a.get_char(i)
        };
        let cb = if case_insensitive {
            lower_char(b.get_char(i))
        } else {
            b.get_char(i)
        };
        proof {
            assert(ka.skip(i as int)[0] == ka[i as int]);
            assert(kb.skip(i as int)[0] == kb[i as int]);
            assert(ka[i as int] == ca);
            assert(kb[i as int] == cb);
        }
        if ca != cb {
            return ca < cb;
        }
        proof {
            assert(ka.skip(i as int).drop_first() =~= ka.skip(i + 1));
            assert(kb.skip(i as int).drop_first() =~= kb.skip(i + 1));
        }
        i += 1;
    }
}

// --- the listing order ---

/// How a listing is ordered.
#[derive(Clone, Copy, Debug, PartialEq, Eq, Structural)]
pub enum SortMode {
    /// Directories first, then by name without regard to ASCII case.
    DirsFirstNameInsensitive,
    /// By name without regard to ASCII case.
    NameInsensitive,
    /// By name, case sensitively.
    Name,
}

/// The display name a listing sorts by: the entry's name, or empty
/// when it has none.
pub open spec fn spec_entry_name(e: FsEntry) -> Seq<char> {
    match e.name {
        Some(n) => n@,
        None => Seq::<char>::empty(),
    }
}

/// The listing order on entries.
pub open spec fn spec_entry_le(mode: SortMode, a: FsEntry, b: FsEntry) -> bool {
    match mode {
        SortMode::DirsFirstNameInsensitive => {
            if a.is_directory != b.is_directory {
                a.is_directory
            } else {
                lex_le(
                    spec_to_ascii_lower(spec_entry_name(a)),
                    spec_to_ascii_lower(spec_entry_name(b)),
                )
            }
        },
        SortMode::NameInsensitive => lex_le(
            spec_to_ascii_lower(spec_entry_name(a)),
            spec_to_ascii_lower(spec_entry_name(b)),
        ),
        SortMode::Name => lex_le(spec_entry_name(a), spec_entry_name(b)),
    }
}

/// The listing order is total.
pub proof fn lemma_entry_le_total(mode: SortMode, a: FsEntry, b: FsEntry)
    ensures
        spec_entry_le(mode, a, b) || spec_entry_le(mode, b, a),
{
    lemma_lex_le_total(
        spec_to_ascii_lower(spec_entry_name(a)),
        spec_to_ascii_lower(spec_entry_name(b)),
    );
    lemma_lex_le_total(spec_entry_name(a), spec_entry_name(b));
}

/// The listing order is transitive.
pub proof fn lemma_entry_le_trans(mode: SortMode, a: FsEntry, b: FsEntry, c: FsEntry)
    requires
        spec_entry_le(mode, a, b),
        spec_entry_le(mode, b, c),
    ensures
        spec_entry_le(mode, a, c),
{
    match mode {
        SortMode::DirsFirstNameInsensitive => {
            if a.is_directory == b.is_directory && b.is_directory == c.is_directory {
                lemma_lex_le_trans(
                    spec_to_ascii_lower(spec_entry_name(a)),
                    spec_to_ascii_lower(spec_entry_name(b)),
                    spec_to_ascii_lower(spec_entry_name(c)),
                );
            }
        },
        SortMode::NameInsensitive => {
            lemma_lex_le_trans(
                spec_to_ascii_lower(spec_entry_name(a)),
                spec_to_ascii_lower(spec_entry_name(b)),
                spec_to_ascii_lower(spec_entry_name(c)),
            );
        },
        SortMode::Name => {
            lemma_lex_le_trans(spec_entry_name(a), spec_entry_name(b), spec_entry_name(c));
        },
    }
}

/// The listing order on entries, decided.
pub fn entry_le(mode: SortMode, a: &FsEntry, b: &FsEntry) -> (r: bool)
    ensures
        r == spec_entry_le(mode, *a, *b),
{
    let empty = "";
    proof {
        reveal_strlit("");
        assert(""@ =~= Seq::<char>::empty());
    }
    let an = match &a.name {
        Some(n) => n.as_str(),
        None => empty,
    };
    let bn = match &b.name {
        Some(n) => n.as_str(),
        None => empty,
    };
    match mode {
        SortMode::DirsFirstNameInsensitive => {
            if a.is_directory != b.is_directory {
                a.is_directory
            } else {
                lex_le_str(an, bn, true)
            }
        },
        SortMode::NameInsensitive => lex_le_str(an, bn, true),
        SortMode::Name => lex_le_str(an, bn, false),
    }
}

/// Whether a sequence of entries is sorted for the mode.
pub open spec fn spec_sorted(mode: SortMode, s: Seq<FsEntry>) -> bool {
    forall|i: int, j: int| 0 <= i < j < s.len() ==> spec_entry_le(mode, #[trigger] s[i], #[trigger] s[j])
}

/// Sort the entries by the listing order (a selection sort).  The
/// result is a sorted rearrangement of the input.
pub fn sort_entries(entries: Vec<FsEntry>, mode: SortMode) -> (r: Vec<FsEntry>)
    ensures
        spec_sorted(mode, r@),
        r@.to_multiset() == entries@.to_multiset(),
        r@.len() == entries@.len(),
{
    let mut rest = entries;
    let mut out: Vec<FsEntry> = Vec::new();
    proof {
        out@.to_multiset_ensures();
        assert(out@.to_multiset().len() == 0);
        assert(out@.to_multiset() =~= vstd::multiset::Multiset::<FsEntry>::empty());
        assert(out@.to_multiset().add(rest@.to_multiset()) =~= rest@.to_multiset());
    }
    loop
        invariant
            spec_sorted(mode, out@),
            forall|i: int, j: int|
                0 <= i < out@.len() && 0 <= j < rest@.len() ==> spec_entry_le(
                    mode,
                    #[trigger] out@[i],
                    #[trigger] rest@[j],
                ),
            out@.to_multiset().add(rest@.to_multiset()) == entries@.to_multiset(),
            out@.len() + rest@.len() == entries@.len(),
        decreases rest@.len(),
    {
        if rest.len() == 0 {
            proof {
                rest@.to_multiset_ensures();
                assert(rest@.to_multiset().len() == 0);
                assert(rest@.to_multiset() =~= vstd::multiset::Multiset::<FsEntry>::empty());
                assert(out@.to_multiset().add(rest@.to_multiset()) =~= out@.to_multiset());
            }
            return out;
        }
        // Find the least remaining entry.
        let mut m: usize = 0;
        let mut j: usize = 1;
        proof {
            lemma_entry_le_total(mode, rest@[0], rest@[0]);
        }
        while j < rest.len()
            invariant
                m < j <= rest@.len(),
                rest@.len() >= 1,
                forall|k: int| 0 <= k < j ==> spec_entry_le(mode, rest@[m as int], #[trigger] rest@[k]),
            decreases rest@.len() - j,
        {
            if !entry_le(mode, &rest[m], &rest[j]) {
                proof {
                    lemma_entry_le_total(mode, rest@[m as int], rest@[j as int]);
                    assert forall|k: int| 0 <= k < j + 1 implies spec_entry_le(
                        mode,
                        rest@[j as int],
                        #[trigger] rest@[k],
                    ) by {
                        if k < j {
                            lemma_entry_le_trans(mode, rest@[j as int], rest@[m as int], rest@[k]);
                        } else {
                            lemma_entry_le_total(mode, rest@[j as int], rest@[j as int]);
                        }
                    }
                }
                m = j;
            }
            j += 1;
        }
        let ghost old_rest = rest@;
        let ghost old_out = out@;
        let e = rest.remove(m);
        out.push(e);
        proof {
            old_rest.to_multiset_ensures();
            old_out.to_multiset_ensures();
            // The removed minimum moves from one multiset to the other.
            assert(rest@.to_multiset() =~= old_rest.to_multiset().remove(e));
            assert(out@.to_multiset() =~= old_out.to_multiset().insert(e));
            assert(old_rest.contains(e)) by {
                assert(old_rest[m as int] == e);
            }
            assert(old_rest.to_multiset().count(e) > 0);
            assert(out@.to_multiset().add(rest@.to_multiset()) =~= old_out.to_multiset().add(
                old_rest.to_multiset(),
            ));
            // Order facts: the minimum goes after everything sorted and
            // before everything left.
            assert(forall|k: int|
                0 <= k < old_rest.len() ==> spec_entry_le(mode, e, #[trigger] old_rest[k]));
            assert forall|i: int, j: int|
                0 <= i < out@.len() && 0 <= j < rest@.len() implies spec_entry_le(
                mode,
                #[trigger] out@[i],
                #[trigger] rest@[j],
            ) by {
                assert(rest@[j] == if j < m {
                    old_rest[j]
                } else {
                    old_rest[j + 1]
                });
                if i < out@.len() - 1 {
                    assert(out@[i] == old_out[i]);
                } else {
                    assert(out@[i] == e);
                }
            }
            assert(spec_sorted(mode, out@)) by {
                assert forall|i: int, j: int| 0 <= i < j < out@.len() implies spec_entry_le(
                    mode,
                    #[trigger] out@[i],
                    #[trigger] out@[j],
                ) by {
                    if j < out@.len() - 1 {
                        assert(out@[i] == old_out[i] && out@[j] == old_out[j]);
                    } else {
                        assert(out@[j] == e);
                        assert(out@[i] == old_out[i]);
                        assert(spec_entry_le(mode, old_out[i], old_rest[m as int]));
                    }
                }
            }
        }
    }
}


// --- which entries a listing keeps ---

/// The file extensions a maps listing hides: images, executables,
/// configuration, archives, databases, documents, media, shortcuts,
/// debug data and source files.
pub open spec fn spec_excluded_ext(lower_ext: Seq<char>) -> bool {
    ||| lower_ext == spec_to_ascii_lower("png"@)
    ||| lower_ext == spec_to_ascii_lower("jpg"@)
    ||| lower_ext == spec_to_ascii_lower("jpeg"@)
    ||| lower_ext == spec_to_ascii_lower("gif"@)
    ||| lower_ext == spec_to_ascii_lower("webp"@)
    ||| lower_ext == spec_to_ascii_lower("bmp"@)
    ||| lower_ext == spec_to_ascii_lower("svg"@)
    ||| lower_ext == spec_to_ascii_lower("ico"@)
    ||| lower_ext == spec_to_ascii_lower("dll"@)
    ||| lower_ext == spec_to_ascii_lower("exe"@)
    ||| lower_ext == spec_to_ascii_lower("bat"@)
    ||| lower_ext == spec_to_ascii_lower("msi"@)
    ||| lower_ext == spec_to_ascii_lower("json"@)
    ||| lower_ext == spec_to_ascii_lower("ini"@)
    ||| lower_ext == spec_to_ascii_lower("bak"@)
    ||| lower_ext == spec_to_ascii_lower("cfg"@)
    ||| lower_ext == spec_to_ascii_lower("tmp"@)
    ||| lower_ext == spec_to_ascii_lower("log"@)
    ||| lower_ext == spec_to_ascii_lower("txt"@)
    ||| lower_ext == spec_to_ascii_lower("rtf"@)
    ||| lower_ext == spec_to_ascii_lower("xml"@)
    ||| lower_ext == spec_to_ascii_lower("zip"@)
    ||| lower_ext == spec_to_ascii_lower("rar"@)
    ||| lower_ext == spec_to_ascii_lower("7z"@)
    ||| lower_ext == spec_to_ascii_lower("tar"@)
    ||| lower_ext == spec_to_ascii_lower("gz"@)
    ||| lower_ext == spec_to_ascii_lower("db"@)
    ||| lower_ext == spec_to_ascii_lower("sqlite"@)
    ||| lower_ext == spec_to_ascii_lower("lock"@)
    ||| lower_ext == spec_to_ascii_lower("md"@)
    ||| lower_ext == spec_to_ascii_lower("doc"@)
    ||| lower_ext == spec_to_ascii_lower("docx"@)
    ||| lower_ext == spec_to_ascii_lower("pdf"@)
    ||| lower_ext == spec_to_ascii_lower("mp3"@)
    ||| lower_ext == spec_to_ascii_lower("mp4"@)
    ||| lower_ext == spec_to_ascii_lower("avi"@)
    ||| lower_ext == spec_to_ascii_lower("mov"@)
    ||| lower_ext == spec_to_ascii_lower("mkv"@)
    ||| lower_ext == spec_to_ascii_lower("flv"@)
    ||| lower_ext == spec_to_ascii_lower("wav"@)
    ||| lower_ext == spec_to_ascii_lower("lnk"@)
    ||| lower_ext == spec_to_ascii_lower("pdb"@)
    ||| lower_ext == spec_to_ascii_lower("rs"@)
    ||| lower_ext == spec_to_ascii_lower("js"@)
    ||| lower_ext == spec_to_ascii_lower("ts"@)
    ||| lower_ext == spec_to_ascii_lower("html"@)
    ||| lower_ext == spec_to_ascii_lower("css"@)
    ||| lower_ext == spec_to_ascii_lower("py"@)
    ||| lower_ext == spec_to_ascii_lower("java"@)
    ||| lower_ext == spec_to_ascii_lower("cpp"@)
    ||| lower_ext == spec_to_ascii_lower("c"@)
    ||| lower_ext == spec_to_ascii_lower("h"@)
}

/// Whether the extension is on the hidden list, compared without
/// regard to ASCII case.
pub fn is_excluded_file_ext(ext: &str) -> (r: bool)
    ensures
        r == spec_excluded_ext(spec_to_ascii_lower(ext@)),
{
    eq_ignore_ascii_case(ext, "png") || eq_ignore_ascii_case(ext, "jpg")
        || eq_ignore_ascii_case(ext, "jpeg") || eq_ignore_ascii_case(ext, "gif")
        || eq_ignore_ascii_case(ext, "webp") || eq_ignore_ascii_case(ext, "bmp")
        || eq_ignore_ascii_case(ext, "svg") || eq_ignore_ascii_case(ext, "ico")
        || eq_ignore_ascii_case(ext, "dll") || eq_ignore_ascii_case(ext, "exe")
        || eq_ignore_ascii_case(ext, "bat") || eq_ignore_ascii_case(ext, "msi")
        || eq_ignore_ascii_case(ext, "json") || eq_ignore_ascii_case(ext, "ini")
        || eq_ignore_ascii_case(ext, "bak") || eq_ignore_ascii_case(ext, "cfg")
        || eq_ignore_ascii_case(ext, "tmp") || eq_ignore_ascii_case(ext, "log")
        || eq_ignore_ascii_case(ext, "txt") || eq_ignore_ascii_case(ext, "rtf")
        || eq_ignore_ascii_case(ext, "xml") || eq_ignore_ascii_case(ext, "zip")
        || eq_ignore_ascii_case(ext, "rar") || eq_ignore_ascii_case(ext, "7z")
        || eq_ignore_ascii_case(ext, "tar") || eq_ignore_ascii_case(ext, "gz")
        || eq_ignore_ascii_case(ext, "db") || eq_ignore_ascii_case(ext, "sqlite")
        || eq_ignore_ascii_case(ext, "lock") || eq_ignore_ascii_case(ext, "md")
        || eq_ignore_ascii_case(ext, "doc") || eq_ignore_ascii_case(ext, "docx")
        || eq_ignore_ascii_case(ext, "pdf") || eq_ignore_ascii_case(ext, "mp3")
        || eq_ignore_ascii_case(ext, "mp4") || eq_ignore_ascii_case(ext, "avi")
        || eq_ignore_ascii_case(ext, "mov") || eq_ignore_ascii_case(ext, "mkv")
        || eq_ignore_ascii_case(ext, "flv") || eq_ignore_ascii_case(ext, "wav")
        || eq_ignore_ascii_case(ext, "lnk") || eq_ignore_ascii_case(ext, "pdb")
        || eq_ignore_ascii_case(ext, "rs") || eq_ignore_ascii_case(ext, "js")
        || eq_ignore_ascii_case(ext, "ts") || eq_ignore_ascii_case(ext, "html")
        || eq_ignore_ascii_case(ext, "css") || eq_ignore_ascii_case(ext, "py")
        || eq_ignore_ascii_case(ext, "java") || eq_ignore_ascii_case(ext, "cpp")
        || eq_ignore_ascii_case(ext, "c") || eq_ignore_ascii_case(ext, "h")
}

/// The extensions a thumbnail image may carry.
pub open spec fn spec_thumbnail_ext(lower_ext: Seq<char>) -> bool {
    ||| lower_ext == spec_to_ascii_lower("png"@)
    ||| lower_ext == spec_to_ascii_lower("jpg"@)
    ||| lower_ext == spec_to_ascii_lower("jpeg"@)
    ||| lower_ext == spec_to_ascii_lower("gif"@)
    ||| lower_ext == spec_to_ascii_lower("webp"@)
    ||| lower_ext == spec_to_ascii_lower("bmp"@)
}

/// Whether the extension is a thumbnail format, compared without
/// regard to ASCII case.
pub fn is_thumbnail_ext(ext: &str) -> (r: bool)
    ensures
        r == spec_thumbnail_ext(spec_to_ascii_lower(ext@)),
{
    eq_ignore_ascii_case(ext, "png") || eq_ignore_ascii_case(ext, "jpg")
        || eq_ignore_ascii_case(ext, "jpeg") || eq_ignore_ascii_case(ext, "gif")
        || eq_ignore_ascii_case(ext, "webp") || eq_ignore_ascii_case(ext, "bmp")
}

/// The extension of a path string: the extension of its last
/// component, when it has one.
pub open spec fn spec_path_ext(path: Seq<char>) -> Option<Seq<char>> {
    if spec_components(path).len() == 0 {
        None
    } else {
        spec_ext_of(spec_components(path).last())
    }
}

/// The extension of a path's last component, when it has one.
pub fn path_ext(s: &str) -> (r: Option<String>)
    ensures
        match r {
            Some(x) => spec_path_ext(s@) == Some(x@),
            None => spec_path_ext(s@) is None,
        },
{
    let comps = split_components(s);
    if comps.len() == 0 {
        None
    } else {
        let last = comps.len() - 1;
        let ghost m = comps@.map_values(|t: String| t@);
        proof {
            assert(m[last as int] == spec_components(s@).last());
        }
        ext_of(comps[last].as_str())
    }
}

/// Whether a file path carries an extension on the hidden list.
pub open spec fn spec_excluded_ext_of(path: Seq<char>) -> bool {
    match spec_path_ext(path) {
        Some(x) => spec_excluded_ext(spec_to_ascii_lower(x)),
        None => false,
    }
}

/// How strictly a listing filters its entries.
#[derive(Clone, Copy, Debug, PartialEq, Eq, Structural)]
pub enum ListingFilter {
    /// Keep every entry.
    All,
    /// Keep entries with a readable name (directories always).
    Named,
    /// As `Named`, and also hide files whose extension is on the
    /// hidden list.
    NamedExcludingListed,
}

/// Whether the entry has a non-empty path and a readable name (or is
/// a directory).
pub open spec fn spec_named_ok(e: FsEntry) -> bool {
    e.path@.len() > 0 && (e.name is Some || e.is_directory)
}

/// Whether a listing with the given filter keeps the entry.
pub open spec fn spec_keep_entry(e: FsEntry, f: ListingFilter) -> bool {
    match f {
        ListingFilter::All => true,
        ListingFilter::Named => spec_named_ok(e),
        ListingFilter::NamedExcludingListed => spec_named_ok(e) && (!e.is_directory
            ==> !spec_excluded_ext_of(e.path@)),
    }
}

/// The entries a listing keeps, in their original order.
pub open spec fn spec_filter_entries(s: Seq<FsEntry>, f: ListingFilter) -> Seq<FsEntry> {
    s.filter(|e: FsEntry| spec_keep_entry(e, f))
}

/// Whether a listing with the given filter keeps the entry.
pub fn keep_entry(e: &FsEntry, f: ListingFilter) -> (r: bool)
    ensures
        r == spec_keep_entry(*e, f),
{
    match f {
        ListingFilter::All => true,
        ListingFilter::Named => keep_named(e),
        ListingFilter::NamedExcludingListed => {
            if !keep_named(e) {
                false
            } else if e.is_directory {
                true
            } else {
                match path_ext(e.path.as_str()) {
                    Some(x) => !is_excluded_file_ext(x.as_str()),
                    None => true,
                }
            }
        },
    }
}

/// Whether the entry has a non-empty path and a readable name.
fn keep_named(e: &FsEntry) -> (r: bool)
    ensures
        r == spec_named_ok(*e),
{
    e.path.as_str().unicode_len() > 0 && (e.name.is_some() || e.is_directory)
}

/// Keep only the entries the filter admits, in order.
pub fn filter_entries(entries: Vec<FsEntry>, f: ListingFilter) -> (r: Vec<FsEntry>)
    ensures
        r@ == spec_filter_entries(entries@, f),
{
    let ghost all = entries@;
    let mut rest = entries;
    let mut out: Vec<FsEntry> = Vec::new();
    let ghost mut i: int = 0;
    proof {
        reveal(Seq::filter);
        assert(all.subrange(0, 0) =~= Seq::<FsEntry>::empty());
        assert(out@ =~= spec_filter_entries(all.subrange(0, 0), f));
        assert(rest@ =~= all.skip(0));
    }
    while rest.len() > 0
        invariant
            0 <= i <= all.len(),
            rest@ == all.skip(i),
            out@ == spec_filter_entries(all.subrange(0, i), f),
        decreases rest@.len(),
    {
        let ghost pre = all.subrange(0, i);
        let ghost pre2 = all.subrange(0, i + 1);
        proof {
            reveal(Seq::filter);
            assert(pre2.drop_last() =~= pre);
            assert(all.skip(i)[0] == all[i]);
            assert(pre2.last() == all[i]);
        }
        let e = rest.remove(0);
        proof {
            assert(e == all[i]);
            assert(rest@ =~= all.skip(i + 1));
        }
        if keep_entry(&e, f) {
            out.push(e);
        }
        proof {
            i = i + 1;
        }
    }
    proof {
        assert(all.subrange(0, all.len() as int) =~= all);
        assert(i == all.len());
    }
    out
}

// --- thumbnails ---

/// One discovered thumbnail: the lowercase key it is filed under,
/// and the path and MIME type handed back to the UI.
#[derive(Clone, Debug)]
pub struct ThumbnailRef {
    pub key: String,
    pub path: String,
    pub mime: String,
}

/// The key source an entry looks its thumbnail up under: its name
/// for a directory, the stem of its path for a file.  Matching is
/// case-insensitive.
pub open spec fn spec_entry_key(e: FsEntry) -> Option<Seq<char>> {
    if e.is_directory {
        match e.name {
            Some(n) => Some(n@),
            None => None,
        }
    } else {
        crate::analyzer::spec_path_stem(e.path@)
    }
}

/// The first thumbnail filed under `key`, compared without regard to
/// ASCII case.
pub open spec fn spec_thumb_for(thumbs: Seq<ThumbnailRef>, key: Seq<char>) -> Option<
    (Seq<char>, Seq<char>),
>
    decreases thumbs.len(),
{
    if thumbs.len() == 0 {
        None
    } else if spec_to_ascii_lower(thumbs[0].key@) == spec_to_ascii_lower(key) {
        Some((thumbs[0].path@, thumbs[0].mime@))
    } else {
        spec_thumb_for(thumbs.drop_first(), key)
    }
}

/// That `r` is `e` with its thumbnail fields filled from `thumbs`.
pub open spec fn spec_attached(e: FsEntry, thumbs: Seq<ThumbnailRef>, r: FsEntry) -> bool {
    &&& r.name == e.name
    &&& r.path == e.path
    &&& r.is_directory == e.is_directory
    &&& r.size == e.size
    &&& r.modified == e.modified
    &&& match spec_entry_key(e) {
        Some(k) => match spec_thumb_for(thumbs, k) {
            Some(pm) => (r.thumbnail_path matches Some(p) && p@ == pm.0) && (r.thumbnail_mime_type
                matches Some(m) && m@ == pm.1),
            None => r.thumbnail_path is None && r.thumbnail_mime_type is None,
        },
        None => r.thumbnail_path is None && r.thumbnail_mime_type is None,
    }
}

/// That `mid` is `src` with thumbnails attached, entry by entry.
pub open spec fn spec_attach_rel(
    src: Seq<FsEntry>,
    thumbs: Seq<ThumbnailRef>,
    mid: Seq<FsEntry>,
) -> bool {
    &&& mid.len() == src.len()
    &&& forall|i: int| 0 <= i < src.len() ==> spec_attached(#[trigger] src[i], thumbs, mid[i])
}

/// Find the first thumbnail filed under `key`, without regard to
/// ASCII case.
fn thumb_for(thumbs: &Vec<ThumbnailRef>, key: &str) -> (r: Option<(String, String)>)
    ensures
        match r {
            Some(pm) => spec_thumb_for(thumbs@, key@) == Some((pm.0@, pm.1@)),
            None => spec_thumb_for(thumbs@, key@) is None,
        },
{
    let mut i: usize = 0;
    proof {
        assert(thumbs@.skip(0) =~= thumbs@);
    }
    while i < thumbs.len()
        invariant
            i <= thumbs@.len(),
            spec_thumb_for(thumbs@, key@) == spec_thumb_for(thumbs@.skip(i as int), key@),
        decreases thumbs@.len() - i,
    {
        proof {
            assert(thumbs@.skip(i as int)[0] == thumbs@[i as int]);
            assert(thumbs@.skip(i as int).drop_first() =~= thumbs@.skip(i + 1));
        }
        if eq_ignore_ascii_case(thumbs[i].key.as_str(), key) {
            return Some((thumbs[i].path.clone(), thumbs[i].mime.clone()));
        }
        i += 1;
    }
    None
}

/// The key source an entry looks its thumbnail up under.
fn entry_key(e: &FsEntry) -> (r: Option<String>)
    ensures
        match r {
            Some(k) => spec_entry_key(*e) == Some(k@),
            None => spec_entry_key(*e) is None,
        },
{
    if e.is_directory {
        match &e.name {
            Some(n) => Some(n.clone()),
            None => None,
        }
    } else {
        crate::analyzer::path_stem(e.path.as_str())
    }
}

/// Attach each entry's thumbnail, when one is filed under its key.
pub fn attach_thumbnails(entries: Vec<FsEntry>, thumbs: &Vec<ThumbnailRef>) -> (r: Vec<FsEntry>)
    ensures
        spec_attach_rel(entries@, thumbs@, r@),
{
    let ghost all = entries@;
    let mut rest = entries;
    let mut out: Vec<FsEntry> = Vec::new();
    let ghost mut i: int = 0;
    proof {
        assert(rest@ =~= all.skip(0));
    }
    while rest.len() > 0
        invariant
            0 <= i <= all.len(),
            rest@ == all.skip(i),
            out@.len() == i,
            forall|j: int| 0 <= j < i ==> spec_attached(#[trigger] all[j], thumbs@, out@[j]),
        decreases rest@.len(),
    {
        proof {
            assert(all.skip(i)[0] == all[i]);
        }
        let e = rest.remove(0);
        proof {
            assert(e == all[i]);
            assert(rest@ =~= all.skip(i + 1));
        }
        let (tp, tm) = match entry_key(&e) {
            Some(k) => match thumb_for(thumbs, k.as_str()) {
                Some(pm) => (Some(pm.0), Some(pm.1)),
                None => (None, None),
            },
            None => (None, None),
        };
        out.push(
            FsEntry {
                name: e.name,
                path: e.path,
                is_directory: e.is_directory,
                size: e.size,
                modified: e.modified,
                thumbnail_path: tp,
                thumbnail_mime_type: tm,
            },
        );
        proof {
            i = i + 1;
        }
    }
    proof {
        assert(i == all.len());
    }
    out
}

// --- the listing builders ---

/// Assemble a plain directory listing: entries with a readable name,
/// directories first, names compared without regard to ASCII case.
/// A missing directory reports `DoesNotExist`; a path that is not a
/// directory is invalid input.
pub fn build_directory_listing(
    path: String,
    exists: bool,
    is_directory: bool,
    raw: Vec<FsEntry>,
) -> (r: CommandResult<DirectoryListingResult>)
    ensures
        !exists ==> (r matches Ok(l) && l.status is DoesNotExist && l.entries@.len() == 0
            && l.path@ == path@),
        (exists && !is_directory) <==> r is Err,
        r matches Err(e) ==> (e matches CommandError::Input(m) && m@ == "Not a directory: "@
            + path@),
        (exists && is_directory) ==> (r matches Ok(l) && {
            let kept = spec_filter_entries(raw@, ListingFilter::Named);
            &&& l.path@ == path@
            &&& spec_sorted(SortMode::DirsFirstNameInsensitive, l.entries@)
            &&& l.entries@.to_multiset() == kept.to_multiset()
            &&& l.entries@.len() == kept.len()
            &&& l.status == (if kept.len() == 0 {
                ListingStatus::ExistsAndEmpty
            } else {
                ListingStatus::ExistsAndPopulated
            })
        }),
{
    if !exists {
        return Ok(
            DirectoryListingResult {
                status: ListingStatus::DoesNotExist,
                entries: Vec::new(),
                path,
            },
        );
    }
    if !is_directory {
        return Err(CommandError::Input(prefixed("Not a directory: ", path.as_str())));
    }
    let kept = filter_entries(raw, ListingFilter::Named);
    let status = if kept.len() == 0 {
        ListingStatus::ExistsAndEmpty
    } else {
        ListingStatus::ExistsAndPopulated
    };
    let entries = sort_entries(kept, SortMode::DirsFirstNameInsensitive);
    Ok(DirectoryListingResult { status, entries, path })
}

/// Assemble a maps listing: hidden extensions filtered out,
/// thumbnails attached, names compared without regard to ASCII case.
/// The status reflects the raw directory contents, before filtering.
pub fn build_maps_listing(
    path: String,
    exists: bool,
    is_directory: bool,
    raw: Vec<FsEntry>,
    thumbs: &Vec<ThumbnailRef>,
) -> (r: CommandResult<DirectoryListingResult>)
    ensures
        !exists ==> (r matches Ok(l) && l.status is DoesNotExist && l.entries@.len() == 0
            && l.path@ == path@),
        (exists && !is_directory) <==> r is Err,
        r matches Err(e) ==> (e matches CommandError::Input(m) && m@
            == "Path exists but is not a directory: "@ + path@),
        (exists && is_directory) ==> (r matches Ok(l) && {
            let kept = spec_filter_entries(raw@, ListingFilter::NamedExcludingListed);
            &&& l.path@ == path@
            &&& spec_sorted(SortMode::NameInsensitive, l.entries@)
            &&& exists|mid: Seq<FsEntry>|
                spec_attach_rel(kept, thumbs@, mid) && l.entries@.to_multiset()
                    == mid.to_multiset()
            &&& l.entries@.len() == kept.len()
            &&& l.status == (if raw@.len() == 0 {
                ListingStatus::ExistsAndEmpty
            } else {
                ListingStatus::ExistsAndPopulated
            })
        }),
{
    if !exists {
        return Ok(
            DirectoryListingResult {
                status: ListingStatus::DoesNotExist,
                entries: Vec::new(),
                path,
            },
        );
    }
    if !is_directory {
        return Err(
            CommandError::Input(prefixed("Path exists but is not a directory: ", path.as_str())),
        );
    }
    let status = if raw.len() == 0 {
        ListingStatus::ExistsAndEmpty
    } else {
        ListingStatus::ExistsAndPopulated
    };
    let kept = filter_entries(raw, ListingFilter::NamedExcludingListed);
    let mid = attach_thumbnails(kept, thumbs);
    let entries = sort_entries(mid, SortMode::NameInsensitive);
    Ok(DirectoryListingResult { status, entries, path })
}

/// Assemble a mods listing: every entry kept, thumbnails attached,
/// names compared case-sensitively.  The status reflects the raw
/// directory contents.
pub fn build_mods_listing(
    path: String,
    exists: bool,
    is_directory: bool,
    raw: Vec<FsEntry>,
    thumbs: &Vec<ThumbnailRef>,
) -> (r: CommandResult<DirectoryListingResult>)
    ensures
        !exists ==> (r matches Ok(l) && l.status is DoesNotExist && l.entries@.len() == 0
            && l.path@ == path@),
        (exists && !is_directory) <==> r is Err,
        r matches Err(e) ==> (e matches CommandError::Input(m) && m@
            == "Path exists but is not a directory: "@ + path@),
        (exists && is_directory) ==> (r matches Ok(l) && {
            &&& l.path@ == path@
            &&& spec_sorted(SortMode::Name, l.entries@)
            &&& exists|mid: Seq<FsEntry>|
                spec_attach_rel(raw@, thumbs@, mid) && l.entries@.to_multiset()
                    == mid.to_multiset()
            &&& l.entries@.len() == raw@.len()
            &&& l.status == (if raw@.len() == 0 {
                ListingStatus::ExistsAndEmpty
            } else {
                ListingStatus::ExistsAndPopulated
            })
        }),
{
    if !exists {
        return Ok(
            DirectoryListingResult {
                status: ListingStatus::DoesNotExist,
                entries: Vec::new(),
                path,
            },
        );
    }
    if !is_directory {
        return Err(
            CommandError::Input(prefixed("Path exists but is not a directory: ", path.as_str())),
        );
    }
    let status = if raw.len() == 0 {
        ListingStatus::ExistsAndEmpty
    } else {
        ListingStatus::ExistsAndPopulated
    };
    let mid = attach_thumbnails(raw, thumbs);
    let entries = sort_entries(mid, SortMode::Name);
    Ok(DirectoryListingResult { status, entries, path })
}


// --- thumbnail file naming ---

/// A file name `stem.ext`.
pub fn dotted_name(stem: &str, ext: &str) -> (r: String)
    ensures
        r@ == stem@ + "."@ + ext@,
{
    let mut r = stem.to_owned();
    r.append(".");
    r.append(ext);
    proof {
        assert(r@ =~= stem@ + "."@ + ext@);
    }
    r
}

/// The cache file names a deleted entry's thumbnail may be stored
/// under: its path hash dotted with each thumbnail extension.
pub fn thumbnail_cache_names(path: &str) -> (r: Vec<String>)
    ensures
        r@.len() == 6,
        forall|i: int|
            0 <= i < 6 ==> #[trigger] r@[i]@ == crate::numfmt::spec_hex(
                crate::utils::spec_fnv1a(path.spec_bytes()) as nat,
            ) + "."@ + seq![
                "png"@,
                "jpg"@,
                "jpeg"@,
                "gif"@,
                "webp"@,
                "bmp"@,
            ][i],
{
    let key = crate::utils::hash_path(path);
    let mut r: Vec<String> = Vec::new();
    r.push(dotted_name(key.as_str(), "png"));
    r.push(dotted_name(key.as_str(), "jpg"));
    r.push(dotted_name(key.as_str(), "jpeg"));
    r.push(dotted_name(key.as_str(), "gif"));
    r.push(dotted_name(key.as_str(), "webp"));
    r.push(dotted_name(key.as_str(), "bmp"));
    r
}

} // verus!
