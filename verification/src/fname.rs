//! Deriving the saved file's name for a non-archive download: from
//! the `Content-Disposition` header when it names a file, else from
//! the URL's final path segment, else a fixed fallback.

use vstd::prelude::*;
use crate::pathseg::{is_usable_name, spec_usable_name};

verus! {

/// Whether `filename=` starts at position `i` of the header value.
pub open spec fn is_fname_at(h: Seq<char>, i: int) -> bool {
    0 <= i && i + 9 <= h.len() && h.subrange(i, i + 9) == "filename="@
}

/// Everything after the first `filename=` of the header value, with
/// surrounding quotes trimmed; `None` when the marker never occurs.
pub open spec fn spec_header_filename(h: Seq<char>) -> Option<Seq<char>> {
    if exists|i: int| is_fname_at(h, i) {
        let i = choose|i: int| is_fname_at(h, i) && forall|j: int| 0 <= j < i ==> !is_fname_at(h, j);
        Some(spec_trim_quotes(h.subrange(i + 9, h.len() as int)))
    } else {
        None
    }
}

/// `s` with every leading and trailing `"` removed.
pub open spec fn spec_trim_quotes(s: Seq<char>) -> Seq<char>
    decreases s.len(),
{
    if s.len() == 0 {
        s
    } else if s[0] == '"' {
        spec_trim_quotes(s.drop_first())
    } else if s.last() == '"' {
        spec_trim_quotes(s.drop_last())
    } else {
        s
    }
}

/// The text after the last `/` of `u`; all of `u` when it has none.
pub open spec fn spec_after_last_sep(u: Seq<char>) -> Seq<char> {
    if exists|k: int| 0 <= k < u.len() && u[k] == '/' {
        let k = choose|k: int|
            0 <= k < u.len() && u[k] == '/' && forall|j: int| k < j < u.len() ==> u[j] != '/';
        u.subrange(k + 1, u.len() as int)
    } else {
        u
    }
}

/// The name a non-archive download is saved under: the header-named
/// file when it is a usable single name, else the URL's final
/// segment when that is, else `downloaded_file`.
pub open spec fn spec_save_filename(header: Option<Seq<char>>, url: Seq<char>) -> Seq<char> {
    let c1 = match header {
        Some(h) => spec_header_filename(h),
        None => None,
    };
    if c1 matches Some(n) && spec_usable_name(n) {
        c1->Some_0
    } else if spec_usable_name(spec_after_last_sep(url)) {
        spec_after_last_sep(url)
    } else {
        "downloaded_file"@
    }
}

/// Remove leading and trailing `"` characters.
pub fn trim_quotes(s: &str) -> (r: String)
    ensures
        r@ == spec_trim_quotes(s@),
    decreases s@.len(),
{
    let len = s.unicode_len();
    if len == 0 {
        s.to_owned()
    } else if s.get_char(0) == '"' {
        let sub = s.substring_char(1, len);
        proof {
            assert(sub@ =~= s@.drop_first());
        }
        trim_quotes(sub)
    } else if s.get_char(len - 1) == '"' {
        let sub = s.substring_char(0, len - 1);
        proof {
            assert(sub@ =~= s@.drop_last());
        }
        trim_quotes(sub)
    } else {
        s.to_owned()
    }
}

/// Two first occurrences are the same occurrence.
proof fn lemma_first_fname_unique(h: Seq<char>, i: int, k: int)
    requires
        is_fname_at(h, i),
        forall|j: int| 0 <= j < i ==> !is_fname_at(h, j),
        is_fname_at(h, k),
        forall|j: int| 0 <= j < k ==> !is_fname_at(h, j),
    ensures
        i == k,
{
    if i < k {
        assert(!is_fname_at(h, i));
    } else if k < i {
        assert(!is_fname_at(h, k));
    }
}

/// The file named by a `Content-Disposition` header value, if any.
pub fn header_filename(h: &str) -> (r: Option<String>)
    ensures
        match r {
            Some(n) => spec_header_filename(h@) == Some(n@),
            None => spec_header_filename(h@) is None,
        },
{
    let len = h.unicode_len();
    if len < 9 {
        proof {
            assert(forall|i: int| is_fname_at(h@, i) ==> i + 9 <= h@.len());
        }
        return None;
    }
    let mut i: usize = 0;
    while i <= len - 9
        invariant
            9 <= len == h@.len(),
            i <= len - 9 + 1,
            forall|j: int| 0 <= j < i ==> !is_fname_at(h@, j),
        decreases len - i,
    {
        let piece = h.substring_char(i, i + 9);
        let marker = "filename=";
        if crate::pathseg::str_eq(piece, marker) {
            proof {
                assert(h@.subrange(i as int, i + 9 as int) == "filename="@);
                assert(is_fname_at(h@, i as int));
                let w = choose|w: int|
                    is_fname_at(h@, w) && forall|j: int| 0 <= j < w ==> !is_fname_at(h@, j);
                lemma_first_fname_unique(h@, i as int, w);
            }
            let rest = h.substring_char(i + 9, len);
            proof {
                assert(rest@ =~= h@.subrange(i + 9 as int, h@.len() as int));
            }
            return Some(trim_quotes(rest));
        }
        i += 1;
    }
    proof {
        assert(forall|j: int| is_fname_at(h@, j) ==> 0 <= j < len - 9 + 1);
    }
    None
}

/// The text after the last `/` of the URL; the URL itself without
/// one.
pub fn url_last_segment(url: &str) -> (r: String)
    ensures
        r@ == spec_after_last_sep(url@),
{
    let len = url.unicode_len();
    let mut i: usize = len;
    while i > 0
        invariant
            i <= len,
            len == url@.len(),
            forall|j: int| i <= j < len ==> url@[j] != '/',
        decreases i,
    {
        if url.get_char(i - 1) == '/' {
            proof {
                let k0 = i - 1;
                assert(0 <= k0 < url@.len() && url@[k0 as int] == '/');
                let k = choose|k: int|
                    0 <= k < url@.len() && url@[k] == '/' && forall|j: int|
                        k < j < url@.len() ==> url@[j] != '/';
                if k < k0 {
                    assert(url@[k0 as int] == '/');
                } else if k0 < k {
                    assert(url@[k] != '/');
                }
            }
            let rest = url.substring_char(i, len);
            proof {
                assert(rest@ =~= url@.subrange(i as int, url@.len() as int));
            }
            return rest.to_owned();
        }
        i -= 1;
    }
    proof {
        assert(forall|k: int| 0 <= k < url@.len() ==> url@[k] != '/');
    }
    url.to_owned()
}

/// Derive the name a non-archive download is saved under.
pub fn derive_save_filename(content_disposition: Option<&str>, url: &str) -> (r: String)
    ensures
        r@ == spec_save_filename(
            match content_disposition {
                Some(h) => Some(h@),
                None => None,
            },
            url@,
        ),
        spec_usable_name(r@),
{
    proof {
        reveal_strlit("downloaded_file");
        assert("downloaded_file"@ =~= seq![
            'd',
            'o',
            'w',
            'n',
            'l',
            'o',
            'a',
            'd',
            'e',
            'd',
            '_',
            'f',
            'i',
            'l',
            'e',
        ]);
        assert(spec_usable_name("downloaded_file"@));
    }
    match content_disposition {
        Some(h) => {
            if let Some(n) = header_filename(h) {
                if is_usable_name(n.as_str()) {
                    return n;
                }
            }
        },
        None => {},
    }
    let seg = url_last_segment(url);
    if is_usable_name(seg.as_str()) {
        return seg;
    }
    "downloaded_file".to_owned()
}

} // verus!
