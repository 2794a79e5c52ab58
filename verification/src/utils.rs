//! Shared helpers: the cache-key hash, timestamp conversion,
//! case-insensitive extension matching, and directory sizes.

use vstd::prelude::*;
use vstd::string::StringSliceAdditionalSpecFns;

verus! {

/// FNV-1a 64-bit offset basis.
pub const FNV_OFFSET: u64 = 0xcbf29ce484222325;

/// FNV-1a 64-bit prime.
pub const FNV_PRIME: u64 = 0x100000001b3;

/// The FNV-1a hash of a byte sequence, folded left to right.
pub open spec fn spec_fnv1a(bytes: Seq<u8>) -> u64
    decreases bytes.len(),
{
    if bytes.len() == 0 {
        FNV_OFFSET
    } else {
        vstd::wrapping::u64_specs::wrapping_mul(
            spec_fnv1a(bytes.drop_last()) ^ (bytes.last() as u64),
            FNV_PRIME,
        )
    }
}

/// A stable hash of a path string, as lowercase hexadecimal text:
/// the cache key under which a directory's thumbnail is stored.
pub fn hash_path(path: &str) -> (r: String)
    ensures
        r@ == crate::numfmt::spec_hex(spec_fnv1a(path.spec_bytes()) as nat),
{
    let bytes = path.as_bytes_vec();
    let mut h: u64 = FNV_OFFSET;
    let mut i: usize = 0;
    while i < bytes.len()
        invariant
            i <= bytes@.len(),
            bytes@ == path.spec_bytes(),
            h == spec_fnv1a(bytes@.subrange(0, i as int)),
        decreases bytes@.len() - i,
    {
        proof {
            assert(bytes@.subrange(0, i + 1 as int).drop_last() =~= bytes@.subrange(0, i as int));
            assert(bytes@.subrange(0, i + 1 as int).last() == bytes@[i as int]);
        }
        h = (h ^ (bytes[i] as u64)).wrapping_mul(FNV_PRIME);
        i += 1;
    }
    proof {
        assert(bytes@.subrange(0, bytes@.len() as int) =~= bytes@);
    }
    crate::numfmt::u64_to_hex(h)
}

/// Milliseconds since the epoch, truncated to 64 bits; `None` when
/// the timestamp was missing or sat before the epoch.
pub fn system_time_to_millis(millis_since_epoch: Option<u128>) -> (r: Option<u64>)
    ensures
        match millis_since_epoch {
            None => r is None,
            Some(ms) => r == Some((ms as nat % 0x1_0000_0000_0000_0000) as u64),
        },
{
    match millis_since_epoch {
        None => None,
        Some(ms) => Some((ms % 0x1_0000_0000_0000_0000u128) as u64),
    }
}

/// The ASCII-lowercase form of one character.
pub open spec fn spec_lower_char(c: char) -> char {
    if 'A' <= c <= 'Z' {
        ((c as u8) + 32) as char
    } else {
        c
    }
}

/// The ASCII-lowercase form of a string.
pub open spec fn spec_to_ascii_lower(s: Seq<char>) -> Seq<char> {
    s.map_values(|c: char| spec_lower_char(c))
}

/// One character, ASCII-lowercased.
pub fn lower_char(c: char) -> (r: char)
    ensures
        r == spec_lower_char(c),
{
    if 'A' <= c && c <= 'Z' {
        ((c as u8) + 32) as char
    } else {
        c
    }
}

/// Whether two strings agree up to ASCII case.
pub fn eq_ignore_ascii_case(a: &str, b: &str) -> (r: bool)
    ensures
        r <==> spec_to_ascii_lower(a@) == spec_to_ascii_lower(b@),
{
    let la = a.unicode_len();
    let lb = b.unicode_len();
    if la != lb {
        proof {
            assert(spec_to_ascii_lower(a@).len() == a@.len());
            assert(spec_to_ascii_lower(b@).len() == b@.len());
        }
        return false;
    }
    let mut i: usize = 0;
    while i < la
        invariant
            i <= la,
            la == a@.len(),
            la == b@.len(),
            forall|j: int| 0 <= j < i ==> spec_lower_char(a@[j]) == spec_lower_char(b@[j]),
        decreases la - i,
    {
        if lower_char(a.get_char(i)) != lower_char(b.get_char(i)) {
            proof {
                assert(spec_to_ascii_lower(a@)[i as int] != spec_to_ascii_lower(b@)[i as int]);
            }
            return false;
        }
        i += 1;
    }
    proof {
        assert(spec_to_ascii_lower(a@) =~= spec_to_ascii_lower(b@));
    }
    true
}

/// The image MIME type of a thumbnail file extension, compared
/// without regard to ASCII case.
pub open spec fn spec_mime(lower_ext: Seq<char>) -> Option<Seq<char>> {
    if lower_ext == spec_to_ascii_lower("png"@) {
        Some("image/png"@)
    } else if lower_ext == spec_to_ascii_lower("jpg"@) || lower_ext == spec_to_ascii_lower(
        "jpeg"@,
    ) {
        Some("image/jpeg"@)
    } else if lower_ext == spec_to_ascii_lower("gif"@) {
        Some("image/gif"@)
    } else if lower_ext == spec_to_ascii_lower("webp"@) {
        Some("image/webp"@)
    } else if lower_ext == spec_to_ascii_lower("bmp"@) {
        Some("image/bmp"@)
    } else {
        None
    }
}

/// The image MIME type for a file extension, when it is one of the
/// thumbnail formats.
pub fn get_mime_type_from_extension(extension: &str) -> (r: Option<String>)
    ensures
        match r {
            Some(m) => spec_mime(spec_to_ascii_lower(extension@)) == Some(m@),
            None => spec_mime(spec_to_ascii_lower(extension@)) is None,
        },
{
    if eq_ignore_ascii_case(extension, "png") {
        Some("image/png".to_owned())
    } else if eq_ignore_ascii_case(extension, "jpg") || eq_ignore_ascii_case(extension, "jpeg") {
        Some("image/jpeg".to_owned())
    } else if eq_ignore_ascii_case(extension, "gif") {
        Some("image/gif".to_owned())
    } else if eq_ignore_ascii_case(extension, "webp") {
        Some("image/webp".to_owned())
    } else if eq_ignore_ascii_case(extension, "bmp") {
        Some("image/bmp".to_owned())
    } else {
        None
    }
}

/// The sum of the sizes, capped at `u64::MAX`.
pub open spec fn spec_sum_capped(sizes: Seq<u64>) -> int
    decreases sizes.len(),
{
    if sizes.len() == 0 {
        0
    } else {
        vstd::math::min(spec_sum_capped(sizes.drop_last()) + sizes.last(), u64::MAX as int)
    }
}

/// The total size of a directory's immediate child files, from their
/// individual sizes, saturating at `u64::MAX`.
pub fn calculate_directory_size(child_file_sizes: &Vec<u64>) -> (r: u64)
    ensures
        r as int == spec_sum_capped(child_file_sizes@),
{
    let mut acc: u64 = 0;
    let mut i: usize = 0;
    while i < child_file_sizes.len()
        invariant
            i <= child_file_sizes@.len(),
            acc as int == spec_sum_capped(child_file_sizes@.subrange(0, i as int)),
        decreases child_file_sizes@.len() - i,
    {
        proof {
            assert(child_file_sizes@.subrange(0, i + 1 as int).drop_last() =~= child_file_sizes@
                .subrange(0, i as int));
        }
        let n = child_file_sizes[i];
        acc = if n > u64::MAX - acc {
            u64::MAX
        } else {
            acc + n
        };
        i += 1;
    }
    proof {
        assert(child_file_sizes@.subrange(0, child_file_sizes@.len() as int)
            =~= child_file_sizes@);
    }
    acc
}

} // verus!
