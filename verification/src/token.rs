//! Fresh unique name tokens, for archives that offer no usable name
//! of their own.

use vstd::prelude::*;
use crate::pathseg::{spec_usable_name, dot_dot};

verus! {

/// Whether `s` is a lowercase hyphenated UUID rendering: 36
/// characters of lowercase hexadecimal digits and hyphens.
pub open spec fn spec_uuid_shape(s: Seq<char>) -> bool {
    &&& s.len() == 36
    &&& forall|i: int|
        0 <= i < s.len() ==> ('0' <= #[trigger] s[i] <= '9' || 'a' <= s[i] <= 'f' || s[i] == '-')
}

/// Relies on `uuid::Uuid::new_v4` and its `Display`: a fresh random
/// UUID, rendered in the lowercase hyphenated form, which is 36
/// characters of lowercase hex digits and hyphens.  Nothing is
/// assumed about which UUID comes back.
#[verifier::external_body]
fn new_v4_hyphenated() -> (r: String)
    ensures
        spec_uuid_shape(r@),
{
    uuid::Uuid::new_v4().to_string()
}

/// A fresh token `prefix` + UUID, usable as a single file-system
/// name.  The prefix must itself be usable.
pub fn fresh_token(prefix: &str) -> (r: String)
    requires
        spec_usable_name(prefix@),
    ensures
        spec_usable_name(r@),
        r@.len() == prefix@.len() + 36,
        r@.subrange(0, prefix@.len() as int) == prefix@,
{
    let uuid = new_v4_hyphenated();
    let mut r = prefix.to_owned();
    r.append(uuid.as_str());
    proof {
        assert(r@.subrange(0, prefix@.len() as int) =~= prefix@);
        assert(r@.len() > 2);
        if r@ == seq!['.'] || r@ == dot_dot() {
            assert(r@.len() <= 2);
        }
        assert forall|i: int| 0 <= i < r@.len() implies r@[i] != '/' && r@[i] != '\\' && r@[i]
            != '\0' by {
            if i < prefix@.len() {
                assert(r@[i] == prefix@[i]);
            } else {
                assert(r@[i] == uuid@[i - prefix@.len()]);
            }
        }
    }
    r
}

} // verus!
