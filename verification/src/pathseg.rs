//! A model of relative paths as sequences of components.
//!
//! An archive entry's path is a string whose components are separated
//! by `/`.  Empty chunks and `.` chunks carry no meaning and are
//! dropped; a `..` component is the traversal marker the pipeline must
//! reject.  Everything downstream — the structure analyzer, the
//! extractor and its containment argument — reasons over
//! [`spec_components`].

use vstd::prelude::*;
use vstd::seq_lib::*;

verus! {

/// Raw splitting of `s` on `/`, keeping empty chunks.  A string with
/// `n` separators has exactly `n + 1` chunks.
pub open spec fn raw_chunks(s: Seq<char>) -> Seq<Seq<char>>
    decreases s.len(),
{
    if s.len() == 0 {
        seq![Seq::<char>::empty()]
    } else if s.last() == '/' {
        raw_chunks(s.drop_last()).push(Seq::<char>::empty())
    } else {
        let prev = raw_chunks(s.drop_last());
        prev.update(prev.len() - 1, prev.last().push(s.last()))
    }
}

/// Whether a raw chunk is a meaningful path component: non-empty and
/// not the no-op `.` segment.
pub open spec fn keeps(c: Seq<char>) -> bool {
    c.len() > 0 && c != seq!['.']
}

/// The components of a path string: raw chunks with empty and `.`
/// chunks dropped.
pub open spec fn spec_components(s: Seq<char>) -> Seq<Seq<char>> {
    raw_chunks(s).filter(|c: Seq<char>| keeps(c))
}

/// The traversal marker.
pub open spec fn dot_dot() -> Seq<char> {
    seq!['.', '.']
}

/// Whether some component of `comps` is the `..` traversal marker.
pub open spec fn spec_has_dotdot(comps: Seq<Seq<char>>) -> bool {
    exists|j: int| 0 <= j < comps.len() && comps[j] == dot_dot()
}

/// A string usable as a single, freshly created directory or file
/// name: non-empty, no separators, no NUL, and not a dot segment.
pub open spec fn spec_usable_name(s: Seq<char>) -> bool {
    &&& s.len() > 0
    &&& s != seq!['.']
    &&& s != dot_dot()
    &&& forall|i: int| 0 <= i < s.len() ==> s[i] != '/' && s[i] != '\\' && s[i] != '\0'
}

/// `raw_chunks` always yields at least one chunk.
pub proof fn lemma_raw_chunks_nonempty(s: Seq<char>)
    ensures
        raw_chunks(s).len() >= 1,
    decreases s.len(),
{
    if s.len() > 0 {
        lemma_raw_chunks_nonempty(s.drop_last());
    }
}

/// No chunk of `raw_chunks` contains a separator.
pub proof fn lemma_raw_chunks_no_sep(s: Seq<char>)
    ensures
        forall|i: int, j: int|
            0 <= i < raw_chunks(s).len() && 0 <= j < raw_chunks(s)[i].len()
                ==> raw_chunks(s)[i][j] != '/',
    decreases s.len(),
{
    if s.len() > 0 {
        lemma_raw_chunks_no_sep(s.drop_last());
        lemma_raw_chunks_nonempty(s.drop_last());
    }
}

/// A string without separators is one raw chunk: itself.
pub proof fn lemma_raw_chunks_single(s: Seq<char>)
    requires
        forall|i: int| 0 <= i < s.len() ==> s[i] != '/',
    ensures
        raw_chunks(s) =~~= seq![s],
    decreases s.len(),
{
    if s.len() == 0 {
    } else {
        lemma_raw_chunks_single(s.drop_last());
        assert(raw_chunks(s) =~~= seq![s.drop_last()].update(0, s.drop_last().push(s.last())));
        assert(s.drop_last().push(s.last()) =~= s);
    }
}

/// Splitting distributes over a separator: the chunks of
/// `a + "/" + b` are the chunks of `a` followed by the chunks of `b`.
pub proof fn lemma_raw_chunks_split(a: Seq<char>, b: Seq<char>)
    ensures
        raw_chunks(a + seq!['/'] + b) =~~= raw_chunks(a) + raw_chunks(b),
    decreases b.len(),
{
    let s = a + seq!['/'] + b;
    if b.len() == 0 {
        assert(s.last() == '/');
        assert(s.drop_last() =~= a);
    } else {
        lemma_raw_chunks_split(a, b.drop_last());
        lemma_raw_chunks_nonempty(b.drop_last());
        assert(s.drop_last() =~= a + seq!['/'] + b.drop_last());
        assert(s.last() == b.last());
        if b.last() == '/' {
            assert(raw_chunks(s) =~~= raw_chunks(a) + raw_chunks(b));
        } else {
            let prev = raw_chunks(a) + raw_chunks(b.drop_last());
            assert(raw_chunks(s) == prev.update(prev.len() - 1, prev.last().push(b.last())));
            lemma_raw_chunks_nonempty(a);
            assert(raw_chunks(s) =~~= raw_chunks(a) + raw_chunks(b));
        }
    }
}

/// Component splitting distributes over a separator.
pub proof fn lemma_components_split(a: Seq<char>, b: Seq<char>)
    ensures
        spec_components(a + seq!['/'] + b) =~~= spec_components(a) + spec_components(b),
{
    lemma_raw_chunks_split(a, b);
    Seq::<Seq<char>>::filter_distributes_over_add(
        raw_chunks(a),
        raw_chunks(b),
        |c: Seq<char>| keeps(c),
    );
    assert(raw_chunks(a + seq!['/'] + b).filter(|c: Seq<char>| keeps(c)) =~~= (raw_chunks(a)
        + raw_chunks(b)).filter(|c: Seq<char>| keeps(c)));
}

/// A usable name is its own single component.
pub proof fn lemma_components_of_usable(s: Seq<char>)
    requires
        s.len() > 0,
        s != seq!['.'],
        forall|i: int| 0 <= i < s.len() ==> s[i] != '/',
    ensures
        spec_components(s) =~~= seq![s],
{
    lemma_raw_chunks_single(s);
    reveal(Seq::filter);
    assert(seq![s].drop_last() =~~= Seq::<Seq<char>>::empty());
    assert(spec_components(s) =~~= seq![s]);
}

/// Every element of a filtered chunk list occurs in the original list.
pub(crate) proof fn lemma_filter_elem_from(s: Seq<Seq<char>>, i: int)
    requires
        0 <= i < s.filter(|c: Seq<char>| keeps(c)).len(),
    ensures
        s.contains(s.filter(|c: Seq<char>| keeps(c))[i]),
    decreases s.len(),
{
    reveal(Seq::filter);
    let pred = |c: Seq<char>| keeps(c);
    let f = s.filter(pred);
    if s.len() > 0 {
        let fd = s.drop_last().filter(pred);
        if i < fd.len() {
            lemma_filter_elem_from(s.drop_last(), i);
            let k = choose|k: int| 0 <= k < s.drop_last().len() && s.drop_last()[k] == fd[i];
            assert(s[k] == fd[i]);
        } else {
            assert(f[i] == s.last());
            assert(s[s.len() - 1] == s.last());
        }
    }
}

/// Equality of two string slices, decided character by character.
pub fn str_eq(a: &str, b: &str) -> (r: bool)
    ensures
        r <==> a@ == b@,
{
    let la = a.unicode_len();
    let lb = b.unicode_len();
    if la != lb {
        return false;
    }
    let mut i: usize = 0;
    while i < la
        invariant
            i <= la,
            la == a@.len(),
            la == b@.len(),
            forall|j: int| 0 <= j < i ==> a@[j] == b@[j],
        decreases la - i,
    {
        if a.get_char(i) != b.get_char(i) {
            return false;
        }
        i += 1;
    }
    proof {
        assert(a@ =~= b@);
    }
    true
}

/// Whether the string equals the `..` traversal marker.
pub fn is_dotdot(s: &str) -> (r: bool)
    ensures
        r <==> s@ == dot_dot(),
{
    proof {
        reveal_strlit("..");
        assert(".."@ =~= dot_dot());
    }
    str_eq(s, "..")
}

/// Whether any of the given components equals `..`.
pub fn comps_have_dotdot(comps: &Vec<String>) -> (r: bool)
    ensures
        r <==> spec_has_dotdot(comps@.map_values(|t: String| t@)),
{
    let ghost m = comps@.map_values(|t: String| t@);
    let mut j: usize = 0;
    while j < comps.len()
        invariant
            j <= comps@.len(),
            m == comps@.map_values(|t: String| t@),
            forall|k: int| 0 <= k < j ==> #[trigger] m[k] != dot_dot(),
        decreases comps@.len() - j,
    {
        if is_dotdot(comps[j].as_str()) {
            proof {
                assert(m[j as int] == dot_dot());
            }
            return true;
        }
        j += 1;
    }
    false
}

/// Split a path string into its components.
pub fn split_components(s: &str) -> (r: Vec<String>)
    ensures
        r@.map_values(|t: String| t@) == spec_components(s@),
        forall|i: int, j: int|
            0 <= i < r@.len() && 0 <= j < r@[i]@.len() ==> r@[i]@[j] != '/',
        forall|i: int| 0 <= i < r@.len() ==> keeps(#[trigger] r@[i]@),
{
    let len = s.unicode_len();
    let mut done: Vec<String> = Vec::new();
    let mut start: usize = 0;
    let mut i: usize = 0;
    while i < len
        invariant
            start <= i <= len,
            len == s@.len(),
            raw_chunks(s@.subrange(0, i as int)).last() == s@.subrange(start as int, i as int),
            done@.map_values(|t: String| t@) == raw_chunks(s@.subrange(0, i as int)).drop_last()
                .filter(|c: Seq<char>| keeps(c)),
        decreases len - i,
    {
        let ghost prefix = s@.subrange(0, i as int);
        let ghost prefix2 = s@.subrange(0, i + 1 as int);
        proof {
            assert(prefix2.drop_last() =~= prefix);
            lemma_raw_chunks_nonempty(prefix);
        }
        let c = s.get_char(i);
        if c == '/' {
            proof {
                assert(raw_chunks(prefix2) == raw_chunks(prefix).push(Seq::<char>::empty()));
                assert(raw_chunks(prefix2).drop_last() =~~= raw_chunks(prefix));
                assert(raw_chunks(prefix2).last() =~= s@.subrange(i + 1 as int, i + 1 as int));
            }
            let keep = if i == start {
                false
            } else if i == start + 1 {
                !(s.get_char(start) == '.')
            } else {
                true
            };
            let ghost chunk = s@.subrange(start as int, i as int);
            proof {
                if i == start + 1 && s@[start as int] == '.' {
                    assert(chunk =~= seq!['.']);
                }
                if keep {
                    assert(chunk.len() > 0);
                    if chunk == seq!['.'] {
                        assert(chunk.len() == 1 && chunk[0] == '.');
                        assert(false);
                    }
                }
                assert(keep <==> keeps(chunk));
                // One unfolding of filter over the grown chunk list.
                reveal(Seq::filter);
                assert(raw_chunks(prefix).drop_last().push(chunk) =~~= raw_chunks(prefix));
                assert(raw_chunks(prefix).filter(|c: Seq<char>| keeps(c)) == if keeps(chunk) {
                    raw_chunks(prefix).drop_last().filter(|c: Seq<char>| keeps(c)).push(chunk)
                } else {
                    raw_chunks(prefix).drop_last().filter(|c: Seq<char>| keeps(c))
                });
            }
            if keep {
                let piece = s.substring_char(start, i).to_owned();
                proof {
                    assert(done@.push(piece).map_values(|t: String| t@) =~= done@.map_values(
                        |t: String| t@,
                    ).push(chunk));
                }
                done.push(piece);
            }
            start = i + 1;
        } else {
            proof {
                let prev = raw_chunks(prefix);
                assert(raw_chunks(prefix2) == prev.update(prev.len() - 1, prev.last().push(c)));
                assert(raw_chunks(prefix2).drop_last() =~~= prev.drop_last());
                assert(prev.last().push(c) =~= s@.subrange(start as int, i + 1 as int));
            }
        }
        i += 1;
    }
    // Flush the final chunk.
    let ghost whole = s@.subrange(0, len as int);
    proof {
        assert(whole =~= s@);
        lemma_raw_chunks_nonempty(whole);
    }
    let keep = if len == start {
        false
    } else if len == start + 1 {
        !(s.get_char(start) == '.')
    } else {
        true
    };
    let ghost chunk = s@.subrange(start as int, len as int);
    proof {
        if len == start + 1 && s@[start as int] == '.' {
            assert(chunk =~= seq!['.']);
        }
        if keep {
            assert(chunk.len() > 0);
            if chunk == seq!['.'] {
                assert(chunk.len() == 1 && chunk[0] == '.');
                assert(false);
            }
        }
        assert(keep <==> keeps(chunk));
        reveal(Seq::filter);
        assert(raw_chunks(whole).drop_last().push(chunk) =~~= raw_chunks(whole));
        assert(raw_chunks(whole).filter(|c: Seq<char>| keeps(c)) == if keeps(chunk) {
            raw_chunks(whole).drop_last().filter(|c: Seq<char>| keeps(c)).push(chunk)
        } else {
            raw_chunks(whole).drop_last().filter(|c: Seq<char>| keeps(c))
        });
    }
    if keep {
        let piece = s.substring_char(start, len).to_owned();
        proof {
            assert(done@.push(piece).map_values(|t: String| t@) =~= done@.map_values(
                |t: String| t@,
            ).push(chunk));
        }
        done.push(piece);
    }
    proof {
        lemma_raw_chunks_no_sep(s@);
        let m = done@.map_values(|t: String| t@);
        assert(m =~= spec_components(s@));
        assert forall|ii: int| 0 <= ii < done@.len() implies keeps(#[trigger] done@[ii]@)
            && raw_chunks(s@).contains(done@[ii]@) by {
            assert(done@[ii]@ == m[ii]);
            Seq::<Seq<char>>::lemma_filter_pred(raw_chunks(s@), |c: Seq<char>| keeps(c), ii);
            lemma_filter_elem_from(raw_chunks(s@), ii);
        }
        assert forall|ii: int, jj: int|
            0 <= ii < done@.len() && 0 <= jj < done@[ii]@.len() implies done@[ii]@[jj]
            != '/' by {
            assert(raw_chunks(s@).contains(done@[ii]@));
            let k = choose|k: int| 0 <= k < raw_chunks(s@).len() && raw_chunks(s@)[k] == done@[ii]@;
            assert(raw_chunks(s@)[k][jj] != '/');
        }
    }
    done
}

/// Join components back into a path string with `/` separators.
pub open spec fn spec_join(comps: Seq<Seq<char>>) -> Seq<char>
    decreases comps.len(),
{
    if comps.len() == 0 {
        Seq::<char>::empty()
    } else if comps.len() == 1 {
        comps[0]
    } else {
        spec_join(comps.drop_last()) + seq!['/'] + comps.last()
    }
}

/// Join a vector of components into one path string.
pub fn join_components(comps: &Vec<String>) -> (r: String)
    ensures
        r@ == spec_join(comps@.map_values(|t: String| t@)),
{
    let mut r = String::new();
    let mut i: usize = 0;
    while i < comps.len()
        invariant
            i <= comps@.len(),
            r@ == spec_join(comps@.map_values(|t: String| t@).subrange(0, i as int)),
        decreases comps@.len() - i,
    {
        let ghost m = comps@.map_values(|t: String| t@);
        if i > 0 {
            proof {
                reveal_strlit("/");
            }
            r.append("/");
            proof {
                assert("/"@ =~= seq!['/']);
            }
        }
        r.append(comps[i].as_str());
        proof {
            let pre2 = m.subrange(0, i + 1 as int);
            assert(pre2.drop_last() =~= m.subrange(0, i as int));
            assert(pre2.last() == m[i as int]);
            if i == 0 {
                assert(r@ =~= spec_join(pre2));
            } else {
                assert(r@ =~= spec_join(pre2));
            }
        }
        i += 1;
    }
    proof {
        assert(comps@.map_values(|t: String| t@).subrange(
            0,
            comps@.len() as int,
        ) =~= comps@.map_values(|t: String| t@));
    }
    r
}

/// Splitting a joined list of well-formed components gives the list
/// back: the extractor's output strings mean exactly their components.
pub proof fn lemma_components_of_join(comps: Seq<Seq<char>>)
    requires
        forall|i: int| 0 <= i < comps.len() ==> keeps(#[trigger] comps[i]),
        forall|i: int, j: int|
            0 <= i < comps.len() && 0 <= j < comps[i].len() ==> comps[i][j] != '/',
    ensures
        spec_components(spec_join(comps)) =~~= comps,
    decreases comps.len(),
{
    if comps.len() == 0 {
        reveal_with_fuel(Seq::filter, 2);
        assert(raw_chunks(Seq::<char>::empty()) == seq![Seq::<char>::empty()]);
        assert(seq![Seq::<char>::empty()].drop_last() =~= Seq::<Seq<char>>::empty());
        assert(spec_components(spec_join(comps)) =~~= comps);
    } else if comps.len() == 1 {
        lemma_components_of_usable(comps[0]);
        assert(spec_components(spec_join(comps)) =~~= comps);
    } else {
        assert(forall|i: int|
            0 <= i < comps.drop_last().len() ==> keeps(#[trigger] comps.drop_last()[i]));
        assert(forall|i: int, j: int|
            0 <= i < comps.drop_last().len() && 0 <= j < comps.drop_last()[i].len()
                ==> comps.drop_last()[i][j] != '/');
        lemma_components_of_join(comps.drop_last());
        lemma_components_split(spec_join(comps.drop_last()), comps.last());
        assert(keeps(comps[comps.len() - 1]));
        assert(forall|j: int|
            0 <= j < comps.last().len() ==> #[trigger] comps.last()[j] != '/');
        lemma_components_of_usable(comps.last());
        assert(spec_components(spec_join(comps)) =~~= spec_components(spec_join(comps.drop_last()))
            + spec_components(comps.last()));
        assert(comps.drop_last() + seq![comps.last()] =~~= comps);
        assert(spec_components(spec_join(comps)) =~~= comps);
    }
}

/// Whether `s` is usable as a single fresh file-system name.
pub fn is_usable_name(s: &str) -> (r: bool)
    ensures
        r <==> spec_usable_name(s@),
{
    let len = s.unicode_len();
    if len == 0 {
        return false;
    }
    if len == 1 && s.get_char(0) == '.' {
        proof {
            assert(s@ =~= seq!['.']);
        }
        return false;
    }
    if len == 2 && s.get_char(0) == '.' && s.get_char(1) == '.' {
        proof {
            assert(s@ =~= dot_dot());
        }
        return false;
    }
    let mut i: usize = 0;
    while i < len
        invariant
            i <= len,
            len == s@.len(),
            forall|j: int| 0 <= j < i ==> s@[j] != '/' && s@[j] != '\\' && s@[j] != '\0',
        decreases len - i,
    {
        let c = s.get_char(i);
        if c == '/' || c == '\\' || c == '\0' {
            return false;
        }
        i += 1;
    }
    proof {
        if s@ == seq!['.'] {
            assert(s@.len() == 1);
        }
        if s@ == dot_dot() {
            assert(s@.len() == 2 && s@[0] == '.' && s@[1] == '.');
        }
    }
    true
}

/// The file stem of a single name: the part before the final `.`,
/// unless the name has no `.` past its first character.
pub open spec fn stem_split_at(name: Seq<char>, i: int) -> bool {
    0 < i < name.len() && name[i] == '.' && forall|j: int| i < j < name.len() ==> name[j] != '.'
}

/// The stem of one path component.
pub open spec fn spec_stem_of(name: Seq<char>) -> Seq<char> {
    if exists|i: int| stem_split_at(name, i) {
        name.subrange(0, choose|i: int| stem_split_at(name, i))
    } else {
        name
    }
}

/// The extension of one path component: the part after the final
/// `.`, when the stem splits there.
pub open spec fn spec_ext_of(name: Seq<char>) -> Option<Seq<char>> {
    if exists|i: int| stem_split_at(name, i) {
        Some(name.subrange((choose|i: int| stem_split_at(name, i)) + 1, name.len() as int))
    } else {
        None
    }
}

/// Splitting points for the stem are unique.
proof fn lemma_stem_split_unique(name: Seq<char>, i: int, k: int)
    requires
        stem_split_at(name, i),
        stem_split_at(name, k),
    ensures
        i == k,
{
    if i < k {
        assert(name[k] != '.');
    } else if k < i {
        assert(name[i] != '.');
    }
}

/// The extension of one name, executable form.
pub fn ext_of(name: &str) -> (r: Option<String>)
    ensures
        match r {
            Some(x) => spec_ext_of(name@) == Some(x@),
            None => spec_ext_of(name@) is None,
        },
{
    let len = name.unicode_len();
    let mut i: usize = len;
    while i > 0
        invariant
            i <= len,
            len == name@.len(),
            forall|j: int| i <= j < len ==> name@[j] != '.',
        decreases i,
    {
        if name.get_char(i - 1) == '.' {
            if i - 1 > 0 {
                proof {
                    assert(stem_split_at(name@, i - 1));
                    let w = choose|w: int| stem_split_at(name@, w);
                    lemma_stem_split_unique(name@, w, i - 1);
                }
                let x = name.substring_char(i, len);
                proof {
                    assert(x@ =~= name@.subrange(i as int, name@.len() as int));
                }
                return Some(x.to_owned());
            } else {
                proof {
                    assert(forall|w: int| stem_split_at(name@, w) ==> false) by {
                        assert forall|w: int| stem_split_at(name@, w) implies false by {
                            if w > 0 {
                                assert(name@[w] != '.');
                            }
                        }
                    }
                }
                return None;
            }
        }
        i -= 1;
    }
    proof {
        assert(forall|w: int| stem_split_at(name@, w) ==> false) by {
            assert forall|w: int| stem_split_at(name@, w) implies false by {
                assert(name@[w] != '.');
            }
        }
    }
    None
}

/// The stem of one name, executable form.
pub fn stem_of(name: &str) -> (r: String)
    ensures
        r@ == spec_stem_of(name@),
{
    let len = name.unicode_len();
    // Scan backwards for the last `.`.
    let mut i: usize = len;
    while i > 0
        invariant
            i <= len,
            len == name@.len(),
            forall|j: int| i <= j < len ==> name@[j] != '.',
        decreases i,
    {
        if name.get_char(i - 1) == '.' {
            // Found the last dot, at i - 1.
            if i - 1 > 0 {
                proof {
                    assert(stem_split_at(name@, i - 1));
                    let w = choose|w: int| stem_split_at(name@, w);
                    lemma_stem_split_unique(name@, w, i - 1);
                }
                return name.substring_char(0, i - 1).to_owned();
            } else {
                proof {
                    assert(forall|w: int| stem_split_at(name@, w) ==> false) by {
                        assert forall|w: int| stem_split_at(name@, w) implies false by {
                            if w > 0 {
                                assert(name@[w] != '.');
                            }
                        }
                    }
                }
                return name.to_owned();
            }
        }
        i -= 1;
    }
    proof {
        assert(forall|w: int| stem_split_at(name@, w) ==> false) by {
            assert forall|w: int| stem_split_at(name@, w) implies false by {
                assert(name@[w] != '.');
            }
        }
    }
    name.to_owned()
}

} // verus!
