//! Output path resolution.
//!
//! Given an input path and a target extension, the resolver strips the
//! input path's final extension, then probes `base.ext`, `base_new.ext`,
//! `base_new_new.ext`, ... and returns the first candidate that does not
//! collide with an existing path. The caller supplies the set of existing
//! paths as a list of strings; the result never collides with any of them.
//!
//! Resolution and the later write are not atomic: a path created after the
//! caller gathered its list is not seen here, and would be overwritten.
//! That inherited behavior is kept, not mended.

use vstd::prelude::*;
use vstd::set_lib::lemma_len_subset;

use crate::text::str_eq;

verus! {

/// The marker appended to the base name on each collision.
pub open spec fn marker_seq() -> Seq<char> {
    seq!['_', 'n', 'e', 'w']
}

/// The marker repeated `k` times.
pub open spec fn marker_run(k: nat) -> Seq<char>
    decreases k,
{
    if k == 0 {
        Seq::empty()
    } else {
        marker_run((k - 1) as nat) + marker_seq()
    }
}

/// The `k`-th candidate output path for a base name and an extension.
pub open spec fn candidate(base: Seq<char>, ext: Seq<char>, k: nat) -> Seq<char> {
    base + marker_run(k) + seq!['.'] + ext
}

/// Whether some string in `existing` reads as `s`.
pub open spec fn in_existing(existing: Seq<String>, s: Seq<char>) -> bool {
    exists|i: int| 0 <= i < existing.len() && existing[i]@ == s
}

/// `r` is the `k`-th candidate, it does not collide, and every earlier
/// candidate does.
pub open spec fn first_free_candidate(
    base: Seq<char>,
    ext: Seq<char>,
    existing: Seq<String>,
    r: Seq<char>,
    k: nat,
) -> bool {
    &&& r == candidate(base, ext, k)
    &&& !in_existing(existing, r)
    &&& forall|j: nat| j < k ==> in_existing(existing, candidate(base, ext, j))
}

/// `r` is the first candidate for `base` and `ext` that does not collide
/// with `existing`.
pub open spec fn resolved(base: Seq<char>, ext: Seq<char>, existing: Seq<String>, r: Seq<char>) -> bool {
    exists|k: nat| first_free_candidate(base, ext, existing, r, k)
}

/// `r` ends in a dot followed by `ext`.
pub open spec fn ends_with_dot_ext(r: Seq<char>, ext: Seq<char>) -> bool {
    &&& r.len() > ext.len()
    &&& r.subrange(r.len() - ext.len() - 1, r.len() as int) == seq!['.'] + ext
}

pub proof fn lemma_marker_run_len(k: nat)
    ensures
        marker_run(k).len() == 4 * k,
    decreases k,
{
    if k > 0 {
        lemma_marker_run_len((k - 1) as nat);
    }
}

pub proof fn lemma_candidate_ends_with(base: Seq<char>, ext: Seq<char>, k: nat)
    ensures
        ends_with_dot_ext(candidate(base, ext, k), ext),
{
    let r = candidate(base, ext, k);
    lemma_marker_run_len(k);
    assert(r.subrange(r.len() - ext.len() - 1, r.len() as int) =~= seq!['.'] + ext);
}

/// Every two distinct candidates differ, because each retry strictly
/// lengthens the name.
pub proof fn lemma_candidate_injective(base: Seq<char>, ext: Seq<char>, k1: nat, k2: nat)
    requires
        k1 != k2,
    ensures
        candidate(base, ext, k1) != candidate(base, ext, k2),
{
    lemma_marker_run_len(k1);
    lemma_marker_run_len(k2);
    assert(candidate(base, ext, k1).len() != candidate(base, ext, k2).len());
}

/// If the first `k` candidates all collide with `existing`, then `k` is at
/// most the number of existing paths: the candidates are pairwise distinct,
/// so each one consumes a distinct existing path.
pub proof fn lemma_probe_bound(base: Seq<char>, ext: Seq<char>, existing: Seq<String>, k: nat)
    requires
        forall|j: nat| j < k ==> in_existing(existing, candidate(base, ext, j)),
    ensures
        k <= existing.len(),
{
    broadcast use vstd::seq_lib::seq_to_set_is_finite;

    let cs = Seq::<Seq<char>>::new(k, |j: int| candidate(base, ext, j as nat));
    assert forall|i: int, j: int|
        0 <= i < cs.len() && 0 <= j < cs.len() && i != j implies cs[i] != cs[j] by {
        lemma_candidate_injective(base, ext, i as nat, j as nat);
    }
    assert(cs.no_duplicates());
    cs.unique_seq_to_set();
    let views = existing.map_values(|s: String| s@);
    let exset = views.to_set();
    assert forall|x: Seq<char>| cs.to_set().contains(x) implies exset.contains(x) by {
        let j = choose|j: int| 0 <= j < cs.len() && cs[j] == x;
        assert(in_existing(existing, candidate(base, ext, j as nat)));
        let i = choose|i: int| 0 <= i < existing.len() && existing[i]@ == x;
        assert(views[i] == x);
        assert(views.contains(x));
    }
    lemma_len_subset(cs.to_set(), exset);
    views.lemma_cardinality_of_set();
}

/// At most one candidate index can be the first free one.
pub proof fn lemma_resolution_unique(
    base: Seq<char>,
    ext: Seq<char>,
    existing: Seq<String>,
    r1: Seq<char>,
    k1: nat,
    r2: Seq<char>,
    k2: nat,
)
    requires
        first_free_candidate(base, ext, existing, r1, k1),
        first_free_candidate(base, ext, existing, r2, k2),
    ensures
        k1 == k2,
        r1 == r2,
{
    if k1 < k2 {
        assert(in_existing(existing, candidate(base, ext, k1)));
    }
    if k2 < k1 {
        assert(in_existing(existing, candidate(base, ext, k2)));
    }
}

/// Resolution is idempotent: as long as the set of existing paths has not
/// changed, any two resolved results for the same base and extension are
/// the same path.
pub proof fn lemma_resolve_idempotent(
    base: Seq<char>,
    ext: Seq<char>,
    existing: Seq<String>,
    r1: Seq<char>,
    r2: Seq<char>,
)
    requires
        resolved(base, ext, existing, r1),
        resolved(base, ext, existing, r2),
    ensures
        r1 == r2,
{
    let k1 = choose|k: nat| first_free_candidate(base, ext, existing, r1, k);
    let k2 = choose|k: nat| first_free_candidate(base, ext, existing, r2, k);
    lemma_resolution_unique(base, ext, existing, r1, k1, r2, k2);
}

/// Collision avoidance: when the plain candidate already exists, the
/// resolved path is a strictly different name that does not exist either.
pub proof fn lemma_collision_avoided(
    base: Seq<char>,
    ext: Seq<char>,
    existing: Seq<String>,
    r: Seq<char>,
)
    requires
        resolved(base, ext, existing, r),
        in_existing(existing, candidate(base, ext, 0)),
    ensures
        r != candidate(base, ext, 0),
        !in_existing(existing, r),
{
    let k = choose|k: nat| first_free_candidate(base, ext, existing, r, k);
    if k != 0 {
        lemma_candidate_injective(base, ext, k, 0);
    }
}

/// Whether some string in `existing` equals `x`.
pub fn contains_string(existing: &Vec<String>, x: &String) -> (r: bool)
    ensures
        r == in_existing(existing@, x@),
{
    let mut i: usize = 0;
    while i < existing.len()
        invariant
            i <= existing@.len(),
            forall|j: int| 0 <= j < i ==> existing@[j]@ != x@,
        decreases existing@.len() - i,
    {
        if str_eq(existing[i].as_str(), x.as_str()) {
            assert(existing@[i as int]@ == x@);
            return true;
        }
        i = i + 1;
    }
    false
}

/// Probes `base.ext`, `base_new.ext`, `base_new_new.ext`, ... and returns
/// the first candidate that is not among the existing paths.
pub fn new_file_name(input_file_name: &String, extension: &str, existing: &Vec<String>) -> (r: String)
    ensures
        resolved(input_file_name@, extension@, existing@, r@),
        !in_existing(existing@, r@),
        ends_with_dot_ext(r@, extension@),
{
    let mut stem: String = input_file_name.clone();
    let ghost base = input_file_name@;
    let ghost mut k: nat = 0nat;
    proof {
        assert(stem@ =~= base + marker_run(0));
    }
    loop
        invariant
            base == input_file_name@,
            stem@ == base + marker_run(k),
            forall|j: nat| j < k ==> in_existing(existing@, candidate(base, extension@, j)),
            k <= existing@.len(),
        decreases existing@.len() + 1 - k,
    {
        let mut cand: String = stem.clone();
        cand.append(".");
        cand.append(extension);
        proof {
            reveal_strlit(".");
            assert("."@ =~= seq!['.']);
            assert(cand@ =~= candidate(base, extension@, k));
        }
        if !contains_string(existing, &cand) {
            proof {
                assert(first_free_candidate(base, extension@, existing@, cand@, k));
                assert(resolved(base, extension@, existing@, cand@));
                lemma_candidate_ends_with(base, extension@, k);
            }
            return cand;
        }
        proof {
            lemma_probe_bound(base, extension@, existing@, k + 1);
        }
        stem.append("_new");
        proof {
            reveal_strlit("_new");
            assert("_new"@ =~= marker_seq());
            assert(stem@ =~= base + marker_run(k + 1));
            k = k + 1;
        }
    }
}

/// A position `p` in `s` where the final extension begins: `s[p]` is a dot,
/// it is not the first character of the file name, and no dot or separator
/// follows it.
pub open spec fn is_strip_pos(s: Seq<char>, p: int) -> bool {
    &&& 0 < p < s.len()
    &&& s[p] == '.'
    &&& s[p - 1] != '/'
    &&& forall|q: int| p < q < s.len() ==> s[q] != '.' && s[q] != '/'
}

pub open spec fn has_strip_pos(s: Seq<char>) -> bool {
    exists|p: int| is_strip_pos(s, p)
}

/// The input path with its final extension stripped; the whole path when it
/// has no extension.
pub open spec fn stripped_base(s: Seq<char>) -> Seq<char> {
    if has_strip_pos(s) {
        s.subrange(0, choose|p: int| is_strip_pos(s, p))
    } else {
        s
    }
}

pub proof fn lemma_strip_pos_unique(s: Seq<char>, p1: int, p2: int)
    requires
        is_strip_pos(s, p1),
        is_strip_pos(s, p2),
    ensures
        p1 == p2,
{
    if p1 < p2 {
        assert(s[p2] == '.');
    }
    if p2 < p1 {
        assert(s[p1] == '.');
    }
}

/// Strips the final extension from a path, leaving the whole path untouched
/// when it has none.
pub fn strip_extension(path: &String) -> (r: String)
    ensures
        r@ == stripped_base(path@),
{
    let s = path.as_str();
    let n = s.unicode_len();
    let mut i: usize = n;
    while i > 0
        invariant
            s@ == path@,
            n == s@.len(),
            i <= n,
            forall|q: int| i <= q < n ==> s@[q] != '.' && s@[q] != '/',
        decreases i,
    {
        i = i - 1;
        let c = s.get_char(i);
        if c == '/' {
            proof {
                assert forall|p: int| !is_strip_pos(path@, p) by {
                    if 0 < p < path@.len() && path@[p] == '.' {
                        if p < i as int {
                            assert(path@[i as int] == '/');
                        }
                    }
                }
            }
            return path.clone();
        }
        if c == '.' {
            if i == 0 {
                proof {
                    assert forall|p: int| !is_strip_pos(path@, p) by {
                        if 0 < p < path@.len() && path@[p] == '.' {
                            assert(p > i as int);
                        }
                    }
                }
                return path.clone();
            }
            let prev = s.get_char(i - 1);
            if prev == '/' {
                proof {
                    assert forall|p: int| !is_strip_pos(path@, p) by {
                        if 0 < p < path@.len() && path@[p] == '.' && path@[p - 1] != '/' {
                            if p < i as int {
                                assert(path@[i as int] == '.');
                            }
                        }
                    }
                }
                return path.clone();
            }
            let pre = s.substring_char(0, i);
            let r = pre.to_owned();
            proof {
                assert(is_strip_pos(path@, i as int));
                let cp = choose|p: int| is_strip_pos(path@, p);
                lemma_strip_pos_unique(path@, cp, i as int);
            }
            return r;
        }
    }
    proof {
        assert forall|p: int| !is_strip_pos(path@, p) by {
            if 0 < p < path@.len() && path@[p] == '.' {
            }
        }
    }
    path.clone()
}

/// Resolves the output path for an input path and a target extension: the
/// input's final extension is stripped, and the first non-colliding
/// candidate `base.ext`, `base_new.ext`, ... is returned.
pub fn format_file_name(input_file_path: &String, extension: &str, existing: &Vec<String>) -> (r: String)
    ensures
        resolved(stripped_base(input_file_path@), extension@, existing@, r@),
        !in_existing(existing@, r@),
        ends_with_dot_ext(r@, extension@),
{
    let base = strip_extension(input_file_path);
    new_file_name(&base, extension, existing)
}

} // verus!
