//! The order of relative paths as `Path` orders them: component by
//! component, each component by its characters; and the sorted list of the
//! paths found in several scans.
use std::cmp::Ordering;
use vstd::prelude::*;

use crate::text::{lemma_lex_lt_asymmetric, lemma_lex_lt_total, lemma_lex_lt_transitive, lex_less, lex_lt, str_equal, texts};
use crate::utils::{components, path_components};

verus! {

/// Strict lexicographic order on component lists.
pub open spec fn comps_lt(a: Seq<Seq<char>>, b: Seq<Seq<char>>) -> bool
    decreases a.len(),
{
    if a.len() == 0 {
        b.len() > 0
    } else if b.len() == 0 {
        false
    } else if a[0] != b[0] {
        lex_lt(a[0], b[0])
    } else {
        comps_lt(a.drop_first(), b.drop_first())
    }
}

/// One path comes before another.
pub open spec fn path_lt(a: Seq<char>, b: Seq<char>) -> bool {
    comps_lt(path_components(a), path_components(b))
}

/// Two paths name the same place: the same components.
pub open spec fn same_path(a: Seq<char>, b: Seq<char>) -> bool {
    path_components(a) == path_components(b)
}

/// `comps_lt` is irreflexive.
pub proof fn lemma_comps_irreflexive(a: Seq<Seq<char>>)
    ensures
        !comps_lt(a, a),
    decreases a.len(),
{
    if a.len() > 0 {
        lemma_comps_irreflexive(a.drop_first());
    }
}

/// `comps_lt` is transitive.
pub proof fn lemma_comps_transitive(a: Seq<Seq<char>>, b: Seq<Seq<char>>, c: Seq<Seq<char>>)
    requires
        comps_lt(a, b),
        comps_lt(b, c),
    ensures
        comps_lt(a, c),
    decreases a.len(),
{
    if a.len() > 0 && b.len() > 0 && c.len() > 0 {
        if a[0] == b[0] && b[0] == c[0] {
            lemma_comps_transitive(a.drop_first(), b.drop_first(), c.drop_first());
        } else if a[0] == b[0] {
        } else if b[0] == c[0] {
        } else {
            lemma_lex_lt_transitive(a[0], b[0], c[0]);
            if a[0] == c[0] {
                lemma_lex_lt_asymmetric(a[0], b[0]);
            }
        }
    }
}

/// `comps_lt` is total on distinct lists.
pub proof fn lemma_comps_total(a: Seq<Seq<char>>, b: Seq<Seq<char>>)
    ensures
        a == b || comps_lt(a, b) || comps_lt(b, a),
    decreases a.len(),
{
    if a.len() > 0 && b.len() > 0 {
        if a[0] == b[0] {
            lemma_comps_total(a.drop_first(), b.drop_first());
            if a.drop_first() == b.drop_first() {
                assert(a =~= seq![a[0]] + a.drop_first());
                assert(b =~= seq![b[0]] + b.drop_first());
            }
        } else {
            lemma_lex_lt_total(a[0], b[0]);
        }
    } else if a.len() == 0 && b.len() == 0 {
        assert(a =~= b);
    }
}

/// `comps_lt` is asymmetric.
pub proof fn lemma_comps_asymmetric(a: Seq<Seq<char>>, b: Seq<Seq<char>>)
    requires
        comps_lt(a, b),
    ensures
        !comps_lt(b, a),
{
    if comps_lt(b, a) {
        lemma_comps_transitive(a, b, a);
        lemma_comps_irreflexive(a);
    }
}

/// The path order is a strict total order on places: irreflexive,
/// transitive, and any two paths are ordered unless they name the same
/// place.
pub proof fn lemma_path_order(a: Seq<char>, b: Seq<char>, c: Seq<char>)
    ensures
        !path_lt(a, a),
        path_lt(a, b) && path_lt(b, c) ==> path_lt(a, c),
        same_path(a, b) || path_lt(a, b) || path_lt(b, a),
        path_lt(a, b) ==> !path_lt(b, a),
{
    lemma_comps_irreflexive(path_components(a));
    if path_lt(a, b) && path_lt(b, c) {
        lemma_comps_transitive(path_components(a), path_components(b), path_components(c));
    }
    lemma_comps_total(path_components(a), path_components(b));
    if path_lt(a, b) {
        lemma_comps_asymmetric(path_components(a), path_components(b));
    }
}

/// Compares the components of two paths from position `i` on: `-1` where
/// the first list comes before the second, `1` where after, `0` where the
/// rests are equal.
fn comps_rank(a: &Vec<String>, b: &Vec<String>, i: usize) -> (r: i8)
    requires
        i <= a@.len(),
        i <= b@.len(),
    ensures
        (r == -1) == comps_lt(texts(a@).skip(i as int), texts(b@).skip(i as int)),
        (r == 1) == comps_lt(texts(b@).skip(i as int), texts(a@).skip(i as int)),
        (r == 0) == (texts(a@).skip(i as int) == texts(b@).skip(i as int)),
        -1 <= r <= 1,
    decreases a@.len() - i,
{
    let ghost x = texts(a@).skip(i as int);
    let ghost y = texts(b@).skip(i as int);
    proof {
        lemma_comps_total(x, y);
        lemma_comps_irreflexive(x);
        if comps_lt(x, y) {
            lemma_comps_asymmetric(x, y);
        }
    }
    if i == a.len() && i == b.len() {
        proof {
            assert(x =~= y);
        }
        0
    } else if i == a.len() {
        -1
    } else if i == b.len() {
        1
    } else if !str_equal(a[i].as_str(), b[i].as_str()) {
        proof {
            assert(x[0] == a@[i as int]@);
            assert(y[0] == b@[i as int]@);
            lemma_lex_lt_total(x[0], y[0]);
            if lex_lt(x[0], y[0]) {
                lemma_lex_lt_asymmetric(x[0], y[0]);
            }
        }
        if lex_less(a[i].as_str(), b[i].as_str()) {
            -1
        } else {
            1
        }
    } else {
        proof {
            assert(x[0] == a@[i as int]@);
            assert(y[0] == b@[i as int]@);
            assert(x.drop_first() =~= texts(a@).skip(i + 1));
            assert(y.drop_first() =~= texts(b@).skip(i + 1));
            if x.drop_first() == y.drop_first() {
                assert(x =~= seq![x[0]] + x.drop_first());
                assert(y =~= seq![y[0]] + y.drop_first());
            }
        }
        comps_rank(a, b, i + 1)
    }
}

/// Compares two relative paths component by component: `-1`, `0` or `1`.
fn path_rank(a: &str, b: &str) -> (r: i8)
    ensures
        (r == -1) == path_lt(a@, b@),
        (r == 1) == path_lt(b@, a@),
        (r == 0) == same_path(a@, b@),
        -1 <= r <= 1,
{
    let ca = components(a);
    let cb = components(b);
    proof {
        assert(texts(ca@).skip(0) =~= texts(ca@));
        assert(texts(cb@).skip(0) =~= texts(cb@));
    }
    comps_rank(&ca, &cb, 0)
}

/// Whether two relative paths name the same place.
pub fn same_place(a: &str, b: &str) -> (r: bool)
    ensures
        r == same_path(a@, b@),
{
    path_rank(a, b) == 0
}

/// Orders two relative paths as `Path` does.
pub fn path_order(a: &str, b: &str) -> (r: Ordering)
    ensures
        (r == Ordering::Less) == path_lt(a@, b@),
        (r == Ordering::Greater) == path_lt(b@, a@),
        (r == Ordering::Equal) == same_path(a@, b@),
{
    let rank = path_rank(a, b);
    if rank < 0 {
        Ordering::Less
    } else if rank > 0 {
        Ordering::Greater
    } else {
        Ordering::Equal
    }
}

/// Whether a list of paths is in path order.
pub open spec fn paths_sorted(v: Seq<Seq<char>>) -> bool {
    forall|i: int, j: int| 0 <= i < j < v.len() ==> !path_lt(v[j], v[i])
}

/// Sorts paths in path order (`slice::sort_by` with `path_order`). The
/// contract claims what `sort_by`'s documentation gives for a comparison
/// that is a total order, as `path_order` is (see `lemma_path_order`): the
/// same paths, in an order where none comes before one ahead of it.
#[verifier::external_body]
fn sort_paths(v: &mut Vec<String>)
    ensures
        texts(final(v)@).to_multiset() == texts(old(v)@).to_multiset(),
        paths_sorted(texts(final(v)@)),
{
    v.sort_by(|a, b| path_order(a, b))
}

/// Whether each path of a list comes strictly before every later one, so
/// that the list is in path order and names each place once.
pub open spec fn paths_increasing(v: Seq<Seq<char>>) -> bool {
    forall|i: int, j: int| 0 <= i < j < v.len() ==> path_lt(#[trigger] v[i], #[trigger] v[j])
}

/// A path that names another place than the last of an increasing list, and
/// does not come before it, comes after every path of the list.
proof fn lemma_extend_increasing(v: Seq<Seq<char>>, prev: Seq<char>, n: Seq<char>)
    requires
        v.len() > 0,
        paths_increasing(v),
        same_path(v.last(), prev),
        !path_lt(n, prev),
        !same_path(v.last(), n),
    ensures
        paths_increasing(v.push(n)),
{
    let x = path_components(v.last());
    let y = path_components(n);
    lemma_comps_total(x, y);
    assert(comps_lt(x, y));
    assert forall|i: int, j: int| 0 <= i < j < v.push(n).len() implies path_lt(
        #[trigger] v.push(n)[i],
        #[trigger] v.push(n)[j],
    ) by {
        if j == v.len() as int && i < v.len() - 1 {
            assert(path_lt(v[i], v[v.len() - 1]));
            lemma_comps_transitive(path_components(v[i]), x, y);
        }
    }
}

/// Some path of a list names the place that `x` names.
pub open spec fn covered(v: Seq<Seq<char>>, x: Seq<char>) -> bool {
    exists|u: int| 0 <= u < v.len() && #[trigger] same_path(x, v[u])
}

/// A place covered by a list stays covered when a path is added to it.
proof fn lemma_covered_push(v: Seq<Seq<char>>, x: Seq<char>, n: Seq<char>)
    requires
        covered(v, x) || same_path(x, n),
    ensures
        covered(v.push(n), x),
{
    if covered(v, x) {
        let u = choose|u: int| 0 <= u < v.len() && #[trigger] same_path(x, v[u]);
        assert(v.push(n)[u] == v[u]);
    } else {
        assert(v.push(n)[v.len() as int] == n);
    }
}

/// Keeps the first path of each run of paths that name one place, from a
/// list in path order.
fn first_of_each_place(all: &Vec<String>) -> (r: Vec<String>)
    requires
        paths_sorted(texts(all@)),
    ensures
        paths_increasing(texts(r@)),
        forall|t: int| 0 <= t < r@.len() ==> texts(all@).contains(#[trigger] r@[t]@),
        forall|t: int| 0 <= t < all@.len() ==> covered(texts(r@), #[trigger] texts(all@)[t]),
{
    let ghost sorted = texts(all@);
    let mut r: Vec<String> = Vec::new();
    let mut i: usize = 0;
    while i < all.len()
        invariant
            i <= all@.len(),
            sorted == texts(all@),
            paths_sorted(sorted),
            paths_increasing(texts(r@)),
            r@.len() > 0 ==> i > 0 && same_path(r@[r@.len() - 1]@, sorted[i - 1]),
            i > 0 ==> r@.len() > 0,
            forall|t: int| 0 <= t < r@.len() ==> sorted.contains(#[trigger] r@[t]@),
            forall|t: int| 0 <= t < i ==> covered(texts(r@), #[trigger] sorted[t]),
        decreases all@.len() - i,
    {
        let keep = r.len() == 0 || !same_place(r[r.len() - 1].as_str(), all[i].as_str());
        let ghost before = r@;
        if keep {
            r.push(all[i].clone());
            proof {
                assert(r@[r@.len() - 1]@ == sorted[i as int]);
                assert(texts(r@) =~= texts(before).push(sorted[i as int]));
                if before.len() > 0 {
                    assert(!path_lt(sorted[i as int], sorted[i - 1]));
                    lemma_extend_increasing(texts(before), sorted[i - 1], sorted[i as int]);
                }
                assert forall|t: int| 0 <= t < r@.len() implies sorted.contains(#[trigger] r@[t]@) by {
                    if t < before.len() {
                        assert(r@[t] == before[t]);
                    } else {
                        assert(sorted[i as int] == r@[t]@);
                    }
                }
                assert forall|t: int| 0 <= t < i + 1 implies covered(texts(r@), #[trigger] sorted[t]) by {
                    if t < i {
                        lemma_covered_push(texts(before), sorted[t], sorted[i as int]);
                    } else {
                        lemma_covered_push(texts(before), sorted[t], sorted[i as int]);
                    }
                }
            }
        } else {
            proof {
                assert(texts(r@)[r@.len() - 1] == r@[r@.len() - 1]@);
                assert(same_path(sorted[i as int], texts(r@)[r@.len() - 1]));
                assert(covered(texts(r@), sorted[i as int]));
            }
        }
        i = i + 1;
    }
    r
}

/// The paths that the scans found, given together, each place once and in
/// path order: every path kept is one of those found, and every path found
/// names the place of one kept.
pub fn merge_paths(found: &Vec<String>) -> (r: Vec<String>)
    ensures
        paths_increasing(texts(r@)),
        forall|i: int| 0 <= i < r@.len() ==> texts(found@).contains(#[trigger] r@[i]@),
        forall|j: int| 0 <= j < found@.len() ==> covered(texts(r@), #[trigger] texts(found@)[j]),
{
    let mut all = found.clone();
    proof {
        assert(all@ =~= found@);
    }
    let ghost unsorted = texts(all@);
    sort_paths(&mut all);
    let ghost sorted = texts(all@);
    proof {
        assert forall|x: Seq<char>| #[trigger] unsorted.contains(x) <==> sorted.contains(x) by {
            unsorted.to_multiset_ensures();
            sorted.to_multiset_ensures();
            assert(unsorted.to_multiset().count(x) == sorted.to_multiset().count(x));
        }
    }
    let r = first_of_each_place(&all);
    proof {
        assert forall|i: int| 0 <= i < r@.len() implies texts(found@).contains(#[trigger] r@[i]@) by {
            assert(sorted.contains(r@[i]@));
        }
        assert forall|j: int| 0 <= j < found@.len() implies covered(texts(r@), #[trigger] texts(found@)[j]) by {
            assert(unsorted.contains(unsorted[j]));
            assert(sorted.contains(unsorted[j]));
            let b = choose|b: int| 0 <= b < sorted.len() && sorted[b] == unsorted[j];
            assert(covered(texts(r@), sorted[b]));
        }
    }
    r
}

/// The values among per-path outcomes, in order.
pub open spec fn kept_outcomes<T>(v: Seq<Option<T>>) -> Seq<T>
    decreases v.len(),
{
    if v.len() == 0 {
        Seq::empty()
    } else {
        match v.last() {
            Some(x) => kept_outcomes(v.drop_last()).push(x),
            None => kept_outcomes(v.drop_last()),
        }
    }
}

/// Each value reported is the outcome at some position.
pub proof fn lemma_kept_from<T>(v: Seq<Option<T>>)
    ensures
        forall|k: int|
            0 <= k < kept_outcomes(v).len() ==> exists|j: int| 0 <= j < v.len() && v[j] == Some(#[trigger] kept_outcomes(v)[k]),
    decreases v.len(),
{
    if v.len() > 0 {
        let w = v.drop_last();
        lemma_kept_from(w);
        assert forall|k: int| 0 <= k < kept_outcomes(v).len() implies exists|j: int|
            0 <= j < v.len() && v[j] == Some(#[trigger] kept_outcomes(v)[k]) by {
            if k < kept_outcomes(w).len() {
                assert(kept_outcomes(v)[k] == kept_outcomes(w)[k]);
                let j = choose|j: int| 0 <= j < w.len() && w[j] == Some(kept_outcomes(w)[k]);
                assert(v[j] == w[j]);
            } else {
                assert(v[v.len() - 1] == Some(kept_outcomes(v)[k]));
            }
        }
    }
}

/// Outcomes taken for paths in path order, each outcome about its own path,
/// keep that order: the values reported name their places in increasing
/// path order.
pub proof fn lemma_kept_in_order<T>(paths: Seq<Seq<char>>, v: Seq<Option<T>>, key: spec_fn(T) -> Seq<char>)
    requires
        v.len() == paths.len(),
        forall|i: int| 0 <= i < v.len() && v[i] is Some ==> key(#[trigger] v[i]->0) == paths[i],
        paths_increasing(paths),
    ensures
        paths_increasing(kept_outcomes(v).map_values(key)),
    decreases v.len(),
{
    if v.len() > 0 {
        let w = v.drop_last();
        let ps = paths.drop_last();
        assert forall|i: int| 0 <= i < w.len() && w[i] is Some implies key(#[trigger] w[i]->0) == ps[i] by {
            assert(w[i] == v[i]);
        }
        assert forall|i: int, j: int| 0 <= i < j < ps.len() implies path_lt(#[trigger] ps[i], #[trigger] ps[j]) by {
            assert(ps[i] == paths[i] && ps[j] == paths[j]);
            assert(path_lt(paths[i], paths[j]));
        }
        lemma_kept_in_order(ps, w, key);
        if let Some(x) = v.last() {
            let n = v.len() - 1;
            let old_keys = kept_outcomes(w).map_values(key);
            let keys = kept_outcomes(v).map_values(key);
            assert(keys =~= old_keys.push(key(x)));
            assert(key(x) == paths[n]) by {
                assert(v[n] is Some);
            }
            lemma_kept_from(w);
            assert forall|a: int, b: int| 0 <= a < b < keys.len() implies path_lt(#[trigger] keys[a], #[trigger] keys[b]) by {
                if b < old_keys.len() {
                    assert(keys[a] == old_keys[a] && keys[b] == old_keys[b]);
                } else {
                    assert(keys[a] == key(kept_outcomes(w)[a]));
                    let j = choose|j: int| 0 <= j < w.len() && w[j] == Some(#[trigger] kept_outcomes(w)[a]);
                    assert(v[j] == w[j]);
                    assert(key(v[j]->0) == paths[j]);
                    assert(path_lt(paths[j], paths[n]));
                }
            }
        } else {
            assert(kept_outcomes(v) == kept_outcomes(w));
        }
    }
}

/// Every value among the outcomes is reported.
pub proof fn lemma_kept_has<T>(v: Seq<Option<T>>, i: int)
    requires
        0 <= i < v.len(),
        v[i] is Some,
    ensures
        kept_outcomes(v).contains(v[i]->0),
    decreases v.len(),
{
    let w = v.drop_last();
    if i == v.len() - 1 {
        let k = kept_outcomes(w).len() as int;
        assert(kept_outcomes(v)[k] == v[i]->0);
    } else {
        assert(w[i] == v[i]);
        lemma_kept_has(w, i);
        let k = choose|k: int| 0 <= k < kept_outcomes(w).len() && kept_outcomes(w)[k] == v[i]->0;
        match v.last() {
            Some(x) => assert(kept_outcomes(v)[k] == kept_outcomes(w)[k]),
            None => {},
        }
    }
}

} // verus!
