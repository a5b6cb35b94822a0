//! Structural expectations on JSON values: strict equality and subset matching.
use vstd::prelude::*;
use vstd::string::StringExecFns;
use crate::json::{
    find_key, find_member, json_eq, json_text, json_wf, lemma_find_key_from, Json, JsonValue,
};
use crate::text::{nat_text, push_str, push_usize};

verus! {

/// Explains why a structured expectation did not match an actual JSON value.
#[derive(Clone, Debug)]
pub struct MatchFailure {
    path: String,
    detail: String,
}

impl View for MatchFailure {
    type V = (Seq<char>, Seq<char>);

    closed spec fn view(&self) -> (Seq<char>, Seq<char>) {
        (self.path@, self.detail@)
    }
}

/// The verdict of a match: `Ok` or a (path, detail) failure.
pub type MatchVerdict = Result<(), (Seq<char>, Seq<char>)>;

/// The model of an executable match result.
pub open spec fn verdict_of(r: Result<(), MatchFailure>) -> MatchVerdict {
    match r {
        Ok(()) => Ok(()),
        Err(f) => Err(f@),
    }
}

/// The failure's rendering: `{path} — {detail}`.
pub open spec fn failure_text(f: (Seq<char>, Seq<char>)) -> Seq<char> {
    f.0 + " \u{2014} "@ + f.1
}

/// Detail used when two values differ.
pub open spec fn mismatch_detail(e: Json, a: Json) -> Seq<char> {
    "expected "@ + json_text(e) + ", got "@ + json_text(a)
}

impl MatchFailure {
    /// A failure at `path` with the given explanation.
    pub fn new(path: String, detail: String) -> (r: MatchFailure)
        ensures
            r@ == (path@, detail@),
    {
        MatchFailure { path, detail }
    }

    /// Where in the expected document the mismatch was found (`$`-rooted).
    pub fn path(&self) -> (r: &str)
        ensures
            r@ == self@.0,
    {
        self.path.as_str()
    }

    /// What did not match.
    pub fn detail(&self) -> (r: &str)
        ensures
            r@ == self@.1,
    {
        self.detail.as_str()
    }

    /// The human-readable message: `{path} — {detail}`.
    pub fn message(&self) -> (r: String)
        ensures
            r@ == failure_text(self@),
    {
        let mut out = self.path.clone();
        push_str(&mut out, " \u{2014} ");
        push_str(&mut out, self.detail.as_str());
        out
    }

    /// A copy of this failure.
    pub fn duplicate(&self) -> (r: MatchFailure)
        ensures
            r@ == self@,
    {
        MatchFailure { path: self.path.clone(), detail: self.detail.clone() }
    }
}

/// Deep equality for JSON values (strict matching).
pub open spec fn strict_verdict(e: Json, a: Json) -> MatchVerdict {
    if json_eq(e, a) {
        Ok(())
    } else {
        Err(("$"@, mismatch_detail(e, a)))
    }
}

/// Path of an object member below `path`.
pub open spec fn key_path(path: Seq<char>, key: Seq<char>) -> Seq<char> {
    path + "."@ + key
}

/// Path of an array element below `path`.
pub open spec fn index_path(path: Seq<char>, idx: nat) -> Seq<char> {
    path + "["@ + nat_text(idx) + "]"@
}

/// Subset matching of `e` (expected) against `a` (actual) at `path`.
///
/// Objects: every expected key must exist in the actual object with a matching value.
/// Arrays (unordered): the expected elements can each be given a distinct actual element
/// they match, in any order. Arrays (ordered): equal lengths and index-wise matches.
/// Anything else: the values must be equal.
pub open spec fn subset_verdict(path: Seq<char>, e: Json, a: Json, ordered: bool) -> MatchVerdict
    decreases e, 0int, 0int,
{
    match e {
        Json::Object(es) => match a {
            Json::Object(acts) => members_verdict(path, es, acts, 0, ordered),
            _ => if json_eq(e, a) { Ok(()) } else { Err((path, mismatch_detail(e, a))) },
        },
        Json::Array(xs) => match a {
            Json::Array(ys) => if ordered {
                if xs.len() != ys.len() {
                    Err((path, length_detail(xs.len(), ys.len())))
                } else {
                    aligned_verdict(path, xs, ys, 0)
                }
            } else {
                unordered_verdict(path, xs, ys)
            },
            _ => if json_eq(e, a) { Ok(()) } else { Err((path, mismatch_detail(e, a))) },
        },
        _ => if json_eq(e, a) { Ok(()) } else { Err((path, mismatch_detail(e, a))) },
    }
}

/// Detail for an ordered array length mismatch.
pub open spec fn length_detail(expected: nat, actual: nat) -> Seq<char> {
    "ordered array length mismatch: expected "@ + nat_text(expected) + " elements, got "@
        + nat_text(actual)
}

/// Detail for a missing object key.
pub open spec fn missing_key_detail(key: Seq<char>) -> Seq<char> {
    "missing key `"@ + key + "` in actual object"@
}

/// Expected object members from index `k` on.
pub open spec fn members_verdict(
    path: Seq<char>,
    es: Seq<(Seq<char>, Json)>,
    acts: Seq<(Seq<char>, Json)>,
    k: int,
    ordered: bool,
) -> MatchVerdict
    decreases es, 1int, es.len() - k,
{
    if k < 0 || k >= es.len() {
        Ok(())
    } else {
        let child = key_path(path, es[k].0);
        match find_key(acts, es[k].0) {
            None => Err((child, missing_key_detail(es[k].0))),
            Some(j) => match subset_verdict(child, es[k].1, acts[j].1, ordered) {
                Err(f) => Err(f),
                Ok(()) => members_verdict(path, es, acts, k + 1, ordered),
            },
        }
    }
}

/// Index-aligned array elements from index `k` on.
pub open spec fn aligned_verdict(path: Seq<char>, xs: Seq<Json>, ys: Seq<Json>, k: int) -> MatchVerdict
    decreases xs, 1int, xs.len() - k,
{
    if k < 0 || k >= xs.len() {
        Ok(())
    } else {
        match subset_verdict(index_path(path, k as nat), xs[k], ys[k], true) {
            Err(f) => Err(f),
            Ok(()) => aligned_verdict(path, xs, ys, k + 1),
        }
    }
}

/// Row `k` of the match matrix from column `j` on: whether expected element `k`
/// matches each actual element (arrays order-independent).
pub open spec fn match_row(path: Seq<char>, xs: Seq<Json>, ys: Seq<Json>, k: int, j: int) -> Seq<bool>
    decreases xs, 1int, ys.len() - j,
{
    if k < 0 || k >= xs.len() || j < 0 || j >= ys.len() {
        Seq::empty()
    } else {
        seq![subset_verdict(index_path(path, k as nat), xs[k], ys[j], false) is Ok] + match_row(path, xs, ys, k, j + 1)
    }
}

/// The rows of the match matrix from row `k` on.
pub open spec fn match_matrix(path: Seq<char>, xs: Seq<Json>, ys: Seq<Json>, k: int) -> Seq<Seq<bool>>
    decreases xs, 2int, xs.len() - k,
{
    if k < 0 || k >= xs.len() {
        Seq::empty()
    } else {
        seq![match_row(path, xs, ys, k, 0)] + match_matrix(path, xs, ys, k + 1)
    }
}

/// Order-independent array matching: the expected elements must be assignable to
/// distinct actual elements they match. On failure, the first expected element that
/// cannot be given its own match alongside the ones before it is reported.
pub open spec fn unordered_verdict(path: Seq<char>, xs: Seq<Json>, ys: Seq<Json>) -> MatchVerdict
    decreases xs, 3int, 0int,
{
    match first_unassignable(match_matrix(path, xs, ys, 0), Seq::new(ys.len(), |j: int| false), 0) {
        Some(k) => Err((index_path(path, k as nat), "no matching element found in actual array"@)),
        None => Ok(()),
    }
}

/// The first row `k`, from `k0` on, such that rows `0..=k` of `mm` cannot be given
/// distinct `true` columns outside `used`.
pub open spec fn first_unassignable(mm: Seq<Seq<bool>>, used: Seq<bool>, k0: int) -> Option<int>
    decreases mm.len() - k0,
{
    if k0 < 0 || k0 >= mm.len() {
        None
    } else if !assignable(mm.take(k0 + 1), 0, used) {
        Some(k0)
    } else {
        first_unassignable(mm, used, k0 + 1)
    }
}

/// Whether the rows of `mm` from `k` on can each be given their own column holding
/// `true`, none of the columns marked in `used` and no two rows the same column.
pub open spec fn assignable(mm: Seq<Seq<bool>>, k: int, used: Seq<bool>) -> bool
    decreases mm.len() - k,
{
    if k < 0 || k >= mm.len() {
        true
    } else {
        exists|j: int| 0 <= j < used.len() && !used[j] && #[trigger] mm[k][j] && assignable(mm, k + 1, used.update(j, true))
    }
}

/// Expected element `k` matches actual element `j` (arrays order-independent).
pub open spec fn element_matches(path: Seq<char>, xs: Seq<Json>, ys: Seq<Json>, k: int, j: int) -> bool {
    0 <= k < xs.len() && 0 <= j < ys.len() && subset_verdict(index_path(path, k as nat), xs[k], ys[j], false) is Ok
}

/// `f` gives each expected element its own actual element, which it matches.
pub open spec fn is_assignment(path: Seq<char>, xs: Seq<Json>, ys: Seq<Json>, f: Seq<int>) -> bool {
    &&& f.len() == xs.len()
    &&& forall|k: int| 0 <= k < xs.len() ==> #[trigger] element_matches(path, xs, ys, k, f[k])
    &&& forall|k1: int, k2: int| 0 <= k1 < xs.len() && 0 <= k2 < xs.len() && k1 != k2 ==> #[trigger] f[k1] != #[trigger] f[k2]
}

/// `path` followed by `.key`.
fn child_key_path(path: &str, key: &str) -> (r: String)
    ensures
        r@ == key_path(path@, key@),
{
    let mut out = String::from_str(path);
    push_str(&mut out, ".");
    push_str(&mut out, key);
    out
}

/// `path` followed by `[idx]`.
fn child_index_path(path: &str, idx: usize) -> (r: String)
    ensures
        r@ == index_path(path@, idx as nat),
{
    let mut out = String::from_str(path);
    push_str(&mut out, "[");
    push_usize(&mut out, idx);
    push_str(&mut out, "]");
    assert(out@ =~= index_path(path@, idx as nat));
    out
}

/// The rows of a matrix of vectors, as sequences.
pub open spec fn rows_of(m: Seq<Vec<bool>>) -> Seq<Seq<bool>> {
    Seq::new(m.len(), |q: int| m[q]@)
}

/// Backtracking search for an assignment of distinct columns to the rows of `m` from
/// `k` on; `used` is restored before returning.
fn assign_from(m: &Vec<Vec<bool>>, k: usize, used: &mut Vec<bool>) -> (r: bool)
    requires
        k <= m@.len(),
        forall|q: int| 0 <= q < m@.len() ==> #[trigger] m@[q]@.len() == old(used)@.len(),
    ensures
        r == assignable(rows_of(m@), k as int, old(used)@),
        final(used)@ == old(used)@,
    decreases m@.len() - k,
{
    if k == m.len() {
        return true;
    }
    let next_k = k + 1;
    let ghost u0 = used@;
    let ghost mm = rows_of(m@);
    let mut found = false;
    let mut j: usize = 0;
    while j < used.len() && !found
        invariant
            k < m@.len(),
            next_k == k + 1,
            used@ == u0,
            j <= u0.len(),
            mm == rows_of(m@),
            forall|q: int| 0 <= q < m@.len() ==> #[trigger] m@[q]@.len() == u0.len(),
            found ==> assignable(mm, k as int, u0),
            !found ==> forall|i: int| 0 <= i < j ==> !(!u0[i] && #[trigger] mm[k as int][i] && assignable(mm, k + 1, u0.update(i, true))),
        decreases u0.len() - j,
    {
        assert(mm[k as int][j as int] == m@[k as int]@[j as int]);
        if !used[j] && m[k][j] {
            used.set(j, true);
            let ok = assign_from(m, next_k, used);
            used.set(j, false);
            assert(used@ =~= u0);
            if ok {
                assert(0 <= j < u0.len() && !u0[j as int] && mm[k as int][j as int] && assignable(mm, k + 1, u0.update(j as int, true)));
                found = true;
            }
        }
        j = j + 1;
    }
    found
}

/// Indexing into a match row.
proof fn lemma_match_row(path: Seq<char>, xs: Seq<Json>, ys: Seq<Json>, k: int, j: int)
    requires
        0 <= k < xs.len(),
        0 <= j <= ys.len(),
    ensures
        match_row(path, xs, ys, k, j).len() == ys.len() - j,
        forall|i: int| j <= i < ys.len() ==> #[trigger] match_row(path, xs, ys, k, j)[i - j] == element_matches(path, xs, ys, k, i),
    decreases ys.len() - j,
{
    if j < ys.len() {
        lemma_match_row(path, xs, ys, k, j + 1);
        let r = match_row(path, xs, ys, k, j);
        let rest = match_row(path, xs, ys, k, j + 1);
        assert forall|i: int| j <= i < ys.len() implies #[trigger] r[i - j] == element_matches(path, xs, ys, k, i) by {
            if i > j {
                assert(r[i - j] == rest[i - (j + 1)]);
            }
        }
    }
}

/// Indexing into the match matrix.
proof fn lemma_match_matrix(path: Seq<char>, xs: Seq<Json>, ys: Seq<Json>, k: int)
    requires
        0 <= k <= xs.len(),
    ensures
        match_matrix(path, xs, ys, k).len() == xs.len() - k,
        forall|q: int| k <= q < xs.len() ==> #[trigger] match_matrix(path, xs, ys, k)[q - k] == match_row(path, xs, ys, q, 0),
    decreases xs.len() - k,
{
    if k < xs.len() {
        lemma_match_matrix(path, xs, ys, k + 1);
        let r = match_matrix(path, xs, ys, k);
        let rest = match_matrix(path, xs, ys, k + 1);
        assert forall|q: int| k <= q < xs.len() implies #[trigger] r[q - k] == match_row(path, xs, ys, q, 0) by {
            if q > k {
                assert(r[q - k] == rest[q - (k + 1)]);
            }
        }
    }
}

/// The match matrix records exactly which elements match.
proof fn lemma_matrix_cells(path: Seq<char>, xs: Seq<Json>, ys: Seq<Json>)
    ensures
        match_matrix(path, xs, ys, 0).len() == xs.len(),
        forall|q: int| 0 <= q < xs.len() ==> (#[trigger] match_matrix(path, xs, ys, 0)[q]).len() == ys.len(),
        forall|q: int, i: int| 0 <= q < xs.len() && 0 <= i < ys.len()
            ==> #[trigger] match_matrix(path, xs, ys, 0)[q][i] == element_matches(path, xs, ys, q, i),
{
    lemma_match_matrix(path, xs, ys, 0);
    assert forall|q: int| 0 <= q < xs.len() implies (#[trigger] match_matrix(path, xs, ys, 0)[q]).len() == ys.len()
        && forall|i: int| 0 <= i < ys.len() ==> #[trigger] match_matrix(path, xs, ys, 0)[q][i] == element_matches(path, xs, ys, q, i) by {
        assert(match_matrix(path, xs, ys, 0)[q - 0] == match_row(path, xs, ys, q, 0));
        lemma_match_row(path, xs, ys, q, 0);
        assert forall|i: int| 0 <= i < ys.len() implies #[trigger] match_matrix(path, xs, ys, 0)[q][i] == element_matches(path, xs, ys, q, i) by {
            assert(match_row(path, xs, ys, q, 0)[i - 0] == element_matches(path, xs, ys, q, i));
        }
    }
}

/// The failure reported when two values differ.
fn mismatch_failure(path: &str, expected: &JsonValue, actual: &JsonValue) -> (r: MatchFailure)
    ensures
        r@ == (path@, mismatch_detail(expected@, actual@)),
{
    let mut detail = String::new();
    push_str(&mut detail, "expected ");
    expected.write_text(&mut detail);
    push_str(&mut detail, ", got ");
    actual.write_text(&mut detail);
    assert(detail@ =~= mismatch_detail(expected@, actual@));
    MatchFailure::new(String::from_str(path), detail)
}

/// Deep equality for JSON values (strict matching).
pub fn strict_equal(expected: &JsonValue, actual: &JsonValue) -> (r: Result<(), MatchFailure>)
    ensures
        verdict_of(r) == strict_verdict(expected@, actual@),
{
    if expected.json_equal(actual) {
        Ok(())
    } else {
        Err(mismatch_failure("$", expected, actual))
    }
}

/// Returns `Ok(())` when `actual` contains `expected` under the subset rules of
/// [`subset_verdict`], with order-independent array matching.
pub fn subset_match(expected: &JsonValue, actual: &JsonValue) -> (r: Result<(), MatchFailure>)
    ensures
        verdict_of(r) == subset_verdict("$"@, expected@, actual@, false),
{
    subset_match_with_options(expected, actual, false)
}

/// Same as [`subset_match`], but arrays can be forced to index-aligned matching.
pub fn subset_match_with_options(expected: &JsonValue, actual: &JsonValue, ordered_arrays: bool) -> (r: Result<(), MatchFailure>)
    ensures
        verdict_of(r) == subset_verdict("$"@, expected@, actual@, ordered_arrays),
{
    subset_match_at("$", expected, actual, ordered_arrays)
}

/// Subset matching rooted at `path`.
pub fn subset_match_at(path: &str, expected: &JsonValue, actual: &JsonValue, ordered: bool) -> (r: Result<(), MatchFailure>)
    ensures
        verdict_of(r) == subset_verdict(path@, expected@, actual@, ordered),
    decreases expected,
{
    match (expected, actual) {
        (JsonValue::Object(es), JsonValue::Object(acts)) => {
            let ghost mes = expected@->Object_0;
            let ghost macts = actual@->Object_0;
            assert(expected@ == Json::Object(mes));
            assert(actual@ == Json::Object(macts));
            assert(forall|k: int| 0 <= k < es@.len() ==> #[trigger] mes[k] == (es@[k].0@, es@[k].1@));
            assert(forall|k: int| 0 <= k < acts@.len() ==> #[trigger] macts[k] == (acts@[k].0@, acts@[k].1@));
            let mut k: usize = 0;
            while k < es.len()
                invariant
                    k <= es@.len(),
                    mes.len() == es@.len(),
                    macts.len() == acts@.len(),
                    *expected == JsonValue::Object(*es),
                    expected@ == Json::Object(mes),
                    actual@ == Json::Object(macts),
                    forall|q: int| 0 <= q < es@.len() ==> #[trigger] mes[q] == (es@[q].0@, es@[q].1@),
                    forall|q: int| 0 <= q < acts@.len() ==> #[trigger] macts[q] == (acts@[q].0@, acts@[q].1@),
                    members_verdict(path@, mes, macts, 0, ordered) == members_verdict(path@, mes, macts, k as int, ordered),
                decreases es@.len() - k,
            {
                let key = es[k].0.as_str();
                let child = child_key_path(path, key);
                proof {
                    lemma_find_key_from(macts, mes[k as int].0, 0);
                }
                match find_member(acts, key) {
                    None => {
                        proof {
                            match find_key(macts, mes[k as int].0) {
                                Some(q) => {
                                    assert(macts[q] == (acts@[q].0@, acts@[q].1@));
                                },
                                None => {},
                            }
                        }
                        let mut detail = String::new();
                        push_str(&mut detail, "missing key `");
                        push_str(&mut detail, key);
                        push_str(&mut detail, "` in actual object");
                        assert(detail@ =~= missing_key_detail(key@));
                        return Err(MatchFailure::new(child, detail));
                    },
                    Some(j) => {
                        proof {
                            assert(macts[j as int] == (acts@[j as int].0@, acts@[j as int].1@));
                            match find_key(macts, mes[k as int].0) {
                                Some(q) => {
                                    assert(macts[q] == (acts@[q].0@, acts@[q].1@));
                                },
                                None => {},
                            }
                            assert(find_key(macts, mes[k as int].0) == Some(j as int));
                            assert(decreases_to!(*expected => (*expected)->Object_0));
                            assert(decreases_to!(*es => es@));
                            assert(decreases_to!(es@ => es@[k as int]));
                            assert(decreases_to!(es@[k as int] => es@[k as int].1));
                        }
                        let r = subset_match_at(child.as_str(), &es[k].1, &acts[j].1, ordered);
                        if r.is_err() {
                            return r;
                        }
                    },
                }
                k = k + 1;
            }
            Ok(())
        },
        (JsonValue::Array(xs), JsonValue::Array(ys)) => {
            let ghost mxs = expected@->Array_0;
            let ghost mys = actual@->Array_0;
            assert(expected@ == Json::Array(mxs));
            assert(actual@ == Json::Array(mys));
            assert(forall|k: int| 0 <= k < xs@.len() ==> #[trigger] mxs[k] == xs@[k]@);
            assert(forall|k: int| 0 <= k < ys@.len() ==> #[trigger] mys[k] == ys@[k]@);
            if ordered {
                if xs.len() != ys.len() {
                    let mut detail = String::new();
                    push_str(&mut detail, "ordered array length mismatch: expected ");
                    push_usize(&mut detail, xs.len());
                    push_str(&mut detail, " elements, got ");
                    push_usize(&mut detail, ys.len());
                    assert(detail@ =~= length_detail(mxs.len(), mys.len()));
                    return Err(MatchFailure::new(String::from_str(path), detail));
                }
                let mut k: usize = 0;
                while k < xs.len()
                    invariant
                        k <= xs@.len(),
                        xs@.len() == ys@.len(),
                        mxs.len() == xs@.len(),
                        mys.len() == ys@.len(),
                        ordered,
                        *expected == JsonValue::Array(*xs),
                        expected@ == Json::Array(mxs),
                        actual@ == Json::Array(mys),
                        forall|q: int| 0 <= q < xs@.len() ==> #[trigger] mxs[q] == xs@[q]@,
                        forall|q: int| 0 <= q < ys@.len() ==> #[trigger] mys[q] == ys@[q]@,
                        aligned_verdict(path@, mxs, mys, 0) == aligned_verdict(path@, mxs, mys, k as int),
                    decreases xs@.len() - k,
                {
                    let child = child_index_path(path, k);
                    proof {
                        assert(decreases_to!(*expected => (*expected)->Array_0));
                        assert(decreases_to!(*xs => xs@));
                        assert(decreases_to!(xs@ => xs@[k as int]));
                    }
                    let r = subset_match_at(child.as_str(), &xs[k], &ys[k], true);
                    if r.is_err() {
                        return r;
                    }
                    k = k + 1;
                }
                Ok(())
            } else {
                let ghost mm = match_matrix(path@, mxs, mys, 0);
                let ghost none = Seq::new(mys.len(), |j: int| false);
                proof {
                    lemma_matrix_cells(path@, mxs, mys);
                }
                let mut used: Vec<bool> = Vec::new();
                let mut j0: usize = 0;
                while j0 < ys.len()
                    invariant
                        j0 <= ys@.len(),
                        used@.len() == j0,
                        forall|q: int| 0 <= q < j0 ==> !#[trigger] used@[q],
                    decreases ys@.len() - j0,
                {
                    used.push(false);
                    j0 = j0 + 1;
                }
                assert(used@ =~= none);
                let mut pre: Vec<Vec<bool>> = Vec::new();
                assert(rows_of(pre@) =~= mm.take(0));
                let mut k: usize = 0;
                while k < xs.len()
                    invariant
                        k <= xs@.len(),
                        pre@.len() == k,
                        used@ == none,
                        none == Seq::new(mys.len(), |j: int| false),
                        none.len() == ys@.len(),
                        mxs.len() == xs@.len(),
                        mys.len() == ys@.len(),
                        !ordered,
                        *expected == JsonValue::Array(*xs),
                        expected@ == Json::Array(mxs),
                        actual@ == Json::Array(mys),
                        forall|q: int| 0 <= q < xs@.len() ==> #[trigger] mxs[q] == xs@[q]@,
                        forall|q: int| 0 <= q < ys@.len() ==> #[trigger] mys[q] == ys@[q]@,
                        mm == match_matrix(path@, mxs, mys, 0),
                        mm.len() == xs@.len(),
                        forall|q: int| 0 <= q < xs@.len() ==> (#[trigger] mm[q]).len() == ys@.len(),
                        forall|q: int, i: int| 0 <= q < xs@.len() && 0 <= i < ys@.len()
                            ==> #[trigger] mm[q][i] == element_matches(path@, mxs, mys, q, i),
                        rows_of(pre@) == mm.take(k as int),
                        first_unassignable(mm, none, 0) == first_unassignable(mm, none, k as int),
                    decreases xs@.len() - k,
                {
                    let child = child_index_path(path, k);
                    let mut row: Vec<bool> = Vec::new();
                    let mut j: usize = 0;
                    while j < ys.len()
                        invariant
                            j <= ys@.len(),
                            k < xs@.len(),
                            row@.len() == j,
                            child@ == index_path(path@, k as nat),
                            mxs.len() == xs@.len(),
                            mys.len() == ys@.len(),
                            *expected == JsonValue::Array(*xs),
                            expected@ == Json::Array(mxs),
                            actual@ == Json::Array(mys),
                            forall|q: int| 0 <= q < xs@.len() ==> #[trigger] mxs[q] == xs@[q]@,
                            forall|q: int| 0 <= q < ys@.len() ==> #[trigger] mys[q] == ys@[q]@,
                            forall|i: int| 0 <= i < j ==> #[trigger] row@[i] == element_matches(path@, mxs, mys, k as int, i),
                        decreases ys@.len() - j,
                    {
                        proof {
                            assert(decreases_to!(*expected => (*expected)->Array_0));
                            assert(decreases_to!(*xs => xs@));
                            assert(decreases_to!(xs@ => xs@[k as int]));
                        }
                        let r = subset_match_at(child.as_str(), &xs[k], &ys[j], false);
                        row.push(r.is_ok());
                        j = j + 1;
                    }
                    assert(row@ =~= mm[k as int]);
                    let ghost before = pre@;
                    pre.push(row);
                    proof {
                        assert forall|q: int| 0 <= q <= k implies #[trigger] rows_of(pre@)[q] == mm.take(k as int + 1)[q] by {
                            if q < k {
                                assert(pre@[q] == before[q]);
                                assert(rows_of(before)[q] == mm.take(k as int)[q]);
                            }
                        }
                        assert(rows_of(pre@) =~= mm.take(k as int + 1));
                    }
                    assert forall|q: int| 0 <= q < pre@.len() implies #[trigger] pre@[q]@.len() == used@.len() by {
                        assert(rows_of(pre@)[q] == mm.take(k as int + 1)[q]);
                    }
                    let found = assign_from(&pre, 0, &mut used);
                    if !found {
                        assert(!assignable(mm.take(k as int + 1), 0, none));
                        assert(first_unassignable(mm, none, k as int) == Some(k as int));
                        return Err(MatchFailure::new(child, String::from_str("no matching element found in actual array")));
                    }
                    k = k + 1;
                }
                Ok(())
            }
        },
        _ => {
            if expected.json_equal(actual) {
                Ok(())
            } else {
                Err(mismatch_failure(path, expected, actual))
            }
        },
    }
}

/// An assignment `f` of distinct, unused, `true` columns to the rows of `mm` from `k` on
/// makes those rows assignable.
proof fn lemma_assignable_from_witness(mm: Seq<Seq<bool>>, k: int, used: Seq<bool>, f: Seq<int>)
    requires
        0 <= k <= mm.len(),
        f.len() == mm.len(),
        forall|q: int| k <= q < mm.len() ==> 0 <= #[trigger] f[q] < used.len() && !used[f[q]] && mm[q][f[q]],
        forall|q1: int, q2: int| k <= q1 < mm.len() && k <= q2 < mm.len() && q1 != q2 ==> #[trigger] f[q1] != #[trigger] f[q2],
    ensures
        assignable(mm, k, used),
    decreases mm.len() - k,
{
    if k < mm.len() {
        let j = f[k];
        let next = used.update(j, true);
        assert forall|q: int| k + 1 <= q < mm.len() implies 0 <= #[trigger] f[q] < next.len() && !next[f[q]] && mm[q][f[q]] by {
            assert(f[q] != f[k]);
        }
        lemma_assignable_from_witness(mm, k + 1, next, f);
        assert(0 <= j < used.len() && !used[j] && mm[k][j] && assignable(mm, k + 1, next));
    }
}

/// When the rows of `mm` from `k` on are assignable, here is an assignment.
proof fn lemma_witness_of_assignable(mm: Seq<Seq<bool>>, k: int, used: Seq<bool>) -> (f: Seq<int>)
    requires
        0 <= k <= mm.len(),
        assignable(mm, k, used),
    ensures
        f.len() == mm.len(),
        forall|q: int| k <= q < mm.len() ==> 0 <= #[trigger] f[q] < used.len() && !used[f[q]] && mm[q][f[q]],
        forall|q1: int, q2: int| k <= q1 < mm.len() && k <= q2 < mm.len() && q1 != q2 ==> #[trigger] f[q1] != #[trigger] f[q2],
    decreases mm.len() - k,
{
    if k >= mm.len() {
        Seq::new(mm.len(), |q: int| 0)
    } else {
        let j = choose|j: int| 0 <= j < used.len() && !used[j] && #[trigger] mm[k][j] && assignable(mm, k + 1, used.update(j, true));
        let next = used.update(j, true);
        let g = lemma_witness_of_assignable(mm, k + 1, next);
        let f = g.update(k, j);
        assert forall|q: int| k <= q < mm.len() implies 0 <= #[trigger] f[q] < used.len() && !used[f[q]] && mm[q][f[q]] by {
            if q > k {
                assert(f[q] == g[q]);
                assert(!next[g[q]]);
            }
        }
        assert forall|q1: int, q2: int| k <= q1 < mm.len() && k <= q2 < mm.len() && q1 != q2 implies #[trigger] f[q1] != #[trigger] f[q2] by {
            if q1 > k {
                assert(f[q1] == g[q1]);
                assert(!next[g[q1]]);
            }
            if q2 > k {
                assert(f[q2] == g[q2]);
                assert(!next[g[q2]]);
            }
        }
        f
    }
}

/// An assignment of the whole matrix leaves no prefix unassignable.
proof fn lemma_prefixes_assignable(mm: Seq<Seq<bool>>, used: Seq<bool>, f: Seq<int>, k0: int)
    requires
        0 <= k0 <= mm.len(),
        f.len() == mm.len(),
        forall|q: int| 0 <= q < mm.len() ==> 0 <= #[trigger] f[q] < used.len() && !used[f[q]] && mm[q][f[q]],
        forall|q1: int, q2: int| 0 <= q1 < mm.len() && 0 <= q2 < mm.len() && q1 != q2 ==> #[trigger] f[q1] != #[trigger] f[q2],
    ensures
        first_unassignable(mm, used, k0) is None,
    decreases mm.len() - k0,
{
    if k0 < mm.len() {
        let p = mm.take(k0 + 1);
        let g = f.take(k0 + 1);
        assert forall|q: int| 0 <= q < p.len() implies 0 <= #[trigger] g[q] < used.len() && !used[g[q]] && p[q][g[q]] by {
            assert(g[q] == f[q]);
        }
        assert forall|q1: int, q2: int| 0 <= q1 < p.len() && 0 <= q2 < p.len() && q1 != q2 implies #[trigger] g[q1] != #[trigger] g[q2] by {
            assert(g[q1] == f[q1] && g[q2] == f[q2]);
        }
        lemma_assignable_from_witness(p, 0, used, g);
        lemma_prefixes_assignable(mm, used, f, k0 + 1);
    }
}

/// When no prefix is unassignable, the whole matrix is assignable.
proof fn lemma_whole_assignable(mm: Seq<Seq<bool>>, used: Seq<bool>, k0: int)
    requires
        0 <= k0 <= mm.len(),
        first_unassignable(mm, used, k0) is None,
    ensures
        k0 < mm.len() ==> assignable(mm, 0, used),
    decreases mm.len() - k0,
{
    if k0 < mm.len() {
        if k0 + 1 < mm.len() {
            lemma_whole_assignable(mm, used, k0 + 1);
        } else {
            assert(mm.take(k0 + 1) =~= mm);
        }
    }
}

/// An assignment makes the order-independent array match succeed.
proof fn lemma_unordered_from_assignment(path: Seq<char>, xs: Seq<Json>, ys: Seq<Json>, f: Seq<int>)
    requires
        is_assignment(path, xs, ys, f),
    ensures
        unordered_verdict(path, xs, ys) is Ok,
{
    let mm = match_matrix(path, xs, ys, 0);
    let none = Seq::new(ys.len(), |j: int| false);
    lemma_matrix_cells(path, xs, ys);
    assert forall|q: int| 0 <= q < mm.len() implies 0 <= #[trigger] f[q] < none.len() && !none[f[q]] && mm[q][f[q]] by {
        assert(element_matches(path, xs, ys, q, f[q]));
    }
    lemma_prefixes_assignable(mm, none, f, 0);
}

/// `zs` is `ys` reordered: `zs[i] == ys[p[i]]`, where `p` is a bijection on the indices
/// and `q` its inverse.
pub open spec fn is_permutation(ys: Seq<Json>, zs: Seq<Json>, p: Seq<int>, q: Seq<int>) -> bool {
    &&& zs.len() == ys.len()
    &&& p.len() == ys.len()
    &&& q.len() == ys.len()
    &&& forall|i: int| 0 <= i < ys.len() ==> 0 <= #[trigger] p[i] < ys.len() && q[p[i]] == i && zs[i] == ys[p[i]]
    &&& forall|j: int| 0 <= j < ys.len() ==> 0 <= #[trigger] q[j] < ys.len() && p[q[j]] == j
}

/// A reordering read backwards is a reordering.
proof fn lemma_permutation_inverse(ys: Seq<Json>, zs: Seq<Json>, p: Seq<int>, q: Seq<int>)
    requires
        is_permutation(ys, zs, p, q),
    ensures
        is_permutation(zs, ys, q, p),
{
    assert forall|j: int| 0 <= j < zs.len() implies 0 <= #[trigger] q[j] < zs.len() && p[q[j]] == j && ys[j] == zs[q[j]] by {
        assert(zs[q[j]] == ys[p[q[j]]]);
    }
}

/// An assignment into `ys` carried over to its reordering `zs`.
proof fn lemma_assignment_through(path: Seq<char>, xs: Seq<Json>, ys: Seq<Json>, zs: Seq<Json>, p: Seq<int>, q: Seq<int>, f: Seq<int>) -> (g: Seq<int>)
    requires
        is_permutation(ys, zs, p, q),
        is_assignment(path, xs, ys, f),
    ensures
        is_assignment(path, xs, zs, g),
{
    let g = Seq::new(f.len(), |k: int| q[f[k]]);
    assert forall|k: int| 0 <= k < xs.len() implies #[trigger] element_matches(path, xs, zs, k, g[k]) by {
        assert(element_matches(path, xs, ys, k, f[k]));
        assert(zs[g[k]] == ys[p[q[f[k]]]]);
    }
    assert forall|k1: int, k2: int| 0 <= k1 < xs.len() && 0 <= k2 < xs.len() && k1 != k2 implies #[trigger] g[k1] != #[trigger] g[k2] by {
        assert(element_matches(path, xs, ys, k1, f[k1]));
        assert(element_matches(path, xs, ys, k2, f[k2]));
        assert(p[q[f[k1]]] == f[k1]);
        assert(p[q[f[k2]]] == f[k2]);
    }
    g
}

/// Law: reordering the actual array does not change an order-independent array match.
pub proof fn law_unordered_match_ignores_actual_order(path: Seq<char>, xs: Seq<Json>, ys: Seq<Json>, zs: Seq<Json>, p: Seq<int>, q: Seq<int>)
    requires
        is_permutation(ys, zs, p, q),
    ensures
        (subset_verdict(path, Json::Array(xs), Json::Array(ys), false) is Ok)
            == (subset_verdict(path, Json::Array(xs), Json::Array(zs), false) is Ok),
{
    law_unordered_match_is_assignment(path, xs, ys);
    law_unordered_match_is_assignment(path, xs, zs);
    if exists|f: Seq<int>| #[trigger] is_assignment(path, xs, ys, f) {
        let f = choose|f: Seq<int>| #[trigger] is_assignment(path, xs, ys, f);
        let g = lemma_assignment_through(path, xs, ys, zs, p, q, f);
        assert(is_assignment(path, xs, zs, g));
    }
    if exists|f: Seq<int>| #[trigger] is_assignment(path, xs, zs, f) {
        let f = choose|f: Seq<int>| #[trigger] is_assignment(path, xs, zs, f);
        lemma_permutation_inverse(ys, zs, p, q);
        let g = lemma_assignment_through(path, xs, zs, ys, q, p, f);
        assert(is_assignment(path, xs, ys, g));
    }
}

/// Equal-length arrays whose elements match index by index match order-independently.
proof fn lemma_pairwise_unordered(path: Seq<char>, xs: Seq<Json>, ys: Seq<Json>)
    requires
        xs.len() == ys.len(),
        forall|q: int| 0 <= q < xs.len() ==> (#[trigger] subset_verdict(index_path(path, q as nat), xs[q], ys[q], false)) is Ok,
    ensures
        unordered_verdict(path, xs, ys) is Ok,
{
    let f = Seq::new(xs.len(), |q: int| q);
    assert forall|k: int| 0 <= k < xs.len() implies #[trigger] element_matches(path, xs, ys, k, f[k]) by {
        assert(subset_verdict(index_path(path, k as nat), xs[k], ys[k], false) is Ok);
    }
    lemma_unordered_from_assignment(path, xs, ys, f);
}

/// Law: expected and actual arrays match order-independently exactly when some
/// assignment gives each expected element its own actual element that it matches
/// (so the verdict does not depend on the order of the actual elements).
pub proof fn law_unordered_match_is_assignment(path: Seq<char>, xs: Seq<Json>, ys: Seq<Json>)
    ensures
        subset_verdict(path, Json::Array(xs), Json::Array(ys), false) is Ok
            <==> exists|f: Seq<int>| #[trigger] is_assignment(path, xs, ys, f),
{
    let mm = match_matrix(path, xs, ys, 0);
    let none = Seq::new(ys.len(), |j: int| false);
    lemma_matrix_cells(path, xs, ys);
    if unordered_verdict(path, xs, ys) is Ok {
        lemma_whole_assignable(mm, none, 0);
        let f = lemma_witness_of_assignable(mm, 0, none);
        assert forall|k: int| 0 <= k < xs.len() implies #[trigger] element_matches(path, xs, ys, k, f[k]) by {
            assert(mm[k][f[k]]);
        }
        assert(is_assignment(path, xs, ys, f));
    }
    if exists|f: Seq<int>| #[trigger] is_assignment(path, xs, ys, f) {
        let f = choose|f: Seq<int>| #[trigger] is_assignment(path, xs, ys, f);
        lemma_unordered_from_assignment(path, xs, ys, f);
    }
}

/// The aligned array match succeeds when every element pair matches.
proof fn lemma_aligned_pairwise(path: Seq<char>, xs: Seq<Json>, ys: Seq<Json>, k: int)
    requires
        0 <= k <= xs.len(),
        forall|q: int| 0 <= q < xs.len() ==> (#[trigger] subset_verdict(index_path(path, q as nat), xs[q], ys[q], true)) is Ok,
    ensures
        aligned_verdict(path, xs, ys, k) is Ok,
    decreases xs.len() - k,
{
    if k < xs.len() {
        assert(subset_verdict(index_path(path, k as nat), xs[k], ys[k], true) is Ok);
        lemma_aligned_pairwise(path, xs, ys, k + 1);
    }
}

/// A successful aligned match matched every element pair.
proof fn lemma_aligned_elements(path: Seq<char>, xs: Seq<Json>, ys: Seq<Json>, k: int)
    requires
        0 <= k <= xs.len(),
        aligned_verdict(path, xs, ys, k) is Ok,
    ensures
        forall|q: int| k <= q < xs.len() ==> (#[trigger] subset_verdict(index_path(path, q as nat), xs[q], ys[q], true)) is Ok,
    decreases xs.len() - k,
{
    if k < xs.len() {
        lemma_aligned_elements(path, xs, ys, k + 1);
    }
}

/// Equal values match under the subset rules.
proof fn lemma_eq_subset(path: Seq<char>, e: Json, a: Json, ordered: bool)
    requires
        json_eq(e, a),
    ensures
        subset_verdict(path, e, a, ordered) is Ok,
    decreases e, 0int, 0int,
{
    match e {
        Json::Object(es) => {
            let acts = a->Object_0;
            lemma_eq_members(path, es, acts, 0, ordered);
        },
        Json::Array(xs) => {
            let ys = a->Array_0;
            assert forall|q: int| 0 <= q < xs.len() implies (#[trigger] subset_verdict(index_path(path, q as nat), xs[q], ys[q], ordered)) is Ok by {
                lemma_eq_element(path, xs, ys, q, ordered);
            }
            if ordered {
                lemma_aligned_pairwise(path, xs, ys, 0);
            } else {
                lemma_pairwise_unordered(path, xs, ys);
            }
        },
        _ => {},
    }
}

/// Equal arrays match element by element.
proof fn lemma_eq_element(path: Seq<char>, xs: Seq<Json>, ys: Seq<Json>, q: int, ordered: bool)
    requires
        0 <= q < xs.len(),
        json_eq(Json::Array(xs), Json::Array(ys)),
    ensures
        subset_verdict(index_path(path, q as nat), xs[q], ys[q], ordered) is Ok,
    decreases xs, 1int, 0int,
{
    assert(json_eq(xs[q], ys[q]));
    lemma_eq_subset(index_path(path, q as nat), xs[q], ys[q], ordered);
}

/// Equal objects match member by member from index `k` on.
proof fn lemma_eq_members(path: Seq<char>, es: Seq<(Seq<char>, Json)>, acts: Seq<(Seq<char>, Json)>, k: int, ordered: bool)
    requires
        0 <= k <= es.len(),
        json_eq(Json::Object(es), Json::Object(acts)),
    ensures
        members_verdict(path, es, acts, k, ordered) is Ok,
    decreases es, 1int, es.len() - k,
{
    if k < es.len() {
        let key = es[k].0;
        assert(match find_key(acts, key) {
            Some(j) => json_eq(es[k].1, acts[j].1),
            None => false,
        });
        let j = find_key(acts, key)->Some_0;
        lemma_eq_subset(key_path(path, key), es[k].1, acts[j].1, ordered);
        lemma_eq_members(path, es, acts, k + 1, ordered);
    }
}

/// A match with index-aligned arrays is also a match with order-independent arrays.
proof fn lemma_ordered_unordered(path: Seq<char>, e: Json, a: Json)
    requires
        subset_verdict(path, e, a, true) is Ok,
    ensures
        subset_verdict(path, e, a, false) is Ok,
    decreases e, 0int, 0int,
{
    match e {
        Json::Object(es) => {
            match a {
                Json::Object(acts) => lemma_ordered_unordered_members(path, es, acts, 0),
                _ => {},
            }
        },
        Json::Array(xs) => {
            match a {
                Json::Array(ys) => {
                    lemma_aligned_elements(path, xs, ys, 0);
                    assert forall|q: int| 0 <= q < xs.len() implies (#[trigger] subset_verdict(index_path(path, q as nat), xs[q], ys[q], false)) is Ok by {
                        lemma_ordered_unordered_element(path, xs, ys, q);
                    }
                    lemma_pairwise_unordered(path, xs, ys);
                },
                _ => {},
            }
        },
        _ => {},
    }
}

/// Element-wise step of [`lemma_ordered_unordered`].
proof fn lemma_ordered_unordered_element(path: Seq<char>, xs: Seq<Json>, ys: Seq<Json>, q: int)
    requires
        0 <= q < xs.len(),
        subset_verdict(index_path(path, q as nat), xs[q], ys[q], true) is Ok,
    ensures
        subset_verdict(index_path(path, q as nat), xs[q], ys[q], false) is Ok,
    decreases xs, 1int, 0int,
{
    lemma_ordered_unordered(index_path(path, q as nat), xs[q], ys[q]);
}

/// Member-wise step of [`lemma_ordered_unordered`].
proof fn lemma_ordered_unordered_members(path: Seq<char>, es: Seq<(Seq<char>, Json)>, acts: Seq<(Seq<char>, Json)>, k: int)
    requires
        0 <= k <= es.len(),
        members_verdict(path, es, acts, k, true) is Ok,
    ensures
        members_verdict(path, es, acts, k, false) is Ok,
    decreases es, 1int, es.len() - k,
{
    if k < es.len() {
        let key = es[k].0;
        let j = find_key(acts, key)->Some_0;
        lemma_ordered_unordered(key_path(path, key), es[k].1, acts[j].1);
        lemma_ordered_unordered_members(path, es, acts, k + 1);
    }
}

/// Every well-formed value equals itself.
proof fn lemma_eq_refl(v: Json)
    requires
        json_wf(v),
    ensures
        json_eq(v, v),
    decreases v,
{
    match v {
        Json::Array(xs) => {
            assert forall|i: int| 0 <= i < xs.len() implies json_eq(#[trigger] xs[i], xs[i]) by {
                lemma_eq_refl(xs[i]);
            }
        },
        Json::Object(ms) => {
            assert forall|i: int| 0 <= i < ms.len() implies match find_key(ms, #[trigger] ms[i].0) {
                Some(j) => json_eq(ms[i].1, ms[j].1),
                None => false,
            } by {
                lemma_find_key_from(ms, ms[i].0, 0);
                lemma_eq_refl(ms[i].1);
            }
        },
        _ => {},
    }
}

/// Law: a value that strictly equals the actual value also matches it under the subset
/// rules, with ordered or order-independent arrays.
pub proof fn law_strict_match_implies_subset_match(expected: Json, actual: Json, ordered: bool)
    requires
        strict_verdict(expected, actual) is Ok,
    ensures
        subset_verdict("$"@, expected, actual, ordered) is Ok,
{
    lemma_eq_subset("$"@, expected, actual, ordered);
}

/// Law: whatever matches with index-aligned arrays also matches with order-independent
/// arrays.
pub proof fn law_ordered_match_implies_unordered_match(expected: Json, actual: Json)
    requires
        subset_verdict("$"@, expected, actual, true) is Ok,
    ensures
        subset_verdict("$"@, expected, actual, false) is Ok,
{
    lemma_ordered_unordered("$"@, expected, actual);
}

/// Law: a well-formed document (no repeated object keys) strictly equals itself and
/// matches itself under the subset rules, at whatever path the match starts.
pub proof fn law_document_matches_itself(doc: Json, path: Seq<char>, ordered: bool)
    requires
        json_wf(doc),
    ensures
        strict_verdict(doc, doc) is Ok,
        subset_verdict(path, doc, doc, ordered) is Ok,
{
    lemma_eq_refl(doc);
    lemma_eq_subset(path, doc, doc, ordered);
}

/// Law: arrays match with index-aligned arrays only when they have the same length and
/// each expected element matches the actual element at its own index.
pub proof fn law_ordered_match_is_index_aligned(path: Seq<char>, xs: Seq<Json>, ys: Seq<Json>)
    requires
        subset_verdict(path, Json::Array(xs), Json::Array(ys), true) is Ok,
    ensures
        xs.len() == ys.len(),
        forall|q: int| 0 <= q < xs.len() ==> (#[trigger] subset_verdict(index_path(path, q as nat), xs[q], ys[q], true)) is Ok,
{
    lemma_aligned_elements(path, xs, ys, 0);
}

} // verus!
