//! The order of paths (std's `Ord for Path`): component by component, a
//! root before `.` before `..` before a name, and names by their
//! characters' code points; and the stable sort by that order.
use vstd::prelude::*;

use crate::path::{components, path_components, view_parts, Part, PathPart};
use crate::types::view_strings;

verus! {

pub open spec fn part_rank(p: Part) -> int {
    match p {
        Part::Root => 0,
        Part::Here => 1,
        Part::Up => 2,
        Part::Name(_) => 3,
    }
}

/// `a` comes before `b`, character by character, a proper prefix first.
pub open spec fn chars_less(a: Seq<char>, b: Seq<char>) -> bool
    decreases a.len(),
{
    if a.len() == 0 {
        b.len() > 0
    } else if b.len() == 0 {
        false
    } else if a[0] != b[0] {
        (a[0] as int) < (b[0] as int)
    } else {
        chars_less(a.drop_first(), b.drop_first())
    }
}

pub open spec fn part_less(a: Part, b: Part) -> bool {
    if part_rank(a) != part_rank(b) {
        part_rank(a) < part_rank(b)
    } else {
        match (a, b) {
            (Part::Name(x), Part::Name(y)) => chars_less(x, y),
            _ => false,
        }
    }
}

/// `a` comes before `b`, component by component, a proper prefix first.
pub open spec fn parts_less(a: Seq<Part>, b: Seq<Part>) -> bool
    decreases a.len(),
{
    if a.len() == 0 {
        b.len() > 0
    } else if b.len() == 0 {
        false
    } else if a[0] != b[0] {
        part_less(a[0], b[0])
    } else {
        parts_less(a.drop_first(), b.drop_first())
    }
}

/// The path `a` comes before the path `b`.
pub open spec fn path_less(a: Seq<char>, b: Seq<char>) -> bool {
    parts_less(components(a), components(b))
}

fn chars_before(a: &Vec<char>, b: &Vec<char>) -> (r: bool)
    ensures
        r == chars_less(a@, b@),
{
    let mut i: usize = 0;
    assert(a@.skip(0) =~= a@);
    assert(b@.skip(0) =~= b@);
    while i < a.len() && i < b.len() && a[i] == b[i]
        invariant
            i <= a.len(),
            i <= b.len(),
            chars_less(a@, b@) == chars_less(a@.skip(i as int), b@.skip(i as int)),
        decreases a.len() - i,
    {
        assert(a@.skip(i as int).drop_first() =~= a@.skip(i + 1));
        assert(b@.skip(i as int).drop_first() =~= b@.skip(i + 1));
        i = i + 1;
    }
    if i == a.len() {
        i < b.len()
    } else if i == b.len() {
        false
    } else {
        a[i] < b[i]
    }
}

fn rank(p: &PathPart) -> (r: u8)
    ensures
        r as int == part_rank(p@),
{
    match p {
        PathPart::Root => 0,
        PathPart::Here => 1,
        PathPart::Up => 2,
        PathPart::Name(_) => 3,
    }
}

fn part_before(a: &PathPart, b: &PathPart) -> (r: bool)
    ensures
        r == part_less(a@, b@),
{
    let ra = rank(a);
    let rb = rank(b);
    if ra != rb {
        ra < rb
    } else {
        match (a, b) {
            (PathPart::Name(x), PathPart::Name(y)) => chars_before(x, y),
            _ => false,
        }
    }
}

fn same_part(a: &PathPart, b: &PathPart) -> (r: bool)
    ensures
        r == (a@ == b@),
{
    match (a, b) {
        (PathPart::Root, PathPart::Root) => true,
        (PathPart::Here, PathPart::Here) => true,
        (PathPart::Up, PathPart::Up) => true,
        (PathPart::Name(x), PathPart::Name(y)) => crate::text::chars_equal(x, y.as_slice()),
        _ => false,
    }
}

/// Whether the path `a` comes before the path `b`.
pub fn path_before(a: &str, b: &str) -> (r: bool)
    ensures
        r == path_less(a@, b@),
{
    let pa = path_components(a);
    let pb = path_components(b);
    let ghost va = view_parts(pa@);
    let ghost vb = view_parts(pb@);
    let mut i: usize = 0;
    assert(va.skip(0) =~= va);
    assert(vb.skip(0) =~= vb);
    while i < pa.len() && i < pb.len() && same_part(&pa[i], &pb[i])
        invariant
            i <= pa.len(),
            i <= pb.len(),
            va == view_parts(pa@),
            vb == view_parts(pb@),
            parts_less(va, vb) == parts_less(va.skip(i as int), vb.skip(i as int)),
        decreases pa.len() - i,
    {
        assert(va.skip(i as int).drop_first() =~= va.skip(i + 1));
        assert(vb.skip(i as int).drop_first() =~= vb.skip(i + 1));
        assert(va.skip(i as int)[0] == pa@[i as int]@);
        assert(vb.skip(i as int)[0] == pb@[i as int]@);
        i = i + 1;
    }
    if i == pa.len() {
        i < pb.len()
    } else if i == pb.len() {
        false
    } else {
        assert(va.skip(i as int)[0] == pa@[i as int]@);
        assert(vb.skip(i as int)[0] == pb@[i as int]@);
        part_before(&pa[i], &pb[i])
    }
}

/// Where a stable insertion puts `x` into `s`: after the last element that
/// `x` does not come before.
pub open spec fn insert_pos(s: Seq<Seq<char>>, x: Seq<char>) -> nat
    decreases s.len(),
{
    if s.len() == 0 {
        0
    } else if path_less(x, s.last()) {
        insert_pos(s.drop_last(), x)
    } else {
        s.len()
    }
}

/// `s` sorted by path order, stably: equal paths keep their order.
pub open spec fn sort_paths(s: Seq<Seq<char>>) -> Seq<Seq<char>>
    decreases s.len(),
{
    if s.len() == 0 {
        seq![]
    } else {
        let prev = sort_paths(s.drop_last());
        prev.insert(insert_pos(prev, s.last()) as int, s.last())
    }
}

proof fn lemma_insert_pos_bound(s: Seq<Seq<char>>, x: Seq<char>)
    ensures
        insert_pos(s, x) <= s.len(),
    decreases s.len(),
{
    if s.len() > 0 && path_less(x, s.last()) {
        lemma_insert_pos_bound(s.drop_last(), x);
    }
}

proof fn lemma_sort_len(s: Seq<Seq<char>>)
    ensures
        sort_paths(s).len() == s.len(),
    decreases s.len(),
{
    if s.len() > 0 {
        lemma_sort_len(s.drop_last());
        lemma_insert_pos_bound(sort_paths(s.drop_last()), s.last());
    }
}

/// The paths `v` in path order; equal paths keep their order (std's
/// stable `sort` of `PathBuf`s).
pub fn sort_by_path(v: Vec<String>) -> (r: Vec<String>)
    ensures
        view_strings(r@) == sort_paths(view_strings(v@)),
{
    let ghost vs = view_strings(v@);
    let mut out: Vec<String> = Vec::new();
    let mut i: usize = 0;
    assert(view_strings(out@) =~= sort_paths(vs.take(0)));
    while i < v.len()
        invariant
            i <= v.len(),
            vs == view_strings(v@),
            view_strings(out@) == sort_paths(vs.take(i as int)),
        decreases v.len() - i,
    {
        let x = v[i].clone();
        assert(x@ == vs[i as int]);
        let ghost prev = view_strings(out@);
        let mut j: usize = out.len();
        assert(prev.take(j as int) =~= prev);
        while j > 0 && path_before(x.as_str(), out[j - 1].as_str())
            invariant
                j <= out.len(),
                prev == view_strings(out@),
                insert_pos(prev, x@) == insert_pos(prev.take(j as int), x@),
            decreases j,
        {
            assert(prev.take(j as int).drop_last() =~= prev.take(j - 1));
            assert(prev.take(j as int).last() == out@[j - 1]@);
            j = j - 1;
        }
        proof {
            if j > 0 {
                assert(prev.take(j as int).last() == out@[j - 1]@);
            }
        }
        assert(insert_pos(prev, x@) == j);
        out.insert(j, x);
        assert(vs.take(i + 1).drop_last() =~= vs.take(i as int));
        assert(vs.take(i + 1).last() == vs[i as int]);
        assert(view_strings(out@) =~= prev.insert(j as int, vs[i as int]));
        i = i + 1;
    }
    assert(vs.take(vs.len() as int) =~= vs);
    out
}

} // verus!

verus! {

/// Sorting only reorders: the sorted paths are the given paths, each as
/// often as before.
pub proof fn lemma_sort_permutes(s: Seq<Seq<char>>)
    ensures
        sort_paths(s).to_multiset() == s.to_multiset(),
        sort_paths(s).len() == s.len(),
    decreases s.len(),
{
    broadcast use vstd::seq_lib::group_to_multiset_ensures;

    lemma_sort_len(s);
    if s.len() > 0 {
        lemma_sort_permutes(s.drop_last());
        let prev = sort_paths(s.drop_last());
        lemma_insert_pos_bound(prev, s.last());
        assert(s =~= s.drop_last().push(s.last()));
    }
}

/// Every sorted path is one of the given paths.
pub proof fn lemma_sort_members(s: Seq<Seq<char>>, i: int)
    requires
        0 <= i < sort_paths(s).len(),
    ensures
        s.contains(sort_paths(s)[i]),
{
    broadcast use vstd::seq_lib::group_to_multiset_ensures;

    lemma_sort_permutes(s);
    let x = sort_paths(s)[i];
    assert(sort_paths(s).contains(x));
    assert(sort_paths(s).to_multiset().count(x) > 0);
    assert(s.to_multiset().count(x) > 0);
}

} // verus!

verus! {

proof fn lemma_chars_less_irreflexive(a: Seq<char>)
    ensures
        !chars_less(a, a),
    decreases a.len(),
{
    if a.len() > 0 {
        lemma_chars_less_irreflexive(a.drop_first());
    }
}

proof fn lemma_chars_less_transitive(a: Seq<char>, b: Seq<char>, c: Seq<char>)
    requires
        chars_less(a, b),
        chars_less(b, c),
    ensures
        chars_less(a, c),
    decreases a.len(),
{
    if a.len() > 0 && b.len() > 0 && c.len() > 0 {
        if a[0] == b[0] && b[0] == c[0] {
            lemma_chars_less_transitive(a.drop_first(), b.drop_first(), c.drop_first());
        }
    }
}

proof fn lemma_chars_less_total(a: Seq<char>, b: Seq<char>)
    requires
        a != b,
    ensures
        chars_less(a, b) || chars_less(b, a),
    decreases a.len(),
{
    if a.len() > 0 && b.len() > 0 && a[0] == b[0] {
        if a.drop_first() == b.drop_first() {
            assert(a =~= seq![a[0]] + a.drop_first());
            assert(b =~= seq![b[0]] + b.drop_first());
        }
        lemma_chars_less_total(a.drop_first(), b.drop_first());
    } else if a.len() > 0 && b.len() > 0 {
        assert((a[0] as int) != (b[0] as int));
    } else if a.len() == 0 && b.len() == 0 {
        assert(a =~= b);
    }
}

proof fn lemma_part_less_facts(a: Part, b: Part, c: Part)
    ensures
        !part_less(a, a),
        part_less(a, b) && part_less(b, c) ==> part_less(a, c),
        a != b ==> part_less(a, b) || part_less(b, a),
{
    if let Part::Name(x) = a {
        lemma_chars_less_irreflexive(x);
        if let Part::Name(y) = b {
            if x != y {
                lemma_chars_less_total(x, y);
            }
            if let Part::Name(z) = c {
                if chars_less(x, y) && chars_less(y, z) {
                    lemma_chars_less_transitive(x, y, z);
                }
            }
        }
    }
}

proof fn lemma_parts_less_irreflexive(a: Seq<Part>)
    ensures
        !parts_less(a, a),
    decreases a.len(),
{
    if a.len() > 0 {
        lemma_parts_less_irreflexive(a.drop_first());
    }
}

proof fn lemma_parts_less_transitive(a: Seq<Part>, b: Seq<Part>, c: Seq<Part>)
    requires
        parts_less(a, b),
        parts_less(b, c),
    ensures
        parts_less(a, c),
    decreases a.len(),
{
    if a.len() > 0 && b.len() > 0 && c.len() > 0 {
        lemma_part_less_facts(a[0], b[0], c[0]);
        if a[0] == b[0] && b[0] == c[0] {
            lemma_parts_less_transitive(a.drop_first(), b.drop_first(), c.drop_first());
        }
    }
}

proof fn lemma_parts_less_total(a: Seq<Part>, b: Seq<Part>)
    requires
        a != b,
    ensures
        parts_less(a, b) || parts_less(b, a),
    decreases a.len(),
{
    if a.len() > 0 && b.len() > 0 && a[0] == b[0] {
        if a.drop_first() == b.drop_first() {
            assert(a =~= seq![a[0]] + a.drop_first());
            assert(b =~= seq![b[0]] + b.drop_first());
        }
        lemma_parts_less_total(a.drop_first(), b.drop_first());
    } else if a.len() > 0 && b.len() > 0 {
        lemma_part_less_facts(a[0], b[0], b[0]);
    } else if a.len() == 0 && b.len() == 0 {
        assert(a =~= b);
    }
}

/// What a path does not come before, comes after or level with it: the
/// path order is a strict weak order.
proof fn lemma_path_order(a: Seq<char>, b: Seq<char>, c: Seq<char>)
    ensures
        !path_less(a, a),
        path_less(a, b) ==> !path_less(b, a),
        path_less(a, b) && path_less(b, c) ==> path_less(a, c),
        !path_less(a, b) && !path_less(b, c) ==> !path_less(a, c),
{
    let (ca, cb, cc) = (components(a), components(b), components(c));
    lemma_parts_less_irreflexive(ca);
    if parts_less(ca, cb) && parts_less(cb, ca) {
        lemma_parts_less_transitive(ca, cb, ca);
    }
    if parts_less(ca, cb) && parts_less(cb, cc) {
        lemma_parts_less_transitive(ca, cb, cc);
    }
    if !parts_less(ca, cb) && !parts_less(cb, cc) && parts_less(ca, cc) {
        if ca == cb {
        } else {
            lemma_parts_less_total(ca, cb);
            lemma_parts_less_transitive(cb, ca, cc);
        }
    }
}

/// The paths are in path order: none comes before one that precedes it.
pub open spec fn is_path_sorted(s: Seq<Seq<char>>) -> bool {
    forall|i: int, j: int| 0 <= i < j < s.len() ==> !path_less(#[trigger] s[j], #[trigger] s[i])
}

proof fn lemma_insert_pos_facts(s: Seq<Seq<char>>, x: Seq<char>)
    ensures
        insert_pos(s, x) <= s.len(),
        forall|k: int| insert_pos(s, x) <= k < s.len() ==> path_less(x, #[trigger] s[k]),
        insert_pos(s, x) > 0 ==> !path_less(x, s[insert_pos(s, x) - 1]),
    decreases s.len(),
{
    if s.len() > 0 && path_less(x, s.last()) {
        lemma_insert_pos_facts(s.drop_last(), x);
        assert forall|k: int| insert_pos(s, x) <= k < s.len() implies path_less(x, #[trigger] s[k]) by {
            if k < s.len() - 1 {
                assert(s[k] == s.drop_last()[k]);
            }
        }
    }
}

/// Sorting puts the paths in path order.
pub proof fn lemma_sort_sorted(s: Seq<Seq<char>>)
    ensures
        is_path_sorted(sort_paths(s)),
    decreases s.len(),
{
    if s.len() > 0 {
        lemma_sort_sorted(s.drop_last());
        let prev = sort_paths(s.drop_last());
        let x = s.last();
        let p = insert_pos(prev, x) as int;
        lemma_insert_pos_facts(prev, x);
        let q = prev.insert(p, x);
        assert forall|i: int, j: int| 0 <= i < j < q.len() implies !path_less(
            #[trigger] q[j],
            #[trigger] q[i],
        ) by {
            if j < p {
                assert(q[i] == prev[i] && q[j] == prev[j]);
            } else if j == p {
                assert(q[i] == prev[i]);
                lemma_path_order(x, prev[p - 1], prev[i]);
                if i < p - 1 {
                    assert(!path_less(prev[p - 1], prev[i]));
                }
            } else if i == p {
                assert(q[j] == prev[j - 1]);
                lemma_path_order(x, prev[j - 1], x);
            } else if i < p {
                assert(q[i] == prev[i] && q[j] == prev[j - 1]);
            } else {
                assert(q[i] == prev[i - 1] && q[j] == prev[j - 1]);
            }
        }
    }
}

} // verus!
