//! The folders on which two mappings disagree.

use crate::listing::{contains_name, FilterMap};
use vstd::prelude::*;
use vstd::seq_lib::lemma_no_dup_in_concat;

verus! {

/// Two lists differ when they disagree at a position that both have. A list
/// does not differ from one that only continues it.
pub open spec fn lists_differ(a: Seq<Seq<char>>, b: Seq<Seq<char>>) -> bool {
    exists|i: int| 0 <= i < a.len() && i < b.len() && a[i] != b[i]
}

/// A folder of `a` is a difference against `b` when `b` lacks it or lists
/// something else under it.
pub open spec fn folder_differs(
    a: Map<Seq<char>, Seq<Seq<char>>>,
    b: Map<Seq<char>, Seq<Seq<char>>>,
    k: Seq<char>,
) -> bool {
    !b.contains_key(k) || lists_differ(a[k], b[k])
}

/// The folders of `a` that are a difference against `b`.
pub open spec fn differing(
    a: Map<Seq<char>, Seq<Seq<char>>>,
    b: Map<Seq<char>, Seq<Seq<char>>>,
) -> spec_fn(Seq<char>) -> bool {
    |k: Seq<char>| folder_differs(a, b, k)
}

/// The folders of `a` that are a difference against `b` and not among `seen`.
pub open spec fn newly_differing(
    a: Map<Seq<char>, Seq<Seq<char>>>,
    b: Map<Seq<char>, Seq<Seq<char>>>,
    seen: Seq<Seq<char>>,
) -> spec_fn(Seq<char>) -> bool {
    |k: Seq<char>| folder_differs(a, b, k) && !seen.contains(k)
}

/// The folders that `a` lacks.
pub open spec fn missing_from(a: Map<Seq<char>, Seq<Seq<char>>>) -> spec_fn(Seq<char>) -> bool {
    |k: Seq<char>| !a.contains_key(k)
}

/// The difference of two mappings: the folders of `lhs` that `rhs` lacks or
/// lists differently, in the order of `lhs`, then the folders that only `rhs`
/// has, in the order of `rhs`.
pub open spec fn map_diff_spec(lhs: FilterMap, rhs: FilterMap) -> Seq<Seq<char>> {
    lhs.folders().filter(differing(lhs@, rhs@)) + rhs.folders().filter(missing_from(lhs@))
}

/// A folder on which two mappings disagree: one of them has it, and they do
/// not both have it with lists that agree where both have an element.
pub open spec fn is_difference(
    a: Map<Seq<char>, Seq<Seq<char>>>,
    b: Map<Seq<char>, Seq<Seq<char>>>,
    k: Seq<char>,
) -> bool {
    if a.contains_key(k) && b.contains_key(k) {
        lists_differ(a[k], b[k])
    } else {
        a.contains_key(k) || b.contains_key(k)
    }
}

/// Whether two lists differ at a position that both have.
pub fn names_differ(a: &Vec<String>, b: &Vec<String>) -> (differ: bool)
    ensures
        differ == lists_differ(a.deep_view(), b.deep_view()),
{
    let mut i: usize = 0;
    while i < a.len() && i < b.len()
        invariant
            i <= a.len(),
            i <= b.len(),
            forall|j: int| 0 <= j < i ==> a.deep_view()[j] == b.deep_view()[j],
        decreases a.len() - i,
    {
        if a[i] != b[i] {
            assert(a.deep_view()[i as int] != b.deep_view()[i as int]);
            return true;
        }
        i += 1;
    }
    false
}

/// Two predicates that agree on the elements of a sequence keep the same
/// elements of it.
proof fn lemma_filter_agree(
    s: Seq<Seq<char>>,
    p: spec_fn(Seq<char>) -> bool,
    q: spec_fn(Seq<char>) -> bool,
)
    requires
        forall|i: int| 0 <= i < s.len() ==> p(#[trigger] s[i]) == q(s[i]),
    ensures
        s.filter(p) == s.filter(q),
    decreases s.len(),
{
    reveal(Seq::filter);
    if s.len() > 0 {
        lemma_filter_agree(s.drop_last(), p, q);
    }
}

/// What is kept of a sequence are its elements that meet the predicate.
proof fn lemma_filter_members(s: Seq<Seq<char>>, p: spec_fn(Seq<char>) -> bool, k: Seq<char>)
    ensures
        s.filter(p).contains(k) <==> s.contains(k) && p(k),
{
    if s.filter(p).contains(k) {
        s.lemma_filter_contains_rev(p, k);
        let j = choose|j: int| 0 <= j < s.filter(p).len() && s.filter(p)[j] == k;
        s.lemma_filter_pred(p, j);
    }
    if s.contains(k) && p(k) {
        let j = choose|j: int| 0 <= j < s.len() && s[j] == k;
        s.lemma_filter_contains(p, j);
    }
}

/// What is kept of a sequence without duplicates has no duplicates.
proof fn lemma_filter_no_duplicates(s: Seq<Seq<char>>, p: spec_fn(Seq<char>) -> bool)
    requires
        s.no_duplicates(),
    ensures
        s.filter(p).no_duplicates(),
    decreases s.len(),
{
    reveal(Seq::filter);
    if s.len() > 0 {
        lemma_filter_no_duplicates(s.drop_last(), p);
        lemma_filter_members(s.drop_last(), p, s.last());
    }
}

/// A concatenation holds what its two parts hold.
proof fn lemma_concat_members(a: Seq<Seq<char>>, b: Seq<Seq<char>>, k: Seq<char>)
    ensures
        (a + b).contains(k) <==> a.contains(k) || b.contains(k),
{
    if a.contains(k) {
        let j = choose|j: int| 0 <= j < a.len() && a[j] == k;
        assert((a + b)[j] == k);
    }
    if b.contains(k) {
        let j = choose|j: int| 0 <= j < b.len() && b[j] == k;
        assert((a + b)[a.len() + j] == k);
    }
    if (a + b).contains(k) {
        let j = choose|j: int| 0 <= j < (a + b).len() && (a + b)[j] == k;
        if j < a.len() {
            assert(a[j] == k);
        } else {
            assert(b[j - a.len()] == k);
        }
    }
}

/// Appends to `top` the folders of `lhs` that are a difference against `rhs`
/// and that `top` does not hold yet.
pub fn collect_differences(top: &mut Vec<String>, lhs: &FilterMap, rhs: &FilterMap)
    ensures
        final(top).deep_view() == old(top).deep_view() + lhs.folders().filter(
            newly_differing(lhs@, rhs@, old(top).deep_view()),
        ),
{
    let ghost seen = top.deep_view();
    let ghost keep = newly_differing(lhs@, rhs@, seen);
    let ghost folders = lhs.folders();
    proof {
        use_type_invariant(lhs);
        reveal(Seq::filter);
    }
    let n = lhs.len();
    let mut i: usize = 0;
    while i < n
        invariant
            i <= n,
            n == folders.len(),
            folders == lhs.folders(),
            folders.no_duplicates(),
            keep == newly_differing(lhs@, rhs@, seen),
            top.deep_view() == seen + folders.take(i as int).filter(keep),
        decreases n - i,
    {
        let key = lhs.folder(i);
        proof {
            // The folder at `i` is not among those taken before it, so `top`
            // holds it only if it held it at the start.
            let taken = folders.take(i as int);
            assert(folders.take(i as int + 1) =~= taken.push(key@));
            taken.lemma_filter_push(key@, keep);
            lemma_filter_members(taken, keep, key@);
            lemma_concat_members(seen, taken.filter(keep), key@);
        }
        if !contains_name(top, key) {
            let differs = match rhs.get(key) {
                None => true,
                Some(other) => names_differ(lhs.names(i), other),
            };
            if differs {
                let ghost before = top.deep_view();
                top.push(key.clone());
                assert(top.deep_view() =~= before.push(key@));
            }
        }
        i += 1;
    }
    assert(folders.take(n as int) =~= folders);
}

/// The folders on which `lhs` and `rhs` disagree, each once: first those of
/// `lhs`, then those that only `rhs` has.
pub fn map_diff(lhs: &FilterMap, rhs: &FilterMap) -> (top: Vec<String>)
    ensures
        top.deep_view() == map_diff_spec(*lhs, *rhs),
{
    let mut top: Vec<String> = Vec::new();
    assert(top.deep_view() =~= Seq::<Seq<char>>::empty());
    collect_differences(&mut top, lhs, rhs);
    let ghost first = top.deep_view();
    collect_differences(&mut top, rhs, lhs);
    proof {
        let none = Seq::<Seq<char>>::empty();
        lhs.lemma_folders_are_keys();
        rhs.lemma_folders_are_keys();
        // Nothing was known before the first pass.
        lemma_filter_agree(
            lhs.folders(),
            newly_differing(lhs@, rhs@, none),
            differing(lhs@, rhs@),
        );
        assert(first =~= lhs.folders().filter(differing(lhs@, rhs@)));
        // The first pass found every folder that both have and list
        // differently, so the second finds the folders that only `rhs` has.
        assert forall|i: int| 0 <= i < rhs.folders().len() implies newly_differing(
            rhs@,
            lhs@,
            first,
        )(#[trigger] rhs.folders()[i]) == missing_from(lhs@)(rhs.folders()[i]) by {
            let k = rhs.folders()[i];
            lemma_filter_members(lhs.folders(), differing(lhs@, rhs@), k);
            if lhs@.contains_key(k) {
                lemma_lists_differ_symmetric(rhs@[k], lhs@[k]);
            }
        }
        lemma_filter_agree(
            rhs.folders(),
            newly_differing(rhs@, lhs@, first),
            missing_from(lhs@),
        );
    }
    top
}

/// Whether two lists differ does not depend on which of them comes first.
pub proof fn lemma_lists_differ_symmetric(a: Seq<Seq<char>>, b: Seq<Seq<char>>)
    ensures
        lists_differ(a, b) == lists_differ(b, a),
{
    if lists_differ(a, b) {
        let i = choose|i: int| 0 <= i < a.len() && i < b.len() && a[i] != b[i];
        assert(b[i] != a[i]);
    }
    if lists_differ(b, a) {
        let i = choose|i: int| 0 <= i < b.len() && i < a.len() && b[i] != a[i];
        assert(a[i] != b[i]);
    }
}

/// The difference of two mappings names every folder on which they disagree,
/// each once, and no other.
pub proof fn lemma_map_diff_names_each_difference_once(lhs: FilterMap, rhs: FilterMap)
    requires
        lhs.wf(),
        rhs.wf(),
    ensures
        map_diff_spec(lhs, rhs).no_duplicates(),
        forall|k: Seq<char>| #[trigger]
            map_diff_spec(lhs, rhs).contains(k) <==> is_difference(lhs@, rhs@, k),
{
    let changed = lhs.folders().filter(differing(lhs@, rhs@));
    let added = rhs.folders().filter(missing_from(lhs@));
    lhs.lemma_folders_are_keys();
    rhs.lemma_folders_are_keys();
    lemma_filter_no_duplicates(lhs.folders(), differing(lhs@, rhs@));
    lemma_filter_no_duplicates(rhs.folders(), missing_from(lhs@));
    assert forall|i: int, j: int| 0 <= i < changed.len() && 0 <= j < added.len() implies changed[i]
        != added[j] by {
        assert(changed.contains(changed[i]));
        assert(added.contains(added[j]));
        lemma_filter_members(lhs.folders(), differing(lhs@, rhs@), changed[i]);
        lemma_filter_members(rhs.folders(), missing_from(lhs@), added[j]);
    }
    lemma_no_dup_in_concat(changed, added);
    assert forall|k: Seq<char>| #[trigger]
        map_diff_spec(lhs, rhs).contains(k) <==> is_difference(lhs@, rhs@, k) by {
        lemma_filter_members(lhs.folders(), differing(lhs@, rhs@), k);
        lemma_filter_members(rhs.folders(), missing_from(lhs@), k);
        lemma_concat_members(changed, added, k);
    }
}

/// A mapping does not differ from itself.
pub proof fn lemma_map_diff_of_self_is_empty(m: FilterMap)
    ensures
        map_diff_spec(m, m) == Seq::<Seq<char>>::empty(),
{
    let never = |k: Seq<char>| false;
    m.lemma_folders_are_keys();
    lemma_filter_agree(m.folders(), differing(m@, m@), never);
    lemma_filter_agree(m.folders(), missing_from(m@), never);
    m.folders().lemma_all_neg_filter_empty(never);
    assert(m.folders().filter(never) =~= Seq::<Seq<char>>::empty());
}

/// Two sequences without duplicates that hold the same elements are equal
/// up to order.
proof fn lemma_same_members_same_multiset(s: Seq<Seq<char>>, t: Seq<Seq<char>>)
    requires
        s.no_duplicates(),
        t.no_duplicates(),
        forall|k: Seq<char>| s.contains(k) <==> t.contains(k),
    ensures
        s.to_multiset() == t.to_multiset(),
{
    s.to_multiset_ensures();
    t.to_multiset_ensures();
    s.lemma_multiset_has_no_duplicates();
    t.lemma_multiset_has_no_duplicates();
    assert forall|k: Seq<char>| s.to_multiset().count(k) == t.to_multiset().count(k) by {
        assert(s.contains(k) <==> t.contains(k));
    }
    assert(s.to_multiset() =~= t.to_multiset());
}

/// The difference of `lhs` against `rhs` is, up to order, that of `rhs`
/// against `lhs`.
pub proof fn lemma_map_diff_is_symmetric(lhs: FilterMap, rhs: FilterMap)
    requires
        lhs.wf(),
        rhs.wf(),
    ensures
        map_diff_spec(lhs, rhs).to_multiset() == map_diff_spec(rhs, lhs).to_multiset(),
{
    lemma_map_diff_names_each_difference_once(lhs, rhs);
    lemma_map_diff_names_each_difference_once(rhs, lhs);
    assert forall|k: Seq<char>|
        map_diff_spec(lhs, rhs).contains(k) <==> map_diff_spec(rhs, lhs).contains(k) by {
        if lhs@.contains_key(k) && rhs@.contains_key(k) {
            lemma_lists_differ_symmetric(lhs@[k], rhs@[k]);
        }
    }
    lemma_same_members_same_multiset(map_diff_spec(lhs, rhs), map_diff_spec(rhs, lhs));
}

/// A folder under which one mapping lists only the beginning of what the
/// other lists is no difference, though the lists are not equal.
pub proof fn lemma_prefix_is_no_difference(lhs: FilterMap, rhs: FilterMap, k: Seq<char>)
    requires
        lhs@.contains_key(k),
        rhs@.contains_key(k),
        lhs@[k].is_prefix_of(rhs@[k]) || rhs@[k].is_prefix_of(lhs@[k]),
    ensures
        !map_diff_spec(lhs, rhs).contains(k),
{
    lemma_filter_members(lhs.folders(), differing(lhs@, rhs@), k);
    lemma_filter_members(rhs.folders(), missing_from(lhs@), k);
    lemma_concat_members(
        lhs.folders().filter(differing(lhs@, rhs@)),
        rhs.folders().filter(missing_from(lhs@)),
        k,
    );
}

} // verus!
