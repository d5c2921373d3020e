//! The order in which role lists are shown, and sorting by it.
use vstd::prelude::*;
use crate::models::PimRole;
use crate::text::{chars_of, lex_less, lex_lt, lemma_lex_irreflexive, lemma_lex_total,
    lemma_lex_asymmetric, lemma_lex_transitive};

verus! {

/// A sort key: two texts compared in turn, then a number.
pub type SortKey = (Seq<char>, Seq<char>, int);

pub open spec fn key_lt(a: SortKey, b: SortKey) -> bool {
    ||| lex_lt(a.0, b.0)
    ||| (a.0 == b.0 && lex_lt(a.1, b.1))
    ||| (a.0 == b.0 && a.1 == b.1 && a.2 < b.2)
}

/// The key of a role: resource roles by scope name, role name, active
/// first; group roles by group name, access kind, active first.
pub open spec fn role_key(r: PimRole, group_order: bool) -> SortKey {
    let act = if r.status is Active { 0int } else { 1int };
    if group_order {
        (r.role_name@, r.scope_display_name@, act)
    } else {
        (r.scope_display_name@, r.role_name@, act)
    }
}

/// `a` must come before `b`.
pub open spec fn role_before(a: PimRole, b: PimRole, group_order: bool) -> bool {
    key_lt(role_key(a, group_order), role_key(b, group_order))
}

/// No role comes after one that must follow it.
pub open spec fn roles_sorted(v: Seq<PimRole>, group_order: bool) -> bool {
    forall|i: int, j: int| 0 <= i < j < v.len() ==> !role_before(#[trigger] v[j], #[trigger] v[i], group_order)
}

/// The roles of `s` whose key is `k`, in their order in `s`.
pub open spec fn ties_of(s: Seq<PimRole>, k: SortKey, group_order: bool) -> Seq<PimRole> {
    s.filter(|y: PimRole| role_key(y, group_order) == k)
}

/// Swapping two neighbours with different keys leaves every run of equal
/// keys in the same order.
proof fn lemma_swap_keeps_ties(before: Seq<PimRole>, j: int, k: SortKey, g: bool)
    requires
        0 < j < before.len(),
        role_key(before[j], g) != role_key(before[j - 1], g),
    ensures
        ties_of(before.update(j - 1, before[j]).update(j, before[j - 1]), k, g) == ties_of(before, k, g),
{
    broadcast use vstd::seq_lib::group_filter_ensures;
    let p = |y: PimRole| role_key(y, g) == k;
    let x = before[j - 1];
    let y = before[j];
    let a = before.take(j - 1);
    let b = before.skip(j + 1);
    let after = before.update(j - 1, y).update(j, x);
    assert(before =~= a + seq![x, y] + b);
    assert(after =~= a + seq![y, x] + b);
    Seq::filter_distributes_over_add(a + seq![x, y], b, p);
    Seq::filter_distributes_over_add(a, seq![x, y], p);
    Seq::filter_distributes_over_add(a + seq![y, x], b, p);
    Seq::filter_distributes_over_add(a, seq![y, x], p);
    assert(seq![x, y] =~= seq![x].push(y));
    assert(seq![y, x] =~= seq![y].push(x));
    assert(seq![x] =~= Seq::<PimRole>::empty().push(x));
    assert(seq![y] =~= Seq::<PimRole>::empty().push(y));
    Seq::<PimRole>::empty().lemma_filter_push(x, p);
    Seq::<PimRole>::empty().lemma_filter_push(y, p);
    seq![x].lemma_filter_push(y, p);
    seq![y].lemma_filter_push(x, p);
    reveal(Seq::filter);
    assert(Seq::<PimRole>::empty().filter(p) =~= Seq::<PimRole>::empty());
    assert(seq![x, y].filter(p) =~= seq![y, x].filter(p));
}

pub proof fn lemma_key_irreflexive(a: SortKey)
    ensures
        !key_lt(a, a),
{
    lemma_lex_irreflexive(a.0);
    lemma_lex_irreflexive(a.1);
}

pub proof fn lemma_key_total(a: SortKey, b: SortKey)
    ensures
        a == b || key_lt(a, b) || key_lt(b, a),
{
    lemma_lex_total(a.0, b.0);
    lemma_lex_total(a.1, b.1);
}

pub proof fn lemma_key_asymmetric(a: SortKey, b: SortKey)
    ensures
        key_lt(a, b) ==> !key_lt(b, a),
{
    lemma_lex_asymmetric(a.0, b.0);
    lemma_lex_asymmetric(a.1, b.1);
    lemma_lex_irreflexive(a.0);
    lemma_lex_irreflexive(a.1);
}

pub proof fn lemma_key_transitive(a: SortKey, b: SortKey, c: SortKey)
    ensures
        key_lt(a, b) && key_lt(b, c) ==> key_lt(a, c),
{
    lemma_lex_transitive(a.0, b.0, c.0);
    lemma_lex_transitive(a.1, b.1, c.1);
}

/// Not-after is transitive.
pub proof fn lemma_key_not_after(a: SortKey, b: SortKey, c: SortKey)
    ensures
        !key_lt(b, a) && !key_lt(c, b) ==> !key_lt(c, a),
{
    lemma_key_total(a, b);
    lemma_key_total(b, c);
    lemma_key_transitive(a, b, c);
    lemma_key_asymmetric(a, c);
}

proof fn lemma_before_facts(a: PimRole, b: PimRole, c: PimRole, g: bool)
    ensures
        !role_before(a, a, g),
        role_before(a, b, g) ==> !role_before(b, a, g),
        !role_before(b, a, g) && !role_before(c, b, g) ==> !role_before(c, a, g),
        role_before(a, b, g) && !role_before(c, b, g) ==> !role_before(c, a, g),
{
    let (ka, kb, kc) = (role_key(a, g), role_key(b, g), role_key(c, g));
    lemma_key_irreflexive(ka);
    lemma_key_asymmetric(ka, kb);
    lemma_key_not_after(ka, kb, kc);
    lemma_key_asymmetric(kb, ka);
    lemma_key_not_after(ka, kb, kc);
}

fn lex_before(a: &str, b: &str) -> (r: bool)
    ensures
        r == lex_lt(a@, b@),
{
    let x = chars_of(a);
    let y = chars_of(b);
    lex_less(&x, &y)
}

/// Whether `a` must come before `b`.
pub fn is_before(a: &PimRole, b: &PimRole, group_order: bool) -> (r: bool)
    ensures
        r == role_before(*a, *b, group_order),
{
    let (a0, a1, b0, b1) = if group_order {
        (a.role_name.as_str(), a.scope_display_name.as_str(), b.role_name.as_str(), b.scope_display_name.as_str())
    } else {
        (a.scope_display_name.as_str(), a.role_name.as_str(), b.scope_display_name.as_str(), b.role_name.as_str())
    };
    if lex_before(a0, b0) {
        return true;
    }
    if lex_before(b0, a0) {
        proof {
            lemma_lex_asymmetric(b0@, a0@);
            lemma_lex_irreflexive(a0@);
        }
        return false;
    }
    proof {
        lemma_lex_total(a0@, b0@);
    }
    if lex_before(a1, b1) {
        return true;
    }
    if lex_before(b1, a1) {
        proof {
            lemma_lex_asymmetric(b1@, a1@);
            lemma_lex_irreflexive(a1@);
        }
        return false;
    }
    proof {
        lemma_lex_total(a1@, b1@);
    }
    a.status.is_active() && !b.status.is_active()
}

/// Sorts roles by the display order, keeping the same roles; roles with
/// equal keys keep their order (a stable sort).
pub fn sort_roles(v: &mut Vec<PimRole>, group_order: bool)
    ensures
        roles_sorted(final(v)@, group_order),
        final(v)@.to_multiset() == old(v)@.to_multiset(),
        forall|k: SortKey| #[trigger] ties_of(final(v)@, k, group_order) == ties_of(old(v)@, k, group_order),
{
    broadcast use vstd::seq_lib::group_to_multiset_ensures;
    let n = v.len();
    let mut i: usize = 0;
    while i < n
        invariant
            n == v@.len(),
            i <= n,
            v@.to_multiset() == old(v)@.to_multiset(),
            forall|k: SortKey| #[trigger] ties_of(v@, k, group_order) == ties_of(old(v)@, k, group_order),
            roles_sorted(v@.take(i as int), group_order),
        decreases n - i,
    {
        let mut j: usize = i;
        proof {
            let g = group_order;
            assert forall|p: int, q: int|
                0 <= p < q <= i && p != j && q != j implies !role_before(
                    #[trigger] v@[q],
                    #[trigger] v@[p],
                    g,
                ) by {
                assert(v@.take(i as int)[q] == v@[q]);
                assert(v@.take(i as int)[p] == v@[p]);
            }
        }
        // Invariant: the first i+1 elements are sorted except for position
        // j, which is not after any element to its right.
        while j > 0 && is_before(&v[j], &v[j - 1], group_order)
            invariant
                n == v@.len(),
                i < n,
                j <= i,
                v@.to_multiset() == old(v)@.to_multiset(),
                forall|k: SortKey| #[trigger] ties_of(v@, k, group_order) == ties_of(old(v)@, k, group_order),
                forall|p: int, q: int|
                    0 <= p < q <= i && p != j && q != j ==> !role_before(
                        #[trigger] v@[q],
                        #[trigger] v@[p],
                        group_order,
                    ),
                forall|q: int| j < q <= i ==> !role_before(#[trigger] v@[q], v@[j as int], group_order),
                j > 0 && j < i ==> !role_before(v@[j + 1], v@[j - 1], group_order),
            decreases j,
        {
            let ghost before = v@;
            let x = v.remove(j);
            v.insert(j - 1, x);
            proof {
                assert(v@ =~= before.update(j - 1, before[j as int]).update(j as int, before[j - 1]));
                assert(v@.to_multiset() =~= before.to_multiset()) by {
                    broadcast use vstd::multiset::group_multiset_axioms;
                    vstd::seq_lib::to_multiset_remove(before, j as int);
                    vstd::seq_lib::to_multiset_insert(before.remove(j as int), j - 1, before[j as int]);
                    assert(before.remove(j as int).insert(j - 1, before[j as int]) =~= v@);
                    vstd::seq_lib::to_multiset_contains(before, before[j as int]);
                    assert(before.to_multiset().contains(before[j as int]));
                }
                let g = group_order;
                assert(role_key(before[j as int], g) != role_key(before[j - 1], g)) by {
                    lemma_key_irreflexive(role_key(before[j as int], g));
                }
                assert forall|k: SortKey| #[trigger] ties_of(v@, k, g) == ties_of(old(v)@, k, g) by {
                    lemma_swap_keeps_ties(before, j as int, k, g);
                }
                assert forall|p: int, q: int|
                    0 <= p < q <= i && p != j - 1 && q != j - 1 implies !role_before(
                        #[trigger] v@[q],
                        #[trigger] v@[p],
                        g,
                    ) by {
                    if p == j {
                        // v@[j] is the old v@[j-1]
                        if q > j {
                            lemma_before_facts(before[j as int], before[j - 1], before[q], g);
                        }
                    } else if q == j {
                        lemma_before_facts(before[p], before[j - 1], before[j - 1], g);
                    }
                }
                assert forall|q: int| j - 1 < q <= i implies !role_before(
                    #[trigger] v@[q],
                    v@[j - 1],
                    g,
                ) by {
                    if q == j {
                        lemma_before_facts(before[j as int], before[j - 1], before[j - 1], g);
                    } else {
                        lemma_before_facts(before[j as int], before[j as int], before[q], g);
                    }
                }
                if j - 1 > 0 && j - 1 < i {
                    // v@[j] = before[j-1], v@[j-2] = before[j-2]
                    assert(!role_before(before[j - 1], before[j - 2], g));
                }
            }
            j = j - 1;
        }
        proof {
            let g = group_order;
            assert forall|p: int, q: int| 0 <= p < q < i + 1 implies !role_before(
                #[trigger] v@.take(i + 1)[q],
                #[trigger] v@.take(i + 1)[p],
                g,
            ) by {
                if p == j as int && j > 0 {
                    // unreachable: loop stopped with v[j] not before v[j-1]
                } else if q == j as int && j > 0 {
                    let a = v@[j - 1];
                    let b = v@[j as int];
                    lemma_before_facts(v@[p], a, b, g);
                    if p < j - 1 {
                        assert(!role_before(a, v@[p], g));
                    }
                }
            }
        }
        i = i + 1;
    }
    proof {
        assert(v@.take(n as int) =~= v@);
    }
}

} // verus!
