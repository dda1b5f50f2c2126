use vstd::prelude::*;
use vstd::relations::sorted_by;
use vstd::seq_lib::lemma_sorted_unique;

use crate::request::{
    le, lemma_req_order_total, lemma_req_order_trichotomy, req_le, req_lt, req_order, views, ReqV,
    Request,
};

verus! {

broadcast use vstd::seq_lib::group_to_multiset_ensures, vstd::multiset::group_multiset_axioms;

/// The canonical plan for a request list: the requests sorted by the
/// canonical comparator (resource name lexicographically ascending, mode
/// rank as the tie-break). This is the one ordering every call site
/// shares, the total lock order that rules out ordering deadlocks.
pub open spec fn ordered_plan(s: Seq<ReqV>) -> Seq<ReqV> {
    s.sort_by(req_order())
}

/// Mapping to views commutes with inserting one request.
proof fn lemma_views_insert(s: Seq<Request>, j: int, x: Request)
    requires
        0 <= j <= s.len(),
    ensures
        views(s.insert(j, x)) =~= views(s).insert(j, x@),
{
    s.insert_ensures(j, x);
    views(s).insert_ensures(j, x@);
    assert forall|i: int| 0 <= i < s.len() + 1 implies views(s.insert(j, x))[i] == views(s).insert(
        j,
        x@,
    )[i] by {
        if i < j {
            assert(s.insert(j, x)[i] == s[i]);
        } else if i > j {
            assert(s.insert(j, x)[i] == s[i - 1]);
            assert(views(s).insert(j, x@)[i] == views(s)[i - 1]);
        }
    }
}

/// Insert one request into a canonically sorted plan, keeping it sorted.
fn insert_sorted(plan: &mut Vec<Request>, r: Request)
    requires
        sorted_by(views(old(plan)@), req_order()),
    ensures
        sorted_by(views(final(plan)@), req_order()),
        views(final(plan)@).to_multiset() == views(old(plan)@).to_multiset().insert(r@),
{
    proof {
        lemma_req_order_total();
    }
    let mut j: usize = 0;
    while j < plan.len() && le(&plan[j], &r)
        invariant
            j <= plan@.len(),
            plan@ == old(plan)@,
            forall|k: int| 0 <= k < j ==> req_le(#[trigger] views(plan@)[k], r@),
        decreases plan@.len() - j,
    {
        assert(views(plan@)[j as int] == plan@[j as int]@);
        j = j + 1;
    }
    let ghost vo = views(plan@);
    let ghost ro = req_order();
    proof {
        assert((j as int) < vo.len() ==> !req_le(vo[j as int], r@));
    }
    plan.insert(j, r);
    proof {
        lemma_views_insert(old(plan)@, j as int, r);
        vstd::seq_lib::to_multiset_insert(vo, j as int, r@);
        let vn = views(plan@);
        assert(vn =~= vo.insert(j as int, r@));
        vo.insert_ensures(j as int, r@);
        assert forall|i1: int, i2: int| 0 <= i1 < i2 < vn.len() implies #[trigger] ro(
            vn[i1],
            vn[i2],
        ) by {
            if i2 < j {
                assert(ro(vo[i1], vo[i2]));
            } else if i1 < j && i2 == j {
                assert(req_le(vo[i1], r@));
            } else if i1 < j && i2 > j {
                assert(ro(vo[i1], vo[i2 - 1]));
            } else if i1 == j {
                assert(!ro(vo[j as int], r@));
                assert(ro(r@, vo[j as int]));
                if i2 - 1 > j {
                    assert(ro(vo[j as int], vo[i2 - 1]));
                }
            } else {
                assert(ro(vo[i1 - 1], vo[i2 - 1]));
            }
        }
    }
}

/// Sort a request list into its canonical plan — the Canonical Orderer.
///
/// The plan is exactly `ordered_plan` of the input's views: a sorted
/// rearrangement holding the same requests, duplicates included. Nothing
/// but the multiset of `(name, mode)` pairs influences the result, so
/// any permutation of the input yields the identical plan.
pub fn order_requests(reqs: Vec<Request>) -> (plan: Vec<Request>)
    ensures
        views(plan@) == ordered_plan(views(reqs@)),
        sorted_by(views(plan@), req_order()),
        views(plan@).to_multiset() == views(reqs@).to_multiset(),
{
    let ghost orig = reqs@;
    let mut rest = reqs;
    let mut plan: Vec<Request> = Vec::new();
    proof {
        assert(views(plan@) =~= Seq::<ReqV>::empty());
        assert(views(plan@).to_multiset().add(views(rest@).to_multiset()) =~= views(
            orig,
        ).to_multiset());
    }
    while rest.len() > 0
        invariant
            sorted_by(views(plan@), req_order()),
            views(plan@).to_multiset().add(views(rest@).to_multiset()) == views(orig).to_multiset(),
        decreases rest@.len(),
    {
        let ghost prev_rest = rest@;
        let ghost prev_plan_ms = views(plan@).to_multiset();
        let r = rest.pop().unwrap();
        proof {
            assert(views(prev_rest) =~= views(rest@).push(r@));
            assert(views(prev_rest).to_multiset() =~= views(rest@).to_multiset().insert(r@));
        }
        insert_sorted(&mut plan, r);
        proof {
            assert(views(plan@).to_multiset().add(views(rest@).to_multiset()) =~= prev_plan_ms.add(
                views(prev_rest).to_multiset(),
            ));
        }
    }
    proof {
        assert(views(rest@) =~= Seq::<ReqV>::empty());
        assert(views(plan@).to_multiset() =~= views(orig).to_multiset());
        lemma_req_order_total();
        views(orig).lemma_sort_by_ensures(req_order());
        lemma_sorted_unique(views(plan@), views(orig).sort_by(req_order()), req_order());
    }
    plan
}

/// Permutation invariance: request lists that hold the same requests,
/// however ordered, have the identical canonical plan. This is the core
/// guarantee that makes independently authored call sites agree on one
/// acquisition order.
pub proof fn lemma_permutation_invariance(r: Seq<ReqV>, p: Seq<ReqV>)
    requires
        r.to_multiset() == p.to_multiset(),
    ensures
        ordered_plan(r) == ordered_plan(p),
{
    lemma_req_order_total();
    r.lemma_sort_by_ensures(req_order());
    p.lemma_sort_by_ensures(req_order());
    lemma_sorted_unique(r.sort_by(req_order()), p.sort_by(req_order()), req_order());
}

/// Total ordering within a plan: an entry at an earlier position comes
/// at or before a later one in the canonical order, and whenever the
/// two entries differ, the earlier is strictly before the later and
/// never the other way round — of A-before-B and B-before-A, exactly
/// one holds, decided by nothing but resource name and mode.
pub proof fn lemma_plan_positions(s: Seq<ReqV>, i: int, j: int)
    requires
        0 <= i < j < ordered_plan(s).len(),
    ensures
        req_le(ordered_plan(s)[i], ordered_plan(s)[j]),
        ordered_plan(s)[i] != ordered_plan(s)[j] ==> req_lt(ordered_plan(s)[i], ordered_plan(s)[j])
            && !req_lt(ordered_plan(s)[j], ordered_plan(s)[i]),
{
    lemma_plan_sorted(s);
    let plan = ordered_plan(s);
    assert(req_order()(plan[i], plan[j]));
    lemma_req_order_trichotomy(plan[i], plan[j]);
}

/// Every canonical plan is sorted by the canonical comparator and holds
/// exactly the requests it was computed from.
pub proof fn lemma_plan_sorted(s: Seq<ReqV>)
    ensures
        sorted_by(ordered_plan(s), req_order()),
        ordered_plan(s).to_multiset() == s.to_multiset(),
        ordered_plan(s).len() == s.len(),
{
    lemma_req_order_total();
    s.lemma_sort_by_ensures(req_order());
    assert(ordered_plan(s).to_multiset() =~= s.to_multiset());
    assert(s.len() == s.to_multiset().len());
    assert(ordered_plan(s).len() == ordered_plan(s).to_multiset().len());
}

} // verus!
