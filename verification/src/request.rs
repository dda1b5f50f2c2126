use vstd::prelude::*;
use vstd::relations::total_ordering;

use crate::mode::Mode;
use crate::text::{lex_lt, lemma_lex_lt_asymmetric, lemma_lex_lt_connected, lemma_lex_lt_transitive, str_lt};

verus! {

/// One acquisition request: a resource name and the mode under which the
/// resource is to be acquired. Resource names are opaque identifier
/// strings, compared lexicographically by codepoint.
#[derive(Debug)]
pub struct Request {
    pub name: String,
    pub mode: Mode,
}

/// The mathematical content of a request: the name's characters and the
/// mode. Contracts and the canonical order speak of requests through
/// this view.
#[verifier::ext_equal]
pub struct ReqV {
    pub name: Seq<char>,
    pub mode: Mode,
}

impl View for Request {
    type V = ReqV;

    open spec fn view(&self) -> ReqV {
        ReqV { name: self.name@, mode: self.mode }
    }
}

/// The views of a whole request list.
pub open spec fn views(s: Seq<Request>) -> Seq<ReqV> {
    s.map_values(|r: Request| r@)
}

/// The canonical comparator, non-strict: names lexicographically
/// ascending; on equal names, mode rank ascending.
pub open spec fn req_le(a: ReqV, b: ReqV) -> bool {
    lex_lt(a.name, b.name) || (a.name == b.name && a.mode.rank() <= b.mode.rank())
}

/// The canonical comparator, strict.
pub open spec fn req_lt(a: ReqV, b: ReqV) -> bool {
    lex_lt(a.name, b.name) || (a.name == b.name && a.mode.rank() < b.mode.rank())
}

/// The canonical comparator as a relation value, for use with `sort_by`
/// and `sorted_by`.
pub open spec fn req_order() -> spec_fn(ReqV, ReqV) -> bool {
    |a: ReqV, b: ReqV| req_le(a, b)
}

/// The canonical comparator is a total ordering: reflexive,
/// antisymmetric, transitive and strongly connected.
pub proof fn lemma_req_order_total()
    ensures
        total_ordering(req_order()),
{
    let r = req_order();
    assert forall|a: ReqV, b: ReqV| #[trigger] r(a, b) && #[trigger] r(b, a) implies a == b by {
        lemma_lex_lt_asymmetric(a.name, b.name);
        lemma_lex_lt_asymmetric(a.name, a.name);
        Mode::lemma_rank_injective(a.mode, b.mode);
        assert(a =~= b);
    }
    assert forall|a: ReqV, b: ReqV, c: ReqV| #[trigger] r(a, b) && #[trigger] r(b, c) implies r(
        a,
        c,
    ) by {
        lemma_lex_lt_transitive(a.name, b.name, c.name);
    }
    assert forall|a: ReqV, b: ReqV| #[trigger] r(a, b) || #[trigger] r(b, a) by {
        lemma_lex_lt_connected(a.name, b.name);
    }
}

/// Total-ordering law for requests: two distinct requests are ordered in
/// exactly one direction, and strict order is exactly non-strict order
/// between unequal requests. The order depends on nothing but the
/// resource name and the mode.
pub proof fn lemma_req_order_trichotomy(a: ReqV, b: ReqV)
    ensures
        a != b ==> (req_lt(a, b) || req_lt(b, a)),
        !(req_lt(a, b) && req_lt(b, a)),
        req_lt(a, b) <==> (req_le(a, b) && a != b),
{
    lemma_lex_lt_asymmetric(a.name, b.name);
    lemma_lex_lt_asymmetric(a.name, a.name);
    lemma_lex_lt_connected(a.name, b.name);
    Mode::lemma_rank_injective(a.mode, b.mode);
    if a.name == b.name && a.mode.rank() == b.mode.rank() {
        assert(a =~= b);
    }
}

/// Whether `a` comes at or before `b` in the canonical order.
pub fn le(a: &Request, b: &Request) -> (r: bool)
    ensures
        r == req_le(a@, b@),
{
    if str_lt(a.name.as_str(), b.name.as_str()) {
        true
    } else if str_lt(b.name.as_str(), a.name.as_str()) {
        false
    } else {
        proof {
            lemma_lex_lt_connected(a.name@, b.name@);
        }
        a.mode.rank_val() <= b.mode.rank_val()
    }
}

} // verus!
