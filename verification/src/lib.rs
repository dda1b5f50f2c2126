//! Deterministic generator of deadlock-free resource-acquisition plans.
//!
//! Given a flat list of `(resource name, access mode)` requests, the
//! library parses them, sorts them by a fixed total order (resource name
//! lexicographically, then mode rank as a tie-break), and emits one
//! acquisition statement per request in that canonical order. Every call
//! site that acquires an overlapping set of resources through this
//! generator acquires them in the same relative order, which rules out
//! lock-ordering deadlocks.

use vstd::prelude::*;

pub mod emit;
pub mod mode;
pub mod order;
pub mod parse;
pub mod request;
pub mod text;
pub mod token;

use crate::emit::{emit, render_plan, spec_emit, stmt_texts, spec_plan_text, Statement};
use crate::order::{lemma_plan_sorted, order_requests, ordered_plan};
use crate::parse::{parse, spec_parse, Error};
use crate::request::{views, ReqV};
use crate::token::{token_views, Token, TokenV};

verus! {

/// What the whole pipeline yields for a token sequence: the output
/// text — the acquisition statements for the canonically ordered
/// requests, in that order — or the error that aborts it.
pub open spec fn spec_sorted_locks(toks: Seq<TokenV>) -> Result<Seq<char>, Error> {
    match spec_parse(toks) {
        Ok(reqs) => Ok(spec_plan_text(spec_emit(ordered_plan(reqs)))),
        Err(e) => Err(e),
    }
}

/// Run the whole pipeline: parse the tokens into requests, order the
/// requests canonically, and emit one acquisition statement per
/// request — parse → sort → emit, strictly forward, all or nothing.
///
/// On success, statement `i` names the resource and mode of entry `i`
/// of the canonical plan of the parsed requests, and carries exactly
/// that entry's statement text; an empty input yields an empty
/// statement sequence. On malformed input the exact error named by
/// `spec_parse` comes back and no statements are produced.
pub fn sorted_locks(tokens: &Vec<Token>) -> (r: Result<Vec<Statement>, Error>)
    ensures
        (match (r, spec_parse(token_views(tokens@))) {
            (Ok(stmts), Ok(reqs)) => {
                let plan = ordered_plan(reqs);
                &&& stmts@.len() == plan.len()
                &&& (forall|i: int|
                    0 <= i < plan.len() ==> (#[trigger] stmts@[i]).target@ == plan[i].name
                        && stmts@[i].mode == plan[i].mode)
                &&& stmt_texts(stmts@) == spec_emit(plan)
            },
            (Err(e1), Err(e2)) => e1 == e2,
            _ => false,
        }),
{
    let reqs = match parse(tokens) {
        Ok(v) => v,
        Err(e) => {
            return Err(e);
        },
    };
    let plan = order_requests(reqs);
    let stmts = emit(&plan);
    proof {
        assert forall|i: int| 0 <= i < stmts@.len() implies stmt_texts(stmts@)[i] == spec_emit(
            views(plan@),
        )[i] by {
            assert(stmts@[i].target@ == plan@[i].name@);
        }
        assert(stmt_texts(stmts@) =~= spec_emit(views(plan@)));
    }
    Ok(stmts)
}

/// Run the pipeline and render the output as one text: the statement
/// texts in canonical order, each on its own line.
pub fn sorted_locks_text(tokens: &Vec<Token>) -> (r: Result<String, Error>)
    ensures
        (match (r, spec_sorted_locks(token_views(tokens@))) {
            (Ok(s), Ok(t)) => s@ == t,
            (Err(e1), Err(e2)) => e1 == e2,
            _ => false,
        }),
{
    match sorted_locks(tokens) {
        Ok(stmts) => Ok(render_plan(&stmts)),
        Err(e) => Err(e),
    }
}

/// Idempotence: the pipeline's outcome — output text or error — is a
/// function of the token views alone, so re-running it over the same
/// input yields byte-identical output.
pub proof fn lemma_pipeline_idempotent(t1: Seq<TokenV>, t2: Seq<TokenV>)
    requires
        t1 == t2,
    ensures
        spec_sorted_locks(t1) == spec_sorted_locks(t2),
{
}

/// An empty input produces an empty statement sequence, not an error.
pub proof fn lemma_empty_input()
    ensures
        spec_sorted_locks(Seq::<TokenV>::empty()) == Ok::<Seq<char>, Error>(Seq::<char>::empty()),
{
    lemma_plan_sorted(Seq::<ReqV>::empty());
    assert(ordered_plan(Seq::<ReqV>::empty()) =~= Seq::<ReqV>::empty());
    assert(spec_emit(Seq::<ReqV>::empty()) =~= Seq::<Seq<char>>::empty());
}

} // verus!
