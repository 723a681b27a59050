//! The runtime pipeline: lower a predicate tree, then run the lowered plan.

use vstd::prelude::*;

pub mod build_fn;
pub mod exec_engine;

use crate::records::{User, UserView};
use crate::{leaves_evaluated, matching_subsequence, tree_matches, JoinFilters, JoinFiltersView};
use crate::interpreted::lemma_filter_push;
use self::build_fn::{
    build_filter_fn, lemma_plan_runs, plan_of, run_blocks, run_plan, FilterPlan,
};

verus! {

/// A callable specialised filter: the lowered plan, ready to run over records.
pub struct CallableJitFn {
    pub plan: FilterPlan,
}

impl CallableJitFn {
    /// The plan is exactly the lowering of its tree.
    pub open spec fn wf(&self) -> bool {
        self.plan.wf()
    }

    /// The tree this callable decides.
    pub open spec fn tree(&self) -> JoinFiltersView {
        self.plan.tree()
    }

    /// Run the specialised filter over a record slice: keep exactly the
    /// records the tree matches, in input order.  This is the same
    /// subsequence the reference interpreter computes.
    pub fn execute(&self, vec: &[User]) -> (out: Vec<User>)
        requires
            self.wf(),
        ensures
            out.deep_view() == matching_subsequence(self.tree(), vec.deep_view()),
    {
        let ghost pred = |u: UserView| tree_matches(self.tree(), u);
        let mut out: Vec<User> = Vec::new();
        proof {
            reveal(Seq::filter);
            assert(vec.deep_view().take(0) =~= Seq::<UserView>::empty());
            assert(out.deep_view() =~= vec.deep_view().take(0).filter(pred));
        }
        let n = vec.len();
        for i in 0..n
            invariant
                n == vec@.len(),
                self.wf(),
                out.deep_view() == vec.deep_view().take(i as int).filter(pred),
                pred == (|u: UserView| tree_matches(self.tree(), u)),
        {
            let keep = run_plan(&self.plan, &vec[i]);
            proof {
                assert(vec.deep_view().take(i + 1) =~= vec.deep_view().take(i as int).push(
                    vec@[i as int].deep_view(),
                ));
                lemma_filter_push(vec.deep_view().take(i as int), pred, vec@[i as int].deep_view());
            }
            if keep {
                let u = vec[i].clone();
                out.push(u);
                proof {
                    assert(out.deep_view() =~= vec.deep_view().take(i + 1).filter(pred));
                }
            }
        }
        proof {
            assert(vec.deep_view().take(n as int) =~= vec.deep_view());
        }
        out
    }
}

/// Lower a predicate tree into a callable specialised filter.
pub fn build_module(filters: &JoinFilters) -> (f: CallableJitFn)
    ensures
        f.wf(),
        f.tree() == filters.deep_view(),
{
    CallableJitFn { plan: build_filter_fn(filters) }
}

/// Equivalence with the interpreter: a result of
/// [`CallableJitFn::execute`] and a result of
/// [`crate::interpreted::filter_vec_with_filters`] for the same tree over
/// the same records are the same subsequence, element for element and in
/// order — both contracts pin the output to [`matching_subsequence`].
/// At the semantic level, [`build_fn::lemma_plan_runs`] proves that the
/// lowered control-flow graph decides each record exactly as the
/// interpreter does.
pub proof fn lemma_jit_interpreter_equivalent(
    t: JoinFiltersView,
    input: Seq<UserView>,
    jit_out: Seq<UserView>,
    interpreted_out: Seq<UserView>,
)
    requires
        jit_out == matching_subsequence(t, input),
        interpreted_out == matching_subsequence(t, input),
    ensures
        jit_out == interpreted_out,
{
}

/// Running a specialised filter is deterministic: two results of running
/// the same tree over the same records are the same subsequence.
pub proof fn lemma_execute_deterministic(
    t: JoinFiltersView,
    input: Seq<UserView>,
    out1: Seq<UserView>,
    out2: Seq<UserView>,
)
    requires
        out1 == matching_subsequence(t, input),
        out2 == matching_subsequence(t, input),
    ensures
        out1 == out2,
{
}

/// Short-circuit at the plan level: when the left arm of an `And` rejects a
/// record, the lowered graph reaches the fail block after the left arm's
/// leaf branches alone, whatever stands on the right.
pub proof fn lemma_plan_and_short_circuit(
    l: JoinFiltersView,
    r: JoinFiltersView,
    u: UserView,
)
    requires
        !tree_matches(l, u),
    ensures
        run_blocks(
            plan_of(JoinFiltersView::And(Box::new(l), Box::new(r))).blocks,
            u,
            0,
            leaves_evaluated(l, u) + 1,
        ) == Some(false),
{
    let t = JoinFiltersView::And(Box::new(l), Box::new(r));
    lemma_plan_runs(t, u);
}

} // verus!
