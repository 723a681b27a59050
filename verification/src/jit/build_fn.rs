//! Lowering of a predicate tree into a control-flow graph of basic blocks.
//!
//! The synthesised filter function is modelled as a sequence of blocks.
//! Block 0 is the entry, block 1 returns false, block 2 returns true; every
//! other block evaluates one leaf comparison and branches.  Lowering is a
//! recursive descent parameterised by the two target blocks `(on_false,
//! on_true)`, exactly mirroring short-circuit evaluation: `And` fails fast,
//! `Or` succeeds fast.  [`lemma_plan_runs`] proves that stepping through the
//! lowered graph returns precisely what the reference interpreter computes,
//! after exactly as many branches as the interpreter evaluates leaves.

use vstd::prelude::*;

use crate::records::{User, UserView};
use crate::{
    inner_count, leaf_matches, leaves_evaluated, tree_matches, Filter, FilterView,
    JoinFilters, JoinFiltersView,
};

verus! {

/// One basic block of a synthesised filter function.
#[derive(Debug)]
pub enum Block {
    /// Return the constant.
    Ret(bool),
    /// Evaluate one leaf comparison, whose literal was emitted as global
    /// number `lit`, and branch on the outcome.
    Branch { leaf: Filter, lit: usize, on_true: usize, on_false: usize },
}

/// Mathematical image of a block, with unbounded indices.
pub enum BlockView {
    Ret(bool),
    Branch { leaf: FilterView, lit: int, on_true: int, on_false: int },
}

impl DeepView for Block {
    type V = BlockView;

    open spec fn deep_view(&self) -> BlockView {
        match self {
            Block::Ret(b) => BlockView::Ret(*b),
            Block::Branch { leaf, lit, on_true, on_false } => BlockView::Branch {
                leaf: leaf.deep_view(),
                lit: *lit as int,
                on_true: *on_true as int,
                on_false: *on_false as int,
            },
        }
    }
}

/// The state one lowering step threads: the blocks built so far and the
/// string literals emitted so far, in emission order.
pub struct BuildStateView {
    pub blocks: Seq<BlockView>,
    pub lits: Seq<Seq<char>>,
}

/// The literals of the tree's leaves, left to right.
pub open spec fn leaf_literals(t: JoinFiltersView) -> Seq<Seq<char>>
    decreases t,
{
    match t {
        JoinFiltersView::Filter(f) => seq![f.value],
        JoinFiltersView::And(l, r) => leaf_literals(*l) + leaf_literals(*r),
        JoinFiltersView::Or(l, r) => leaf_literals(*l) + leaf_literals(*r),
    }
}

/// Lower `t` into the block at `cur`, branching to `on_false` / `on_true`.
///
/// A leaf fills `cur` with a branch and emits its literal.  `And` and `Or`
/// allocate a fresh middle block, lower the left child into `cur` and the
/// right child into the middle block, wired so that evaluation continues at
/// the middle block exactly when the right child decides the outcome.
pub open spec fn build_step(
    t: JoinFiltersView,
    cur: int,
    on_false: int,
    on_true: int,
    st: BuildStateView,
) -> BuildStateView
    decreases t,
{
    match t {
        JoinFiltersView::Filter(f) => BuildStateView {
            blocks: st.blocks.update(
                cur,
                BlockView::Branch { leaf: f, lit: st.lits.len() as int, on_true, on_false },
            ),
            lits: st.lits.push(f.value),
        },
        JoinFiltersView::And(l, r) => {
            let mid = st.blocks.len() as int;
            let st1 = BuildStateView {
                blocks: st.blocks.push(BlockView::Ret(false)),
                lits: st.lits,
            };
            let st2 = build_step(*l, cur, on_false, mid, st1);
            build_step(*r, mid, on_false, on_true, st2)
        },
        JoinFiltersView::Or(l, r) => {
            let mid = st.blocks.len() as int;
            let st1 = BuildStateView {
                blocks: st.blocks.push(BlockView::Ret(false)),
                lits: st.lits,
            };
            let st2 = build_step(*l, cur, mid, on_true, st1);
            build_step(*r, mid, on_false, on_true, st2)
        },
    }
}

/// Step through the blocks from `blk`, spending one unit of fuel per branch.
/// `None` means the fuel ran out or an index left the graph.
pub open spec fn run_blocks(blocks: Seq<BlockView>, u: UserView, blk: int, fuel: nat) -> Option<
    bool,
>
    decreases fuel,
{
    if fuel == 0 {
        None
    } else if !(0 <= blk < blocks.len()) {
        None
    } else {
        match blocks[blk] {
            BlockView::Ret(b) => Some(b),
            BlockView::Branch { leaf, lit, on_true, on_false } => run_blocks(
                blocks,
                u,
                if leaf_matches(leaf, u) {
                    on_true
                } else {
                    on_false
                },
                (fuel - 1) as nat,
            ),
        }
    }
}

/// How one lowering step may change the state: the middle blocks it appends
/// and the block at `cur` are written; everything else is left alone, and
/// the leaf literals of `t` are appended to the emitted literals.
pub open spec fn build_frame_ok(
    st: BuildStateView,
    st2: BuildStateView,
    cur: int,
    t: JoinFiltersView,
) -> bool {
    &&& st2.blocks.len() == st.blocks.len() + inner_count(t)
    &&& st2.lits == st.lits + leaf_literals(t)
    &&& forall|i: int|
        0 <= i < st.blocks.len() && i != cur ==> st2.blocks[i] == st.blocks[i]
}

/// One lowering step only writes `cur` and the blocks it appends, and emits
/// exactly the literals of `t`'s leaves, in order.
pub proof fn lemma_build_step_frame(
    t: JoinFiltersView,
    cur: int,
    on_false: int,
    on_true: int,
    st: BuildStateView,
)
    requires
        0 <= cur < st.blocks.len(),
    ensures
        build_frame_ok(st, build_step(t, cur, on_false, on_true, st), cur, t),
    decreases t,
{
    match t {
        JoinFiltersView::Filter(f) => {
            assert(st.lits.push(f.value) =~= st.lits + leaf_literals(t));
        },
        JoinFiltersView::And(l, r) => {
            let mid = st.blocks.len() as int;
            let st1 = BuildStateView {
                blocks: st.blocks.push(BlockView::Ret(false)),
                lits: st.lits,
            };
            let st2 = build_step(*l, cur, on_false, mid, st1);
            lemma_build_step_frame(*l, cur, on_false, mid, st1);
            lemma_build_step_frame(*r, mid, on_false, on_true, st2);
            assert(build_step(*r, mid, on_false, on_true, st2).lits =~= st.lits + leaf_literals(
                t,
            ));
        },
        JoinFiltersView::Or(l, r) => {
            let mid = st.blocks.len() as int;
            let st1 = BuildStateView {
                blocks: st.blocks.push(BlockView::Ret(false)),
                lits: st.lits,
            };
            let st2 = build_step(*l, cur, mid, on_true, st1);
            lemma_build_step_frame(*l, cur, mid, on_true, st1);
            lemma_build_step_frame(*r, mid, on_false, on_true, st2);
            assert(build_step(*r, mid, on_false, on_true, st2).lits =~= st.lits + leaf_literals(
                t,
            ));
        },
    }
}

/// `fin` agrees with the result `built` of a lowering step on the region the
/// step owns: the block at `cur` and every block the step appended.
pub open spec fn region_agrees(
    st: BuildStateView,
    built: BuildStateView,
    fin: Seq<BlockView>,
    cur: int,
) -> bool {
    &&& fin.len() >= built.blocks.len()
    &&& 0 <= cur < built.blocks.len() && fin[cur] == built.blocks[cur]
    &&& forall|i: int|
        st.blocks.len() <= i < built.blocks.len() ==> fin[i] == built.blocks[i]
}

/// Correctness of one lowering step.  In any final graph `fin` that keeps the
/// blocks this step wrote, running from `cur` spends exactly the fuel of a
/// short-circuit evaluation of `t` and then continues at `on_true` or
/// `on_false` according to whether `t` matches the record.
pub proof fn lemma_build_step_runs(
    t: JoinFiltersView,
    cur: int,
    on_false: int,
    on_true: int,
    st: BuildStateView,
    fin: Seq<BlockView>,
    u: UserView,
    fuel: nat,
)
    requires
        0 <= cur < st.blocks.len(),
        0 <= on_false < st.blocks.len() && on_false != cur,
        0 <= on_true < st.blocks.len() && on_true != cur,
        region_agrees(st, build_step(t, cur, on_false, on_true, st), fin, cur),
    ensures
        run_blocks(fin, u, cur, fuel + leaves_evaluated(t, u)) == run_blocks(
            fin,
            u,
            if tree_matches(t, u) {
                on_true
            } else {
                on_false
            },
            fuel,
        ),
    decreases t,
{
    let built = build_step(t, cur, on_false, on_true, st);
    match t {
        JoinFiltersView::Filter(f) => {
            assert(fin[cur] == BlockView::Branch {
                leaf: f,
                lit: st.lits.len() as int,
                on_true,
                on_false,
            });
        },
        JoinFiltersView::And(l, r) => {
            let mid = st.blocks.len() as int;
            let st1 = BuildStateView {
                blocks: st.blocks.push(BlockView::Ret(false)),
                lits: st.lits,
            };
            let built1 = build_step(*l, cur, on_false, mid, st1);
            lemma_build_step_frame(*l, cur, on_false, mid, st1);
            lemma_build_step_frame(*r, mid, on_false, on_true, built1);
            assert(region_agrees(st1, built1, fin, cur));
            if !tree_matches(*l, u) {
                lemma_build_step_runs(*l, cur, on_false, mid, st1, fin, u, fuel);
            } else {
                lemma_build_step_runs(
                    *l,
                    cur,
                    on_false,
                    mid,
                    st1,
                    fin,
                    u,
                    fuel + leaves_evaluated(*r, u),
                );
                assert(region_agrees(built1, built, fin, mid));
                lemma_build_step_runs(*r, mid, on_false, on_true, built1, fin, u, fuel);
            }
        },
        JoinFiltersView::Or(l, r) => {
            let mid = st.blocks.len() as int;
            let st1 = BuildStateView {
                blocks: st.blocks.push(BlockView::Ret(false)),
                lits: st.lits,
            };
            let built1 = build_step(*l, cur, mid, on_true, st1);
            lemma_build_step_frame(*l, cur, mid, on_true, st1);
            lemma_build_step_frame(*r, mid, on_false, on_true, built1);
            assert(region_agrees(st1, built1, fin, cur));
            if tree_matches(*l, u) {
                lemma_build_step_runs(*l, cur, mid, on_true, st1, fin, u, fuel);
            } else {
                lemma_build_step_runs(
                    *l,
                    cur,
                    mid,
                    on_true,
                    st1,
                    fin,
                    u,
                    fuel + leaves_evaluated(*r, u),
                );
                assert(region_agrees(built1, built, fin, mid));
                lemma_build_step_runs(*r, mid, on_false, on_true, built1, fin, u, fuel);
            }
        },
    }
}

/// The three fixed blocks every plan starts from: the entry placeholder,
/// the fail block and the success block.
pub open spec fn initial_blocks() -> Seq<BlockView> {
    seq![BlockView::Ret(false), BlockView::Ret(false), BlockView::Ret(true)]
}

/// The state lowering starts from: the fixed blocks, no literals yet.
pub open spec fn initial_state() -> BuildStateView {
    BuildStateView { blocks: initial_blocks(), lits: Seq::empty() }
}

/// The whole plan of a tree: lower it into the entry block, with the fail
/// block and the success block as targets.
pub open spec fn plan_of(t: JoinFiltersView) -> BuildStateView {
    build_step(t, 0, 1, 2, initial_state())
}

/// Running a tree's plan from the entry returns exactly what the interpreter
/// decides, after one branch per leaf a short-circuit evaluation inspects.
pub proof fn lemma_plan_runs(t: JoinFiltersView, u: UserView)
    ensures
        run_blocks(plan_of(t).blocks, u, 0, leaves_evaluated(t, u) + 1) == Some(
            tree_matches(t, u),
        ),
{
    let built = plan_of(t);
    lemma_build_step_frame(t, 0, 1, 2, initial_state());
    assert(built.blocks[1] == BlockView::Ret(false));
    assert(built.blocks[2] == BlockView::Ret(true));
    lemma_build_step_runs(t, 0, 1, 2, initial_state(), built.blocks, u, 1);
}

/// Every branch block names a literal that was emitted, and the literal is
/// the branch's own: the emitted globals feed exactly the leaves that use them.
pub open spec fn blocks_lits_consistent(blocks: Seq<BlockView>, lits: Seq<Seq<char>>) -> bool {
    forall|i: int|
        0 <= i < blocks.len() ==> (#[trigger] blocks[i] matches BlockView::Branch {
            leaf,
            lit,
            ..
        } ==> 0 <= lit < lits.len() && lits[lit] == leaf.value)
}

/// Lowering keeps the blocks consistent with the emitted literals.
pub proof fn lemma_build_step_consistent(
    t: JoinFiltersView,
    cur: int,
    on_false: int,
    on_true: int,
    st: BuildStateView,
)
    requires
        0 <= cur < st.blocks.len(),
        blocks_lits_consistent(st.blocks, st.lits),
    ensures
        blocks_lits_consistent(
            build_step(t, cur, on_false, on_true, st).blocks,
            build_step(t, cur, on_false, on_true, st).lits,
        ),
    decreases t,
{
    match t {
        JoinFiltersView::Filter(_) => {},
        JoinFiltersView::And(l, r) => {
            let mid = st.blocks.len() as int;
            let st1 = BuildStateView {
                blocks: st.blocks.push(BlockView::Ret(false)),
                lits: st.lits,
            };
            let st2 = build_step(*l, cur, on_false, mid, st1);
            lemma_build_step_consistent(*l, cur, on_false, mid, st1);
            lemma_build_step_frame(*l, cur, on_false, mid, st1);
            lemma_build_step_consistent(*r, mid, on_false, on_true, st2);
        },
        JoinFiltersView::Or(l, r) => {
            let mid = st.blocks.len() as int;
            let st1 = BuildStateView {
                blocks: st.blocks.push(BlockView::Ret(false)),
                lits: st.lits,
            };
            let st2 = build_step(*l, cur, mid, on_true, st1);
            lemma_build_step_consistent(*l, cur, mid, on_true, st1);
            lemma_build_step_frame(*l, cur, mid, on_true, st1);
            lemma_build_step_consistent(*r, mid, on_false, on_true, st2);
        },
    }
}

/// The shape of a whole plan: the three fixed blocks plus one middle block
/// per inner node, and exactly the tree's leaf literals, in emission order.
pub proof fn lemma_plan_shape(t: JoinFiltersView)
    ensures
        plan_of(t).blocks.len() == 3 + inner_count(t),
        plan_of(t).lits == leaf_literals(t),
{
    lemma_build_step_frame(t, 0, 1, 2, initial_state());
    assert(Seq::<Seq<char>>::empty() + leaf_literals(t) =~= leaf_literals(t));
}

/// In a whole plan, every branch block names the literal of its own leaf:
/// the emitted string globals feed exactly the comparisons that use them.
pub proof fn lemma_plan_lits_consistent(t: JoinFiltersView)
    ensures
        blocks_lits_consistent(plan_of(t).blocks, plan_of(t).lits),
{
    lemma_build_step_consistent(t, 0, 1, 2, initial_state());
}

/// A lowered filter function: its blocks, the string literals it emitted in
/// emission order, and (ghost) the tree it was lowered from.
pub struct FilterPlan {
    pub blocks: Vec<Block>,
    pub literals: Vec<String>,
    pub tree: Ghost<JoinFiltersView>,
}

impl FilterPlan {
    /// The plan is exactly the lowering of its tree.
    pub open spec fn wf(&self) -> bool {
        &&& self.blocks.deep_view() == plan_of(self.tree@).blocks
        &&& self.literals.deep_view() == plan_of(self.tree@).lits
    }

    /// The tree this plan was lowered from.
    pub open spec fn tree(&self) -> JoinFiltersView {
        self.tree@
    }
}

/// Lower one subtree into block `cur` of a partially built plan.
fn build_join_filter(
    filter: &JoinFilters,
    cur: usize,
    on_false: usize,
    on_true: usize,
    blocks: &mut Vec<Block>,
    literals: &mut Vec<String>,
)
    requires
        cur < old(blocks)@.len(),
    ensures
        ({
            let built = build_step(
                filter.deep_view(),
                cur as int,
                on_false as int,
                on_true as int,
                BuildStateView {
                    blocks: old(blocks).deep_view(),
                    lits: old(literals).deep_view(),
                },
            );
            final(blocks).deep_view() == built.blocks && final(literals).deep_view() == built.lits
        }),
    decreases filter,
{
    match filter {
        JoinFilters::Filter(f) => {
            let lit = literals.len();
            let leaf = f.clone();
            blocks[cur] = Block::Branch { leaf, lit, on_true, on_false };
            literals.push(f.value.clone());
            proof {
                let built = build_step(
                    filter.deep_view(),
                    cur as int,
                    on_false as int,
                    on_true as int,
                    BuildStateView {
                        blocks: old(blocks).deep_view(),
                        lits: old(literals).deep_view(),
                    },
                );
                assert(blocks.deep_view() =~= built.blocks);
                assert(literals.deep_view() =~= built.lits);
            }
        },
        JoinFilters::And(l, r) => {
            let ghost st = BuildStateView {
                blocks: old(blocks).deep_view(),
                lits: old(literals).deep_view(),
            };
            let mid = blocks.len();
            blocks.push(Block::Ret(false));
            proof {
                assert(blocks.deep_view() =~= st.blocks.push(BlockView::Ret(false)));
            }
            let ghost st1 = BuildStateView {
                blocks: blocks.deep_view(),
                lits: literals.deep_view(),
            };
            build_join_filter(l, cur, on_false, mid, blocks, literals);
            proof {
                lemma_build_step_frame(
                    l.deep_view(),
                    cur as int,
                    on_false as int,
                    mid as int,
                    st1,
                );
            }
            build_join_filter(r, mid, on_false, on_true, blocks, literals);
        },
        JoinFilters::Or(l, r) => {
            let ghost st = BuildStateView {
                blocks: old(blocks).deep_view(),
                lits: old(literals).deep_view(),
            };
            let mid = blocks.len();
            blocks.push(Block::Ret(false));
            proof {
                assert(blocks.deep_view() =~= st.blocks.push(BlockView::Ret(false)));
            }
            let ghost st1 = BuildStateView {
                blocks: blocks.deep_view(),
                lits: literals.deep_view(),
            };
            build_join_filter(l, cur, mid, on_true, blocks, literals);
            proof {
                lemma_build_step_frame(l.deep_view(), cur as int, mid as int, on_true as int, st1);
            }
            build_join_filter(r, mid, on_false, on_true, blocks, literals);
        },
    }
}

/// Lower a whole predicate tree into a fresh filter plan.
pub fn build_filter_fn(filters: &JoinFilters) -> (plan: FilterPlan)
    ensures
        plan.wf(),
        plan.tree() == filters.deep_view(),
{
    let mut blocks: Vec<Block> = Vec::new();
    blocks.push(Block::Ret(false));  // entry, lowered into below
    blocks.push(Block::Ret(false));  // fail
    blocks.push(Block::Ret(true));  // success
    let mut literals: Vec<String> = Vec::new();
    proof {
        assert(blocks.deep_view() =~= initial_blocks());
        assert(literals.deep_view() =~= Seq::<Seq<char>>::empty());
    }
    build_join_filter(filters, 0, 1, 2, &mut blocks, &mut literals);
    FilterPlan { blocks, literals, tree: Ghost(filters.deep_view()) }
}

/// Step through a lowered plan for one record.  Terminates because the run
/// lemma bounds the branches by the leaves a short-circuit evaluation visits.
pub fn run_plan(plan: &FilterPlan, user: &User) -> (r: bool)
    requires
        plan.wf(),
    ensures
        r == tree_matches(plan.tree(), user.deep_view()),
{
    let ghost t = plan.tree@;
    let ghost uv = user.deep_view();
    let ghost expected = tree_matches(t, uv);
    proof {
        lemma_plan_runs(t, uv);
    }
    let mut blk: usize = 0;
    let ghost mut fuel: nat = leaves_evaluated(t, uv) + 1;
    loop
        invariant
            plan.wf(),
            t == plan.tree@,
            uv == user.deep_view(),
            expected == tree_matches(t, uv),
            run_blocks(plan.blocks.deep_view(), uv, blk as int, fuel) == Some(expected),
            blk < plan.blocks@.len(),
        decreases fuel,
    {
        match &plan.blocks[blk] {
            Block::Ret(v) => {
                return *v;
            },
            Block::Branch { leaf, lit: _, on_true, on_false } => {
                let cond = crate::interpreted::run_filter(user, leaf);
                let next = if cond {
                    *on_true
                } else {
                    *on_false
                };
                proof {
                    assert(plan.blocks.deep_view()[blk as int] == plan.blocks@[blk as int].deep_view());
                    fuel = (fuel - 1) as nat;
                }
                blk = next;
            },
        }
    }
}

} // verus!
