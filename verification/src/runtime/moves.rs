//! The moves of all plans together: how many are under way, and what weight is on its way where.
use vstd::prelude::*;

use crate::keymap::{seq_view, Key};
use crate::plan::{is_active, MoveModel, MoveProgress, PlanModel, RebalancePlan};
use crate::sorted::{ranked, SortedMap};
use crate::types::{NodeKey, NodeModel};

verus! {

/// A move together with the plan that it is of.
#[derive(Debug)]
pub struct PlannedMove<S = String> {
    pub domain: S,
    pub entity_type: S,
    pub source: NodeKey<S>,
    pub target: NodeKey<S>,
    pub weight: u64,
    pub progress: MoveProgress,
}

pub type PlannedMoveModel = PlannedMove<Seq<char>>;

impl View for PlannedMove {
    type V = PlannedMoveModel;

    open spec fn view(&self) -> PlannedMoveModel {
        PlannedMove {
            domain: self.domain@,
            entity_type: self.entity_type@,
            source: self.source@,
            target: self.target@,
            weight: self.weight,
            progress: self.progress,
        }
    }
}

/// A move of a plan.
pub open spec fn planned_move(plan: PlanModel, movement: MoveModel) -> PlannedMoveModel {
    PlannedMove {
        domain: plan.domain,
        entity_type: plan.entity_type,
        source: movement.source,
        target: movement.target,
        weight: movement.estimated_weight,
        progress: movement.progress,
    }
}

/// The moves of a plan.
pub open spec fn moves_of(plan: PlanModel) -> Seq<PlannedMoveModel> {
    plan.moves.map_values(|movement: MoveModel| planned_move(plan, movement))
}

/// The moves of the first `n` of some plans.
pub open spec fn moves_of_first(plans: Map<u128, PlanModel>, ids: Seq<u128>, n: int) -> Seq<
    PlannedMoveModel,
>
    decreases n,
{
    if n <= 0 {
        Seq::empty()
    } else {
        moves_of_first(plans, ids, n - 1) + moves_of(plans[ids[n - 1]])
    }
}

/// The moves of all plans, in the order of the plans.
pub open spec fn all_moves(plans: Map<u128, PlanModel>) -> Seq<PlannedMoveModel> {
    let ids = ranked::<u128>(plans.dom());
    moves_of_first(plans, ids, ids.len() as int)
}

pub fn list_moves(plans: &SortedMap<u128, RebalancePlan>) -> (moves: Vec<PlannedMove>)
    ensures
        seq_view(moves@) == all_moves(plans@),
{
    let len = plans.len();
    let ghost ids = ranked::<u128>(plans@.dom());
    let mut moves: Vec<PlannedMove> = Vec::new();
    let mut i: usize = 0;
    assert(seq_view(moves@) =~= moves_of_first(plans@, ids, 0));
    while i < len
        invariant
            i <= len,
            len == ids.len(),
            ids == ranked::<u128>(plans@.dom()),
            seq_view(moves@) == moves_of_first(plans@, ids, i as int),
        decreases len - i,
    {
        let (_, plan) = plans.entry_at(i);
        let ghost before = seq_view(moves@);
        let mut j: usize = 0;
        assert(before =~= before + moves_of(plan@).subrange(0, 0));
        while j < plan.moves.len()
            invariant
                j <= plan.moves.len(),
                seq_view(moves@) == before + moves_of(plan@).subrange(0, j as int),
            decreases plan.moves.len() - j,
        {
            let movement = &plan.moves[j];
            let ghost earlier = seq_view(moves@);
            moves.push(
                PlannedMove {
                    domain: plan.domain.copy(),
                    entity_type: plan.entity_type.copy(),
                    source: movement.source.copy(),
                    target: movement.target.copy(),
                    weight: movement.estimated_weight,
                    progress: movement.progress,
                },
            );
            proof {
                assert(plan@.moves[j as int] == movement@);
                assert(seq_view(moves@) =~= earlier.push(planned_move(plan@, movement@)));
                assert(moves_of(plan@).subrange(0, j + 1) =~= moves_of(plan@).subrange(
                    0,
                    j as int,
                ).push(planned_move(plan@, movement@)));
                assert(seq_view(moves@) =~= before + moves_of(plan@).subrange(0, j + 1));
            }
            j = j + 1;
        }
        assert(moves_of(plan@).subrange(0, j as int) =~= moves_of(plan@));
        i = i + 1;
    }
    moves
}

/// What the moves are counted by.
pub enum MoveFilter<S = String> {
    Any,
    OfEntity(S),
    FromSource(NodeKey<S>),
    ToTarget(NodeKey<S>),
}

/// Whether a move passes a filter.
pub open spec fn passes(movement: PlannedMoveModel, filter: MoveFilter<Seq<char>>) -> bool {
    match filter {
        MoveFilter::Any => true,
        MoveFilter::OfEntity(entity_type) => movement.entity_type == entity_type,
        MoveFilter::FromSource(source) => movement.source == source,
        MoveFilter::ToTarget(target) => movement.target == target,
    }
}

/// How many moves that pass a filter are in handoff.
pub open spec fn handoffs_passing(
    moves: Seq<PlannedMoveModel>,
    filter: MoveFilter<Seq<char>>,
) -> nat
    decreases moves.len(),
{
    if moves.len() == 0 {
        0
    } else {
        handoffs_passing(moves.drop_last(), filter) + if moves.last().progress
            == MoveProgress::Handoff && passes(moves.last(), filter) {
            1nat
        } else {
            0nat
        }
    }
}

proof fn lemma_handoffs_bounded(moves: Seq<PlannedMoveModel>, filter: MoveFilter<Seq<char>>)
    ensures
        handoffs_passing(moves, filter) <= moves.len(),
    decreases moves.len(),
{
    if moves.len() > 0 {
        lemma_handoffs_bounded(moves.drop_last(), filter);
    }
}

impl View for MoveFilter {
    type V = MoveFilter<Seq<char>>;

    open spec fn view(&self) -> MoveFilter<Seq<char>> {
        match self {
            MoveFilter::Any => MoveFilter::Any,
            MoveFilter::OfEntity(entity_type) => MoveFilter::OfEntity(entity_type@),
            MoveFilter::FromSource(source) => MoveFilter::FromSource(source@),
            MoveFilter::ToTarget(target) => MoveFilter::ToTarget(target@),
        }
    }
}

pub fn count_handoffs(moves: &Vec<PlannedMove>, filter: &MoveFilter) -> (count: usize)
    ensures
        count == handoffs_passing(seq_view(moves@), filter@),
{
    let ghost all = seq_view(moves@);
    let mut count: usize = 0;
    let mut i: usize = 0;
    while i < moves.len()
        invariant
            i <= moves.len(),
            all == seq_view(moves@),
            count <= i,
            count == handoffs_passing(all.subrange(0, i as int), filter@),
        decreases moves.len() - i,
    {
        let movement = &moves[i];
        proof {
            let longer = all.subrange(0, i + 1);
            assert(longer.drop_last() =~= all.subrange(0, i as int));
            assert(longer.last() == movement@);
        }
        let passing = match filter {
            MoveFilter::Any => true,
            MoveFilter::OfEntity(entity_type) => movement.entity_type.same(entity_type),
            MoveFilter::FromSource(source) => movement.source.same(source),
            MoveFilter::ToTarget(target) => movement.target.same(target),
        };
        if movement.progress == MoveProgress::Handoff && passing {
            count = count + 1;
        }
        i = i + 1;
    }
    assert(all.subrange(0, i as int) =~= all);
    count
}

/// The weight that is on its way to a node.
pub open spec fn weight_toward(moves: Seq<PlannedMoveModel>, node: NodeModel) -> nat
    decreases moves.len(),
{
    if moves.len() == 0 {
        0
    } else {
        weight_toward(moves.drop_last(), node) + if is_active(moves.last().progress)
            && moves.last().target == node {
            moves.last().weight as nat
        } else {
            0
        }
    }
}

proof fn lemma_prefix_weight(moves: Seq<PlannedMoveModel>, node: NodeModel, n: int)
    requires
        0 <= n <= moves.len(),
    ensures
        weight_toward(moves.subrange(0, n), node) <= weight_toward(moves, node),
    decreases moves.len(),
{
    if n < moves.len() {
        lemma_prefix_weight(moves.drop_last(), node, n);
        assert(moves.drop_last().subrange(0, n) =~= moves.subrange(0, n));
    } else {
        assert(moves.subrange(0, n) =~= moves);
    }
}

/// Whether the weight on its way to each node can be counted.
pub open spec fn weights_fit(moves: Seq<PlannedMoveModel>) -> bool {
    forall|node: NodeModel| #[trigger] weight_toward(moves, node) <= u64::MAX
}

/// The weight on its way to a node, if it can be counted.
fn checked_weight_toward(moves: &Vec<PlannedMove>, node: &NodeKey) -> (weight: Option<u64>)
    ensures
        match weight {
            Some(weight) => weight == weight_toward(seq_view(moves@), node@),
            None => weight_toward(seq_view(moves@), node@) > u64::MAX,
        },
{
    let ghost all = seq_view(moves@);
    let mut weight: u64 = 0;
    let mut i: usize = 0;
    while i < moves.len()
        invariant
            i <= moves.len(),
            all == seq_view(moves@),
            weight == weight_toward(all.subrange(0, i as int), node@),
        decreases moves.len() - i,
    {
        let movement = &moves[i];
        proof {
            let longer = all.subrange(0, i + 1);
            assert(longer.drop_last() =~= all.subrange(0, i as int));
            assert(longer.last() == movement@);
            lemma_prefix_weight(all, node@, i + 1);
        }
        let arriving = match movement.progress {
            MoveProgress::Pending => true,
            MoveProgress::Handoff => true,
            _ => false,
        };
        if arriving && movement.target.same(node) {
            weight = match weight.checked_add(movement.weight) {
                Some(sum) => sum,
                None => {
                    return None;
                },
            };
        }
        i = i + 1;
    }
    assert(all.subrange(0, i as int) =~= all);
    Some(weight)
}

/// No weight is on its way to a node that no move goes to.
proof fn lemma_no_weight(moves: Seq<PlannedMoveModel>, node: NodeModel)
    requires
        forall|i: int| 0 <= i < moves.len() ==> (#[trigger] moves[i]).target != node,
    ensures
        weight_toward(moves, node) == 0,
    decreases moves.len(),
{
    if moves.len() > 0 {
        assert(moves.last() == moves[moves.len() - 1]);
        assert forall|i: int| 0 <= i < moves.drop_last().len() implies (
        #[trigger] moves.drop_last()[i]).target != node by {
            assert(moves.drop_last()[i] == moves[i]);
        }
        lemma_no_weight(moves.drop_last(), node);
    }
}

/// Whether the weight on its way to each node can be counted.
pub fn weights_can_be_counted(moves: &Vec<PlannedMove>) -> (fit: bool)
    ensures
        fit == weights_fit(seq_view(moves@)),
{
    let ghost all = seq_view(moves@);
    let mut i: usize = 0;
    while i < moves.len()
        invariant
            i <= moves.len(),
            all == seq_view(moves@),
            forall|j: int|
                0 <= j < i ==> weight_toward(all, (#[trigger] all[j]).target) <= u64::MAX,
        decreases moves.len() - i,
    {
        assert(all[i as int] == moves@[i as int]@);
        if checked_weight_toward(moves, &moves[i].target).is_none() {
            return false;
        }
        i = i + 1;
    }
    proof {
        assert forall|node: NodeModel| #[trigger] weight_toward(all, node) <= u64::MAX by {
            if exists|j: int| 0 <= j < all.len() && (#[trigger] all[j]).target == node {
                let j = choose|j: int| 0 <= j < all.len() && (#[trigger] all[j]).target == node;
                assert(weight_toward(all, all[j].target) <= u64::MAX);
            } else {
                lemma_no_weight(all, node);
            }
        }
    }
    true
}

pub fn sum_weight_toward(moves: &Vec<PlannedMove>, node: &NodeKey) -> (weight: u64)
    requires
        weights_fit(seq_view(moves@)),
    ensures
        weight == weight_toward(seq_view(moves@), node@),
{
    match checked_weight_toward(moves, node) {
        Some(weight) => weight,
        None => {
            assert(weight_toward(seq_view(moves@), node@) <= u64::MAX);
            0
        },
    }
}

} // verus!
