//! How a parse report of sub-concepts becomes changes to the thought graph.

use crate::mind_page::prompt::Concept;
use vstd::prelude::*;

verus! {

/// What to do with one concept of a parse report.
pub enum NodeAction {
    /// Set the text of the node already made for the concept at `index`.
    Update { index: usize, core: String, clarification: String },
    /// Make a node for the concept at `index` and connect it below the parent.
    Create { index: usize },
}

/// `a` is the action for concept `i` of `report` when nodes exist for the first
/// `created` concepts: an update with the concept's text for those, a new node for
/// the others.
pub open spec fn planned(a: NodeAction, i: int, created: int, report: Seq<Concept>) -> bool {
    if i < created {
        a matches NodeAction::Update { index, core, clarification } && index == i && core@
            == report[i].core@ && clarification@ == report[i].clarification@
    } else {
        a matches NodeAction::Create { index } && index == i
    }
}

/// The actions for a parse report when nodes were made for its first `created`
/// concepts: one per concept, in order, an update of each existing node with its
/// concept's current text and a new node for each concept after them.
pub fn plan_nodes(created: usize, report: &Vec<Concept>) -> (actions: Vec<NodeAction>)
    ensures
        actions@.len() == report@.len(),
        forall|i: int|
            0 <= i < report@.len() ==> planned(#[trigger] actions@[i], i, created as int, report@),
        forall|i: int|
            0 <= i < report@.len() ==> (#[trigger] actions@[i] is Update <==> i < created),
{
    let mut actions: Vec<NodeAction> = Vec::new();
    let mut i: usize = 0;
    while i < report.len()
        invariant
            i <= report@.len(),
            actions@.len() == i,
            forall|j: int| 0 <= j < i ==> planned(#[trigger] actions@[j], j, created as int, report@),
        decreases report@.len() - i,
    {
        if i < created {
            let c = &report[i];
            actions.push(
                NodeAction::Update {
                    index: i,
                    core: c.core.clone(),
                    clarification: c.clarification.clone(),
                },
            );
        } else {
            actions.push(NodeAction::Create { index: i });
        }
        i = i + 1;
    }
    actions
}

/// A node is made exactly once per concept: in a plan for a report when nodes exist
/// for the first `created` concepts, each of those concepts gets an update carrying its
/// own text, whatever that text is (empty too), and a node is created only for a
/// concept after them; each action names the concept it is for.
pub proof fn law_node_created_once(
    created: int,
    report: Seq<Concept>,
    actions: Seq<NodeAction>,
)
    requires
        actions.len() == report.len(),
        forall|i: int| 0 <= i < report.len() ==> planned(#[trigger] actions[i], i, created, report),
    ensures
        forall|i: int|
            0 <= i < report.len() && i < created ==> (#[trigger] actions[i] matches NodeAction::Update {
                index,
                core,
                clarification,
            } && index == i && core@ == report[i].core@ && clarification@
                == report[i].clarification@),
        forall|i: int|
            0 <= i < report.len() && created <= i ==> (#[trigger] actions[i] matches NodeAction::Create {
                index,
            } && index == i),
{
    assert forall|i: int| 0 <= i < report.len() && i < created implies (#[trigger] actions[i] matches NodeAction::Update {
        index,
        core,
        clarification,
    } && index == i && core@ == report[i].core@ && clarification@ == report[i].clarification@) by {
        assert(planned(actions[i], i, created, report));
    }
    assert forall|i: int| 0 <= i < report.len() && created <= i implies (#[trigger] actions[i] matches NodeAction::Create {
        index,
    } && index == i) by {
        assert(planned(actions[i], i, created, report));
    }
}

} // verus!
