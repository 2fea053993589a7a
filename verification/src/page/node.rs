//! A node of the thought graph: a concept, its clarification, and its children.

use vstd::prelude::*;

verus! {

/// `ids` with every occurrence of `id` removed, order kept.
pub open spec fn without(ids: Seq<usize>, id: usize) -> Seq<usize>
    decreases ids.len(),
{
    if ids.len() == 0 {
        ids
    } else {
        let rest = without(ids.drop_last(), id);
        if ids.last() == id {
            rest
        } else {
            rest.push(ids.last())
        }
    }
}

/// A node of the thought graph; children are named by their graph node index.
pub struct NodeOfThought {
    pub is_root: bool,
    pub concept: String,
    pub clarification: String,
    pub childs: Vec<usize>,
}

impl NodeOfThought {
    /// An empty node, the root of the graph or not.
    pub fn new(is_root: bool) -> (n: Self)
        ensures
            n.is_root == is_root,
            n.concept@ == Seq::<char>::empty(),
            n.clarification@ == Seq::<char>::empty(),
            n.childs@ == Seq::<usize>::empty(),
    {
        NodeOfThought {
            is_root,
            concept: String::new(),
            clarification: String::new(),
            childs: Vec::new(),
        }
    }

    /// Adds `node` as the last child.
    pub fn connect(&mut self, node: usize)
        ensures
            final(self).childs@ == old(self).childs@.push(node),
            final(self).is_root == old(self).is_root,
            final(self).concept == old(self).concept,
            final(self).clarification == old(self).clarification,
    {
        self.childs.push(node);
    }

    /// Removes `node` from the children, keeping the others in order.
    pub fn disconnect(&mut self, node: usize)
        ensures
            final(self).childs@ == without(old(self).childs@, node),
            final(self).is_root == old(self).is_root,
            final(self).concept == old(self).concept,
            final(self).clarification == old(self).clarification,
    {
        let ghost orig = self.childs@;
        let n = self.childs.len();
        let mut kept: Vec<usize> = Vec::new();
        let mut i: usize = 0;
        assert(kept@ =~= without(orig.take(0), node));
        while i < n
            invariant
                n == orig.len(),
                self.childs@ == orig,
                i <= n,
                kept@ == without(orig.take(i as int), node),
            decreases n - i,
        {
            let c = self.childs[i];
            proof {
                assert(orig.take(i + 1).drop_last() =~= orig.take(i as int));
                assert(orig.take(i + 1).last() == c);
            }
            if c != node {
                kept.push(c);
            }
            i = i + 1;
        }
        assert(orig.take(n as int) =~= orig);
        self.childs = kept;
    }
}

/// Disconnecting a child removes it entirely and keeps every other child.
pub proof fn law_disconnect_removes_only(ids: Seq<usize>, id: usize, other: usize)
    ensures
        !without(ids, id).contains(id),
        other != id ==> (ids.contains(other) <==> without(ids, id).contains(other)),
    decreases ids.len(),
{
    if ids.len() > 0 {
        law_disconnect_removes_only(ids.drop_last(), id, other);
        let rest = without(ids.drop_last(), id);
        assert(ids =~= ids.drop_last().push(ids.last()));
        if ids.last() != id {
            assert(rest.push(ids.last())[rest.len() as int] == ids.last());
            assert(rest.push(ids.last()).contains(ids.last()));
            assert forall|x: usize| rest.push(ids.last()).contains(x) implies (rest.contains(x)
                || x == ids.last()) by {
                let k = choose|k: int| 0 <= k < rest.len() + 1 && rest.push(ids.last())[k] == x;
                if k < rest.len() {
                    assert(rest[k] == x);
                }
            }
            assert forall|x: usize| rest.contains(x) implies rest.push(ids.last()).contains(x) by {
                let k = choose|k: int| 0 <= k < rest.len() && rest[k] == x;
                assert(rest.push(ids.last())[k] == x);
            }
        }
        assert forall|x: usize| ids.contains(x) implies (ids.drop_last().contains(x) || x
            == ids.last()) by {
            let k = choose|k: int| 0 <= k < ids.len() && ids[k] == x;
            if k < ids.len() - 1 {
                assert(ids.drop_last()[k] == x);
            }
        }
        assert forall|x: usize| ids.drop_last().contains(x) implies ids.contains(x) by {
            let k = choose|k: int| 0 <= k < ids.drop_last().len() && ids.drop_last()[k] == x;
            assert(ids[k] == x);
        }
        assert(ids[ids.len() - 1] == ids.last());
        assert(ids.contains(ids.last()));
    }
}

} // verus!
