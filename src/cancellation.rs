use vstd::prelude::*;

verus! {

/// A handle on one node of a [`CancellationTokens`] tree.
#[derive(Clone, Copy, Debug, PartialEq, Eq, Structural)]
pub struct CancellationToken {
    pub index: usize,
}

/// An arena of hierarchical cancellation signals.
///
/// Every node is either a root or the child of an earlier node; a child is
/// cancelled whenever its parent is, and a cancelled node stays cancelled.
pub struct CancellationTokens {
    parents: Vec<Option<usize>>,
    cancelled: Vec<bool>,
}

/// `node` is `ancestor` itself or lies below it in the tree described by `parents`.
pub open spec fn descends_from(parents: Seq<Option<usize>>, node: int, ancestor: int) -> bool
    decreases node,
{
    if node == ancestor {
        true
    } else if 0 <= node < parents.len() && parents[node] is Some && parents[node]->0 < node {
        descends_from(parents, parents[node]->0 as int, ancestor)
    } else {
        false
    }
}

impl CancellationTokens {
    pub closed spec fn parents_spec(&self) -> Seq<Option<usize>> {
        self.parents@
    }

    /// The cancellation flag of every node, by index.
    pub closed spec fn flags(&self) -> Seq<bool> {
        self.cancelled@
    }

    pub open spec fn len_spec(&self) -> nat {
        self.flags().len()
    }

    pub open spec fn contains(&self, t: CancellationToken) -> bool {
        t.index < self.len_spec()
    }

    pub open spec fn is_cancelled_spec(&self, t: CancellationToken) -> bool {
        self.flags()[t.index as int]
    }

    /// Parents come before their children, and a cancelled parent has only
    /// cancelled children.
    pub closed spec fn wf(&self) -> bool {
        &&& self.parents@.len() == self.cancelled@.len()
        &&& forall|i: int|
            0 <= i < self.parents@.len() && (#[trigger] self.parents@[i]) is Some ==> {
                &&& self.parents@[i]->0 < i
                &&& self.cancelled@[self.parents@[i]->0 as int] ==> self.cancelled@[i]
            }
    }

    /// Every node cancelled in `earlier` is cancelled here too, and the nodes of
    /// `earlier` keep their place in the tree.
    pub open spec fn extends(&self, earlier: &Self) -> bool {
        &&& earlier.len_spec() <= self.len_spec()
        &&& forall|i: int| 0 <= i < earlier.len_spec() ==> #[trigger] self.parents_spec()[i] == earlier.parents_spec()[i]
        &&& forall|i: int| 0 <= i < earlier.len_spec() && #[trigger] earlier.flags()[i] ==> self.flags()[i]
    }

    pub fn new() -> (r: Self)
        ensures
            r.wf(),
            r.len_spec() == 0,
    {
        CancellationTokens { parents: Vec::new(), cancelled: Vec::new() }
    }

    pub fn len(&self) -> (r: usize)
        requires
            self.wf(),
        ensures
            r == self.len_spec(),
    {
        self.cancelled.len()
    }

    /// Adds a root token that is not cancelled.
    pub fn new_token(&mut self) -> (t: CancellationToken)
        requires
            old(self).wf(),
        ensures
            final(self).wf(),
            t.index == old(self).len_spec(),
            final(self).len_spec() == old(self).len_spec() + 1,
            final(self).extends(&*old(self)),
            final(self).flags() == old(self).flags().push(false),
            final(self).parents_spec() == old(self).parents_spec().push(None),
    {
        let index = self.cancelled.len();
        self.parents.push(None);
        self.cancelled.push(false);
        CancellationToken { index }
    }

    /// Adds a child of `parent`; it starts cancelled exactly when the parent is.
    pub fn child(&mut self, parent: CancellationToken) -> (t: CancellationToken)
        requires
            old(self).wf(),
            old(self).contains(parent),
        ensures
            final(self).wf(),
            t.index == old(self).len_spec(),
            final(self).extends(&*old(self)),
            final(self).flags() == old(self).flags().push(old(self).is_cancelled_spec(parent)),
            final(self).parents_spec() == old(self).parents_spec().push(Some(parent.index)),
    {
        let index = self.cancelled.len();
        let flag = self.cancelled[parent.index];
        self.parents.push(Some(parent.index));
        self.cancelled.push(flag);
        CancellationToken { index }
    }

    pub fn is_cancelled(&self, t: CancellationToken) -> (r: bool)
        requires
            self.wf(),
            self.contains(t),
        ensures
            r == self.is_cancelled_spec(t),
    {
        self.cancelled[t.index]
    }

    /// Cancels `t` and every token below it; the others keep their state.
    pub fn cancel(&mut self, t: CancellationToken)
        requires
            old(self).wf(),
            old(self).contains(t),
        ensures
            final(self).wf(),
            final(self).len_spec() == old(self).len_spec(),
            final(self).extends(&*old(self)),
            final(self).is_cancelled_spec(t),
            final(self).parents_spec() == old(self).parents_spec(),
            forall|i: int|
                0 <= i < old(self).len_spec() ==> #[trigger] final(self).flags()[i] == (
                old(self).flags()[i] || descends_from(old(self).parents_spec(), i, t.index as int)),
    {
        let n = self.cancelled.len();
        let ghost before = self.cancelled@;
        let mut j: usize = 0;
        while j < n
            invariant
                0 <= j <= n,
                n == self.cancelled@.len(),
                self.parents@.len() == n,
                self.parents@ == old(self).parents@,
                before == old(self).cancelled@,
                t.index < n,
                old(self).wf(),
                forall|i: int| j <= i < n ==> #[trigger] self.cancelled@[i] == before[i],
                forall|i: int|
                    0 <= i < j ==> #[trigger] self.cancelled@[i] == (before[i] || descends_from(
                        self.parents@,
                        i,
                        t.index as int,
                    )),
            decreases n - j,
        {
            let inherited = match self.parents[j] {
                Some(p) => self.cancelled[p],
                None => false,
            };
            let flag = self.cancelled[j] || j == t.index || inherited;
            proof {
                let ps = self.parents@;
                assert(ps[j as int] is Some ==> ps[j as int]->0 < j);
                if ps[j as int] is Some {
                    let p = ps[j as int]->0 as int;
                    assert(before[p] ==> before[j as int]);
                }
                assert(descends_from(ps, j as int, t.index as int) == (j == t.index || (
                ps[j as int] is Some && descends_from(ps, ps[j as int]->0 as int, t.index as int))));
            }
            self.cancelled.set(j, flag);
            j = j + 1;
        }
        proof {
            assert(descends_from(self.parents@, t.index as int, t.index as int));
        }
    }
}

/// `after` is `before` with `t` and every token below it cancelled, and
/// nothing else changed.
pub open spec fn cancelled_below(after: &CancellationTokens, before: &CancellationTokens, t: CancellationToken) -> bool {
    &&& after.extends(before)
    &&& after.len_spec() == before.len_spec()
    &&& after.parents_spec() == before.parents_spec()
    &&& forall|i: int|
        0 <= i < before.len_spec() ==> #[trigger] after.flags()[i] == (before.flags()[i]
            || descends_from(before.parents_spec(), i, t.index as int))
}

/// Cancelling the same token a second time changes nothing more.
pub proof fn lemma_cancel_twice(a: &CancellationTokens, b: &CancellationTokens, c: &CancellationTokens, t: CancellationToken)
    requires
        cancelled_below(b, a, t),
        cancelled_below(c, b, t),
    ensures
        cancelled_below(c, a, t),
{
    lemma_cancellation_stays(a, b, c);
}

/// Once a token is cancelled it stays cancelled, over any run of operations:
/// the relation kept by every operation composes.
pub proof fn lemma_cancellation_stays(a: &CancellationTokens, b: &CancellationTokens, c: &CancellationTokens)
    requires
        b.extends(a),
        c.extends(b),
    ensures
        c.extends(a),
        forall|t: CancellationToken| a.contains(t) && a.is_cancelled_spec(t) ==> #[trigger] c.is_cancelled_spec(t),
{
    assert forall|t: CancellationToken| a.contains(t) && a.is_cancelled_spec(t) implies #[trigger] c.is_cancelled_spec(t) by {
        assert(b.flags()[t.index as int]);
    }
}

} // verus!
