//! What became of a packet: the tree of its messages and bundles, with each
//! bundle that was put off marked by its name.

use vstd::prelude::*;
use crate::buffer::CorrelationId;

verus! {

/// What became of a packet. `T` is what stands for an applied message.
#[must_use]
pub enum Results<T> {
    /// A message that has been applied.
    OscMessage(T),
    /// A bundle that has been applied: what became of each packet in it.
    OscBundle(Vec<Results<T>>),
    /// A bundle that cannot be applied yet: its time tag is in the future.
    NotYetApplied(CorrelationId),
}

/// The applied messages of `results`, in depth-first order.
pub open spec fn flattened<T>(results: Results<T>) -> Seq<T>
    decreases results, 0nat,
{
    match results {
        Results::OscMessage(m) => seq![m],
        Results::OscBundle(children) => flattened_all(children@),
        Results::NotYetApplied(_) => Seq::empty(),
    }
}

/// The applied messages of each of `children` in depth-first order, one child
/// after another.
pub open spec fn flattened_all<T>(children: Seq<Results<T>>) -> Seq<T>
    decreases children, 1nat,
{
    if children.len() == 0 {
        Seq::empty()
    } else {
        flattened_all(children.drop_last()) + flattened(children.last())
    }
}

/// Flattening one child more appends its messages.
pub proof fn lemma_flattened_all_take<T>(children: Seq<Results<T>>, n: int)
    requires
        0 <= n < children.len(),
    ensures
        flattened_all(children.take(n + 1)) == flattened_all(children.take(n)) + flattened(children[n]),
{
    assert(children.take(n + 1).drop_last() =~= children.take(n));
    assert(children.take(n + 1).last() == children[n]);
}

impl<T> Results<T> {
    /// Appends the applied messages, in depth-first order, to `out`.
    fn collect_into(self, out: &mut Vec<T>)
        ensures
            final(out)@ == old(out)@ + flattened(self),
        decreases self,
    {
        match self {
            Results::OscMessage(m) => {
                out.push(m);
                proof {
                    assert(out@ =~= old(out)@ + seq![m]);
                }
            },
            Results::OscBundle(children) => {
                let ghost all = children@;
                let mut rest = children;
                let mut reversed: Vec<Results<T>> = Vec::new();
                while rest.len() > 0
                    invariant
                        rest@ == all.take(rest@.len() as int),
                        rest@.len() <= all.len(),
                        reversed@.len() == all.len() - rest@.len(),
                        forall|i: int| 0 <= i < reversed@.len() ==> #[trigger] reversed@[i] == all[all.len() - 1 - i],
                    decreases rest@.len(),
                {
                    let ghost n = rest@.len();
                    let child = rest.pop().unwrap();
                    reversed.push(child);
                    proof {
                        assert(rest@ =~= all.take(n - 1));
                    }
                }
                proof {
                    assert(all.take(0) =~= Seq::<Results<T>>::empty());
                    assert(out@ =~= old(out)@ + flattened_all(all.take(0)));
                }
                while reversed.len() > 0
                    invariant
                        self == Results::OscBundle(children),
                        all == children@,
                        reversed@.len() <= all.len(),
                        forall|i: int| 0 <= i < reversed@.len() ==> #[trigger] reversed@[i] == all[all.len() - 1 - i],
                        out@ == old(out)@ + flattened_all(all.take(all.len() - reversed@.len())),
                    decreases reversed@.len(),
                {
                    let ghost done = all.len() - reversed@.len();
                    let ghost before = out@;
                    let child = reversed.pop().unwrap();
                    proof {
                        assert(child == all[done]);
                        assert(self->OscBundle_0 == children);
                        assert(decreases_to!(self => self->OscBundle_0));
                        vstd::std_specs::vec::axiom_vec_index_decreases(children, done);
                        assert(decreases_to!(children => children[done]));
                        lemma_flattened_all_take(all, done);
                    }
                    child.collect_into(out);
                    proof {
                        assert(out@ =~= old(out)@ + flattened_all(all.take(done + 1)));
                    }
                }
                proof {
                    assert(all.take(all.len() as int) =~= all);
                }
            },
            Results::NotYetApplied(_) => {
                proof {
                    assert(out@ =~= old(out)@ + Seq::<T>::empty());
                }
            },
        }
    }

    /// The applied messages, in depth-first order.
    #[must_use]
    pub fn to_messages_vec(self) -> (messages: Vec<T>)
        ensures
            messages@ == flattened(self),
    {
        let mut out: Vec<T> = Vec::new();
        self.collect_into(&mut out);
        proof {
            assert(Seq::<T>::empty() + flattened(self) =~= flattened(self));
        }
        out
    }
}

} // verus!

