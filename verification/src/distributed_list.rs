//! The registry: a list to which independent declaration sites add their entries.

use vstd::prelude::*;

verus! {

/// A linked list of entries. A node holds at most one entry; the root of a registry holds
/// none.
pub struct DistributedList<T: 'static> {
    entry: Option<&'static T>,
    next: Option<Box<DistributedList<T>>>,
}

impl<T> DistributedList<T> {
    /// The entry of this node, as a sequence of one item at most.
    pub closed spec fn head(&self) -> Seq<T> {
        match self.entry {
            Some(entry) => seq![*entry],
            None => Seq::empty(),
        }
    }

    /// The entries of the nodes behind this one, from the nearest on.
    pub closed spec fn tail(&self) -> Seq<T>
        decreases self,
    {
        match self.next {
            Some(next) => next.head() + next.tail(),
            None => Seq::empty(),
        }
    }

    /// The entries of the list, from this node on.
    pub open spec fn items(&self) -> Seq<T> {
        self.head() + self.tail()
    }

    /// The number of nodes behind this one.
    closed spec fn depth(&self) -> nat
        decreases self,
    {
        match self.next {
            Some(next) => 1 + next.depth(),
            None => 0,
        }
    }

    /// Creates an empty list.
    pub fn root() -> (list: Self)
        ensures
            list.items() == Seq::<T>::empty(),
    {
        let list = DistributedList { entry: None, next: None };
        proof {
            assert(list.head() + list.tail() =~= Seq::<T>::empty());
        }
        list
    }

    /// Creates a node that holds `entry`; see `push`.
    pub fn new(entry: &'static T) -> (node: Self)
        ensures
            node.head() == seq![*entry],
            node.tail() == Seq::<T>::empty(),
    {
        DistributedList { entry: Some(entry), next: None }
    }

    /// The entries of the list, from this node on.
    pub fn iter(&self) -> (entries: Vec<&T>)
        ensures
            entries@.map_values(|e: &T| *e) == self.items(),
    {
        let mut entries: Vec<&T> = Vec::new();
        let mut current = self;
        proof {
            assert(entries@.map_values(|e: &T| *e) + current.items() =~= self.items());
        }
        loop
            invariant
                entries@.map_values(|e: &T| *e) + current.items() == self.items(),
            decreases current.depth(),
        {
            let ghost before = entries@.map_values(|e: &T| *e);
            if let Some(entry) = current.entry {
                entries.push(entry);
            }
            proof {
                assert(entries@.map_values(|e: &T| *e) =~= before + current.head());
            }
            match &current.next {
                Some(next) => {
                    proof {
                        assert(before + current.head() + next.items() =~= before
                            + current.items());
                    }
                    current = &**next;
                },
                None => {
                    proof {
                        assert(before + current.head() =~= before + current.items());
                    }
                    return entries;
                },
            }
        }
    }

    /// Inserts the node `other` right behind this one, in front of the nodes that were
    /// there. Only the entry of `other` itself joins the list: the entries behind this
    /// node are those after one more push.
    pub fn push(&mut self, other: Self)
        ensures
            final(self).head() == old(self).head(),
            final(self).tail() == other.head() + old(self).tail(),
            final(self).tail() == after_pushes(old(self).tail(), other.head()),
    {
        let ghost behind = self.tail();
        let next = self.next.take();
        let mut node = other;
        node.next = next;
        proof {
            assert(node.tail() == behind);
            assert(node.head() == other.head());
        }
        self.next = Some(Box::new(node));
        proof {
            assert(self.tail() == node.head() + node.tail());
            let pushed = other.head();
            assert(pushed.len() <= 1);
            if pushed.len() > 0 {
                assert(pushed.drop_last() =~= Seq::<T>::empty());
                assert(seq![pushed.last()] =~= pushed);
                assert(after_pushes(behind, pushed.drop_last()) == behind);
                assert(after_pushes(behind, pushed) == seq![pushed.last()] + behind);
            } else {
                assert(pushed + behind =~= behind);
                assert(after_pushes(behind, pushed) == behind);
            }
        }
    }
}

/// The entries behind a root after nodes for `entries` were pushed to it one by one:
/// the entry pushed last comes first.
pub open spec fn after_pushes<T>(tail: Seq<T>, entries: Seq<T>) -> Seq<T>
    decreases entries.len(),
{
    if entries.len() == 0 {
        tail
    } else {
        seq![entries.last()] + after_pushes(tail, entries.drop_last())
    }
}

/// Pushes add up: pushing the nodes for `first` and then those for `second` is pushing
/// the nodes for the two together, whatever stood behind the root before. So any number
/// of calls of `push` leaves behind the root what `after_pushes` says of the entries
/// pushed, in the order of the calls.
pub proof fn lemma_pushes_add_up<T>(tail: Seq<T>, first: Seq<T>, second: Seq<T>)
    ensures
        after_pushes(after_pushes(tail, first), second) == after_pushes(tail, first + second),
    decreases second.len(),
{
    if second.len() == 0 {
        assert(first + second =~= first);
    } else {
        lemma_pushes_add_up(tail, first, second.drop_last());
        assert((first + second).drop_last() =~= first + second.drop_last());
        assert((first + second).last() == second.last());
    }
}

/// A registry holds every entry that was pushed to it, each as often as it was pushed:
/// nothing is lost and nothing is doubled.
pub proof fn lemma_pushes_keep_every_entry<T>(entries: Seq<T>)
    ensures
        after_pushes(Seq::<T>::empty(), entries).to_multiset() == entries.to_multiset(),
        after_pushes(Seq::<T>::empty(), entries).len() == entries.len(),
    decreases entries.len(),
{
    broadcast use vstd::seq_lib::group_to_multiset_ensures;

    if entries.len() > 0 {
        let rest = entries.drop_last();
        lemma_pushes_keep_every_entry(rest);
        let listed = after_pushes(Seq::<T>::empty(), rest);
        vstd::seq_lib::lemma_multiset_commutative(seq![entries.last()], listed);
        assert(seq![entries.last()] =~= Seq::<T>::empty().push(entries.last()));
        assert(entries =~= rest.push(entries.last()));
        assert(Seq::<T>::empty().to_multiset() =~= vstd::multiset::Multiset::empty());
    }
}

/// Whatever the order in which the same entries are pushed, the registry holds the same
/// entries.
pub proof fn lemma_push_order_does_not_matter<T>(first: Seq<T>, second: Seq<T>)
    requires
        first.to_multiset() == second.to_multiset(),
    ensures
        after_pushes(Seq::<T>::empty(), first).to_multiset() == after_pushes(
            Seq::<T>::empty(),
            second,
        ).to_multiset(),
{
    lemma_pushes_keep_every_entry(first);
    lemma_pushes_keep_every_entry(second);
}

} // verus!
