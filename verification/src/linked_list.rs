//! A singly linked list with owned nodes, viewed as the sequence of
//! its values from front to back.

use vstd::prelude::*;
use vstd::std_specs::cmp::PartialEqSpec;

verus! {

/// One list node: a value and the rest of the list.
pub struct Node<T> {
    pub value: T,
    pub next: Option<Box<Node<T>>>,
}

impl<T> Node<T> {
    /// The values from this node to the end of the list.
    pub open spec fn seq(&self) -> Seq<T>
        decreases *self,
    {
        match &self.next {
            Some(b) => seq![self.value] + b.seq(),
            None => seq![self.value],
        }
    }

    pub fn new(value: T, next: Option<Box<Node<T>>>) -> (r: Node<T>)
        ensures
            r.value == value,
            r.next == next,
    {
        Node { value, next }
    }
}

/// The list: an optional first node and a cached length.  Dropping the
/// list is left to the compiler-generated drop, which walks the nodes
/// recursively, so a list with very many nodes drops with equally deep
/// recursion.
pub struct LinkedList<T> {
    pub head: Option<Box<Node<T>>>,
    pub size: usize,
}

impl<T> View for LinkedList<T> {
    type V = Seq<T>;

    open spec fn view(&self) -> Seq<T> {
        match &self.head {
            Some(b) => b.seq(),
            None => Seq::empty(),
        }
    }
}

impl<T> LinkedList<T> {
    /// The cached length counts the nodes.
    pub open spec fn wf(&self) -> bool {
        self.size == self@.len()
    }

    /// The empty list.
    pub fn new() -> (r: LinkedList<T>)
        ensures
            r.wf(),
            r@ == Seq::<T>::empty(),
    {
        LinkedList { head: None, size: 0 }
    }

    /// How many values the list holds.
    pub fn get_size(&self) -> (r: usize)
        requires
            self.wf(),
        ensures
            r == self@.len(),
    {
        self.size
    }

    /// Whether the list holds no values.
    pub fn is_empty(&self) -> (r: bool)
        requires
            self.wf(),
        ensures
            r == (self@.len() == 0),
    {
        self.get_size() == 0
    }

    /// Prepends a value: the new value becomes the front of the list
    /// and everything else keeps its order.
    pub fn push_front(&mut self, value: T)
        requires
            old(self).wf(),
            old(self)@.len() < usize::MAX,
        ensures
            final(self).wf(),
            final(self)@ == seq![value] + old(self)@,
    {
        let new_node: Box<Node<T>> = Box::new(Node::new(value, self.head.take()));
        proof {
            assert(match &new_node.next {
                Some(b) => new_node.seq() == seq![new_node.value] + b.seq(),
                None => new_node.seq() == seq![new_node.value],
            });
            assert(new_node.seq() =~= seq![value] + old(self)@);
        }
        self.head = Some(new_node);
        self.size += 1;
    }

    /// Removes and returns the front value, or absence from an empty
    /// list, which it leaves unchanged.
    pub fn pop_front(&mut self) -> (r: Option<T>)
        requires
            old(self).wf(),
        ensures
            final(self).wf(),
            old(self)@.len() == 0 ==> r is None && *final(self) == *old(self),
            old(self)@.len() > 0 ==> r == Some(old(self)@[0]) && final(self)@ == old(
                self,
            )@.drop_first(),
    {
        let node: Box<Node<T>> = match self.head.take() {
            Some(n) => n,
            None => {
                return None;
            }
        };
        let node = *node;
        proof {
            assert(match &node.next {
                Some(b) => old(self)@ == seq![node.value] + b.seq(),
                None => old(self)@ == seq![node.value],
            });
        }
        self.head = node.next;
        self.size -= 1;
        proof {
            assert(final(self)@ =~= old(self)@.drop_first());
        }
        Some(node.value)
    }
}

/// The values from an optional first node to the end of the list.
pub open spec fn opt_seq<T>(o: Option<Box<Node<T>>>) -> Seq<T> {
    match o {
        Some(b) => b.seq(),
        None => Seq::empty(),
    }
}

impl<T: Clone> Clone for LinkedList<T> {
    /// The clone holds one clone of each of the original's values, in
    /// the same order, and shares no nodes with the original.
    fn clone(&self) -> (r: Self)
        ensures
            r.wf(),
            r@.len() == self@.len(),
            forall|i: int| 0 <= i < self@.len() ==> cloned::<T>(self@[i], #[trigger] r@[i]),
    {
        let mut values: Vec<T> = Vec::new();
        let mut cur: &Option<Box<Node<T>>> = &self.head;
        proof {
            assert(opt_seq(self.head) == self@);
            assert(self@.skip(0) =~= self@);
        }
        loop
            invariant
                values@.len() <= self@.len(),
                opt_seq(*cur) == self@.skip(values@.len() as int),
                forall|i: int|
                    0 <= i < values@.len() ==> cloned::<T>(self@[i], #[trigger] values@[i]),
            ensures
                values@.len() == self@.len(),
                forall|i: int|
                    0 <= i < values@.len() ==> cloned::<T>(self@[i], #[trigger] values@[i]),
            decreases opt_seq(*cur).len(),
        {
            match cur {
                Some(node) => {
                    let ghost k = values@.len() as int;
                    proof {
                        assert(opt_seq(*cur) =~= seq![node.value] + opt_seq(node.next));
                        assert(self@.skip(k)[0] == self@[k]);
                        assert(node.value == self@[k]);
                        assert(self@.skip(k).drop_first() =~= self@.skip(k + 1));
                    }
                    values.push(node.value.clone());
                    cur = &node.next;
                }
                None => {
                    proof {
                        assert(self@.skip(values@.len() as int).len() == 0);
                    }
                    break;
                }
            }
        }
        // Rebuild from the back, moving each cloned value into place, so
        // the original's front value ends up in front again.
        let ghost full = values@;
        let total: usize = values.len();
        let mut result: LinkedList<T> = LinkedList::new();
        proof {
            assert(full.skip(total as int) =~= Seq::<T>::empty());
            assert(full.take(total as int) =~= full);
        }
        loop
            invariant
                result.wf(),
                values@.len() <= total,
                total == full.len(),
                values@ == full.take(values@.len() as int),
                result@ == full.skip(values@.len() as int),
            ensures
                result.wf(),
                result@ == full,
            decreases values@.len(),
        {
            let ghost m = values@.len() as int;
            match values.pop() {
                Some(v) => {
                    proof {
                        assert(full.take(m)[m - 1] == full[m - 1]);
                        assert(v == full[m - 1]);
                        assert(full.take(m).subrange(0, m - 1) =~= full.take(m - 1));
                        assert(result@.len() < usize::MAX);
                    }
                    result.push_front(v);
                    proof {
                        assert(seq![full[m - 1]] + full.skip(m) =~= full.skip(m - 1));
                    }
                }
                None => {
                    proof {
                        assert(full.skip(0) =~= full);
                    }
                    break;
                }
            }
        }
        result
    }
}

/// Pairwise equality of two value sequences, by the element type's own
/// equality specification.
pub open spec fn seq_eq_by<T: PartialEq>(a: Seq<T>, b: Seq<T>) -> bool {
    a.len() == b.len() && forall|i: int| 0 <= i < a.len() ==> #[trigger] a[i].eq_spec(&b[i])
}

impl<T: PartialEq> vstd::std_specs::cmp::PartialEqSpecImpl for LinkedList<T> {
    open spec fn obeys_eq_spec() -> bool {
        T::obeys_eq_spec()
    }

    open spec fn eq_spec(&self, other: &LinkedList<T>) -> bool {
        seq_eq_by(self@, other@)
    }
}

impl<T: PartialEq> PartialEq for LinkedList<T> {
    /// Two lists are equal when they hold pairwise equal values.
    fn eq(&self, other: &Self) -> (r: bool) {
        let mut x: &Option<Box<Node<T>>> = &self.head;
        let mut y: &Option<Box<Node<T>>> = &other.head;
        let ghost mut k: int = 0;
        proof {
            assert(opt_seq(self.head) == self@);
            assert(opt_seq(other.head) == other@);
            assert(self@.skip(0) =~= self@);
            assert(other@.skip(0) =~= other@);
        }
        loop
            invariant
                0 <= k <= self@.len(),
                k <= other@.len(),
                opt_seq(*x) == self@.skip(k),
                opt_seq(*y) == other@.skip(k),
                T::obeys_eq_spec() ==> forall|i: int|
                    0 <= i < k ==> #[trigger] self@[i].eq_spec(&other@[i]),
            decreases self@.len() - k,
        {
            match (x, y) {
                (Some(nx), Some(ny)) => {
                    proof {
                        assert(opt_seq(*x) =~= seq![nx.value] + opt_seq(nx.next));
                        assert(opt_seq(*y) =~= seq![ny.value] + opt_seq(ny.next));
                        assert(self@.skip(k)[0] == self@[k]);
                        assert(other@.skip(k)[0] == other@[k]);
                        assert(self@[k] == nx.value);
                        assert(other@[k] == ny.value);
                    }
                    let same = nx.value == ny.value;
                    if !same {
                        proof {
                            if T::obeys_eq_spec() {
                                assert(!self@[k].eq_spec(&other@[k]));
                                assert(!seq_eq_by(self@, other@));
                            }
                        }
                        return false;
                    }
                    proof {
                        assert(self@.skip(k).drop_first() =~= self@.skip(k + 1));
                        assert(other@.skip(k).drop_first() =~= other@.skip(k + 1));
                    }
                    x = &nx.next;
                    y = &ny.next;
                    proof {
                        k = k + 1;
                    }
                }
                (None, None) => {
                    proof {
                        if T::obeys_eq_spec() {
                            assert(self@.len() == k && other@.len() == k);
                            assert(seq_eq_by(self@, other@));
                        }
                    }
                    return true;
                }
                _ => {
                    proof {
                        match x {
                            Some(nx) => {
                                assert(opt_seq(*x) =~= seq![nx.value] + opt_seq(nx.next));
                                assert(self@.len() > k);
                            }
                            None => {
                                assert(self@.len() == k);
                            }
                        }
                        match y {
                            Some(ny) => {
                                assert(opt_seq(*y) =~= seq![ny.value] + opt_seq(ny.next));
                                assert(other@.len() > k);
                            }
                            None => {
                                assert(other@.len() == k);
                            }
                        }
                        assert(self@.len() != other@.len());
                        if T::obeys_eq_spec() {
                            assert(!seq_eq_by(self@, other@));
                        }
                    }
                    return false;
                }
            }
        }
    }
}

} // verus!
