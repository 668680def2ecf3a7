//! The iterative-teardown wrapper [`FlatDrop`].

use crate::capability::lemma_shapes_size_append;
use crate::capability::shape_size;
use crate::capability::shapes_size;
use crate::capability::IntoOptionInner;
use crate::capability::Recursive;
use crate::capability::Shape;
use std::rc::Rc;
use std::sync::Arc;
use vstd::prelude::*;

verus! {

/// A holder for one container of a recursive value, offering iterative,
/// heap-backed teardown in place of the container's stack-recursive
/// destructor chain.
///
/// A `FlatDrop` is *active* while it exists: it always holds a live
/// container, reachable through [`FlatDrop::as_ref`]. It is consumed exactly
/// once, either by [`FlatDrop::into_inner`] — which hands the container back
/// untouched, with no decomposition or extraction performed — or by
/// [`FlatDrop::teardown`], which dismantles the owned structure with the
/// work-list loop. The exactly-once transition from active to consumed is
/// enforced by move semantics: both operations take the wrapper by value, so
/// a consumed wrapper can no longer be named.
///
/// Teardown is an explicit consuming operation, to be called under a scoped
/// discipline on every exit path that destroys the structure. A `FlatDrop`
/// that merely goes out of scope falls back to the container's ordinary
/// recursive destructor, which is only safe for shallow structures.
#[derive(Clone, Debug, Default, PartialEq, Eq, PartialOrd, Ord, Hash)]
pub struct FlatDrop<K> {
    container: K,
}

impl<K> View for FlatDrop<K> {
    type V = K;

    /// The container this wrapper holds.
    closed spec fn view(&self) -> K {
        self.container
    }
}

impl<K> FlatDrop<K> {
    /// Wrap a container. Always succeeds; the result is active and holds
    /// exactly the given container.
    pub fn new(container: K) -> (wrapper: Self)
        ensures
            wrapper@ == container,
    {
        FlatDrop { container }
    }

    /// Consume the wrapper and hand back the held container untouched: no
    /// extraction, no decomposition, and no teardown ever runs for this
    /// wrapper instance.
    pub fn into_inner(self) -> (container: K)
        ensures
            container == self@,
    {
        self.container
    }

    /// Borrow the held container without changing ownership state.
    pub fn as_ref(&self) -> (container: &K)
        ensures
            *container == self@,
    {
        &self.container
    }

    /// Mutably borrow the held container without changing ownership state:
    /// the borrow starts out at the held container, and whatever the caller
    /// leaves behind is what the wrapper holds afterwards.
    pub fn as_mut(&mut self) -> (container: &mut K)
        ensures
            *container == old(self)@,
            final(self)@ == *final(container),
    {
        &mut self.container
    }
}

impl<K> FlatDrop<K> where K: IntoOptionInner, K::Inner: Recursive<Container = K> {
    /// Consume the wrapper and tear down the entire structure owned by the
    /// held container, iteratively.
    ///
    /// A work list starts out holding the one wrapped container. Each round
    /// removes the most recently added container and attempts extraction: a
    /// reclaimed value is decomposed and its children join the work list,
    /// while a still-shared container is discarded with no descent (its
    /// ordinary ownership bookkeeping has already happened during the
    /// extraction attempt). Stack usage does not grow with the structure's
    /// depth, and the loop provably terminates: each round removes a
    /// container whose subtree outweighs everything the round adds.
    ///
    /// Teardown is exact: the call returns how many values it decomposed,
    /// and, as ghost data, the combined size of the ownership trees below the
    /// containers it abandoned to surviving owners. Together these account
    /// for every value in the ownership tree exactly once — nothing is
    /// decomposed twice and nothing is forgotten. The decomposed count is a
    /// machine integer, so producing it binds the body to perform that many
    /// extractions and decompositions; the abandoned size stays ghost, since
    /// computing it would mean descending into containers that other owners
    /// still hold. The precondition only asks that the structure in memory
    /// has fewer values than a machine counter can hold.
    ///
    /// No cross-sibling processing order is promised; decomposition and
    /// extraction implementations must not depend on one.
    pub fn teardown(self) -> (counts: (u64, Ghost<nat>))
        requires
            shape_size(self@.inner().shape()) <= u64::MAX,
        ensures
            counts.0 + counts.1@ == shape_size(self@.inner().shape()),
            (forall|container: K, extracted: Option<K::Inner>|
                #[trigger] call_ensures(K::into_option_inner, (container,), extracted)
                    ==> extracted is Some) ==> counts.1@ == 0,
    {
        let ghost first_shape = self@.inner().shape();
        let mut pending: Vec<K> = Vec::new();
        pending.push(self.into_inner());
        let ghost mut shadow: Seq<Shape> = seq![first_shape];
        let mut decomposed: u64 = 0;
        let ghost mut abandoned: nat = 0;
        proof {
            assert(seq![first_shape].drop_last() =~= Seq::<Shape>::empty());
            assert(shapes_size(Seq::<Shape>::empty()) == 0);
            assert(seq![first_shape].last() == first_shape);
            assert(shapes_size(shadow) == shape_size(first_shape));
        }
        while pending.len() > 0
            invariant
                pending@.len() == shadow.len(),
                forall|i: int|
                    0 <= i < shadow.len() ==> (#[trigger] pending@[i]).inner().shape()
                        == shadow[i],
                decomposed + abandoned + shapes_size(shadow) == shape_size(first_shape),
                shape_size(first_shape) <= u64::MAX,
                (forall|container: K, extracted: Option<K::Inner>|
                    #[trigger] call_ensures(K::into_option_inner, (container,), extracted)
                        ==> extracted is Some) ==> abandoned == 0,
            decreases shapes_size(shadow),
        {
            let ghost shadow_before = shadow;
            let ghost pending_before = pending@;
            let container = pending.pop().unwrap();
            proof {
                assert(pending_before.drop_last() =~= pending@);
                shadow = shadow.drop_last();
                assert(shadow_before.last() == container.inner().shape());
                assert(shapes_size(shadow_before) == shape_size(shadow_before.last())
                    + shapes_size(shadow));
            }
            match container.into_option_inner() {
                Some(value) => {
                    let mut parts = value.destruct();
                    proof {
                        value.lemma_shape();
                        lemma_shapes_size_append(shadow, value.shape().branches);
                        shadow = shadow + value.shape().branches;
                        assert(shape_size(value.shape()) == 1 + shapes_size(
                            value.shape().branches,
                        ));
                        assert(shapes_size(shadow) < shapes_size(shadow_before));
                        assert(decomposed < u64::MAX);
                    }
                    decomposed = decomposed + 1;
                    pending.append(&mut parts);
                }
                None => {
                    proof {
                        abandoned = abandoned + shape_size(shadow_before.last());
                        assert(shape_size(shadow_before.last()) >= 1);
                        assert(shapes_size(shadow) < shapes_size(shadow_before));
                    }
                }
            }
        }
        (decomposed, Ghost(abandoned))
    }
}

impl<T> FlatDrop<Box<T>> where T: Recursive<Container = Box<T>> {
    /// Wrap a value in a fresh exclusive-owner container.
    pub fn new_boxed(value: T) -> (wrapper: Self)
        ensures
            wrapper@ == value,
    {
        Self::new(Box::new(value))
    }
}

impl<T> FlatDrop<Rc<T>> where T: Recursive<Container = Rc<T>> {
    /// Wrap a value in a fresh shared-owner container with a non-atomic
    /// count; the new container is the value's only owner.
    pub fn new_rc(value: T) -> (wrapper: Self)
        ensures
            wrapper@ == value,
    {
        Self::new(Rc::new(value))
    }
}

impl<T> FlatDrop<Arc<T>> where T: Recursive<Container = Arc<T>> {
    /// Wrap a value in a fresh shared-owner container with an atomic count;
    /// the new container is the value's only owner.
    pub fn new_arc(value: T) -> (wrapper: Self)
        ensures
            wrapper@ == value,
    {
        Self::new(Arc::new(value))
    }
}

/// Wrapping a container is also available through the standard conversion
/// trait, with the same meaning as [`FlatDrop::new`].
impl<K> From<K> for FlatDrop<K> {
    fn from(container: K) -> (wrapper: Self) {
        Self::new(container)
    }
}

impl<K> vstd::std_specs::convert::FromSpecImpl<K> for FlatDrop<K> {
    open spec fn obeys_from_spec() -> bool {
        true
    }

    closed spec fn from_spec(container: K) -> Self {
        FlatDrop { container }
    }
}

/// What the standard conversion yields: a wrapper holding exactly the given
/// container, as [`FlatDrop::new`] does.
pub proof fn lemma_from_spec<K>(container: K)
    ensures
        <FlatDrop<K> as vstd::std_specs::convert::FromSpec<K>>::from_spec(container)@
            == container,
{
}

/// Exclusive ownership makes teardown complete: extraction from a `Box`
/// container always succeeds, so tearing down a structure of exclusively-
/// owned containers decomposes every value in its ownership tree exactly
/// once — the abandoned count of [`FlatDrop::teardown`] is zero by that
/// function's own contract.
pub proof fn lemma_boxed_teardown_is_complete<T: Recursive<Container = Box<T>>>()
    ensures
        forall|container: Box<T>, extracted: Option<T>|
            #[trigger] call_ensures(Box::<T>::into_option_inner, (container,), extracted)
                ==> extracted is Some,
{
}

/// A wrapper is structurally larger than the container it holds. A recursive
/// value type that owns its children through `FlatDrop`, as in
/// `Succ(FlatDrop<Box<Self>>)`, can therefore define its ghost data — its
/// [`Recursive::shape`] above all — by recursion through [`View::view`],
/// citing this lemma in the termination proof.
pub proof fn lemma_view_decreases<K>(wrapper: FlatDrop<K>)
    ensures
        decreases_to!(wrapper => wrapper@),
{
    assert(decreases_to!(wrapper => wrapper.container));
}

/// Round trip: wrapping a container and immediately unwrapping it hands the
/// very same container back. No teardown, decomposition or extraction can
/// happen in between — [`FlatDrop::into_inner`] is the wrapper's only exit
/// besides [`FlatDrop::teardown`], and it performs none.
pub proof fn lemma_wrap_then_unwrap<K>(container: K, wrapper: FlatDrop<K>, unwrapped: K)
    requires
        call_ensures(FlatDrop::<K>::new, (container,), wrapper),
        call_ensures(FlatDrop::<K>::into_inner, (wrapper,), unwrapped),
    ensures
        unwrapped == container,
{
}

} // verus!
