//! The two capabilities a recursive data type must expose for iterative
//! teardown: decomposition ([`Recursive`]) and extraction
//! ([`IntoOptionInner`]), together with the ghost ownership tree ([`Shape`])
//! that makes the work-list loop provably terminating, and the built-in
//! extraction adapters for `Box`, `Rc` and `Arc`.

use std::rc::Rc;
use std::sync::Arc;
use vstd::prelude::*;

verus! {

/// Extraction capability: a smart pointer that owns (at most) a single value.
///
/// Consuming the container either reclaims the owned value — when this is the
/// sole or last owner — or yields nothing, meaning ownership is still shared
/// with another live owner and the value stays alive under that owner. The
/// operation must not tear the value down itself; it only performs the
/// ownership bookkeeping the container's ordinary destructor would perform.
pub trait IntoOptionInner: Sized {
    type Inner;

    /// The value this container currently owns.
    spec fn inner(&self) -> Self::Inner;

    /// Attempt to convert the container into its owned value.
    ///
    /// Whenever a value comes back, it is the owned value. Whether a value
    /// comes back at all may depend on ownership state outside this
    /// container (other live owners of the same value), so no success
    /// condition is promised at this level; an exclusive-owner container such
    /// as `Box` strengthens this in its own implementation.
    fn into_option_inner(self) -> (extracted: Option<Self::Inner>)
        ensures
            extracted matches Some(value) ==> value == self.inner(),
    ;
}

/// The ghost ownership tree below a recursive value: one node per value, one
/// branch per directly owned container.
///
/// A [`Recursive`] implementation exhibits such a tree for each of its values
/// ([`Recursive::shape`], [`Recursive::lemma_shape`]). Since a `Shape` is an
/// ordinary well-founded datatype, its existence is exactly the statement
/// that the ownership graph below the value is finite and acyclic — the
/// caller obligation the teardown algorithm depends on — and its size is the
/// measure that proves the teardown loop terminates.
pub struct Shape {
    /// The ownership trees below the directly owned containers, in the order
    /// [`Recursive::children`] yields them.
    pub branches: Seq<Shape>,
}

/// The number of values in an ownership tree: the node itself plus everything
/// below its branches.
pub open spec fn shape_size(shape: Shape) -> nat
    decreases shape,
{
    1 + shapes_size(shape.branches)
}

/// The total number of values below a sequence of ownership trees, such as a
/// teardown work list.
pub open spec fn shapes_size(shapes: Seq<Shape>) -> nat
    decreases shapes,
{
    if shapes.len() == 0 {
        0
    } else {
        shape_size(shapes.last()) + shapes_size(shapes.drop_last())
    }
}

/// Sizes add up over concatenation of ownership-tree sequences.
pub proof fn lemma_shapes_size_append(left: Seq<Shape>, right: Seq<Shape>)
    ensures
        shapes_size(left + right) == shapes_size(left) + shapes_size(right),
    decreases right.len(),
{
    if right.len() == 0 {
        assert(left + right =~= left);
    } else {
        assert((left + right).drop_last() =~= left + right.drop_last());
        lemma_shapes_size_append(left, right.drop_last());
    }
}

/// Decomposition capability: a recursive value yields its directly owned
/// containers.
///
/// The ownership graph below a value must be finite and acyclic; that
/// obligation is discharged once and for all by [`Recursive::lemma_shape`],
/// which exhibits a ghost ownership tree matching the decomposition. This is
/// what lets the teardown loop in [`crate::FlatDrop::teardown`] carry a
/// termination proof instead of taking termination on faith.
pub trait Recursive: Sized {
    /// The container kind this value is owned through, e.g. `Box<Self>`.
    type Container: IntoOptionInner<Inner = Self>;

    /// The direct children of this value in the ownership graph. The default
    /// fits a type whose values own no containers; a recursive type overrides
    /// it together with [`Recursive::shape`] and [`Recursive::lemma_shape`].
    open spec fn children(&self) -> Seq<Self::Container> {
        Seq::empty()
    }

    /// The ghost ownership tree below this value. The default is the tree of
    /// a childless value.
    open spec fn shape(&self) -> Shape {
        Shape { branches: Seq::empty() }
    }

    /// The witness that the ownership graph below this value is finite and
    /// acyclic: its ownership tree has one branch per direct child, and each
    /// branch is the child's own ownership tree.
    proof fn lemma_shape(&self)
        ensures
            self.shape().branches.len() == self.children().len(),
            forall|i: int|
                0 <= i < self.children().len() ==> (#[trigger] self.children()[i]).inner().shape()
                    == self.shape().branches[i],
    ;

    /// Decompose this value into the containers it directly owns.
    ///
    /// For a leaf value the result is empty. This must enumerate every owned
    /// container exactly once, and must not descend into grandchildren.
    fn destruct(self) -> (parts: Vec<Self::Container>)
        ensures
            parts@ == self.children(),
    ;
}

/// Exclusive-owner adapter: a `Box` is the sole owner of its value, so
/// extraction always succeeds.
impl<T> IntoOptionInner for Box<T> {
    type Inner = T;

    open spec fn inner(&self) -> T {
        **self
    }

    fn into_option_inner(self) -> (extracted: Option<T>)
        ensures
            extracted == Some(self.inner()),
    {
        Some(*self)
    }
}

/// Shared-owner adapter with a non-atomic count: extraction succeeds exactly
/// when this `Rc` was the last live owner. Either way the reference-count
/// bookkeeping of an ordinary drop happens, and nothing more.
impl<T> IntoOptionInner for Rc<T> {
    type Inner = T;

    open spec fn inner(&self) -> T {
        **self
    }

    fn into_option_inner(self) -> (extracted: Option<T>)
    {
        Rc::into_inner(self)
    }
}

/// Relies on `std::sync::Arc::into_inner`: the owned value comes back when
/// this was the last owner (the decrement-and-check is the container's own
/// linearizable primitive), and otherwise only the count is decremented.
#[verifier::external_body]
fn arc_into_inner<T>(container: Arc<T>) -> (extracted: Option<T>)
    ensures
        extracted matches Some(value) ==> value == *container,
{
    Arc::into_inner(container)
}

/// Shared-owner adapter with an atomic count: extraction succeeds exactly
/// when this `Arc` was the last live owner.
impl<T> IntoOptionInner for Arc<T> {
    type Inner = T;

    open spec fn inner(&self) -> T {
        **self
    }

    fn into_option_inner(self) -> (extracted: Option<T>)
    {
        arc_into_inner(self)
    }
}

} // verus!
