//! Iterative, heap-backed teardown for deeply recursive ownership structures.
//!
//! Destroying a recursive structure (a long list, a deep tree) by letting each
//! node's destructor destroy its children consumes one call-stack frame per
//! level of nesting and overflows the stack once the structure is deep enough.
//! This crate replaces that recursive descent with a work-list loop:
//!
//! * [`Recursive`] is the decomposition capability a recursive value type
//!   supplies: consume a value, hand back the containers it directly owns.
//! * [`IntoOptionInner`] is the extraction capability a container type
//!   supplies: consume a container, reclaim the owned value if this was the
//!   sole (or last) owner.
//! * [`FlatDrop`] holds one container and offers [`FlatDrop::teardown`], which
//!   dismantles the whole owned structure with a loop whose stack usage does
//!   not depend on the structure's depth, and which is proven to terminate.

mod capability;
mod wrapper;

pub use capability::lemma_shapes_size_append;
pub use capability::shape_size;
pub use capability::shapes_size;
pub use capability::IntoOptionInner;
pub use capability::Recursive;
pub use capability::Shape;
pub use wrapper::lemma_boxed_teardown_is_complete;
pub use wrapper::lemma_from_spec;
pub use wrapper::lemma_view_decreases;
pub use wrapper::lemma_wrap_then_unwrap;
pub use wrapper::FlatDrop;
