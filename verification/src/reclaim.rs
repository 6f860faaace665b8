//! The reclaimed-handle primitive and the atomic swap cell.
//!
//! Shared ownership with deferred collection comes from the `basedrop` crate:
//! a [`basedrop::Shared`] is a reference-counted handle whose allocation, when
//! the last handle is dropped, is queued on its [`basedrop::Collector`] rather
//! than freed in place; only `Collector::collect`, run from the reclamation
//! domain, frees queued allocations. A [`basedrop::SharedCell`] is a
//! single-slot holder of such a handle, written by the control domain and read
//! by the render domain without blocking on either side.
//!
//! The contracts below track the value a cell or handle carries through the
//! one copy the control domain owns; a clone handed to the render domain gets
//! no such contract, since the slot it reads is shared with the writer.

use vstd::prelude::*;

use crate::graph_interface::{GraphSnapshot, GraphSnapshotView};
use crate::pcm::{AnyPcm, PcmView};

verus! {

#[verifier::external_type_specification]
#[verifier::external_body]
pub struct ExCollector(basedrop::Collector);

#[verifier::external_type_specification]
#[verifier::external_body]
pub struct ExHandle(basedrop::Handle);

#[verifier::external_type_specification]
#[verifier::external_body]
#[verifier::reject_recursive_types(T)]
pub struct ExShared<T>(basedrop::Shared<T>);

#[verifier::external_type_specification]
#[verifier::external_body]
#[verifier::reject_recursive_types(T)]
pub struct ExSharedCell<T>(basedrop::SharedCell<T>);

/// The identity of the allocation behind a buffer handle: two handles carry
/// the same identity exactly when they were cloned from one allocation.
pub uninterp spec fn shared_pcm_id(s: &basedrop::Shared<AnyPcm>) -> int;

/// The sample data behind a buffer handle.
pub uninterp spec fn shared_pcm_view(s: &basedrop::Shared<AnyPcm>) -> PcmView;

/// The snapshot behind a render-domain snapshot handle.
pub uninterp spec fn shared_snapshot_view(s: &basedrop::Shared<GraphSnapshot>) -> GraphSnapshotView;

/// The snapshot currently stored in a swap cell, tracked through the control
/// domain's copy of the cell handle.
pub uninterp spec fn cell_snapshot(c: &basedrop::Shared<basedrop::SharedCell<GraphSnapshot>>) -> GraphSnapshotView;

/// Relies on basedrop::Collector::new: a fresh collector with an empty drop
/// queue.
#[verifier::external_body]
pub(crate) fn collector_new() -> basedrop::Collector {
    basedrop::Collector::new()
}

/// Relies on basedrop::Collector::handle: an allocation handle tied to this
/// collector.
#[verifier::external_body]
pub(crate) fn collector_handle(c: &basedrop::Collector) -> basedrop::Handle {
    c.handle()
}

/// Relies on basedrop::Collector::collect: drops every allocation in the
/// queue, that is every allocation whose last handle has been dropped.
#[verifier::external_body]
pub(crate) fn collector_collect(c: &mut basedrop::Collector) {
    c.collect()
}

/// Relies on basedrop::Handle::clone: a second handle to the same collector.
#[verifier::external_body]
pub(crate) fn handle_clone(h: &basedrop::Handle) -> basedrop::Handle {
    h.clone()
}

/// Relies on basedrop::Shared::new: moves the buffer into a fresh
/// reference-counted allocation and returns its first handle.
#[verifier::external_body]
pub(crate) fn shared_pcm_new(h: &basedrop::Handle, data: AnyPcm) -> (s: basedrop::Shared<AnyPcm>)
    ensures
        shared_pcm_view(&s) == data@,
{
    basedrop::Shared::new(h, data)
}

/// Relies on basedrop::Shared::clone: a second handle to the same allocation;
/// the reference count is incremented and nothing is copied.
#[verifier::external_body]
pub(crate) fn shared_pcm_clone(s: &basedrop::Shared<AnyPcm>) -> (r: basedrop::Shared<AnyPcm>)
    ensures
        shared_pcm_id(&r) == shared_pcm_id(s),
        shared_pcm_view(&r) == shared_pcm_view(s),
{
    s.clone()
}

/// Relies on std::ops::Deref for basedrop::Shared: a borrow of the buffer
/// behind the handle.
#[verifier::external_body]
pub(crate) fn shared_pcm_get(s: &basedrop::Shared<AnyPcm>) -> (r: &AnyPcm)
    ensures
        r@ == shared_pcm_view(s),
{
    &**s
}

/// Relies on basedrop::Shared::get_mut, which returns `Some` exactly when the
/// argument is the only live handle to its allocation. The outcome depends on
/// what other handles the process holds, so nothing more is stated.
#[verifier::external_body]
pub(crate) fn shared_pcm_is_unique(s: &mut basedrop::Shared<AnyPcm>) -> (b: bool)
    ensures
        shared_pcm_id(final(s)) == shared_pcm_id(old(s)),
        shared_pcm_view(final(s)) == shared_pcm_view(old(s)),
{
    basedrop::Shared::get_mut(s).is_some()
}

/// Relies on std::ops::Deref for basedrop::Shared: two handles borrow the
/// same address exactly when they share one live allocation.
#[verifier::external_body]
pub(crate) fn shared_pcm_same(a: &basedrop::Shared<AnyPcm>, b: &basedrop::Shared<AnyPcm>) -> (r: bool)
    ensures
        r == (shared_pcm_id(a) == shared_pcm_id(b)),
{
    core::ptr::eq(&**a, &**b)
}

/// Relies on basedrop::Shared::new and basedrop::SharedCell::new: the new
/// cell's slot holds a handle to the given snapshot.
#[verifier::external_body]
pub(crate) fn cell_new(
    h: &basedrop::Handle,
    g: GraphSnapshot,
) -> (c: basedrop::Shared<basedrop::SharedCell<GraphSnapshot>>)
    ensures
        cell_snapshot(&c) == g@,
{
    basedrop::Shared::new(h, basedrop::SharedCell::new(basedrop::Shared::new(h, g)))
}

/// Relies on basedrop::Shared::clone: a second handle to the same cell, made
/// to be handed to the render domain. The slot is shared with the control
/// domain's writer, so nothing is stated of what this copy will read.
#[verifier::external_body]
pub(crate) fn cell_clone(
    c: &basedrop::Shared<basedrop::SharedCell<GraphSnapshot>>,
) -> basedrop::Shared<basedrop::SharedCell<GraphSnapshot>> {
    c.clone()
}

/// Relies on basedrop::Shared::new and basedrop::SharedCell::set: replaces
/// the slot's handle with a handle to `g`; the superseded handle is dropped,
/// which queues its allocation on the collector once no clone of it is left.
#[verifier::external_body]
pub(crate) fn cell_publish(
    c: &mut basedrop::Shared<basedrop::SharedCell<GraphSnapshot>>,
    h: &basedrop::Handle,
    g: GraphSnapshot,
)
    ensures
        cell_snapshot(final(c)) == g@,
{
    c.set(basedrop::Shared::new(h, g));
}

/// Relies on basedrop::SharedCell::get: a clone of the handle currently in
/// the slot, taken without blocking the writer.
#[verifier::external_body]
pub(crate) fn cell_load(
    c: &basedrop::Shared<basedrop::SharedCell<GraphSnapshot>>,
) -> (s: basedrop::Shared<GraphSnapshot>)
    ensures
        shared_snapshot_view(&s) == cell_snapshot(c),
{
    c.get()
}

/// Relies on std::ops::Deref for basedrop::Shared: a borrow of the snapshot
/// behind the handle.
#[verifier::external_body]
pub(crate) fn snapshot_get(s: &basedrop::Shared<GraphSnapshot>) -> (r: &GraphSnapshot)
    ensures
        r@ == shared_snapshot_view(s),
{
    &**s
}

/// True exactly when the two handles share one buffer allocation.
pub fn same_pcm_buffer(a: &basedrop::Shared<AnyPcm>, b: &basedrop::Shared<AnyPcm>) -> (r: bool)
    ensures
        r == (shared_pcm_id(a) == shared_pcm_id(b)),
{
    shared_pcm_same(a, b)
}

/// The sample data behind a buffer handle.
pub fn pcm_contents(s: &basedrop::Shared<AnyPcm>) -> (r: &AnyPcm)
    ensures
        r@ == shared_pcm_view(s),
{
    shared_pcm_get(s)
}

/// The render domain's read of the swap cell: a clone of the handle to the
/// currently published snapshot, taken without blocking the publisher.
pub fn load_published_snapshot(
    c: &basedrop::Shared<basedrop::SharedCell<GraphSnapshot>>,
) -> (s: basedrop::Shared<GraphSnapshot>)
    ensures
        shared_snapshot_view(&s) == cell_snapshot(c),
{
    cell_load(c)
}

/// The snapshot behind a render-domain handle.
pub fn snapshot_contents(s: &basedrop::Shared<GraphSnapshot>) -> (r: &GraphSnapshot)
    ensures
        r@ == shared_snapshot_view(s),
{
    snapshot_get(s)
}

} // verus!
