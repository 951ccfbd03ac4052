//! The snapshot store: one cell that holds the published snapshot. Any
//! number of readers load it without waiting; one writer replaces it as a
//! whole.

use vstd::prelude::*;
use std::sync::Arc;
use crate::snapshot::{ContextSnapshot, SnapshotView, well_formed};

verus! {

/// The shared cell, an `arc_swap::ArcSwap`. Its content can change between
/// any two loads, so nothing is stated of it. Two handles belong to one
/// store when their cells are the same.
#[verifier::external_body]
pub struct SnapshotCell {
    inner: arc_swap::ArcSwap<ContextSnapshot>,
}

/// `ArcSwap::new`: a cell that holds `first`.
#[verifier::external_body]
fn cell_new(first: Arc<ContextSnapshot>) -> SnapshotCell {
    SnapshotCell { inner: arc_swap::ArcSwap::new(first) }
}

/// `ArcSwap::load_full`: the snapshot that the cell holds at this moment.
/// Which one that is depends on what the writer has stored by then.
#[verifier::external_body]
fn cell_load(cell: &SnapshotCell) -> Arc<ContextSnapshot> {
    cell.inner.load_full()
}

/// `ArcSwap::store`: replaces the cell's content as a whole.
#[verifier::external_body]
fn cell_store(cell: &SnapshotCell, next: Arc<ContextSnapshot>) {
    cell.inner.store(next)
}

/// A reader's handle to the store.
pub struct SnapshotReader {
    cell: Arc<SnapshotCell>,
}

impl Clone for SnapshotReader {
    /// One more handle to the same store.
    fn clone(&self) -> (r: Self)
        ensures
            r.store() == self.store(),
    {
        SnapshotReader { cell: self.cell.clone() }
    }
}

impl SnapshotReader {
    /// The store that this handle reads.
    pub closed spec fn store(&self) -> SnapshotCell {
        *self.cell
    }

    /// The snapshot published most recently. It never waits, and what it
    /// returns is a whole snapshot that stays as it is while the reader
    /// holds it, whatever the writer publishes meanwhile.
    pub fn load(&self) -> (r: Arc<ContextSnapshot>)
        ensures
            well_formed(r@),
    {
        let snapshot = cell_load(&self.cell);
        snapshot.fully_formed();
        snapshot
    }
}

/// The writer's handle to the store. There is one per store, so what it
/// published last is what the store holds.
pub struct SnapshotWriter {
    cell: Arc<SnapshotCell>,
    current: Arc<ContextSnapshot>,
}

impl SnapshotWriter {
    /// The snapshot published last.
    pub closed spec fn published(&self) -> SnapshotView {
        self.current@
    }

    /// A store that holds `initial`.
    pub fn new(initial: ContextSnapshot) -> (r: Self)
        ensures
            r.published() == initial@,
    {
        let current = Arc::new(initial);
        let cell = Arc::new(cell_new(current.clone()));
        SnapshotWriter { cell, current }
    }

    /// The store that this handle writes.
    pub closed spec fn store(&self) -> SnapshotCell {
        *self.cell
    }

    /// A handle for one more reader of this writer's store.
    pub fn reader(&self) -> (r: SnapshotReader)
        ensures
            r.store() == self.store(),
    {
        SnapshotReader { cell: self.cell.clone() }
    }

    /// The snapshot published last.
    pub fn current(&self) -> (r: &ContextSnapshot)
        ensures
            r@ == self.published(),
            well_formed(r@),
    {
        self.current.fully_formed();
        &self.current
    }

    /// Publishes `next` in place of the current snapshot, with one store.
    /// The writer stays with its store.
    pub fn publish(self, next: ContextSnapshot) -> (r: Self)
        ensures
            r.published() == next@,
            r.store() == self.store(),
    {
        let SnapshotWriter { cell, current: _ } = self;
        let current = Arc::new(next);
        cell_store(&cell, current.clone());
        SnapshotWriter { cell, current }
    }
}

} // verus!
