//! A single chunk of the catalog: its stage, its lifecycle action and its
//! statistics.

use crate::addr::ChunkAddr;
use crate::time::Timestamp;
use vstd::prelude::*;

verus! {

/// Rows buffered by the write path, not yet frozen.
#[derive(Debug)]
pub struct MutableBufferChunk {
    pub table_name: String,
    pub row_count: u64,
}

/// An immutable, read-optimised copy of a chunk's rows.
#[derive(Debug)]
pub struct ReadBufferChunk {
    pub row_count: u64,
}

/// A reference to a chunk persisted in object storage.
#[derive(Debug)]
pub struct ParquetChunk {
    pub table_name: String,
    pub path: String,
    pub row_count: u64,
}

/// The column names of a frozen chunk.
#[derive(Debug)]
pub struct Schema {
    pub columns: Vec<String>,
}

/// A delete that still has to be applied to a chunk's rows.
#[derive(Debug)]
pub struct DeletePredicate {
    pub expr: String,
}

/// The physical representation of a chunk.
#[derive(Debug)]
pub enum ChunkStage {
    /// Mutable rows of the write buffer.
    Open { mb_chunk: MutableBufferChunk },
    /// Immutable, read-optimised rows.
    Frozen {
        rb_chunk: ReadBufferChunk,
        schema: Schema,
        delete_predicates: Vec<DeletePredicate>,
    },
    /// Rows persisted in object storage only.
    ObjectStoreOnly { parquet_chunk: ParquetChunk, delete_predicates: Vec<DeletePredicate> },
}

impl ChunkStage {
    /// Position of the stage in the one-way order Open, Frozen, ObjectStoreOnly.
    pub open spec fn rank(&self) -> int {
        match self {
            ChunkStage::Open { .. } => 0,
            ChunkStage::Frozen { .. } => 1,
            ChunkStage::ObjectStoreOnly { .. } => 2,
        }
    }

    /// Number of rows held in this stage.
    pub open spec fn rows(&self) -> u64 {
        match self {
            ChunkStage::Open { mb_chunk } => mb_chunk.row_count,
            ChunkStage::Frozen { rb_chunk, .. } => rb_chunk.row_count,
            ChunkStage::ObjectStoreOnly { parquet_chunk, .. } => parquet_chunk.row_count,
        }
    }

    pub fn is_open(&self) -> (r: bool)
        ensures
            r == (self.rank() == 0),
    {
        match self {
            ChunkStage::Open { .. } => true,
            _ => false,
        }
    }

    pub fn row_count(&self) -> (r: u64)
        ensures
            r == self.rows(),
    {
        match self {
            ChunkStage::Open { mb_chunk } => mb_chunk.row_count,
            ChunkStage::Frozen { rb_chunk, .. } => rb_chunk.row_count,
            ChunkStage::ObjectStoreOnly { parquet_chunk, .. } => parquet_chunk.row_count,
        }
    }
}

/// The kind of a lifecycle operation in flight on a chunk.
#[derive(Clone, Copy, Debug, PartialEq, Eq, Structural)]
pub enum ChunkLifecycleAction {
    Persisting,
    Compacting,
    Dropping,
}

/// Failures of a chunk's stage transitions and lifecycle guard.
#[derive(Debug)]
pub enum ChunkError {
    /// Another lifecycle action already owns the chunk.
    LifecycleInProgress { chunk: ChunkAddr, action: ChunkLifecycleAction },
    /// The chunk is not in the stage the transition starts from.
    UnexpectedStage { chunk: ChunkAddr, storage: ChunkStorage },
}

/// Where a chunk's rows are held, as a summary reports it.
#[derive(Clone, Copy, Debug, PartialEq, Eq, Structural)]
pub enum ChunkStorage {
    OpenMutableBuffer,
    ReadBuffer,
    ObjectStoreOnly,
}

/// The storage that each stage reports.
pub open spec fn storage_of(stage: ChunkStage) -> ChunkStorage {
    match stage {
        ChunkStage::Open { .. } => ChunkStorage::OpenMutableBuffer,
        ChunkStage::Frozen { .. } => ChunkStorage::ReadBuffer,
        ChunkStage::ObjectStoreOnly { .. } => ChunkStorage::ObjectStoreOnly,
    }
}

/// What a chunk reports of itself.
#[derive(Debug, PartialEq, Eq)]
pub struct ChunkSummary {
    pub partition_key: String,
    pub table_name: String,
    pub id: u32,
    pub storage: ChunkStorage,
    pub lifecycle_action: Option<ChunkLifecycleAction>,
    pub row_count: u64,
    pub order: u32,
    pub time_of_first_write: Timestamp,
    pub time_of_last_write: Timestamp,
}

/// Statistics of the rows of one table in one chunk.
#[derive(Debug, PartialEq, Eq)]
pub struct TableSummary {
    pub name: String,
    pub row_count: u64,
}

/// One chunk of a partition.
#[derive(Debug)]
pub struct CatalogChunk {
    addr: ChunkAddr,
    stage: ChunkStage,
    lifecycle_action: Option<ChunkLifecycleAction>,
    order: u32,
    time_of_first_write: Timestamp,
    time_of_last_write: Timestamp,
}

impl CatalogChunk {
    pub closed spec fn spec_addr(&self) -> ChunkAddr {
        self.addr
    }

    pub closed spec fn spec_stage(&self) -> ChunkStage {
        self.stage
    }

    pub closed spec fn spec_action(&self) -> Option<ChunkLifecycleAction> {
        self.lifecycle_action
    }

    pub closed spec fn spec_order(&self) -> u32 {
        self.order
    }

    pub closed spec fn spec_first_write(&self) -> Timestamp {
        self.time_of_first_write
    }

    pub closed spec fn spec_last_write(&self) -> Timestamp {
        self.time_of_last_write
    }

    pub open spec fn spec_id(&self) -> u32 {
        self.spec_addr().chunk_id
    }

    /// A chunk in the open stage, holding the rows of the write buffer.
    pub fn new_open(
        addr: ChunkAddr,
        mb_chunk: MutableBufferChunk,
        time_of_write: Timestamp,
        order: u32,
    ) -> (r: CatalogChunk)
        ensures
            r.spec_addr() == addr,
            r.spec_stage() == (ChunkStage::Open { mb_chunk }),
            r.spec_action().is_none(),
            r.spec_order() == order,
            r.spec_first_write() == time_of_write,
            r.spec_last_write() == time_of_write,
    {
        CatalogChunk {
            addr,
            stage: ChunkStage::Open { mb_chunk },
            lifecycle_action: None,
            order,
            time_of_first_write: time_of_write,
            time_of_last_write: time_of_write,
        }
    }

    /// A chunk in the frozen stage, holding read-optimised rows.
    pub fn new_rub_chunk(
        addr: ChunkAddr,
        rb_chunk: ReadBufferChunk,
        time_of_first_write: Timestamp,
        time_of_last_write: Timestamp,
        schema: Schema,
        delete_predicates: Vec<DeletePredicate>,
        order: u32,
    ) -> (r: CatalogChunk)
        ensures
            r.spec_addr() == addr,
            r.spec_stage() == (ChunkStage::Frozen { rb_chunk, schema, delete_predicates }),
            r.spec_action().is_none(),
            r.spec_order() == order,
            r.spec_first_write() == time_of_first_write,
            r.spec_last_write() == time_of_last_write,
    {
        CatalogChunk {
            addr,
            stage: ChunkStage::Frozen { rb_chunk, schema, delete_predicates },
            lifecycle_action: None,
            order,
            time_of_first_write,
            time_of_last_write,
        }
    }

    /// A chunk that exists in object storage only.
    pub fn new_object_store_only(
        addr: ChunkAddr,
        parquet_chunk: ParquetChunk,
        time_of_first_write: Timestamp,
        time_of_last_write: Timestamp,
        delete_predicates: Vec<DeletePredicate>,
        order: u32,
    ) -> (r: CatalogChunk)
        ensures
            r.spec_addr() == addr,
            r.spec_stage() == (ChunkStage::ObjectStoreOnly { parquet_chunk, delete_predicates }),
            r.spec_action().is_none(),
            r.spec_order() == order,
            r.spec_first_write() == time_of_first_write,
            r.spec_last_write() == time_of_last_write,
    {
        CatalogChunk {
            addr,
            stage: ChunkStage::ObjectStoreOnly { parquet_chunk, delete_predicates },
            lifecycle_action: None,
            order,
            time_of_first_write,
            time_of_last_write,
        }
    }

    pub fn id(&self) -> (r: u32)
        ensures
            r == self.spec_id(),
    {
        self.addr.chunk_id
    }

    pub fn addr(&self) -> (r: &ChunkAddr)
        ensures
            *r == self.spec_addr(),
    {
        &self.addr
    }

    pub fn stage(&self) -> (r: &ChunkStage)
        ensures
            *r == self.spec_stage(),
    {
        &self.stage
    }

    pub fn order(&self) -> (r: u32)
        ensures
            r == self.spec_order(),
    {
        self.order
    }

    pub fn lifecycle_action(&self) -> (r: Option<ChunkLifecycleAction>)
        ensures
            r == self.spec_action(),
    {
        self.lifecycle_action
    }

    pub fn time_of_first_write(&self) -> (r: Timestamp)
        ensures
            r == self.spec_first_write(),
    {
        self.time_of_first_write
    }

    pub fn time_of_last_write(&self) -> (r: Timestamp)
        ensures
            r == self.spec_last_write(),
    {
        self.time_of_last_write
    }

    /// The statistics of this chunk's table.
    pub fn table_summary(&self) -> (r: TableSummary)
        ensures
            r.name == self.spec_addr().table_name,
            r.row_count == self.spec_stage().rows(),
    {
        TableSummary { name: self.addr.table_name.clone(), row_count: self.stage.row_count() }
    }

    /// Claims the chunk for `action`. Fails while another action owns it; a
    /// second drop over a drop in flight is accepted.
    pub fn set_lifecycle_action(&mut self, action: ChunkLifecycleAction) -> (r: Result<
        (),
        ChunkError,
    >)
        ensures
            final(self).spec_addr() == old(self).spec_addr(),
            final(self).spec_stage() == old(self).spec_stage(),
            final(self).spec_order() == old(self).spec_order(),
            final(self).spec_first_write() == old(self).spec_first_write(),
            final(self).spec_last_write() == old(self).spec_last_write(),
            r is Ok <==> (old(self).spec_action().is_none() || (old(self).spec_action()
                == Some(ChunkLifecycleAction::Dropping) && action
                == ChunkLifecycleAction::Dropping)),
            r is Ok ==> final(self).spec_action() == Some(action),
            r is Err ==> *final(self) == *old(self),
            r matches Err(e) ==> final(self).spec_action() == old(self).spec_action() && e == (
            ChunkError::LifecycleInProgress {
                chunk: old(self).spec_addr(),
                action: old(self).spec_action().unwrap(),
            }),
    {
        match self.lifecycle_action {
            Some(current) => {
                if current == ChunkLifecycleAction::Dropping && action
                    == ChunkLifecycleAction::Dropping {
                    Ok(())
                } else {
                    Err(ChunkError::LifecycleInProgress { chunk: self.addr.duplicate(), action: current })
                }
            },
            None => {
                self.lifecycle_action = Some(action);
                Ok(())
            },
        }
    }

    /// Releases the chunk from whatever action owned it.
    pub fn clear_lifecycle_action(&mut self)
        ensures
            final(self).spec_action().is_none(),
            final(self).spec_addr() == old(self).spec_addr(),
            final(self).spec_stage() == old(self).spec_stage(),
            final(self).spec_order() == old(self).spec_order(),
            final(self).spec_first_write() == old(self).spec_first_write(),
            final(self).spec_last_write() == old(self).spec_last_write(),
    {
        self.lifecycle_action = None;
    }

    /// Moves an open chunk to the frozen stage, holding `rb_chunk`.
    pub fn freeze(&mut self, rb_chunk: ReadBufferChunk, schema: Schema) -> (r: Result<(), ChunkError>)
        ensures
            final(self).spec_addr() == old(self).spec_addr(),
            final(self).spec_action() == old(self).spec_action(),
            final(self).spec_order() == old(self).spec_order(),
            final(self).spec_first_write() == old(self).spec_first_write(),
            final(self).spec_last_write() == old(self).spec_last_write(),
            r is Ok <==> old(self).spec_stage().rank() == 0,
            r is Ok ==> (final(self).spec_stage() matches ChunkStage::Frozen {
                rb_chunk: b,
                schema: s,
                delete_predicates: d,
            } && b == rb_chunk && s == schema && d@.len() == 0),
            r matches Err(e) ==> final(self).spec_stage() == old(self).spec_stage() && e == (
            ChunkError::UnexpectedStage {
                chunk: old(self).spec_addr(),
                storage: storage_of(old(self).spec_stage()),
            }),
    {
        match self.stage {
            ChunkStage::Open { .. } => {
                self.stage = ChunkStage::Frozen { rb_chunk, schema, delete_predicates: Vec::new() };
                Ok(())
            },
            ChunkStage::Frozen { .. } => Err(
                ChunkError::UnexpectedStage {
                    chunk: self.addr.duplicate(),
                    storage: ChunkStorage::ReadBuffer,
                },
            ),
            ChunkStage::ObjectStoreOnly { .. } => Err(
                ChunkError::UnexpectedStage {
                    chunk: self.addr.duplicate(),
                    storage: ChunkStorage::ObjectStoreOnly,
                },
            ),
        }
    }

    pub fn storage(&self) -> (r: ChunkStorage)
        ensures
            r == storage_of(self.spec_stage()),
    {
        match self.stage {
            ChunkStage::Open { .. } => ChunkStorage::OpenMutableBuffer,
            ChunkStage::Frozen { .. } => ChunkStorage::ReadBuffer,
            ChunkStage::ObjectStoreOnly { .. } => ChunkStorage::ObjectStoreOnly,
        }
    }

    /// What this chunk reports of itself.
    pub fn summary(&self) -> (r: ChunkSummary)
        ensures
            r.partition_key == self.spec_addr().partition_key,
            r.table_name == self.spec_addr().table_name,
            r.id == self.spec_id(),
            r.storage == storage_of(self.spec_stage()),
            r.lifecycle_action == self.spec_action(),
            r.row_count == self.spec_stage().rows(),
            r.order == self.spec_order(),
            r.time_of_first_write == self.spec_first_write(),
            r.time_of_last_write == self.spec_last_write(),
    {
        ChunkSummary {
            partition_key: self.addr.partition_key.clone(),
            table_name: self.addr.table_name.clone(),
            id: self.addr.chunk_id,
            storage: self.storage(),
            lifecycle_action: self.lifecycle_action,
            row_count: self.stage.row_count(),
            order: self.order,
            time_of_first_write: self.time_of_first_write,
            time_of_last_write: self.time_of_last_write,
        }
    }

    /// Moves a frozen chunk to object storage only, as `parquet_chunk`; the
    /// deletes still to be applied stay with it.
    pub fn set_object_store_only(&mut self, parquet_chunk: ParquetChunk) -> (r: Result<(), ChunkError>)
        ensures
            final(self).spec_addr() == old(self).spec_addr(),
            final(self).spec_action() == old(self).spec_action(),
            final(self).spec_order() == old(self).spec_order(),
            final(self).spec_first_write() == old(self).spec_first_write(),
            final(self).spec_last_write() == old(self).spec_last_write(),
            r is Ok <==> old(self).spec_stage().rank() == 1,
            r is Ok ==> (old(self).spec_stage() matches ChunkStage::Frozen {
                delete_predicates: d,
                ..
            } && final(self).spec_stage() == (ChunkStage::ObjectStoreOnly {
                parquet_chunk,
                delete_predicates: d,
            })),
            r matches Err(e) ==> final(self).spec_stage() == old(self).spec_stage() && e == (
            ChunkError::UnexpectedStage {
                chunk: old(self).spec_addr(),
                storage: storage_of(old(self).spec_stage()),
            }),
    {
        match self.stage {
            ChunkStage::Frozen { .. } => {
                let mut taken = ChunkStage::Open {
                    mb_chunk: MutableBufferChunk { table_name: String::new(), row_count: 0 },
                };
                core::mem::swap(&mut self.stage, &mut taken);
                match taken {
                    ChunkStage::Frozen { delete_predicates, .. } => {
                        self.stage = ChunkStage::ObjectStoreOnly { parquet_chunk, delete_predicates };
                    },
                    other => {
                        self.stage = other;
                    },
                }
                Ok(())
            },
            ChunkStage::Open { .. } => Err(
                ChunkError::UnexpectedStage {
                    chunk: self.addr.duplicate(),
                    storage: ChunkStorage::OpenMutableBuffer,
                },
            ),
            ChunkStage::ObjectStoreOnly { .. } => Err(
                ChunkError::UnexpectedStage {
                    chunk: self.addr.duplicate(),
                    storage: ChunkStorage::ObjectStoreOnly,
                },
            ),
        }
    }
}

} // verus!
