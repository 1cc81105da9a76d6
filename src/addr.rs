//! Addresses of partitions and of chunks.

use vstd::prelude::*;

verus! {

/// Identity of a partition: database, table and partition key.
#[derive(Debug, PartialEq, Eq)]
pub struct PartitionAddr {
    pub db_name: String,
    pub table_name: String,
    pub partition_key: String,
}

impl PartitionAddr {
    pub fn new(db_name: String, table_name: String, partition_key: String) -> (r: PartitionAddr)
        ensures
            r.db_name == db_name,
            r.table_name == table_name,
            r.partition_key == partition_key,
    {
        PartitionAddr { db_name, table_name, partition_key }
    }

    /// An equal, independently owned address.
    pub fn duplicate(&self) -> (r: PartitionAddr)
        ensures
            r == *self,
    {
        PartitionAddr {
            db_name: self.db_name.clone(),
            table_name: self.table_name.clone(),
            partition_key: self.partition_key.clone(),
        }
    }
}

/// Identity of a chunk: the address of its partition and its id there.
#[derive(Debug, PartialEq, Eq)]
pub struct ChunkAddr {
    pub db_name: String,
    pub table_name: String,
    pub partition_key: String,
    pub chunk_id: u32,
}

impl ChunkAddr {
    /// Whether this address names a chunk of the partition at `p`.
    pub open spec fn in_partition(&self, p: PartitionAddr) -> bool {
        &&& self.db_name == p.db_name
        &&& self.table_name == p.table_name
        &&& self.partition_key == p.partition_key
    }

    pub fn new(partition: &PartitionAddr, chunk_id: u32) -> (r: ChunkAddr)
        ensures
            r.in_partition(*partition),
            r.chunk_id == chunk_id,
    {
        ChunkAddr {
            db_name: partition.db_name.clone(),
            table_name: partition.table_name.clone(),
            partition_key: partition.partition_key.clone(),
            chunk_id,
        }
    }

    /// An equal, independently owned address.
    pub fn duplicate(&self) -> (r: ChunkAddr)
        ensures
            r == *self,
    {
        ChunkAddr {
            db_name: self.db_name.clone(),
            table_name: self.table_name.clone(),
            partition_key: self.partition_key.clone(),
            chunk_id: self.chunk_id,
        }
    }
}

} // verus!
