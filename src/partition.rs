//! The catalog of one partition: its chunks, ordered by id, the counters that
//! hand out chunk ids and chunk orders, and its ingest progress.

use crate::addr::{ChunkAddr, PartitionAddr};
use crate::chunk::{
    CatalogChunk, ChunkError, ChunkLifecycleAction, ChunkStage, ChunkSummary, DeletePredicate,
    MutableBufferChunk, ParquetChunk, ReadBufferChunk, Schema,
};
use crate::persistence_windows::{lists_map, OptionalMinMaxSequence, PersistenceWindows};
use crate::time::{now, Timestamp};
use vstd::prelude::*;

verus! {

/// Failures of partition operations.
#[derive(Debug)]
pub enum Error {
    /// No chunk with the address exists.
    ChunkNotFound { chunk: ChunkAddr },
    /// A lifecycle action in flight keeps the chunk from being dropped.
    LifecycleInProgress { chunk: ChunkAddr, action: ChunkLifecycleAction },
    /// The write buffer could not be made into a chunk.
    CreateOpenChunk { source: ChunkError },
}

/// The aggregate of the table summaries of every chunk of a partition.
#[derive(Debug, PartialEq, Eq)]
pub struct PartitionSummary {
    pub key: String,
    pub table_name: String,
    pub row_count: u128,
}

/// Ids of the chunks of `s`, in order.
pub open spec fn ids_of(s: Seq<CatalogChunk>) -> Seq<u32> {
    s.map_values(|c: CatalogChunk| c.spec_id())
}

/// Total number of rows of the chunks of `s`.
pub open spec fn total_rows(s: Seq<CatalogChunk>) -> int
    decreases s.len(),
{
    if s.len() == 0 {
        0
    } else {
        total_rows(s.drop_last()) + s.last().spec_stage().rows()
    }
}

/// Whether `id` is the id of a chunk of `s`.
pub open spec fn holds_id(s: Seq<CatalogChunk>, id: u32) -> bool {
    exists|i: int| 0 <= i < s.len() && #[trigger] s[i].spec_id() == id
}

/// The position in `s` of a chunk with id `id`, where there is one.
pub open spec fn position_of(s: Seq<CatalogChunk>, id: u32) -> int {
    choose|i: int| 0 <= i < s.len() && #[trigger] s[i].spec_id() == id
}

/// Whether `i` is the first position of `s` that holds an open chunk.
pub open spec fn first_open(s: Seq<CatalogChunk>, i: int) -> bool {
    &&& 0 <= i < s.len()
    &&& s[i].spec_stage().rank() == 0
    &&& forall|j: int| 0 <= j < i ==> #[trigger] s[j].spec_stage().rank() != 0
}

/// Whether `c` is a fresh chunk at `addr` in `stage`, with no action in flight.
pub open spec fn fresh_chunk(
    c: CatalogChunk,
    addr: ChunkAddr,
    stage: ChunkStage,
    order: u32,
    first_write: Timestamp,
    last_write: Timestamp,
) -> bool {
    &&& c.spec_addr() == addr
    &&& c.spec_stage() == stage
    &&& c.spec_action().is_none()
    &&& c.spec_order() == order
    &&& c.spec_first_write() == first_write
    &&& c.spec_last_write() == last_write
}

/// In a strictly ascending sequence of naturals, the entry at `i` is at
/// least `i`.
proof fn lemma_ascending_at_least(ids: Seq<u32>, i: int)
    requires
        0 <= i < ids.len(),
        forall|a: int, b: int| 0 <= a < b < ids.len() ==> ids[a] < ids[b],
    ensures
        ids[i] >= i,
    decreases i,
{
    if i > 0 {
        lemma_ascending_at_least(ids, i - 1);
    }
}

/// In a strictly ascending sequence below `bound`, the entry at `i` leaves
/// room above it for the entries after it.
proof fn lemma_ascending_at_most(ids: Seq<u32>, i: int, bound: int)
    requires
        0 <= i < ids.len(),
        forall|a: int, b: int| 0 <= a < b < ids.len() ==> ids[a] < ids[b],
        forall|a: int| 0 <= a < ids.len() ==> ids[a] < bound,
    ensures
        ids[i] <= bound - (ids.len() - i),
    decreases ids.len() - i,
{
    if i + 1 < ids.len() {
        lemma_ascending_at_most(ids, i + 1, bound);
    }
}

/// Takes the value of a counter and advances it by one.
fn pick_next(from: &mut u32) -> (r: u32)
    requires
        *old(from) < u32::MAX,
    ensures
        r == *old(from),
        *final(from) == r + 1,
{
    let next = *from;
    *from = next + 1;
    next
}

/// The chunks of one (database, table, partition key).
pub struct Partition {
    addr: PartitionAddr,
    /// Ascending by chunk id.
    chunks: Vec<CatalogChunk>,
    created_at: Timestamp,
    last_write_at: Timestamp,
    next_chunk_id: u32,
    persistence_windows: Option<PersistenceWindows>,
    next_chunk_order: u32,
    /// Every id that a chunk of this partition has had.
    issued_ids: Ghost<Set<u32>>,
    /// Every order that a chunk of this partition has had.
    assigned_orders: Ghost<Set<u32>>,
}

impl Partition {
    pub closed spec fn spec_addr(&self) -> PartitionAddr {
        self.addr
    }

    pub closed spec fn spec_chunks(&self) -> Seq<CatalogChunk> {
        self.chunks@
    }

    pub closed spec fn spec_created_at(&self) -> Timestamp {
        self.created_at
    }

    pub closed spec fn spec_last_write_at(&self) -> Timestamp {
        self.last_write_at
    }

    pub closed spec fn spec_next_chunk_id(&self) -> u32 {
        self.next_chunk_id
    }

    pub closed spec fn spec_next_chunk_order(&self) -> u32 {
        self.next_chunk_order
    }

    pub closed spec fn spec_windows(&self) -> Option<PersistenceWindows> {
        self.persistence_windows
    }

    /// Every id that a chunk of this partition has had, dropped ones included.
    pub closed spec fn issued_ids(&self) -> Set<u32> {
        self.issued_ids@
    }

    /// Every order that a chunk of this partition has had.
    pub closed spec fn assigned_orders(&self) -> Set<u32> {
        self.assigned_orders@
    }

    pub open spec fn chunk_ids(&self) -> Seq<u32> {
        ids_of(self.spec_chunks())
    }

    /// Ids ascend; each chunk belongs here; both counters lie above every id
    /// and order ever used.
    pub closed spec fn wf(&self) -> bool {
        &&& forall|i: int, j: int|
            0 <= i < j < self.chunks@.len() ==> self.chunks@[i].spec_id()
                < self.chunks@[j].spec_id()
        &&& forall|i: int|
            0 <= i < self.chunks@.len() ==> {
                &&& (#[trigger] self.chunks@[i]).spec_addr().in_partition(self.addr)
                &&& self.issued_ids@.contains(self.chunks@[i].spec_id())
                &&& self.assigned_orders@.contains(self.chunks@[i].spec_order())
            }
        &&& forall|id: u32| #[trigger] self.issued_ids@.contains(id) ==> id < self.next_chunk_id
        &&& forall|o: u32| #[trigger] self.assigned_orders@.contains(o) ==> o < self.next_chunk_order
    }

    /// Everything but the chunks and the counters is as in `other`.
    pub open spec fn same_settings(&self, other: &Partition) -> bool {
        &&& self.spec_addr() == other.spec_addr()
        &&& self.spec_created_at() == other.spec_created_at()
        &&& self.spec_last_write_at() == other.spec_last_write_at()
        &&& self.spec_windows() == other.spec_windows()
    }

    /// Everything but the ingest progress is as in `other`.
    pub open spec fn same_settings_but_windows(&self, other: &Partition) -> bool {
        &&& self.spec_addr() == other.spec_addr()
        &&& self.spec_created_at() == other.spec_created_at()
        &&& self.spec_last_write_at() == other.spec_last_write_at()
        &&& self.spec_chunks() == other.spec_chunks()
        &&& self.spec_next_chunk_id() == other.spec_next_chunk_id()
        &&& self.spec_next_chunk_order() == other.spec_next_chunk_order()
        &&& self.issued_ids() == other.issued_ids()
        &&& self.assigned_orders() == other.assigned_orders()
    }

    /// Chunk ids ascend strictly, and the id counter and the order counter
    /// lie above every id and every order that a chunk of the partition ever
    /// had, so that the next ones handed out are fresh.
    pub proof fn lemma_counters_above_all(&self)
        requires
            self.wf(),
        ensures
            forall|i: int, j: int|
                0 <= i < j < self.chunk_ids().len() ==> self.chunk_ids()[i] < self.chunk_ids()[j],
            forall|i: int|
                0 <= i < self.chunk_ids().len() ==> self.issued_ids().contains(
                    #[trigger] self.chunk_ids()[i],
                ),
            forall|id: u32| #[trigger] self.issued_ids().contains(id) ==> id < self.spec_next_chunk_id(),
            forall|o: u32|
                #[trigger] self.assigned_orders().contains(o) ==> o < self.spec_next_chunk_order(),
            forall|i: int|
                0 <= i < self.spec_chunks().len() ==> self.assigned_orders().contains(
                    (#[trigger] self.spec_chunks()[i]).spec_order(),
                ),
            forall|i: int|
                0 <= i < self.spec_chunks().len() ==> (#[trigger] self.spec_chunks()[i]).spec_addr().in_partition(
                    self.spec_addr(),
                ),
            !self.issued_ids().contains(self.spec_next_chunk_id()),
            !self.assigned_orders().contains(self.spec_next_chunk_order()),
    {
        assert forall|i: int|
            0 <= i < self.chunk_ids().len() implies self.issued_ids().contains(
            #[trigger] self.chunk_ids()[i],
        ) by {
            assert(self.chunks@[i].spec_addr().in_partition(self.addr));
        }
        assert forall|i: int|
            0 <= i < self.spec_chunks().len() implies self.assigned_orders().contains(
            (#[trigger] self.spec_chunks()[i]).spec_order(),
        ) by {
            assert(self.chunks@[i].spec_addr().in_partition(self.addr));
        }
    }

    /// A partition that holds as many chunks as ids were handed out (one
    /// whose chunks were all created in turn and none dropped) holds exactly
    /// the ids 0, 1, ..., n - 1, in that order.
    pub proof fn lemma_dense_ids(&self)
        requires
            self.wf(),
            self.spec_chunks().len() == self.spec_next_chunk_id(),
        ensures
            forall|i: int| 0 <= i < self.chunk_ids().len() ==> #[trigger] self.chunk_ids()[i] == i,
    {
        self.lemma_counters_above_all();
        let ids = self.chunk_ids();
        assert forall|i: int| 0 <= i < ids.len() implies #[trigger] ids[i] == i by {
            lemma_ascending_at_least(ids, i);
            lemma_ascending_at_most(ids, i, self.spec_next_chunk_id() as int);
        }
    }

    /// A partition that went from empty through chunk creations alone, each
    /// adding one chunk and taking one id, as `new` followed by calls of
    /// `create_open_chunk` or `create_rub_chunk` does, holds the ids
    /// 0, 1, ..., n - 1 in that order after n creations.
    pub proof fn lemma_created_in_turn(states: Seq<Partition>)
        requires
            states.len() >= 1,
            forall|i: int| 0 <= i < states.len() ==> (#[trigger] states[i]).wf(),
            states[0].spec_chunks().len() == 0,
            states[0].spec_next_chunk_id() == 0,
            forall|i: int|
                0 <= i < states.len() - 1 ==> states[i + 1].spec_chunks().len() == (
                #[trigger] states[i]).spec_chunks().len() + 1 && states[i + 1].spec_next_chunk_id()
                    == states[i].spec_next_chunk_id() + 1,
        ensures
            states.last().spec_chunks().len() == states.len() - 1,
            states.last().spec_next_chunk_id() == states.len() - 1,
            forall|k: int|
                0 <= k < states.last().chunk_ids().len() ==> #[trigger] states.last().chunk_ids()[k]
                    == k,
        decreases states.len(),
    {
        if states.len() > 1 {
            let prefix = states.drop_last();
            assert forall|i: int| 0 <= i < prefix.len() - 1 implies prefix[i + 1].spec_chunks().len()
                == (#[trigger] prefix[i]).spec_chunks().len() + 1 && prefix[i + 1].spec_next_chunk_id()
                == prefix[i].spec_next_chunk_id() + 1 by {
                assert(prefix[i] == states[i]);
                assert(prefix[i + 1] == states[i + 1]);
            }
            Self::lemma_created_in_turn(prefix);
            assert(prefix.last() == states[states.len() - 2]);
        }
        states.last().lemma_dense_ids();
    }

    /// An empty partition at `addr`, created now.
    pub fn new(addr: PartitionAddr) -> (r: Partition)
        ensures
            r.wf(),
            r.spec_addr() == addr,
            r.spec_chunks().len() == 0,
            r.spec_next_chunk_id() == 0,
            r.spec_next_chunk_order() == 0,
            r.issued_ids().is_empty(),
            r.assigned_orders().is_empty(),
            r.spec_created_at() == r.spec_last_write_at(),
            r.spec_windows().is_none(),
    {
        let t = now();
        Partition {
            addr,
            chunks: Vec::new(),
            created_at: t,
            last_write_at: t,
            next_chunk_id: 0,
            persistence_windows: None,
            next_chunk_order: 0,
            issued_ids: Ghost(Set::empty()),
            assigned_orders: Ghost(Set::empty()),
        }
    }

    /// Appends a chunk whose id is the next one; the counters must already be
    /// past its id and order.
    fn push_fresh(&mut self, chunk: CatalogChunk)
        requires
            old(self).wf(),
            chunk.spec_addr().in_partition(old(self).addr),
            chunk.spec_id() < old(self).next_chunk_id,
            chunk.spec_order() < old(self).next_chunk_order,
            forall|id: u32| #[trigger] old(self).issued_ids@.contains(id) ==> id < chunk.spec_id(),
        ensures
            final(self).wf(),
            final(self).same_settings(old(self)),
            final(self).chunks@ == old(self).chunks@.push(chunk),
            final(self).next_chunk_id == old(self).next_chunk_id,
            final(self).next_chunk_order == old(self).next_chunk_order,
            final(self).issued_ids@ == old(self).issued_ids@.insert(chunk.spec_id()),
            final(self).assigned_orders@ == old(self).assigned_orders@.insert(chunk.spec_order()),
    {
        let ghost id = chunk.spec_id();
        let ghost order = chunk.spec_order();
        proof {
            assert forall|i: int| 0 <= i < self.chunks@.len() implies self.chunks@[i].spec_id() < id by {
                assert(self.chunks@[i].spec_addr().in_partition(self.addr));
            }
        }
        self.chunks.push(chunk);
        self.issued_ids = Ghost(self.issued_ids@.insert(id));
        self.assigned_orders = Ghost(self.assigned_orders@.insert(order));
        assert forall|i: int| 0 <= i < self.chunks@.len() implies {
            &&& (#[trigger] self.chunks@[i]).spec_addr().in_partition(self.addr)
            &&& self.issued_ids@.contains(self.chunks@[i].spec_id())
            &&& self.assigned_orders@.contains(self.chunks@[i].spec_order())
        } by {
            if i < self.chunks@.len() - 1 {
                assert(old(self).chunks@[i] == self.chunks@[i]);
            }
        }
    }

    /// Creates a chunk in the open stage from the write buffer `chunk`, with
    /// the next chunk id and the next chunk order.
    pub fn create_open_chunk(&mut self, chunk: MutableBufferChunk, time_of_write: Timestamp) -> (r:
        ChunkAddr)
        requires
            old(self).wf(),
            chunk.table_name == old(self).spec_addr().table_name,
            old(self).spec_next_chunk_id() < u32::MAX,
            old(self).spec_next_chunk_order() < u32::MAX,
        ensures
            final(self).wf(),
            final(self).same_settings(old(self)),
            r.in_partition(old(self).spec_addr()),
            r.chunk_id == old(self).spec_next_chunk_id(),
            !old(self).issued_ids().contains(r.chunk_id),
            final(self).spec_next_chunk_id() == old(self).spec_next_chunk_id() + 1,
            final(self).spec_next_chunk_order() == old(self).spec_next_chunk_order() + 1,
            final(self).issued_ids() == old(self).issued_ids().insert(r.chunk_id),
            final(self).assigned_orders() == old(self).assigned_orders().insert(
                old(self).spec_next_chunk_order(),
            ),
            final(self).spec_chunks().len() == old(self).spec_chunks().len() + 1,
            final(self).spec_chunks().drop_last() == old(self).spec_chunks(),
            fresh_chunk(
                final(self).spec_chunks().last(),
                r,
                ChunkStage::Open { mb_chunk: chunk },
                old(self).spec_next_chunk_order(),
                time_of_write,
                time_of_write,
            ),
    {
        let chunk_id = pick_next(&mut self.next_chunk_id);
        let chunk_order = pick_next(&mut self.next_chunk_order);
        let addr = ChunkAddr::new(&self.addr, chunk_id);
        let r = addr.duplicate();
        let new_chunk = CatalogChunk::new_open(addr, chunk, time_of_write, chunk_order);
        self.push_fresh(new_chunk);
        assert(self.chunks@.drop_last() == old(self).chunks@);
        r
    }

    /// Creates a chunk in the frozen stage from `chunk`, with the next chunk
    /// id and the order `chunk_order`, which must already have been handed out.
    pub fn create_rub_chunk(
        &mut self,
        chunk: ReadBufferChunk,
        time_of_first_write: Timestamp,
        time_of_last_write: Timestamp,
        schema: Schema,
        delete_predicates: Vec<DeletePredicate>,
        chunk_order: u32,
    ) -> (r: ChunkAddr)
        requires
            old(self).wf(),
            old(self).spec_next_chunk_id() < u32::MAX,
            chunk_order < old(self).spec_next_chunk_order(),
        ensures
            final(self).wf(),
            final(self).same_settings(old(self)),
            r.in_partition(old(self).spec_addr()),
            r.chunk_id == old(self).spec_next_chunk_id(),
            !old(self).issued_ids().contains(r.chunk_id),
            final(self).spec_next_chunk_id() == old(self).spec_next_chunk_id() + 1,
            final(self).spec_next_chunk_order() == old(self).spec_next_chunk_order(),
            final(self).issued_ids() == old(self).issued_ids().insert(r.chunk_id),
            final(self).assigned_orders() == old(self).assigned_orders().insert(chunk_order),
            final(self).spec_chunks().len() == old(self).spec_chunks().len() + 1,
            final(self).spec_chunks().drop_last() == old(self).spec_chunks(),
            fresh_chunk(
                final(self).spec_chunks().last(),
                r,
                ChunkStage::Frozen { rb_chunk: chunk, schema, delete_predicates },
                chunk_order,
                time_of_first_write,
                time_of_last_write,
            ),
    {
        let chunk_id = pick_next(&mut self.next_chunk_id);
        let addr = ChunkAddr::new(&self.addr, chunk_id);
        let r = addr.duplicate();
        let new_chunk = CatalogChunk::new_rub_chunk(
            addr,
            chunk,
            time_of_first_write,
            time_of_last_write,
            schema,
            delete_predicates,
            chunk_order,
        );
        self.push_fresh(new_chunk);
        assert(self.chunks@.drop_last() == old(self).chunks@);
        r
    }

    /// Position of the chunk with id `chunk_id`, if there is one.
    fn find_index(&self, chunk_id: u32) -> (r: Option<usize>)
        ensures
            r matches Some(i) ==> i < self.chunks@.len() && self.chunks@[i as int].spec_id() == chunk_id,
            r is None ==> !holds_id(self.chunks@, chunk_id),
    {
        let n = self.chunks.len();
        let mut i: usize = 0;
        while i < n
            invariant
                n == self.chunks@.len(),
                i <= n,
                forall|j: int| 0 <= j < i ==> #[trigger] self.chunks@[j].spec_id() != chunk_id,
            decreases n - i,
        {
            if self.chunks[i].id() == chunk_id {
                return Some(i);
            }
            i = i + 1;
        }
        None
    }

    /// Adds a chunk restored from object storage, under the id and the order
    /// that its stored metadata gives. Both counters are raised past them
    /// where they lie below.
    pub fn insert_object_store_only_chunk(
        &mut self,
        chunk_id: u32,
        chunk: ParquetChunk,
        time_of_first_write: Timestamp,
        time_of_last_write: Timestamp,
        delete_predicates: Vec<DeletePredicate>,
        chunk_order: u32,
    ) -> (r: ChunkAddr)
        requires
            old(self).wf(),
            chunk.table_name == old(self).spec_addr().table_name,
            chunk_id < u32::MAX,
            chunk_order < u32::MAX,
            !holds_id(old(self).spec_chunks(), chunk_id),
        ensures
            final(self).wf(),
            final(self).same_settings(old(self)),
            r.in_partition(old(self).spec_addr()),
            r.chunk_id == chunk_id,
            final(self).spec_next_chunk_id() == if old(self).spec_next_chunk_id() > chunk_id {
                old(self).spec_next_chunk_id()
            } else {
                (chunk_id + 1) as u32
            },
            final(self).spec_next_chunk_order() == if old(self).spec_next_chunk_order() > chunk_order {
                old(self).spec_next_chunk_order()
            } else {
                (chunk_order + 1) as u32
            },
            final(self).issued_ids() == old(self).issued_ids().insert(chunk_id),
            final(self).assigned_orders() == old(self).assigned_orders().insert(chunk_order),
            exists|p: int|
                0 <= p <= old(self).spec_chunks().len() && final(self).spec_chunks()
                    == old(self).spec_chunks().insert(p, final(self).spec_chunks()[p]) && fresh_chunk(
                    final(self).spec_chunks()[p],
                    r,
                    ChunkStage::ObjectStoreOnly { parquet_chunk: chunk, delete_predicates },
                    chunk_order,
                    time_of_first_write,
                    time_of_last_write,
                ),
    {
        let addr = ChunkAddr::new(&self.addr, chunk_id);
        let r = addr.duplicate();
        let new_chunk = CatalogChunk::new_object_store_only(
            addr,
            chunk,
            time_of_first_write,
            time_of_last_write,
            delete_predicates,
            chunk_order,
        );
        let n = self.chunks.len();
        let mut p: usize = 0;
        while p < n && self.chunks[p].id() < chunk_id
            invariant
                n == self.chunks@.len(),
                p <= n,
                forall|j: int| 0 <= j < p ==> #[trigger] self.chunks@[j].spec_id() < chunk_id,
            decreases n - p,
        {
            p = p + 1;
        }
        proof {
            assert forall|j: int| p <= j < n implies #[trigger] self.chunks@[j].spec_id() > chunk_id by {
                assert(self.chunks@[p as int].spec_id() >= chunk_id);
                assert(self.chunks@[j].spec_id() != chunk_id);
            }
        }
        if self.next_chunk_id <= chunk_id {
            self.next_chunk_id = chunk_id + 1;
        }
        if self.next_chunk_order <= chunk_order {
            self.next_chunk_order = chunk_order + 1;
        }
        let ghost old_chunks = self.chunks@;
        let ghost c = new_chunk;
        self.chunks.insert(p, new_chunk);
        self.issued_ids = Ghost(self.issued_ids@.insert(chunk_id));
        self.assigned_orders = Ghost(self.assigned_orders@.insert(chunk_order));
        assert(self.chunks@ == old_chunks.insert(p as int, c));
        assert(self.chunks@[p as int] == c);
        assert forall|a: int, b: int| 0 <= a < b < self.chunks@.len() implies self.chunks@[a].spec_id()
            < self.chunks@[b].spec_id() by {
            if b < p {
            } else if a > p {
                assert(self.chunks@[a] == old_chunks[a - 1]);
                assert(self.chunks@[b] == old_chunks[b - 1]);
            } else if a == p {
                assert(self.chunks@[b] == old_chunks[b - 1]);
            } else if b == p {
            } else {
                assert(self.chunks@[b] == old_chunks[b - 1]);
            }
        }
        assert forall|i: int| 0 <= i < self.chunks@.len() implies {
            &&& (#[trigger] self.chunks@[i]).spec_addr().in_partition(self.addr)
            &&& self.issued_ids@.contains(self.chunks@[i].spec_id())
            &&& self.assigned_orders@.contains(self.chunks@[i].spec_order())
        } by {
            if i < p {
                assert(self.chunks@[i] == old_chunks[i]);
                assert(old_chunks[i].spec_addr().in_partition(self.addr));
            } else if i > p {
                assert(self.chunks@[i] == old_chunks[i - 1]);
                assert(old_chunks[i - 1].spec_addr().in_partition(self.addr));
            }
        }
        assert(self.spec_chunks() == old(self).spec_chunks().insert(p as int, self.spec_chunks()[p as int]));
        r
    }

    /// Removes the chunk with id `chunk_id` and hands it back, unless it is
    /// missing or a lifecycle action other than a drop owns it.
    pub fn drop_chunk(&mut self, chunk_id: u32) -> (r: Result<CatalogChunk, Error>)
        requires
            old(self).wf(),
        ensures
            final(self).wf(),
            final(self).same_settings(old(self)),
            final(self).spec_next_chunk_id() == old(self).spec_next_chunk_id(),
            final(self).spec_next_chunk_order() == old(self).spec_next_chunk_order(),
            final(self).issued_ids() == old(self).issued_ids(),
            final(self).assigned_orders() == old(self).assigned_orders(),
            !holds_id(old(self).spec_chunks(), chunk_id) <==> r matches Err(
                Error::ChunkNotFound { .. },
            ),
            r matches Err(Error::ChunkNotFound { chunk }) ==> chunk.in_partition(
                old(self).spec_addr(),
            ) && chunk.chunk_id == chunk_id,
            r is Err ==> final(self).spec_chunks() == old(self).spec_chunks(),
            !(r matches Err(Error::CreateOpenChunk { .. })),
            forall|i: int|
                0 <= i < old(self).spec_chunks().len() && #[trigger] old(
                    self,
                ).spec_chunks()[i].spec_id() == chunk_id ==> match old(self).spec_chunks()[i].spec_action() {
                    Some(a) if a != ChunkLifecycleAction::Dropping => r == Err::<CatalogChunk, Error>(
                        Error::LifecycleInProgress {
                            chunk: old(self).spec_chunks()[i].spec_addr(),
                            action: a,
                        },
                    ),
                    _ => r == Ok::<CatalogChunk, Error>(old(self).spec_chunks()[i])
                        && final(self).spec_chunks() == old(self).spec_chunks().remove(i),
                },
    {
        match self.find_index(chunk_id) {
            None => Err(Error::ChunkNotFound { chunk: ChunkAddr::new(&self.addr, chunk_id) }),
            Some(i) => {
                proof {
                    assert forall|j: int| 0 <= j < self.chunks@.len() && #[trigger] self.chunks@[j].spec_id()
                        == chunk_id implies j == i by {
                        if j < i {
                            assert(self.chunks@[j].spec_id() < self.chunks@[i as int].spec_id());
                        } else if j > i {
                            assert(self.chunks@[i as int].spec_id() < self.chunks@[j].spec_id());
                        }
                    }
                }
                if let Some(action) = self.chunks[i].lifecycle_action() {
                    if action != ChunkLifecycleAction::Dropping {
                        return Err(
                            Error::LifecycleInProgress {
                                chunk: self.chunks[i].addr().duplicate(),
                                action,
                            },
                        );
                    }
                }
                Ok(self.remove_at(i))
            },
        }
    }

    /// Removes the chunk at position `i`.
    fn remove_at(&mut self, i: usize) -> (r: CatalogChunk)
        requires
            old(self).wf(),
            i < old(self).chunks@.len(),
        ensures
            final(self).wf(),
            final(self).same_settings(old(self)),
            final(self).next_chunk_id == old(self).next_chunk_id,
            final(self).next_chunk_order == old(self).next_chunk_order,
            final(self).issued_ids == old(self).issued_ids,
            final(self).assigned_orders == old(self).assigned_orders,
            r == old(self).chunks@[i as int],
            final(self).chunks@ == old(self).chunks@.remove(i as int),
    {
        let ghost old_chunks = self.chunks@;
        let r = self.chunks.remove(i);
        assert forall|a: int, b: int| 0 <= a < b < self.chunks@.len() implies self.chunks@[a].spec_id()
            < self.chunks@[b].spec_id() by {
            if a >= i {
                assert(self.chunks@[a] == old_chunks[a + 1]);
            }
            if b >= i {
                assert(self.chunks@[b] == old_chunks[b + 1]);
            }
        }
        assert forall|j: int| 0 <= j < self.chunks@.len() implies {
            &&& (#[trigger] self.chunks@[j]).spec_addr().in_partition(self.addr)
            &&& self.issued_ids@.contains(self.chunks@[j].spec_id())
            &&& self.assigned_orders@.contains(self.chunks@[j].spec_order())
        } by {
            if j >= i {
                assert(self.chunks@[j] == old_chunks[j + 1]);
                assert(old_chunks[j + 1].spec_addr().in_partition(self.addr));
            } else {
                assert(old_chunks[j].spec_addr().in_partition(self.addr));
            }
        }
        r
    }

    /// Removes the chunk with id `chunk_id` whatever action owns it; nothing
    /// happens where there is none.
    pub fn force_drop_chunk(&mut self, chunk_id: u32)
        requires
            old(self).wf(),
        ensures
            final(self).wf(),
            final(self).same_settings(old(self)),
            final(self).spec_next_chunk_id() == old(self).spec_next_chunk_id(),
            final(self).spec_next_chunk_order() == old(self).spec_next_chunk_order(),
            final(self).issued_ids() == old(self).issued_ids(),
            final(self).assigned_orders() == old(self).assigned_orders(),
            !holds_id(old(self).spec_chunks(), chunk_id) ==> final(self).spec_chunks() == old(
                self,
            ).spec_chunks(),
            forall|i: int|
                0 <= i < old(self).spec_chunks().len() && #[trigger] old(
                    self,
                ).spec_chunks()[i].spec_id() == chunk_id ==> final(self).spec_chunks() == old(
                    self,
                ).spec_chunks().remove(i),
    {
        match self.find_index(chunk_id) {
            None => {},
            Some(i) => {
                proof {
                    assert forall|j: int| 0 <= j < self.chunks@.len() && #[trigger] self.chunks@[j].spec_id()
                        == chunk_id implies j == i by {
                        if j < i {
                            assert(self.chunks@[j].spec_id() < self.chunks@[i as int].spec_id());
                        } else if j > i {
                            assert(self.chunks@[i as int].spec_id() < self.chunks@[j].spec_id());
                        }
                    }
                }
                self.remove_at(i);
            },
        }
    }

    pub fn addr(&self) -> (r: &PartitionAddr)
        ensures
            *r == self.spec_addr(),
    {
        &self.addr
    }

    pub fn db_name(&self) -> (r: &str)
        ensures
            r@ == self.spec_addr().db_name@,
    {
        self.addr.db_name.as_str()
    }

    /// The partition key.
    pub fn key(&self) -> (r: &str)
        ensures
            r@ == self.spec_addr().partition_key@,
    {
        self.addr.partition_key.as_str()
    }

    pub fn table_name(&self) -> (r: &str)
        ensures
            r@ == self.spec_addr().table_name@,
    {
        self.addr.table_name.as_str()
    }

    /// Sets the time of the last write to `t`.
    pub fn set_last_write_at(&mut self, t: Timestamp)
        requires
            old(self).wf(),
        ensures
            final(self).wf(),
            final(self).spec_last_write_at() == t,
            final(self).spec_addr() == old(self).spec_addr(),
            final(self).spec_created_at() == old(self).spec_created_at(),
            final(self).spec_windows() == old(self).spec_windows(),
            final(self).spec_chunks() == old(self).spec_chunks(),
            final(self).spec_next_chunk_id() == old(self).spec_next_chunk_id(),
            final(self).spec_next_chunk_order() == old(self).spec_next_chunk_order(),
            final(self).issued_ids() == old(self).issued_ids(),
            final(self).assigned_orders() == old(self).assigned_orders(),
    {
        self.last_write_at = t;
    }

    /// Sets the time of the last write to now.
    pub fn update_last_write_at(&mut self)
        requires
            old(self).wf(),
        ensures
            final(self).wf(),
            final(self).spec_addr() == old(self).spec_addr(),
            final(self).spec_created_at() == old(self).spec_created_at(),
            final(self).spec_windows() == old(self).spec_windows(),
            final(self).spec_chunks() == old(self).spec_chunks(),
            final(self).spec_next_chunk_id() == old(self).spec_next_chunk_id(),
            final(self).spec_next_chunk_order() == old(self).spec_next_chunk_order(),
            final(self).issued_ids() == old(self).issued_ids(),
            final(self).assigned_orders() == old(self).assigned_orders(),
    {
        let t = now();
        self.set_last_write_at(t);
    }

    pub fn created_at(&self) -> (r: Timestamp)
        ensures
            r == self.spec_created_at(),
    {
        self.created_at
    }

    pub fn last_write_at(&self) -> (r: Timestamp)
        ensures
            r == self.spec_last_write_at(),
    {
        self.last_write_at
    }

    /// The id that the next created chunk gets.
    pub fn next_chunk_id(&self) -> (r: u32)
        ensures
            r == self.spec_next_chunk_id(),
    {
        self.next_chunk_id
    }

    /// The order that the next created open chunk gets.
    pub fn next_chunk_order(&self) -> (r: u32)
        ensures
            r == self.spec_next_chunk_order(),
    {
        self.next_chunk_order
    }

    /// The first chunk, by id, that is in the open stage.
    pub fn open_chunk(&self) -> (r: Option<&CatalogChunk>)
        ensures
            r is None <==> forall|i: int|
                0 <= i < self.spec_chunks().len() ==> #[trigger] self.spec_chunks()[i].spec_stage().rank()
                    != 0,
            r matches Some(c) ==> exists|i: int|
                first_open(self.spec_chunks(), i) && *c == #[trigger] self.spec_chunks()[i],
    {
        let n = self.chunks.len();
        let mut i: usize = 0;
        while i < n
            invariant
                n == self.chunks@.len(),
                i <= n,
                forall|j: int| 0 <= j < i ==> #[trigger] self.chunks@[j].spec_stage().rank() != 0,
            decreases n - i,
        {
            if self.chunks[i].stage().is_open() {
                assert(first_open(self.chunks@, i as int));
                return Some(&self.chunks[i]);
            }
            i = i + 1;
        }
        None
    }

    /// The chunk with id `chunk_id`, if any.
    pub fn chunk(&self, chunk_id: u32) -> (r: Option<&CatalogChunk>)
        ensures
            r is None <==> !holds_id(self.spec_chunks(), chunk_id),
            r matches Some(c) ==> c.spec_id() == chunk_id && self.spec_chunks().contains(*c),
    {
        match self.find_index(chunk_id) {
            Some(i) => Some(&self.chunks[i]),
            None => None,
        }
    }

    /// The chunks, in ascending order of id.
    pub fn chunks(&self) -> (r: &[CatalogChunk])
        ensures
            r@ == self.spec_chunks(),
    {
        self.chunks.as_slice()
    }

    /// The chunks with their ids, in ascending order of id.
    pub fn keyed_chunks(&self) -> (r: Vec<(u32, &CatalogChunk)>)
        ensures
            r@.len() == self.spec_chunks().len(),
            forall|i: int|
                0 <= i < r@.len() ==> (#[trigger] r@[i]).0 == self.spec_chunks()[i].spec_id() && *r@[i].1
                    == self.spec_chunks()[i],
    {
        let n = self.chunks.len();
        let mut out: Vec<(u32, &CatalogChunk)> = Vec::new();
        let mut i: usize = 0;
        while i < n
            invariant
                n == self.chunks@.len(),
                i <= n,
                out@.len() == i,
                forall|j: int|
                    0 <= j < i ==> (#[trigger] out@[j]).0 == self.chunks@[j].spec_id() && *out@[j].1
                        == self.chunks@[j],
            decreases n - i,
        {
            let c = &self.chunks[i];
            out.push((c.id(), c));
            i = i + 1;
        }
        out
    }

    /// The table summaries of all chunks, aggregated; none without chunks.
    pub fn summary(&self) -> (r: Option<PartitionSummary>)
        ensures
            r is None <==> self.spec_chunks().len() == 0,
            r matches Some(sum) ==> sum.key == self.spec_addr().partition_key && sum.table_name
                == self.spec_addr().table_name && sum.row_count == total_rows(self.spec_chunks()),
    {
        let n = self.chunks.len();
        if n == 0 {
            return None;
        }
        let mut total: u128 = 0;
        let mut i: usize = 0;
        while i < n
            invariant
                n == self.chunks@.len(),
                i <= n,
                total == total_rows(self.chunks@.subrange(0, i as int)),
                total <= i * 0xFFFF_FFFF_FFFF_FFFFu128,
            decreases n - i,
        {
            let rows = self.chunks[i].table_summary().row_count;
            assert(self.chunks@.subrange(0, i + 1).drop_last() == self.chunks@.subrange(0, i as int));
            assert(total + rows <= (i + 1) * 0xFFFF_FFFF_FFFF_FFFFu128) by (nonlinear_arith)
                requires
                    total <= i * 0xFFFF_FFFF_FFFF_FFFFu128,
                    rows <= 0xFFFF_FFFF_FFFF_FFFFu64,
            ;
            assert((i + 1) * 0xFFFF_FFFF_FFFF_FFFFu128 <= 0xFFFF_FFFF_FFFF_FFFF_FFFF_FFFF_FFFF_FFFFu128) by (nonlinear_arith)
                requires
                    i < 0x1_0000_0000_0000_0000int,
            ;
            total = total + rows as u128;
            i = i + 1;
        }
        assert(self.chunks@.subrange(0, n as int) == self.chunks@);
        Some(
            PartitionSummary {
                key: self.addr.partition_key.clone(),
                table_name: self.addr.table_name.clone(),
                row_count: total,
            },
        )
    }

    /// What each chunk reports of itself, in ascending order of id.
    pub fn chunk_summaries(&self) -> (r: Vec<ChunkSummary>)
        ensures
            r@.len() == self.spec_chunks().len(),
            forall|i: int|
                0 <= i < r@.len() ==> (#[trigger] r@[i]).id == self.spec_chunks()[i].spec_id()
                    && r@[i].partition_key == self.spec_chunks()[i].spec_addr().partition_key
                    && r@[i].table_name == self.spec_chunks()[i].spec_addr().table_name
                    && r@[i].time_of_first_write == self.spec_chunks()[i].spec_first_write()
                    && r@[i].time_of_last_write == self.spec_chunks()[i].spec_last_write()
                    && r@[i].storage == crate::chunk::storage_of(self.spec_chunks()[i].spec_stage())
                    && r@[i].lifecycle_action == self.spec_chunks()[i].spec_action()
                    && r@[i].row_count == self.spec_chunks()[i].spec_stage().rows()
                    && r@[i].order == self.spec_chunks()[i].spec_order(),
    {
        let n = self.chunks.len();
        let mut out: Vec<ChunkSummary> = Vec::new();
        let mut i: usize = 0;
        while i < n
            invariant
                n == self.chunks@.len(),
                i <= n,
                out@.len() == i,
                forall|j: int|
                    0 <= j < i ==> (#[trigger] out@[j]).id == self.chunks@[j].spec_id()
                        && out@[j].partition_key == self.chunks@[j].spec_addr().partition_key
                        && out@[j].table_name == self.chunks@[j].spec_addr().table_name
                        && out@[j].time_of_first_write == self.chunks@[j].spec_first_write()
                        && out@[j].time_of_last_write == self.chunks@[j].spec_last_write()
                        && out@[j].storage == crate::chunk::storage_of(self.chunks@[j].spec_stage())
                        && out@[j].lifecycle_action == self.chunks@[j].spec_action()
                        && out@[j].row_count == self.chunks@[j].spec_stage().rows()
                        && out@[j].order == self.chunks@[j].spec_order(),
            decreases n - i,
        {
            out.push(self.chunks[i].summary());
            i = i + 1;
        }
        out
    }

    /// The ingest progress of this partition, if it has any.
    pub fn persistence_windows(&self) -> (r: Option<&PersistenceWindows>)
        ensures
            r matches Some(w) ==> self.spec_windows() == Some(*w),
            r is None ==> self.spec_windows() is None,
    {
        match &self.persistence_windows {
            Some(w) => Some(w),
            None => None,
        }
    }

    /// Replaces the ingest progress of this partition with `windows`.
    pub fn set_persistence_windows(&mut self, windows: PersistenceWindows)
        requires
            old(self).wf(),
        ensures
            final(self).wf(),
            final(self).spec_windows() == Some(windows),
            final(self).spec_addr() == old(self).spec_addr(),
            final(self).spec_created_at() == old(self).spec_created_at(),
            final(self).spec_last_write_at() == old(self).spec_last_write_at(),
            final(self).spec_chunks() == old(self).spec_chunks(),
            final(self).spec_next_chunk_id() == old(self).spec_next_chunk_id(),
            final(self).spec_next_chunk_order() == old(self).spec_next_chunk_order(),
            final(self).issued_ids() == old(self).issued_ids(),
            final(self).assigned_orders() == old(self).assigned_orders(),
    {
        self.persistence_windows = Some(windows);
    }

    /// The range of sequence numbers of each sequencer, ascending by
    /// sequencer id, if there is ingest progress.
    pub fn sequencer_numbers(&self) -> (r: Option<Vec<(u32, OptionalMinMaxSequence)>>)
        ensures
            r is None <==> self.spec_windows() is None,
            r matches Some(v) ==> lists_map(v@, self.spec_windows().unwrap()@),
    {
        match &self.persistence_windows {
            Some(w) => Some(w.sequencer_numbers()),
            None => None,
        }
    }

    /// The chunk with id `chunk_id`, to change in place. The partition stays
    /// well-formed as long as the chunk keeps its address and its order, as
    /// every method of `CatalogChunk` does.
    pub fn chunk_mut(&mut self, chunk_id: u32) -> (r: Option<&mut CatalogChunk>)
        requires
            old(self).wf(),
        ensures
            r is None <==> !holds_id(old(self).spec_chunks(), chunk_id),
            r is None ==> *final(self) == *old(self),
            r matches Some(c) ==> {
                let i = position_of(old(self).spec_chunks(), chunk_id);
                &&& 0 <= i < old(self).spec_chunks().len()
                &&& old(self).spec_chunks()[i].spec_id() == chunk_id
                &&& *c == old(self).spec_chunks()[i]
                &&& final(self).spec_chunks() == old(self).spec_chunks().update(i, *final(c))
            },
            r matches Some(c) ==> {
                &&& final(self).same_settings(old(self))
                &&& final(self).spec_next_chunk_id() == old(self).spec_next_chunk_id()
                &&& final(self).spec_next_chunk_order() == old(self).spec_next_chunk_order()
                &&& final(self).issued_ids() == old(self).issued_ids()
                &&& final(self).assigned_orders() == old(self).assigned_orders()
                &&& (final(c).spec_addr() == c.spec_addr() && final(c).spec_order() == c.spec_order())
                    ==> final(self).wf()
            },
    {
        match self.find_index(chunk_id) {
            Some(i) => {
                proof {
                    let p = position_of(self.chunks@, chunk_id);
                    if p < i {
                        assert(self.chunks@[p].spec_id() < self.chunks@[i as int].spec_id());
                    } else if p > i {
                        assert(self.chunks@[i as int].spec_id() < self.chunks@[p].spec_id());
                    }
                }
                Some(&mut self.chunks[i])
            },
            None => None,
        }
    }

    /// Mutable access to the ingest progress of this partition, if any.
    pub fn persistence_windows_mut(&mut self) -> (r: Option<&mut PersistenceWindows>)
        ensures
            r is None <==> old(self).spec_windows() is None,
            r is None ==> *final(self) == *old(self),
            r matches Some(w) ==> old(self).spec_windows() == Some(*w) && final(self).spec_windows()
                == Some(*final(w)) && final(self).same_settings_but_windows(old(self)),
            old(self).wf() ==> final(self).wf(),
    {
        match &mut self.persistence_windows {
            Some(w) => Some(w),
            None => None,
        }
    }
}

} // verus!
