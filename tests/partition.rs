use partition_catalog::addr::PartitionAddr;
use partition_catalog::chunk::{
    ChunkError, ChunkLifecycleAction, ChunkStorage, DeletePredicate, MutableBufferChunk,
    ParquetChunk, ReadBufferChunk, Schema,
};
use partition_catalog::partition::{Error, Partition};
use partition_catalog::persistence_windows::{OptionalMinMaxSequence, PersistenceWindows};
use partition_catalog::time::Timestamp;

fn make_partition() -> Partition {
    Partition::new(PartitionAddr::new("d".to_string(), "t".to_string(), "p".to_string()))
}

fn make_mb_chunk(table_name: &str, rows: u64) -> MutableBufferChunk {
    MutableBufferChunk { table_name: table_name.to_string(), row_count: rows }
}

fn make_parquet_chunk(rows: u64) -> ParquetChunk {
    ParquetChunk { table_name: "t".to_string(), path: "data/t/1.parquet".to_string(), row_count: rows }
}

fn make_schema() -> Schema {
    Schema { columns: vec!["bar".to_string(), "time".to_string()] }
}

fn ids(partition: &Partition) -> Vec<u32> {
    partition.chunks().iter().map(|c| c.id()).collect()
}

#[test]
fn chunks_are_returned_in_order() {
    let t = Timestamp::from_micros(10);
    let mut partition = make_partition();
    for _ in 0..3 {
        partition.create_open_chunk(make_mb_chunk("t", 1), t);
    }

    let expected_ids = vec![0, 1, 2];

    let ids = partition.chunks().iter().map(|c| c.id()).collect::<Vec<_>>();
    assert_eq!(ids, expected_ids);

    let ids = partition.keyed_chunks().iter().map(|(id, _)| *id).collect::<Vec<_>>();
    assert_eq!(ids, expected_ids);
}

#[test]
fn dropped_ids_are_never_reused() {
    let t = Timestamp::from_micros(10);
    let mut partition = make_partition();
    for expected in 0..3u32 {
        let addr = partition.create_open_chunk(make_mb_chunk("t", 1), t);
        assert_eq!(addr.chunk_id, expected);
        assert_eq!(addr.table_name, "t");
        assert_eq!(addr.db_name, "d");
        assert_eq!(addr.partition_key, "p");
    }
    assert!(partition.chunks().iter().all(|c| c.storage() == ChunkStorage::OpenMutableBuffer));
    assert_eq!(partition.open_chunk().unwrap().id(), 0);

    let dropped = partition.drop_chunk(1).unwrap();
    assert_eq!(dropped.id(), 1);
    assert_eq!(ids(&partition), vec![0, 2]);

    let addr = partition.create_open_chunk(make_mb_chunk("t", 1), t);
    assert_eq!(addr.chunk_id, 3);
    assert_eq!(ids(&partition), vec![0, 2, 3]);
    assert_eq!(partition.next_chunk_id(), 4);
    assert_eq!(partition.next_chunk_order(), 4);
}

#[test]
fn restore_raises_both_counters() {
    let t = Timestamp::from_micros(10);
    let mut partition = make_partition();
    partition.create_open_chunk(make_mb_chunk("t", 1), t);
    partition.create_rub_chunk(ReadBufferChunk { row_count: 1 }, t, t, make_schema(), vec![], 0);
    assert_eq!(partition.next_chunk_id(), 2);
    assert_eq!(partition.next_chunk_order(), 1);

    let addr = partition.insert_object_store_only_chunk(5, make_parquet_chunk(4), t, t, vec![], 3);
    assert_eq!(addr.chunk_id, 5);
    assert_eq!(partition.next_chunk_id(), 6);
    assert_eq!(partition.next_chunk_order(), 4);
    assert_eq!(ids(&partition), vec![0, 1, 5]);
    let restored = partition.chunk(5).unwrap();
    assert_eq!(restored.order(), 3);
    assert_eq!(restored.storage(), ChunkStorage::ObjectStoreOnly);
}

#[test]
fn restore_below_counters_keeps_them() {
    let t = Timestamp::from_micros(10);
    let mut partition = make_partition();
    partition.insert_object_store_only_chunk(3, make_parquet_chunk(1), t, t, vec![], 7);
    assert_eq!(partition.next_chunk_id(), 4);
    assert_eq!(partition.next_chunk_order(), 8);

    partition.insert_object_store_only_chunk(1, make_parquet_chunk(1), t, t, vec![], 2);
    assert_eq!(partition.next_chunk_id(), 4);
    assert_eq!(partition.next_chunk_order(), 8);
    assert_eq!(ids(&partition), vec![1, 3]);

    let addr = partition.create_open_chunk(make_mb_chunk("t", 1), t);
    assert_eq!(addr.chunk_id, 4);
    assert_eq!(partition.chunk(4).unwrap().order(), 8);
    assert_eq!(ids(&partition), vec![1, 3, 4]);
}

#[test]
fn frozen_chunk_takes_a_reserved_order() {
    let t = Timestamp::from_micros(10);
    let mut partition = make_partition();
    partition.create_open_chunk(make_mb_chunk("t", 1), t);
    partition.create_open_chunk(make_mb_chunk("t", 1), t);
    let addr = partition.create_rub_chunk(
        ReadBufferChunk { row_count: 2 },
        Timestamp::from_micros(5),
        Timestamp::from_micros(20),
        make_schema(),
        vec![DeletePredicate { expr: "bar = 1".to_string() }],
        1,
    );
    assert_eq!(addr.chunk_id, 2);
    assert_eq!(partition.next_chunk_id(), 3);
    assert_eq!(partition.next_chunk_order(), 2);
    let chunk = partition.chunk(2).unwrap();
    assert_eq!(chunk.order(), 1);
    assert_eq!(chunk.storage(), ChunkStorage::ReadBuffer);
    assert_eq!(chunk.time_of_first_write().micros(), 5);
    assert_eq!(chunk.time_of_last_write().micros(), 20);
}

#[test]
fn drop_missing_chunk_is_not_found() {
    let mut partition = make_partition();
    match partition.drop_chunk(7) {
        Err(Error::ChunkNotFound { chunk }) => {
            assert_eq!(chunk.chunk_id, 7);
            assert_eq!(chunk.table_name, "t");
        }
        other => panic!("unexpected result {:?}", other),
    }
}

#[test]
fn drop_during_persist_is_refused() {
    let t = Timestamp::from_micros(10);
    let mut partition = make_partition();
    partition.create_open_chunk(make_mb_chunk("t", 1), t);
    partition.chunk_mut(0).unwrap().set_lifecycle_action(ChunkLifecycleAction::Persisting).unwrap();
    match partition.drop_chunk(0) {
        Err(Error::LifecycleInProgress { chunk, action }) => {
            assert_eq!(chunk.chunk_id, 0);
            assert_eq!(action, ChunkLifecycleAction::Persisting);
        }
        other => panic!("unexpected result {:?}", other),
    }
    assert_eq!(ids(&partition), vec![0]);

    partition.chunk_mut(0).unwrap().clear_lifecycle_action();
    assert!(partition.drop_chunk(0).is_ok());
    assert!(partition.chunks().is_empty());
}

#[test]
fn drop_during_drop_is_accepted() {
    let t = Timestamp::from_micros(10);
    let mut partition = make_partition();
    partition.create_open_chunk(make_mb_chunk("t", 1), t);
    partition.chunk_mut(0).unwrap().set_lifecycle_action(ChunkLifecycleAction::Dropping).unwrap();
    let dropped = partition.drop_chunk(0).unwrap();
    assert_eq!(dropped.lifecycle_action(), Some(ChunkLifecycleAction::Dropping));
    assert!(partition.chunks().is_empty());
}

#[test]
fn force_drop_ignores_actions_and_missing_ids() {
    let t = Timestamp::from_micros(10);
    let mut partition = make_partition();
    partition.create_open_chunk(make_mb_chunk("t", 1), t);
    partition.create_open_chunk(make_mb_chunk("t", 1), t);
    partition.chunk_mut(1).unwrap().set_lifecycle_action(ChunkLifecycleAction::Compacting).unwrap();
    partition.force_drop_chunk(1);
    assert_eq!(ids(&partition), vec![0]);
    partition.force_drop_chunk(42);
    assert_eq!(ids(&partition), vec![0]);
    assert_eq!(partition.next_chunk_id(), 2);
}

#[test]
fn second_action_is_refused_but_drop_over_drop_is_not() {
    let t = Timestamp::from_micros(10);
    let mut partition = make_partition();
    partition.create_open_chunk(make_mb_chunk("t", 1), t);
    partition.chunk_mut(0).unwrap().set_lifecycle_action(ChunkLifecycleAction::Compacting).unwrap();
    match partition.chunk_mut(0).unwrap().set_lifecycle_action(ChunkLifecycleAction::Persisting) {
        Err(ChunkError::LifecycleInProgress { chunk, action }) => {
            assert_eq!(chunk.chunk_id, 0);
            assert_eq!(action, ChunkLifecycleAction::Compacting)
        }
        other => panic!("unexpected result {:?}", other),
    }
    assert_eq!(partition.chunk(0).unwrap().lifecycle_action(), Some(ChunkLifecycleAction::Compacting));
    partition.chunk_mut(0).unwrap().clear_lifecycle_action();
    assert_eq!(partition.chunk(0).unwrap().lifecycle_action(), None);
    partition.chunk_mut(0).unwrap().set_lifecycle_action(ChunkLifecycleAction::Dropping).unwrap();
    assert!(partition.chunk_mut(0).unwrap().set_lifecycle_action(ChunkLifecycleAction::Dropping).is_ok());
    assert!(partition.chunk_mut(9).is_none());
}

#[test]
fn summary_is_absent_without_chunks() {
    let partition = make_partition();
    assert!(partition.summary().is_none());
    assert!(partition.chunk_summaries().is_empty());
}

#[test]
fn summary_aggregates_every_chunk() {
    let t = Timestamp::from_micros(10);
    let mut partition = make_partition();
    partition.create_open_chunk(make_mb_chunk("t", 3), t);
    partition.create_rub_chunk(ReadBufferChunk { row_count: 4 }, t, t, make_schema(), vec![], 0);
    partition.insert_object_store_only_chunk(9, make_parquet_chunk(u64::MAX), t, t, vec![], 0);
    let summary = partition.summary().unwrap();
    assert_eq!(summary.key, "p");
    assert_eq!(summary.table_name, "t");
    assert_eq!(summary.row_count, 7 + u64::MAX as u128);

    let summaries = partition.chunk_summaries();
    assert_eq!(summaries.iter().map(|s| s.id).collect::<Vec<_>>(), vec![0, 1, 9]);
    assert_eq!(summaries.iter().map(|s| s.row_count).collect::<Vec<_>>(), vec![3, 4, u64::MAX]);
    assert_eq!(summaries[1].storage, ChunkStorage::ReadBuffer);
    assert!(summaries.iter().all(|s| s.partition_key == "p" && s.table_name == "t"));
    assert_eq!(summaries[0].time_of_first_write.micros(), 10);

    partition.drop_chunk(9).unwrap();
    assert_eq!(partition.summary().unwrap().row_count, 7);
}

#[test]
fn open_chunk_is_the_lowest_open_one() {
    let t = Timestamp::from_micros(10);
    let mut partition = make_partition();
    assert!(partition.open_chunk().is_none());
    partition.insert_object_store_only_chunk(0, make_parquet_chunk(1), t, t, vec![], 0);
    assert!(partition.open_chunk().is_none());
    partition.create_open_chunk(make_mb_chunk("t", 1), t);
    partition.create_open_chunk(make_mb_chunk("t", 1), t);
    assert_eq!(partition.open_chunk().unwrap().id(), 1);
    partition.chunk_mut(1).unwrap().freeze(ReadBufferChunk { row_count: 1 }, make_schema()).unwrap();
    assert_eq!(partition.chunk(1).unwrap().storage(), ChunkStorage::ReadBuffer);
    assert_eq!(partition.open_chunk().unwrap().id(), 2);
    partition.force_drop_chunk(2);
    assert!(partition.open_chunk().is_none());
}

#[test]
fn chunk_stages_move_forward_only() {
    let t = Timestamp::from_micros(10);
    let mut partition = make_partition();
    partition.create_open_chunk(make_mb_chunk("t", 5), t);
    let mut chunk = partition.drop_chunk(0).unwrap();
    assert!(matches!(
        chunk.set_object_store_only(make_parquet_chunk(5)),
        Err(ChunkError::UnexpectedStage { storage: ChunkStorage::OpenMutableBuffer, .. })
    ));
    chunk.freeze(ReadBufferChunk { row_count: 5 }, make_schema()).unwrap();
    assert_eq!(chunk.storage(), ChunkStorage::ReadBuffer);
    assert!(matches!(
        chunk.freeze(ReadBufferChunk { row_count: 5 }, make_schema()),
        Err(ChunkError::UnexpectedStage { storage: ChunkStorage::ReadBuffer, .. })
    ));
    chunk.set_object_store_only(make_parquet_chunk(5)).unwrap();
    assert_eq!(chunk.storage(), ChunkStorage::ObjectStoreOnly);
    assert_eq!(chunk.table_summary().row_count, 5);
    assert!(chunk.freeze(ReadBufferChunk { row_count: 5 }, make_schema()).is_err());
    assert!(chunk.set_object_store_only(make_parquet_chunk(5)).is_err());
}

#[test]
fn persistence_windows_track_ranges() {
    let mut partition = make_partition();
    assert!(partition.sequencer_numbers().is_none());
    assert!(partition.persistence_windows().is_none());
    assert!(partition.persistence_windows_mut().is_none());

    let mut windows = PersistenceWindows::new();
    windows.add_sequence(2, 7);
    partition.set_persistence_windows(windows);
    let windows = partition.persistence_windows_mut().unwrap();
    windows.add_sequence(1, 10);
    windows.add_sequence(1, 4);
    windows.add_sequence(2, 9);
    windows.add_sequence(0, 3);
    windows.add_sequence(0, 1);
    assert_eq!(
        partition.sequencer_numbers().unwrap(),
        vec![
            (0, OptionalMinMaxSequence { min: Some(3), max: 3 }),
            (1, OptionalMinMaxSequence { min: Some(10), max: 10 }),
            (2, OptionalMinMaxSequence { min: Some(7), max: 9 }),
        ]
    );
    assert!(partition.persistence_windows().is_some());
}

#[test]
fn partition_times_come_from_the_clock() {
    let mut partition = make_partition();
    assert!(partition.created_at().micros() > 0);
    assert_eq!(partition.created_at(), partition.last_write_at());
    partition.set_last_write_at(Timestamp::from_micros(7));
    assert_eq!(partition.last_write_at().micros(), 7);
    partition.update_last_write_at();
    assert!(partition.last_write_at() >= partition.created_at());
    assert_eq!(partition.db_name(), "d");
    assert_eq!(partition.table_name(), "t");
    assert_eq!(partition.key(), "p");
    assert_eq!(partition.addr().partition_key, "p");
}
