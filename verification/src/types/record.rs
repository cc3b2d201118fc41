//! Record shells for topic and partition metadata.

use vstd::prelude::*;

use crate::types::compactarray::CompactArray;

verus! {

/// Placeholder for a topic metadata record.
pub struct TopicRecord {}

/// A partition metadata record: its identity, replica arrays, and epochs.
pub struct PartitionRecord {
    pub id: i32,
    pub topic_id: String,
    pub replica_array: CompactArray<i32>,
    pub in_sync_replica: CompactArray<i32>,
    pub adding_replicas: CompactArray<i32>,
    pub leader: i32,
    pub leader_epoch: i32,
    pub partition_epoch: i32,
}

/// A tagged record wrapping a metadata value with its kind name.
pub struct Record<T> {
    pub value: T,
    pub kind: String,
}

} // verus!
