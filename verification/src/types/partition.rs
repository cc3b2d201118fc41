//! Partition descriptors: the per-partition payload of a topic description,
//! carrying replica bookkeeping as compact arrays of node ids.

use vstd::prelude::*;

use crate::types::compactarray::CompactArray;
use crate::types::Offset;

verus! {

/// A partition's wire fields: its encoded byte size, leadership data, and
/// the replica-node arrays.
pub struct Partition {
    pub size: u64,
    pub node_id: i32,
    pub leader: i32,
    pub leader_epoch: i32,
    pub replica_nodes: CompactArray<i32>,
    pub in_sync_nodes: CompactArray<i32>,
    pub eligible_leader_replicas: CompactArray<i32>,
    pub last_known_elr: CompactArray<i32>,
    pub offline_replicas: CompactArray<i32>,
    pub tag_buffer: u8,
}

impl Offset for Partition {
    open spec fn soffset(&self) -> u64 {
        self.size
    }

    fn get_offset(&self) -> u64 {
        self.size
    }
}

impl Partition {
    /// Builds a partition descriptor from its fields.
    pub fn new(
        size: u64,
        node_id: i32,
        leader: i32,
        leader_epoch: i32,
        replica_nodes: CompactArray<i32>,
        in_sync_nodes: CompactArray<i32>,
        eligible_leader_replicas: CompactArray<i32>,
        last_known_elr: CompactArray<i32>,
        offline_replicas: CompactArray<i32>,
        tag_buffer: u8,
    ) -> (r: Partition)
        ensures
            r.size == size,
            r.node_id == node_id,
            r.leader == leader,
            r.leader_epoch == leader_epoch,
            r.replica_nodes == replica_nodes,
            r.in_sync_nodes == in_sync_nodes,
            r.eligible_leader_replicas == eligible_leader_replicas,
            r.last_known_elr == last_known_elr,
            r.offline_replicas == offline_replicas,
            r.tag_buffer == tag_buffer,
    {
        Partition {
            size,
            node_id,
            leader,
            leader_epoch,
            replica_nodes,
            in_sync_nodes,
            eligible_leader_replicas,
            last_known_elr,
            offline_replicas,
            tag_buffer,
        }
    }
}

} // verus!
