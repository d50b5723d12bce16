//! Discovery: whether two nodes may sync, and the partitions they share.
use vstd::prelude::*;
use crate::error::SyncEngineError;
use crate::records::{SyncPhase, NodeIdentity, NodeType};
use crate::protocol::SyncSession;
use crate::text::{owned, strs_view};

verus! {

/// The outcome of discovery.
#[derive(Debug, Clone)]
pub struct DiscoveryResult {
    pub peer: NodeIdentity,
    pub partitions: Vec<String>,
    pub accepted: bool,
    pub reject_reason: Option<String>,
    pub suggested_batch_size: u32,
}

/// The partition names of the local node's ministry: the ministry's own prefix and the
/// prefixes of its clock events, attendance and sync metadata.
#[derive(Debug, Clone)]
pub struct MinistryPartitions {
    pub ministry: String,
    pub clock_events: String,
    pub attendance: String,
    pub sync_meta: String,
}

/// The partitions two nodes share: none across ministries; otherwise the ministry's
/// partition, plus the local site between two edges of the same site, clock events and
/// attendance from an edge to a regional relay, and sync metadata from a regional relay to
/// the national hub.
pub open spec fn common_partitions(local: NodeIdentity, remote: NodeIdentity, names: MinistryPartitions) -> Seq<Seq<char>> {
    if local.ministry_id != remote.ministry_id {
        Seq::empty()
    } else {
        seq![names.ministry@] + match (local.node_type, remote.node_type) {
            (NodeType::Edge, NodeType::Edge) => if local.site_id == remote.site_id { seq!["local/site"@] } else { Seq::empty() },
            (NodeType::Edge, NodeType::RegionalRelay) => seq![names.clock_events@, names.attendance@],
            (NodeType::RegionalRelay, NodeType::NationalHub) => seq![names.sync_meta@],
            _ => Seq::empty(),
        }
    }
}

/// The partitions `local` and `remote` share, given the partition names of the local
/// node's ministry.
pub fn compute_common_partitions(local: &NodeIdentity, remote: &NodeIdentity, names: &MinistryPartitions) -> (r: Vec<String>)
    ensures
        strs_view(r@) == common_partitions(*local, *remote, *names),
{
    let mut partitions: Vec<String> = Vec::new();
    if local.ministry_id == remote.ministry_id {
        partitions.push(names.ministry.clone());
        match (local.node_type, remote.node_type) {
            (NodeType::Edge, NodeType::Edge) => {
                if local.site_id == remote.site_id {
                    partitions.push(owned("local/site"));
                }
            },
            (NodeType::Edge, NodeType::RegionalRelay) => {
                partitions.push(names.clock_events.clone());
                partitions.push(names.attendance.clone());
            },
            (NodeType::RegionalRelay, NodeType::NationalHub) => {
                partitions.push(names.sync_meta.clone());
            },
            _ => {},
        }
    }
    assert(strs_view(partitions@) =~= common_partitions(*local, *remote, *names));
    partitions
}

/// Discovers what `local_node` and `remote_node` can sync, moving the session to
/// discovery. When the local node may not initiate a sync with the peer (`may_initiate`),
/// or they share no partition, discovery is refused; otherwise the shared partitions are
/// accepted with batches of a thousand records.
pub fn perform_discovery(
    session: &mut SyncSession,
    local_node: &NodeIdentity,
    remote_node: &NodeIdentity,
    may_initiate: bool,
    names: &MinistryPartitions,
) -> (r: Result<DiscoveryResult, SyncEngineError>)
    ensures
        r matches Ok(d) && {
            &&& d.peer.node_id == remote_node.node_id
            &&& if !may_initiate {
                &&& !d.accepted
                &&& d.partitions@.len() == 0
                &&& d.suggested_batch_size == 0
                &&& d.reject_reason matches Some(m) && m@ == "Sync topology violation: node cannot initiate sync with this peer type"@
            } else if common_partitions(*local_node, *remote_node, *names).len() == 0 {
                &&& !d.accepted
                &&& d.partitions@.len() == 0
                &&& d.suggested_batch_size == 0
                &&& d.reject_reason matches Some(m) && m@ == "No common partitions to sync"@
            } else {
                &&& d.accepted
                &&& strs_view(d.partitions@) == common_partitions(*local_node, *remote_node, *names)
                &&& d.reject_reason is None
                &&& d.suggested_batch_size == 1000
            }
        },
        final(session).current_phase == SyncPhase::Discovery,
        final(session).session_id == old(session).session_id,
{
    session.advance_phase(SyncPhase::Discovery);
    let peer = NodeIdentity {
        node_id: remote_node.node_id,
        node_type: remote_node.node_type,
        ministry_id: remote_node.ministry_id,
        site_id: remote_node.site_id,
        status: remote_node.status,
    };
    if !may_initiate {
        return Ok(DiscoveryResult {
            peer,
            partitions: Vec::new(),
            accepted: false,
            reject_reason: Some(owned("Sync topology violation: node cannot initiate sync with this peer type")),
            suggested_batch_size: 0,
        });
    }
    let common = compute_common_partitions(local_node, remote_node, names);
    if common.len() == 0 {
        return Ok(DiscoveryResult {
            peer,
            partitions: Vec::new(),
            accepted: false,
            reject_reason: Some(owned("No common partitions to sync")),
            suggested_batch_size: 0,
        });
    }
    Ok(DiscoveryResult { peer, partitions: common, accepted: true, reject_reason: None, suggested_batch_size: 1000 })
}

} // verus!
