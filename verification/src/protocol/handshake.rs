//! The schema handshake: the first schema version both nodes speak.
use vstd::prelude::*;
use crate::error::SyncEngineError;
use crate::text::{cat4, owned, strs_view, lists, slice_lists, debug_list, debug_list_text};

verus! {

/// The outcome of a handshake.
#[derive(Debug, Clone)]
pub struct HandshakeResult {
    pub accepted: bool,
    pub schema_version: String,
    pub compatible: bool,
    pub reject_reason: Option<String>,
    pub suggested_compression: String,
}

/// The index of the first of the first `n` local versions that the remote side also
/// speaks, if any.
pub open spec fn first_shared(local: Seq<String>, remote: Seq<String>, n: int) -> Option<int>
    decreases n,
{
    if n <= 0 {
        None
    } else {
        match first_shared(local, remote, n - 1) {
            Some(i) => Some(i),
            None => if lists(remote, local[n - 1]@) { Some(n - 1) } else { None },
        }
    }
}

/// `i` is the first local version that the remote side also speaks.
pub open spec fn first_common(local: Seq<String>, remote: Seq<String>, i: int) -> bool {
    &&& 0 <= i < local.len()
    &&& lists(remote, local[i]@)
    &&& forall|j: int| 0 <= j < i ==> !lists(remote, (#[trigger] local[j])@)
}

/// Among the first `n` local versions, one is shared exactly when some of them occurs in
/// the remote list, and then it is the first that does.
pub proof fn lemma_first_shared_is_first_common(local: Seq<String>, remote: Seq<String>, n: int)
    requires
        0 <= n <= local.len(),
    ensures
        first_shared(local, remote, n) is Some <==> exists|i: int| 0 <= i < n && lists(remote, (#[trigger] local[i])@),
        first_shared(local, remote, n) matches Some(i) ==> i < n && first_common(local, remote, i),
    decreases n,
{
    if n > 0 {
        lemma_first_shared_is_first_common(local, remote, n - 1);
        if first_shared(local, remote, n - 1) is None && lists(remote, local[n - 1]@) {
            assert forall|j: int| 0 <= j < n - 1 implies !lists(remote, (#[trigger] local[j])@) by {
                if lists(remote, local[j]@) {
                    assert(exists|i: int| 0 <= i < n - 1 && lists(remote, (#[trigger] local[i])@));
                }
            }
        }
        if exists|i: int| 0 <= i < n && lists(remote, (#[trigger] local[i])@) {
            let i = choose|i: int| 0 <= i < n && lists(remote, (#[trigger] local[i])@);
            if i < n - 1 {
                assert(exists|i: int| 0 <= i < n - 1 && lists(remote, (#[trigger] local[i])@));
            }
        }
    }
}

/// Agrees on a schema version: the first local version the remote side also speaks. When
/// there is none the handshake is refused, naming both lists.
pub fn perform_handshake(local_versions: &[String], remote_versions: &[String]) -> (r: Result<HandshakeResult, SyncEngineError>)
    ensures
        r matches Ok(h) && match first_shared(local_versions@, remote_versions@, local_versions@.len() as int) {
            Some(i) => {
                &&& h.accepted
                &&& h.compatible
                &&& h.schema_version@ == local_versions@[i]@
                &&& h.reject_reason is None
                &&& h.suggested_compression@ == "zstd"@
            },
            None => {
                &&& !h.accepted
                &&& !h.compatible
                &&& h.schema_version@.len() == 0
                &&& h.suggested_compression@.len() == 0
                &&& h.reject_reason matches Some(m) && m@ == "No compatible schema version. Local: "@
                    + debug_list(strs_view(local_versions@)) + ", Remote: "@ + debug_list(strs_view(remote_versions@))
            },
        },
{
    proof {
        lemma_first_shared_is_first_common(local_versions@, remote_versions@, local_versions@.len() as int);
    }
    let n = local_versions.len();
    let mut k: usize = 0;
    while k < n
        invariant
            n == local_versions@.len(),
            k <= n,
            first_shared(local_versions@, remote_versions@, k as int) is None,
        decreases n - k,
    {
        if slice_lists(remote_versions, local_versions[k].as_str()) {
            proof {
                lemma_first_shared_stable(local_versions@, remote_versions@, k + 1, n as int);
            }
            return Ok(HandshakeResult {
                accepted: true,
                schema_version: local_versions[k].clone(),
                compatible: true,
                reject_reason: None,
                suggested_compression: owned("zstd"),
            });
        }
        k = k + 1;
    }
    let local_text = debug_list_text(local_versions);
    let remote_text = debug_list_text(remote_versions);
    Ok(HandshakeResult {
        accepted: false,
        schema_version: String::new(),
        compatible: false,
        reject_reason: Some(cat4("No compatible schema version. Local: ", local_text.as_str(), ", Remote: ", remote_text.as_str())),
        suggested_compression: String::new(),
    })
}

proof fn lemma_first_shared_stable(local: Seq<String>, remote: Seq<String>, k: int, n: int)
    requires
        0 <= k <= n,
        first_shared(local, remote, k) is Some,
    ensures
        first_shared(local, remote, n) == first_shared(local, remote, k),
    decreases n - k,
{
    if n > k {
        lemma_first_shared_stable(local, remote, k, n - 1);
    }
}

} // verus!
