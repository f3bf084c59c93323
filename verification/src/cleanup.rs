//! Forgetting the peers that have not announced for an hour.

use vstd::prelude::*;
use crate::db::{Criterion, delete_where, meeting, Tables, TablesView, without};
use crate::models::peer::{Peer, PeerView};
use crate::models::Timestamp;

verus! {

/// The seconds after which a peer that has not announced is forgotten.
pub const STALE_AFTER: i64 = 3600;

/// The condition to have been updated before a time.
pub struct UpdatedBefore(pub Timestamp);

impl Criterion<Peer> for UpdatedBefore {
    open spec fn holds(&self, v: PeerView) -> bool {
        v.updated_at < self.0
    }

    fn test(&self, row: &Peer) -> (b: bool) {
        row.updated_at < self.0
    }
}

/// Holds of the peers that are stale at `now`: those last updated more
/// than an hour before.
pub open spec fn stale(now: Timestamp) -> spec_fn(PeerView) -> bool {
    meeting::<Peer, UpdatedBefore>(UpdatedBefore((now - STALE_AFTER) as i64))
}

/// Deletes the peers that are stale at `now`. The result is the number of
/// peers deleted.
pub fn cleanup(db: &mut Tables, now: Timestamp) -> (r: usize)
    requires
        now >= i64::MIN + STALE_AFTER,
    ensures
        final(db)@ == (TablesView { peers: without(old(db)@.peers, stale(now)), ..old(db)@ }),
        r == old(db)@.peers.len() - final(db)@.peers.len(),
        old(db)@.wf() ==> final(db)@.wf(),
{
    proof {
        if db@.wf() {
            let fresh = |p: PeerView| !stale(now)(p);
            crate::db::lemma_those_distinct(db@.peers, fresh, crate::db::same_peer());
            crate::db::lemma_those_distinct(db@.peers, fresh, crate::db::same_peer_id());
        }
    }
    delete_where(&mut db.peers, &UpdatedBefore(now - STALE_AFTER))
}

} // verus!
