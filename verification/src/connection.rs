//! The life of one subscriber connection: registration of its interest set
//! with the hub on start, and exactly-once teardown at the end.
//!
//! The embedding process owns the transport: it checks admission, draws a
//! fresh connection id, opens the outbound channel whose receiving half the
//! delivery task drains, and runs the inbound liveness loop. The session
//! records which registrations it made, so teardown withdraws exactly
//! those; and teardown is idempotent, so racing exit triggers — a
//! transport error and an explicit close arriving together — tear down
//! only once.

use vstd::prelude::*;
use crate::hub::{NotificationHub, UpdateSender};

verus! {

/// Where a connection stands in its life cycle.
#[derive(Clone, Copy, Debug, PartialEq, Eq, Structural)]
pub enum SessionState {
    /// Registered with the hub; events are flowing.
    Active,
    /// Torn down; every registration this session made is withdrawn.
    Closed,
}

/// Among the first `upto` permission ids there is one that, with this
/// connection id, forms the key `k`.
spec fn listed_key(ids: Seq<i64>, connection_id: usize, upto: int, k: (i64, usize)) -> bool {
    exists|j: int| 0 <= j < upto && ids[j] == k.0 && k.1 == connection_id
}

/// The registration bookkeeping of one admitted connection.
pub struct ConnectionSession {
    /// The fresh id this connection was given; ids are never reused, so a
    /// reconnect is a new session under a new id.
    pub connection_id: usize,
    /// Exactly the permission ids this session registered with the hub.
    pub registered: Vec<i64>,
    /// Where the session stands in its life cycle.
    pub state: SessionState,
}

impl ConnectionSession {
    /// Exactly the permission ids this session registered with the hub.
    pub open spec fn registered_ids(&self) -> Seq<i64> {
        self.registered@
    }

    /// The session still holds its registrations.
    pub open spec fn is_active(&self) -> bool {
        self.state is Active
    }

    /// Opens the session of an admitted connection: registers its channel
    /// with the hub under every requested permission id, and records that
    /// set for the teardown. The connection id must be fresh — the hub
    /// holds no entry for it — which the id source guarantees by never
    /// handing an id out twice.
    pub fn start(
        hub: &mut NotificationHub,
        connection_id: usize,
        permission_ids: &Vec<i64>,
        channel: UpdateSender,
    ) -> (session: ConnectionSession)
        requires
            old(hub).wf(),
            forall|p: i64| !old(hub).registry().dom().contains((p, connection_id)),
        ensures
            final(hub).wf(),
            session.is_active(),
            session.connection_id == connection_id,
            session.registered_ids() == permission_ids@,
            forall|k: (i64, usize)| #[trigger] final(hub).registry().dom().contains(k)
                <==> (old(hub).registry().dom().contains(k) || (permission_ids@.contains(k.0)
                    && k.1 == connection_id)),
            forall|k: (i64, usize)| #[trigger] final(hub).registry().dom().contains(k)
                ==> final(hub).registry()[k] == (if k.1 == connection_id {
                    channel
                } else {
                    old(hub).registry()[k]
                }),
    {
        let ghost m0 = hub.registry();
        let ghost ids = permission_ids@;
        proof {
            assert forall|k: (i64, usize)| m0.dom().contains(k) implies k.1 != connection_id by {
                if k.1 == connection_id {
                    assert(k == (k.0, connection_id));
                    assert(!m0.dom().contains((k.0, connection_id)));
                }
            }
        }
        let mut registered: Vec<i64> = Vec::new();
        let n = permission_ids.len();
        let mut i: usize = 0;
        while i < n
            invariant
                hub.wf(),
                m0 == old(hub).registry(),
                ids == permission_ids@,
                n == ids.len(),
                i <= n,
                registered@ == ids.subrange(0, i as int),
                forall|p: i64| !m0.dom().contains((p, connection_id)),
                forall|k: (i64, usize)| #[trigger] hub.registry().dom().contains(k)
                    <==> (m0.dom().contains(k) || listed_key(ids, connection_id, i as int, k)),
                forall|k: (i64, usize)| #[trigger] hub.registry().dom().contains(k)
                    ==> hub.registry()[k] == (if k.1 == connection_id {
                        channel
                    } else {
                        m0[k]
                    }),
            decreases n - i,
        {
            let p = permission_ids[i];
            let ghost before = hub.registry();
            let ch = channel.clone();
            hub.subscribe(p, connection_id, ch);
            proof {
                assert(registered@.push(ids[i as int]) =~= ids.subrange(0, i as int + 1));
                assert forall|k: (i64, usize)| m0.dom().contains(k)
                    implies k.1 != connection_id by {
                    if k.1 == connection_id {
                        assert(k == (k.0, connection_id));
                        assert(!m0.dom().contains((k.0, connection_id)));
                    }
                }
                assert forall|k: (i64, usize)| #[trigger] hub.registry().dom().contains(k)
                    implies (m0.dom().contains(k)
                        || listed_key(ids, connection_id, i as int + 1, k)) by {
                    if k == (p, connection_id) {
                        assert(ids[i as int] == k.0 && k.1 == connection_id);
                        assert(listed_key(ids, connection_id, i as int + 1, k));
                    } else {
                        assert(before.dom().contains(k));
                        if listed_key(ids, connection_id, i as int, k) {
                            let j = choose|j: int|
                                0 <= j < i as int && ids[j] == k.0 && k.1 == connection_id;
                            assert(0 <= j < i as int + 1 && ids[j] == k.0
                                && k.1 == connection_id);
                        }
                    }
                }
                assert forall|k: (i64, usize)| m0.dom().contains(k) || listed_key(
                    ids,
                    connection_id,
                    i as int + 1,
                    k,
                ) implies #[trigger] hub.registry().dom().contains(k) by {
                    if k != (p, connection_id) {
                        if listed_key(ids, connection_id, i as int + 1, k) {
                            let j = choose|j: int|
                                0 <= j < i as int + 1 && ids[j] == k.0 && k.1 == connection_id;
                            assert(j < i as int);
                            assert(listed_key(ids, connection_id, i as int, k));
                        }
                        assert(before.dom().contains(k));
                    }
                }
            }
            registered.push(p);
            i += 1;
        }
        proof {
            assert(registered@ =~= ids);
            assert forall|k: (i64, usize)| listed_key(ids, connection_id, n as int, k)
                implies (ids.contains(k.0) && k.1 == connection_id) by {
                let j = choose|j: int| 0 <= j < n as int && ids[j] == k.0
                    && k.1 == connection_id;
                assert(ids.contains(k.0));
            }
            assert forall|k: (i64, usize)| ids.contains(k.0) && k.1 == connection_id
                implies listed_key(ids, connection_id, n as int, k) by {
                let j = choose|j: int| 0 <= j < ids.len() && ids[j] == k.0;
                assert(0 <= j < n as int && ids[j] == k.0 && k.1 == connection_id);
            }
        }
        ConnectionSession { connection_id, registered, state: SessionState::Active }
    }

    /// Tears the session down: withdraws every registration it made,
    /// exactly once. Once closed, a second call — from whichever exit
    /// trigger came later — is a no-op that leaves the hub untouched.
    pub fn terminate(&mut self, hub: &mut NotificationHub)
        requires
            old(hub).wf(),
        ensures
            final(hub).wf(),
            final(self).connection_id == old(self).connection_id,
            final(self).registered_ids() == old(self).registered_ids(),
            !final(self).is_active(),
            !old(self).is_active() ==> *final(hub) == *old(hub),
            old(self).is_active() ==> (forall|k: (i64, usize)|
                #[trigger] final(hub).registry().dom().contains(k)
                    <==> (old(hub).registry().dom().contains(k) && !(
                    old(self).registered_ids().contains(k.0) && k.1
                        == old(self).connection_id))),
            old(self).is_active() ==> (forall|k: (i64, usize)|
                #[trigger] final(hub).registry().dom().contains(k) ==> final(hub).registry()[k]
                    == old(hub).registry()[k]),
    {
        match self.state {
            SessionState::Closed => {},
            SessionState::Active => {
                hub.unsubscribe_all(self.connection_id, &self.registered);
                self.state = SessionState::Closed;
            },
        }
    }
}

/// A settled teardown leaves no trace: when every registration the hub
/// holds for a connection is among what its session recorded — as it is
/// when all registration went through the session — withdrawing the
/// recorded set leaves the registry without any key of that connection.
pub proof fn lemma_teardown_leaves_no_entries(
    before: Map<(i64, usize), UpdateSender>,
    after: Map<(i64, usize), UpdateSender>,
    registered: Seq<i64>,
    connection_id: usize,
)
    requires
        forall|k: (i64, usize)| #[trigger] before.dom().contains(k) && k.1 == connection_id
            ==> registered.contains(k.0),
        forall|k: (i64, usize)| #[trigger] after.dom().contains(k) <==> (before.dom().contains(
            k,
        ) && !(registered.contains(k.0) && k.1 == connection_id)),
    ensures
        forall|p: i64| !after.dom().contains((p, connection_id)),
{
    assert forall|p: i64| !after.dom().contains((p, connection_id)) by {
        if after.dom().contains((p, connection_id)) {
            assert(before.dom().contains((p, connection_id)));
            assert(registered.contains(p));
        }
    }
}

} // verus!
