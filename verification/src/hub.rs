//! The notification hub: the subscriber registry and the fan-out of
//! permission-update events.
//!
//! The registry maps each (permission id, connection id) pair to the
//! outbound channel of one live connection. It is mutated only through the
//! operations below; the embedding process serializes them behind one lock,
//! so each operation takes the registry whole.

use vstd::prelude::*;

verus! {

/// A change in whether a user holds a permission: the immutable event the
/// hub fans out.
#[derive(Clone, Copy, Debug, PartialEq, Eq, Structural)]
pub struct PermissionUpdate {
    pub user_id: i64,
    pub permission_id: i64,
    pub allowed: bool,
}

#[verifier::external_type_specification]
#[verifier::external_body]
#[verifier::reject_recursive_types(T)]
pub struct ExUnboundedSender<T>(tokio::sync::mpsc::UnboundedSender<T>);

/// The outbound channel handle of one live connection.
pub type UpdateSender = tokio::sync::mpsc::UnboundedSender<PermissionUpdate>;

/// Relies on tokio's UnboundedSender::clone: a clone feeds the same queue
/// as the original, so the registry model treats the two as one channel.
pub assume_specification<T>[ <tokio::sync::mpsc::UnboundedSender<T> as Clone>::clone ](
    tx: &tokio::sync::mpsc::UnboundedSender<T>,
) -> (r: tokio::sync::mpsc::UnboundedSender<T>)
    ensures
        r == *tx,
;

/// Relies on tokio's UnboundedSender::send: the event joins the receiver's
/// queue after everything sent on the channel before it, unless the
/// receiving half is gone; the result reports which of the two happened.
#[verifier::external_body]
fn send_event(tx: &UpdateSender, event: PermissionUpdate) -> (ok: bool) {
    tx.send(event).is_ok()
}

/// One registered interest: a connection's channel listed under a
/// permission id.
pub struct Subscription {
    pub permission_id: i64,
    pub connection_id: usize,
    pub channel: UpdateSender,
}

impl Subscription {
    /// The registry key this entry stands under.
    pub open spec fn pair(&self) -> (i64, usize) {
        (self.permission_id, self.connection_id)
    }
}

/// No two entries stand under the same (permission, connection) key.
pub open spec fn distinct_pairs(s: Seq<Subscription>) -> bool {
    forall|i: int, j: int|
        0 <= i < j < s.len() ==> (#[trigger] s[i]).pair() != (#[trigger] s[j]).pair()
}

/// The registry a sequence of entries denotes: a finite map from
/// (permission id, connection id) to the registered channel.
pub open spec fn seq_registry(s: Seq<Subscription>) -> Map<(i64, usize), UpdateSender> {
    Map::new(
        |k: (i64, usize)| exists|i: int| 0 <= i < s.len() && (#[trigger] s[i]).pair() == k,
        |k: (i64, usize)|
            s[choose|i: int| 0 <= i < s.len() && (#[trigger] s[i]).pair() == k].channel,
    )
}

/// Each entry's key is in the registry's domain, and under distinct keys it
/// is this entry's channel the key maps to.
proof fn lemma_registry_contains(s: Seq<Subscription>, i: int)
    requires
        0 <= i < s.len(),
    ensures
        seq_registry(s).dom().contains(s[i].pair()),
        distinct_pairs(s) ==> seq_registry(s)[s[i].pair()] == s[i].channel,
{
    assert(0 <= i < s.len() && s[i].pair() == s[i].pair());
    assert(seq_registry(s).dom().contains(s[i].pair()));
    if distinct_pairs(s) {
        let j = choose|j: int| 0 <= j < s.len() && (#[trigger] s[j]).pair() == s[i].pair();
        assert(j == i);
    }
}

/// Overwriting the entry at `i` with one under the same key leaves the
/// registry with that key bound to the new channel and all else unchanged.
proof fn lemma_registry_update(pre: Seq<Subscription>, post: Seq<Subscription>, i: int)
    requires
        distinct_pairs(pre),
        post.len() == pre.len(),
        0 <= i < pre.len(),
        post[i].pair() == pre[i].pair(),
        forall|j: int| 0 <= j < pre.len() && j != i ==> post[j] == pre[j],
    ensures
        distinct_pairs(post),
        seq_registry(post) == seq_registry(pre).insert(pre[i].pair(), post[i].channel),
{
    assert(forall|j: int| 0 <= j < post.len() ==> (#[trigger] post[j]).pair() == pre[j].pair());
    let k = pre[i].pair();
    let m1 = seq_registry(post);
    let m2 = seq_registry(pre).insert(k, post[i].channel);
    assert forall|k2: (i64, usize)| m1.dom().contains(k2) implies m2.dom().contains(k2)
        && m1[k2] == m2[k2] by {
        let j = choose|j: int| 0 <= j < post.len() && (#[trigger] post[j]).pair() == k2;
        lemma_registry_contains(post, j);
        if k2 == k {
            assert(j == i);
        } else {
            assert(j != i);
            lemma_registry_contains(pre, j);
        }
    }
    assert forall|k2: (i64, usize)| m2.dom().contains(k2) implies m1.dom().contains(k2) by {
        if k2 == k {
            lemma_registry_contains(post, i);
        } else {
            let j = choose|j: int| 0 <= j < pre.len() && (#[trigger] pre[j]).pair() == k2;
            assert(j != i);
            lemma_registry_contains(post, j);
        }
    }
    assert(m1 =~= m2);
}

/// Appending an entry under a key no entry holds binds that key and leaves
/// all else unchanged.
proof fn lemma_registry_push(pre: Seq<Subscription>, e: Subscription)
    requires
        distinct_pairs(pre),
        forall|j: int| 0 <= j < pre.len() ==> (#[trigger] pre[j]).pair() != e.pair(),
    ensures
        distinct_pairs(pre.push(e)),
        seq_registry(pre.push(e)) == seq_registry(pre).insert(e.pair(), e.channel),
{
    let post = pre.push(e);
    assert(forall|j: int| 0 <= j < pre.len() ==> post[j] == pre[j]);
    assert(post[pre.len() as int] == e);
    assert(distinct_pairs(post));
    let m1 = seq_registry(post);
    let m2 = seq_registry(pre).insert(e.pair(), e.channel);
    assert forall|k2: (i64, usize)| m1.dom().contains(k2) implies m2.dom().contains(k2)
        && m1[k2] == m2[k2] by {
        let j = choose|j: int| 0 <= j < post.len() && (#[trigger] post[j]).pair() == k2;
        lemma_registry_contains(post, j);
        if k2 == e.pair() {
            assert(j == pre.len());
        } else {
            assert(j < pre.len());
            lemma_registry_contains(pre, j);
        }
    }
    assert forall|k2: (i64, usize)| m2.dom().contains(k2) implies m1.dom().contains(k2) by {
        if k2 == e.pair() {
            lemma_registry_contains(post, pre.len() as int);
        } else {
            let j = choose|j: int| 0 <= j < pre.len() && (#[trigger] pre[j]).pair() == k2;
            lemma_registry_contains(post, j);
        }
    }
    assert(m1 =~= m2);
}

/// Removing the entry at `i` unbinds exactly its key.
proof fn lemma_registry_remove(pre: Seq<Subscription>, i: int)
    requires
        distinct_pairs(pre),
        0 <= i < pre.len(),
    ensures
        distinct_pairs(pre.remove(i)),
        seq_registry(pre.remove(i)) == seq_registry(pre).remove(pre[i].pair()),
{
    let post = pre.remove(i);
    pre.remove_ensures(i);
    assert forall|a: int, b: int| 0 <= a < b < post.len() implies (#[trigger] post[a]).pair()
        != (#[trigger] post[b]).pair() by {
        let a2: int = if a < i { a } else { a + 1 };
        let b2: int = if b < i { b } else { b + 1 };
        assert(post[a] == pre[a2] && post[b] == pre[b2]);
    }
    assert(distinct_pairs(post));
    let k = pre[i].pair();
    let m1 = seq_registry(post);
    let m2 = seq_registry(pre).remove(k);
    assert forall|k2: (i64, usize)| m1.dom().contains(k2) implies m2.dom().contains(k2)
        && m1[k2] == m2[k2] by {
        let j = choose|j: int| 0 <= j < post.len() && (#[trigger] post[j]).pair() == k2;
        let j2: int = if j < i { j } else { j + 1 };
        assert(post[j] == pre[j2]);
        assert(j2 != i);
        assert(k2 != k);
        lemma_registry_contains(post, j);
        lemma_registry_contains(pre, j2);
    }
    assert forall|k2: (i64, usize)| m2.dom().contains(k2) implies m1.dom().contains(k2) by {
        let j2 = choose|j: int| 0 <= j < pre.len() && (#[trigger] pre[j]).pair() == k2;
        assert(j2 != i);
        let j: int = if j2 < i { j2 } else { j2 - 1 };
        assert(post[j] == pre[j2]);
        lemma_registry_contains(post, j);
    }
    assert(m1 =~= m2);
}


/// Among the first `upto` permission ids there is one that, with this
/// connection id, forms the key `k`.
spec fn removed_key(ids: Seq<i64>, connection_id: usize, upto: int, k: (i64, usize)) -> bool {
    exists|j: int| 0 <= j < upto && ids[j] == k.0 && k.1 == connection_id
}

/// `e` is one of the first `upto` entries.
spec fn from_prefix(s: Seq<Subscription>, upto: int, e: Subscription) -> bool {
    exists|l: int| 0 <= l < upto && e == s[l]
}

/// Among the first `upto` entries there is one under the key
/// (permission_id, connection_id).
spec fn prefix_has_pair(
    s: Seq<Subscription>,
    upto: int,
    permission_id: i64,
    connection_id: usize,
) -> bool {
    exists|l: int| 0 <= l < upto && (#[trigger] s[l]).pair() == (permission_id, connection_id)
}

/// The process-wide registry of live subscriptions.
pub struct NotificationHub {
    subs: Vec<Subscription>,
}

impl NotificationHub {
    /// The abstract registry: which channel each live (permission id,
    /// connection id) pair maps to.
    pub closed spec fn registry(&self) -> Map<(i64, usize), UpdateSender> {
        seq_registry(self.subs@)
    }

    /// The hub's invariant: at most one entry per (permission, connection)
    /// pair, so a connection owns at most one channel under any key.
    pub closed spec fn wf(&self) -> bool {
        distinct_pairs(self.subs@)
    }

    /// An empty hub: no subscriber registered under any permission.
    pub fn new() -> (r: NotificationHub)
        ensures
            r.wf(),
            r.registry() == Map::<(i64, usize), UpdateSender>::empty(),
    {
        let r = NotificationHub { subs: Vec::new() };
        proof {
            assert(r.registry() =~= Map::<(i64, usize), UpdateSender>::empty());
        }
        r
    }

    /// Registers `channel` for `connection_id` under `permission_id`.
    /// Idempotent per pair: re-subscribing overwrites the prior channel
    /// for that pair and touches nothing else.
    pub fn subscribe(
        &mut self,
        permission_id: i64,
        connection_id: usize,
        channel: UpdateSender,
    )
        requires
            old(self).wf(),
        ensures
            final(self).wf(),
            final(self).registry() == old(self).registry().insert(
                (permission_id, connection_id),
                channel,
            ),
    {
        let ghost pre = self.subs@;
        let ghost k = (permission_id, connection_id);
        let n = self.subs.len();
        let mut i: usize = 0;
        while i < n
            invariant
                self.subs@ == pre,
                pre == old(self).subs@,
                distinct_pairs(pre),
                n == pre.len(),
                i <= n,
                k == (permission_id, connection_id),
                forall|j: int| 0 <= j < i ==> (#[trigger] pre[j]).pair() != k,
            decreases n - i,
        {
            if self.subs[i].permission_id == permission_id
                && self.subs[i].connection_id == connection_id {
                self.subs[i] = Subscription { permission_id, connection_id, channel };
                proof {
                    lemma_registry_update(pre, self.subs@, i as int);
                }
                return;
            }
            i += 1;
        }
        self.subs.push(Subscription { permission_id, connection_id, channel });
        proof {
            lemma_registry_push(pre, self.subs@.last());
        }
    }

    /// Withdraws the registration of `connection_id` under
    /// `permission_id`; a no-op when no such registration is live, so a
    /// disconnect racing a teardown cannot fail.
    pub fn unsubscribe(&mut self, permission_id: i64, connection_id: usize)
        requires
            old(self).wf(),
        ensures
            final(self).wf(),
            final(self).registry() == old(self).registry().remove(
                (permission_id, connection_id),
            ),
    {
        let ghost pre = self.subs@;
        let ghost k = (permission_id, connection_id);
        let n = self.subs.len();
        let mut i: usize = 0;
        while i < n
            invariant
                self.subs@ == pre,
                pre == old(self).subs@,
                distinct_pairs(pre),
                n == pre.len(),
                i <= n,
                k == (permission_id, connection_id),
                forall|j: int| 0 <= j < i ==> (#[trigger] pre[j]).pair() != k,
            decreases n - i,
        {
            if self.subs[i].permission_id == permission_id
                && self.subs[i].connection_id == connection_id {
                self.subs.remove(i);
                proof {
                    lemma_registry_remove(pre, i as int);
                }
                return;
            }
            i += 1;
        }
        proof {
            assert(!seq_registry(pre).dom().contains(k));
            assert(seq_registry(pre) =~= seq_registry(pre).remove(k));
        }
    }


    /// Batch teardown for one connection: withdraws exactly its
    /// registrations under the given permission ids, whatever their order
    /// or overlap, and leaves every other registration, with its channel,
    /// untouched.
    pub fn unsubscribe_all(&mut self, connection_id: usize, permission_ids: &Vec<i64>)
        requires
            old(self).wf(),
        ensures
            final(self).wf(),
            forall|k: (i64, usize)| #[trigger] final(self).registry().dom().contains(k)
                <==> (old(self).registry().dom().contains(k) && !(permission_ids@.contains(k.0)
                    && k.1 == connection_id)),
            forall|k: (i64, usize)| #[trigger] final(self).registry().dom().contains(k)
                ==> final(self).registry()[k] == old(self).registry()[k],
    {
        let ghost m0 = self.registry();
        let ghost ids = permission_ids@;
        let n = permission_ids.len();
        let mut i: usize = 0;
        while i < n
            invariant
                self.wf(),
                m0 == old(self).registry(),
                ids == permission_ids@,
                n == ids.len(),
                i <= n,
                forall|k: (i64, usize)| #[trigger] self.registry().dom().contains(k)
                    <==> (m0.dom().contains(k) && !removed_key(ids, connection_id, i as int, k)),
                forall|k: (i64, usize)| #[trigger] self.registry().dom().contains(k)
                    ==> self.registry()[k] == m0[k],
            decreases n - i,
        {
            let p = permission_ids[i];
            let ghost before = self.registry();
            self.unsubscribe(p, connection_id);
            proof {
                assert forall|k: (i64, usize)| #[trigger] self.registry().dom().contains(k)
                    implies (m0.dom().contains(k)
                        && !removed_key(ids, connection_id, i as int + 1, k)) by {
                    assert(before.dom().contains(k) && k != (p, connection_id));
                    if removed_key(ids, connection_id, i as int + 1, k) {
                        let j = choose|j: int|
                            0 <= j < i as int + 1 && ids[j] == k.0 && k.1 == connection_id;
                        if j < i as int {
                            assert(removed_key(ids, connection_id, i as int, k));
                        } else {
                            assert(k == (p, connection_id));
                        }
                    }
                }
                assert forall|k: (i64, usize)| m0.dom().contains(k)
                    && !removed_key(ids, connection_id, i as int + 1, k)
                    implies #[trigger] self.registry().dom().contains(k) by {
                    assert(!removed_key(ids, connection_id, i as int, k)) by {
                        if removed_key(ids, connection_id, i as int, k) {
                            let j = choose|j: int|
                                0 <= j < i as int && ids[j] == k.0 && k.1 == connection_id;
                            assert(0 <= j < i as int + 1 && ids[j] == k.0
                                && k.1 == connection_id);
                        }
                    }
                    assert(k != (p, connection_id)) by {
                        if k == (p, connection_id) {
                            assert(ids[i as int] == k.0 && k.1 == connection_id);
                            assert(removed_key(ids, connection_id, i as int + 1, k));
                        }
                    }
                }
            }
            i += 1;
        }
        proof {
            assert forall|k: (i64, usize)| removed_key(ids, connection_id, n as int, k)
                implies (ids.contains(k.0) && k.1 == connection_id) by {
                let j = choose|j: int| 0 <= j < n as int && ids[j] == k.0
                    && k.1 == connection_id;
                assert(ids.contains(k.0));
            }
            assert forall|k: (i64, usize)| ids.contains(k.0) && k.1 == connection_id
                implies removed_key(ids, connection_id, n as int, k) by {
                let j = choose|j: int| 0 <= j < ids.len() && ids[j] == k.0;
                assert(0 <= j < n as int && ids[j] == k.0 && k.1 == connection_id);
            }
        }
    }

    /// Fans one event out: sends it to every channel registered under the
    /// event's permission id and prunes exactly the entries whose
    /// receiving half is gone, so one dead subscriber neither blocks the
    /// publisher nor the delivery to anyone else. Returns the connection
    /// ids the event was delivered to.
    pub fn publish(&mut self, event: &PermissionUpdate) -> (delivered: Vec<usize>)
        requires
            old(self).wf(),
        ensures
            final(self).wf(),
            // nothing appears, and every surviving entry keeps its channel
            forall|k: (i64, usize)| #[trigger] final(self).registry().dom().contains(k)
                ==> old(self).registry().dom().contains(k) && final(self).registry()[k]
                == old(self).registry()[k],
            // entries under other permission ids all survive
            forall|k: (i64, usize)| #[trigger] old(self).registry().dom().contains(k)
                && k.0 != event.permission_id ==> final(self).registry().dom().contains(k),
            // the event went only to connections registered under its id
            forall|j: int| 0 <= j < delivered@.len() ==> old(self).registry().dom().contains(
                (event.permission_id, #[trigger] delivered@[j]),
            ),
            // an entry under the event's id survives exactly when its
            // connection was delivered to; the rest were pruned
            forall|k: (i64, usize)| #[trigger] old(self).registry().dom().contains(k)
                && k.0 == event.permission_id ==> (final(self).registry().dom().contains(k)
                <==> delivered@.contains(k.1)),
            // no connection is delivered to twice
            forall|a: int, b: int| 0 <= a < b < delivered@.len()
                ==> delivered@[a] != delivered@[b],
    {
        let ghost pre = self.subs@;
        let mut kept: Vec<Subscription> = Vec::new();
        let mut delivered: Vec<usize> = Vec::new();
        let n = self.subs.len();
        let mut i: usize = 0;
        while i < n
            invariant
                self.subs@ == pre,
                pre == old(self).subs@,
                distinct_pairs(pre),
                n == pre.len(),
                i <= n,
                distinct_pairs(kept@),
                forall|j: int| 0 <= j < kept@.len()
                    ==> from_prefix(pre, i as int, #[trigger] kept@[j]),
                forall|l: int| 0 <= l < i && (#[trigger] pre[l]).permission_id
                    != event.permission_id ==> kept@.contains(pre[l]),
                forall|l: int| 0 <= l < i && (#[trigger] pre[l]).permission_id
                    == event.permission_id ==> (kept@.contains(pre[l])
                    <==> delivered@.contains(pre[l].connection_id)),
                forall|j: int| 0 <= j < delivered@.len() ==> prefix_has_pair(
                    pre,
                    i as int,
                    event.permission_id,
                    #[trigger] delivered@[j],
                ),
                forall|a: int, b: int| 0 <= a < b < delivered@.len()
                    ==> delivered@[a] != delivered@[b],
            decreases n - i,
        {
            let ghost prev_kept = kept@;
            let ghost prev_del = delivered@;
            let sub_p = self.subs[i].permission_id;
            let sub_c = self.subs[i].connection_id;
            let keep_entry: bool;
            if sub_p != event.permission_id {
                keep_entry = true;
            } else {
                let ok = send_event(&self.subs[i].channel, *event);
                if ok {
                    delivered.push(sub_c);
                    keep_entry = true;
                } else {
                    keep_entry = false;
                }
            }
            if keep_entry {
                let ch = self.subs[i].channel.clone();
                kept.push(Subscription { permission_id: sub_p, connection_id: sub_c, channel: ch });
            }
            proof {
                let li = i as int;
                assert(pre[li].pair() == (sub_p, sub_c));
                // the prefix-membership facts are monotone in the bound
                assert forall|j: int| 0 <= j < prev_kept.len()
                    implies from_prefix(pre, li + 1, #[trigger] prev_kept[j]) by {
                    assert(from_prefix(pre, li, prev_kept[j]));
                    let l = choose|l: int| 0 <= l < li && prev_kept[j] == pre[l];
                    assert(0 <= l < li + 1 && prev_kept[j] == pre[l]);
                }
                assert forall|j: int| 0 <= j < prev_del.len() implies prefix_has_pair(
                    pre,
                    li + 1,
                    event.permission_id,
                    #[trigger] prev_del[j],
                ) by {
                    assert(prefix_has_pair(pre, li, event.permission_id, prev_del[j]));
                    let l = choose|l: int|
                        0 <= l < li && (#[trigger] pre[l]).pair()
                            == (event.permission_id, prev_del[j]);
                    assert(0 <= l < li + 1 && pre[l].pair() == (event.permission_id, prev_del[j]));
                }
                // an entry of the prefix never equals the entry at i
                assert forall|j: int| 0 <= j < prev_kept.len()
                    implies #[trigger] prev_kept[j] != pre[li] by {
                    let l = choose|l: int| 0 <= l < li && prev_kept[j] == pre[l];
                    assert(pre[l].pair() != pre[li].pair());
                }
                if keep_entry {
                    assert(kept@ == prev_kept.push(pre[li]));
                    assert(kept@.last() == pre[li]);
                    assert forall|j: int| 0 <= j < kept@.len()
                        implies from_prefix(pre, li + 1, #[trigger] kept@[j]) by {
                        if j < prev_kept.len() {
                            assert(kept@[j] == prev_kept[j]);
                        } else {
                            assert(kept@[j] == pre[li]);
                            assert(0 <= li < li + 1 && kept@[j] == pre[li]);
                        }
                    }
                    assert forall|a: int, b: int| 0 <= a < b < kept@.len()
                        implies (#[trigger] kept@[a]).pair() != (#[trigger] kept@[b]).pair() by {
                        if b == kept@.len() - 1 {
                            assert(kept@[a] == prev_kept[a]);
                            let l = choose|l: int| 0 <= l < li && kept@[a] == pre[l];
                            assert(pre[l].pair() != pre[li].pair());
                        } else {
                            assert(kept@[a] == prev_kept[a] && kept@[b] == prev_kept[b]);
                        }
                    }
                    assert(distinct_pairs(kept@));
                    // membership in kept: the old entries and the one at i
                    assert forall|l: int| 0 <= l < li + 1 && prev_kept.contains(pre[l])
                        implies kept@.contains(pre[l]) by {
                        let j = choose|j: int| 0 <= j < prev_kept.len() && prev_kept[j] == pre[l];
                        assert(kept@[j] == pre[l]);
                    }
                    assert(kept@[kept@.len() - 1] == pre[li]);
                    assert(kept@.contains(pre[li]));
                    assert forall|l: int| 0 <= l < li + 1 && kept@.contains(pre[l])
                        && l != li implies prev_kept.contains(pre[l]) by {
                        let j = choose|j: int| 0 <= j < kept@.len() && kept@[j] == pre[l];
                        if j == kept@.len() - 1 {
                            assert(pre[li] == pre[l]);
                            assert(pre[li].pair() == pre[l].pair());
                            assert(false);
                        } else {
                            assert(prev_kept[j] == pre[l]);
                        }
                    }
                } else {
                    // dropped: the entry at i is in neither vector
                    assert(kept@ == prev_kept);
                    assert(!kept@.contains(pre[li])) by {
                        if kept@.contains(pre[li]) {
                            let j = choose|j: int| 0 <= j < kept@.len() && kept@[j] == pre[li];
                            assert(prev_kept[j] != pre[li]);
                        }
                    }
                }
                if sub_p == event.permission_id && keep_entry {
                    // a successful send: the connection joined `delivered`,
                    // and it was not there yet, since only an earlier entry
                    // under the same key could have put it there
                    assert(delivered@ == prev_del.push(sub_c));
                    assert(delivered@[delivered@.len() - 1] == sub_c);
                    assert(delivered@.contains(sub_c));
                    assert forall|j: int| 0 <= j < prev_del.len()
                        implies #[trigger] prev_del[j] != sub_c by {
                        if prev_del[j] == sub_c {
                            assert(prefix_has_pair(pre, li, event.permission_id, prev_del[j]));
                            let l = choose|l: int|
                                0 <= l < li && (#[trigger] pre[l]).pair()
                                    == (event.permission_id, prev_del[j]);
                            assert(pre[l].pair() != pre[li].pair());
                        }
                    }
                    assert(pre[li].pair() == (event.permission_id, sub_c));
                    assert(prefix_has_pair(pre, li + 1, event.permission_id, sub_c));
                } else {
                    assert(delivered@ == prev_del);
                }
                // no earlier entry under the event's id shares this
                // connection id, so pushing sub_c flips no equivalence
                assert forall|l: int| 0 <= l < li && (#[trigger] pre[l]).permission_id
                    == event.permission_id && sub_p == event.permission_id
                    implies pre[l].connection_id != sub_c by {
                    assert(pre[l].pair() != pre[li].pair());
                }
                assert forall|l: int| 0 <= l < li && (#[trigger] pre[l]).permission_id
                    == event.permission_id implies (kept@.contains(pre[l])
                    <==> delivered@.contains(pre[l].connection_id)) by {
                    assert(prev_kept.contains(pre[l]) <==> prev_del.contains(
                        pre[l].connection_id,
                    ));
                    if kept@.contains(pre[l]) {
                        let j = choose|j: int| 0 <= j < kept@.len() && kept@[j] == pre[l];
                        if j < prev_kept.len() {
                            assert(prev_kept[j] == pre[l]);
                        } else {
                            assert(kept@[j] == pre[li]);
                            assert(pre[li].pair() == pre[l].pair());
                            assert(false);
                        }
                        assert(prev_del.contains(pre[l].connection_id));
                        let j2 = choose|j2: int|
                            0 <= j2 < prev_del.len() && prev_del[j2] == pre[l].connection_id;
                        assert(delivered@[j2] == pre[l].connection_id);
                    }
                    if delivered@.contains(pre[l].connection_id) {
                        let j = choose|j: int|
                            0 <= j < delivered@.len() && delivered@[j] == pre[l].connection_id;
                        if j < prev_del.len() {
                            assert(prev_del[j] == pre[l].connection_id);
                        } else {
                            assert(delivered@ != prev_del);
                            assert(sub_p == event.permission_id && keep_entry);
                            assert(delivered@[j] == sub_c);
                            assert(pre[l].connection_id != sub_c);
                            assert(false);
                        }
                        assert(prev_kept.contains(pre[l]));
                        let j2 = choose|j2: int|
                            0 <= j2 < prev_kept.len() && prev_kept[j2] == pre[l];
                        assert(kept@[j2] == pre[l]);
                    }
                }
                // the entry at i itself satisfies the invariant at i + 1
                if pre[li].permission_id == event.permission_id {
                    if keep_entry {
                        assert(kept@.contains(pre[li]) && delivered@.contains(sub_c));
                    } else {
                        assert(!kept@.contains(pre[li]));
                        assert(!delivered@.contains(sub_c)) by {
                            if delivered@.contains(sub_c) {
                                let j = choose|j: int|
                                    0 <= j < delivered@.len() && delivered@[j] == sub_c;
                                assert(prev_del[j] == sub_c);
                                assert(prefix_has_pair(pre, li, event.permission_id, sub_c));
                                let l = choose|l: int|
                                    0 <= l < li && (#[trigger] pre[l]).pair()
                                        == (event.permission_id, sub_c);
                                assert(pre[l].pair() != pre[li].pair());
                                assert(false);
                            }
                        }
                    }
                }
            }
            i += 1;
        }
        let ghost kept_final = kept@;
        let ghost del_final = delivered@;
        self.subs = kept;
        proof {
            let m0 = seq_registry(pre);
            let m1 = seq_registry(kept_final);
            assert forall|k: (i64, usize)| #[trigger] m1.dom().contains(k)
                implies m0.dom().contains(k) && m1[k] == m0[k] by {
                let j = choose|j: int|
                    0 <= j < kept_final.len() && (#[trigger] kept_final[j]).pair() == k;
                lemma_registry_contains(kept_final, j);
                assert(from_prefix(pre, n as int, kept_final[j]));
                let l = choose|l: int| 0 <= l < n as int && kept_final[j] == pre[l];
                lemma_registry_contains(pre, l);
            }
            assert forall|k: (i64, usize)| #[trigger] m0.dom().contains(k)
                && k.0 != event.permission_id implies m1.dom().contains(k) by {
                let l = choose|l: int| 0 <= l < pre.len() && (#[trigger] pre[l]).pair() == k;
                assert(pre[l].permission_id != event.permission_id);
                assert(kept_final.contains(pre[l]));
                let j = choose|j: int| 0 <= j < kept_final.len() && kept_final[j] == pre[l];
                lemma_registry_contains(kept_final, j);
            }
            assert forall|j: int| 0 <= j < del_final.len() implies m0.dom().contains(
                (event.permission_id, #[trigger] del_final[j]),
            ) by {
                assert(prefix_has_pair(pre, n as int, event.permission_id, del_final[j]));
                let l = choose|l: int|
                    0 <= l < n as int && (#[trigger] pre[l]).pair()
                        == (event.permission_id, del_final[j]);
                lemma_registry_contains(pre, l);
            }
            assert forall|k: (i64, usize)| #[trigger] m0.dom().contains(k)
                && k.0 == event.permission_id implies (m1.dom().contains(k)
                <==> del_final.contains(k.1)) by {
                let l = choose|l: int| 0 <= l < pre.len() && (#[trigger] pre[l]).pair() == k;
                assert(kept_final.contains(pre[l]) <==> del_final.contains(pre[l].connection_id));
                if m1.dom().contains(k) {
                    let j = choose|j: int|
                        0 <= j < kept_final.len() && (#[trigger] kept_final[j]).pair() == k;
                    assert(from_prefix(pre, n as int, kept_final[j]));
                    let l2 = choose|l2: int| 0 <= l2 < n as int && kept_final[j] == pre[l2];
                    assert(pre[l2].pair() == k);
                    assert(l2 == l);
                    assert(kept_final.contains(pre[l]));
                }
                if kept_final.contains(pre[l]) {
                    let j = choose|j: int| 0 <= j < kept_final.len() && kept_final[j] == pre[l];
                    lemma_registry_contains(kept_final, j);
                    assert(m1.dom().contains(k));
                }
            }
        }
        delivered
    }

    /// Whether `connection_id` is currently registered under
    /// `permission_id`.
    pub fn is_subscribed(&self, permission_id: i64, connection_id: usize) -> (r: bool)
        ensures
            r == self.registry().dom().contains((permission_id, connection_id)),
    {
        let ghost k = (permission_id, connection_id);
        let n = self.subs.len();
        let mut i: usize = 0;
        while i < n
            invariant
                n == self.subs@.len(),
                i <= n,
                k == (permission_id, connection_id),
                forall|j: int| 0 <= j < i ==> (#[trigger] self.subs@[j]).pair() != k,
            decreases n - i,
        {
            if self.subs[i].permission_id == permission_id
                && self.subs[i].connection_id == connection_id {
                proof {
                    lemma_registry_contains(self.subs@, i as int);
                }
                return true;
            }
            i += 1;
        }
        false
    }

    /// Whether the connection holds any registration at all.
    pub fn has_connection(&self, connection_id: usize) -> (r: bool)
        ensures
            r == exists|p: i64| self.registry().dom().contains((p, connection_id)),
    {
        let n = self.subs.len();
        let mut i: usize = 0;
        while i < n
            invariant
                n == self.subs@.len(),
                i <= n,
                forall|j: int| 0 <= j < i
                    ==> (#[trigger] self.subs@[j]).connection_id != connection_id,
            decreases n - i,
        {
            if self.subs[i].connection_id == connection_id {
                proof {
                    lemma_registry_contains(self.subs@, i as int);
                    assert(self.registry().dom().contains(
                        (self.subs@[i as int].permission_id, connection_id),
                    ));
                }
                return true;
            }
            i += 1;
        }
        proof {
            assert forall|p: i64| !self.registry().dom().contains((p, connection_id)) by {
                if self.registry().dom().contains((p, connection_id)) {
                    let j = choose|j: int|
                        0 <= j < self.subs@.len()
                            && (#[trigger] self.subs@[j]).pair() == (p, connection_id);
                    assert(self.subs@[j].connection_id == connection_id);
                }
            }
        }
        false
    }
}


/// Subscribing a connection under a permission id and then publishing for
/// that id: the event reaches that connection — it is in the delivered set
/// unless its channel was found dead and its entry pruned — and it never
/// reaches a connection that holds no registration under that id.
pub proof fn lemma_publish_reaches_subscriber(
    before: Map<(i64, usize), UpdateSender>,
    subscribed: Map<(i64, usize), UpdateSender>,
    after: Map<(i64, usize), UpdateSender>,
    delivered: Seq<usize>,
    permission_id: i64,
    connection_id: usize,
    channel: UpdateSender,
)
    requires
        subscribed == before.insert((permission_id, connection_id), channel),
        forall|j: int| 0 <= j < delivered.len() ==> subscribed.dom().contains(
            (permission_id, #[trigger] delivered[j]),
        ),
        forall|k: (i64, usize)| #[trigger] subscribed.dom().contains(k) && k.0 == permission_id
            ==> (after.dom().contains(k) <==> delivered.contains(k.1)),
    ensures
        delivered.contains(connection_id) || !after.dom().contains(
            (permission_id, connection_id),
        ),
        forall|c: usize| !subscribed.dom().contains((permission_id, c)) ==> !delivered.contains(
            c,
        ),
{
    assert(subscribed.dom().contains((permission_id, connection_id)));
    assert forall|c: usize| !subscribed.dom().contains((permission_id, c))
        implies !delivered.contains(c) by {
        if delivered.contains(c) {
            let j = choose|j: int| 0 <= j < delivered.len() && delivered[j] == c;
            assert(subscribed.dom().contains((permission_id, delivered[j])));
        }
    }
}

/// Once a connection is gone from the registry, a publish for a permission
/// it had subscribed to delivers nothing to it: the publisher touches only
/// live registrations, and returns without error.
pub proof fn lemma_disconnected_not_delivered(
    registry: Map<(i64, usize), UpdateSender>,
    delivered: Seq<usize>,
    permission_id: i64,
    connection_id: usize,
)
    requires
        !registry.dom().contains((permission_id, connection_id)),
        forall|j: int| 0 <= j < delivered.len() ==> registry.dom().contains(
            (permission_id, #[trigger] delivered[j]),
        ),
    ensures
        !delivered.contains(connection_id),
{
    if delivered.contains(connection_id) {
        let j = choose|j: int| 0 <= j < delivered.len() && delivered[j] == connection_id;
        assert(registry.dom().contains((permission_id, delivered[j])));
    }
}

/// Two connections registered under the same permission id are both
/// reached by every publish for it: each is delivered to unless its own
/// channel was found dead and its entry pruned; one dead channel never
/// costs the other its delivery.
pub proof fn lemma_fanout_reaches_all(
    registry: Map<(i64, usize), UpdateSender>,
    after: Map<(i64, usize), UpdateSender>,
    delivered: Seq<usize>,
    permission_id: i64,
    first: usize,
    second: usize,
)
    requires
        registry.dom().contains((permission_id, first)),
        registry.dom().contains((permission_id, second)),
        forall|k: (i64, usize)| #[trigger] registry.dom().contains(k) && k.0 == permission_id
            ==> (after.dom().contains(k) <==> delivered.contains(k.1)),
    ensures
        delivered.contains(first) || !after.dom().contains((permission_id, first)),
        delivered.contains(second) || !after.dom().contains((permission_id, second)),
{
}

} // verus!
