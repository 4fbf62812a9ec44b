//! The connection pool: a table keyed by destination holding at most one
//! pooled connection per key, and the acquire/install/evict decisions of the
//! connection lifecycle.
//!
//! The embedding host serialises access to the pool (one guard around every
//! lookup-or-establish-and-insert sequence) and performs the asynchronous
//! work: it asks `probe` whether a pooled connection is still live, lets
//! `acquire` carry out the decision, establishes a new connection when told
//! to, and hands the connection back with `install` when its exchange is
//! over. While a request holds an acquired connection, the table no longer
//! maps its key, so no second request can obtain the same sending handle.

use vstd::prelude::*;

use crate::assoc::assoc_map;
use crate::assoc::lemma_assoc_absent;
use crate::assoc::lemma_assoc_dom_len;
use crate::assoc::lemma_assoc_dom_witness;
use crate::assoc::lemma_assoc_index;
use crate::assoc::lemma_assoc_push;
use crate::assoc::lemma_assoc_remove;
use crate::assoc::unique_keys;
use crate::ext;
use crate::key::DestKey;

verus! {

/// A pooled connection: the sending handle bound to one underlying
/// transport connection, and the background task driving that transport's
/// I/O. The two are created together at handshake time and share one
/// lifetime; `new` is the only way to form a slot, so neither exists in the
/// pool without the other.
#[verifier::reject_recursive_types(B)]
pub struct Slot<B> {
    pub sender: hyper::client::conn::http1::SendRequest<B>,
    pub driver: tokio::task::JoinHandle<()>,
}

impl<B> Slot<B> {
    /// Pairs a sending handle with the driver task spawned for the same
    /// connection.
    pub fn new(
        sender: hyper::client::conn::http1::SendRequest<B>,
        driver: tokio::task::JoinHandle<()>,
    ) -> (r: Slot<B>)
        ensures
            r.sender == sender,
            r.driver == driver,
    {
        Slot { sender, driver }
    }
}

/// The destination key at its mathematical level: the views of host and
/// port.
pub type KeyView = (Seq<char>, u16);

/// The views of the pool's entry sequence.
pub open spec fn entries_view<B>(s: Seq<(DestKey, Slot<B>)>) -> Seq<(KeyView, Slot<B>)> {
    s.map_values(|e: (DestKey, Slot<B>)| (e.0@, e.1))
}

/// What `install` does to the table.
pub open spec fn install_spec<B>(
    t: Map<KeyView, Slot<B>>,
    k: KeyView,
    s: Slot<B>,
) -> Map<KeyView, Slot<B>> {
    t.insert(k, s)
}

/// What `acquire` leaves of the table: the key's entry is taken out —
/// checked out for reuse when live, evicted when stale — and every other
/// destination keeps its connection.
pub open spec fn acquire_spec<B>(t: Map<KeyView, Slot<B>>, k: KeyView) -> Map<KeyView, Slot<B>> {
    if t.dom().contains(k) {
        t.remove(k)
    } else {
        t
    }
}

/// What `acquire` answers.
#[verifier::reject_recursive_types(B)]
pub enum Acquired<B> {
    /// The pooled connection was live; here it is, for exactly one exchange.
    Reused(Slot<B>),
    /// A pooled connection existed but its transport is closed; it has been
    /// evicted and its driver told to stop. A new connection is needed.
    Stale,
    /// No pooled connection for this destination. A new connection is
    /// needed.
    Absent,
}

/// The table of pooled connections: at most one per destination key.
#[verifier::reject_recursive_types(B)]
pub struct Pool<B> {
    entries: Vec<(DestKey, Slot<B>)>,
}

impl<B> View for Pool<B> {
    type V = Map<KeyView, Slot<B>>;

    closed spec fn view(&self) -> Map<KeyView, Slot<B>> {
        assoc_map(entries_view(self.entries@))
    }
}

impl<B> Pool<B> {
    /// The table is well formed: no destination occurs twice.
    pub closed spec fn wf(&self) -> bool {
        unique_keys(entries_view(self.entries@))
    }

    /// An empty pool. No I/O is performed.
    pub fn new() -> (r: Pool<B>)
        ensures
            r.wf(),
            r@ == Map::<KeyView, Slot<B>>::empty(),
    {
        let r = Pool { entries: Vec::new() };
        proof {
            assert(entries_view(r.entries@) =~= Seq::<(KeyView, Slot<B>)>::empty());
        }
        r
    }

    /// The index of the entry for `key`, if there is one.
    fn find(&self, key: &DestKey) -> (r: Option<usize>)
        requires
            self.wf(),
        ensures
            r matches Some(i) ==> i < self.entries@.len() && self.entries@[i as int].0@ == key@,
            r is None ==> !self@.dom().contains(key@),
    {
        let mut i: usize = 0;
        while i < self.entries.len()
            invariant
                i <= self.entries.len(),
                forall|j: int| 0 <= j < i ==> entries_view(self.entries@)[j].0 != key@,
            decreases self.entries.len() - i,
        {
            if self.entries[i].0 == *key {
                return Some(i);
            }
            i = i + 1;
        }
        proof {
            lemma_assoc_absent(entries_view(self.entries@), key@);
        }
        None
    }

    /// Whether the table holds a connection for `key`.
    pub fn contains_key(&self, key: &DestKey) -> (r: bool)
        requires
            self.wf(),
        ensures
            r == self@.dom().contains(key@),
    {
        match self.find(key) {
            Some(i) => {
                proof {
                    lemma_assoc_dom_witness(entries_view(self.entries@), i as int);
                }
                true
            },
            None => false,
        }
    }

    /// How many destinations hold a pooled connection.
    pub fn len(&self) -> (r: usize)
        requires
            self.wf(),
        ensures
            r == self@.dom().len(),
    {
        proof {
            lemma_assoc_dom_len(entries_view(self.entries@));
        }
        self.entries.len()
    }

    /// Asks the pooled connection for `key`, if any, whether its transport
    /// is closed. The answer reflects the transport's current state, so only
    /// presence is pinned down: whatever boolean comes back, `acquire` below
    /// is exact for it.
    pub fn probe(&self, key: &DestKey) -> (r: Option<bool>)
        requires
            self.wf(),
        ensures
            r.is_some() == self@.dom().contains(key@),
    {
        match self.find(key) {
            Some(i) => {
                proof {
                    lemma_assoc_dom_witness(entries_view(self.entries@), i as int);
                }
                Some(ext::sender_is_closed(&self.entries[i].1.sender))
            },
            None => None,
        }
    }

    /// Carries out the acquire decision for `key`, with `live` saying
    /// whether the pooled transport (if any) is still usable — normally the
    /// negation of what `probe` answered. A live connection is checked out
    /// and handed back whole; a stale one is evicted and its driver task
    /// told to stop; an absent one leaves the table untouched. In every case
    /// the caller must establish a new connection exactly when the answer is
    /// not `Reused`.
    pub fn acquire(&mut self, key: &DestKey, live: bool) -> (r: Acquired<B>)
        requires
            old(self).wf(),
        ensures
            final(self).wf(),
            final(self)@ == acquire_spec(old(self)@, key@),
            r is Absent <==> !old(self)@.dom().contains(key@),
            r is Stale <==> old(self)@.dom().contains(key@) && !live,
            old(self)@.dom().contains(key@) && live ==> (r matches Acquired::Reused(s) && s == old(
                self,
            )@[key@]),
            r matches Acquired::Reused(s) ==> old(self)@.dom().contains(key@) && live && s == old(
                self,
            )@[key@],
    {
        let ghost sv = entries_view(self.entries@);
        match self.find(key) {
            None => Acquired::Absent,
            Some(i) => {
                proof {
                    lemma_assoc_dom_witness(sv, i as int);
                    lemma_assoc_index(sv, i as int);
                    lemma_assoc_remove(sv, i as int);
                }
                let (_k, slot) = self.entries.remove(i);
                proof {
                    assert(entries_view(self.entries@) =~= sv.remove(i as int));
                }
                if live {
                    Acquired::Reused(slot)
                } else {
                    ext::abort_driver(&slot.driver);
                    Acquired::Stale
                }
            },
        }
    }

    /// Puts the connection for `key` into the table: after its exchange for
    /// a checked-out connection, or right after the handshake for a fresh
    /// one. Whatever the table held for `key` is handed back to the caller.
    pub fn install(&mut self, key: DestKey, slot: Slot<B>) -> (prev: Option<Slot<B>>)
        requires
            old(self).wf(),
        ensures
            final(self).wf(),
            final(self)@ == install_spec(old(self)@, key@, slot),
            prev.is_some() == old(self)@.dom().contains(key@),
            prev matches Some(p) ==> p == old(self)@[key@],
    {
        let ghost sv = entries_view(self.entries@);
        let ghost kv = key@;
        let ghost sl = slot;
        match self.find(&key) {
            Some(i) => {
                proof {
                    lemma_assoc_dom_witness(sv, i as int);
                    lemma_assoc_index(sv, i as int);
                    lemma_assoc_remove(sv, i as int);
                }
                let (_k, prev_slot) = self.entries.remove(i);
                proof {
                    assert(entries_view(self.entries@) =~= sv.remove(i as int));
                }
                let ghost sv2 = entries_view(self.entries@);
                self.entries.push((key, slot));
                proof {
                    assert(entries_view(self.entries@) =~= sv2.push((kv, sl)));
                    lemma_assoc_push(sv2, kv, sl);
                    assert(forall|j: int| 0 <= j < sv2.len() ==> sv2[j].0 != kv);
                    assert(unique_keys(sv2.push((kv, sl))));
                    assert(final(self)@ =~= old(self)@.insert(kv, sl));
                }
                Some(prev_slot)
            },
            None => {
                proof {
                    lemma_absent_no_entry(sv, kv);
                }
                self.entries.push((key, slot));
                proof {
                    assert(entries_view(self.entries@) =~= sv.push((kv, sl)));
                    lemma_assoc_push(sv, kv, sl);
                    assert(unique_keys(sv.push((kv, sl))));
                }
                None
            },
        }
    }

    /// Empties the table, asking each pooled connection's driver task to
    /// stop and dropping each sending handle: the pool's teardown.
    pub fn clear(&mut self)
        requires
            old(self).wf(),
        ensures
            final(self).wf(),
            final(self)@ == Map::<KeyView, Slot<B>>::empty(),
    {
        while self.entries.len() > 0
            invariant
                unique_keys(entries_view(self.entries@)),
            decreases self.entries.len(),
        {
            let ghost sv = entries_view(self.entries@);
            match self.entries.pop() {
                Some(e) => {
                    ext::abort_driver(&e.1.driver);
                    proof {
                        assert(entries_view(self.entries@) =~= sv.drop_last());
                        assert(forall|p: int, q: int|
                            0 <= p < q < sv.drop_last().len() ==> sv.drop_last()[p].0
                                != sv.drop_last()[q].0);
                    }
                },
                None => {
                },
            }
        }
        proof {
            assert(entries_view(self.entries@) =~= Seq::<(KeyView, Slot<B>)>::empty());
        }
    }
}

/// A key outside the table's domain occurs in no entry.
proof fn lemma_absent_no_entry<B>(s: Seq<(KeyView, Slot<B>)>, k: KeyView)
    requires
        !assoc_map(s).dom().contains(k),
    ensures
        forall|j: int| 0 <= j < s.len() ==> s[j].0 != k,
{
    assert forall|j: int| 0 <= j < s.len() implies s[j].0 != k by {
        if s[j].0 == k {
            lemma_assoc_dom_witness(s, j);
        }
    }
}

// ---------------------------------------------------------------------------
// The pooling laws, stated over the same spec functions the contracts of
// `acquire` and `install` use.
// ---------------------------------------------------------------------------

/// Sequential reuse: once a request's connection `s` is installed under `k`,
/// the table maps `k` to exactly `s`; a later acquire for `k` over a live
/// transport hands back `s` itself — the same underlying connection, no new
/// handshake — and checks `k` out of the table while the exchange runs.
pub proof fn lemma_sequential_reuse<B>(t: Map<KeyView, Slot<B>>, k: KeyView, s: Slot<B>)
    ensures
        install_spec(t, k, s).dom().contains(k),
        install_spec(t, k, s)[k] == s,
        acquire_spec(install_spec(t, k, s), k) =~= t.remove(k),
{
}

/// Stale detection and replacement: when the pooled connection for `k` is
/// dead, acquiring evicts exactly `k` — every other destination keeps its
/// connection — and installing the one freshly handshaken connection `s2`
/// maps `k` to `s2` with the domain unchanged from before the eviction.
pub proof fn lemma_stale_replace<B>(t: Map<KeyView, Slot<B>>, k: KeyView, s2: Slot<B>)
    requires
        t.dom().contains(k),
    ensures
        !acquire_spec(t, k).dom().contains(k),
        forall|k2: KeyView|
            k2 != k ==> acquire_spec(t, k).dom().contains(k2) == t.dom().contains(k2),
        forall|k2: KeyView|
            k2 != k && t.dom().contains(k2) ==> acquire_spec(t, k)[k2] == t[k2],
        install_spec(acquire_spec(t, k), k, s2)[k] == s2,
        install_spec(acquire_spec(t, k), k, s2).dom() =~= t.dom(),
{
}

/// Distinct destinations never share a slot: installing connections for two
/// different keys leaves each key its own connection, and the domain grows
/// by exactly those keys.
pub proof fn lemma_distinct_destinations<B>(
    t: Map<KeyView, Slot<B>>,
    k1: KeyView,
    k2: KeyView,
    s1: Slot<B>,
    s2: Slot<B>,
)
    requires
        k1 != k2,
    ensures
        install_spec(install_spec(t, k1, s1), k2, s2)[k1] == s1,
        install_spec(install_spec(t, k1, s1), k2, s2)[k2] == s2,
        install_spec(install_spec(t, k1, s1), k2, s2).dom() =~= t.dom().insert(k1).insert(k2),
{
}

/// Exclusive use: while a request holds the connection it acquired for `k`,
/// the table no longer maps `k`; a concurrent acquire for `k` finds nothing
/// to hand out, so no two requests ever hold the same sending handle.
pub proof fn lemma_checked_out_exclusive<B>(t: Map<KeyView, Slot<B>>, k: KeyView)
    requires
        t.dom().contains(k),
    ensures
        !acquire_spec(t, k).dom().contains(k),
        acquire_spec(acquire_spec(t, k), k) =~= acquire_spec(t, k),
{
}

} // verus!
