//! The replication core: the log publisher's send queue, the
//! replicated-cache contract, the concrete in-memory cache, and the
//! factory that mints caches sharing one destination.
//!
//! Every insert offers its record to the shared append-only log before
//! the local map is touched, so the log is never missing an update the
//! local cache claims to have.  "Offered" means accepted into the
//! publisher's local send queue: delivery is asynchronous, and the
//! embedding program drains the queue and hands each record to its
//! transport.

use std::sync::Arc;
use vstd::prelude::*;

use crate::codec::{
    encode_frame2, frame2, json_encode_str, json_of_str, Wire, FRAME_FIELD_MAX,
};
use crate::errors::CacheError;
use crate::store::Store;

verus! {

/// One wire unit of a write: the record key bytes and the value bytes,
/// sent as a keyed record so the log can route and compact by key.
pub struct CacheRecord {
    pub key: Vec<u8>,
    pub value: Vec<u8>,
}

impl View for CacheRecord {
    type V = (Seq<u8>, Seq<u8>);

    open spec fn view(&self) -> (Seq<u8>, Seq<u8>) {
        (self.key@, self.value@)
    }
}

/// How a record key is scoped on the shared destination.  Records from
/// logically distinct caches interleave on one physical stream, so
/// whether the logical cache name is embedded in the record key is an
/// explicit, configurable choice made when a cache is minted.
#[derive(Clone, Copy, Debug, PartialEq, Eq, Structural)]
pub enum KeyScope {
    /// The record key is the JSON of the cache key alone; a consumer
    /// cannot tell caches sharing the destination apart.
    Bare,
    /// The record key frames the JSON of the logical cache name before
    /// the JSON of the cache key, so a consumer can demultiplex.
    Scoped,
}

/// The record key bytes a cache named `name` writes for `key`.
pub open spec fn record_key_bytes(scope: KeyScope, name: Seq<char>, key: Seq<char>) -> Seq<u8> {
    match scope {
        KeyScope::Bare => json_of_str(key),
        KeyScope::Scoped => frame2(json_of_str(name), json_of_str(key)),
    }
}

/// Whether the scoped record key can be framed at all: the frame prefix
/// carries the first field's length in four bytes.
pub open spec fn record_key_fits(scope: KeyScope, name: Seq<char>) -> bool {
    scope == KeyScope::Bare || json_of_str(name).len() <= FRAME_FIELD_MAX
}

/// Relies on `std::sync::Arc::clone`: the result is a second handle to
/// the same shared value; the value itself is not copied.
#[verifier::external_body]
fn arc_clone<T>(a: &Arc<T>) -> (r: Arc<T>)
    ensures
        r == *a,
{
    Arc::clone(a)
}

/// Owns the connection to the shared append-only log: a named
/// destination and a bounded local send queue.  `publish` succeeds once
/// a record is accepted into the queue — fire-and-forget; the embedder
/// drains the queue and performs the actual delivery.
pub struct LogPublisher {
    destination: String,
    queue: Vec<CacheRecord>,
    capacity: usize,
}

impl LogPublisher {
    /// The named stream within the log that records go to.
    pub closed spec fn spec_destination(&self) -> Seq<char> {
        self.destination@
    }

    /// The records accepted and not yet drained, in publish order.
    pub closed spec fn spec_queue(&self) -> Seq<(Seq<u8>, Seq<u8>)> {
        self.queue@.map_values(|r: CacheRecord| r@)
    }

    /// How many records the send queue will hold before `publish`
    /// reports a transport failure.
    pub closed spec fn spec_capacity(&self) -> nat {
        self.capacity as nat
    }

    /// Establish the publisher for a destination.  Construction fails
    /// exactly when no endpoint or no destination name is given; the
    /// failure is fatal and not retried internally.
    pub fn connect(endpoints: &str, destination: &str, capacity: usize) -> (r: Result<
        LogPublisher,
        CacheError,
    >)
        ensures
            (match r {
                Ok(p) => endpoints@.len() > 0 && destination@.len() > 0
                    && p.spec_destination() == destination@ && p.spec_queue() == Seq::<
                    (Seq<u8>, Seq<u8>),
                >::empty() && p.spec_capacity() == capacity,
                Err(e) => (endpoints@.len() == 0 || destination@.len() == 0) && e
                    == CacheError::Connection,
            }),
    {
        if endpoints.is_empty() || destination.is_empty() {
            Err(CacheError::Connection)
        } else {
            let p = LogPublisher {
                destination: destination.to_owned(),
                queue: Vec::new(),
                capacity,
            };
            proof {
                assert(p.spec_queue() =~= Seq::<(Seq<u8>, Seq<u8>)>::empty());
            }
            Ok(p)
        }
    }

    /// The destination name, for minting caches bound to it.
    pub fn destination(&self) -> (r: &str)
        ensures
            r@ == self.spec_destination(),
    {
        self.destination.as_str()
    }

    /// How many records wait for delivery.
    pub fn pending(&self) -> (r: usize)
        ensures
            r == self.spec_queue().len(),
    {
        self.queue.len()
    }

    /// Enqueue one record for asynchronous delivery.  Success means the
    /// record was accepted locally, not that the log cluster has
    /// acknowledged it; the only synchronous failure is a saturated
    /// queue, reported as a transport error with nothing changed.
    pub fn publish(&mut self, key: Vec<u8>, value: Vec<u8>) -> (r: Result<(), CacheError>)
        ensures
            final(self).spec_destination() == old(self).spec_destination(),
            final(self).spec_capacity() == old(self).spec_capacity(),
            old(self).spec_queue().len() < old(self).spec_capacity() ==> (r is Ok
                && final(self).spec_queue() == old(self).spec_queue().push((key@, value@))),
            old(self).spec_queue().len() >= old(self).spec_capacity() ==> r == Err::<
                (),
                CacheError,
            >(CacheError::Transport) && final(self).spec_queue() == old(self).spec_queue(),
    {
        if self.queue.len() < self.capacity {
            let ghost q0 = self.queue@;
            self.queue.push(CacheRecord { key, value });
            proof {
                assert(self.spec_queue() =~= q0.map_values(|r: CacheRecord| r@).push(
                    (self.queue@.last().key@, self.queue@.last().value@),
                ));
            }
            Ok(())
        } else {
            Err(CacheError::Transport)
        }
    }

    /// Hand every queued record out, oldest first, leaving the queue
    /// empty; the embedder delivers them to the log cluster.
    pub fn drain(&mut self) -> (r: Vec<CacheRecord>)
        ensures
            final(self).spec_destination() == old(self).spec_destination(),
            final(self).spec_capacity() == old(self).spec_capacity(),
            final(self).spec_queue() == Seq::<(Seq<u8>, Seq<u8>)>::empty(),
            r@.map_values(|rec: CacheRecord| rec@) == old(self).spec_queue(),
    {
        let mut out: Vec<CacheRecord> = Vec::new();
        core::mem::swap(&mut self.queue, &mut out);
        proof {
            assert(self.spec_queue() =~= Seq::<(Seq<u8>, Seq<u8>)>::empty());
        }
        out
    }
}

/// What every replicated cache offers: a logical name, publish-then-apply
/// insertion, local lookup, and a point-in-time key snapshot.  The
/// in-memory `Cache` below implements it; alternative backing stores can
/// be substituted without touching callers.
pub trait ReplicatedCache<V: Wire>: Sized {
    /// The logical identity, used for diagnostics and record scoping.
    spec fn spec_name(&self) -> Seq<char>;

    /// The destination every record of this cache is published to.
    spec fn spec_destination(&self) -> Seq<char>;

    /// How record keys are scoped on the shared destination.
    spec fn spec_scope(&self) -> KeyScope;

    /// The key-to-value association currently visible locally.
    spec fn contents(&self) -> Map<Seq<char>, V>;

    /// Validity; `create` establishes it and every method keeps it.
    spec fn inv(&self) -> bool;

    /// A fresh, empty cache bound to a destination and a logical name.
    /// Pure: no work beyond holding the already-established handles.
    fn create(destination: &str, name: &str, scope: KeyScope) -> (r: Self)
        ensures
            r.inv(),
            r.spec_name() == name@,
            r.spec_destination() == destination@,
            r.spec_scope() == scope,
            r.contents() == Map::<Seq<char>, V>::empty(),
            r.contents().dom().finite(),
    ;

    /// The logical name.
    fn name(&self) -> (r: &str)
        ensures
            r@ == self.spec_name(),
    ;

    /// Look a key up locally; never blocks on log work.  Absent exactly
    /// for the keys not in the local association.
    fn get(&self, key: &String) -> (r: Option<Arc<V>>)
        requires
            self.inv(),
        ensures
            (match r {
                Some(a) => self.contents().contains_key(key@) && *a == self.contents()[key@],
                None => !self.contents().contains_key(key@),
            }),
    ;

    /// A point-in-time snapshot of the keys present locally, each
    /// exactly once, in no promised order.
    fn keys(&self) -> (r: Vec<String>)
        requires
            self.inv(),
        ensures
            r@.len() == self.contents().dom().len(),
            forall|i: int, j: int| 0 <= i < j < r@.len() ==> r@[i]@ != r@[j]@,
            forall|i: int| 0 <= i < r@.len() ==> self.contents().contains_key(#[trigger] r@[i]@),
            forall|k: Seq<char>|
                self.contents().contains_key(k) ==> exists|i: int|
                    0 <= i < r@.len() && #[trigger] r@[i]@ == k,
    ;

    /// Publish the record for `(key, value)` to the shared destination,
    /// then apply the write locally and hand back the shared value now
    /// visible to `get`.  On any failure the local association is left
    /// exactly as it was: an encoding failure of the value or of the
    /// scoped record key is a serialization error, a saturated send
    /// queue a transport error.
    fn insert(&mut self, publisher: &mut LogPublisher, key: String, value: V) -> (r: Result<
        Arc<V>,
        CacheError,
    >)
        requires
            old(self).inv(),
            old(publisher).spec_destination() == old(self).spec_destination(),
        ensures
            final(self).inv(),
            final(self).spec_name() == old(self).spec_name(),
            final(self).spec_destination() == old(self).spec_destination(),
            final(self).spec_scope() == old(self).spec_scope(),
            final(publisher).spec_destination() == old(publisher).spec_destination(),
            final(publisher).spec_capacity() == old(publisher).spec_capacity(),
            old(self).contents().dom().finite() ==> final(self).contents().dom().finite(),
            (V::wire_ok(value@) && record_key_fits(old(self).spec_scope(), old(self).spec_name())
                && old(publisher).spec_queue().len() < old(publisher).spec_capacity()) ==> (
            r matches Ok(a)
                && *a == value
                && final(self).contents() == old(self).contents().insert(key@, value)
                && final(publisher).spec_queue() == old(publisher).spec_queue().push(
                ((record_key_bytes(old(self).spec_scope(), old(self).spec_name(), key@),
                V::wire_of(value@))))),
            !(V::wire_ok(value@) && record_key_fits(old(self).spec_scope(), old(self).spec_name()))
                ==> (r == Err::<Arc<V>, CacheError>(CacheError::Serialization)
                && final(self).contents() == old(self).contents()
                && final(publisher).spec_queue() == old(publisher).spec_queue()),
            (V::wire_ok(value@) && record_key_fits(old(self).spec_scope(), old(self).spec_name())
                && old(publisher).spec_queue().len() >= old(publisher).spec_capacity()) ==> (
            r == Err::<Arc<V>, CacheError>(CacheError::Transport)
                && final(self).contents() == old(self).contents()
                && final(publisher).spec_queue() == old(publisher).spec_queue()),
    ;
}

/// The association a store of shared values denotes, with each handle
/// replaced by the value it shares.
pub open spec fn shared_contents<V>(m: Map<Seq<char>, Arc<V>>) -> Map<Seq<char>, V> {
    m.map_values(|a: Arc<V>| *a)
}

/// The concrete in-memory replicated cache: a logical name, a local
/// association, and the destination handle every cache minted from one
/// factory shares.  Writes take exclusive access through `&mut`; an
/// embedder sharing one instance across threads guards it with a
/// reader/writer lock and surfaces a poisoned lock as the
/// corrupted-state failure instead of serving from an unknown map.
pub struct Cache<V> {
    name: String,
    destination: String,
    scope: KeyScope,
    store: Store<Arc<V>>,
}

impl<V: Wire> ReplicatedCache<V> for Cache<V> {
    closed spec fn spec_name(&self) -> Seq<char> {
        self.name@
    }

    closed spec fn spec_destination(&self) -> Seq<char> {
        self.destination@
    }

    closed spec fn spec_scope(&self) -> KeyScope {
        self.scope
    }

    closed spec fn contents(&self) -> Map<Seq<char>, V> {
        shared_contents(self.store@)
    }

    closed spec fn inv(&self) -> bool {
        self.store.wf()
    }

    fn create(destination: &str, name: &str, scope: KeyScope) -> (r: Self) {
        let c = Cache {
            name: name.to_owned(),
            destination: destination.to_owned(),
            scope,
            store: Store::new(),
        };
        proof {
            assert(c.contents() =~= Map::<Seq<char>, V>::empty());
        }
        c
    }

    fn name(&self) -> (r: &str) {
        self.name.as_str()
    }

    fn get(&self, key: &String) -> (r: Option<Arc<V>>) {
        match self.store.get(key) {
            Some(a) => Some(arc_clone(a)),
            None => None,
        }
    }

    fn keys(&self) -> (r: Vec<String>) {
        proof {
            assert(self.contents().dom() =~= self.store@.dom());
        }
        self.store.keys()
    }

    fn insert(&mut self, publisher: &mut LogPublisher, key: String, value: V) -> (r: Result<
        Arc<V>,
        CacheError,
    >) {
        let value_bytes = match value.encode() {
            Ok(b) => b,
            Err(e) => {
                return Err(e);
            },
        };
        let key_json = json_encode_str(key.as_str());
        let record_key = match self.scope {
            KeyScope::Bare => key_json,
            KeyScope::Scoped => {
                let name_json = json_encode_str(self.name.as_str());
                if name_json.len() > FRAME_FIELD_MAX {
                    return Err(CacheError::Serialization);
                }
                encode_frame2(&name_json, &key_json)
            },
        };
        match publisher.publish(record_key, value_bytes) {
            Ok(_) => {},
            Err(e) => {
                return Err(e);
            },
        }
        let shared = Arc::new(value);
        let ghost m0 = self.store@;
        self.store.insert(key, arc_clone(&shared));
        proof {
            assert(shared_contents(self.store@) =~= shared_contents(m0).insert(key@, value));
        }
        Ok(shared)
    }
}

/// A successful insert is immediately visible: the association a
/// following `get` on the same instance consults holds exactly the
/// inserted value for that key.
pub proof fn lemma_insert_then_get<V>(pre: Map<Seq<char>, V>, key: Seq<char>, value: V)
    ensures
        pre.insert(key, value).contains_key(key),
        pre.insert(key, value)[key] == value,
{
}

/// Writers with disjoint keys each enlarge the visible key set: an
/// insert of a fresh key grows it by exactly one, while overwriting an
/// existing key leaves its size unchanged.  So after a batch of inserts
/// with pairwise distinct fresh keys, `keys()` reports exactly one key
/// per insert.
pub proof fn lemma_insert_key_count<V>(pre: Map<Seq<char>, V>, key: Seq<char>, value: V)
    requires
        pre.dom().finite(),
    ensures
        !pre.contains_key(key) ==> pre.insert(key, value).dom().len() == pre.dom().len() + 1,
        pre.contains_key(key) ==> pre.insert(key, value).dom().len() == pre.dom().len(),
{
    vstd::set::axiom_set_insert_len(pre.dom(), key);
    assert(pre.insert(key, value).dom() =~= pre.dom().insert(key));
}

/// An insert never touches another key: any other key is present
/// afterwards exactly as before, with the same value.  In particular a
/// key never inserted stays absent, so `get` keeps returning nothing
/// for it.
pub proof fn lemma_insert_preserves_others<V>(
    pre: Map<Seq<char>, V>,
    key: Seq<char>,
    value: V,
    other: Seq<char>,
)
    requires
        other != key,
    ensures
        pre.insert(key, value).contains_key(other) == pre.contains_key(other),
        pre.contains_key(other) ==> pre.insert(key, value)[other] == pre[other],
{
}

/// The factory: owns the one log publisher and mints named caches that
/// all publish to its destination with its record-key scoping.
pub struct Replicator {
    /// The shared publisher; the embedder drains its queue.
    pub publisher: LogPublisher,
    /// The record-key scoping every minted cache uses.
    pub scope: KeyScope,
}

impl Replicator {
    /// The destination every minted cache shares.
    pub open spec fn spec_destination(&self) -> Seq<char> {
        self.publisher.spec_destination()
    }

    /// Establish the one publisher this factory hands to its caches.
    /// Fails exactly when the publisher cannot be established.
    pub fn new(brokers: &str, topic_name: &str, capacity: usize, scope: KeyScope) -> (r: Result<
        Replicator,
        CacheError,
    >)
        ensures
            (match r {
                Ok(f) => brokers@.len() > 0 && topic_name@.len() > 0 && f.spec_destination()
                    == topic_name@ && f.publisher.spec_queue() == Seq::<
                    (Seq<u8>, Seq<u8>),
                >::empty() && f.publisher.spec_capacity() == capacity && f.scope == scope,
                Err(e) => (brokers@.len() == 0 || topic_name@.len() == 0) && e
                    == CacheError::Connection,
            }),
    {
        match LogPublisher::connect(brokers, topic_name, capacity) {
            Ok(p) => Ok(Replicator { publisher: p, scope }),
            Err(e) => Err(e),
        }
    }

    /// Mint a new cache of the requested variant, bound to this
    /// factory's destination and scoping under the given logical name.
    /// Pure and non-failing: the connection is already established.
    pub fn create_cache<V: Wire, C: ReplicatedCache<V>>(&self, name: &str) -> (r: C)
        ensures
            r.inv(),
            r.spec_name() == name@,
            r.spec_destination() == self.spec_destination(),
            r.spec_scope() == self.scope,
            r.contents() == Map::<Seq<char>, V>::empty(),
    {
        C::create(self.publisher.destination(), name, self.scope)
    }
}

} // verus!
