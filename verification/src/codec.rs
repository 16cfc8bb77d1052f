//! The wire encoding of cache records.
//!
//! Keys and values are encoded independently as JSON, the self-describing
//! format the log consumers expect.  The JSON bytes themselves come from
//! `serde_json` through the trusted wrappers below; everything layered on
//! top of them — the framing that scopes a record key by the cache's
//! logical name, and the round trip of a structured value — is verified.

use vstd::prelude::*;
use vstd::slice::{slice_index_get, slice_subrange, slice_to_vec};

use crate::errors::CacheError;

verus! {

/// The JSON bytes of a string; a function of its characters alone.
pub uninterp spec fn json_of_str(s: Seq<char>) -> Seq<u8>;

/// Relies on `serde_json::to_vec` applied to a string slice: the result is
/// the JSON encoding of the string, a function of its characters alone.
/// Writing JSON for a string into an in-memory vector cannot fail:
/// `to_vec` errors only when a `Serialize` implementation fails or a map
/// has non-string keys, and `str`'s implementation does neither.
#[verifier::external_body]
pub fn json_encode_str(s: &str) -> (r: Vec<u8>)
    ensures
        r@ == json_of_str(s@),
{
    serde_json::to_vec(s).unwrap()
}

/// Relies on `serde_json::from_slice`: deserialization inverts
/// serialization, so on the JSON bytes of a string it returns exactly that
/// string.
#[verifier::external_body]
pub fn json_decode_str(b: &[u8]) -> (r: Option<String>)
    ensures
        (match r {
            Some(v) => forall|s: Seq<char>| b@ == json_of_str(s) ==> v@ == s,
            None => forall|s: Seq<char>| b@ != json_of_str(s),
        }),
{
    serde_json::from_slice::<String>(b).ok()
}

/// The model of an optional string: present characters or absent.
pub open spec fn opt_str_view(e: Option<String>) -> Option<Seq<char>> {
    match e {
        Some(s) => Some(s@),
        None => None,
    }
}

/// The JSON bytes of a `(partition count, optional error)` pair; a
/// function of the two components alone.
pub uninterp spec fn json_of_status(partitions: u64, error: Option<Seq<char>>) -> Seq<u8>;

/// Relies on `serde_json::to_vec` applied to a `(u64, Option<String>)`
/// pair: the result is the JSON encoding of the pair, a function of the
/// two components alone.  As above, encoding integers, options and
/// strings into an in-memory vector cannot fail.
#[verifier::external_body]
pub fn json_encode_status(partitions: u64, error: &Option<String>) -> (r: Vec<u8>)
    ensures
        r@ == json_of_status(partitions, opt_str_view(*error)),
{
    serde_json::to_vec(&(partitions, error)).unwrap()
}

/// Relies on `serde_json::from_slice`: deserialization inverts
/// serialization, so on the JSON bytes of a pair it returns exactly that
/// pair.
#[verifier::external_body]
pub fn json_decode_status(b: &[u8]) -> (r: Option<(u64, Option<String>)>)
    ensures
        (match r {
            Some(t) => forall|p: u64, e: Option<Seq<char>>|
                b@ == json_of_status(p, e) ==> t.0 == p && opt_str_view(t.1) == e,
            None => forall|p: u64, e: Option<Seq<char>>| b@ != json_of_status(p, e),
        }),
{
    serde_json::from_slice::<(u64, Option<String>)>(b).ok()
}

/// The largest field length the four-byte frame prefix can carry.
pub const FRAME_FIELD_MAX: usize = 0xFFFF_FFFF;

/// The four big-endian bytes of a 32-bit length.
pub open spec fn be32(n: u32) -> Seq<u8> {
    seq![(n >> 24) as u8, (n >> 16) as u8, (n >> 8) as u8, n as u8]
}

/// A composite unit: four big-endian length bytes, then the first field,
/// then the remainder.  Used to scope a record key by the logical cache
/// name so that a consumer can demultiplex records sharing a destination.
pub open spec fn frame2(a: Seq<u8>, b: Seq<u8>) -> Seq<u8> {
    be32(a.len() as u32) + a + b
}

/// Build the composite unit for the two fields.
pub fn encode_frame2(a: &Vec<u8>, b: &Vec<u8>) -> (r: Vec<u8>)
    requires
        a@.len() <= FRAME_FIELD_MAX,
    ensures
        r@ == frame2(a@, b@),
{
    let n: u32 = a.len() as u32;
    let mut r: Vec<u8> = Vec::new();
    r.push((n >> 24) as u8);
    r.push((n >> 16) as u8);
    r.push((n >> 8) as u8);
    r.push(n as u8);
    let mut i: usize = 0;
    while i < a.len()
        invariant
            i <= a@.len(),
            a@.len() <= FRAME_FIELD_MAX,
            n == a@.len() as u32,
            r@ == be32(n) + a@.take(i as int),
        decreases a@.len() - i,
    {
        r.push(*slice_index_get(a.as_slice(), i));
        proof {
            assert(a@.take(i + 1 as int) =~= a@.take(i as int).push(a@[i as int]));
        }
        i = i + 1;
    }
    let mut j: usize = 0;
    while j < b.len()
        invariant
            j <= b@.len(),
            n == a@.len() as u32,
            r@ == be32(n) + a@ + b@.take(j as int),
        decreases b@.len() - j,
    {
        r.push(*slice_index_get(b.as_slice(), j));
        proof {
            assert(b@.take(j + 1 as int) =~= b@.take(j as int).push(b@[j as int]));
        }
        j = j + 1;
    }
    proof {
        assert(a@.take(a@.len() as int) =~= a@);
        assert(b@.take(b@.len() as int) =~= b@);
    }
    r
}

/// Split a composite unit back into its two fields.  Whenever the bytes
/// are the frame of some pair of fields, that exact pair comes back.
pub fn split_frame2(r: &[u8]) -> (o: Option<(Vec<u8>, Vec<u8>)>)
    ensures
        forall|a: Seq<u8>, b: Seq<u8>|
            r@ == frame2(a, b) && a.len() <= FRAME_FIELD_MAX ==> (o matches Some(p) && p.0@ == a
                && p.1@ == b),
{
    if r.len() < 4 {
        return None;
    }
    let b0: u8 = *slice_index_get(r, 0);
    let b1: u8 = *slice_index_get(r, 1);
    let b2: u8 = *slice_index_get(r, 2);
    let b3: u8 = *slice_index_get(r, 3);
    let n: u32 = ((b0 as u32) << 24) | ((b1 as u32) << 16) | ((b2 as u32) << 8) | (b3 as u32);
    let n_us: usize = n as usize;
    if r.len() - 4 < n_us {
        proof {
            assert forall|a: Seq<u8>, b: Seq<u8>|
                r@ == frame2(a, b) && a.len() <= FRAME_FIELD_MAX implies false by {
                let m: u32 = a.len() as u32;
                assert(b0 == (m >> 24) as u8);
                assert(b1 == (m >> 16) as u8);
                assert(b2 == (m >> 8) as u8);
                assert(b3 == m as u8);
                assert((((b0 as u32) << 24) | ((b1 as u32) << 16) | ((b2 as u32) << 8) | (
                b3 as u32)) == m) by (bit_vector)
                    requires
                        b0 == (m >> 24) as u8,
                        b1 == (m >> 16) as u8,
                        b2 == (m >> 8) as u8,
                        b3 == m as u8,
                ;
                assert(r@.len() == 4 + a.len() + b.len());
            }
        }
        return None;
    }
    let first = slice_to_vec(slice_subrange(r, 4, 4 + n_us));
    let rest = slice_to_vec(slice_subrange(r, 4 + n_us, r.len()));
    proof {
        assert forall|a: Seq<u8>, b: Seq<u8>|
            r@ == frame2(a, b) && a.len() <= FRAME_FIELD_MAX implies first@ == a && rest@
            == b by {
            let m: u32 = a.len() as u32;
            assert(b0 == (m >> 24) as u8);
            assert(b1 == (m >> 16) as u8);
            assert(b2 == (m >> 8) as u8);
            assert(b3 == m as u8);
            assert((((b0 as u32) << 24) | ((b1 as u32) << 16) | ((b2 as u32) << 8) | (b3 as u32))
                == m) by (bit_vector)
                requires
                    b0 == (m >> 24) as u8,
                    b1 == (m >> 16) as u8,
                    b2 == (m >> 8) as u8,
                    b3 == m as u8,
            ;
            assert(n_us == a.len());
            assert(first@ =~= a);
            assert(rest@ =~= b);
        }
    }
    Some((first, rest))
}

/// What every value stored in a replicated cache must offer: a byte
/// encoding that a log consumer can invert.  The `String` and
/// `TopicStatus` implementations below encode as JSON; an embedder may
/// supply further value types.
pub trait Wire: View + Sized {
    /// Whether a value with this model can be encoded at all.
    spec fn wire_ok(m: Self::V) -> bool;

    /// The bytes a value with this model encodes to.
    spec fn wire_of(m: Self::V) -> Seq<u8>;

    /// Encode the value for the log.
    fn encode(&self) -> (r: Result<Vec<u8>, CacheError>)
        ensures
            Self::wire_ok(self@) ==> (r matches Ok(b) && b@ == Self::wire_of(self@)),
            !Self::wire_ok(self@) ==> r == Err::<Vec<u8>, CacheError>(CacheError::Serialization),
    ;

    /// Decode bytes read back from the log.  Whenever the bytes are the
    /// encoding of some value, exactly that value comes back.
    fn decode(b: &[u8]) -> (r: Option<Self>)
        ensures
            forall|m: Self::V|
                b@ == Self::wire_of(m) && Self::wire_ok(m) ==> (r matches Some(v) && v@ == m),
    ;
}

impl Wire for String {
    open spec fn wire_ok(m: Seq<char>) -> bool {
        true
    }

    open spec fn wire_of(m: Seq<char>) -> Seq<u8> {
        json_of_str(m)
    }

    fn encode(&self) -> (r: Result<Vec<u8>, CacheError>) {
        Ok(json_encode_str(self.as_str()))
    }

    fn decode(b: &[u8]) -> (r: Option<String>) {
        json_decode_str(b)
    }
}

/// Point-in-time description of one topic: how many partitions it has,
/// and an error note when the topic is unhealthy.
pub struct TopicStatus {
    pub partitions: u64,
    pub error: Option<String>,
}

/// The mathematical model of a `TopicStatus`.
pub struct TopicStatusModel {
    pub partitions: u64,
    pub error: Option<Seq<char>>,
}

impl View for TopicStatus {
    type V = TopicStatusModel;

    open spec fn view(&self) -> TopicStatusModel {
        TopicStatusModel { partitions: self.partitions, error: opt_str_view(self.error) }
    }
}

impl Wire for TopicStatus {
    open spec fn wire_ok(m: TopicStatusModel) -> bool {
        true
    }

    open spec fn wire_of(m: TopicStatusModel) -> Seq<u8> {
        json_of_status(m.partitions, m.error)
    }

    fn encode(&self) -> (r: Result<Vec<u8>, CacheError>) {
        Ok(json_encode_status(self.partitions, &self.error))
    }

    fn decode(b: &[u8]) -> (r: Option<TopicStatus>) {
        match json_decode_status(b) {
            Some(t) => Some(TopicStatus { partitions: t.0, error: t.1 }),
            None => None,
        }
    }
}

} // verus!
