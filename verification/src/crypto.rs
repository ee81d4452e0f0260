//! The byte transform: a keystream walk over the key that rewrites every
//! odd position of the payload and leaves every even position alone.

use vstd::prelude::*;

verus! {

/// The keystream index after the first `count` positions of a payload have
/// been visited. It starts at 0 and moves only when an odd position is
/// visited; it never depends on the payload itself.
pub open spec fn keystream_state(key: Seq<u8>, count: nat) -> int
    decreases count,
{
    if count == 0 {
        0
    } else {
        let i = count - 1;
        let p = keystream_state(key, i as nat);
        if i % 2 == 1 {
            (p + key[p] + i) % (key.len() as int)
        } else {
            p
        }
    }
}

/// The key byte that is mixed into the payload byte at position `i`.
pub open spec fn keystream_byte(key: Seq<u8>, i: int) -> u8 {
    key[keystream_state(key, (i + 1) as nat)]
}

/// What encoding does to the byte `b` found at position `i`.
pub open spec fn encode_at(key: Seq<u8>, i: int, b: u8) -> u8 {
    if i % 2 == 1 {
        !(b ^ keystream_byte(key, i))
    } else {
        b
    }
}

/// What decoding does to the byte `b` found at position `i`.
pub open spec fn decode_at(key: Seq<u8>, i: int, b: u8) -> u8 {
    if i % 2 == 1 {
        (!b) ^ keystream_byte(key, i)
    } else {
        b
    }
}

/// The encoded form of a whole payload.
pub open spec fn encoded(data: Seq<u8>, key: Seq<u8>) -> Seq<u8> {
    Seq::new(data.len(), |i: int| encode_at(key, i, data[i]))
}

/// The decoded form of a whole payload.
pub open spec fn decoded(data: Seq<u8>, key: Seq<u8>) -> Seq<u8> {
    Seq::new(data.len(), |i: int| decode_at(key, i, data[i]))
}

/// With a non-empty key the keystream index always points into the key.
pub proof fn lemma_keystream_state_in_key(key: Seq<u8>, count: nat)
    requires
        key.len() > 0,
    ensures
        0 <= keystream_state(key, count) < key.len(),
    decreases count,
{
    if count > 0 {
        lemma_keystream_state_in_key(key, (count - 1) as nat);
    }
}

/// Moves the keystream index past the odd position `i`.
fn advance(p: usize, key: &[u8], i: usize) -> (next: usize)
    requires
        p < key@.len(),
    ensures
        next == (p + key@[p as int] + i) % (key@.len() as int),
        next < key@.len(),
{
    let wide: u128 = p as u128 + key[p] as u128 + i as u128;
    (wide % (key.len() as u128)) as usize
}

/// Encodes `data` in place under `key`.
///
/// Bytes at even positions are left as they are. At each odd position the
/// keystream index advances and the byte becomes the complement of its XOR
/// with the key byte found there.
pub fn encode(data: &mut [u8], key: &[u8])
    requires
        key@.len() > 0,
    ensures
        final(data)@ == encoded(old(data)@, key@),
{
    let ghost before = data@;
    let n = data.len();
    let mut p: usize = 0;
    let mut i: usize = 0;
    while i < n
        invariant
            key@.len() > 0,
            data@.len() == n,
            before.len() == n,
            i <= n,
            p == keystream_state(key@, i as nat),
            p < key@.len(),
            forall|j: int| 0 <= j < i ==> data@[j] == encode_at(key@, j, before[j]),
            forall|j: int| i <= j < n ==> data@[j] == before[j],
        decreases n - i,
    {
        if i % 2 == 1 {
            p = advance(p, key, i);
            let t = key[p];
            let b = data[i];
            data[i] = !(b ^ t);
        }
        i += 1;
    }
}

/// Decodes `data` in place under `key`: the inverse of [`encode`].
///
/// The keystream index advances exactly as in encoding; at each odd
/// position the byte becomes the XOR of its complement with the key byte.
pub fn decode(data: &mut [u8], key: &[u8])
    requires
        key@.len() > 0,
    ensures
        final(data)@ == decoded(old(data)@, key@),
{
    let ghost before = data@;
    let n = data.len();
    let mut p: usize = 0;
    let mut i: usize = 0;
    while i < n
        invariant
            key@.len() > 0,
            data@.len() == n,
            before.len() == n,
            i <= n,
            p == keystream_state(key@, i as nat),
            p < key@.len(),
            forall|j: int| 0 <= j < i ==> data@[j] == decode_at(key@, j, before[j]),
            forall|j: int| i <= j < n ==> data@[j] == before[j],
        decreases n - i,
    {
        if i % 2 == 1 {
            p = advance(p, key, i);
            let t = key[p];
            let b = data[i];
            data[i] = (!b) ^ t;
        }
        i += 1;
    }
}

/// Whether `data` carries the marker: it is at least as long as the marker
/// and its first bytes are the marker's, byte for byte.
pub open spec fn is_tagged(data: Seq<u8>, header: Seq<u8>) -> bool {
    &&& data.len() >= header.len()
    &&& data.subrange(0, header.len() as int) =~= header
}

/// Tells whether `data` starts with the marker `header`.
///
/// Data shorter than the marker is never tagged; an empty marker tags
/// everything.
pub fn is_encrypted(data: &[u8], header: &[u8]) -> (tagged: bool)
    ensures
        tagged == is_tagged(data@, header@),
{
    let n = header.len();
    if data.len() < n {
        return false;
    }
    let mut i: usize = 0;
    while i < n
        invariant
            n == header@.len(),
            n <= data@.len(),
            i <= n,
            forall|j: int| 0 <= j < i ==> data@[j] == header@[j],
        decreases n - i,
    {
        if data[i] != header[i] {
            return false;
        }
        i += 1;
    }
    true
}

/// Decoding what was encoded under the same key gives the payload back,
/// whatever the payload and for every non-empty key.
pub proof fn lemma_decode_inverts_encode(data: Seq<u8>, key: Seq<u8>)
    requires
        key.len() >= 1,
    ensures
        decoded(encoded(data, key), key) == data,
{
    assert forall|b: u8, t: u8| (!(!(b ^ t))) ^ t == b by {
        assert((!(!(b ^ t))) ^ t == b) by (bit_vector);
    }
}

/// Encoding what was decoded under the same key gives the input back: the
/// two transforms are inverse to each other in both orders.
pub proof fn lemma_encode_inverts_decode(data: Seq<u8>, key: Seq<u8>)
    requires
        key.len() >= 1,
    ensures
        encoded(decoded(data, key), key) == data,
{
    assert forall|b: u8, t: u8| !(((!b) ^ t) ^ t) == b by {
        assert(!(((!b) ^ t) ^ t) == b) by (bit_vector);
    }
}

/// Encoding keeps the length, and every byte at an even position is the
/// payload's own byte, for every payload and every key.
pub proof fn lemma_encode_keeps_even_positions(data: Seq<u8>, key: Seq<u8>, i: int)
    requires
        0 <= i < data.len(),
        i % 2 == 0,
    ensures
        encoded(data, key).len() == data.len(),
        encoded(data, key)[i] == data[i],
{
}

/// Input shorter than the marker is not tagged.
pub proof fn lemma_short_input_is_not_tagged(data: Seq<u8>, header: Seq<u8>)
    requires
        data.len() < header.len(),
    ensures
        !is_tagged(data, header),
{
}

/// Input that differs from the marker in at least one of the marker's
/// positions is not tagged.
pub proof fn lemma_differing_prefix_is_not_tagged(data: Seq<u8>, header: Seq<u8>, i: int)
    requires
        0 <= i < header.len(),
        i < data.len(),
        data[i] != header[i],
    ensures
        !is_tagged(data, header),
{
}

} // verus!
