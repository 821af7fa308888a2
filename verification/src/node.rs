//! Engine configuration and key-file handling.
//!
//! The surrounding process reads the committee descriptor and the key
//! file, builds the engine and runs it; everything here is the pure part
//! of that bootstrap: the configuration value with its documented
//! defaults, and the key-file encoding.

use vstd::prelude::*;

use crate::crypto::Secret;

verus! {

/// Engine configuration.  Both delays are in milliseconds.
pub struct Parameters {
    /// Base round-timeout delay.
    pub timeout_delay: u64,
    /// Ancestor-fetch retry interval.
    pub sync_retry_delay: u64,
}

impl Default for Parameters {
    /// The documented default configuration.
    fn default() -> (p: Self)
        ensures
            p.timeout_delay == 1000,
            p.sync_retry_delay == 10000,
    {
        Parameters { timeout_delay: 1_000, sync_retry_delay: 10_000 }
    }
}

/// Byte `i` of the little-endian encoding of `x`.
pub open spec fn byte_of(x: u64, i: int) -> u8 {
    ((x >> (8 * i) as u64) & 0xff) as u8
}

/// The 16-byte key-file image: the identity, then the key material,
/// both little endian.
pub open spec fn key_file_bytes(s: Secret) -> Seq<u8> {
    Seq::new(16, |i: int| if i < 8 { byte_of(s.name, i) } else { byte_of(s.secret, i - 8) })
}

fn encode_u64(x: u64, out: &mut Vec<u8>)
    ensures
        final(out)@.len() == old(out)@.len() + 8,
        forall|i: int| 0 <= i < old(out)@.len() ==> final(out)@[i] == old(out)@[i],
        forall|i: int| 0 <= i < 8 ==> final(out)@[old(out)@.len() + i] == byte_of(x, i),
{
    let mut k: u64 = 0;
    while k < 8
        invariant
            k <= 8,
            out@.len() == old(out)@.len() + k,
            forall|i: int| 0 <= i < old(out)@.len() ==> out@[i] == old(out)@[i],
            forall|i: int| 0 <= i < k ==> out@[old(out)@.len() + i] == byte_of(x, i),
        decreases 8 - k,
    {
        let b = ((x >> (8 * k)) & 0xff) as u8;
        out.push(b);
        k = k + 1;
    }
}

proof fn lemma_byte_zero(x: u64, iu: u64)
    requires
        iu < 8,
        byte_of(x, iu as int) == 0,
    ensures
        (x >> (8 * iu)) & 0xff == 0,
{
    assert((8 * (iu as int)) as u64 == 8 * iu);
    assert(((x >> (8 * iu)) & 0xff) < 256) by (bit_vector);
}

fn decode_u64(bytes: &Vec<u8>, start: usize) -> (x: u64)
    requires
        start + 8 <= bytes@.len(),
    ensures
        forall|i: int| 0 <= i < 8 ==> byte_of(x, i) == bytes@[start + i],
{
    let n = bytes.len();
    let mut x: u64 = 0;
    let mut k: u64 = 0;
    proof {
        assert forall|i: int| 0 <= i < 8 implies byte_of(0u64, i) == 0 by {
            let iu: u64 = i as u64;
            assert((8 * i) as u64 == 8 * iu);
            assert(((0u64 >> (8 * iu)) & 0xff) == 0) by (bit_vector);
        }
    }
    while k < 8
        invariant
            k <= 8,
            n == bytes@.len(),
            start + 8 <= bytes@.len(),
            forall|i: int| 0 <= i < k ==> byte_of(x, i) == bytes@[start + i],
            forall|i: int| k <= i < 8 ==> byte_of(x, i) == 0,
        decreases 8 - k,
    {
        let ghost x0 = x;
        proof {
            assert(start + k < n);
        }
        let b = bytes[start + (k as usize)];
        x = x | ((b as u64) << (8 * k));
        proof {
            let ku: u64 = k;
            let bb: u64 = b as u64;
            assert forall|i: int| 0 <= i < k + 1 implies byte_of(x, i) == bytes@[start + i] by {
                let iu: u64 = i as u64;
                assert((8 * i) as u64 == 8 * iu);
                if i < k {
                    assert(byte_of(x0, i) == bytes@[start + i]);
                    assert(((x0 | (bb << (8 * ku))) >> (8 * iu)) & 0xff == (x0 >> (8 * iu))
                        & 0xff) by (bit_vector)
                        requires
                            iu < ku,
                            ku <= 7,
                    ;
                } else {
                    assert(byte_of(x0, ku as int) == 0);
                    lemma_byte_zero(x0, ku);
                    assert((((x0 | (bb << (8 * ku))) >> (8 * ku)) & 0xff) == bb) by (bit_vector)
                        requires
                            ku <= 7,
                            bb < 256,
                            ((x0 >> (8 * ku)) & 0xff) == 0,
                    ;
                    assert(byte_of(x, i) == bb as u8);
                }
            }
            assert forall|i: int| k + 1 <= i < 8 implies byte_of(x, i) == 0 by {
                let iu: u64 = i as u64;
                assert((8 * i) as u64 == 8 * iu);
                assert(byte_of(x0, i) == 0);
                lemma_byte_zero(x0, iu);
                assert(((x0 | (bb << (8 * ku))) >> (8 * iu)) & 0xff == ((x0 >> (8 * iu))
                    & 0xff)) by (bit_vector)
                    requires
                        ku < iu,
                        iu < 8,
                        bb < 256,
                ;
                assert((x0 >> (8 * iu)) & 0xff == 0);
            }
        }
        k = k + 1;
    }
    x
}

/// The engine as the surrounding process sees it.
pub struct Node;

impl Node {
    /// Renders the key-file image for a freshly generated secret; the
    /// process writes these bytes to the key file.
    pub fn print_key_file(secret: &Secret) -> (r: Vec<u8>)
        ensures
            r@ == key_file_bytes(*secret),
    {
        let mut out: Vec<u8> = Vec::new();
        encode_u64(secret.name, &mut out);
        encode_u64(secret.secret, &mut out);
        proof {
            assert(out@ =~= key_file_bytes(*secret));
        }
        out
    }

    /// Parses a key-file image back into the secret it encodes.
    pub fn read_key_file(bytes: &Vec<u8>) -> (r: Option<Secret>)
        ensures
            match r {
                Some(s) => bytes@ == key_file_bytes(s),
                None => bytes@.len() != 16,
            },
    {
        if bytes.len() != 16 {
            return None;
        }
        let name = decode_u64(bytes, 0);
        let secret = decode_u64(bytes, 8);
        let r = Secret { name, secret };
        proof {
            assert(bytes@ =~= key_file_bytes(r));
        }
        Some(r)
    }
}

proof fn lemma_byte_eq_at(x: u64, y: u64, iu: u64)
    requires
        iu < 8,
        byte_of(x, iu as int) == byte_of(y, iu as int),
    ensures
        ((x >> (8 * iu)) & 0xff) == ((y >> (8 * iu)) & 0xff),
{
    assert((8 * (iu as int)) as u64 == 8 * iu);
    assert(((x >> (8 * iu)) & 0xff) < 256) by (bit_vector);
    assert(((y >> (8 * iu)) & 0xff) < 256) by (bit_vector);
}

proof fn lemma_bytes_determine(x: u64, y: u64)
    requires
        forall|i: int| 0 <= i < 8 ==> byte_of(x, i) == byte_of(y, i),
    ensures
        x == y,
{
    lemma_byte_eq_at(x, y, 0);
    lemma_byte_eq_at(x, y, 1);
    lemma_byte_eq_at(x, y, 2);
    lemma_byte_eq_at(x, y, 3);
    lemma_byte_eq_at(x, y, 4);
    lemma_byte_eq_at(x, y, 5);
    lemma_byte_eq_at(x, y, 6);
    lemma_byte_eq_at(x, y, 7);
    assert(x == y) by (bit_vector)
        requires
            ((x >> (8 * 0u64)) & 0xff) == ((y >> (8 * 0u64)) & 0xff),
            ((x >> (8 * 1u64)) & 0xff) == ((y >> (8 * 1u64)) & 0xff),
            ((x >> (8 * 2u64)) & 0xff) == ((y >> (8 * 2u64)) & 0xff),
            ((x >> (8 * 3u64)) & 0xff) == ((y >> (8 * 3u64)) & 0xff),
            ((x >> (8 * 4u64)) & 0xff) == ((y >> (8 * 4u64)) & 0xff),
            ((x >> (8 * 5u64)) & 0xff) == ((y >> (8 * 5u64)) & 0xff),
            ((x >> (8 * 6u64)) & 0xff) == ((y >> (8 * 6u64)) & 0xff),
            ((x >> (8 * 7u64)) & 0xff) == ((y >> (8 * 7u64)) & 0xff),
    ;
}

/// Round trip: the key-file encoding is injective, so the image written
/// for a secret reads back as exactly that secret and no other.
pub proof fn theorem_key_file_round_trip(s: Secret, t: Secret)
    requires
        key_file_bytes(s) == key_file_bytes(t),
    ensures
        s == t,
{
    assert forall|i: int| 0 <= i < 8 implies byte_of(s.name, i) == byte_of(t.name, i) by {
        assert(key_file_bytes(s)[i] == byte_of(s.name, i));
        assert(key_file_bytes(t)[i] == byte_of(t.name, i));
        assert(key_file_bytes(s)[i] == key_file_bytes(t)[i]);
    }
    assert forall|i: int| 0 <= i < 8 implies byte_of(s.secret, i) == byte_of(t.secret, i) by {
        assert(key_file_bytes(s)[i + 8] == byte_of(s.secret, i));
        assert(key_file_bytes(t)[i + 8] == byte_of(t.secret, i));
        assert(key_file_bytes(s)[i + 8] == key_file_bytes(t)[i + 8]);
    }
    lemma_bytes_determine(s.name, t.name);
    lemma_bytes_determine(s.secret, t.secret);
}

} // verus!
