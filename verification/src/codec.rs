use vstd::prelude::*;
use vstd::bytes::{
    lemma_auto_spec_u32_to_from_le_bytes, spec_u32_from_le_bytes, spec_u32_to_le_bytes,
    u32_from_le_bytes, u32_to_le_bytes,
};
use vstd::slice::slice_subrange;
use crate::errors::CoreError;

verus! {

/// Number of bytes in a key-derivation buffer and in a derived storage key.
pub const KEY_LEN: usize = 32;

/// The key-derivation input for a model version: a 32-byte buffer holding
/// the version's big-endian bytes in its first four positions and zeroes
/// everywhere else.
pub open spec fn spec_version_buf(version: u32) -> Seq<u8> {
    Seq::new(
        KEY_LEN as nat,
        |i: int|
            if i == 0 {
                ((version >> 24) & 0xff) as u8
            } else if i == 1 {
                ((version >> 16) & 0xff) as u8
            } else if i == 2 {
                ((version >> 8) & 0xff) as u8
            } else if i == 3 {
                (version & 0xff) as u8
            } else {
                0u8
            },
    )
}

/// `bytes` is the flat little-endian encoding of the scalar sequence
/// `scalars`: four bytes per 32-bit scalar, no prefix and no padding.
pub open spec fn encodes(bytes: Seq<u8>, scalars: Seq<u32>) -> bool {
    &&& bytes.len() == 4 * scalars.len()
    &&& forall|i: int|
        0 <= i < scalars.len() ==> bytes.subrange(4 * i, 4 * i + 4) == spec_u32_to_le_bytes(
            #[trigger] scalars[i],
        )
}

/// Stateless helpers: version-to-key-buffer derivation and the scalar codec.
#[derive(Debug)]
pub struct SchemaUtils {}

impl SchemaUtils {
    /// Builds the 32-byte key-derivation buffer for a model version:
    /// an all-zero buffer with the version's big-endian bytes written
    /// into the first four positions.
    pub fn pubkey_from_version(version: u32) -> (r: Vec<u8>)
        ensures
            r@ == spec_version_buf(version),
            r@.len() == KEY_LEN,
    {
        let mut buf: Vec<u8> = Vec::new();
        buf.push(((version >> 24) & 0xff) as u8);
        buf.push(((version >> 16) & 0xff) as u8);
        buf.push(((version >> 8) & 0xff) as u8);
        buf.push((version & 0xff) as u8);
        let mut i: usize = 4;
        while i < KEY_LEN
            invariant
                4 <= i <= KEY_LEN,
                buf@.len() == i,
                forall|j: int| 0 <= j < i ==> buf@[j] == spec_version_buf(version)[j],
            decreases KEY_LEN - i,
        {
            buf.push(0u8);
            i = i + 1;
        }
        proof {
            assert(buf@ =~= spec_version_buf(version));
        }
        buf
    }

    /// Flattens a vector of 32-bit scalars into its byte encoding.
    pub fn float_vec_to_byte_slice(scalars: &Vec<u32>) -> (r: Vec<u8>)
        ensures
            encodes(r@, scalars@),
    {
        let mut out: Vec<u8> = Vec::new();
        let mut i: usize = 0;
        while i < scalars.len()
            invariant
                i <= scalars@.len(),
                out@.len() == 4 * i,
                forall|j: int|
                    0 <= j < i ==> out@.subrange(4 * j, 4 * j + 4) == spec_u32_to_le_bytes(
                        #[trigger] scalars@[j],
                    ),
            decreases scalars@.len() - i,
        {
            let ghost prev = out@;
            let bs = u32_to_le_bytes(scalars[i]);
            out.push(bs[0]);
            out.push(bs[1]);
            out.push(bs[2]);
            out.push(bs[3]);
            proof {
                assert(out@ =~= prev + spec_u32_to_le_bytes(scalars@[i as int]));
                assert forall|j: int| 0 <= j < i + 1 implies out@.subrange(4 * j, 4 * j + 4)
                    == spec_u32_to_le_bytes(#[trigger] scalars@[j]) by {
                    if j < i {
                        assert(out@.subrange(4 * j, 4 * j + 4) =~= prev.subrange(4 * j, 4 * j + 4));
                    } else {
                        assert(out@.subrange(4 * j, 4 * j + 4) =~= spec_u32_to_le_bytes(
                            scalars@[j],
                        ));
                    }
                }
            }
            i = i + 1;
        }
        out
    }

    /// Parses a delta buffer into exactly `model_size` 32-bit scalars.
    /// Returns `SerializationError` if and only if the buffer does not
    /// hold exactly `4 * model_size` bytes.
    pub fn byte_slice_to_float_vec(bytes: &Vec<u8>, model_size: u32) -> (r: Result<
        Vec<u32>,
        CoreError,
    >)
        ensures
            match r {
                Ok(v) => {
                    &&& bytes@.len() == 4 * model_size
                    &&& v@.len() == model_size
                    &&& encodes(bytes@, v@)
                },
                Err(e) => {
                    &&& e == CoreError::SerializationError
                    &&& bytes@.len() != 4 * model_size
                },
            },
    {
        let len64: u64 = bytes.len() as u64;
        if len64 != 4u64 * (model_size as u64) {
            return Err(CoreError::SerializationError);
        }
        let count: usize = model_size as usize;
        let blen: usize = bytes.len();
        let mut out: Vec<u32> = Vec::new();
        let mut i: usize = 0;
        while i < count
            invariant
                i <= count,
                count == model_size,
                bytes@.len() == 4 * count,
                bytes@.len() == blen,
                out@.len() == i,
                forall|j: int|
                    0 <= j < i ==> bytes@.subrange(4 * j, 4 * j + 4) == spec_u32_to_le_bytes(
                        #[trigger] out@[j],
                    ),
            decreases count - i,
        {
            proof {
                assert(4 * (i as int) + 4 <= blen);
            }
            let base: usize = 4 * i;
            let chunk = slice_subrange(bytes.as_slice(), base, base + 4);
            let x = u32_from_le_bytes(chunk);
            proof {
                lemma_auto_spec_u32_to_from_le_bytes();
                assert(spec_u32_to_le_bytes(x) == bytes@.subrange(
                    4 * i as int,
                    4 * i as int + 4,
                ));
            }
            out.push(x);
            i = i + 1;
        }
        Ok(out)
    }
}

/// The key-derivation buffer determines and is determined by the version:
/// distinct versions always yield distinct buffers.
pub proof fn lemma_version_buf_injective(v1: u32, v2: u32)
    ensures
        v1 != v2 ==> spec_version_buf(v1) != spec_version_buf(v2),
        v1 == v2 ==> spec_version_buf(v1) == spec_version_buf(v2),
{
    if v1 != v2 {
        assert((((v1 >> 24) & 0xff) as u8) != (((v2 >> 24) & 0xff) as u8) || (((v1 >> 16)
            & 0xff) as u8) != (((v2 >> 16) & 0xff) as u8) || (((v1 >> 8) & 0xff) as u8) != (((v2
            >> 8) & 0xff) as u8) || ((v1 & 0xff) as u8) != ((v2 & 0xff) as u8)) by (bit_vector)
            requires
                v1 != v2,
        ;
        assert(spec_version_buf(v1)[0] != spec_version_buf(v2)[0] || spec_version_buf(v1)[1]
            != spec_version_buf(v2)[1] || spec_version_buf(v1)[2] != spec_version_buf(v2)[2]
            || spec_version_buf(v1)[3] != spec_version_buf(v2)[3]);
    }
}

/// A byte buffer encodes at most one scalar sequence: decoding is a
/// function of the bytes.
pub proof fn lemma_encodes_functional(bytes: Seq<u8>, s1: Seq<u32>, s2: Seq<u32>)
    requires
        encodes(bytes, s1),
        encodes(bytes, s2),
    ensures
        s1 == s2,
{
    lemma_auto_spec_u32_to_from_le_bytes();
    assert forall|i: int| 0 <= i < s1.len() implies s1[i] == s2[i] by {
        assert(bytes.subrange(4 * i, 4 * i + 4) == spec_u32_to_le_bytes(s1[i]));
        assert(bytes.subrange(4 * i, 4 * i + 4) == spec_u32_to_le_bytes(s2[i]));
        assert(spec_u32_from_le_bytes(spec_u32_to_le_bytes(s1[i])) == s1[i]);
        assert(spec_u32_from_le_bytes(spec_u32_to_le_bytes(s2[i])) == s2[i]);
    }
    assert(s1 =~= s2);
}

/// A scalar sequence has exactly one encoding: round trips are lossless
/// in both directions.
pub proof fn lemma_encodes_unique(b1: Seq<u8>, b2: Seq<u8>, s: Seq<u32>)
    requires
        encodes(b1, s),
        encodes(b2, s),
    ensures
        b1 == b2,
{
    assert forall|j: int| 0 <= j < b1.len() implies b1[j] == b2[j] by {
        let i = j / 4;
        assert(4 * i <= j < 4 * i + 4) by (nonlinear_arith)
            requires
                i == j / 4,
                0 <= j,
        ;
        assert(0 <= i < s.len()) by (nonlinear_arith)
            requires
                4 * i <= j < 4 * i + 4,
                0 <= j,
                b1.len() == 4 * s.len(),
                j < b1.len(),
        ;
        assert(b1.subrange(4 * i, 4 * i + 4) == spec_u32_to_le_bytes(s[i]));
        assert(b2.subrange(4 * i, 4 * i + 4) == spec_u32_to_le_bytes(s[i]));
        assert(b1[j] == b1.subrange(4 * i, 4 * i + 4)[j - 4 * i]);
        assert(b2[j] == b2.subrange(4 * i, 4 * i + 4)[j - 4 * i]);
    }
    assert(b1 =~= b2);
}

} // verus!
