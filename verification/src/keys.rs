//! The frame of an encoded key: points of fixed length, and vectors of
//! points that begin with their length. A key is decoded only where every
//! length it announces fits the bytes that follow it.

use crate::curve::{slice_bytes, G1_BYTES, G2_BYTES};
use vstd::prelude::*;

verus! {

/// The number that the eight bytes from `at` on write, least significant
/// byte first.
pub open spec fn le_u64(bytes: Seq<u8>, at: int) -> nat {
    (bytes[at] as nat) + (bytes[at + 1] as nat) * 0x100 + (bytes[at + 2] as nat) * 0x1_0000 + (
    bytes[at + 3] as nat) * 0x100_0000 + (bytes[at + 4] as nat) * 0x1_0000_0000 + (bytes[at
        + 5] as nat) * 0x100_0000_0000 + (bytes[at + 6] as nat) * 0x1_0000_0000_0000 + (bytes[at
        + 7] as nat) * 0x100_0000_0000_0000
}

/// Where the vector of points that begins at `at` ends: behind its length
/// and as many points of `item` bytes as the length says. `None` where the
/// bytes end before that.
pub open spec fn vector_end(bytes: Seq<u8>, at: int, item: int) -> Option<int> {
    if 0 <= at && at + 8 <= bytes.len() && at + 8 + le_u64(bytes, at) * item <= bytes.len() {
        Some(at + 8 + le_u64(bytes, at) * item)
    } else {
        None
    }
}

/// Where an encoded verifying key ends: one point of the first group, three
/// of the second, and a vector of points of the first.
pub open spec fn verifying_key_end(bytes: Seq<u8>) -> Option<int> {
    vector_end(bytes, G1_BYTES + 3 * G2_BYTES, G1_BYTES as int)
}

/// Where an encoded proving key ends: a verifying key, two points of the
/// first group, and five vectors of points, the third of the second group.
pub open spec fn proving_key_end(bytes: Seq<u8>) -> Option<int> {
    match verifying_key_end(bytes) {
        None => None,
        Some(vk) => match vector_end(bytes, vk + 2 * G1_BYTES, G1_BYTES as int) {
            None => None,
            Some(a) => match vector_end(bytes, a, G1_BYTES as int) {
                None => None,
                Some(b1) => match vector_end(bytes, b1, G2_BYTES as int) {
                    None => None,
                    Some(b2) => match vector_end(bytes, b2, G1_BYTES as int) {
                        None => None,
                        Some(h) => vector_end(bytes, h, G1_BYTES as int),
                    },
                },
            },
        },
    }
}

/// The bytes have the frame of a verifying key.
pub open spec fn verifying_key_framed(bytes: Seq<u8>) -> bool {
    verifying_key_end(bytes) is Some
}

/// The bytes have the frame of a proving key.
pub open spec fn proving_key_framed(bytes: Seq<u8>) -> bool {
    proving_key_end(bytes) is Some
}

/// Reads the length of the vector at `at` and finds where the vector ends.
fn end_of_vector(bytes: &Vec<u8>, at: usize, wide: bool) -> (r: Option<usize>)
    ensures
        (match r {
            Some(end) => Some(end as int),
            None => None,
        }) == vector_end(
            bytes@,
            at as int,
            if wide {
                G2_BYTES as int
            } else {
                G1_BYTES as int
            },
        ),
{
    if at > bytes.len() || bytes.len() - at < 8 {
        return None;
    }
    let n: u64 = bytes[at] as u64 + (bytes[at + 1] as u64) * 0x100 + (bytes[at + 2] as u64)
        * 0x1_0000 + (bytes[at + 3] as u64) * 0x100_0000 + (bytes[at + 4] as u64) * 0x1_0000_0000
        + (bytes[at + 5] as u64) * 0x100_0000_0000 + (bytes[at + 6] as u64) * 0x1_0000_0000_0000
        + (bytes[at + 7] as u64) * 0x100_0000_0000_0000;
    let left = bytes.len() - at - 8;
    if wide {
        if n > (left / 64) as u64 {
            return None;
        }
        Some(at + 8 + (n as usize) * 64)
    } else {
        if n > (left / 32) as u64 {
            return None;
        }
        Some(at + 8 + (n as usize) * 32)
    }
}

/// Whether the bytes have the frame of a verifying key.
pub fn has_verifying_key_frame(bytes: &Vec<u8>) -> (r: bool)
    ensures
        r == verifying_key_framed(bytes@),
{
    end_of_vector(bytes, G1_BYTES + 3 * G2_BYTES, false).is_some()
}

/// Whether the bytes have the frame of a proving key.
pub fn has_proving_key_frame(bytes: &Vec<u8>) -> (r: bool)
    ensures
        r == proving_key_framed(bytes@),
{
    let Some(vk) = end_of_vector(bytes, G1_BYTES + 3 * G2_BYTES, false) else {
        return false;
    };
    if bytes.len() - vk < 2 * G1_BYTES {
        assert(vector_end(bytes@, vk + 2 * G1_BYTES, G1_BYTES as int) is None);
        return false;
    }
    let Some(a) = end_of_vector(bytes, vk + 2 * G1_BYTES, false) else {
        return false;
    };
    let Some(b1) = end_of_vector(bytes, a, false) else {
        return false;
    };
    let Some(b2) = end_of_vector(bytes, b1, true) else {
        return false;
    };
    let Some(h) = end_of_vector(bytes, b2, false) else {
        return false;
    };
    end_of_vector(bytes, h, false).is_some()
}

/// The first point of the vector that begins at `at`; `None` where the
/// vector does not fit the bytes or is empty.
pub open spec fn first_point(bytes: Seq<u8>, at: int, item: int) -> Option<Seq<u8>> {
    if vector_end(bytes, at, item) is Some && le_u64(bytes, at) >= 1 {
        Some(bytes.subrange(at + 8, at + 8 + item))
    } else {
        None
    }
}

/// Where the `a_query` of an encoded proving key begins: behind the
/// verifying key and two points of the first group.
pub open spec fn a_query_at(bytes: Seq<u8>) -> Option<int> {
    match verifying_key_end(bytes) {
        Some(vk) => Some(vk + 2 * G1_BYTES),
        None => None,
    }
}

/// Where the `b_g2_query` of an encoded proving key begins: behind the
/// `a_query` and the `b_g1_query`.
pub open spec fn b_g2_query_at(bytes: Seq<u8>) -> Option<int> {
    match a_query_at(bytes) {
        None => None,
        Some(at) => match vector_end(bytes, at, G1_BYTES as int) {
            None => None,
            Some(a) => vector_end(bytes, a, G1_BYTES as int),
        },
    }
}

/// The first element of the `a_query` of a framed proving key, as it is
/// encoded; `None` where the key is not framed or the query is empty.
pub open spec fn first_a_query(bytes: Seq<u8>) -> Option<Seq<u8>> {
    if proving_key_framed(bytes) {
        first_point(bytes, a_query_at(bytes).unwrap(), G1_BYTES as int)
    } else {
        None
    }
}

/// The first element of the `b_g2_query` of a framed proving key, as it is
/// encoded; `None` where the key is not framed or the query is empty.
pub open spec fn first_b_g2_query(bytes: Seq<u8>) -> Option<Seq<u8>> {
    if proving_key_framed(bytes) {
        first_point(bytes, b_g2_query_at(bytes).unwrap(), G2_BYTES as int)
    } else {
        None
    }
}

/// The `alpha_g1` of a framed verifying key, as it is encoded: its first
/// point.
pub open spec fn alpha_g1_of(bytes: Seq<u8>) -> Option<Seq<u8>> {
    if verifying_key_framed(bytes) {
        Some(bytes.subrange(0, G1_BYTES as int))
    } else {
        None
    }
}

/// The `beta_g2` of a framed verifying key, as it is encoded: its second
/// point.
pub open spec fn beta_g2_of(bytes: Seq<u8>) -> Option<Seq<u8>> {
    if verifying_key_framed(bytes) {
        Some(bytes.subrange(G1_BYTES as int, G1_BYTES + G2_BYTES))
    } else {
        None
    }
}

/// Cuts the first point out of the vector at `at`.
fn first_point_at(bytes: &Vec<u8>, at: usize, wide: bool) -> (r: Option<Vec<u8>>)
    ensures
        (match r {
            Some(point) => Some(point@),
            None => None,
        }) == first_point(
            bytes@,
            at as int,
            if wide {
                G2_BYTES as int
            } else {
                G1_BYTES as int
            },
        ),
{
    let Some(end) = end_of_vector(bytes, at, wide) else {
        return None;
    };
    let item = if wide {
        G2_BYTES
    } else {
        G1_BYTES
    };
    if end - at - 8 < item {
        return None;
    }
    Some(slice_bytes(bytes, at + 8, at + 8 + item))
}

/// The first element of the key's `a_query`, as it is encoded.
pub fn read_first_a_query(proving_key: &Vec<u8>) -> (r: Option<Vec<u8>>)
    ensures
        (match r {
            Some(point) => Some(point@),
            None => None,
        }) == first_a_query(proving_key@),
{
    if !has_proving_key_frame(proving_key) {
        return None;
    }
    let Some(vk) = end_of_vector(proving_key, G1_BYTES + 3 * G2_BYTES, false) else {
        return None;
    };
    assert(verifying_key_end(proving_key@) == Some(vk as int));
    assert(proving_key_end(proving_key@) is Some);
    assert(vector_end(proving_key@, vk + 2 * G1_BYTES, G1_BYTES as int) is Some);
    assert(vk + 2 * G1_BYTES + 8 <= proving_key.len());
    first_point_at(proving_key, vk + 2 * G1_BYTES, false)
}

/// The first element of the key's `b_g2_query`, as it is encoded.
pub fn read_first_b_g2_query(proving_key: &Vec<u8>) -> (r: Option<Vec<u8>>)
    ensures
        (match r {
            Some(point) => Some(point@),
            None => None,
        }) == first_b_g2_query(proving_key@),
{
    if !has_proving_key_frame(proving_key) {
        return None;
    }
    let Some(vk) = end_of_vector(proving_key, G1_BYTES + 3 * G2_BYTES, false) else {
        return None;
    };
    assert(verifying_key_end(proving_key@) == Some(vk as int));
    assert(proving_key_end(proving_key@) is Some);
    assert(vector_end(proving_key@, vk + 2 * G1_BYTES, G1_BYTES as int) is Some);
    assert(vk + 2 * G1_BYTES + 8 <= proving_key.len());
    let Some(a) = end_of_vector(proving_key, vk + 2 * G1_BYTES, false) else {
        return None;
    };
    let Some(b1) = end_of_vector(proving_key, a, false) else {
        return None;
    };
    first_point_at(proving_key, b1, true)
}

/// The key's `alpha_g1`, as it is encoded.
pub fn read_alpha_g1(verifying_key: &Vec<u8>) -> (r: Option<Vec<u8>>)
    ensures
        (match r {
            Some(point) => Some(point@),
            None => None,
        }) == alpha_g1_of(verifying_key@),
{
    if !has_verifying_key_frame(verifying_key) {
        return None;
    }
    Some(slice_bytes(verifying_key, 0, G1_BYTES))
}

/// The key's `beta_g2`, as it is encoded.
pub fn read_beta_g2(verifying_key: &Vec<u8>) -> (r: Option<Vec<u8>>)
    ensures
        (match r {
            Some(point) => Some(point@),
            None => None,
        }) == beta_g2_of(verifying_key@),
{
    if !has_verifying_key_frame(verifying_key) {
        return None;
    }
    Some(slice_bytes(verifying_key, G1_BYTES, G1_BYTES + G2_BYTES))
}

} // verus!
