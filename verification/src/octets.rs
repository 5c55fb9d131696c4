//! Byte strings.

use vstd::prelude::*;

verus! {

/// Every byte is zero.
pub open spec fn is_zero(bytes: Seq<u8>) -> bool {
    forall|i: int| 0 <= i < bytes.len() ==> bytes[i] == 0
}

pub fn all_zero(bytes: &[u8]) -> (r: bool)
    ensures
        r == is_zero(bytes@),
{
    let mut i: usize = 0;
    while i < bytes.len()
        invariant
            i <= bytes@.len(),
            forall|k: int| 0 <= k < i ==> bytes@[k] == 0,
        decreases bytes@.len() - i,
    {
        if bytes[i] != 0 {
            return false;
        }
        i += 1;
    }
    true
}

/// The bytes, where there are any.
pub open spec fn bytes_of(bytes: Option<Vec<u8>>) -> Option<Seq<u8>> {
    match bytes {
        Some(bytes) => Some(bytes@),
        None => None,
    }
}

pub fn same_bytes(a: &[u8], b: &[u8]) -> (r: bool)
    ensures
        r == (a@ == b@),
{
    if a.len() != b.len() {
        return false;
    }
    let mut i: usize = 0;
    while i < a.len()
        invariant
            a@.len() == b@.len(),
            i <= a@.len(),
            forall|k: int| 0 <= k < i ==> a@[k] == b@[k],
        decreases a@.len() - i,
    {
        if a[i] != b[i] {
            return false;
        }
        i += 1;
    }
    assert(a@ =~= b@);
    true
}

/// Appends `more` to `bytes`.
pub fn extend(bytes: &mut Vec<u8>, more: &[u8])
    ensures
        final(bytes)@ == old(bytes)@ + more@,
{
    bytes.extend_from_slice(more);
    assert(bytes@ =~= old(bytes)@ + more@);
}

/// Two keys of one length with the same bytes are the same key.
pub proof fn key_ext(a: [u8; 32], b: [u8; 32])
    ensures
        (a@ == b@) == (a == b),
{
    if a@ == b@ {
        assert(a =~= b);
    }
}

pub proof fn id_ext(a: [u8; 16], b: [u8; 16])
    ensures
        (a@ == b@) == (a == b),
{
    if a@ == b@ {
        assert(a =~= b);
    }
}

pub fn same_key(a: &[u8; 32], b: &[u8; 32]) -> (r: bool)
    ensures
        r == (*a == *b),
{
    proof {
        key_ext(*a, *b);
    }
    same_bytes(a, b)
}

pub fn same_id(a: &[u8; 16], b: &[u8; 16]) -> (r: bool)
    ensures
        r == (*a == *b),
{
    proof {
        id_ext(*a, *b);
    }
    same_bytes(a, b)
}

} // verus!
