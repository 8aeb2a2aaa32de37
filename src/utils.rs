use vstd::prelude::*;

verus! {

/// Relies on `TryFrom<Vec<T>> for [T; N]`: it succeeds exactly when the length
/// is `N`, and the array then holds the vector's items in order.
#[verifier::external_body]
fn array_from_vec<T, const N: usize>(v: Vec<T>) -> (r: Option<[T; N]>)
    ensures
        r is Some <==> v@.len() == N,
        r matches Some(a) ==> a@ == v@,
{
    v.try_into().ok()
}

/// Converts a vector of 64 bytes to an array; any other length gives `None`.
pub fn vec_to_64_byte_array(vec: Vec<u8>) -> (r: Option<[u8; 64]>)
    ensures
        r is Some <==> vec@.len() == 64,
        r matches Some(a) ==> a@ == vec@,
{
    if vec.len() != 64 {
        return None;
    }
    array_from_vec(vec)
}

/// Converts a vector of exactly `N` items to an array of them.
pub fn vec_to_fixed<T, const N: usize>(v: Vec<T>) -> (r: [T; N])
    requires
        v@.len() == N,
    ensures
        r@ == v@,
{
    array_from_vec(v).unwrap()
}

} // verus!
