//! Small verified helpers shared by the model modules.

use vstd::prelude::*;

verus! {

/// A vector of `n` empty slots.
pub fn vec_of_none<T>(n: usize) -> (r: Vec<Option<T>>)
    ensures
        r@.len() == n,
        forall|i: int| 0 <= i < n ==> r@[i] is None,
{
    let mut v: Vec<Option<T>> = Vec::new();
    let mut k: usize = 0;
    while k < n
        invariant
            k <= n,
            v@.len() == k,
            forall|i: int| 0 <= i < k ==> v@[i] is None,
        decreases n - k,
    {
        v.push(None);
        k += 1;
    }
    v
}

/// A vector holding `n` copies of a byte.
pub fn vec_of_u8(n: usize, x: u8) -> (r: Vec<u8>)
    ensures
        r@.len() == n,
        forall|i: int| 0 <= i < n ==> r@[i] == x,
{
    let mut v: Vec<u8> = Vec::new();
    let mut k: usize = 0;
    while k < n
        invariant
            k <= n,
            v@.len() == k,
            forall|i: int| 0 <= i < k ==> v@[i] == x,
        decreases n - k,
    {
        v.push(x);
        k += 1;
    }
    v
}

/// A vector holding `n` copies of a 16-bit value.
pub fn vec_of_u16(n: usize, x: u16) -> (r: Vec<u16>)
    ensures
        r@.len() == n,
        forall|i: int| 0 <= i < n ==> r@[i] == x,
{
    let mut v: Vec<u16> = Vec::new();
    let mut k: usize = 0;
    while k < n
        invariant
            k <= n,
            v@.len() == k,
            forall|i: int| 0 <= i < k ==> v@[i] == x,
        decreases n - k,
    {
        v.push(x);
        k += 1;
    }
    v
}

/// A vector holding `n` copies of a signed byte.
pub fn vec_of_i8(n: usize, x: i8) -> (r: Vec<i8>)
    ensures
        r@.len() == n,
        forall|i: int| 0 <= i < n ==> r@[i] == x,
{
    let mut v: Vec<i8> = Vec::new();
    let mut k: usize = 0;
    while k < n
        invariant
            k <= n,
            v@.len() == k,
            forall|i: int| 0 <= i < k ==> v@[i] == x,
        decreases n - k,
    {
        v.push(x);
        k += 1;
    }
    v
}

} // verus!
