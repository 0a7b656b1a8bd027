//! Random numbers.
use vstd::prelude::*;

verus! {

/// `rand::random::<u64>` returns a number that nothing determines; every `u64`
/// may come back.
#[verifier::external_body]
pub(crate) fn random_u64() -> u64 {
    rand::random::<u64>()
}

/// `n` random numbers.
pub fn draw(n: usize) -> (r: Vec<u64>)
    ensures
        r@.len() == n,
{
    let mut out: Vec<u64> = Vec::new();
    let mut i: usize = 0;
    while i < n
        invariant
            i <= n,
            out@.len() == i,
        decreases n - i,
    {
        out.push(random_u64());
        i = i + 1;
    }
    out
}

/// The place that a random number picks among `len`.
pub fn pick(draw: u64, len: usize) -> (r: usize)
    requires
        len > 0,
    ensures
        r == draw as int % len as int,
        r < len,
{
    (draw % len as u64) as usize
}

} // verus!
