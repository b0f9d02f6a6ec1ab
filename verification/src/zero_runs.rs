//! Runs of zero bits between one bits in a 32-bit word.

use vstd::prelude::*;

verus! {

/// Bit `k` of `w` is one, counting from the lowest bit.
pub open spec fn bit(w: u32, k: u32) -> bool {
    (w >> k) & 1 == 1
}

/// The bits `p` and `q` of `w` are one, and between them stands at least
/// one bit, all of them zero.
pub open spec fn is_gap(w: u32, p: u32, q: u32) -> bool {
    &&& p + 1 < q < 32
    &&& bit(w, p)
    &&& bit(w, q)
    &&& forall|k: u32| p < k < q ==> !bit(w, k)
}

/// `m` is the length of the longest run of zero bits of `w` that has a one
/// bit on either side.
pub open spec fn is_longest_gap(w: u32, m: u32) -> bool {
    &&& exists|p: u32, q: u32| #[trigger] is_gap(w, p, q) && q - p - 1 == m
    &&& forall|p: u32, q: u32| #[trigger] is_gap(w, p, q) ==> q - p - 1 <= m
}

/// No run of zero bits of `w` has a one bit on either side.
pub open spec fn has_no_gap(w: u32) -> bool {
    forall|p: u32, q: u32| !#[trigger] is_gap(w, p, q)
}

/// The word with the bits of `n`.
pub fn word(n: i32) -> (w: u32)
    ensures
        w == n as u32,
{
    #[verifier::truncate]
    (n as u32)
}

/// Finds the length of the longest run of zero bits that stands between two
/// one bits of `n`, if there is such a run. Zeros below the lowest one bit
/// and above the highest do not count.
pub fn num_z(n: i32) -> (r: Option<u32>)
    ensures
        match r {
            Some(m) => is_longest_gap(n as u32, m),
            None => has_no_gap(n as u32),
        },
{
    let w: u32 = word(n);
    let mut last: Option<u32> = None;
    let mut best: u32 = 0;
    let ghost mut from: u32 = 0;
    let ghost mut to: u32 = 0;
    let mut k: u32 = 0;
    while k < 32
        invariant
            k <= 32,
            w == n as u32,
            match last {
                Some(p) => p < k && bit(w, p) && forall|j: u32| p < j < k ==> !bit(w, j),
                None => forall|j: u32| j < k ==> !bit(w, j),
            },
            best < 32,
            best > 0 ==> is_gap(w, from, to) && to - from - 1 == best,
            forall|p: u32, q: u32| #[trigger] is_gap(w, p, q) && q < k ==> q - p - 1 <= best,
        decreases 32 - k,
    {
        if (w >> k) & 1 == 1 {
            proof {
                assert forall|p: u32, q: u32| #[trigger] is_gap(w, p, q) && q == k implies last
                    == Some(p) by {
                    match last {
                        Some(l) => {
                            if p < l {
                                assert(!bit(w, l));
                            }
                        },
                        None => {},
                    }
                }
            }
            match last {
                Some(p) => {
                    if k - p - 1 > best {
                        best = k - p - 1;
                        proof {
                            from = p;
                            to = k;
                        }
                    }
                },
                None => {},
            }
            last = Some(k);
        }
        k += 1;
    }
    if best == 0 {
        None
    } else {
        Some(best)
    }
}

} // verus!
