use vstd::prelude::*;

verus! {

// A distance along a ray is carried as an order key: an unsigned integer
// that orders as the distances do. An IEEE-754 single-precision value with
// bit pattern `bits` is `sign * magnitude`, where the magnitude bits
// `bits & 0x7fff_ffff` order as the absolute values do; its key is that
// signed magnitude shifted up by 2^31. Both zeros share one key.
/// The order key of the distance zero.
pub const ZERO_KEY: u32 = 0x8000_0000;

/// Whether `bits` is the pattern of a NaN, which has no place in the order.
pub open spec fn is_nan_bits(bits: u32) -> bool {
    bits & 0x7fff_ffff > 0x7f80_0000
}

/// The sign-and-magnitude reading of the bit pattern `bits`: the magnitude
/// bits, negated when the sign bit is set.
pub open spec fn signed_magnitude(bits: u32) -> int {
    if bits & 0x8000_0000 != 0 {
        -((bits & 0x7fff_ffff) as int)
    } else {
        (bits & 0x7fff_ffff) as int
    }
}

/// The order key of the single-precision value with bit pattern `bits`, or
/// `None` for a NaN.
pub open spec fn key_of(bits: u32) -> Option<u32> {
    if is_nan_bits(bits) {
        None
    } else {
        Some((signed_magnitude(bits) + ZERO_KEY) as u32)
    }
}

/// Whether the key `k` stands for a distance greater than zero.
pub open spec fn is_positive(k: u32) -> bool {
    k > ZERO_KEY
}

/// Keys order as the sign-and-magnitude readings of the bit patterns do:
/// the same reading gives the same key, a smaller reading a smaller key, and
/// a key is positive exactly when the reading is.
pub proof fn lemma_key_order(a: u32, b: u32)
    requires
        !is_nan_bits(a),
        !is_nan_bits(b),
    ensures
        key_of(a)->0 == signed_magnitude(a) + ZERO_KEY,
        key_of(a)->0 < key_of(b)->0 <==> signed_magnitude(a) < signed_magnitude(b),
        key_of(a)->0 == key_of(b)->0 <==> signed_magnitude(a) == signed_magnitude(b),
        is_positive(key_of(a)->0) <==> signed_magnitude(a) > 0,
{
    lemma_magnitude_bound(a);
    lemma_magnitude_bound(b);
}

proof fn lemma_magnitude_bound(bits: u32)
    ensures
        bits & 0x7fff_ffff <= 0x7fff_ffff,
{
    assert(bits & 0x7fff_ffff <= 0x7fff_ffff) by (bit_vector);
}

/// The order key of the single-precision value whose bit pattern is `bits`.
pub fn distance_key(bits: u32) -> (r: Option<u32>)
    ensures
        r == key_of(bits),
{
    let m = bits & 0x7fff_ffff;
    proof {
        lemma_magnitude_bound(bits);
    }
    if m > 0x7f80_0000 {
        None
    } else if bits & 0x8000_0000 != 0 {
        Some(ZERO_KEY - m)
    } else {
        Some(ZERO_KEY + m)
    }
}

// ---------------------------------------------------------------------------
// Closest hit.
// ---------------------------------------------------------------------------

/// Whether a primitive's report is a hit at a positive distance.
pub open spec fn is_ahead(h: Option<u32>) -> bool {
    h matches Some(k) && is_positive(k)
}

/// Primitive `i` is the one a ray meets first: it is hit at a positive
/// distance, no primitive is hit nearer at a positive distance, and every
/// primitive registered before it is hit strictly farther away, or not at a
/// positive distance.
pub open spec fn is_closest(hits: Seq<Option<u32>>, i: int) -> bool {
    &&& 0 <= i < hits.len()
    &&& is_ahead(hits[i])
    &&& forall|j: int| 0 <= j < hits.len() && is_ahead(hits[j]) ==> hits[i]->0 <= hits[j]->0
    &&& forall|j: int| 0 <= j < i && is_ahead(hits[j]) ==> hits[i]->0 < hits[j]->0
}

/// Finds the primitive that a ray meets first, given for each primitive, in
/// registration order, the key of its intersection distance (`None` for a
/// miss). Only hits at a positive distance count; of primitives at the same
/// distance the earlier one wins. `None` when no primitive is hit ahead.
pub fn closest_hit(hits: &Vec<Option<u32>>) -> (r: Option<usize>)
    ensures
        match r {
            None => forall|j: int| 0 <= j < hits@.len() ==> !is_ahead(hits@[j]),
            Some(i) => is_closest(hits@, i as int),
        },
{
    let mut best: Option<usize> = None;
    let mut best_key: u32 = 0;
    let mut n: usize = 0;
    while n < hits.len()
        invariant
            n <= hits@.len(),
            match best {
                None => forall|j: int| 0 <= j < n ==> !is_ahead(hits@[j]),
                Some(i) => {
                    &&& 0 <= i < n
                    &&& hits@[i as int] == Some(best_key)
                    &&& is_positive(best_key)
                    &&& forall|j: int|
                        0 <= j < n && is_ahead(hits@[j]) ==> best_key <= hits@[j]->0
                    &&& forall|j: int| 0 <= j < i && is_ahead(hits@[j]) ==> best_key < hits@[j]->0
                },
            },
        decreases hits@.len() - n,
    {
        if let Some(z) = hits[n] {
            if z > ZERO_KEY {
                match best {
                    None => {
                        best = Some(n);
                        best_key = z;
                    },
                    Some(_) => {
                        if z < best_key {
                            best = Some(n);
                            best_key = z;
                        }
                    },
                }
            }
        }
        n = n + 1;
    }
    best
}

/// A primitive hit ahead strictly nearer than every other hit ahead is the
/// closest hit, wherever it stands in the sequence.
pub proof fn lemma_closest_strict_minimum(hits: Seq<Option<u32>>, i: int)
    requires
        0 <= i < hits.len(),
        is_ahead(hits[i]),
        forall|j: int|
            0 <= j < hits.len() && j != i && is_ahead(hits[j]) ==> hits[i]->0 < hits[j]->0,
    ensures
        is_closest(hits, i),
        forall|k: int| is_closest(hits, k) ==> k == i,
{
}

/// Of two primitives hit ahead at the same distance, the later one is never
/// the closest hit.
pub proof fn lemma_closest_tie_keeps_earlier(hits: Seq<Option<u32>>, i: int, j: int)
    requires
        0 <= i < j < hits.len(),
        is_ahead(hits[i]),
        hits[i] == hits[j],
    ensures
        !is_closest(hits, j),
{
}

/// A hit at zero or behind the ray is never the closest hit.
pub proof fn lemma_closest_is_ahead(hits: Seq<Option<u32>>, i: int)
    requires
        0 <= i < hits.len(),
        !is_ahead(hits[i]),
    ensures
        !is_closest(hits, i),
{
}

/// There is at most one closest hit.
pub proof fn lemma_closest_unique(hits: Seq<Option<u32>>, i: int, k: int)
    requires
        is_closest(hits, i),
        is_closest(hits, k),
    ensures
        i == k,
{
    if i < k {
        assert(hits[k]->0 <= hits[i]->0);
    } else if k < i {
        assert(hits[i]->0 <= hits[k]->0);
    }
}

// ---------------------------------------------------------------------------
// Root selection for the ray/sphere quadratic.
// ---------------------------------------------------------------------------

/// The real roots of the ray/sphere quadratic, as order keys: none when the
/// discriminant is negative, one when it is zero, two when it is positive.
#[derive(Clone, Copy, PartialEq, Eq, Structural, Debug)]
pub enum Roots {
    Zero,
    One(u32),
    Two(u32, u32),
}

/// The nearest positive root: none of no roots; a single root only when it
/// is positive; of two roots the smaller when both are positive, the positive
/// one when exactly one is, and none when neither is.
pub open spec fn nearest_positive(roots: Roots) -> Option<u32> {
    match roots {
        Roots::Zero => None,
        Roots::One(x) => if is_positive(x) {
            Some(x)
        } else {
            None
        },
        Roots::Two(x, y) => if is_positive(x) && is_positive(y) {
            Some(if x <= y {
                x
            } else {
                y
            })
        } else if is_positive(x) {
            Some(x)
        } else if is_positive(y) {
            Some(y)
        } else {
            None
        },
    }
}

/// Picks the intersection distance of a ray with a sphere from the roots of
/// its quadratic.
pub fn nearest_root(roots: Roots) -> (r: Option<u32>)
    ensures
        r == nearest_positive(roots),
{
    match roots {
        Roots::Zero => None,
        Roots::One(x) => if x > ZERO_KEY {
            Some(x)
        } else {
            None
        },
        Roots::Two(x, y) => {
            if x > ZERO_KEY && y > ZERO_KEY {
                Some(if x <= y {
                    x
                } else {
                    y
                })
            } else if x > ZERO_KEY {
                Some(x)
            } else if y > ZERO_KEY {
                Some(y)
            } else {
                None
            }
        },
    }
}

} // verus!
