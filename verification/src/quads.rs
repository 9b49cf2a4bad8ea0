//! Index buffers for drawing textured quads, two triangles each.

use vstd::prelude::*;

verus! {

/// The first vertex index of quad `i`: four vertices a quad, the count
/// kept to 32 bits as the index buffer holds it.
pub open spec fn quad_base(i: int) -> u32 {
    (4 * i) as u32
}

/// The vertex of the quad that corner `k` of its two triangles uses: the
/// triangles are (0, 1, 2) and (0, 2, 3).
pub open spec fn quad_corner(k: int) -> int {
    if k == 0 { 0 }
    else if k == 1 { 1 }
    else if k == 2 { 2 }
    else if k == 3 { 0 }
    else if k == 4 { 2 }
    else { 3 }
}

/// The indices that draw `quad_count` quads whose vertices come four by
/// four: quad `i` gives `[b, b+1, b+2, b, b+2, b+3]` with `b = 4i`.
pub fn quad_indices(quad_count: usize) -> (v: Vec<u32>)
    requires
        quad_count * 6 <= usize::MAX,
    ensures
        v@.len() == quad_count * 6,
        forall|i: int, k: int| 0 <= i < quad_count && 0 <= k < 6
            ==> #[trigger] v@[6 * i + k] == quad_base(i) + quad_corner(k),
{
    let mut v: Vec<u32> = Vec::new();
    let mut i: usize = 0;
    while i < quad_count
        invariant
            quad_count * 6 <= usize::MAX,
            i <= quad_count,
            v@.len() == i * 6,
            forall|j: int, k: int| 0 <= j < i && 0 <= k < 6
                ==> #[trigger] v@[6 * j + k] == quad_base(j) + quad_corner(k),
        decreases quad_count - i,
    {
        let x: usize = i * 4;
        assert(x % 4 == 0) by (nonlinear_arith)
            requires x == i * 4;
        assert((x as u32) <= 0xffff_fffcu32) by (bit_vector)
            requires x % 4 == 0;
        let base = x as u32;
        assert(base == quad_base(i as int));
        let ghost prev = v@;
        v.push(base);
        v.push(base + 1);
        v.push(base + 2);
        v.push(base);
        v.push(base + 2);
        v.push(base + 3);
        proof {
            assert forall|j: int, k: int| 0 <= j < i + 1 && 0 <= k < 6
                implies #[trigger] v@[6 * j + k] == quad_base(j) + quad_corner(k) by {
                if j < i {
                    assert(6 * j + k < 6 * i) by (nonlinear_arith)
                        requires 0 <= j < i, 0 <= k < 6;
                    assert(v@[6 * j + k] == prev[6 * j + k]);
                }
            }
        }
        i += 1;
    }
    v
}

} // verus!
