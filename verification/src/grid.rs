//! Row-major grid indexing: the fixed iteration order of a field and the
//! two-way mapping between coordinates and flat offsets.

use vstd::prelude::*;

verus! {

/// Flat offset of the coordinate `(x, y)` in a row-major grid of the given
/// width.
pub open spec fn spec_index_of(width: int, x: int, y: int) -> int {
    y * width + x
}

/// Maps a coordinate to its flat row-major offset, staying inside the grid.
pub fn index_of(width: usize, height: usize, x: usize, y: usize) -> (i: usize)
    requires
        x < width,
        y < height,
        width * height <= usize::MAX,
    ensures
        i == spec_index_of(width as int, x as int, y as int),
        i < width * height,
{
    proof {
        assert(y * width + x < width * height) by (nonlinear_arith)
            requires
                x < width,
                y < height,
        ;
    }
    y * width + x
}

/// Recovers the coordinate stored at a flat row-major offset; inverse of
/// `index_of`.
pub fn coords_of(width: usize, i: usize) -> (p: (usize, usize))
    requires
        width > 0,
    ensures
        p.0 == i as int % width as int,
        p.1 == i as int / width as int,
        spec_index_of(width as int, p.0 as int, p.1 as int) == i,
{
    proof {
        vstd::arithmetic::div_mod::lemma_fundamental_div_mod(i as int, width as int);
        assert((i as int / width as int) * width as int == width as int * (i as int / width as int))
            by (nonlinear_arith);
    }
    (i % width, i / width)
}

/// `s` lists the coordinates of every slot of a `w × h` grid in the fixed
/// fill order: row-major, so the `i`-th point sampled lands at flat offset
/// `i`.
pub open spec fn points_match(s: Seq<(usize, usize)>, w: int, h: int) -> bool {
    &&& s.len() == w * h
    &&& forall|i: int| 0 <= i < s.len() ==> (#[trigger] s[i]).0 == i % w && s[i].1 == i / w
}

/// The coordinates of every grid slot in the fixed fill order: row-major,
/// so the `i`-th point sampled lands at flat offset `i`.
pub fn sample_points(width: usize, height: usize) -> (pts: Vec<(usize, usize)>)
    requires
        width * height <= usize::MAX,
    ensures
        points_match(pts@, width as int, height as int),
        forall|i: int| 0 <= i < pts@.len() ==> (#[trigger] pts@[i]).0 < width && pts@[i].1 < height,
{
    let mut pts: Vec<(usize, usize)> = Vec::new();
    let mut y: usize = 0;
    while y < height
        invariant
            y <= height,
            width * height <= usize::MAX,
            pts@.len() == y * width,
            forall|i: int|
                0 <= i < pts@.len() ==> (#[trigger] pts@[i]).0 == i % (width as int) && pts@[i].1
                    == i / (width as int),
            forall|i: int|
                0 <= i < pts@.len() ==> (#[trigger] pts@[i]).0 < width && pts@[i].1 < height,
        decreases height - y,
    {
        let mut x: usize = 0;
        while x < width
            invariant
                x <= width,
                y < height,
                width * height <= usize::MAX,
                pts@.len() == y * width + x,
                forall|i: int|
                    0 <= i < pts@.len() ==> (#[trigger] pts@[i]).0 == i % (width as int)
                        && pts@[i].1 == i / (width as int),
                forall|i: int|
                    0 <= i < pts@.len() ==> (#[trigger] pts@[i]).0 < width && pts@[i].1 < height,
            decreases width - x,
        {
            proof {
                assert(y * width + x < width * height) by (nonlinear_arith)
                    requires
                        x < width,
                        y < height,
                ;
                vstd::arithmetic::div_mod::lemma_fundamental_div_mod_converse(
                    y * width + x,
                    width as int,
                    y as int,
                    x as int,
                );
            }
            pts.push((x, y));
            x = x + 1;
        }
        proof {
            assert(y * width + width == (y + 1) * width) by (nonlinear_arith);
        }
        y = y + 1;
    }
    proof {
        assert(height * width == width * height) by (nonlinear_arith);
    }
    pts
}

/// The fill order covers the whole grid: every coordinate `(x, y)` appears,
/// exactly at its own flat offset `y * w + x`.
pub proof fn lemma_points_cover_grid(s: Seq<(usize, usize)>, w: int, h: int, x: int, y: int)
    requires
        points_match(s, w, h),
        0 <= x < w,
        0 <= y < h,
    ensures
        0 <= spec_index_of(w, x, y) < s.len(),
        s[spec_index_of(w, x, y)].0 == x,
        s[spec_index_of(w, x, y)].1 == y,
{
    assert(0 <= y * w + x < w * h) by (nonlinear_arith)
        requires
            0 <= x < w,
            0 <= y < h,
    ;
    vstd::arithmetic::div_mod::lemma_fundamental_div_mod_converse(y * w + x, w, y, x);
}

} // verus!
