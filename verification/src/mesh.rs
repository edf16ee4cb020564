//! Deterministic triangulation of a grid into a duplicated-vertex triangle
//! list.
//!
//! Every interior cell `(cx, cy)` of a `width × height` grid contributes two
//! triangles with a fixed diagonal split: `(current, east, south)` followed
//! by `(south, east, southeast)`.  Vertices are not shared between
//! triangles, so a cell contributes exactly six vertices.  The module pins
//! down, for every position `k` of the output, which grid coordinate the
//! `k`-th vertex carries; the host only has to attach an elevation to each
//! coordinate to obtain the final buffers.

use vstd::prelude::*;

use crate::field::HeightField;
use crate::grid::spec_index_of;
use crate::BuildError;

verus! {

/// Number of interior cells of a `w × h` grid.
pub open spec fn spec_cell_count(w: int, h: int) -> int {
    (w - 1) * (h - 1)
}

/// Each cell contributes two triangles of three vertices each.
pub open spec fn spec_vertex_count(w: int, h: int) -> int {
    6 * spec_cell_count(w, h)
}

/// Column offset, within its cell, of the `r`-th of the six vertices a cell
/// emits: `current, east, south, south, east, southeast`.
pub open spec fn corner_dx(r: int) -> int {
    if r == 1 || r == 4 || r == 5 {
        1
    } else {
        0
    }
}

/// Row offset, within its cell, of the `r`-th of the six vertices a cell
/// emits.
pub open spec fn corner_dy(r: int) -> int {
    if r == 2 || r == 3 || r == 5 {
        1
    } else {
        0
    }
}

/// Grid column of the `k`-th mesh vertex: cells are laid out row-major over
/// the `(w-1) × (h-1)` interior cells, six vertices per cell.
pub open spec fn vertex_x(w: int, k: int) -> int {
    (k / 6) % (w - 1) + corner_dx(k % 6)
}

/// Grid row of the `k`-th mesh vertex.
pub open spec fn vertex_y(w: int, k: int) -> int {
    (k / 6) / (w - 1) + corner_dy(k % 6)
}

/// `s` lists exactly the grid coordinates of the mesh vertices of a `w × h`
/// grid, in emission order.
pub open spec fn mesh_coords_match(s: Seq<(usize, usize)>, w: int, h: int) -> bool {
    &&& s.len() == spec_vertex_count(w, h)
    &&& forall|k: int|
        0 <= k < s.len() ==> (#[trigger] s[k]).0 == vertex_x(w, k) && s[k].1 == vertex_y(w, k)
}

/// For non-negative `a` and `q` and positive `b`, comparing `a * b` against
/// `q` is the same as comparing `a` against `q / b`.
proof fn lemma_mul_le_div(a: int, b: int, q: int)
    requires
        0 <= a,
        1 <= b,
        0 <= q,
    ensures
        (a * b <= q) <==> (a <= q / b),
{
    vstd::arithmetic::div_mod::lemma_fundamental_div_mod(q, b);
    assert((a * b <= q) <==> (a <= q / b)) by (nonlinear_arith)
        requires
            0 <= a,
            1 <= b,
            q == b * (q / b) + (q % b),
            0 <= q % b < b,
    ;
}

/// The grid coordinates of every mesh vertex of a `width × height` field, in
/// emission order: six entries per cell, cells row-major.  Refused when the
/// grid has no interior cell or the buffer would not fit in a machine word.
pub fn mesh_vertex_coords(width: usize, height: usize) -> (r: Result<
    Vec<(usize, usize)>,
    BuildError,
>)
    ensures
        match r {
            Ok(v) => {
                &&& width >= 2
                &&& height >= 2
                &&& spec_vertex_count(width as int, height as int) <= usize::MAX
                &&& mesh_coords_match(v@, width as int, height as int)
                &&& forall|k: int|
                    0 <= k < v@.len() ==> (#[trigger] v@[k]).0 < width && v@[k].1 < height
            },
            Err(e) => {
                &&& e == BuildError::InvalidDimensions
                &&& (width < 2 || height < 2 || spec_vertex_count(width as int, height as int)
                    > usize::MAX)
            },
        },
{
    if width < 2 || height < 2 {
        return Err(BuildError::InvalidDimensions);
    }
    let cw = width - 1;
    let ch = height - 1;
    let budget = (usize::MAX / 6) / cw;
    proof {
        let cwi = cw as int;
        let chi = ch as int;
        let m = usize::MAX as int;
        lemma_mul_le_div(chi * cwi, 6, m);
        lemma_mul_le_div(chi, cwi, m / 6);
        assert(spec_vertex_count(width as int, height as int) == (chi * cwi) * 6)
            by (nonlinear_arith)
            requires
                cwi == width as int - 1,
                chi == height as int - 1,
        ;
    }
    if ch > budget {
        return Err(BuildError::InvalidDimensions);
    }
    let mut out: Vec<(usize, usize)> = Vec::new();
    let mut cy: usize = 0;
    while cy < ch
        invariant
            cy <= ch,
            cw == width as int - 1,
            ch == height as int - 1,
            width >= 2,
            height >= 2,
            out@.len() == 6 * (cy * cw),
            forall|k: int|
                0 <= k < out@.len() ==> (#[trigger] out@[k]).0 == vertex_x(width as int, k)
                    && out@[k].1 == vertex_y(width as int, k),
            forall|k: int|
                0 <= k < out@.len() ==> (#[trigger] out@[k]).0 < width && out@[k].1 < height,
        decreases ch - cy,
    {
        let mut cx: usize = 0;
        while cx < cw
            invariant
                cx <= cw,
                cy < ch,
                cw == width as int - 1,
                ch == height as int - 1,
                width >= 2,
                height >= 2,
                out@.len() == 6 * (cy * cw + cx),
                forall|k: int|
                    0 <= k < out@.len() ==> (#[trigger] out@[k]).0 == vertex_x(width as int, k)
                        && out@[k].1 == vertex_y(width as int, k),
                forall|k: int|
                    0 <= k < out@.len() ==> (#[trigger] out@[k]).0 < width && out@[k].1 < height,
            decreases cw - cx,
        {
            let x1 = cx + 1;
            let y1 = cy + 1;
            out.push((cx, cy));
            out.push((x1, cy));
            out.push((cx, y1));
            out.push((cx, y1));
            out.push((x1, cy));
            out.push((x1, y1));
            proof {
                let w = width as int;
                let cwi = cw as int;
                let c = cy as int * cwi + cx as int;
                vstd::arithmetic::div_mod::lemma_fundamental_div_mod_converse(
                    c,
                    cwi,
                    cy as int,
                    cx as int,
                );
                assert(out@.len() == 6 * c + 6);
                assert forall|k: int| 6 * c <= k < 6 * c + 6 implies (#[trigger] out@[k]).0
                    == vertex_x(w, k) && out@[k].1 == vertex_y(w, k) by {
                    let r = k - 6 * c;
                    vstd::arithmetic::div_mod::lemma_fundamental_div_mod_converse(k, 6, c, r);
                    assert(vertex_x(w, k) == cx as int + corner_dx(r));
                    assert(vertex_y(w, k) == cy as int + corner_dy(r));
                }
            }
            cx = x1;
        }
        proof {
            assert(6 * (cy * cw + cw) == 6 * ((cy + 1) * cw)) by (nonlinear_arith);
        }
        cy = cy + 1;
    }
    proof {
        let cwi = cw as int;
        let chi = ch as int;
        assert(6 * (chi * cwi) == 6 * (cwi * chi)) by (nonlinear_arith);
    }
    Ok(out)
}

/// The flat row-major sample offset of every mesh vertex of a completed
/// field, in emission order: entry `k` is the offset of the sample that
/// gives the `k`-th vertex its elevation, and it always lands inside the
/// sample buffer.
pub fn mesh_vertex_offsets(field: &HeightField) -> (r: Result<Vec<usize>, BuildError>)
    requires
        field.wf(),
    ensures
        match r {
            Ok(v) => {
                &&& field.spec_width() >= 2
                &&& field.spec_height() >= 2
                &&& v@.len() == spec_vertex_count(field.spec_width(), field.spec_height())
                &&& forall|k: int|
                    0 <= k < v@.len() ==> #[trigger] v@[k] == spec_index_of(
                        field.spec_width(),
                        vertex_x(field.spec_width(), k),
                        vertex_y(field.spec_width(), k),
                    ) && v@[k] < field.samples().len()
            },
            Err(e) => {
                &&& e == BuildError::InvalidDimensions
                &&& (field.spec_width() < 2 || field.spec_height() < 2 || spec_vertex_count(
                    field.spec_width(),
                    field.spec_height(),
                ) > usize::MAX)
            },
        },
{
    let width = field.width();
    let height = field.height();
    let coords = match mesh_vertex_coords(width, height) {
        Ok(c) => c,
        Err(e) => {
            return Err(e);
        },
    };
    let n = field.values().len();
    assert(width * height == n);
    let mut out: Vec<usize> = Vec::new();
    let mut k: usize = 0;
    while k < coords.len()
        invariant
            k <= coords@.len(),
            field.wf(),
            width == field.spec_width(),
            height == field.spec_height(),
            width * height <= usize::MAX,
            width * height == field.samples().len(),
            mesh_coords_match(coords@, width as int, height as int),
            forall|j: int|
                0 <= j < coords@.len() ==> (#[trigger] coords@[j]).0 < width && coords@[j].1
                    < height,
            out@.len() == k,
            forall|j: int|
                0 <= j < k ==> #[trigger] out@[j] == spec_index_of(
                    width as int,
                    vertex_x(width as int, j),
                    vertex_y(width as int, j),
                ) && out@[j] < field.samples().len(),
        decreases coords@.len() - k,
    {
        let (x, y) = coords[k];
        let idx = crate::grid::index_of(width, height, x, y);
        out.push(idx);
        k = k + 1;
    }
    Ok(out)
}

/// The six vertices emitted for the cell `(cx, cy)` are exactly the fixed
/// diagonal split of its four corners: triangle 1 is
/// `(current, east, south)` and triangle 2 is `(south, east, southeast)`.
pub proof fn lemma_cell_corners(s: Seq<(usize, usize)>, w: int, h: int, cx: int, cy: int)
    requires
        mesh_coords_match(s, w, h),
        w >= 2,
        h >= 2,
        0 <= cx < w - 1,
        0 <= cy < h - 1,
    ensures
        s[6 * (cy * (w - 1) + cx)] == ((cx as usize, cy as usize)),
        s[6 * (cy * (w - 1) + cx) + 1] == (((cx + 1) as usize, cy as usize)),
        s[6 * (cy * (w - 1) + cx) + 2] == ((cx as usize, (cy + 1) as usize)),
        s[6 * (cy * (w - 1) + cx) + 3] == ((cx as usize, (cy + 1) as usize)),
        s[6 * (cy * (w - 1) + cx) + 4] == (((cx + 1) as usize, cy as usize)),
        s[6 * (cy * (w - 1) + cx) + 5] == (((cx + 1) as usize, (cy + 1) as usize)),
{
    let c = cy * (w - 1) + cx;
    assert(0 <= c && c < (w - 1) * (h - 1)) by (nonlinear_arith)
        requires
            0 <= cx < w - 1,
            0 <= cy < h - 1,
            c == cy * (w - 1) + cx,
    ;
    vstd::arithmetic::div_mod::lemma_fundamental_div_mod_converse(c, w - 1, cy, cx);
    vstd::arithmetic::div_mod::lemma_fundamental_div_mod_converse(6 * c, 6, c, 0);
    vstd::arithmetic::div_mod::lemma_fundamental_div_mod_converse(6 * c + 1, 6, c, 1);
    vstd::arithmetic::div_mod::lemma_fundamental_div_mod_converse(6 * c + 2, 6, c, 2);
    vstd::arithmetic::div_mod::lemma_fundamental_div_mod_converse(6 * c + 3, 6, c, 3);
    vstd::arithmetic::div_mod::lemma_fundamental_div_mod_converse(6 * c + 4, 6, c, 4);
    vstd::arithmetic::div_mod::lemma_fundamental_div_mod_converse(6 * c + 5, 6, c, 5);
    assert(s[6 * c].0 == cx && s[6 * c].1 == cy);
    assert(s[6 * c + 1].0 == cx + 1 && s[6 * c + 1].1 == cy);
    assert(s[6 * c + 2].0 == cx && s[6 * c + 2].1 == cy + 1);
    assert(s[6 * c + 3].0 == cx && s[6 * c + 3].1 == cy + 1);
    assert(s[6 * c + 4].0 == cx + 1 && s[6 * c + 4].1 == cy);
    assert(s[6 * c + 5].0 == cx + 1 && s[6 * c + 5].1 == cy + 1);
}

/// Within every cell the fixed diagonal split shares an edge between the two
/// triangles: the `east` corner of triangle `(current, east, south)` is the
/// same grid point as the `east` corner of `(south, east, southeast)`, and
/// likewise for `south`.
pub proof fn lemma_cell_triangles_share_diagonal(s: Seq<(usize, usize)>, w: int, h: int, c: int)
    requires
        mesh_coords_match(s, w, h),
        w >= 2,
        h >= 2,
        0 <= c < spec_cell_count(w, h),
    ensures
        s[6 * c + 1] == s[6 * c + 4],
        s[6 * c + 2] == s[6 * c + 3],
{
    vstd::arithmetic::div_mod::lemma_fundamental_div_mod_converse(6 * c + 1, 6, c, 1);
    vstd::arithmetic::div_mod::lemma_fundamental_div_mod_converse(6 * c + 2, 6, c, 2);
    vstd::arithmetic::div_mod::lemma_fundamental_div_mod_converse(6 * c + 3, 6, c, 3);
    vstd::arithmetic::div_mod::lemma_fundamental_div_mod_converse(6 * c + 4, 6, c, 4);
    assert(s[6 * c + 1].0 == s[6 * c + 4].0 && s[6 * c + 1].1 == s[6 * c + 4].1);
    assert(s[6 * c + 2].0 == s[6 * c + 3].0 && s[6 * c + 2].1 == s[6 * c + 3].1);
}

/// The triangulation is deterministic: any two coordinate lists for the same
/// grid are equal entry by entry.
pub proof fn lemma_mesh_coords_deterministic(
    a: Seq<(usize, usize)>,
    b: Seq<(usize, usize)>,
    w: int,
    h: int,
)
    requires
        mesh_coords_match(a, w, h),
        mesh_coords_match(b, w, h),
    ensures
        a == b,
{
    assert forall|k: int| 0 <= k < a.len() implies a[k] == b[k] by {
        assert(a[k].0 == b[k].0);
        assert(a[k].1 == b[k].1);
    }
    assert(a =~= b);
}

} // verus!
