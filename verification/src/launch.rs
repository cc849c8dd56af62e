use vstd::prelude::*;

verus! {

/// Grid, block and shared-memory sizes of one kernel launch.
#[derive(Clone, Copy, Debug)]
pub struct LaunchDims {
    pub grid: (u32, u32, u32),
    pub block: (u32, u32, u32),
    pub shared_mem_bytes: u32,
}

/// `a / b` rounded up.
pub open spec fn ceil_div(a: int, b: int) -> int {
    (a + b - 1) / b
}

/// Threads per block of a one-dimensional element-wise launch.
pub const ELEMS_PER_BLOCK: u32 = 1024;

/// Side of the output tile that one block of the register-blocked GEMM
/// kernels computes.
pub const GEMM_TILE: u32 = 64;

/// Side of the output tile of the shared-memory tiled GEMM kernel.
pub const TILED_TILE: u32 = 16;

/// `cudarc::driver::LaunchConfig::for_num_elems`: one thread per element in
/// blocks of 1024 threads, `ceil(n / 1024)` blocks, no shared memory.
#[verifier::external_body]
fn num_elems_config(n: u32) -> (d: LaunchDims)
    ensures
        d.grid == (ceil_div(n as int, 1024) as u32, 1u32, 1u32),
        d.block == (1024u32, 1u32, 1u32),
        d.shared_mem_bytes == 0,
{
    let c = cudarc::driver::LaunchConfig::for_num_elems(n);
    LaunchDims { grid: c.grid_dim, block: c.block_dim, shared_mem_bytes: c.shared_mem_bytes }
}

/// Launch of an element-wise kernel over `n` elements whose count the kernel
/// takes as a 32-bit `int`: every element gets a thread.
pub fn for_elems(n: usize) -> (d: LaunchDims)
    requires
        n <= i32::MAX,
    ensures
        d.grid == (ceil_div(n as int, ELEMS_PER_BLOCK as int) as u32, 1u32, 1u32),
        d.block == (ELEMS_PER_BLOCK, 1u32, 1u32),
        d.shared_mem_bytes == 0,
        d.grid.0 * d.block.0 >= n,
{
    for_sized_elems(n)
}

/// Launch of an element-wise kernel over `n` elements whose count the kernel
/// takes as a `size_t`: the grid is sized from the count as a 32-bit value,
/// so any count that fits in a `u32` gets a thread per element.
pub fn for_sized_elems(n: usize) -> (d: LaunchDims)
    requires
        n <= u32::MAX,
    ensures
        d.grid == (ceil_div(n as int, ELEMS_PER_BLOCK as int) as u32, 1u32, 1u32),
        d.block == (ELEMS_PER_BLOCK, 1u32, 1u32),
        d.shared_mem_bytes == 0,
        d.grid.0 * d.block.0 >= n,
{
    let d = num_elems_config(n as u32);
    proof {
        let q = ceil_div(n as int, 1024);
        assert(q * 1024 >= n) by (nonlinear_arith)
            requires
                q == (n + 1023) / 1024,
                n >= 0,
        ;
    }
    d
}

/// `ceil(extent / tile)` blocks along one axis.
pub fn blocks_for(extent: usize, tile: u32) -> (b: u32)
    requires
        extent <= u32::MAX,
        tile > 0,
    ensures
        b == ceil_div(extent as int, tile as int),
        b * tile >= extent,
        extent > 0 ==> b > 0,
{
    let e: u32 = extent as u32;
    let q: u32 = e / tile;
    let r: u32 = e % tile;
    proof {
        vstd::arithmetic::div_mod::lemma_fundamental_div_mod(e as int, tile as int);
        if r != 0 {
            assert(q < u32::MAX) by (nonlinear_arith)
                requires
                    e == tile * q + r,
                    r > 0,
                    tile >= 2,
                    e <= u32::MAX,
            ;
        }
    }
    let b: u32 = if r == 0 {
        q
    } else {
        q + 1
    };
    proof {
        let x: int = e + tile - 1;
        assert(x == q * tile + r + tile - 1) by (nonlinear_arith)
            requires
                e == tile * q + r,
                x == e + tile - 1,
        ;
        assert(x == (q + 1) * tile + r - 1) by (nonlinear_arith)
            requires
                x == q * tile + r + tile - 1,
        ;
        if r == 0 {
            vstd::arithmetic::div_mod::lemma_fundamental_div_mod_converse(x as int, tile as int, q as int, tile - 1);
        } else {
            vstd::arithmetic::div_mod::lemma_fundamental_div_mod_converse(x as int, tile as int, q + 1, r - 1);
        }
        assert(b * tile >= extent) by (nonlinear_arith)
            requires
                e == tile * q + r,
                0 <= r < tile,
                b == (if r == 0 { q as int } else { q + 1 }),
                e == extent,
        ;
        if extent > 0 {
            assert(b > 0) by (nonlinear_arith)
                requires
                    b * tile >= extent,
                    extent > 0,
            ;
        }
    }
    b
}

/// Launch of a register-blocked GEMM producing a `[rows, cols]` output: a
/// 16x16 block computes a 64x64 tile, so the grid steps in 64s.
pub fn gemm_launch(rows: usize, cols: usize) -> (d: LaunchDims)
    requires
        rows <= u32::MAX,
        cols <= u32::MAX,
    ensures
        d.grid == (ceil_div(cols as int, 64) as u32, ceil_div(rows as int, 64) as u32, 1u32),
        d.block == (16u32, 16u32, 1u32),
        d.shared_mem_bytes == 0,
        d.grid.0 * GEMM_TILE >= cols,
        d.grid.1 * GEMM_TILE >= rows,
{
    LaunchDims {
        grid: (blocks_for(cols, GEMM_TILE), blocks_for(rows, GEMM_TILE), 1),
        block: (16, 16, 1),
        shared_mem_bytes: 0,
    }
}

/// Launch of the shared-memory tiled GEMM producing an `[m, n]` output: one
/// 16x16 block per 16x16 output tile.
pub fn tiled_launch(m: usize, n: usize) -> (d: LaunchDims)
    requires
        m <= u32::MAX,
        n <= u32::MAX,
    ensures
        d.grid == (ceil_div(n as int, 16) as u32, ceil_div(m as int, 16) as u32, 1u32),
        d.block == (TILED_TILE, TILED_TILE, 1u32),
        d.shared_mem_bytes == 0,
        d.grid.0 * TILED_TILE >= n,
        d.grid.1 * TILED_TILE >= m,
{
    LaunchDims {
        grid: (blocks_for(n, TILED_TILE), blocks_for(m, TILED_TILE), 1),
        block: (TILED_TILE, TILED_TILE, 1),
        shared_mem_bytes: 0,
    }
}

/// Number of slices of the inner dimension in a split-K GEMM whose output
/// takes `base` tiles: enough to bring the grid near 128 blocks, between 1
/// and 64, and no more than one per 16 inner elements (at least one).
pub open spec fn splitk_slices(base: int, inner: int) -> int {
    let want: int = 128int / base;
    let clamped: int = if want < 1 { 1 } else if want > 64 { 64 } else { want };
    let max_slices: int = if ceil_div(inner, 16) < 1 { 1 } else { ceil_div(inner, 16) };
    if clamped < max_slices { clamped } else { max_slices }
}

/// Launch of the split-K GEMM for a `[rows, cols]` output reduced over
/// `inner`: the grid's z dimension slices the inner dimension.
pub fn splitk_launch(rows: usize, cols: usize, inner: usize) -> (d: LaunchDims)
    requires
        0 < rows <= u32::MAX,
        0 < cols <= u32::MAX,
        inner <= u32::MAX,
        ceil_div(cols as int, 64) * ceil_div(rows as int, 64) <= u32::MAX,
    ensures
        d.grid.0 == ceil_div(cols as int, 64),
        d.grid.1 == ceil_div(rows as int, 64),
        d.grid.2 == splitk_slices(d.grid.0 * d.grid.1, inner as int),
        1 <= d.grid.2 <= 64,
        d.block == (16u32, 16u32, 1u32),
        d.shared_mem_bytes == 0,
        d.grid.0 * GEMM_TILE >= cols,
        d.grid.1 * GEMM_TILE >= rows,
{
    let gx: u32 = blocks_for(cols, GEMM_TILE);
    let gy: u32 = blocks_for(rows, GEMM_TILE);
    let base: u32 = gx * gy;
    proof {
        assert(base > 0) by (nonlinear_arith)
            requires
                gx > 0,
                gy > 0,
                base == gx * gy,
        ;
    }
    let s: u32 = blocks_for(inner, 16);
    let max_slices: u32 = if s < 1 {
        1
    } else {
        s
    };
    let want: u32 = 128u32 / base;
    let clamped: u32 = if want < 1 {
        1
    } else if want > 64 {
        64
    } else {
        want
    };
    let z: u32 = if clamped < max_slices {
        clamped
    } else {
        max_slices
    };
    LaunchDims { grid: (gx, gy, z), block: (16, 16, 1), shared_mem_bytes: 0 }
}

/// Inner elements per z-slice of a split-K GEMM with `slices` slices, as the
/// kernel computes it.
pub open spec fn slice_len(inner: int, slices: int) -> int {
    ceil_div(inner, slices)
}

/// The inner elements `[begin, end)` that z-slice `z` reduces.
pub open spec fn slice_range(inner: int, slices: int, z: int) -> (int, int) {
    let per = slice_len(inner, slices);
    let begin = z * per;
    let end = if begin + per < inner { begin + per } else { inner };
    (begin, end)
}

/// The z-slices of a split-K GEMM partition the inner dimension: every inner
/// element is reduced by exactly one slice, the one numbered `k / per`.
pub proof fn lemma_splitk_slices_partition(inner: int, slices: int, k: int)
    requires
        slices >= 1,
        0 <= k < inner,
    ensures
        0 <= k / slice_len(inner, slices) < slices,
        ({
            let r = slice_range(inner, slices, k / slice_len(inner, slices));
            r.0 <= k < r.1
        }),
        forall|z: int|
            0 <= z < slices && #[trigger] slice_range(inner, slices, z).0 <= k < slice_range(inner, slices, z).1
                ==> z == k / slice_len(inner, slices),
{
    let per = slice_len(inner, slices);
    assert(per >= 1) by (nonlinear_arith)
        requires
            per == (inner + slices - 1) / slices,
            inner >= 1,
            slices >= 1,
    ;
    assert(per * slices >= inner) by (nonlinear_arith)
        requires
            per == (inner + slices - 1) / slices,
            slices >= 1,
    ;
    let q = k / per;
    vstd::arithmetic::div_mod::lemma_fundamental_div_mod(k, per);
    assert(q * per <= k < q * per + per) by (nonlinear_arith)
        requires
            k == per * q + k % per,
            0 <= k % per < per,
    ;
    assert(0 <= q) by (nonlinear_arith)
        requires
            k >= 0,
            per >= 1,
            q == k / per,
    ;
    assert(q < slices) by (nonlinear_arith)
        requires
            q * per <= k,
            k < inner,
            inner <= per * slices,
            per >= 1,
    ;
    assert forall|z: int|
        0 <= z < slices && #[trigger] slice_range(inner, slices, z).0 <= k < slice_range(inner, slices, z).1
            implies z == q by {
        assert(z * per <= k < z * per + per);
        if z < q {
            assert(z * per + per <= q * per) by (nonlinear_arith)
                requires
                    z + 1 <= q,
                    per >= 1,
            ;
        }
        if z > q {
            assert(q * per + per <= z * per) by (nonlinear_arith)
                requires
                    q + 1 <= z,
                    per >= 1,
            ;
        }
    }
}

} // verus!
