//! The layout engine: pure functions mapping an ordered client list plus a
//! work area and layout parameters to one rectangle per client.

use vstd::prelude::*;
use vstd::arithmetic::mul::lemma_mul_inequality;
use vstd::arithmetic::div_mod::lemma_fundamental_div_mod;
use crate::geometry::Dimensions;
use crate::geometry::clamp_i32;

verus! {

/// No computed width or height falls below this floor.
pub const WINDOW_MIN_SIZE: u32 = 40;

/// The interchangeable layout algorithms.
#[derive(Clone, Copy, Debug, PartialEq, Eq, Structural)]
pub enum LayoutType {
    Floating,
    Dynamic,
    Monocle,
    Deck,
    Stack,
    BottomStack,
}

/// Where the stack region lies relative to the main region (dynamic layout).
#[derive(Clone, Copy, Debug, PartialEq, Eq, Structural)]
pub enum StackPosition {
    Top,
    Bottom,
    Left,
    Right,
}

/// How clients share the stack region (dynamic layout).
#[derive(Clone, Copy, Debug, PartialEq, Eq, Structural)]
pub enum StackMode {
    Split,
    Deck,
}

/// Tunable parameters a workspace hands to the layout engine.
#[derive(Clone, Copy, Debug, PartialEq, Eq, Structural)]
pub struct LayoutParams {
    /// the algorithm in use
    pub layout: LayoutType,
    /// how many clients the main region holds at most
    pub nmain: u32,
    /// width of the gap subtracted symmetrically from every rectangle
    pub gap_width: u32,
    /// share of the work area given to the main region, in thousandths
    pub main_ratio: u32,
    /// where the stack region lies
    pub stack_position: StackPosition,
    /// how the stack region is shared
    pub stack_mode: StackMode,
}

impl LayoutType {
    /// The successor in the fixed cycling order of algorithms.
    pub open spec fn spec_next(&self) -> LayoutType {
        match self {
            LayoutType::Floating => LayoutType::Dynamic,
            LayoutType::Dynamic => LayoutType::Monocle,
            LayoutType::Monocle => LayoutType::Deck,
            LayoutType::Deck => LayoutType::Stack,
            LayoutType::Stack => LayoutType::BottomStack,
            LayoutType::BottomStack => LayoutType::Floating,
        }
    }

    pub fn next(&self) -> (r: LayoutType)
        ensures
            r == self.spec_next(),
    {
        match self {
            LayoutType::Floating => LayoutType::Dynamic,
            LayoutType::Dynamic => LayoutType::Monocle,
            LayoutType::Monocle => LayoutType::Deck,
            LayoutType::Deck => LayoutType::Stack,
            LayoutType::Stack => LayoutType::BottomStack,
            LayoutType::BottomStack => LayoutType::Floating,
        }
    }
}

/// True when the work area's far edges still lie in the `i32` range, as every
/// area reported by the protocol backend does.
pub open spec fn area_bounded(area: Dimensions) -> bool {
    &&& area.x + area.w <= i32::MAX
    &&& area.y + area.h <= i32::MAX
}

/// A side length after the symmetric gap inset, clamped up to the floor.
pub open spec fn inset_len(len: u32, gap: u32) -> u32 {
    if len >= 2 * gap + WINDOW_MIN_SIZE {
        (len - 2 * gap) as u32
    } else {
        WINDOW_MIN_SIZE
    }
}

/// A coordinate moved inward by the gap, saturating at the `i32` range.
pub open spec fn inset_pos(p: i32, gap: u32) -> i32 {
    clamp_i32(p + gap) as i32
}

/// The rectangle `r` with the gap subtracted symmetrically from every side;
/// a width or height that would fall below the floor is clamped up to it.
pub open spec fn inset_rect(r: Dimensions, gap: u32) -> Dimensions {
    Dimensions {
        x: inset_pos(r.x, gap),
        y: inset_pos(r.y, gap),
        w: inset_len(r.w, gap),
        h: inset_len(r.h, gap),
    }
}

/// Exec computation of `inset_rect`.
pub fn inset_rect_exec(r: Dimensions, gap: u32) -> (res: Dimensions)
    ensures
        res == inset_rect(r, gap),
{
    let two_gap: u64 = 2 * (gap as u64);
    let w: u32 = if (r.w as u64) >= two_gap + (WINDOW_MIN_SIZE as u64) {
        (r.w as u64 - two_gap) as u32
    } else {
        WINDOW_MIN_SIZE
    };
    let h: u32 = if (r.h as u64) >= two_gap + (WINDOW_MIN_SIZE as u64) {
        (r.h as u64 - two_gap) as u32
    } else {
        WINDOW_MIN_SIZE
    };
    let xi: i64 = r.x as i64 + gap as i64;
    let yi: i64 = r.y as i64 + gap as i64;
    let x: i32 = if xi > i32::MAX as i64 {
        i32::MAX
    } else {
        xi as i32
    };
    let y: i32 = if yi > i32::MAX as i64 {
        i32::MAX
    } else {
        yi as i32
    };
    Dimensions { x, y, w, h }
}

/// True when the region is divided into rows (stack beside the main region);
/// false when it is divided into columns (stack above or below it).
pub open spec fn splits_into_rows(pos: StackPosition) -> bool {
    pos == StackPosition::Left || pos == StackPosition::Right
}

/// Cell `i` of `k` equal slices of `region` (the last slice absorbs the
/// rounding remainder), sliced into rows or into columns.
pub open spec fn split_cell(region: Dimensions, k: int, i: int, rows: bool) -> Dimensions {
    if rows {
        let slice = region.h as int / k;
        Dimensions {
            x: region.x,
            y: (region.y + i * slice) as i32,
            w: region.w,
            h: if i == k - 1 {
                (region.h - (k - 1) * slice) as u32
            } else {
                slice as u32
            },
        }
    } else {
        let slice = region.w as int / k;
        Dimensions {
            x: (region.x + i * slice) as i32,
            y: region.y,
            w: if i == k - 1 {
                (region.w - (k - 1) * slice) as u32
            } else {
                slice as u32
            },
            h: region.h,
        }
    }
}

/// For `0 <= i < k`: `i * (len / k) + (len / k) <= len`, so every slice of a
/// region stays inside it.
pub proof fn lemma_slice_bound(len: int, k: int, i: int)
    requires
        0 <= len,
        0 <= i < k,
    ensures
        0 <= i * (len / k),
        i * (len / k) + len / k <= len,
        (k - 1) * (len / k) <= len,
{
    let q = len / k;
    vstd::arithmetic::div_mod::lemma_div_pos_is_pos(len, k);
    vstd::arithmetic::mul::lemma_mul_nonnegative(i, q);
    lemma_fundamental_div_mod(len, k);
    vstd::arithmetic::div_mod::lemma_mod_division_less_than_divisor(len, k);
    assert((i + 1) * q <= k * q) by {
        lemma_mul_inequality(i + 1, k, q);
    }
    assert((i + 1) * q == i * q + 1 * q) by {
        vstd::arithmetic::mul::lemma_mul_is_distributive_add_other_way(q, i, 1);
    }
    assert((k - 1) * q <= k * q) by {
        lemma_mul_inequality(k - 1, k, q);
    }
}

/// Exec computation of `split_cell`.
pub fn split_cell_exec(region: Dimensions, k: usize, i: usize, rows: bool) -> (res: Dimensions)
    requires
        i < k,
        area_bounded(region),
    ensures
        res == split_cell(region, k as int, i as int, rows),
{
    proof {
        lemma_slice_bound(if rows { region.h as int } else { region.w as int }, k as int, i as int);
        lemma_slice_bound(
            if rows { region.h as int } else { region.w as int },
            k as int,
            (k - 1) as int,
        );
    }
    if rows {
        let slice: u64 = (region.h as u64) / (k as u64);
        let off: u64 = (i as u64) * slice;
        let y: i32 = ((region.y as i64) + (off as i64)) as i32;
        let h: u32 = if i == k - 1 {
            ((region.h as u64) - ((k as u64) - 1) * slice) as u32
        } else {
            slice as u32
        };
        Dimensions { x: region.x, y, w: region.w, h }
    } else {
        let slice: u64 = (region.w as u64) / (k as u64);
        let off: u64 = (i as u64) * slice;
        let x: i32 = ((region.x as i64) + (off as i64)) as i32;
        let w: u32 = if i == k - 1 {
            ((region.w as u64) - ((k as u64) - 1) * slice) as u32
        } else {
            slice as u32
        };
        Dimensions { x, y: region.y, w, h: region.h }
    }
}

/// How many clients the main region actually holds: `min(nmain, n)`.
pub open spec fn main_count(n: int, nmain: int) -> int {
    if nmain < n {
        nmain
    } else {
        n
    }
}

/// The length of the main region's side along the split axis.
pub open spec fn main_len(total: u32, ratio: int) -> int {
    total * ratio / 1000
}

/// `0 <= total * ratio / 1000 <= total` for a ratio in thousandths.
pub proof fn lemma_main_len_bound(total: u32, ratio: int)
    requires
        0 <= ratio <= 1000,
    ensures
        0 <= main_len(total, ratio) <= total,
{
    vstd::arithmetic::mul::lemma_mul_nonnegative(total as int, ratio);
    vstd::arithmetic::div_mod::lemma_div_pos_is_pos(total * ratio, 1000);
    assert(total * ratio <= total * 1000) by {
        if total > 0 {
            vstd::arithmetic::mul::lemma_mul_left_inequality(total as int, ratio, 1000);
        } else {
            vstd::arithmetic::mul::lemma_mul_by_zero_is_zero(ratio);
            vstd::arithmetic::mul::lemma_mul_by_zero_is_zero(1000);
        }
    }
    assert(total * ratio / 1000 <= total * 1000 / 1000) by {
        vstd::arithmetic::div_mod::lemma_div_is_ordered(total * ratio, total * 1000, 1000);
    }
    assert(total * 1000 / 1000 == total) by {
        vstd::arithmetic::div_mod::lemma_div_by_multiple(total as int, 1000);
    }
}

/// Exec computation of `main_len`.
fn main_len_exec(total: u32, ratio: u32) -> (r: u32)
    requires
        ratio <= 1000,
    ensures
        r == main_len(total, ratio as int),
        r <= total,
{
    proof {
        lemma_main_len_bound(total, ratio as int);
        assert((total as int) * (ratio as int) <= (u32::MAX as int) * 1000) by {
            vstd::arithmetic::mul::lemma_mul_upper_bound(
                total as int,
                u32::MAX as int,
                ratio as int,
                1000,
            );
        }
    }
    ((total as u64) * (ratio as u64) / 1000) as u32
}

/// The main region of the work area, before the per-window gap. It spans the
/// whole area when the stack is empty and collapses when `nmain` is zero.
pub open spec fn main_region(
    area: Dimensions,
    n: int,
    nmain: int,
    ratio: int,
    pos: StackPosition,
) -> Dimensions {
    let nm = main_count(n, nmain);
    if n <= nm {
        area
    } else if nm <= 0 {
        Dimensions { x: area.x, y: area.y, w: 0, h: 0 }
    } else {
        match pos {
            StackPosition::Right => Dimensions {
                x: area.x,
                y: area.y,
                w: main_len(area.w, ratio) as u32,
                h: area.h,
            },
            StackPosition::Left => Dimensions {
                x: (area.x + (area.w - main_len(area.w, ratio))) as i32,
                y: area.y,
                w: main_len(area.w, ratio) as u32,
                h: area.h,
            },
            StackPosition::Bottom => Dimensions {
                x: area.x,
                y: area.y,
                w: area.w,
                h: main_len(area.h, ratio) as u32,
            },
            StackPosition::Top => Dimensions {
                x: area.x,
                y: (area.y + (area.h - main_len(area.h, ratio))) as i32,
                w: area.w,
                h: main_len(area.h, ratio) as u32,
            },
        }
    }
}

/// The stack region of the work area, before the per-window gap. It is empty
/// when every client fits in the main region and spans the whole area when
/// `nmain` is zero.
pub open spec fn stack_region(
    area: Dimensions,
    n: int,
    nmain: int,
    ratio: int,
    pos: StackPosition,
) -> Dimensions {
    let nm = main_count(n, nmain);
    if n <= nm {
        Dimensions { x: area.x, y: area.y, w: 0, h: 0 }
    } else if nm <= 0 {
        area
    } else {
        match pos {
            StackPosition::Right => Dimensions {
                x: (area.x + main_len(area.w, ratio)) as i32,
                y: area.y,
                w: (area.w - main_len(area.w, ratio)) as u32,
                h: area.h,
            },
            StackPosition::Left => Dimensions {
                x: area.x,
                y: area.y,
                w: (area.w - main_len(area.w, ratio)) as u32,
                h: area.h,
            },
            StackPosition::Bottom => Dimensions {
                x: area.x,
                y: (area.y + main_len(area.h, ratio)) as i32,
                w: area.w,
                h: (area.h - main_len(area.h, ratio)) as u32,
            },
            StackPosition::Top => Dimensions {
                x: area.x,
                y: area.y,
                w: area.w,
                h: (area.h - main_len(area.h, ratio)) as u32,
            },
        }
    }
}

/// The raw partition cell of client `i` under the dynamic tiling algorithm,
/// before the per-window gap: the first `min(nmain, n)` clients share the
/// main region, the rest share the stack region, either split evenly or
/// overlapping in deck mode.
pub open spec fn raw_tiled_cell(
    area: Dimensions,
    n: int,
    nmain: int,
    ratio: int,
    pos: StackPosition,
    mode: StackMode,
    i: int,
) -> Dimensions {
    let nm = main_count(n, nmain);
    let rows = splits_into_rows(pos);
    if i < nm {
        split_cell(main_region(area, n, nmain, ratio, pos), nm, i, rows)
    } else {
        let sr = stack_region(area, n, nmain, ratio, pos);
        if mode == StackMode::Deck {
            sr
        } else {
            split_cell(sr, n - nm, i - nm, rows)
        }
    }
}

/// The rectangle of client `i` under the dynamic tiling algorithm: the raw
/// partition cell, gap-inset.
pub open spec fn tiled_cell(
    area: Dimensions,
    n: int,
    nmain: int,
    ratio: int,
    gap: u32,
    pos: StackPosition,
    mode: StackMode,
    i: int,
) -> Dimensions {
    inset_rect(raw_tiled_cell(area, n, nmain, ratio, pos, mode, i), gap)
}

/// Exec computation of the two regions.
fn regions_exec(area: Dimensions, n: usize, nmain: u32, ratio: u32, pos: StackPosition) -> (r: (
    Dimensions,
    Dimensions,
))
    requires
        area_bounded(area),
        ratio <= 1000,
    ensures
        r.0 == main_region(area, n as int, nmain as int, ratio as int, pos),
        r.1 == stack_region(area, n as int, nmain as int, ratio as int, pos),
        area_bounded(r.0),
        area_bounded(r.1),
{
    let nm: usize = if (nmain as usize) < n {
        nmain as usize
    } else {
        n
    };
    if n <= nm {
        (area, Dimensions { x: area.x, y: area.y, w: 0, h: 0 })
    } else if nm == 0 {
        (Dimensions { x: area.x, y: area.y, w: 0, h: 0 }, area)
    } else {
        match pos {
            StackPosition::Right => {
                let mw: u32 = main_len_exec(area.w, ratio);
                let main = Dimensions { x: area.x, y: area.y, w: mw, h: area.h };
                let stack = Dimensions {
                    x: ((area.x as i64) + (mw as i64)) as i32,
                    y: area.y,
                    w: area.w - mw,
                    h: area.h,
                };
                (main, stack)
            },
            StackPosition::Left => {
                let mw: u32 = main_len_exec(area.w, ratio);
                let sw: u32 = area.w - mw;
                let main = Dimensions {
                    x: ((area.x as i64) + (sw as i64)) as i32,
                    y: area.y,
                    w: mw,
                    h: area.h,
                };
                let stack = Dimensions { x: area.x, y: area.y, w: sw, h: area.h };
                (main, stack)
            },
            StackPosition::Bottom => {
                let mh: u32 = main_len_exec(area.h, ratio);
                let main = Dimensions { x: area.x, y: area.y, w: area.w, h: mh };
                let stack = Dimensions {
                    x: area.x,
                    y: ((area.y as i64) + (mh as i64)) as i32,
                    w: area.w,
                    h: area.h - mh,
                };
                (main, stack)
            },
            StackPosition::Top => {
                let mh: u32 = main_len_exec(area.h, ratio);
                let sh: u32 = area.h - mh;
                let main = Dimensions {
                    x: area.x,
                    y: ((area.y as i64) + (sh as i64)) as i32,
                    w: area.w,
                    h: mh,
                };
                let stack = Dimensions { x: area.x, y: area.y, w: area.w, h: sh };
                (main, stack)
            },
        }
    }
}

/// Tiling for `n` clients: the rectangles of the dynamic algorithm, in client
/// list order.
fn apply_tiled(
    area: Dimensions,
    n: usize,
    nmain: u32,
    ratio: u32,
    gap: u32,
    pos: StackPosition,
    mode: StackMode,
) -> (r: Vec<Dimensions>)
    requires
        area_bounded(area),
        ratio <= 1000,
    ensures
        r@.len() == n,
        forall|i: int|
            0 <= i < n ==> r@[i] == tiled_cell(
                area,
                n as int,
                nmain as int,
                ratio as int,
                gap,
                pos,
                mode,
                i,
            ),
{
    let rows = match pos {
        StackPosition::Left => true,
        StackPosition::Right => true,
        StackPosition::Top => false,
        StackPosition::Bottom => false,
    };
    let (mr, sr) = regions_exec(area, n, nmain, ratio, pos);
    let nm: usize = if (nmain as usize) < n {
        nmain as usize
    } else {
        n
    };
    let mut r: Vec<Dimensions> = Vec::new();
    let mut i: usize = 0;
    while i < nm
        invariant
            i <= nm,
            nm <= n,
            nm == main_count(n as int, nmain as int),
            area_bounded(mr),
            mr == main_region(area, n as int, nmain as int, ratio as int, pos),
            rows == splits_into_rows(pos),
            r@.len() == i,
            forall|j: int|
                0 <= j < i ==> r@[j] == tiled_cell(
                    area,
                    n as int,
                    nmain as int,
                    ratio as int,
                    gap,
                    pos,
                    mode,
                    j,
                ),
        decreases nm - i,
    {
        let cell = split_cell_exec(mr, nm, i, rows);
        r.push(inset_rect_exec(cell, gap));
        i = i + 1;
    }
    let ns: usize = n - nm;
    let mut j: usize = 0;
    while j < ns
        invariant
            j <= ns,
            ns == n - nm,
            nm <= n,
            nm == main_count(n as int, nmain as int),
            area_bounded(sr),
            sr == stack_region(area, n as int, nmain as int, ratio as int, pos),
            rows == splits_into_rows(pos),
            r@.len() == nm + j,
            forall|p: int|
                0 <= p < nm + j ==> r@[p] == tiled_cell(
                    area,
                    n as int,
                    nmain as int,
                    ratio as int,
                    gap,
                    pos,
                    mode,
                    p,
                ),
        decreases ns - j,
    {
        let cell = match mode {
            StackMode::Deck => sr,
            StackMode::Split => split_cell_exec(sr, ns, j, rows),
        };
        r.push(inset_rect_exec(cell, gap));
        j = j + 1;
    }
    r
}

/// The raw partition cell the engine assigns to client `i` of `n`, before
/// the per-window gap. (The floating algorithm computes no cells; its entry
/// here is the work area and is never used.)
pub open spec fn raw_layout_cell(params: LayoutParams, area: Dimensions, n: int, i: int) -> Dimensions {
    match params.layout {
        LayoutType::Floating => area,
        LayoutType::Monocle => area,
        LayoutType::Deck => area,
        LayoutType::Dynamic => raw_tiled_cell(
            area,
            n,
            params.nmain as int,
            params.main_ratio as int,
            params.stack_position,
            params.stack_mode,
            i,
        ),
        LayoutType::Stack => raw_tiled_cell(
            area,
            n,
            params.nmain as int,
            params.main_ratio as int,
            StackPosition::Bottom,
            StackMode::Split,
            i,
        ),
        LayoutType::BottomStack => raw_tiled_cell(
            area,
            n,
            params.nmain as int,
            params.main_ratio as int,
            StackPosition::Top,
            StackMode::Split,
            i,
        ),
    }
}

/// The rectangle the engine assigns to client `i`, given the current
/// geometries `current` (only the floating algorithm reads them).
pub open spec fn layout_cell(
    params: LayoutParams,
    area: Dimensions,
    current: Seq<Dimensions>,
    i: int,
) -> Dimensions {
    let n = current.len() as int;
    match params.layout {
        LayoutType::Floating => current[i],
        _ => inset_rect(raw_layout_cell(params, area, n, i), params.gap_width),
    }
}

/// The layout engine: one rectangle per client, in client list order. A pure
/// function of its arguments; the floating algorithm returns the current
/// geometries unchanged.
pub fn apply_layout(params: &LayoutParams, area: Dimensions, current: &Vec<Dimensions>) -> (r: Vec<
    Dimensions,
>)
    requires
        area_bounded(area),
        params.main_ratio <= 1000,
    ensures
        r@.len() == current@.len(),
        forall|i: int| 0 <= i < r@.len() ==> r@[i] == layout_cell(*params, area, current@, i),
{
    let n = current.len();
    match params.layout {
        LayoutType::Floating => {
            let mut r: Vec<Dimensions> = Vec::new();
            let mut i: usize = 0;
            while i < n
                invariant
                    i <= n,
                    n == current@.len(),
                    r@.len() == i,
                    forall|j: int| 0 <= j < i ==> r@[j] == current@[j],
                decreases n - i,
            {
                r.push(current[i]);
                i = i + 1;
            }
            r
        },
        LayoutType::Monocle => {
            let cell = inset_rect_exec(area, params.gap_width);
            let mut r: Vec<Dimensions> = Vec::new();
            let mut i: usize = 0;
            while i < n
                invariant
                    i <= n,
                    cell == inset_rect(area, params.gap_width),
                    r@.len() == i,
                    forall|j: int| 0 <= j < i ==> r@[j] == cell,
                decreases n - i,
            {
                r.push(cell);
                i = i + 1;
            }
            r
        },
        LayoutType::Deck => {
            let cell = inset_rect_exec(area, params.gap_width);
            let mut r: Vec<Dimensions> = Vec::new();
            let mut i: usize = 0;
            while i < n
                invariant
                    i <= n,
                    cell == inset_rect(area, params.gap_width),
                    r@.len() == i,
                    forall|j: int| 0 <= j < i ==> r@[j] == cell,
                decreases n - i,
            {
                r.push(cell);
                i = i + 1;
            }
            r
        },
        LayoutType::Dynamic => apply_tiled(
            area,
            n,
            params.nmain,
            params.main_ratio,
            params.gap_width,
            params.stack_position,
            params.stack_mode,
        ),
        LayoutType::Stack => apply_tiled(
            area,
            n,
            params.nmain,
            params.main_ratio,
            params.gap_width,
            StackPosition::Bottom,
            StackMode::Split,
        ),
        LayoutType::BottomStack => apply_tiled(
            area,
            n,
            params.nmain,
            params.main_ratio,
            params.gap_width,
            StackPosition::Top,
            StackMode::Split,
        ),
    }
}


/// A raw slice cell lies within the region it slices.
pub proof fn lemma_split_cell_within(region: Dimensions, k: int, i: int, rows: bool)
    requires
        0 <= i < k,
        area_bounded(region),
    ensures
        split_cell(region, k, i, rows).within(region),
        area_bounded(split_cell(region, k, i, rows)),
{
    if rows {
        lemma_slice_bound(region.h as int, k, i);
        lemma_slice_bound(region.h as int, k, k - 1);
    } else {
        lemma_slice_bound(region.w as int, k, i);
        lemma_slice_bound(region.w as int, k, k - 1);
    }
}

/// Both regions of the dynamic split lie within the work area.
pub proof fn lemma_regions_within(area: Dimensions, n: int, nmain: int, ratio: int, pos: StackPosition)
    requires
        area_bounded(area),
        0 <= ratio <= 1000,
    ensures
        main_region(area, n, nmain, ratio, pos).within(area),
        stack_region(area, n, nmain, ratio, pos).within(area),
        area_bounded(main_region(area, n, nmain, ratio, pos)),
        area_bounded(stack_region(area, n, nmain, ratio, pos)),
{
    lemma_main_len_bound(area.w, ratio);
    lemma_main_len_bound(area.h, ratio);
}

/// Gap-insetting preserves containment: if the raw rectangle lies within the
/// work area and is too large for the minimum-size clamp to fire, its inset
/// lies within the gap-inset work area.
pub proof fn lemma_inset_within(raw: Dimensions, area: Dimensions, gap: u32)
    requires
        area_bounded(area),
        raw.within(area),
        raw.w >= 2 * gap + WINDOW_MIN_SIZE,
        raw.h >= 2 * gap + WINDOW_MIN_SIZE,
    ensures
        inset_rect(raw, gap).within(inset_rect(area, gap)),
{
}

/// Law: no rectangle computed by a tiling algorithm has a width or height
/// below the minimum window size floor. (The floating algorithm computes no
/// rectangles: it returns the current geometries unchanged.)
pub proof fn lemma_layout_min_size(
    params: LayoutParams,
    area: Dimensions,
    current: Seq<Dimensions>,
    i: int,
)
    requires
        params.layout != LayoutType::Floating,
        0 <= i < current.len(),
    ensures
        layout_cell(params, area, current, i).w >= WINDOW_MIN_SIZE,
        layout_cell(params, area, current, i).h >= WINDOW_MIN_SIZE,
{
}

/// Law: every rectangle computed by a tiling algorithm lies within the work
/// area inset by the configured gap, provided the raw partition cell of that
/// client is large enough that the minimum-size clamp does not fire. (Under
/// pathological gap or ratio settings the clamp may push a rectangle past the
/// partition boundary; that trade-off is accepted, not corrected.)
pub proof fn lemma_layout_within_work_area(
    params: LayoutParams,
    area: Dimensions,
    current: Seq<Dimensions>,
    i: int,
)
    requires
        area_bounded(area),
        params.main_ratio <= 1000,
        params.layout != LayoutType::Floating,
        0 <= i < current.len(),
        raw_layout_cell(params, area, current.len() as int, i).w >= 2 * params.gap_width
            + WINDOW_MIN_SIZE,
        raw_layout_cell(params, area, current.len() as int, i).h >= 2 * params.gap_width
            + WINDOW_MIN_SIZE,
    ensures
        layout_cell(params, area, current, i).within(inset_rect(area, params.gap_width)),
{
    let n = current.len() as int;
    let raw = raw_layout_cell(params, area, n, i);
    lemma_raw_cell_within(params, area, n, i);
    lemma_inset_within(raw, area, params.gap_width);
}

/// The raw partition cell of any tiling algorithm lies within the work area.
pub proof fn lemma_raw_cell_within(params: LayoutParams, area: Dimensions, n: int, i: int)
    requires
        area_bounded(area),
        params.main_ratio <= 1000,
        0 <= i < n,
    ensures
        raw_layout_cell(params, area, n, i).within(area),
{
    let nmain = params.nmain as int;
    let ratio = params.main_ratio as int;
    match params.layout {
        LayoutType::Floating => {},
        LayoutType::Monocle => {},
        LayoutType::Deck => {},
        LayoutType::Dynamic => {
            lemma_raw_tiled_cell_within(
                area,
                n,
                nmain,
                ratio,
                params.stack_position,
                params.stack_mode,
                i,
            );
        },
        LayoutType::Stack => {
            lemma_raw_tiled_cell_within(
                area,
                n,
                nmain,
                ratio,
                StackPosition::Bottom,
                StackMode::Split,
                i,
            );
        },
        LayoutType::BottomStack => {
            lemma_raw_tiled_cell_within(
                area,
                n,
                nmain,
                ratio,
                StackPosition::Top,
                StackMode::Split,
                i,
            );
        },
    }
}

/// Law: the dynamic split partitions the clients by list position: exactly the
/// first `min(nmain, n)` clients receive cells within the main region, and the
/// remaining `n - min(nmain, n)` receive cells within the stack region; with
/// `nmain == 0` no client lies in the main region.
pub proof fn lemma_raw_tiled_cell_within(
    area: Dimensions,
    n: int,
    nmain: int,
    ratio: int,
    pos: StackPosition,
    mode: StackMode,
    i: int,
)
    requires
        area_bounded(area),
        0 <= ratio <= 1000,
        0 <= i < n,
        0 <= nmain,
    ensures
        i < main_count(n, nmain) ==> raw_tiled_cell(area, n, nmain, ratio, pos, mode, i).within(
            main_region(area, n, nmain, ratio, pos),
        ),
        i >= main_count(n, nmain) ==> raw_tiled_cell(area, n, nmain, ratio, pos, mode, i).within(
            stack_region(area, n, nmain, ratio, pos),
        ),
        raw_tiled_cell(area, n, nmain, ratio, pos, mode, i).within(area),
{
    let nm = main_count(n, nmain);
    let mr = main_region(area, n, nmain, ratio, pos);
    let sr = stack_region(area, n, nmain, ratio, pos);
    let rows = splits_into_rows(pos);
    lemma_regions_within(area, n, nmain, ratio, pos);
    if i < nm {
        lemma_split_cell_within(mr, nm, i, rows);
    } else {
        if mode == StackMode::Deck {
        } else {
            lemma_split_cell_within(sr, n - nm, i - nm, rows);
        }
    }
}

/// Law: when both regions are non-empty they do not overlap, so a main cell
/// and a stack cell never share a point.
pub proof fn lemma_regions_disjoint(
    area: Dimensions,
    n: int,
    nmain: int,
    ratio: int,
    pos: StackPosition,
)
    requires
        area_bounded(area),
        0 <= ratio <= 1000,
        0 < main_count(n, nmain) < n,
    ensures
        rects_disjoint(
            main_region(area, n, nmain, ratio, pos),
            stack_region(area, n, nmain, ratio, pos),
        ),
{
    lemma_main_len_bound(area.w, ratio);
    lemma_main_len_bound(area.h, ratio);
}

/// True when the two rectangles share no point.
pub open spec fn rects_disjoint(a: Dimensions, b: Dimensions) -> bool {
    ||| a.right() <= b.x
    ||| b.right() <= a.x
    ||| a.bottom() <= b.y
    ||| b.bottom() <= a.y
}

/// Law: under the monocle algorithm every client receives the full work area,
/// gap-inset, regardless of client count.
pub proof fn lemma_monocle_full_area(
    params: LayoutParams,
    area: Dimensions,
    current: Seq<Dimensions>,
    i: int,
)
    requires
        params.layout == LayoutType::Monocle,
        0 <= i < current.len(),
    ensures
        layout_cell(params, area, current, i) == inset_rect(area, params.gap_width),
{
}

/// Law: the layout engine is a pure function of its inputs, so invoking it
/// twice with unchanged inputs yields identical output rectangles.
pub proof fn lemma_layout_idempotent(
    params: LayoutParams,
    area: Dimensions,
    current: Seq<Dimensions>,
    r1: Seq<Dimensions>,
    r2: Seq<Dimensions>,
)
    requires
        r1.len() == current.len(),
        r2.len() == current.len(),
        forall|i: int| 0 <= i < r1.len() ==> r1[i] == layout_cell(params, area, current, i),
        forall|i: int| 0 <= i < r2.len() ==> r2[i] == layout_cell(params, area, current, i),
    ensures
        r1 == r2,
{
    assert(r1 =~= r2);
}

} // verus!
