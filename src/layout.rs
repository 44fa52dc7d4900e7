//! The adaptive layout of window cells along the panel: natural widths when
//! they fit, one equal width for every cell when they do not.

use vstd::prelude::*;
use crate::icon::ICON_EDGE;

verus! {

/// Horizontal padding around the icon and the title of a cell.
pub const ITEM_PADDING: u32 = 24;

/// Widest a cell may be, whatever its title.
pub const MAX_ITEM_WIDTH: u32 = 250;

/// A cell at least this wide shows its icon.
pub const ICON_MIN_CELL: u32 = 30;

/// Width of a cell taken by its icon and margins before the title starts.
pub const TEXT_INSET: u32 = 42;

/// A title area of this width or less shows no text.
pub const MIN_TEXT_AREA: u32 = 10;

/// A window that takes part in the layout, with the measured width of its title.
#[derive(Clone, Copy, Debug, PartialEq, Eq, Structural)]
pub struct Candidate {
    pub handle: u32,
    pub text_width: u32,
}

/// One laid-out cell: where it is drawn, and how.
#[derive(Clone, Copy, Debug, PartialEq, Eq, Structural)]
pub struct Cell {
    pub handle: u32,
    pub draw_x: u32,
    pub draw_width: u32,
    pub is_active: bool,
    pub is_hovered: bool,
}

/// The width a cell asks for: icon, title and padding, at most `MAX_ITEM_WIDTH`.
pub open spec fn ideal_of(text_width: u32) -> int {
    let w = ICON_EDGE + text_width + ITEM_PADDING;
    if w < MAX_ITEM_WIDTH { w } else { MAX_ITEM_WIDTH as int }
}

pub fn ideal_width(text_width: u32) -> (r: u32)
    ensures
        r == ideal_of(text_width),
{
    if text_width < MAX_ITEM_WIDTH - ICON_EDGE - ITEM_PADDING {
        ICON_EDGE + text_width + ITEM_PADDING
    } else {
        MAX_ITEM_WIDTH
    }
}

/// Sum of the ideal widths.
pub open spec fn ideal_sum(cs: Seq<Candidate>) -> int
    decreases cs.len(),
{
    if cs.len() == 0 {
        0
    } else {
        ideal_sum(cs.drop_last()) + ideal_of(cs.last().text_width)
    }
}

/// The layout is compressed: the ideal widths together overflow the space.
pub open spec fn compressed(cs: Seq<Candidate>, available: u32) -> bool {
    ideal_sum(cs) > available
}

/// Width of cell `i`.
pub open spec fn width_at(cs: Seq<Candidate>, available: u32, i: int) -> int {
    if compressed(cs, available) {
        available as int / cs.len() as int
    } else {
        ideal_of(cs[i].text_width)
    }
}

/// Left edge of cell `i`: the widths of the cells before it, added up.
pub open spec fn x_at(cs: Seq<Candidate>, available: u32, i: int) -> int {
    if compressed(cs, available) {
        i * (available as int / cs.len() as int)
    } else {
        ideal_sum(cs.take(i))
    }
}

/// The cell that `layout` gives for candidate `i`.
pub open spec fn cell_at(
    cs: Seq<Candidate>,
    active: u32,
    hovered: Option<u32>,
    available: u32,
    i: int,
) -> Cell {
    Cell {
        handle: cs[i].handle,
        draw_x: x_at(cs, available, i) as u32,
        draw_width: width_at(cs, available, i) as u32,
        is_active: cs[i].handle == active,
        is_hovered: hovered == Some(cs[i].handle),
    }
}

/// Extent of the whole layout: the widths of all cells added up.
pub open spec fn total_width(cs: Seq<Candidate>, available: u32) -> int {
    x_at(cs, available, cs.len() as int)
}

proof fn lemma_ideal_sum_monotone(cs: Seq<Candidate>, i: int, j: int)
    requires
        0 <= i <= j <= cs.len(),
    ensures
        ideal_sum(cs.take(i)) <= ideal_sum(cs.take(j)),
    decreases j - i,
{
    if i < j {
        lemma_ideal_sum_monotone(cs, i, j - 1);
        assert(cs.take(j).drop_last() =~= cs.take(j - 1));
    }
}

/// The widths of all cells never add up to more than the available space.
pub proof fn lemma_layout_fits(cs: Seq<Candidate>, available: u32)
    ensures
        total_width(cs, available) <= available,
        forall|i: int|
            0 <= i < cs.len() ==> x_at(cs, available, i) + width_at(cs, available, i)
                == #[trigger] x_at(cs, available, i + 1),
{
    assert(cs.take(cs.len() as int) =~= cs);
    if compressed(cs, available) {
        let n = cs.len() as int;
        let q = available as int / n;
        assert(n * q <= available) by (nonlinear_arith)
            requires
                n > 0,
                q == available as int / n,
                available >= 0,
        ;
        assert forall|i: int| 0 <= i < cs.len() implies x_at(cs, available, i) + width_at(
            cs,
            available,
            i,
        ) == #[trigger] x_at(cs, available, i + 1) by {
            assert(i * q + q == (i + 1) * q) by (nonlinear_arith);
        }
    } else {
        assert forall|i: int| 0 <= i < cs.len() implies x_at(cs, available, i) + width_at(
            cs,
            available,
            i,
        ) == #[trigger] x_at(cs, available, i + 1) by {
            assert(cs.take(i + 1).drop_last() =~= cs.take(i));
        }
    }
}

/// Lays out the candidates left to right, in the order given. Each cell keeps
/// its ideal width where those widths fit the available space together;
/// otherwise every cell gets the same width, the space divided evenly.
pub fn layout(cs: &Vec<Candidate>, active: u32, hovered: Option<u32>, available: u32) -> (r: Vec<
    Cell,
>)
    ensures
        r@.len() == cs@.len(),
        forall|i: int| 0 <= i < cs@.len() ==> r@[i] == cell_at(cs@, active, hovered, available, i),
        total_width(cs@, available) <= available,
{
    let n = cs.len();
    // The ideal widths added up, stopping just above the available space.
    let cap: u64 = available as u64 + 1;
    let mut sum: u64 = 0;
    let mut i: usize = 0;
    while i < n
        invariant
            n == cs@.len(),
            i <= n,
            cap == available as u64 + 1,
            sum == (if ideal_sum(cs@.take(i as int)) < cap { ideal_sum(cs@.take(i as int)) } else {
                cap as int
            }),
        decreases n - i,
    {
        proof {
            assert(cs@.take(i + 1).drop_last() =~= cs@.take(i as int));
        }
        let w = ideal_width(cs[i].text_width) as u64;
        sum = if sum + w < cap { sum + w } else { cap };
        i = i + 1;
    }
    assert(cs@.take(n as int) =~= cs@);
    let over = sum > available as u64;
    proof {
        lemma_layout_fits(cs@, available);
    }
    let even: u32 = if n > 0 { (available as usize / n) as u32 } else { 0 };
    let mut cells: Vec<Cell> = Vec::new();
    let mut x: u32 = 0;
    let mut j: usize = 0;
    while j < n
        invariant
            n == cs@.len(),
            j <= n,
            over == compressed(cs@, available),
            n > 0 ==> even == available as int / n as int,
            x == x_at(cs@, available, j as int),
            total_width(cs@, available) <= available,
            forall|i: int|
                0 <= i < cs@.len() ==> x_at(cs@, available, i) + width_at(cs@, available, i)
                    == #[trigger] x_at(cs@, available, i + 1),
            cells@.len() == j,
            forall|i: int| 0 <= i < j ==> cells@[i] == cell_at(cs@, active, hovered, available, i),
        decreases n - j,
    {
        let c = cs[j];
        let w: u32 = if over { even } else { ideal_width(c.text_width) };
        proof {
            assert(x_at(cs@, available, j + 1) <= total_width(cs@, available)) by {
                if over {
                    assert((j + 1) * even <= n * even) by (nonlinear_arith)
                        requires
                            j + 1 <= n,
                            even >= 0,
                    ;
                } else {
                    assert(cs@.take(n as int) =~= cs@);
                    lemma_ideal_sum_monotone(cs@, j + 1, n as int);
                }
            }
            assert(x_at(cs@, available, j as int) + width_at(cs@, available, j as int) == x_at(
                cs@,
                available,
                j + 1,
            ));
        }
        cells.push(
            Cell {
                handle: c.handle,
                draw_x: x,
                draw_width: w,
                is_active: c.handle == active,
                is_hovered: hovered == Some(c.handle),
            },
        );
        x = x + w;
        j = j + 1;
    }
    cells
}

/// Whether a cell of this width is wide enough to show its icon.
pub fn shows_icon(draw_width: u32) -> (r: bool)
    ensures
        r == (draw_width >= ICON_MIN_CELL),
{
    draw_width >= ICON_MIN_CELL
}

/// The width left for the title in a cell of this width, where there is enough to draw in.
pub fn text_area(draw_width: u32) -> (r: Option<u32>)
    ensures
        r matches Some(t) ==> t == draw_width - TEXT_INSET,
        r is Some <==> draw_width > TEXT_INSET + MIN_TEXT_AREA,
{
    if draw_width > TEXT_INSET + MIN_TEXT_AREA {
        Some(draw_width - TEXT_INSET)
    } else {
        None
    }
}

} // verus!
