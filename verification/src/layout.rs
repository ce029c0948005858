//! The stack-based layout engine: one `Layout` per open container,
//! with margin/padding semantics and a cursor that `commit` advances
//! deterministically for each child placed.

use vstd::prelude::*;

use crate::Coord;
use crate::DeferedCommand;
use crate::Pos;
use crate::Rect;
use crate::cadd;
use crate::cmax;
use crate::cmin;
use crate::cmul;
use crate::csub;
use crate::imax;
use crate::imin;
use crate::in_coord_range;
use crate::sat_add;
use crate::sat_mul;
use crate::sat_sub;

verus! {

/// How a container places its children.
#[derive(Clone, Copy, Debug, PartialEq, Eq, Structural)]
pub enum LayoutMode {
    /// Terminal mode for leaf widgets: the rectangle handed back to
    /// the widget itself; never committed into.
    Single,
    /// Children side by side, cursor advancing to the right.
    Horizontal,
    /// Children stacked, cursor advancing downward.
    Vertical,
    /// Children wrapped into columns and rows of configured widths.
    Grid,
}

impl Default for LayoutMode {
    fn default() -> (r: Self)
        ensures
            r == LayoutMode::Vertical,
    {
        LayoutMode::Vertical
    }
}

/// Mathematical model of a layout frame: every coordinate as an
/// unbounded integer, the grid column widths as a sequence.
#[verifier::ext_equal]
pub ghost struct LayoutM {
    pub x: int,
    pub y: int,
    pub w: int,
    pub h: int,
    pub padded_child: bool,
    pub mode: LayoutMode,
    pub margin: int,
    pub vpadding: int,
    pub hpadding: int,
    pub min_width: int,
    pub max_width: int,
    pub min_height: int,
    pub max_height: int,
    pub cx: int,
    pub cy: int,
    pub commited: bool,
    pub lcx: int,
    pub lcy: int,
    pub grid_widths: Seq<int>,
    pub grid_cols: int,
    pub grid_col: int,
    pub grid_row: int,
}

/// The model of a freshly made vertical frame at the origin.
pub open spec fn default_layout_m() -> LayoutM {
    LayoutM {
        x: 0,
        y: 0,
        w: 0,
        h: 0,
        padded_child: false,
        mode: LayoutMode::Vertical,
        margin: 0,
        vpadding: 0,
        hpadding: 0,
        min_width: 0,
        max_width: 0,
        min_height: 0,
        max_height: 0,
        cx: 0,
        cy: 0,
        commited: false,
        lcx: 0,
        lcy: 0,
        grid_widths: Seq::empty(),
        grid_cols: 0,
        grid_col: 0,
        grid_row: 0,
    }
}

/// Every coordinate of the frame model lies inside the saturation
/// bound.
pub open spec fn wf_coords_m(l: LayoutM) -> bool {
    &&& in_coord_range(l.x)
    &&& in_coord_range(l.y)
    &&& in_coord_range(l.w)
    &&& in_coord_range(l.h)
    &&& in_coord_range(l.margin)
    &&& in_coord_range(l.vpadding)
    &&& in_coord_range(l.hpadding)
    &&& in_coord_range(l.min_width)
    &&& in_coord_range(l.max_width)
    &&& in_coord_range(l.min_height)
    &&& in_coord_range(l.max_height)
    &&& in_coord_range(l.cx)
    &&& in_coord_range(l.cy)
    &&& in_coord_range(l.lcx)
    &&& in_coord_range(l.lcy)
    &&& forall|i: int| 0 <= i < l.grid_widths.len() ==> in_coord_range(#[trigger] l.grid_widths[i])
}

/// The grid bookkeeping is consistent: one stored width per column,
/// and in grid mode the column cursor points at a real column.
pub open spec fn grid_ok_m(l: LayoutM) -> bool {
    &&& l.grid_cols == l.grid_widths.len()
    &&& (l.mode == LayoutMode::Grid ==> 1 <= l.grid_cols && 0 <= l.grid_col < l.grid_cols)
}

/// Well-formedness of a frame model.
pub open spec fn wf_m(l: LayoutM) -> bool {
    wf_coords_m(l) && grid_ok_m(l)
}

/// One container's in-progress placement bookkeeping.
#[derive(Debug)]
pub struct Layout {
    r: Rect,
    padded_child: bool,
    mode: LayoutMode,
    margin: Coord,
    vpadding: Coord,
    hpadding: Coord,
    min_width: Coord,
    max_width: Coord,
    min_height: Coord,
    max_height: Coord,
    cursor: Pos,
    commited: bool,
    last_cursor: Pos,
    grid_widths: Vec<Coord>,
    grid_cols: usize,
    grid_col: usize,
    grid_row: usize,
    defered: Vec<DeferedCommand>,
}

impl View for Layout {
    type V = LayoutM;

    closed spec fn view(&self) -> LayoutM {
        LayoutM {
            x: self.r.x as int,
            y: self.r.y as int,
            w: self.r.w as int,
            h: self.r.h as int,
            padded_child: self.padded_child,
            mode: self.mode,
            margin: self.margin as int,
            vpadding: self.vpadding as int,
            hpadding: self.hpadding as int,
            min_width: self.min_width as int,
            max_width: self.max_width as int,
            min_height: self.min_height as int,
            max_height: self.max_height as int,
            cx: self.cursor.x as int,
            cy: self.cursor.y as int,
            commited: self.commited,
            lcx: self.last_cursor.x as int,
            lcy: self.last_cursor.y as int,
            grid_widths: self.grid_widths@.map(|i: int, v: Coord| v as int),
            grid_cols: self.grid_cols as int,
            grid_col: self.grid_col as int,
            grid_row: self.grid_row as int,
        }
    }
}

// ===================================================================
//
// The commit step as a pure function of the two frame models
//
// ===================================================================
/// The child frame after being committed into a vertical parent: it
/// is placed at the parent's cursor (one vertical padding gap below
/// it when a child was already placed), its width clamped into the
/// parent's width bounds.
pub open spec fn next_row_child(p: LayoutM, c: LayoutM) -> LayoutM {
    let cy = if p.padded_child {
        sat_add(p.cy, p.vpadding)
    } else {
        p.cy
    };
    let w1 = imax(c.w, sat_sub(p.min_width, sat_mul(2, p.margin)));
    let w2 = if p.max_width > 0 {
        imin(w1, sat_sub(p.max_width, sat_mul(2, p.margin)))
    } else {
        w1
    };
    LayoutM {
        x: p.cx,
        y: cy,
        w: w2,
        cx: sat_add(c.cx, sat_sub(p.cx, c.x)),
        cy: sat_add(c.cy, sat_sub(cy, c.y)),
        ..c
    }
}

/// The vertical parent after committing a child: the cursor moves
/// down by the child's height, and the spot the child was placed at
/// is remembered as the last cursor.
pub open spec fn next_row_parent(p: LayoutM, c: LayoutM) -> LayoutM {
    let cy = if p.padded_child {
        sat_add(p.cy, p.vpadding)
    } else {
        p.cy
    };
    LayoutM { padded_child: true, lcx: p.cx, lcy: cy, cy: sat_add(cy, c.h), ..p }
}

/// The child frame after being committed into a horizontal parent:
/// placed at the parent's cursor (one horizontal padding gap to the
/// right when a child was already placed), width and height clamped
/// into the parent's bounds.
pub open spec fn next_column_child(p: LayoutM, c: LayoutM) -> LayoutM {
    let cx = if p.padded_child {
        sat_add(p.cx, p.hpadding)
    } else {
        p.cx
    };
    let w1 = imax(c.w, p.min_width);
    let w2 = if p.max_width > 0 {
        imin(w1, p.max_width)
    } else {
        w1
    };
    let h1 = imax(c.h, p.min_height);
    let h2 = if p.max_height > 0 {
        imin(h1, sat_sub(p.max_height, sat_mul(2, p.margin)))
    } else {
        h1
    };
    LayoutM {
        x: cx,
        y: p.cy,
        w: w2,
        h: h2,
        cx: sat_add(c.cx, sat_sub(cx, c.x)),
        cy: sat_add(c.cy, sat_sub(p.cy, c.y)),
        ..c
    }
}

/// The horizontal parent after committing a child: the cursor moves
/// right by the child's (clamped) width.
pub open spec fn next_column_parent(p: LayoutM, c: LayoutM) -> LayoutM {
    let cx = if p.padded_child {
        sat_add(p.cx, p.hpadding)
    } else {
        p.cx
    };
    LayoutM {
        padded_child: true,
        lcx: cx,
        lcy: p.cy,
        cx: sat_add(cx, next_column_child(p, c).w),
        ..p
    }
}

/// The child frame after being committed into a grid parent: placed
/// at the parent's cursor with the current cell's width and height.
pub open spec fn next_grid_cell_child(p: LayoutM, c: LayoutM) -> LayoutM {
    LayoutM {
        x: p.cx,
        y: p.cy,
        w: p.max_width,
        h: p.max_height,
        cx: sat_add(c.cx, sat_sub(p.cx, c.x)),
        cy: sat_add(c.cy, sat_sub(p.cy, c.y)),
        ..c
    }
}

/// The grid parent after committing a child: the cursor advances one
/// cell to the right, or wraps to the start of the next row after the
/// last column; the width bounds take the next column's width.
pub open spec fn next_grid_cell_parent(p: LayoutM, c: LayoutM) -> LayoutM {
    let lcx = if !p.padded_child {
        p.cx
    } else {
        p.lcx
    };
    let lcy = if !p.padded_child {
        p.cy
    } else {
        p.lcy
    };
    let wrap = p.grid_col + 1 == p.grid_cols;
    let gcol = if wrap {
        0
    } else {
        p.grid_col + 1
    };
    let grow = if wrap && p.grid_row + 1 <= usize::MAX as int {
        p.grid_row + 1
    } else {
        p.grid_row
    };
    let ncx = if wrap {
        sat_add(p.x, p.margin)
    } else {
        sat_add(p.cx, sat_add(p.max_width, p.hpadding))
    };
    let ncy = if wrap {
        sat_add(p.cy, sat_add(p.max_height, p.vpadding))
    } else {
        p.cy
    };
    let gw = p.grid_widths[gcol];
    LayoutM {
        padded_child: true,
        lcx: lcx,
        lcy: lcy,
        cx: ncx,
        cy: ncy,
        grid_col: gcol,
        grid_row: grow,
        max_width: gw,
        min_width: gw,
        ..p
    }
}

/// The committed child for any (non-single) parent mode; its
/// rectangle counts as finalized from here on.
pub open spec fn commit_child_m(p: LayoutM, c: LayoutM) -> LayoutM {
    let placed = if p.mode == LayoutMode::Horizontal {
        next_column_child(p, c)
    } else if p.mode == LayoutMode::Vertical {
        next_row_child(p, c)
    } else {
        next_grid_cell_child(p, c)
    };
    LayoutM { commited: true, ..placed }
}

/// The parent after the commit, for any (non-single) parent mode.
pub open spec fn commit_parent_m(p: LayoutM, c: LayoutM) -> LayoutM {
    if p.mode == LayoutMode::Horizontal {
        next_column_parent(p, c)
    } else if p.mode == LayoutMode::Vertical {
        next_row_parent(p, c)
    } else {
        next_grid_cell_parent(p, c)
    }
}

/// Saturating sum of a sequence of coordinates.
pub open spec fn sat_sum(s: Seq<int>) -> int
    decreases s.len(),
{
    if s.len() == 0 {
        0
    } else {
        sat_add(sat_sum(s.drop_last()), s.last())
    }
}

impl Layout {
    /// The attached deferred decoration commands, in attachment order.
    pub closed spec fn defered_seq(&self) -> Seq<DeferedCommand> {
        self.defered@
    }

    /// Every stored coordinate is inside the saturation bound.
    pub open spec fn wf(&self) -> bool {
        wf_m(self@)
    }

    /// A fresh frame in the given mode, everything else zeroed.
    pub fn new(mode: LayoutMode) -> (r: Self)
        ensures
            r@ == (LayoutM { mode, ..default_layout_m() }),
            r.defered_seq() == Seq::<DeferedCommand>::empty(),
            wf_coords_m(r@),
    {
        let r = Layout {
            r: Rect { x: 0, y: 0, w: 0, h: 0 },
            padded_child: false,
            mode,
            margin: 0,
            vpadding: 0,
            hpadding: 0,
            min_width: 0,
            max_width: 0,
            min_height: 0,
            max_height: 0,
            cursor: Pos { x: 0, y: 0 },
            commited: false,
            last_cursor: Pos { x: 0, y: 0 },
            grid_widths: Vec::new(),
            grid_cols: 0,
            grid_col: 0,
            grid_row: 0,
            defered: Vec::new(),
        };
        proof {
            assert(r@ =~= (LayoutM { mode, ..default_layout_m() }));
        }
        r
    }

    /// Whether this is a terminal (leaf) frame.
    pub fn is_single(&self) -> (b: bool)
        ensures
            b == (self@.mode == LayoutMode::Single),
    {
        self.mode == LayoutMode::Single
    }

    /// The frame's current rectangle.
    pub fn area(&self) -> (r: Rect)
        ensures
            r.x as int == self@.x,
            r.y as int == self@.y,
            r.w as int == self@.w,
            r.h as int == self@.h,
    {
        self.r
    }

    /// Whether the frame's rectangle has been finalized.
    pub fn commited(&self) -> (b: bool)
        ensures
            b == self@.commited,
    {
        self.commited
    }

    /// Where the most recently committed child was placed.
    pub fn last_cursor(&self) -> (p: Pos)
        ensures
            p.x as int == self@.lcx,
            p.y as int == self@.lcy,
    {
        self.last_cursor
    }

    /// Set both padding directions.
    pub fn padding(&mut self, value: Coord)
        ensures
            final(self)@ == (LayoutM {
                vpadding: value as int,
                hpadding: value as int,
                ..old(self)@
            }),
            final(self).defered_seq() == old(self).defered_seq(),
    {
        self.vpadding = value;
        self.hpadding = value;
        proof {
            assert(self@ =~= (LayoutM {
                vpadding: value as int,
                hpadding: value as int,
                ..old(self)@
            }));
        }
    }

    /// Set the vertical padding (the gap between rows).
    pub fn vpadding(&mut self, value: Coord)
        ensures
            final(self)@ == (LayoutM { vpadding: value as int, ..old(self)@ }),
            final(self).defered_seq() == old(self).defered_seq(),
    {
        self.vpadding = value;
        proof {
            assert(self@ =~= (LayoutM { vpadding: value as int, ..old(self)@ }));
        }
    }

    /// Set the horizontal padding (the gap between columns).
    pub fn hpadding(&mut self, value: Coord)
        ensures
            final(self)@ == (LayoutM { hpadding: value as int, ..old(self)@ }),
            final(self).defered_seq() == old(self).defered_seq(),
    {
        self.hpadding = value;
        proof {
            assert(self@ =~= (LayoutM { hpadding: value as int, ..old(self)@ }));
        }
    }

    /// Attach a deferred decoration to be rendered once the frame's
    /// rectangle is final.
    pub fn defered(&mut self, defered: DeferedCommand)
        ensures
            final(self)@ == old(self)@,
            final(self).defered_seq() == old(self).defered_seq().push(defered),
    {
        self.defered.push(defered);
    }

    /// The attached deferred decorations.
    pub fn defered_iter(&self) -> (r: &Vec<DeferedCommand>)
        ensures
            r@ == self.defered_seq(),
    {
        &self.defered
    }

    /// Grow the margin: the inset applied once at the frame's
    /// boundary. The cursor moves with it.
    pub fn margin(&mut self, value: Coord)
        requires
            wf_coords_m(old(self)@),
            in_coord_range(value as int),
        ensures
            final(self)@ == (LayoutM {
                margin: sat_add(old(self)@.margin, value as int),
                cx: sat_add(old(self)@.cx, value as int),
                cy: sat_add(old(self)@.cy, value as int),
                ..old(self)@
            }),
            final(self).defered_seq() == old(self).defered_seq(),
            wf_coords_m(final(self)@),
    {
        self.margin = cadd(self.margin, value);
        self.cursor.x = cadd(self.cursor.x, value);
        self.cursor.y = cadd(self.cursor.y, value);
        proof {
            assert(self@ =~= (LayoutM {
                margin: sat_add(old(self)@.margin, value as int),
                cx: sat_add(old(self)@.cx, value as int),
                cy: sat_add(old(self)@.cy, value as int),
                ..old(self)@
            }));
        }
    }

    /// Pin both dimensions: minimum and maximum bounds and the
    /// rectangle itself all take the given size.
    pub fn fixed_size(&mut self, w: Coord, h: Coord)
        ensures
            final(self)@ == (LayoutM {
                min_width: w as int,
                max_width: w as int,
                min_height: h as int,
                max_height: h as int,
                w: w as int,
                h: h as int,
                ..old(self)@
            }),
            final(self).defered_seq() == old(self).defered_seq(),
    {
        self.min_width = w;
        self.max_width = w;
        self.min_height = h;
        self.max_height = h;
        self.r.w = w;
        self.r.h = h;
        proof {
            assert(self@ =~= (LayoutM {
                min_width: w as int,
                max_width: w as int,
                min_height: h as int,
                max_height: h as int,
                w: w as int,
                h: h as int,
                ..old(self)@
            }));
        }
    }

    /// Displace the cursor.
    pub fn move_cursor(&mut self, deltax: Coord, deltay: Coord)
        requires
            wf_coords_m(old(self)@),
            in_coord_range(deltax as int),
            in_coord_range(deltay as int),
        ensures
            final(self)@ == (LayoutM {
                cx: sat_add(old(self)@.cx, deltax as int),
                cy: sat_add(old(self)@.cy, deltay as int),
                ..old(self)@
            }),
            final(self).defered_seq() == old(self).defered_seq(),
            wf_coords_m(final(self)@),
    {
        self.cursor.x = cadd(self.cursor.x, deltax);
        self.cursor.y = cadd(self.cursor.y, deltay);
        proof {
            assert(self@ =~= (LayoutM {
                cx: sat_add(old(self)@.cx, deltax as int),
                cy: sat_add(old(self)@.cy, deltay as int),
                ..old(self)@
            }));
        }
    }

    /// Set the minimum width; the rectangle grows to it at once.
    pub fn min_width(&mut self, value: Coord)
        ensures
            final(self)@ == (LayoutM {
                min_width: value as int,
                w: imax(old(self)@.w, value as int),
                ..old(self)@
            }),
            final(self).defered_seq() == old(self).defered_seq(),
    {
        self.min_width = value;
        self.r.w = cmax(self.r.w, value);
        proof {
            assert(self@ =~= (LayoutM {
                min_width: value as int,
                w: imax(old(self)@.w, value as int),
                ..old(self)@
            }));
        }
    }

    /// Set the maximum width bound.
    pub fn max_width(&mut self, value: Coord)
        ensures
            final(self)@ == (LayoutM { max_width: value as int, ..old(self)@ }),
            final(self).defered_seq() == old(self).defered_seq(),
    {
        self.max_width = value;
        proof {
            assert(self@ =~= (LayoutM { max_width: value as int, ..old(self)@ }));
        }
    }

    /// Place the frame at an absolute position: the cursor starts a
    /// margin inside it and the rectangle counts as committed.
    pub fn pos(&mut self, x: Coord, y: Coord)
        requires
            wf_coords_m(old(self)@),
            in_coord_range(x as int),
            in_coord_range(y as int),
        ensures
            final(self)@ == (LayoutM {
                x: x as int,
                y: y as int,
                cx: sat_add(x as int, old(self)@.margin),
                cy: sat_add(y as int, old(self)@.margin),
                commited: true,
                ..old(self)@
            }),
            final(self).defered_seq() == old(self).defered_seq(),
            wf_coords_m(final(self)@),
    {
        self.r.x = x;
        self.r.y = y;
        self.cursor.x = cadd(x, self.margin);
        self.cursor.y = cadd(y, self.margin);
        self.commited = true;
        proof {
            assert(self@ =~= (LayoutM {
                x: x as int,
                y: y as int,
                cx: sat_add(x as int, old(self)@.margin),
                cy: sat_add(y as int, old(self)@.margin),
                commited: true,
                ..old(self)@
            }));
        }
    }

    /// Set the rectangle's size.
    pub fn size(&mut self, w: Coord, h: Coord)
        ensures
            final(self)@ == (LayoutM { w: w as int, h: h as int, ..old(self)@ }),
            final(self).defered_seq() == old(self).defered_seq(),
    {
        self.r.w = w;
        self.r.h = h;
        proof {
            assert(self@ =~= (LayoutM { w: w as int, h: h as int, ..old(self)@ }));
        }
    }

    /// Set the minimum height; the rectangle grows to it at once.
    pub fn min_height(&mut self, value: Coord)
        ensures
            final(self)@ == (LayoutM {
                min_height: value as int,
                h: imax(old(self)@.h, value as int),
                ..old(self)@
            }),
            final(self).defered_seq() == old(self).defered_seq(),
    {
        self.min_height = value;
        self.r.h = cmax(self.r.h, value);
        proof {
            assert(self@ =~= (LayoutM {
                min_height: value as int,
                h: imax(old(self)@.h, value as int),
                ..old(self)@
            }));
        }
    }

    /// Set the maximum height bound.
    pub fn max_height(&mut self, value: Coord)
        ensures
            final(self)@ == (LayoutM { max_height: value as int, ..old(self)@ }),
            final(self).defered_seq() == old(self).defered_seq(),
    {
        self.max_height = value;
        proof {
            assert(self@ =~= (LayoutM { max_height: value as int, ..old(self)@ }));
        }
    }

    /// Turn the frame into a uniform grid of `cols` x `rows` cells;
    /// the frame's rectangle embraces all cells plus the margin.
    pub fn grid(&mut self, cols: usize, rows: usize, width: Coord)
        requires
            wf_coords_m(old(self)@),
            old(self)@.grid_col == 0,
            1 <= cols <= COORD_LIMIT_USIZE,
            rows <= COORD_LIMIT_USIZE,
            in_coord_range(width as int),
        ensures
            final(self)@ == (LayoutM {
                mode: LayoutMode::Grid,
                grid_cols: cols as int,
                grid_widths: Seq::new(cols as nat, |i: int| width as int),
                w: sat_add(
                    sat_mul(old(self)@.max_width, cols as int),
                    sat_mul(old(self)@.margin, 2),
                ),
                h: sat_add(
                    sat_mul(old(self)@.max_height, rows as int),
                    sat_mul(old(self)@.margin, 2),
                ),
                ..old(self)@
            }),
            final(self).defered_seq() == old(self).defered_seq(),
            final(self).wf(),
    {
        self.mode = LayoutMode::Grid;
        self.grid_cols = cols;
        self.grid_widths = repeat_coord(width, cols);
        self.r.w = cadd(cmul(self.max_width, cols as i64), cmul(self.margin, 2));
        self.r.h = cadd(cmul(self.max_height, rows as i64), cmul(self.margin, 2));
        proof {
            assert(self.grid_widths@.map(|i: int, v: Coord| v as int) =~= Seq::new(
                cols as nat,
                |i: int| width as int,
            ));
            assert(self@ =~= (LayoutM {
                mode: LayoutMode::Grid,
                grid_cols: cols as int,
                grid_widths: Seq::new(cols as nat, |i: int| width as int),
                w: sat_add(
                    sat_mul(old(self)@.max_width, cols as int),
                    sat_mul(old(self)@.margin, 2),
                ),
                h: sat_add(
                    sat_mul(old(self)@.max_height, rows as int),
                    sat_mul(old(self)@.margin, 2),
                ),
                ..old(self)@
            }));
        }
    }

    /// Turn the frame into a one-row-high grid whose columns have the
    /// given (possibly different) widths.
    pub fn flexgrid(&mut self, widths: &Vec<Coord>)
        requires
            wf_coords_m(old(self)@),
            old(self)@.grid_col == 0,
            widths@.len() >= 1,
            widths@.len() <= COORD_LIMIT_USIZE,
            forall|i: int| 0 <= i < widths@.len() ==> in_coord_range(#[trigger] widths@[i] as int),
        ensures
            final(self)@ == (LayoutM {
                mode: LayoutMode::Grid,
                grid_cols: widths@.len() as int,
                grid_widths: widths@.map(|i: int, v: Coord| v as int),
                max_width: widths@[0] as int,
                min_width: widths@[0] as int,
                min_height: 1,
                max_height: 1,
                w: sat_add(
                    sat_sum(widths@.map(|i: int, v: Coord| v as int)),
                    sat_mul(old(self)@.margin, 2),
                ),
                h: sat_add(1, sat_mul(old(self)@.margin, 2)),
                ..old(self)@
            }),
            final(self).defered_seq() == old(self).defered_seq(),
            final(self).wf(),
    {
        self.mode = LayoutMode::Grid;
        self.grid_cols = widths.len();
        let width = sum_coords(widths);
        self.max_width = widths[0];
        self.min_width = widths[0];
        self.min_height = 1;
        self.max_height = 1;
        self.grid_widths = clone_coords(widths);
        self.r.w = cadd(width, cmul(self.margin, 2));
        self.r.h = cadd(self.max_height, cmul(self.margin, 2));
        proof {
            assert(self@ =~= (LayoutM {
                mode: LayoutMode::Grid,
                grid_cols: widths@.len() as int,
                grid_widths: widths@.map(|i: int, v: Coord| v as int),
                max_width: widths@[0] as int,
                min_width: widths@[0] as int,
                min_height: 1,
                max_height: 1,
                w: sat_add(
                    sat_sum(widths@.map(|i: int, v: Coord| v as int)),
                    sat_mul(old(self)@.margin, 2),
                ),
                h: sat_add(1, sat_mul(old(self)@.margin, 2)),
                ..old(self)@
            }));
        }
    }

    /// Place a child into this frame: the child's rectangle is
    /// finalized and the cursor advances, both exactly as the commit
    /// step functions describe.
    pub fn commit(&mut self, child: &mut Layout) -> (r: Rect)
        requires
            old(self).wf(),
            old(child).wf(),
            old(self)@.mode != LayoutMode::Single,
        ensures
            final(self)@ == commit_parent_m(old(self)@, old(child)@),
            final(child)@ == commit_child_m(old(self)@, old(child)@),
            final(self).defered_seq() == old(self).defered_seq(),
            final(child).defered_seq() == old(child).defered_seq(),
            r.x as int == commit_child_m(old(self)@, old(child)@).x,
            r.y as int == commit_child_m(old(self)@, old(child)@).y,
            r.w as int == commit_child_m(old(self)@, old(child)@).w,
            r.h as int == commit_child_m(old(self)@, old(child)@).h,
            final(self).wf(),
            final(child).wf(),
    {
        child.commited = true;
        let r = match self.mode {
            LayoutMode::Single => child.r,
            LayoutMode::Horizontal => self.next_column(child),
            LayoutMode::Vertical => self.next_row(child),
            LayoutMode::Grid => self.next_grid_cell(child),
        };
        proof {
            assert(child@ =~= commit_child_m(old(self)@, old(child)@));
            assert(self@ =~= commit_parent_m(old(self)@, old(child)@));
        }
        r
    }

    fn next_row(&mut self, child: &mut Layout) -> (r: Rect)
        requires
            old(self).wf(),
            old(child).wf(),
            old(self)@.mode == LayoutMode::Vertical,
        ensures
            final(self)@ == next_row_parent(old(self)@, old(child)@),
            final(child)@ == next_row_child(old(self)@, old(child)@),
            final(self).defered_seq() == old(self).defered_seq(),
            final(child).defered_seq() == old(child).defered_seq(),
            r.x as int == final(child)@.x,
            r.y as int == final(child)@.y,
            r.w as int == final(child)@.w,
            r.h as int == final(child)@.h,
            final(self).wf(),
            final(child).wf(),
    {
        if self.padded_child {
            self.cursor.y = cadd(self.cursor.y, self.vpadding);
        }
        self.padded_child = true;
        child.cursor.x = cadd(child.cursor.x, csub(self.cursor.x, child.r.x));
        child.cursor.y = cadd(child.cursor.y, csub(self.cursor.y, child.r.y));
        child.r.x = self.cursor.x;
        child.r.y = self.cursor.y;
        child.r.w = cmax(child.r.w, csub(self.min_width, cmul(2, self.margin)));
        if self.max_width > 0 {
            child.r.w = cmin(child.r.w, csub(self.max_width, cmul(2, self.margin)));
        }
        self.last_cursor = self.cursor;
        self.cursor.y = cadd(self.cursor.y, child.r.h);
        proof {
            assert(self@ =~= next_row_parent(old(self)@, old(child)@));
            assert(child@ =~= next_row_child(old(self)@, old(child)@));
        }
        child.r
    }

    fn next_column(&mut self, child: &mut Layout) -> (r: Rect)
        requires
            old(self).wf(),
            old(child).wf(),
            old(self)@.mode == LayoutMode::Horizontal,
        ensures
            final(self)@ == next_column_parent(old(self)@, old(child)@),
            final(child)@ == next_column_child(old(self)@, old(child)@),
            final(self).defered_seq() == old(self).defered_seq(),
            final(child).defered_seq() == old(child).defered_seq(),
            r.x as int == final(child)@.x,
            r.y as int == final(child)@.y,
            r.w as int == final(child)@.w,
            r.h as int == final(child)@.h,
            final(self).wf(),
            final(child).wf(),
    {
        if self.padded_child {
            self.cursor.x = cadd(self.cursor.x, self.hpadding);
        }
        self.padded_child = true;
        child.cursor.x = cadd(child.cursor.x, csub(self.cursor.x, child.r.x));
        child.cursor.y = cadd(child.cursor.y, csub(self.cursor.y, child.r.y));
        child.r.x = self.cursor.x;
        child.r.y = self.cursor.y;
        child.r.w = cmax(child.r.w, self.min_width);
        if self.max_width > 0 {
            child.r.w = cmin(child.r.w, self.max_width);
        }
        child.r.h = cmax(child.r.h, self.min_height);
        if self.max_height > 0 {
            child.r.h = cmin(child.r.h, csub(self.max_height, cmul(2, self.margin)));
        }
        self.last_cursor = self.cursor;
        self.cursor.x = cadd(self.cursor.x, child.r.w);
        proof {
            assert(self@ =~= next_column_parent(old(self)@, old(child)@));
            assert(child@ =~= next_column_child(old(self)@, old(child)@));
        }
        child.r
    }

    fn next_grid_cell(&mut self, child: &mut Layout) -> (r: Rect)
        requires
            old(self).wf(),
            old(child).wf(),
            old(self)@.mode == LayoutMode::Grid,
        ensures
            final(self)@ == next_grid_cell_parent(old(self)@, old(child)@),
            final(child)@ == next_grid_cell_child(old(self)@, old(child)@),
            final(self).defered_seq() == old(self).defered_seq(),
            final(child).defered_seq() == old(child).defered_seq(),
            r.x as int == final(child)@.x,
            r.y as int == final(child)@.y,
            r.w as int == final(child)@.w,
            r.h as int == final(child)@.h,
            final(self).wf(),
            final(child).wf(),
    {
        if !self.padded_child {
            self.last_cursor = self.cursor;
        }
        self.padded_child = true;
        child.cursor.x = cadd(child.cursor.x, csub(self.cursor.x, child.r.x));
        child.cursor.y = cadd(child.cursor.y, csub(self.cursor.y, child.r.y));
        child.r.x = self.cursor.x;
        child.r.y = self.cursor.y;
        child.r.w = self.max_width;
        child.r.h = self.max_height;
        self.grid_col = self.grid_col + 1;
        if self.grid_col == self.grid_cols {
            self.grid_col = 0;
            self.cursor.x = cadd(self.r.x, self.margin);
            self.cursor.y = cadd(self.cursor.y, cadd(self.max_height, self.vpadding));
            if self.grid_row < usize::MAX {
                self.grid_row = self.grid_row + 1;
            }
        } else {
            self.cursor.x = cadd(self.cursor.x, cadd(self.max_width, self.hpadding));
        }
        self.max_width = self.grid_widths[self.grid_col];
        self.min_width = self.max_width;
        proof {
            assert(self@ =~= next_grid_cell_parent(old(self)@, old(child)@));
            assert(child@ =~= next_grid_cell_child(old(self)@, old(child)@));
        }
        child.r
    }
}

/// Upper bound on grid dimensions, as a usize.
pub const COORD_LIMIT_USIZE: usize = 0x2000_0000;

fn sum_coords(widths: &Vec<Coord>) -> (s: Coord)
    requires
        forall|i: int| 0 <= i < widths@.len() ==> in_coord_range(#[trigger] widths@[i] as int),
    ensures
        s as int == sat_sum(widths@.map(|i: int, v: Coord| v as int)),
        in_coord_range(s as int),
{
    let ghost m = widths@.map(|i: int, v: Coord| v as int);
    let mut s: Coord = 0;
    let mut i: usize = 0;
    while i < widths.len()
        invariant
            0 <= i <= widths@.len(),
            forall|j: int| 0 <= j < widths@.len() ==> in_coord_range(#[trigger] widths@[j] as int),
            m == widths@.map(|k: int, v: Coord| v as int),
            s as int == sat_sum(m.take(i as int)),
            in_coord_range(s as int),
        decreases widths@.len() - i,
    {
        proof {
            assert(m.take(i as int + 1).drop_last() =~= m.take(i as int));
            assert(m.take(i as int + 1).last() == m[i as int]);
        }
        s = cadd(s, widths[i]);
        i = i + 1;
    }
    proof {
        assert(m.take(widths@.len() as int) =~= m);
    }
    s
}

fn repeat_coord(width: Coord, cols: usize) -> (r: Vec<Coord>)
    ensures
        r@ == Seq::new(cols as nat, |i: int| width),
{
    let mut r: Vec<Coord> = Vec::new();
    let mut i: usize = 0;
    while i < cols
        invariant
            0 <= i <= cols,
            r@ == Seq::new(i as nat, |j: int| width),
        decreases cols - i,
    {
        r.push(width);
        proof {
            assert(r@ =~= Seq::new(i as nat + 1, |j: int| width));
        }
        i = i + 1;
    }
    r
}

fn clone_coords(widths: &Vec<Coord>) -> (r: Vec<Coord>)
    ensures
        r@ == widths@,
{
    let mut r: Vec<Coord> = Vec::new();
    let mut i: usize = 0;
    while i < widths.len()
        invariant
            0 <= i <= widths@.len(),
            r@ == widths@.take(i as int),
        decreases widths@.len() - i,
    {
        r.push(widths[i]);
        proof {
            assert(r@ =~= widths@.take(i as int + 1));
        }
        i = i + 1;
    }
    proof {
        assert(widths@.take(widths@.len() as int) =~= widths@);
    }
    r
}

// ===================================================================
//
// Laws of the layout step
//
// ===================================================================
/// Layout is deterministic: the committed rectangle and the successor
/// states are pure functions of the parent's and child's accumulated
/// state, so re-running a frame with the same declarations yields the
/// same placement.
pub proof fn lemma_commit_deterministic(p1: LayoutM, c1: LayoutM, p2: LayoutM, c2: LayoutM)
    requires
        p1 == p2,
        c1 == c2,
    ensures
        commit_child_m(p1, c1) == commit_child_m(p2, c2),
        commit_parent_m(p1, c1) == commit_parent_m(p2, c2),
{
}

/// In a vertical container, padding is inserted only between
/// children: the first child is placed at the cursor itself, every
/// later child one vertical padding gap below it.
pub proof fn lemma_vertical_padding_only_between(p: LayoutM, c: LayoutM)
    requires
        p.mode == LayoutMode::Vertical,
    ensures
        !p.padded_child ==> commit_child_m(p, c).y == p.cy,
        p.padded_child ==> commit_child_m(p, c).y == sat_add(p.cy, p.vpadding),
{
}

/// In a grid container, committing into the last column wraps the
/// cursor back to the row start (one margin inside the frame) and
/// down one row height plus padding; the column index restarts at 0.
pub proof fn lemma_grid_wrap(p: LayoutM, c: LayoutM)
    requires
        p.mode == LayoutMode::Grid,
        wf_m(p),
        p.grid_col == p.grid_cols - 1,
    ensures
        commit_parent_m(p, c).grid_col == 0,
        commit_parent_m(p, c).cx == sat_add(p.x, p.margin),
        commit_parent_m(p, c).cy == sat_add(p.cy, sat_add(p.max_height, p.vpadding)),
{
}

} // verus!

