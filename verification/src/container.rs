//! Containers: boxes, grids, windows, framed and collapsible panels.
//! Each begin/end pair brackets the children placed inside it.

use vstd::prelude::*;

use crate::COORD_LIMIT;
use crate::ColorCode;
use crate::Context;
use crate::Coord;
use crate::DeferedCommand;
use crate::MOUSE_BUTTON_LEFT;
use crate::Rect;
use crate::TextAlign;
use crate::chars_vec;
use crate::cmd_is_frame;
use crate::defered_is_frame;
use crate::focus_next;
use crate::hover_next;
use crate::id_of;
use crate::imax;
use crate::in_coord_range;
use crate::layout::LayoutM;
use crate::layout::LayoutMode;
use crate::layout::commit_parent_m;
use crate::layout::default_layout_m;
use crate::layouts_of;
use crate::single_m;
use crate::sat_add;
use crate::sat_mul;
use crate::layout::sat_sum;

verus! {

impl Context {
    // =======================================================
    //
    // Plain boxes
    //
    // =======================================================
    /// Open a vertical container: children stack downward, its
    /// height at least the given one.
    pub fn vbox_begin(&mut self, id: &str, height: Coord)
        requires
            old(self).ready(),
            in_coord_range(height as int),
        ensures
            final(self).ready(),
            old(self).commands@.is_prefix_of(final(self).commands@),
            final(self).prefix_m() == old(self).prefix_m().push(id@),
            layouts_of(final(self).layouts@) == old(self).resolved_layouts(),
            final(self).defered_stack() == old(self).resolved_defered(),
            final(self).next_layout is Some,
            final(self).next_layout->0@ == (LayoutM {
                mode: LayoutMode::Vertical,
                min_height: height as int,
                h: imax(0, height as int),
                ..default_layout_m()
            }),
            final(self).next_layout->0.defered_seq() == Seq::<DeferedCommand>::empty(),
            *final(self) == (Context {
                layouts: final(self).layouts,
                commands: final(self).commands,
                next_layout: final(self).next_layout,
                next_align: final(self).next_align,
                id_prefix: final(self).id_prefix,
                ..*old(self)
            }),
    {
        self.try_commit();
        self.prefix_id(id);
        self.new_layout(LayoutMode::Vertical);
        self.min_height(height);
    }

    /// Close a vertical container.
    pub fn vbox_end(&mut self)
        requires
            old(self).ready(),
        ensures
            final(self).wf(),
            final(self).colors_ok(),
            old(self).resolved_layouts().len() >= 2 ==> final(self).ready(),
            layouts_of(final(self).layouts@) == old(self).resolved_layouts().drop_last(),
            final(self).defered_stack() == old(self).resolved_defered().drop_last(),
            final(self).prefix_m() == if old(self).prefix_m().len() > 0 {
                old(self).prefix_m().drop_last()
            } else {
                old(self).prefix_m()
            },
            old(self).commands@.is_prefix_of(final(self).commands@),
            final(self).next_layout is None,
            *final(self) == (Context {
                layouts: final(self).layouts,
                commands: final(self).commands,
                next_layout: None,
                next_align: final(self).next_align,
                id_prefix: final(self).id_prefix,
                ..*old(self)
            }),
    {
        self.end_container();
    }

    /// Open a horizontal container: children line up rightward, one
    /// row high at least.
    pub fn hbox_begin(&mut self, id: &str)
        requires
            old(self).ready(),
        ensures
            final(self).ready(),
            old(self).commands@.is_prefix_of(final(self).commands@),
            final(self).prefix_m() == old(self).prefix_m().push(id@),
            layouts_of(final(self).layouts@) == old(self).resolved_layouts(),
            final(self).defered_stack() == old(self).resolved_defered(),
            final(self).next_layout is Some,
            final(self).next_layout->0@ == (LayoutM {
                mode: LayoutMode::Horizontal,
                min_height: 1,
                h: 1,
                ..default_layout_m()
            }),
            final(self).next_layout->0.defered_seq() == Seq::<DeferedCommand>::empty(),
            *final(self) == (Context {
                layouts: final(self).layouts,
                commands: final(self).commands,
                next_layout: final(self).next_layout,
                next_align: final(self).next_align,
                id_prefix: final(self).id_prefix,
                ..*old(self)
            }),
    {
        self.try_commit();
        self.prefix_id(id);
        self.new_layout(LayoutMode::Horizontal);
        self.min_height(1);
    }

    /// Close a horizontal container.
    pub fn hbox_end(&mut self)
        requires
            old(self).ready(),
        ensures
            final(self).wf(),
            final(self).colors_ok(),
            old(self).resolved_layouts().len() >= 2 ==> final(self).ready(),
            layouts_of(final(self).layouts@) == old(self).resolved_layouts().drop_last(),
            final(self).defered_stack() == old(self).resolved_defered().drop_last(),
            final(self).prefix_m() == if old(self).prefix_m().len() > 0 {
                old(self).prefix_m().drop_last()
            } else {
                old(self).prefix_m()
            },
            old(self).commands@.is_prefix_of(final(self).commands@),
            final(self).next_layout is None,
            *final(self) == (Context {
                layouts: final(self).layouts,
                commands: final(self).commands,
                next_layout: None,
                next_align: final(self).next_align,
                id_prefix: final(self).id_prefix,
                ..*old(self)
            }),
    {
        self.end_container();
    }

    // =======================================================
    //
    // Grids
    //
    // =======================================================
    /// Open a grid container of `cols` x `rows` cells, each cell of
    /// the given size. Margin surrounds the grid; padding separates
    /// the cells.
    pub fn grid_begin(&mut self, id: &str, cols: usize, rows: usize, cell_width: Coord, cell_height: Coord)
        requires
            old(self).ready(),
            1 <= cols <= COORD_LIMIT as usize,
            rows <= COORD_LIMIT as usize,
            in_coord_range(cell_width as int),
            in_coord_range(cell_height as int),
        ensures
            final(self).ready(),
            old(self).commands@.is_prefix_of(final(self).commands@),
            final(self).prefix_m() == old(self).prefix_m().push(id@),
            layouts_of(final(self).layouts@) == old(self).resolved_layouts(),
            final(self).defered_stack() == old(self).resolved_defered(),
            final(self).next_layout is Some,
            final(self).next_layout->0@ == (LayoutM {
                mode: LayoutMode::Grid,
                min_width: cell_width as int,
                max_width: cell_width as int,
                min_height: cell_height as int,
                max_height: cell_height as int,
                w: sat_mul(cell_width as int, cols as int),
                h: sat_mul(cell_height as int, rows as int),
                grid_widths: Seq::new(cols as nat, |i: int| cell_width as int),
                grid_cols: cols as int,
                ..default_layout_m()
            }),
            final(self).next_layout->0.defered_seq() == Seq::<DeferedCommand>::empty(),
            *final(self) == (Context {
                layouts: final(self).layouts,
                commands: final(self).commands,
                next_layout: final(self).next_layout,
                next_align: final(self).next_align,
                id_prefix: final(self).id_prefix,
                ..*old(self)
            }),
    {
        self.try_commit();
        self.prefix_id(id);
        self.new_layout(LayoutMode::Grid);
        match &mut self.next_layout {
            Some(layout) => {
                layout.fixed_size(cell_width, cell_height);
                layout.grid(cols, rows, cell_width);
            },
            None => {},
        }
    }

    /// Close a grid container.
    pub fn grid_end(&mut self)
        requires
            old(self).ready(),
        ensures
            final(self).wf(),
            final(self).colors_ok(),
            old(self).resolved_layouts().len() >= 2 ==> final(self).ready(),
            layouts_of(final(self).layouts@) == old(self).resolved_layouts().drop_last(),
            final(self).defered_stack() == old(self).resolved_defered().drop_last(),
            final(self).prefix_m() == if old(self).prefix_m().len() > 0 {
                old(self).prefix_m().drop_last()
            } else {
                old(self).prefix_m()
            },
            old(self).commands@.is_prefix_of(final(self).commands@),
            final(self).next_layout is None,
            *final(self) == (Context {
                layouts: final(self).layouts,
                commands: final(self).commands,
                next_layout: None,
                next_align: final(self).next_align,
                id_prefix: final(self).id_prefix,
                ..*old(self)
            }),
    {
        self.end_container();
    }

    /// Open a one-row-high grid whose columns have the given widths,
    /// for label/value panels with heterogeneous columns.
    pub fn flexgrid_begin(&mut self, id: &str, widths: &Vec<Coord>, height: Coord)
        requires
            old(self).ready(),
            1 <= widths@.len() <= COORD_LIMIT as usize,
            forall|i: int| 0 <= i < widths@.len() ==> in_coord_range(#[trigger] widths@[i] as int),
            in_coord_range(height as int),
        ensures
            final(self).ready(),
            old(self).commands@.is_prefix_of(final(self).commands@),
            final(self).prefix_m() == old(self).prefix_m().push(id@),
            layouts_of(final(self).layouts@) == old(self).resolved_layouts(),
            final(self).defered_stack() == old(self).resolved_defered(),
            final(self).next_layout is Some,
            final(self).next_layout->0@ == (LayoutM {
                mode: LayoutMode::Grid,
                min_width: widths@[0] as int,
                max_width: widths@[0] as int,
                min_height: height as int,
                max_height: 1,
                w: sat_sum(widths@.map(|i: int, v: Coord| v as int)),
                h: imax(1, height as int),
                grid_widths: widths@.map(|i: int, v: Coord| v as int),
                grid_cols: widths@.len() as int,
                ..default_layout_m()
            }),
            final(self).next_layout->0.defered_seq() == Seq::<DeferedCommand>::empty(),
            *final(self) == (Context {
                layouts: final(self).layouts,
                commands: final(self).commands,
                next_layout: final(self).next_layout,
                next_align: final(self).next_align,
                id_prefix: final(self).id_prefix,
                ..*old(self)
            }),
    {
        self.try_commit();
        self.prefix_id(id);
        self.new_layout(LayoutMode::Grid);
        match &mut self.next_layout {
            Some(layout) => {
                layout.flexgrid(widths);
                layout.min_height(height);
            },
            None => {},
        }
    }

    /// Close a flexible grid container.
    pub fn flexgrid_end(&mut self)
        requires
            old(self).ready(),
        ensures
            final(self).wf(),
            final(self).colors_ok(),
            old(self).resolved_layouts().len() >= 2 ==> final(self).ready(),
            layouts_of(final(self).layouts@) == old(self).resolved_layouts().drop_last(),
            final(self).defered_stack() == old(self).resolved_defered().drop_last(),
            final(self).prefix_m() == if old(self).prefix_m().len() > 0 {
                old(self).prefix_m().drop_last()
            } else {
                old(self).prefix_m()
            },
            old(self).commands@.is_prefix_of(final(self).commands@),
            final(self).next_layout is None,
            *final(self) == (Context {
                layouts: final(self).layouts,
                commands: final(self).commands,
                next_layout: None,
                next_align: final(self).next_align,
                id_prefix: final(self).id_prefix,
                ..*old(self)
            }),
    {
        self.end_container();
    }

    // =======================================================
    //
    // Windows and frames
    //
    // =======================================================
    /// A vertical container pinned at an absolute position and size.
    pub fn window_begin(&mut self, id: &str, x: Coord, y: Coord, width: Coord, height: Coord)
        requires
            old(self).ready(),
            in_coord_range(x as int),
            in_coord_range(y as int),
            in_coord_range(width as int),
            in_coord_range(height as int),
        ensures
            final(self).ready(),
            old(self).commands@.is_prefix_of(final(self).commands@),
            final(self).prefix_m() == old(self).prefix_m().push(id@),
            layouts_of(final(self).layouts@) == old(self).resolved_layouts(),
            final(self).defered_stack() == old(self).resolved_defered(),
            final(self).next_layout is Some,
            final(self).next_layout->0@ == (LayoutM {
                mode: LayoutMode::Vertical,
                min_height: height as int,
                x: x as int,
                y: y as int,
                w: width as int,
                h: height as int,
                cx: x as int,
                cy: y as int,
                commited: true,
                ..default_layout_m()
            }),
            final(self).next_layout->0.defered_seq() == Seq::<DeferedCommand>::empty(),
            *final(self) == (Context {
                layouts: final(self).layouts,
                commands: final(self).commands,
                next_layout: final(self).next_layout,
                next_align: final(self).next_align,
                id_prefix: final(self).id_prefix,
                ..*old(self)
            }),
    {
        self.vbox_begin(id, height);
        match &mut self.next_layout {
            Some(layout) => {
                layout.pos(x, y);
                layout.size(width, height);
            },
            None => {},
        }
    }

    /// Close a window.
    pub fn window_end(&mut self)
        requires
            old(self).ready(),
        ensures
            final(self).wf(),
            final(self).colors_ok(),
            old(self).resolved_layouts().len() >= 2 ==> final(self).ready(),
            layouts_of(final(self).layouts@) == old(self).resolved_layouts().drop_last(),
            final(self).defered_stack() == old(self).resolved_defered().drop_last(),
            final(self).prefix_m() == if old(self).prefix_m().len() > 0 {
                old(self).prefix_m().drop_last()
            } else {
                old(self).prefix_m()
            },
            old(self).commands@.is_prefix_of(final(self).commands@),
            final(self).next_layout is None,
            *final(self) == (Context {
                layouts: final(self).layouts,
                commands: final(self).commands,
                next_layout: None,
                next_align: final(self).next_align,
                id_prefix: final(self).id_prefix,
                ..*old(self)
            }),
    {
        self.vbox_end();
    }

    /// A vertical container with a drawn border and a centered
    /// title, one margin inside the border.
    pub fn frame_begin(&mut self, id: &str, title: &str, width: Coord, height: Coord)
        requires
            old(self).ready(),
            title@.len() <= COORD_LIMIT,
            in_coord_range(width as int),
            in_coord_range(height as int),
        ensures
            final(self).ready(),
            old(self).commands@.is_prefix_of(final(self).commands@),
            final(self).prefix_m() == old(self).prefix_m().push(id@),
            layouts_of(final(self).layouts@) == old(self).resolved_layouts(),
            final(self).defered_stack() == old(self).resolved_defered(),
            final(self).next_layout is Some,
            final(self).next_layout->0@ == (LayoutM {
                mode: LayoutMode::Vertical,
                margin: 1,
                min_width: width as int,
                max_width: width as int,
                min_height: height as int,
                max_height: height as int,
                w: width as int,
                h: height as int,
                cx: 1,
                cy: 1,
                ..default_layout_m()
            }),
            final(self).next_layout->0.defered_seq().len() == 1,
            defered_is_frame(
                final(self).next_layout->0.defered_seq()[0],
                title@,
                old(self).color_of(ColorCode::Background),
                old(self).color_of(ColorCode::Text),
            ),
            *final(self) == (Context {
                layouts: final(self).layouts,
                commands: final(self).commands,
                next_layout: final(self).next_layout,
                next_align: final(self).next_align,
                id_prefix: final(self).id_prefix,
                ..*old(self)
            }),
    {
        let back = self.get_color(ColorCode::Background);
        let fore = self.get_color(ColorCode::Text);
        self.vbox_begin(id, height);
        match &mut self.next_layout {
            Some(layout) => {
                layout.fixed_size(width, height);
                layout.margin(1);
                layout.defered(DeferedCommand::Frame(title.to_owned(), back, fore));
            },
            None => {},
        }
    }

    /// Close a framed container: its border and title are drawn over
    /// the final rectangle.
    pub fn frame_end(&mut self)
        requires
            old(self).ready(),
            old(self).resolved_defered().last().len() >= 1,
            old(self).resolved_defered().last()[0] matches DeferedCommand::Frame(_, _, _),
        ensures
            final(self).wf(),
            final(self).colors_ok(),
            old(self).resolved_layouts().len() >= 2 ==> final(self).in_frame(),
            layouts_of(final(self).layouts@) == old(self).resolved_layouts().drop_last(),
            final(self).defered_stack() == old(self).resolved_defered().drop_last(),
            final(self).prefix_m() == if old(self).prefix_m().len() > 0 {
                old(self).prefix_m().drop_last()
            } else {
                old(self).prefix_m()
            },
            old(self).commands@.is_prefix_of(final(self).commands@),
            final(self).commands@.len() >= old(self).commands@.len() + 1,
            ({
                let rm = old(self).resolved_layouts().last();
                let rect = Rect { x: rm.x as i64, y: rm.y as i64, w: rm.w as i64, h: rm.h as i64 };
                let title = old(self).resolved_defered().last()[0]->Frame_0@;
                cmd_is_frame(
                    final(self).commands@.last(),
                    if title.len() > rect.w - 2 {
                        title.take(imax(rect.w as int - 2, 0))
                    } else {
                        title
                    },
                    rect,
                    old(self).resolved_defered().last()[0]->Frame_1,
                    old(self).resolved_defered().last()[0]->Frame_2,
                )
            }),
            final(self).next_layout is None,
            *final(self) == (Context {
                layouts: final(self).layouts,
                commands: final(self).commands,
                next_layout: None,
                next_align: final(self).next_align,
                id_prefix: final(self).id_prefix,
                ..*old(self)
            }),
    {
        self.try_commit();
        let layout = self.layouts.pop().unwrap();
        let r = layout.area();
        let ds = layout.defered_iter();
        match &ds[0] {
            DeferedCommand::Frame(title, col, coltxt) => {
                let chars = chars_vec(title.as_str());
                let c = *col;
                let ct = *coltxt;
                self.render_frame(&chars, c, ct, r);
            },
            _ => {
                proof {
                    assert(false);
                }
            },
        }
        self.id_prefix.pop();
        proof {
            assert(layouts_of(self.layouts@) =~= old(self).resolved_layouts().drop_last());
            assert(self.defered_stack() =~= old(self).resolved_defered().drop_last());
            if old(self).prefix_m().len() > 0 {
                assert(self.prefix_m() =~= old(self).prefix_m().drop_last());
            } else {
                assert(self.prefix_m() =~= old(self).prefix_m());
            }
        }
    }

    /// A framed container pinned at an absolute position and size.
    pub fn frame_window_begin(&mut self, id: &str, title: &str, x: Coord, y: Coord, width: Coord, height: Coord)
        requires
            old(self).ready(),
            title@.len() <= COORD_LIMIT,
            in_coord_range(x as int),
            in_coord_range(y as int),
            in_coord_range(width as int),
            in_coord_range(height as int),
        ensures
            final(self).ready(),
            old(self).commands@.is_prefix_of(final(self).commands@),
            final(self).prefix_m() == old(self).prefix_m().push(id@),
            layouts_of(final(self).layouts@) == old(self).resolved_layouts(),
            final(self).defered_stack() == old(self).resolved_defered(),
            final(self).next_layout is Some,
            final(self).next_layout->0@ == (LayoutM {
                mode: LayoutMode::Vertical,
                margin: 1,
                min_width: width as int,
                max_width: width as int,
                min_height: height as int,
                max_height: height as int,
                x: x as int,
                y: y as int,
                w: width as int,
                h: height as int,
                cx: sat_add(x as int, 1),
                cy: sat_add(y as int, 1),
                commited: true,
                ..default_layout_m()
            }),
            final(self).next_layout->0.defered_seq().len() == 1,
            defered_is_frame(
                final(self).next_layout->0.defered_seq()[0],
                title@,
                old(self).color_of(ColorCode::Background),
                old(self).color_of(ColorCode::Text),
            ),
            *final(self) == (Context {
                layouts: final(self).layouts,
                commands: final(self).commands,
                next_layout: final(self).next_layout,
                next_align: final(self).next_align,
                id_prefix: final(self).id_prefix,
                ..*old(self)
            }),
    {
        self.frame_begin(id, title, width, height);
        match &mut self.next_layout {
            Some(layout) => {
                layout.pos(x, y);
                layout.size(width, height);
            },
            None => {},
        }
    }


    // =======================================================
    //
    // Collapsible panels and popups
    //
    // =======================================================
    /// A vertical panel under a header button that shows or hides
    /// it: clicking the header flips the stored open state, and the
    /// panel's height collapses to zero while closed. The open state
    /// is readable through `active`, the click edge through
    /// `pressed`.
    pub fn dropdown_panel_begin(&mut self, id: &str, title: &str, open: bool, width: Coord, height: Coord)
        requires
            old(self).ready(),
            title@.len() + 2 <= COORD_LIMIT,
            in_coord_range(width as int),
            in_coord_range(height as int),
        ensures
            final(self).ready(),
            old(self).commands@.is_prefix_of(final(self).commands@),
            final(self).prefix_m() == old(self).prefix_m().push(id@),
            final(self).last_id == id_of(old(self).prefix_m(), id@),
            ({
                let wid = id_of(old(self).prefix_m(), id@);
                let rm = old(self).widget_rect_m(title@.len() as int + 2, 1);
                let rect = Rect { x: rm.x as i64, y: rm.y as i64, w: rm.w as i64, h: rm.h as i64 };
                let over = rect.spec_contains(old(self).mouse_pos);
                let press = hover_next(over, wid, old(self).hover) == wid && old(self).mouse_pressed
                    == MOUSE_BUTTON_LEFT;
                let prev = if old(self).button_state@.contains_key(wid) {
                    old(self).button_state@[wid]
                } else if open {
                    1
                } else {
                    0
                };
                let now = if press {
                    (1 as i64).wrapping_sub(prev)
                } else {
                    prev
                };
                let on = now == 1;
                &&& final(self).button_state@ == old(self).button_state@.insert(wid, now)
                &&& final(self).active == on
                &&& final(self).pressed == press
                &&& final(self).hover == hover_next(over, wid, old(self).hover)
                &&& final(self).focus == focus_next(
                    over,
                    old(self).mouse_pressed != 0,
                    old(self).mouse_down,
                    false,
                    wid,
                    old(self).focus,
                )
                &&& final(self).next_layout is Some
                &&& final(self).next_layout->0@ == (LayoutM {
                    mode: LayoutMode::Vertical,
                    min_height: if on {
                        height as int
                    } else {
                        0
                    },
                    h: imax(
                        0,
                        if on {
                            height as int
                        } else {
                            0
                        },
                    ),
                    min_width: width as int,
                    w: imax(0, width as int),
                    ..default_layout_m()
                })
                &&& final(self).next_layout->0.defered_seq() == Seq::<DeferedCommand>::empty()
            }),
            *final(self) == (Context {
                layouts: final(self).layouts,
                commands: final(self).commands,
                next_layout: final(self).next_layout,
                next_align: final(self).next_align,
                id_prefix: final(self).id_prefix,
                last_id: final(self).last_id,
                hover: final(self).hover,
                focus: final(self).focus,
                pressed: final(self).pressed,
                active: final(self).active,
                button_state: final(self).button_state,
                ..*old(self)
            }),
    {
        let mut padded_title = String::from_str("  ");
        padded_title.append(title);
        proof {
            reveal_strlit("  ");
            assert(padded_title@.len() == title@.len() + 2);
        }
        self.button(id, padded_title.as_str());
        self.align(TextAlign::Left);
        self.min_width(width);
        let pressed = self.pressed();
        let button_id = self.last_id();
        let prev = self.bstate_ensure(button_id, if open {
            1
        } else {
            0
        });
        let now: i64 = if pressed {
            (1 as i64).wrapping_sub(prev)
        } else {
            prev
        };
        self.bstate_set(button_id, now);
        let on = now == 1;
        let focus = self.focus == button_id;
        let hover = self.hover == button_id;
        let fore = self.get_color(
            if hover {
                ColorCode::ButtonTextHover
            } else if focus {
                ColorCode::ButtonTextFocus
            } else {
                ColorCode::ButtonText
            },
        );
        self.defered(DeferedCommand::DropDown(on, fore));
        self.vbox_begin(id, if on {
            height
        } else {
            0
        });
        self.min_width(width);
        self.active = on;
        self.pressed = pressed;
    }

    /// Close a collapsible panel.
    pub fn dropdown_panel_end(&mut self)
        requires
            old(self).ready(),
        ensures
            final(self).wf(),
            final(self).colors_ok(),
            old(self).resolved_layouts().len() >= 2 ==> final(self).ready(),
            layouts_of(final(self).layouts@) == old(self).resolved_layouts().drop_last(),
            final(self).defered_stack() == old(self).resolved_defered().drop_last(),
            final(self).prefix_m() == if old(self).prefix_m().len() > 0 {
                old(self).prefix_m().drop_last()
            } else {
                old(self).prefix_m()
            },
            old(self).commands@.is_prefix_of(final(self).commands@),
            final(self).next_layout is None,
            *final(self) == (Context {
                layouts: final(self).layouts,
                commands: final(self).commands,
                next_layout: None,
                next_align: final(self).next_align,
                id_prefix: final(self).id_prefix,
                ..*old(self)
            }),
    {
        self.vbox_end();
    }

    /// A framed window with an automatic confirmation button at its
    /// bottom.
    pub fn popup_begin(&mut self, id: &str, title: &str, x: Coord, y: Coord, width: Coord, height: Coord)
        requires
            old(self).ready(),
            title@.len() <= COORD_LIMIT,
            in_coord_range(x as int),
            in_coord_range(y as int),
            in_coord_range(width as int),
            in_coord_range(height as int),
        ensures
            final(self).ready(),
            old(self).commands@.is_prefix_of(final(self).commands@),
            final(self).prefix_m() == old(self).prefix_m().push(id@),
            layouts_of(final(self).layouts@) == old(self).resolved_layouts(),
            final(self).defered_stack() == old(self).resolved_defered(),
            final(self).next_layout is Some,
            final(self).next_layout->0@ == (LayoutM {
                mode: LayoutMode::Vertical,
                margin: 1,
                min_width: width as int,
                max_width: width as int,
                min_height: height as int,
                max_height: height as int,
                x: x as int,
                y: y as int,
                w: width as int,
                h: height as int,
                cx: sat_add(x as int, 1),
                cy: sat_add(y as int, 1),
                commited: true,
                ..default_layout_m()
            }),
            final(self).next_layout->0.defered_seq().len() == 1,
            defered_is_frame(
                final(self).next_layout->0.defered_seq()[0],
                title@,
                old(self).color_of(ColorCode::Background),
                old(self).color_of(ColorCode::Text),
            ),
            *final(self) == (Context {
                layouts: final(self).layouts,
                commands: final(self).commands,
                next_layout: final(self).next_layout,
                next_align: final(self).next_align,
                id_prefix: final(self).id_prefix,
                ..*old(self)
            }),
    {
        self.frame_window_begin(id, title, x, y, width, height);
    }

    /// Close a popup: places its confirmation button, then closes
    /// the frame. The result says whether the button was clicked
    /// this frame.
    pub fn popup_end(&mut self) -> (r: bool)
        requires
            old(self).ready(),
            old(self).resolved_defered().last().len() >= 1,
            old(self).resolved_defered().last()[0] matches DeferedCommand::Frame(_, _, _),
        ensures
            final(self).wf(),
            final(self).colors_ok(),
            old(self).commands@.is_prefix_of(final(self).commands@),
            final(self).pressed == false,
            ({
                let wid = id_of(old(self).prefix_m(), "popup_ok"@);
                let rm = old(self).widget_rect_m("Ok"@.len() as int, 1);
                let rect = Rect { x: rm.x as i64, y: rm.y as i64, w: rm.w as i64, h: rm.h as i64 };
                let over = rect.spec_contains(old(self).mouse_pos);
                r == (hover_next(over, wid, old(self).hover) == wid && old(self).mouse_pressed
                    == MOUSE_BUTTON_LEFT)
            }),
            layouts_of(final(self).layouts@) == old(self).resolved_layouts().drop_last(),
            final(self).prefix_m() == if old(self).prefix_m().len() > 0 {
                old(self).prefix_m().drop_last()
            } else {
                old(self).prefix_m()
            },
            final(self).next_layout is None,
    {
        proof {
            reveal_strlit("Ok");
        }
        self.button("popup_ok", "Ok");
        let ret = self.pressed();
        self.frame_window_end();
        proof {
            let mid = old(self).resolved_layouts();
            assert(mid.update(
                mid.len() - 1,
                commit_parent_m(mid.last(), single_m("Ok"@.len() as int, 1)),
            ).drop_last() =~= mid.drop_last());
        }
        ret
    }

    /// Close a framed window.
    pub fn frame_window_end(&mut self)
        requires
            old(self).ready(),
            old(self).resolved_defered().last().len() >= 1,
            old(self).resolved_defered().last()[0] matches DeferedCommand::Frame(_, _, _),
        ensures
            final(self).wf(),
            final(self).colors_ok(),
            old(self).resolved_layouts().len() >= 2 ==> final(self).in_frame(),
            layouts_of(final(self).layouts@) == old(self).resolved_layouts().drop_last(),
            final(self).defered_stack() == old(self).resolved_defered().drop_last(),
            final(self).prefix_m() == if old(self).prefix_m().len() > 0 {
                old(self).prefix_m().drop_last()
            } else {
                old(self).prefix_m()
            },
            old(self).commands@.is_prefix_of(final(self).commands@),
            final(self).next_layout is None,
            *final(self) == (Context {
                layouts: final(self).layouts,
                commands: final(self).commands,
                next_layout: None,
                next_align: final(self).next_align,
                id_prefix: final(self).id_prefix,
                ..*old(self)
            }),
    {
        self.frame_end();
    }
}

} // verus!
