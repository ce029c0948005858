//! Sliders dragged with the mouse, and the progress bar. Slider
//! values are integers; a fractional slider works on a fixed-point
//! scale chosen by the caller (the display adapter uses thousandths).

use vstd::prelude::*;

use crate::COORD_LIMIT;
use crate::ColorCode;
use crate::Context;
use crate::Coord;
use crate::MOUSE_BUTTON_LEFT;
use crate::Pos;
use crate::Rect;
use crate::TextAlign;
use crate::chars_vec;
use crate::cmd_is_line;
use crate::cmd_is_progress;
use crate::cmd_is_rect;
use crate::cmd_is_text;
use crate::focus_next;
use crate::hover_next;
use crate::id_of;
use crate::imax;
use crate::imin;
use crate::in_coord_range;
use crate::text_coord_ok;
use crate::text_pos;
use crate::truncated_text;

verus! {

/// A value clipped into a closed interval.
pub open spec fn clamp_i(v: int, lo: int, hi: int) -> int {
    if v < lo {
        lo
    } else if v > hi {
        hi
    } else {
        v
    }
}

/// Division truncating toward zero (for a positive divisor), as the
/// machine division behaves.
pub open spec fn tdiv(a: int, b: int) -> int {
    if a >= 0 {
        a / b
    } else {
        -((-a) / b)
    }
}

/// The value a drag produces: the grabbed value plus the pointer's
/// horizontal travel scaled by range over width, clipped into the
/// range.
pub open spec fn slider_drag_value(start: int, delta: int, min: int, max: int, width: int) -> int {
    clamp_i(start + tdiv(delta * (max - min), width), min, max)
}

/// Where the handle sits: the width scaled by the value's position
/// in the range, rounded, and kept inside the last column.
pub open spec fn slider_handle(w: int, v: int, min: int, max: int) -> int {
    imin(tdiv(2 * w * (v - min) + (max - min), 2 * (max - min)), w - 1)
}

/// A drag never leaves the slider's range, and overshooting the
/// range in either direction clamps the value exactly to the nearer
/// bound.
pub proof fn lemma_slider_clamp(start: int, delta: int, min: int, max: int, width: int)
    requires
        min < max,
        width >= 1,
    ensures
        min <= slider_drag_value(start, delta, min, max, width) <= max,
        start + tdiv(delta * (max - min), width) >= max ==> slider_drag_value(
            start,
            delta,
            min,
            max,
            width,
        ) == max,
        start + tdiv(delta * (max - min), width) <= min ==> slider_drag_value(
            start,
            delta,
            min,
            max,
            width,
        ) == min,
{
}

impl Context {
    /// An integer slider: drag it to sweep the stored value across
    /// `[min_val, max_val]`, one unit per `width / range` columns.
    /// The result is the value stored when the frame began (a drag
    /// shows up the next frame).
    pub fn islider(&mut self, id: &str, width: Coord, min_val: i64, max_val: i64, start_val: i64) -> (value: i64)
        requires
            old(self).ready(),
            min_val < max_val,
            min_val <= start_val <= max_val,
            1 <= width <= COORD_LIMIT,
        ensures
            final(self).ready(),
            old(self).commands@.is_prefix_of(final(self).commands@),
            final(self).commands@.len() >= old(self).commands@.len() + 3,
            final(self).last_id == id_of(old(self).prefix_m(), id@),
            ({
                let wid = id_of(old(self).prefix_m(), id@);
                let stored = if old(self).button_state@.contains_key(wid) {
                    old(self).button_state@[wid]
                } else {
                    start_val
                };
                let v = clamp_i(stored as int, min_val as int, max_val as int);
                let rm = old(self).widget_rect_m(width as int, 1);
                let rect = Rect { x: rm.x as i64, y: rm.y as i64, w: rm.w as i64, h: rm.h as i64 };
                let over = rect.spec_contains(old(self).mouse_pos);
                let focus2 = focus_next(
                    over,
                    old(self).mouse_pressed != 0,
                    old(self).mouse_down,
                    true,
                    wid,
                    old(self).focus,
                ) == wid;
                let dragging = focus2 && old(self).mouse_down == MOUSE_BUTTON_LEFT;
                &&& value == v
                &&& final(self).hover == hover_next(over, wid, old(self).hover)
                &&& final(self).focus == focus_next(
                    over,
                    old(self).mouse_pressed != 0,
                    old(self).mouse_down,
                    true,
                    wid,
                    old(self).focus,
                )
                &&& (dragging && !old(self).dnd_on ==> {
                    &&& final(self).dnd_on
                    &&& final(self).dnd_value == v
                    &&& final(self).dnd_start == old(self).mouse_pos
                    &&& final(self).button_state@ == old(self).button_state@.insert(wid, v as i64)
                })
                &&& (dragging && old(self).dnd_on ==> {
                    &&& final(self).dnd_on == old(self).dnd_on
                    &&& final(self).dnd_value == old(self).dnd_value
                    &&& final(self).dnd_start == old(self).dnd_start
                    &&& final(self).button_state@ == old(self).button_state@.insert(
                        wid,
                        slider_drag_value(
                            old(self).dnd_value as int,
                            old(self).mouse_pos.x - old(self).dnd_start.x,
                            min_val as int,
                            max_val as int,
                            width as int,
                        ) as i64,
                    )
                })
                &&& (!dragging ==> {
                    &&& final(self).dnd_on == (if old(self).focus == wid {
                        false
                    } else {
                        old(self).dnd_on
                    })
                    &&& final(self).button_state@ == old(self).button_state@.insert(wid, v as i64)
                })
                &&& ({
                    let n = final(self).commands@.len();
                    let active = focus2 || hover_next(over, wid, old(self).hover) == wid;
                    let handle = rm.x + slider_handle(rm.w, v, min_val as int, max_val as int);
                    &&& cmd_is_rect(
                        final(self).commands@[n - 3],
                        rect,
                        old(self).color_of(
                            if active {
                                ColorCode::ButtonBackgroundHover
                            } else {
                                ColorCode::ButtonBackground
                            },
                        ),
                    )
                    &&& cmd_is_line(
                        final(self).commands@[n - 2],
                        Pos { x: rm.x as i64, y: rm.y as i64 },
                        Pos { x: (rm.x + rm.w) as i64, y: (rm.y + rm.h) as i64 },
                        old(self).color_of(ColorCode::Text),
                    )
                    &&& cmd_is_text(
                        final(self).commands@[n - 1],
                        seq!['|'],
                        Pos { x: handle as i64, y: rm.y as i64 },
                        old(self).color_of(ColorCode::Text),
                    )
                })
            }),
    {
        self.slider_core(id, width, min_val, max_val, start_val, false)
    }

    /// A fractional slider on a fixed-point scale: callers pass the
    /// range and starting value pre-multiplied by their scale (the
    /// display adapter uses thousandths) and divide the result by
    /// it. Uses its own value store, so an integer slider with the
    /// same identity keeps separate state.
    pub fn fslider_scaled(&mut self, id: &str, width: Coord, min_val: i64, max_val: i64, start_val: i64) -> (value: i64)
        requires
            old(self).ready(),
            min_val < max_val,
            min_val <= start_val <= max_val,
            1 <= width <= COORD_LIMIT,
        ensures
            final(self).ready(),
            old(self).commands@.is_prefix_of(final(self).commands@),
            final(self).commands@.len() >= old(self).commands@.len() + 3,
            final(self).last_id == id_of(old(self).prefix_m(), id@),
            ({
                let wid = id_of(old(self).prefix_m(), id@);
                let stored = if old(self).slider_state@.contains_key(wid) {
                    old(self).slider_state@[wid]
                } else {
                    start_val
                };
                let v = clamp_i(stored as int, min_val as int, max_val as int);
                let rm = old(self).widget_rect_m(width as int, 1);
                let rect = Rect { x: rm.x as i64, y: rm.y as i64, w: rm.w as i64, h: rm.h as i64 };
                let over = rect.spec_contains(old(self).mouse_pos);
                let focus2 = focus_next(
                    over,
                    old(self).mouse_pressed != 0,
                    old(self).mouse_down,
                    true,
                    wid,
                    old(self).focus,
                ) == wid;
                let dragging = focus2 && old(self).mouse_down == MOUSE_BUTTON_LEFT;
                &&& value == v
                &&& final(self).hover == hover_next(over, wid, old(self).hover)
                &&& final(self).focus == focus_next(
                    over,
                    old(self).mouse_pressed != 0,
                    old(self).mouse_down,
                    true,
                    wid,
                    old(self).focus,
                )
                &&& (dragging && !old(self).dnd_on ==> {
                    &&& final(self).dnd_on
                    &&& final(self).dnd_value == v
                    &&& final(self).dnd_start == old(self).mouse_pos
                    &&& final(self).slider_state@ == old(self).slider_state@.insert(wid, v as i64)
                })
                &&& (dragging && old(self).dnd_on ==> {
                    &&& final(self).dnd_on == old(self).dnd_on
                    &&& final(self).dnd_value == old(self).dnd_value
                    &&& final(self).dnd_start == old(self).dnd_start
                    &&& final(self).slider_state@ == old(self).slider_state@.insert(
                        wid,
                        slider_drag_value(
                            old(self).dnd_value as int,
                            old(self).mouse_pos.x - old(self).dnd_start.x,
                            min_val as int,
                            max_val as int,
                            width as int,
                        ) as i64,
                    )
                })
                &&& (!dragging ==> {
                    &&& final(self).dnd_on == (if old(self).focus == wid {
                        false
                    } else {
                        old(self).dnd_on
                    })
                    &&& final(self).slider_state@ == old(self).slider_state@.insert(wid, v as i64)
                })
            }),
    {
        self.slider_core(id, width, min_val, max_val, start_val, true)
    }

    /// The shared drag state machine of both sliders.
    #[verifier::rlimit(60)]
    fn slider_core(&mut self, id: &str, width: Coord, min_val: i64, max_val: i64, start_val: i64, scaled: bool) -> (value: i64)
        requires
            old(self).ready(),
            min_val < max_val,
            min_val <= start_val <= max_val,
            1 <= width <= COORD_LIMIT,
        ensures
            final(self).ready(),
            old(self).commands@.is_prefix_of(final(self).commands@),
            final(self).commands@.len() >= old(self).commands@.len() + 3,
            final(self).last_id == id_of(old(self).prefix_m(), id@),
            ({
                let wid = id_of(old(self).prefix_m(), id@);
                let store0 = if scaled {
                    old(self).slider_state@
                } else {
                    old(self).button_state@
                };
                let stored = if store0.contains_key(wid) {
                    store0[wid]
                } else {
                    start_val
                };
                let v = clamp_i(stored as int, min_val as int, max_val as int);
                let rm = old(self).widget_rect_m(width as int, 1);
                let rect = Rect { x: rm.x as i64, y: rm.y as i64, w: rm.w as i64, h: rm.h as i64 };
                let over = rect.spec_contains(old(self).mouse_pos);
                let focus2 = focus_next(
                    over,
                    old(self).mouse_pressed != 0,
                    old(self).mouse_down,
                    true,
                    wid,
                    old(self).focus,
                ) == wid;
                let dragging = focus2 && old(self).mouse_down == MOUSE_BUTTON_LEFT;
                let store1 = if scaled {
                    final(self).slider_state@
                } else {
                    final(self).button_state@
                };
                let other_same = if scaled {
                    final(self).button_state@ == old(self).button_state@
                } else {
                    final(self).slider_state@ == old(self).slider_state@
                };
                &&& value == v
                &&& other_same
                &&& final(self).hover == hover_next(over, wid, old(self).hover)
                &&& final(self).focus == focus_next(
                    over,
                    old(self).mouse_pressed != 0,
                    old(self).mouse_down,
                    true,
                    wid,
                    old(self).focus,
                )
                &&& (dragging && !old(self).dnd_on ==> {
                    &&& final(self).dnd_on
                    &&& final(self).dnd_value == v
                    &&& final(self).dnd_start == old(self).mouse_pos
                    &&& store1 == store0.insert(wid, v as i64)
                })
                &&& (dragging && old(self).dnd_on ==> {
                    &&& final(self).dnd_on == old(self).dnd_on
                    &&& final(self).dnd_value == old(self).dnd_value
                    &&& final(self).dnd_start == old(self).dnd_start
                    &&& store1 == store0.insert(
                        wid,
                        slider_drag_value(
                            old(self).dnd_value as int,
                            old(self).mouse_pos.x - old(self).dnd_start.x,
                            min_val as int,
                            max_val as int,
                            width as int,
                        ) as i64,
                    )
                })
                &&& (!dragging ==> {
                    &&& final(self).dnd_on == (if old(self).focus == wid {
                        false
                    } else {
                        old(self).dnd_on
                    })
                    &&& store1 == store0.insert(wid, v as i64)
                })
                &&& ({
                    let n = final(self).commands@.len();
                    let active = focus2 || hover_next(over, wid, old(self).hover) == wid;
                    let handle = rm.x + slider_handle(rm.w, v, min_val as int, max_val as int);
                    &&& cmd_is_rect(
                        final(self).commands@[n - 3],
                        rect,
                        old(self).color_of(
                            if active {
                                ColorCode::ButtonBackgroundHover
                            } else {
                                ColorCode::ButtonBackground
                            },
                        ),
                    )
                    &&& cmd_is_line(
                        final(self).commands@[n - 2],
                        Pos { x: rm.x as i64, y: rm.y as i64 },
                        Pos { x: (rm.x + rm.w) as i64, y: (rm.y + rm.h) as i64 },
                        old(self).color_of(ColorCode::Text),
                    )
                    &&& cmd_is_text(
                        final(self).commands@[n - 1],
                        seq!['|'],
                        Pos { x: handle as i64, y: rm.y as i64 },
                        old(self).color_of(ColorCode::Text),
                    )
                })
            }),
    {
        self.try_commit();
        let wid = self.generate_id(id);
        let stored = if scaled {
            self.sstate_ensure(wid, start_val)
        } else {
            self.bstate_ensure(wid, start_val)
        };
        let value: i64 = if stored < min_val {
            min_val
        } else if stored > max_val {
            max_val
        } else {
            stored
        };
        if scaled {
            self.sstate_set(wid, value);
        } else {
            self.bstate_set(wid, value);
        }
        let r = self.next_rectangle(width, 1);
        let was_focus = self.focus == wid;
        self.update_control(wid, &r, true);
        let focus = self.focus == wid;
        let hover = self.hover == wid;
        let dragging = focus && self.mouse_down == MOUSE_BUTTON_LEFT;
        if dragging {
            if !self.dnd_on {
                self.start_dnd(value);
            } else {
                let delta: i128 = self.mouse_pos.x as i128 - self.dnd_start.x as i128;
                proof {
                    assert(-0x1000000000000000000000000000 <= (delta as int) * (max_val as int
                        - min_val as int) <= 0x1000000000000000000000000000) by (nonlinear_arith)
                        requires
                            -2 * COORD_LIMIT <= delta as int <= 2 * COORD_LIMIT,
                            0 < max_val as int - (min_val as int) < 0x20000000000000000,
                    ;
                }
                let num: i128 = delta * (max_val as i128 - min_val as i128);
                let q: i128 = if num >= 0 {
                    num / (width as i128)
                } else {
                    -((-num) / (width as i128))
                };
                let raw: i128 = self.dnd_value as i128 + q;
                let new_value: i64 = if raw < min_val as i128 {
                    min_val
                } else if raw > max_val as i128 {
                    max_val
                } else {
                    raw as i64
                };
                if scaled {
                    self.sstate_set(wid, new_value);
                } else {
                    self.bstate_set(wid, new_value);
                }
            }
        } else if was_focus {
            self.dnd_on = false;
        }
        let handle_off: i64 = slider_handle_exec(r.w, value, min_val, max_val);
        let handle_pos: i64 = r.x + handle_off;
        proof {
            assert(text_coord_ok(handle_pos as int));
        }
        self.draw_slider(r, handle_pos, focus || hover);
        value
    }

    /// Draw a slider's groove, line, and handle glyph.
    fn draw_slider(&mut self, r: Rect, handle_pos: Coord, active: bool)
        requires
            old(self).ready(),
            text_coord_ok(handle_pos as int),
            in_coord_range(r.x as int),
            in_coord_range(r.y as int),
            in_coord_range(r.w as int),
            in_coord_range(r.h as int),
        ensures
            final(self).ready(),
            old(self).commands@.is_prefix_of(final(self).commands@),
            final(self).commands@.len() >= old(self).commands@.len() + 3,
            cmd_is_rect(
                final(self).commands@[final(self).commands@.len() - 3],
                r,
                old(self).color_of(
                    if active {
                        ColorCode::ButtonBackgroundHover
                    } else {
                        ColorCode::ButtonBackground
                    },
                ),
            ),
            cmd_is_line(
                final(self).commands@[final(self).commands@.len() - 2],
                Pos { x: r.x, y: r.y },
                Pos { x: (r.x + r.w) as i64, y: (r.y + r.h) as i64 },
                old(self).color_of(ColorCode::Text),
            ),
            cmd_is_text(
                final(self).commands@[final(self).commands@.len() - 1],
                seq!['|'],
                Pos { x: handle_pos, y: r.y },
                old(self).color_of(ColorCode::Text),
            ),
            *final(self) == (Context { commands: final(self).commands, ..*old(self) }),
    {
        let back = self.get_color(
            if active {
                ColorCode::ButtonBackgroundHover
            } else {
                ColorCode::ButtonBackground
            },
        );
        self.draw_rect(r, back);
        let fore = self.get_color(ColorCode::Text);
        self.draw_line(r.x, r.y, r.x + r.w, r.y + r.h, fore);
        let handle_area = Rect { x: handle_pos, y: r.y, w: 1, h: 1 };
        let mut glyph: Vec<char> = Vec::new();
        glyph.push('|');
        let ghost c2 = self.commands@;
        self.draw_text(handle_area, &glyph, TextAlign::Left, fore);
        proof {
            assert(glyph@ =~= seq!['|']);
            assert(truncated_text(handle_area, seq!['|'], TextAlign::Left) =~= seq!['|']);
            assert(text_pos(handle_area, seq!['|'], TextAlign::Left) == (Pos {
                x: handle_pos,
                y: r.y,
            }));
            assert(c2.is_prefix_of(self.commands@));
            assert(c2 =~= self.commands@.subrange(0, c2.len() as int));
            assert(self.commands@.subrange(0, c2.len() as int)[c2.len() - 1]
                == self.commands@[c2.len() - 1]);
            assert(self.commands@.subrange(0, c2.len() as int)[c2.len() - 2]
                == self.commands@[c2.len() - 2]);
        }
    }

    /// A horizontal progress bar filled to the value's position in
    /// `[min_value, max_value]`; the fill coefficient is emitted in
    /// thousandths. An optional message is drawn over it.
    pub fn progress_bar(&mut self, width: Coord, min_value: i64, max_value: i64, value: i64, msg: Option<&str>)
        requires
            old(self).ready(),
            min_value < max_value,
            1 <= width <= COORD_LIMIT,
            msg is Some ==> msg->0@.len() <= COORD_LIMIT,
        ensures
            final(self).ready(),
            old(self).commands@.is_prefix_of(final(self).commands@),
            ({
                let rm = old(self).widget_rect_m(width as int, 1);
                let rect = Rect { x: rm.x as i64, y: rm.y as i64, w: rm.w as i64, h: rm.h as i64 };
                let cval = clamp_i(value as int, min_value as int, max_value as int);
                let permille = (cval - min_value) * 1000 / (max_value as int - min_value as int);
                let n = final(self).commands@.len();
                &&& (msg is None ==> n >= old(self).commands@.len() + 1)
                &&& (msg is Some ==> n >= old(self).commands@.len() + 2)
                &&& cmd_is_progress(
                    final(self).commands@[if msg is Some {
                        n - 2
                    } else {
                        n - 1
                    }],
                    rect,
                    permille as u32,
                    old(self).color_of(ColorCode::ProgressBack),
                    old(self).color_of(ColorCode::ProgressFore),
                )
                &&& (msg is Some ==> ({
                    let align = if old(self).next_align is Some {
                        old(self).next_align->0
                    } else {
                        TextAlign::Center
                    };
                    cmd_is_text(
                        final(self).commands@[n - 1],
                        truncated_text(rect, msg->0@, align),
                        text_pos(rect, msg->0@, align),
                        old(self).color_of(ColorCode::ProgressText),
                    ) || cmd_is_text(
                        final(self).commands@[n - 1],
                        truncated_text(rect, msg->0@, TextAlign::Center),
                        text_pos(rect, msg->0@, TextAlign::Center),
                        old(self).color_of(ColorCode::ProgressText),
                    )
                }))
            }),
            msg is Some ==> final(self).next_align is None,
            msg is None ==> (final(self).next_align == old(self).next_align || final(self).next_align is None),
            *final(self) == (Context {
                layouts: final(self).layouts,
                commands: final(self).commands,
                next_layout: final(self).next_layout,
                next_align: final(self).next_align,
                ..*old(self)
            }),
    {
        self.try_commit();
        let r = self.next_rectangle(width, 1);
        let cval: i64 = if value < min_value {
            min_value
        } else if value > max_value {
            max_value
        } else {
            value
        };
        let num: i128 = (cval as i128 - min_value as i128) * 1000;
        let permille: u32 = (num / (max_value as i128 - min_value as i128)) as u32;
        proof {
            assert(num >= 0 && 0 <= (num as int) / (max_value as int - min_value as int)
                <= 1000) by (nonlinear_arith)
                requires
                    num == (cval as int - min_value as int) * 1000,
                    min_value as int <= cval as int <= max_value as int,
                    max_value as int - min_value as int >= 1,
            ;
        }
        let back = self.get_color(ColorCode::ProgressBack);
        let fore = self.get_color(ColorCode::ProgressFore);
        self.draw_progress(r, permille, back, fore);
        let ghost c1 = self.commands@;
        match msg {
            Some(m) => {
                let align = match self.next_align.take() {
                    Some(a) => a,
                    None => TextAlign::Center,
                };
                let chars = chars_vec(m);
                let coltxt = self.get_color(ColorCode::ProgressText);
                self.draw_text(r, &chars, align, coltxt);
                proof {
                    assert(c1.is_prefix_of(self.commands@));
                    assert(c1 =~= self.commands@.subrange(0, c1.len() as int));
                    assert(self.commands@.subrange(0, c1.len() as int)[c1.len() - 1]
                        == self.commands@[c1.len() - 1]);
                }
            },
            None => {},
        }
    }
}

/// The handle offset inside the slider's rectangle.
fn slider_handle_exec(w: Coord, v: i64, min_val: i64, max_val: i64) -> (off: i64)
    requires
        min_val < max_val,
        min_val <= v <= max_val,
        in_coord_range(w as int),
    ensures
        off as int == slider_handle(w as int, v as int, min_val as int, max_val as int),
        -2 * COORD_LIMIT <= off as int <= 2 * COORD_LIMIT,
{
    let range: i128 = max_val as i128 - min_val as i128;
    proof {
        assert(-0x1000000000000000000000000000 <= 2 * (w as int) * (v as int - min_val as int)
            <= 0x1000000000000000000000000000) by (nonlinear_arith)
            requires
                -COORD_LIMIT <= w as int <= COORD_LIMIT,
                0 <= v as int - (min_val as int) < 0x20000000000000000,
        ;
    }
    let num: i128 = 2 * (w as i128) * (v as i128 - min_val as i128) + range;
    let c: i128 = if num >= 0 {
        num / (2 * range)
    } else {
        -((-num) / (2 * range))
    };
    proof {
        assert((num as int) >= 0 ==> 0 <= (num as int) / (2 * (range as int)) <= imax(
            w as int,
            0,
        )) by (nonlinear_arith)
            requires
                num == 2 * (w as int) * (v as int - min_val as int) + range,
                range == max_val as int - min_val as int,
                range >= 1,
                0 <= v as int - min_val as int <= range,
                -COORD_LIMIT <= w as int <= COORD_LIMIT,
        ;
        assert((num as int) < 0 ==> 0 <= (-(num as int)) / (2 * (range as int)) <= imax(
            -(w as int),
            0,
        )) by (nonlinear_arith)
            requires
                num == 2 * (w as int) * (v as int - min_val as int) + range,
                range == max_val as int - min_val as int,
                range >= 1,
                0 <= v as int - min_val as int <= range,
                -COORD_LIMIT <= w as int <= COORD_LIMIT,
        ;
    }
    let c64: i64 = c as i64;
    if c64 <= w - 1 {
        c64
    } else {
        w - 1
    }
}

} // verus!
