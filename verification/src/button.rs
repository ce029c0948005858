//! Push buttons, checkboxes, mutually-exclusive toggles, and
//! value-cycling list buttons.

use vstd::prelude::*;

use crate::COORD_LIMIT;
use crate::ColorCode;
use crate::Context;
use crate::DeferedCommand;
use crate::Id;
use crate::MOUSE_BUTTON_LEFT;
use crate::Rect;
use crate::TextAlign;
use crate::Command;
use crate::cadd;
use crate::chars_vec;
use crate::clone_chars;
use crate::cmax;
use crate::cmd_is_rect;
use crate::cmd_is_text;
use crate::dec_chars;
use crate::defered_is_button;
use crate::defered_is_checkbox;
use crate::focus_next;
use crate::hover_next;
use crate::id_of;
use crate::imax;
use crate::layout::commit_parent_m;
use crate::layouts_of;
use crate::sat_add;
use crate::single_m;
use crate::text_pos;
use crate::truncated_text;

verus! {

/// The caption a hovered list button shows with `display_count`:
/// the selected label truncated to leave room for a
/// `|index/count` suffix in decimal (each part held inside the
/// coordinate bound).
pub open spec fn counter_caption(label: Seq<char>, cur: int, count: int, w: int) -> Seq<char> {
    let disp = if cur >= i64::MAX {
        i64::MAX as int
    } else {
        cur + 1
    };
    let suffix0 = seq!['|'] + dec_chars(disp) + seq!['/'] + dec_chars(count);
    let suffix = if suffix0.len() > COORD_LIMIT {
        suffix0.take(COORD_LIMIT as int)
    } else {
        suffix0
    };
    let w0 = if w < 0 {
        0
    } else if w > COORD_LIMIT {
        COORD_LIMIT as int
    } else {
        w
    };
    let keep = if suffix.len() + label.len() > w0 {
        if w0 >= suffix.len() {
            w0 - suffix.len()
        } else {
            0
        }
    } else {
        label.len() as int
    };
    label.take(keep) + suffix
}

/// The identity was declared a member of this toggle group.
pub open spec fn in_group(pairs: Seq<(usize, Id)>, g: usize, id: Id) -> bool {
    pairs.contains((g, id))
}

impl Context {
    // =======================================================
    //
    // Buttons
    //
    // =======================================================
    /// A push button. Its one-shot pressed result (readable through
    /// `pressed`) is true exactly when the pointer is on it and the
    /// left button went down this frame.
    pub fn button(&mut self, id: &str, label: &str)
        requires
            old(self).ready(),
            label@.len() <= COORD_LIMIT,
        ensures
            final(self).ready(),
            final(self).last_id == id_of(old(self).prefix_m(), id@),
            old(self).commands@.is_prefix_of(final(self).commands@),
            final(self).defered_stack() == old(self).resolved_defered(),
            layouts_of(final(self).layouts@) == old(self).resolved_layouts().update(
                old(self).resolved_layouts().len() - 1,
                commit_parent_m(
                    old(self).resolved_layouts().last(),
                    single_m(label@.len() as int, 1),
                ),
            ),
            ({
                let wid = id_of(old(self).prefix_m(), id@);
                let rm = old(self).widget_rect_m(label@.len() as int, 1);
                let rect = Rect { x: rm.x as i64, y: rm.y as i64, w: rm.w as i64, h: rm.h as i64 };
                let over = rect.spec_contains(old(self).mouse_pos);
                let hovering = hover_next(over, wid, old(self).hover) == wid;
                let focusing = focus_next(
                    over,
                    old(self).mouse_pressed != 0,
                    old(self).mouse_down,
                    false,
                    wid,
                    old(self).focus,
                ) == wid;
                &&& final(self).hover == hover_next(over, wid, old(self).hover)
                &&& final(self).focus == focus_next(
                    over,
                    old(self).mouse_pressed != 0,
                    old(self).mouse_down,
                    false,
                    wid,
                    old(self).focus,
                )
                &&& final(self).pressed == (hovering && old(self).mouse_pressed
                    == MOUSE_BUTTON_LEFT)
                &&& final(self).next_layout is Some
                &&& final(self).next_layout->0@ == rm
                &&& final(self).next_layout->0.defered_seq().len() == 1
                &&& defered_is_button(
                    final(self).next_layout->0.defered_seq()[0],
                    label@,
                    old(self).color_of(
                        if hovering {
                            ColorCode::ButtonBackgroundHover
                        } else if focusing {
                            ColorCode::ButtonBackgroundFocus
                        } else {
                            ColorCode::ButtonBackground
                        },
                    ),
                    old(self).color_of(
                        if hovering {
                            ColorCode::ButtonTextHover
                        } else if focusing {
                            ColorCode::ButtonTextFocus
                        } else {
                            ColorCode::ButtonText
                        },
                    ),
                )
            }),
            *final(self) == (Context {
                layouts: final(self).layouts,
                commands: final(self).commands,
                next_layout: final(self).next_layout,
                next_align: final(self).next_align,
                last_id: final(self).last_id,
                hover: final(self).hover,
                focus: final(self).focus,
                pressed: final(self).pressed,
                ..*old(self)
            }),
    {
        self.try_commit();
        let wid = self.generate_id(id);
        let chars = chars_vec(label);
        let r = self.next_rectangle(chars.len() as i64, 1);
        self.update_control(wid, &r, false);
        let focus = self.focus == wid;
        let hover = self.hover == wid;
        self.pressed = hover && self.mouse_pressed == MOUSE_BUTTON_LEFT;
        let background_code = if hover {
            ColorCode::ButtonBackgroundHover
        } else if focus {
            ColorCode::ButtonBackgroundFocus
        } else {
            ColorCode::ButtonBackground
        };
        let foreground_code = if hover {
            ColorCode::ButtonTextHover
        } else if focus {
            ColorCode::ButtonTextFocus
        } else {
            ColorCode::ButtonText
        };
        let back = self.get_color(background_code);
        let fore = self.get_color(foreground_code);
        self.defered(DeferedCommand::Button(label.to_owned(), back, fore));
    }

    /// A checkbox: a left-aligned button captioned with two leading
    /// blanks for the glyph, whose stored on/off state flips on each
    /// press. Its state is readable through `active`.
    pub fn checkbox(&mut self, id: &str, label: &str, initial_state: bool)
        requires
            old(self).ready(),
            label@.len() + 2 <= COORD_LIMIT,
        ensures
            final(self).ready(),
            final(self).last_id == id_of(old(self).prefix_m(), id@),
            old(self).commands@.is_prefix_of(final(self).commands@),
            ({
                let wid = id_of(old(self).prefix_m(), id@);
                let rm = old(self).widget_rect_m(label@.len() as int + 2, 1);
                let rect = Rect { x: rm.x as i64, y: rm.y as i64, w: rm.w as i64, h: rm.h as i64 };
                let over = rect.spec_contains(old(self).mouse_pos);
                let press = hover_next(over, wid, old(self).hover) == wid && old(self).mouse_pressed
                    == MOUSE_BUTTON_LEFT;
                let prev = if old(self).button_state@.contains_key(wid) {
                    old(self).button_state@[wid]
                } else if initial_state {
                    1
                } else {
                    0
                };
                let now = if press {
                    (1 as i64).wrapping_sub(prev)
                } else {
                    prev
                };
                &&& final(self).button_state@ == old(self).button_state@.insert(wid, now)
                &&& final(self).active == (now == 1)
                &&& final(self).pressed == false
                &&& final(self).hover == hover_next(over, wid, old(self).hover)
                &&& final(self).focus == focus_next(
                    over,
                    old(self).mouse_pressed != 0,
                    old(self).mouse_down,
                    false,
                    wid,
                    old(self).focus,
                )
                &&& final(self).next_align == Some(TextAlign::Left)
                &&& final(self).next_layout is Some
                &&& final(self).next_layout->0@ == rm
                &&& final(self).next_layout->0.defered_seq().len() == 2
                &&& defered_is_checkbox(
                    final(self).next_layout->0.defered_seq()[1],
                    now == 1,
                    old(self).color_of(ColorCode::Text),
                )
            }),
            *final(self) == (Context {
                layouts: final(self).layouts,
                commands: final(self).commands,
                next_layout: final(self).next_layout,
                next_align: final(self).next_align,
                last_id: final(self).last_id,
                hover: final(self).hover,
                focus: final(self).focus,
                pressed: final(self).pressed,
                active: final(self).active,
                button_state: final(self).button_state,
                ..*old(self)
            }),
    {
        let mut padded_label = String::from_str("  ");
        padded_label.append(label);
        proof {
            reveal_strlit("  ");
            assert(padded_label@.len() == label@.len() + 2);
        }
        self.button(id, padded_label.as_str());
        self.align(TextAlign::Left);
        let pressed = self.pressed();
        let wid = self.last_id();
        let prev = self.bstate_ensure(wid, if initial_state {
            1
        } else {
            0
        });
        let checked: i64 = if pressed {
            (1 as i64).wrapping_sub(prev)
        } else {
            prev
        };
        self.bstate_set(wid, checked);
        let fore = self.get_color(ColorCode::Text);
        self.defered(DeferedCommand::CheckBox(checked == 1, fore));
        self.active = checked == 1;
        proof {
            assert(final(self).button_state@ =~= old(self).button_state@.insert(wid, checked));
        }
    }

    // =======================================================
    //
    // Toggle buttons
    //
    // =======================================================
    /// Select the mutual-exclusion group that subsequently declared
    /// toggles belong to.
    pub fn toggle_group(&mut self, group: usize)
        ensures
            *final(self) == (Context { cur_toggle_group: group, ..*old(self) }),
    {
        self.cur_toggle_group = group;
    }

    fn add_group_id(&mut self, group: usize, id: Id)
        ensures
            forall|g2: usize, k: Id|
                in_group(final(self).toggle_groups@, g2, k) <==> (in_group(
                    old(self).toggle_groups@,
                    g2,
                    k,
                ) || (g2 == group && k == id)),
            *final(self) == (Context { toggle_groups: final(self).toggle_groups, ..*old(self) }),
    {
        let ghost pairs0 = self.toggle_groups@;
        let n = self.toggle_groups.len();
        let mut i: usize = 0;
        while i < n
            invariant
                n == self.toggle_groups@.len(),
                self.toggle_groups@ == pairs0,
                0 <= i <= n,
                forall|j: int|
                    0 <= j < i ==> !((#[trigger] pairs0[j]).0 == group && pairs0[j].1 == id),
                *self == (Context { toggle_groups: self.toggle_groups, ..*old(self) }),
            decreases n - i,
        {
            let entry = self.toggle_groups[i];
            if entry.0 == group && entry.1 == id {
                proof {
                    assert(pairs0[i as int] == (group, id));
                    assert(pairs0.contains((group, id)));
                }
                return ;
            }
            i = i + 1;
        }
        self.toggle_groups.push((group, id));
        proof {
            let pf = self.toggle_groups@;
            assert(pf.last() == (group, id));
            assert(pf.contains((group, id)));
            assert forall|g2: usize, k: Id|
                in_group(pf, g2, k) implies (in_group(pairs0, g2, k) || (g2 == group && k
                == id)) by {
                if (g2, k) != (group, id) {
                    let w = choose|a: int| 0 <= a < pf.len() && pf[a] == (g2, k);
                    assert(pairs0[w] == (g2, k));
                    assert(pairs0.contains((g2, k)));
                }
            }
            assert forall|g2: usize, k: Id|
                (in_group(pairs0, g2, k) || (g2 == group && k == id)) implies in_group(
                pf,
                g2,
                k,
            ) by {
                if in_group(pairs0, g2, k) {
                    let w = choose|a: int| 0 <= a < pairs0.len() && pairs0[a] == (g2, k);
                    assert(pf[w] == (g2, k));
                    assert(pf.contains((g2, k)));
                }
            }
        }
    }

    fn disable_toggle_group(&mut self, group: usize)
        ensures
            forall|k: Id|
                #[trigger] in_group(old(self).toggle_groups@, group, k) ==> final(self).button_state@.contains_key(k) && final(self).button_state@[k] == 0,
            forall|k: Id|
                #![trigger in_group(old(self).toggle_groups@, group, k)]
                !in_group(old(self).toggle_groups@, group, k) ==> ((final(self).button_state@.contains_key(k) <==> old(self).button_state@.contains_key(k)) && (
                old(self).button_state@.contains_key(k) ==> final(self).button_state@[k] == old(self).button_state@[k])),
            *final(self) == (Context { button_state: final(self).button_state, ..*old(self) }),
    {
        let ghost pairs = self.toggle_groups@;
        let ghost bs0 = self.button_state@;
        let n = self.toggle_groups.len();
        let mut i: usize = 0;
        while i < n
            invariant
                n == self.toggle_groups@.len(),
                self.toggle_groups@ == pairs,
                0 <= i <= n,
                forall|k: Id|
                    #[trigger] in_group(pairs.take(i as int), group, k) ==> self
                        .button_state@.contains_key(k) && self.button_state@[k] == 0,
                forall|k: Id|
                    #![trigger in_group(pairs, group, k)]
                    !in_group(pairs, group, k) ==> ((self.button_state@.contains_key(k) <==> bs0
                        .contains_key(k)) && (bs0.contains_key(k) ==> self.button_state@[k]
                        == bs0[k])),
                *self == (Context { button_state: self.button_state, ..*old(self) }),
            decreases n - i,
        {
            let entry = self.toggle_groups[i];
            let ghost bs_prev = self.button_state@;
            if entry.0 == group {
                self.bstate_set(entry.1, 0);
                proof {
                    assert(pairs[i as int] == (group, entry.1));
                    assert(pairs.contains((group, entry.1)));
                    assert(in_group(pairs, group, entry.1));
                    assert(self.button_state@ == bs_prev.insert(entry.1, 0));
                    assert forall|k: Id| !in_group(pairs, group, k) implies ((self
                        .button_state@.contains_key(k) <==> bs0.contains_key(k)) && (bs0
                        .contains_key(k) ==> self.button_state@[k] == bs0[k])) by {
                        assert(k != entry.1);
                        assert((bs_prev.contains_key(k) <==> bs0.contains_key(k)) && (bs0
                            .contains_key(k) ==> bs_prev[k] == bs0[k]));
                        assert(self.button_state@.contains_key(k) == bs_prev.contains_key(k));
                        assert(bs_prev.contains_key(k) ==> self.button_state@[k] == bs_prev[k]);
                    }
                }
            }
            proof {
                assert forall|k: Id| #[trigger]
                    in_group(pairs.take(i as int + 1), group, k) implies self
                    .button_state@.contains_key(k) && self.button_state@[k] == 0 by {
                    let b = choose|b: int|
                        0 <= b < i + 1 && #[trigger] pairs.take(i as int + 1)[b] == (group, k);
                    if b < i {
                        assert(pairs.take(i as int)[b] == (group, k));
                        assert(pairs.take(i as int).contains((group, k)));
                        assert(in_group(pairs.take(i as int), group, k));
                    } else {
                        assert(pairs[i as int] == (group, k));
                    }
                }
            }
            i = i + 1;
        }
        proof {
            assert(pairs.take(n as int) =~= pairs);
        }
    }

    /// A button that switches between active and inactive when
    /// clicked. Turning one on forces every other toggle declared in
    /// the same group off, so at most one member of a group is
    /// active after any press. Its state is readable through
    /// `active`, the press edge through `pressed`.
    pub fn toggle(&mut self, id: &str, label: &str, active: bool)
        requires
            old(self).ready(),
            label@.len() <= COORD_LIMIT,
        ensures
            final(self).ready(),
            final(self).last_id == id_of(old(self).prefix_m(), id@),
            old(self).commands@.is_prefix_of(final(self).commands@),
            ({
                let wid = id_of(old(self).prefix_m(), id@);
                let rm = old(self).widget_rect_m(label@.len() as int, 1);
                let rect = Rect { x: rm.x as i64, y: rm.y as i64, w: rm.w as i64, h: rm.h as i64 };
                let over = rect.spec_contains(old(self).mouse_pos);
                let press = hover_next(over, wid, old(self).hover) == wid && old(self).mouse_pressed
                    == MOUSE_BUTTON_LEFT;
                let prev_on = (if old(self).button_state@.contains_key(wid) {
                    old(self).button_state@[wid]
                } else if active {
                    1
                } else {
                    0
                }) == 1;
                let on = if press {
                    !prev_on
                } else {
                    prev_on
                };
                let hovering = hover_next(over, wid, old(self).hover) == wid;
                let focusing = focus_next(
                    over,
                    old(self).mouse_pressed != 0,
                    old(self).mouse_down,
                    false,
                    wid,
                    old(self).focus,
                ) == wid;
                &&& final(self).pressed == press
                &&& final(self).active == on
                &&& final(self).hover == hover_next(over, wid, old(self).hover)
                &&& final(self).focus == focus_next(
                    over,
                    old(self).mouse_pressed != 0,
                    old(self).mouse_down,
                    false,
                    wid,
                    old(self).focus,
                )
                &&& final(self).button_state@.contains_key(wid)
                &&& final(self).button_state@[wid] == if on {
                    1 as i64
                } else {
                    0 as i64
                }
                &&& (press && !prev_on ==> forall|k: Id|
                    #![trigger final(self).button_state@.contains_key(k)]
                    k != wid && in_group(old(self).toggle_groups@, old(self).cur_toggle_group, k)
                        ==> final(self).button_state@.contains_key(k) && final(self).button_state@[k] == 0)
                &&& (forall|k: Id|
                    #![trigger final(self).button_state@.contains_key(k)]
                    k != wid && !in_group(old(self).toggle_groups@, old(self).cur_toggle_group, k)
                        ==> ((final(self).button_state@.contains_key(k) <==> old(self).button_state@.contains_key(k)) && (old(self).button_state@.contains_key(k)
                        ==> final(self).button_state@[k] == old(self).button_state@[k])))
                &&& (!(press && !prev_on) ==> forall|k: Id|
                    #![trigger final(self).button_state@.contains_key(k)]
                    k != wid ==> ((final(self).button_state@.contains_key(k) <==> old(self).button_state@.contains_key(k)) && (old(self).button_state@.contains_key(k)
                        ==> final(self).button_state@[k] == old(self).button_state@[k])))
                &&& (forall|g2: usize, k: Id|
                    in_group(final(self).toggle_groups@, g2, k) <==> (in_group(
                        old(self).toggle_groups@,
                        g2,
                        k,
                    ) || (g2 == old(self).cur_toggle_group && k == wid)))
                &&& final(self).next_layout is Some
                &&& final(self).next_layout->0@ == rm
                &&& final(self).next_layout->0.defered_seq().len() == 1
                &&& defered_is_button(
                    final(self).next_layout->0.defered_seq()[0],
                    label@,
                    old(self).color_of(
                        if on && !hovering {
                            ColorCode::ButtonBackgroundHover
                        } else if focusing || hovering {
                            ColorCode::ButtonBackgroundFocus
                        } else {
                            ColorCode::ButtonBackground
                        },
                    ),
                    old(self).color_of(
                        if on && !hovering {
                            ColorCode::ButtonTextHover
                        } else if focusing || hovering {
                            ColorCode::ButtonTextFocus
                        } else {
                            ColorCode::ButtonText
                        },
                    ),
                )
            }),
            *final(self) == (Context {
                layouts: final(self).layouts,
                commands: final(self).commands,
                next_layout: final(self).next_layout,
                next_align: final(self).next_align,
                last_id: final(self).last_id,
                hover: final(self).hover,
                focus: final(self).focus,
                pressed: final(self).pressed,
                active: final(self).active,
                button_state: final(self).button_state,
                toggle_groups: final(self).toggle_groups,
                ..*old(self)
            }),
    {
        self.try_commit();
        let wid = self.generate_id(id);
        let group = self.cur_toggle_group;
        self.add_group_id(group, wid);
        let ghost groups_aug = self.toggle_groups@;
        let chars = chars_vec(label);
        let r = self.next_rectangle(chars.len() as i64, 1);
        self.update_control(wid, &r, false);
        let focus = self.focus == wid;
        let hover = self.hover == wid;
        let pressed = hover && self.mouse_pressed == MOUSE_BUTTON_LEFT;
        let was_on = self.bstate_read(wid, if active {
            1
        } else {
            0
        }) == 1;
        let ghost bs_start = self.button_state@;
        if pressed && !was_on {
            self.disable_toggle_group(group);
        }
        let ghost bs_mid = self.button_state@;
        let on = if pressed {
            !was_on
        } else {
            was_on
        };
        self.bstate_set(wid, if on {
            1
        } else {
            0
        });
        proof {
            let g = old(self).cur_toggle_group;
            let bsf = self.button_state@;
            assert(bsf == bs_mid.insert(wid, if on {
                1 as i64
            } else {
                0 as i64
            }));
            if pressed && !was_on {
                assert forall|k: Id|
                    #![trigger bsf.contains_key(k)]
                    k != wid && in_group(old(self).toggle_groups@, g, k) implies bsf.contains_key(
                    k,
                ) && bsf[k] == 0 by {
                    assert(in_group(groups_aug, g, k));
                    assert(bs_mid.contains_key(k) && bs_mid[k] == 0);
                    assert(bsf.contains_key(k));
                }
                assert forall|k: Id|
                    #![trigger bsf.contains_key(k)]
                    k != wid && !in_group(old(self).toggle_groups@, g, k) implies ((bsf
                    .contains_key(k) <==> bs_start.contains_key(k)) && (bs_start.contains_key(k)
                    ==> bsf[k] == bs_start[k])) by {
                    assert(!in_group(groups_aug, g, k));
                    assert((bs_mid.contains_key(k) <==> bs_start.contains_key(k)) && (bs_start
                        .contains_key(k) ==> bs_mid[k] == bs_start[k]));
                    assert(bsf.contains_key(k) == bs_mid.contains_key(k));
                }
            } else {
                assert(bs_mid == bs_start);
                assert forall|k: Id|
                    #![trigger bsf.contains_key(k)]
                    k != wid implies ((bsf.contains_key(k) <==> bs_start.contains_key(k)) && (
                bs_start.contains_key(k) ==> bsf[k] == bs_start[k])) by {
                    assert(bsf.contains_key(k) == bs_mid.contains_key(k));
                }
            }
            assert(bs_start == old(self).button_state@);
        }
        let background_code = if on && !hover {
            ColorCode::ButtonBackgroundHover
        } else if focus || hover {
            ColorCode::ButtonBackgroundFocus
        } else {
            ColorCode::ButtonBackground
        };
        let foreground_code = if on && !hover {
            ColorCode::ButtonTextHover
        } else if focus || hover {
            ColorCode::ButtonTextFocus
        } else {
            ColorCode::ButtonText
        };
        let back = self.get_color(background_code);
        let fore = self.get_color(foreground_code);
        self.defered(DeferedCommand::Button(label.to_owned(), back, fore));
        self.pressed = pressed;
        self.active = on;
    }

    // =======================================================
    //
    // List buttons
    //
    // =======================================================
    /// Open a button that cycles through a list of values when
    /// clicked. Items follow, then `list_button_end` places the
    /// button.
    pub fn list_button_begin(&mut self, id: &str)
        requires
            old(self).ready(),
        ensures
            final(self).ready(),
            old(self).commands@.is_prefix_of(final(self).commands@),
            final(self).last_id == id_of(old(self).prefix_m(), id@),
            final(self).list_button_index == 0,
            final(self).list_button_width == 0,
            final(self).next_layout is None,
            ({
                let wid = id_of(old(self).prefix_m(), id@);
                final(self).button_state@ == old(self).button_state@.insert(
                    wid,
                    if old(self).button_state@.contains_key(wid) {
                        old(self).button_state@[wid]
                    } else {
                        0
                    },
                )
            }),
            final(self).button_state@.contains_key(final(self).last_id),
            *final(self) == (Context {
                layouts: final(self).layouts,
                commands: final(self).commands,
                next_layout: final(self).next_layout,
                next_align: final(self).next_align,
                last_id: final(self).last_id,
                list_button_index: 0,
                list_button_width: 0,
                button_state: final(self).button_state,
                ..*old(self)
            }),
    {
        self.try_commit();
        let wid = self.generate_id(id);
        self.list_button_index = 0;
        self.list_button_width = 0;
        self.bstate_ensure(wid, 0);
    }

    /// Declare one value of the list. Returns true when this is the
    /// currently selected value; that item's label is the one the
    /// closing call renders.
    pub fn list_button_item(&mut self, label: &str, align: TextAlign) -> (r: bool)
        requires
            old(self).ready(),
            label@.len() <= COORD_LIMIT,
            old(self).button_state@.contains_key(old(self).last_id),
            old(self).list_button_index < i64::MAX,
        ensures
            final(self).ready(),
            r == (old(self).button_state@[old(self).last_id] == old(self).list_button_index),
            final(self).list_button_index == old(self).list_button_index + 1,
            final(self).list_button_width as int == imax(
                old(self).list_button_width as int,
                label@.len() as int,
            ),
            r ==> final(self).list_button_label@ == label@ && final(self).list_button_align
                == align,
            !r ==> final(self).list_button_label@ == old(self).list_button_label@ && final(self).list_button_align == old(self).list_button_align,
            *final(self) == (Context {
                list_button_index: final(self).list_button_index,
                list_button_width: final(self).list_button_width,
                list_button_label: final(self).list_button_label,
                list_button_align: final(self).list_button_align,
                ..*old(self)
            }),
    {
        let chars = chars_vec(label);
        self.list_button_width = cmax(self.list_button_width, chars.len() as i64);
        let list_button_id = self.last_id();
        self.list_button_index = self.list_button_index + 1;
        let stored = self.bstate_read(list_button_id, 0);
        if stored != self.list_button_index - 1 {
            return false;
        }
        self.list_button_label = chars;
        self.list_button_align = align;
        true
    }

    /// Close the value list and place the button: one row high, two
    /// columns wider than the widest item. A click advances the
    /// stored selection index cyclically; the result says whether
    /// the selection changed this frame. With `display_count`, the
    /// label shows selection index and item count while hovered.
    pub fn list_button_end(&mut self, display_count: bool) -> (r: bool)
        requires
            old(self).ready(),
            old(self).next_layout is None,
            old(self).button_state@.contains_key(old(self).last_id),
            old(self).list_button_index > 0,
        ensures
            final(self).ready(),
            old(self).commands@.is_prefix_of(final(self).commands@),
            final(self).commands@.len() == old(self).commands@.len() + 2,
            ({
                let wid = old(self).last_id;
                let width = sat_add(old(self).list_button_width as int, 2);
                let rm = old(self).widget_rect_m(width, 1);
                let rect = Rect { x: rm.x as i64, y: rm.y as i64, w: rm.w as i64, h: rm.h as i64 };
                let over = rect.spec_contains(old(self).mouse_pos);
                let press = hover_next(over, wid, old(self).hover) == wid && old(self).mouse_pressed
                    == MOUSE_BUTTON_LEFT;
                let cur = old(self).button_state@[wid];
                let hovering = hover_next(over, wid, old(self).hover) == wid;
                let focusing = focus_next(
                    over,
                    old(self).mouse_pressed != 0,
                    old(self).mouse_down,
                    false,
                    wid,
                    old(self).focus,
                ) == wid;
                let n = final(self).commands@.len();
                &&& r == press
                &&& final(self).hover == hover_next(over, wid, old(self).hover)
                &&& final(self).focus == focus_next(
                    over,
                    old(self).mouse_pressed != 0,
                    old(self).mouse_down,
                    false,
                    wid,
                    old(self).focus,
                )
                &&& final(self).list_button_width as int == width
                &&& (press ==> final(self).button_state@ == old(self).button_state@.insert(
                    wid,
                    if cur >= i64::MAX || cur < 0 {
                        0 as i64
                    } else {
                        ((cur + 1) as i64) % old(self).list_button_index
                    },
                ))
                &&& (!press ==> final(self).button_state@ == old(self).button_state@)
                &&& cmd_is_rect(
                    final(self).commands@[n - 2],
                    rect,
                    old(self).color_of(
                        if hovering {
                            ColorCode::ButtonBackgroundHover
                        } else if focusing {
                            ColorCode::ButtonBackgroundFocus
                        } else {
                            ColorCode::ButtonBackground
                        },
                    ),
                )
                &&& (!(hovering && display_count) ==> cmd_is_text(
                    final(self).commands@[n - 1],
                    truncated_text(rect, old(self).list_button_label@, old(self).list_button_align),
                    text_pos(rect, old(self).list_button_label@, old(self).list_button_align),
                    old(self).color_of(ColorCode::Text),
                ))
                &&& (hovering && display_count ==> ({
                    let caption = counter_caption(
                        old(self).list_button_label@,
                        cur as int,
                        old(self).list_button_index as int,
                        rect.w as int,
                    );
                    cmd_is_text(
                        final(self).commands@[n - 1],
                        truncated_text(rect, caption, old(self).list_button_align),
                        text_pos(rect, caption, old(self).list_button_align),
                        old(self).color_of(ColorCode::Text),
                    )
                }))
            }),
            *final(self) == (Context {
                layouts: final(self).layouts,
                commands: final(self).commands,
                next_layout: final(self).next_layout,
                hover: final(self).hover,
                focus: final(self).focus,
                list_button_width: final(self).list_button_width,
                button_state: final(self).button_state,
                ..*old(self)
            }),
    {
        let list_button_id = self.last_id();
        self.list_button_width = cadd(self.list_button_width, 2);
        proof {
            assert(self.resolved_layouts() =~= old(self).resolved_layouts());
        }
        let r = self.next_rectangle(self.list_button_width, 1);
        proof {
            let width = sat_add(old(self).list_button_width as int, 2);
            let rm = old(self).widget_rect_m(width, 1);
            assert(r.x as int == rm.x);
            assert(r.y as int == rm.y);
            assert(r.w as int == rm.w);
            assert(r.h as int == rm.h);
            assert(r == (Rect { x: rm.x as i64, y: rm.y as i64, w: rm.w as i64, h: rm.h as i64 }));
        }
        self.update_control(list_button_id, &r, false);
        let focus = self.focus == list_button_id;
        let hover = self.hover == list_button_id;
        let pressed = hover && self.mouse_pressed == MOUSE_BUTTON_LEFT;
        let cur_index = self.bstate_read(list_button_id, 0);
        if pressed {
            let next_index: i64 = if cur_index >= i64::MAX || cur_index < 0 {
                0
            } else {
                (cur_index + 1) % self.list_button_index
            };
            self.bstate_set(list_button_id, next_index);
        }
        let background_code = if hover {
            ColorCode::ButtonBackgroundHover
        } else if focus {
            ColorCode::ButtonBackgroundFocus
        } else {
            ColorCode::ButtonBackground
        };
        let back = self.get_color(background_code);
        let fore = self.get_color(ColorCode::Text);
        self.draw_rect(r, back);
        let ghost c1 = self.commands@;
        if hover && display_count {
            let shown = self.counter_label(cur_index, r);
            self.draw_text(r, &shown, self.list_button_align, fore);
        } else {
            let label = clone_chars(&self.list_button_label);
            self.draw_text(r, &label, self.list_button_align, fore);
        }
        proof {
            assert(self.commands@.len() == old(self).commands@.len() + 2);
            assert(c1[c1.len() - 1] == Command::Rect(r, back));
            assert(c1.is_prefix_of(self.commands@));
            assert(c1 =~= self.commands@.subrange(0, c1.len() as int));
            assert(self.commands@.subrange(0, c1.len() as int)[c1.len() - 1] == self.commands@[c1.len() - 1]);
            assert(self.commands@[self.commands@.len() - 2] == Command::Rect(r, back));
            assert(cmd_is_rect(self.commands@[self.commands@.len() - 2], r, back));
        }
        pressed
    }

    /// The hovered counter caption: the selected label, truncated to
    /// leave room for a `|index/count` suffix.
    fn counter_label(&self, cur_index: i64, r: Rect) -> (shown: Vec<char>)
        requires
            self.ready(),
        ensures
            shown@ == counter_caption(
                self.list_button_label@,
                cur_index as int,
                self.list_button_index as int,
                r.w as int,
            ),
            shown@.len() <= 2 * COORD_LIMIT,
    {
        let disp: i64 = if cur_index >= i64::MAX {
            i64::MAX
        } else {
            cur_index + 1
        };
        let mut suffix: Vec<char> = Vec::new();
        suffix.push('|');
        let mut digits = crate::i64_to_chars(disp);
        suffix.append(&mut digits);
        suffix.push('/');
        let mut count_digits = crate::i64_to_chars(self.list_button_index);
        suffix.append(&mut count_digits);
        proof {
            assert(suffix@ =~= seq!['|'] + dec_chars(disp as int) + seq!['/'] + dec_chars(
                self.list_button_index as int,
            ));
        }
        if suffix.len() > COORD_LIMIT as usize {
            suffix.truncate(COORD_LIMIT as usize);
        }
        let w_us: usize = if r.w < 0 {
            0
        } else if r.w > COORD_LIMIT {
            COORD_LIMIT as usize
        } else {
            r.w as usize
        };
        let mut label = clone_chars(&self.list_button_label);
        let ghost lbl0 = label@;
        if suffix.len() + label.len() > w_us {
            let keep: usize = if w_us >= suffix.len() {
                w_us - suffix.len()
            } else {
                0
            };
            label.truncate(keep);
            proof {
                assert(lbl0 == self.list_button_label@);
                assert(label@ =~= lbl0.take(keep as int));
            }
        }
        proof {
            let lbl = self.list_button_label@;
            let disp_s = if cur_index as int >= i64::MAX {
                i64::MAX as int
            } else {
                cur_index as int + 1
            };
            let suffix0 = seq!['|'] + dec_chars(disp_s) + seq!['/'] + dec_chars(
                self.list_button_index as int,
            );
            let suffix_s = if suffix0.len() > COORD_LIMIT {
                suffix0.take(COORD_LIMIT as int)
            } else {
                suffix0
            };
            let w0 = if (r.w as int) < 0 {
                0
            } else if r.w as int > COORD_LIMIT {
                COORD_LIMIT as int
            } else {
                r.w as int
            };
            let keep_s = if suffix_s.len() + lbl.len() > w0 {
                if w0 >= suffix_s.len() {
                    w0 - suffix_s.len()
                } else {
                    0
                }
            } else {
                lbl.len() as int
            };
            assert(suffix@ =~= suffix_s);
            assert(w_us as int == w0);
            assert(label@ =~= lbl.take(keep_s));
        }
        let mut shown = label;
        shown.append(&mut suffix);
        proof {
            assert(shown@ =~= counter_caption(
                self.list_button_label@,
                cur_index as int,
                self.list_button_index as int,
                r.w as int,
            ));
        }
        shown
    }

    /// Force a toggle's stored state, as if it had been clicked (or
    /// unclicked) programmatically. Group exclusion is not applied.
    pub fn set_toggle_status(&mut self, toggle_id: Id, status: bool)
        ensures
            final(self).button_state@ == old(self).button_state@.insert(
                toggle_id,
                if status {
                    1 as i64
                } else {
                    0 as i64
                },
            ),
            *final(self) == (Context { button_state: final(self).button_state, ..*old(self) }),
    {
        self.bstate_set(toggle_id, if status {
            1
        } else {
            0
        });
    }
}

} // verus!
