//! The text box: editable single-line text with a grapheme-cluster
//! cursor and a horizontal scroll offset. Content is stored as its
//! sequence of grapheme clusters so cursor movement and deletion
//! operate on user-perceived characters.

use unicode_segmentation::UnicodeSegmentation;
use vstd::prelude::*;

use crate::COORD_LIMIT;
use crate::ColorCode;
use crate::Context;
use crate::DeferedCommand;
use crate::Id;
use crate::MOUSE_BUTTON_LEFT;
use crate::Rect;
use crate::SpecialKey;
use crate::TextBoxState;
use crate::defered_is_label;
use crate::focus_next;
use crate::hover_next;
use crate::id_of;
use crate::imax;
use crate::imin;

verus! {

/// How many frames one blink period of the text cursor lasts.
pub const CURSOR_DELAY: usize = 10;

/// The grapheme clusters of a string, a function of the text alone.
pub uninterp spec fn graphemes_of(s: Seq<char>) -> Seq<Seq<char>>;

/// Relies on `unicode_segmentation`'s `graphemes(true)`: the
/// extended grapheme clusters of a string, in order; they are
/// consecutive substrings that concatenate back to the string, and
/// the empty string has none.
#[verifier::external_body]
fn split_graphemes(s: &str) -> (r: Vec<String>)
    ensures
        r.deep_view() == graphemes_of(s@),
        r.deep_view().flatten() == s@,
        s@.len() == 0 ==> r.deep_view().len() == 0,
{
    s.graphemes(true).map(|g: &str| g.to_owned()).collect()
}

/// The content after one editing key: Backspace deletes before the
/// cursor, Delete at it; the others only move the cursor.
pub open spec fn key_value(v: Seq<Seq<char>>, c: int, k: SpecialKey) -> Seq<Seq<char>> {
    match k {
        SpecialKey::Backspace => if c > 0 {
            v.remove(c - 1)
        } else {
            v
        },
        SpecialKey::Delete => if c < v.len() {
            v.remove(c)
        } else {
            v
        },
        _ => v,
    }
}

/// The cursor after one editing key.
pub open spec fn key_cursor(v: Seq<Seq<char>>, c: int, k: SpecialKey) -> int {
    match k {
        SpecialKey::Backspace => if c > 0 {
            c - 1
        } else {
            c
        },
        SpecialKey::Delete => c,
        SpecialKey::Left => if c > 0 {
            c - 1
        } else {
            c
        },
        SpecialKey::Right => if c < v.len() {
            c + 1
        } else {
            c
        },
        SpecialKey::Home => 0,
        SpecialKey::End => v.len() as int,
    }
}

/// The content after a queue of editing keys, applied in order.
pub open spec fn keys_value(v: Seq<Seq<char>>, c: int, keys: Seq<SpecialKey>) -> Seq<Seq<char>>
    decreases keys.len(),
{
    if keys.len() == 0 {
        v
    } else {
        keys_value(key_value(v, c, keys[0]), key_cursor(v, c, keys[0]), keys.drop_first())
    }
}

/// The cursor after a queue of editing keys, applied in order.
pub open spec fn keys_cursor(v: Seq<Seq<char>>, c: int, keys: Seq<SpecialKey>) -> int
    decreases keys.len(),
{
    if keys.len() == 0 {
        c
    } else {
        keys_cursor(key_value(v, c, keys[0]), key_cursor(v, c, keys[0]), keys.drop_first())
    }
}

/// Inserted graphemes split the content at the cursor.
pub open spec fn spliced(v: Seq<Seq<char>>, c: int, g: Seq<Seq<char>>) -> Seq<Seq<char>> {
    v.take(c) + g + v.skip(c)
}

/// Editing keys keep the cursor inside the content.
pub proof fn lemma_keys_cursor_in_bounds(v: Seq<Seq<char>>, c: int, keys: Seq<SpecialKey>)
    requires
        0 <= c <= v.len(),
    ensures
        0 <= keys_cursor(v, c, keys) <= keys_value(v, c, keys).len(),
    decreases keys.len(),
{
    if keys.len() > 0 {
        lemma_keys_cursor_in_bounds(
            key_value(v, c, keys[0]),
            key_cursor(v, c, keys[0]),
            keys.drop_first(),
        );
    }
}

/// Typing a text and pressing Backspace once removes exactly the
/// last inserted grapheme: the content keeps all but the last of the
/// insertion and the cursor sits right after it.
pub proof fn lemma_insert_then_backspace(v: Seq<Seq<char>>, c: int, g: Seq<Seq<char>>)
    requires
        0 <= c <= v.len(),
        g.len() >= 1,
    ensures
        key_value(spliced(v, c, g), c + g.len(), SpecialKey::Backspace) == spliced(
            v,
            c,
            g.take(g.len() - 1),
        ),
        key_cursor(spliced(v, c, g), c + g.len(), SpecialKey::Backspace) == c + g.len() - 1,
{
    assert(spliced(v, c, g).remove(c + g.len() - 1) =~= spliced(v, c, g.take(g.len() - 1)));
}

/// What a text box shows: its content — or, when the content is
/// empty and the box unfocused, the background hint — with a cursor
/// glyph over (or appended at) the cursor position while focused on
/// a blink-on frame, shifted left by the scroll offset.
pub open spec fn textbox_display(
    v: Seq<Seq<char>>,
    c: int,
    offset: int,
    bkgnd: Seq<char>,
    focus: bool,
    blink: bool,
) -> Seq<char> {
    let base = if v.len() == 0 && !focus {
        graphemes_of(bkgnd)
    } else if focus && blink {
        if c < v.len() {
            v.update(c, seq!['_'])
        } else {
            v.push(seq!['_'])
        }
    } else {
        v
    };
    base.skip(imin(offset, base.len() as int)).flatten()
}

impl Context {
    /// The text a text box with this identity holds, as a string,
    /// if any state is stored for it.
    pub fn textbox_value(&self, id: Id) -> (r: Option<String>)
        ensures
            r is Some <==> self.textbox_state@.contains_key(id),
            r is Some ==> r->0@ == self.textbox_state@[id].value.deep_view().flatten(),
    {
        broadcast use vstd::std_specs::hash::group_hash_axioms;

        match self.textbox_state.get(&id) {
            Some(st) => {
                let s = join_graphemes(&st.value, 0);
                proof {
                    assert(st.value.deep_view().skip(0) =~= st.value.deep_view());
                }
                Some(s)
            },
            None => None,
        }
    }

    /// The grapheme index of the cursor in a text box with this
    /// identity, if any state is stored for it.
    pub fn textbox_cursor(&self, id: Id) -> (r: Option<usize>)
        ensures
            r is Some <==> self.textbox_state@.contains_key(id),
            r is Some ==> r->0 == self.textbox_state@[id].cursor_pos,
    {
        broadcast use vstd::std_specs::hash::group_hash_axioms;

        match self.textbox_state.get(&id) {
            Some(st) => Some(st.cursor_pos),
            None => None,
        }
    }

    /// A single-line editable text box. While it holds focus, queued
    /// editing keys are applied to its content in order, then queued
    /// literal text is inserted at the cursor, and the scroll offset
    /// is clamped so the cursor stays inside the visible width.
    #[verifier::rlimit(100)]
    pub fn textbox(&mut self, id: &str, width: usize, default_value: Option<&str>, bkgnd_text: Option<&str>)
        requires
            old(self).ready(),
            width <= COORD_LIMIT,
        ensures
            final(self).ready(),
            old(self).commands@.is_prefix_of(final(self).commands@),
            final(self).last_id == id_of(old(self).prefix_m(), id@),
            ({
                let wid = id_of(old(self).prefix_m(), id@);
                let rm = old(self).widget_rect_m(width as int, 1);
                let rect = Rect { x: rm.x as i64, y: rm.y as i64, w: rm.w as i64, h: rm.h as i64 };
                let over = rect.spec_contains(old(self).mouse_pos);
                let focus2 = focus_next(
                    over,
                    old(self).mouse_pressed != 0,
                    old(self).mouse_down,
                    true,
                    wid,
                    old(self).focus,
                ) == wid;
                let dv = if default_value is Some {
                    default_value->0@
                } else {
                    Seq::<char>::empty()
                };
                let bv = if bkgnd_text is Some {
                    bkgnd_text->0@
                } else {
                    Seq::<char>::empty()
                };
                let v0 = if old(self).textbox_state@.contains_key(wid) {
                    old(self).textbox_state@[wid].value.deep_view()
                } else {
                    graphemes_of(dv)
                };
                let b0 = if old(self).textbox_state@.contains_key(wid) {
                    old(self).textbox_state@[wid].bkgnd_text@
                } else {
                    bv
                };
                let c0 = if old(self).textbox_state@.contains_key(wid) {
                    imin(old(self).textbox_state@[wid].cursor_pos as int, v0.len() as int)
                } else {
                    0
                };
                let o0 = if old(self).textbox_state@.contains_key(wid) {
                    old(self).textbox_state@[wid].offset as int
                } else {
                    0
                };
                let v1 = keys_value(v0, c0, old(self).special_keys@);
                let c1 = keys_cursor(v0, c0, old(self).special_keys@);
                let g = graphemes_of(old(self).text_input@);
                let v2 = if old(self).text_input@.len() > 0 {
                    spliced(v1, c1, g)
                } else {
                    v1
                };
                let c2 = if old(self).text_input@.len() > 0 {
                    c1 + g.len()
                } else {
                    c1
                };
                let o1 = imin(o0, c2);
                let o2 = if c2 >= width {
                    imax(o1, imin(c2 + 1 - width, usize::MAX as int))
                } else {
                    o1
                };
                &&& final(self).hover == hover_next(over, wid, old(self).hover)
                &&& final(self).focus == focus_next(
                    over,
                    old(self).mouse_pressed != 0,
                    old(self).mouse_down,
                    true,
                    wid,
                    old(self).focus,
                )
                &&& final(self).pressed == (hover_next(over, wid, old(self).hover) == wid && old(
                    self,
                ).mouse_pressed == MOUSE_BUTTON_LEFT)
                &&& final(self).textbox_state@.contains_key(wid)
                &&& (forall|k: Id|
                    k != wid ==> ((final(self).textbox_state@.contains_key(k) <==> old(
                        self,
                    ).textbox_state@.contains_key(k)) && (old(self).textbox_state@.contains_key(k)
                        ==> final(self).textbox_state@[k] == old(self).textbox_state@[k])))
                &&& final(self).textbox_state@[wid].bkgnd_text@ == b0
                &&& (focus2 ==> {
                    &&& final(self).textbox_state@[wid].value.deep_view() == v2
                    &&& final(self).textbox_state@[wid].cursor_pos as int == c2
                    &&& final(self).textbox_state@[wid].offset as int == o2
                    &&& final(self).special_keys@ == Seq::<SpecialKey>::empty()
                })
                &&& (!focus2 ==> {
                    &&& final(self).textbox_state@[wid].value.deep_view() == v0
                    &&& final(self).textbox_state@[wid].cursor_pos as int == c0
                    &&& final(self).textbox_state@[wid].offset as int == o0
                    &&& final(self).special_keys@ == old(self).special_keys@
                })
                &&& final(self).next_layout is Some
                &&& final(self).next_layout->0@ == rm
                &&& final(self).next_layout->0.defered_seq().len() == 1
                &&& ({
                    let vshown = if focus2 {
                        v2
                    } else {
                        v0
                    };
                    let cshown = if focus2 {
                        c2
                    } else {
                        c0
                    };
                    let oshown = if focus2 {
                        o2
                    } else {
                        o0
                    };
                    let blink = old(self).timer % CURSOR_DELAY < CURSOR_DELAY / 2;
                    let disp = textbox_display(vshown, cshown, oshown, b0, focus2, blink);
                    let shown = if disp.len() <= COORD_LIMIT {
                        disp
                    } else {
                        disp.take(COORD_LIMIT as int)
                    };
                    defered_is_label(
                        final(self).next_layout->0.defered_seq()[0],
                        rect,
                        shown,
                        old(self).color_of(
                            if hover_next(over, wid, old(self).hover) == wid || focus2 {
                                ColorCode::ButtonBackgroundFocus
                            } else {
                                ColorCode::ButtonBackgroundHover
                            },
                        ),
                        old(self).color_of(
                            if vshown.len() == 0 {
                                ColorCode::ButtonTextDisabled
                            } else {
                                ColorCode::ButtonText
                            },
                        ),
                    )
                })
            }),
    {
        self.try_commit();
        let wid = self.generate_id(id);
        let r = self.next_rectangle(width as i64, 1);
        self.update_control(wid, &r, true);
        let focus = self.focus == wid;
        let hover = self.hover == wid;
        let mut st = self.tbstate_load(wid, default_value, bkgnd_text);
        if st.cursor_pos > st.value.len() {
            st.cursor_pos = st.value.len();
        }
        if focus {
            self.edit_state(&mut st, width);
        }
        self.pressed = hover && self.mouse_pressed == MOUSE_BUTTON_LEFT;
        let background_code = if hover || focus {
            ColorCode::ButtonBackgroundFocus
        } else {
            ColorCode::ButtonBackgroundHover
        };
        let foreground_code = if st.value.is_empty() {
            ColorCode::ButtonTextDisabled
        } else {
            ColorCode::ButtonText
        };
        let back = self.get_color(background_code);
        let fore = self.get_color(foreground_code);
        let blink = self.timer % CURSOR_DELAY < CURSOR_DELAY / 2;
        let display: String = if st.value.is_empty() && !focus {
            let base = split_graphemes(st.bkgnd_text.as_str());
            let from = if st.offset < base.len() {
                st.offset
            } else {
                base.len()
            };
            let joined = join_graphemes(&base, from);
            proof {
                assert(joined@ == textbox_display(
                    st.value.deep_view(),
                    st.cursor_pos as int,
                    st.offset as int,
                    st.bkgnd_text@,
                    focus,
                    blink,
                ));
            }
            joined
        } else {
            let mut shown = clone_strings(&st.value);
            if focus && blink {
                let mut glyph = String::new();
                glyph.append("_");
                proof {
                    reveal_strlit("_");
                    assert(glyph@ =~= seq!['_']);
                }
                if st.cursor_pos < shown.len() {
                    let cp = st.cursor_pos;
                    set_string(&mut shown, cp, glyph);
                    proof {
                        assert(shown.deep_view() =~= st.value.deep_view().update(
                            st.cursor_pos as int,
                            seq!['_'],
                        ));
                    }
                } else {
                    shown.push(glyph);
                    proof {
                        assert(shown.deep_view() =~= st.value.deep_view().push(seq!['_']));
                    }
                }
            }
            let from = if st.offset < shown.len() {
                st.offset
            } else {
                shown.len()
            };
            let joined = join_graphemes(&shown, from);
            proof {
                assert(joined@ == textbox_display(
                    st.value.deep_view(),
                    st.cursor_pos as int,
                    st.offset as int,
                    st.bkgnd_text@,
                    focus,
                    blink,
                ));
            }
            joined
        };
        let display = clip_display(display);
        self.tbstate_store(wid, st);
        self.defered(DeferedCommand::Label(r, display, back, fore));
    }

    /// Apply the queued editing keys and literal input to a text
    /// box's state, then clamp its scroll offset to keep the cursor
    /// visible. Consumes the key queue.
    #[verifier::rlimit(100)]
    fn edit_state(&mut self, st: &mut TextBoxState, width: usize)
        requires
            old(st).cursor_pos <= old(st).value@.len(),
        ensures
            ({
                let v0 = old(st).value.deep_view();
                let c0 = old(st).cursor_pos as int;
                let v1 = keys_value(v0, c0, old(self).special_keys@);
                let c1 = keys_cursor(v0, c0, old(self).special_keys@);
                let g = graphemes_of(old(self).text_input@);
                let v2 = if old(self).text_input@.len() > 0 {
                    spliced(v1, c1, g)
                } else {
                    v1
                };
                let c2 = if old(self).text_input@.len() > 0 {
                    c1 + g.len()
                } else {
                    c1
                };
                let o1 = imin(old(st).offset as int, c2);
                let o2 = if c2 >= width {
                    imax(o1, imin(c2 + 1 - width, usize::MAX as int))
                } else {
                    o1
                };
                &&& final(st).value.deep_view() == v2
                &&& final(st).cursor_pos as int == c2
                &&& final(st).offset as int == o2
                &&& final(st).bkgnd_text@ == old(st).bkgnd_text@
                &&& final(st).cursor_pos <= final(st).value@.len()
            }),
            final(self).special_keys@ == Seq::<SpecialKey>::empty(),
            *final(self) == (Context { special_keys: final(self).special_keys, ..*old(self) }),
    {
        let ghost v0 = st.value.deep_view();
        let ghost c0 = st.cursor_pos as int;
        let ghost mid = *self;
        let n = self.special_keys.len();
        let mut i: usize = 0;
        while i < n
            invariant
                n == self.special_keys@.len(),
                0 <= i <= n,
                0 <= st.cursor_pos <= st.value.len(),
                st.value.deep_view() == keys_value(v0, c0, self.special_keys@.take(i as int)),
                st.cursor_pos as int == keys_cursor(v0, c0, self.special_keys@.take(i as int)),
                st.bkgnd_text@ == old(st).bkgnd_text@,
                st.offset == old(st).offset,
                *self == mid,
                0 <= c0 <= v0.len(),
            decreases n - i,
        {
            let ghost pre_v = st.value.deep_view();
            let ghost pre_c = st.cursor_pos as int;
            let k = self.special_keys[i];
            match k {
                SpecialKey::Backspace => {
                    if st.cursor_pos > 0 {
                        st.value.remove(st.cursor_pos - 1);
                        st.cursor_pos = st.cursor_pos - 1;
                        proof {
                            assert(st.value.deep_view() =~= pre_v.remove(pre_c - 1));
                        }
                    }
                },
                SpecialKey::Delete => {
                    if st.cursor_pos < st.value.len() {
                        st.value.remove(st.cursor_pos);
                        proof {
                            assert(st.value.deep_view() =~= pre_v.remove(pre_c));
                        }
                    }
                },
                SpecialKey::Left => {
                    if st.cursor_pos > 0 {
                        st.cursor_pos = st.cursor_pos - 1;
                    }
                },
                SpecialKey::Right => {
                    if st.cursor_pos < st.value.len() {
                        st.cursor_pos = st.cursor_pos + 1;
                    }
                },
                SpecialKey::End => {
                    st.cursor_pos = st.value.len();
                },
                SpecialKey::Home => {
                    st.cursor_pos = 0;
                },
            }
            proof {
                lemma_keys_fold_step(v0, c0, self.special_keys@, i as int);
            }
            i = i + 1;
        }
        proof {
            assert(self.special_keys@.take(n as int) =~= self.special_keys@);
        }
        self.special_keys.clear();
        if self.text_input.as_str().unicode_len() > 0 {
            let gs = split_graphemes(self.text_input.as_str());
            let added = gs.len();
            let ghost v1 = st.value.deep_view();
            let ghost c1 = st.cursor_pos as int;
            let tail = split_off_strings(&mut st.value, st.cursor_pos);
            let mut mid2 = gs;
            st.value.append(&mut mid2);
            let mut tl = tail;
            st.value.append(&mut tl);
            let total = st.value.len();
            proof {
                assert(st.value.deep_view() =~= spliced(
                    v1,
                    c1,
                    graphemes_of(old(self).text_input@),
                ));
                assert(st.value.deep_view().len() == st.value@.len());
                assert(st.cursor_pos + added <= total);
            }
            st.cursor_pos = st.cursor_pos + added;
        }
        if st.offset > st.cursor_pos {
            st.offset = st.cursor_pos;
        }
        if st.cursor_pos >= width {
            let gap = st.cursor_pos - width;
            let m = if gap < usize::MAX {
                gap + 1
            } else {
                usize::MAX
            };
            if st.offset < m {
                st.offset = m;
            }
        }
    }

    /// The stored state for this identity, or a fresh one seeded
    /// from the declared defaults.
    fn tbstate_load(&self, id: Id, default_value: Option<&str>, bkgnd_text: Option<&str>) -> (st: TextBoxState)
        ensures
            self.textbox_state@.contains_key(id) ==> {
                &&& st.value@ == self.textbox_state@[id].value@
                &&& st.bkgnd_text@ == self.textbox_state@[id].bkgnd_text@
                &&& st.cursor_pos == self.textbox_state@[id].cursor_pos
                &&& st.offset == self.textbox_state@[id].offset
            },
            !self.textbox_state@.contains_key(id) ==> {
                &&& st.value.deep_view() == graphemes_of(
                    if default_value is Some {
                        default_value->0@
                    } else {
                        Seq::<char>::empty()
                    },
                )
                &&& st.bkgnd_text@ == if bkgnd_text is Some {
                    bkgnd_text->0@
                } else {
                    Seq::<char>::empty()
                }
                &&& st.cursor_pos == 0
                &&& st.offset == 0
            },
    {
        broadcast use vstd::std_specs::hash::group_hash_axioms;

        match self.textbox_state.get(&id) {
            Some(st) => TextBoxState {
                bkgnd_text: st.bkgnd_text.clone(),
                value: clone_strings(&st.value),
                offset: st.offset,
                cursor_pos: st.cursor_pos,
            },
            None => {
                let value = match default_value {
                    Some(t) => split_graphemes(t),
                    None => split_graphemes(""),
                };
                let bkgnd = match bkgnd_text {
                    Some(t) => t.to_owned(),
                    None => String::new(),
                };
                proof {
                    if default_value is None {
                        reveal_strlit("");
                        assert(""@ =~= Seq::<char>::empty());
                    }
                }
                TextBoxState { bkgnd_text: bkgnd, value, offset: 0, cursor_pos: 0 }
            },
        }
    }

    /// Store the state for this identity.
    fn tbstate_store(&mut self, id: Id, st: TextBoxState)
        ensures
            final(self).textbox_state@ == old(self).textbox_state@.insert(id, st),
            *final(self) == (Context { textbox_state: final(self).textbox_state, ..*old(self) }),
    {
        broadcast use vstd::std_specs::hash::group_hash_axioms;

        self.textbox_state.insert(id, st);
    }
}

/// One step of the key fold, lifted to a take of the key queue.
proof fn lemma_keys_fold_step(v: Seq<Seq<char>>, c: int, keys: Seq<SpecialKey>, i: int)
    requires
        0 <= i < keys.len(),
    ensures
        keys_value(v, c, keys.take(i + 1)) == key_value(
            keys_value(v, c, keys.take(i)),
            keys_cursor(v, c, keys.take(i)),
            keys[i],
        ),
        keys_cursor(v, c, keys.take(i + 1)) == key_cursor(
            keys_value(v, c, keys.take(i)),
            keys_cursor(v, c, keys.take(i)),
            keys[i],
        ),
    decreases i,
{
    if i == 0 {
        assert(keys.take(1).drop_first() =~= Seq::<SpecialKey>::empty());
        assert(keys.take(1)[0] == keys[0]);
        assert(keys.take(0) =~= Seq::<SpecialKey>::empty());
        let v1 = key_value(v, c, keys[0]);
        let c1 = key_cursor(v, c, keys[0]);
        assert(keys_value(v1, c1, Seq::<SpecialKey>::empty()) == v1);
        assert(keys_cursor(v1, c1, Seq::<SpecialKey>::empty()) == c1);
        assert(keys_value(v, c, keys.take(1)) == keys_value(v1, c1, keys.take(1).drop_first()));
        assert(keys_cursor(v, c, keys.take(1)) == keys_cursor(v1, c1, keys.take(1).drop_first()));
    } else {
        let v1 = key_value(v, c, keys[0]);
        let c1 = key_cursor(v, c, keys[0]);
        lemma_keys_fold_step(v1, c1, keys.drop_first(), i - 1);
        assert(keys.take(i + 1).drop_first() =~= keys.drop_first().take(i));
        assert(keys.take(i).drop_first() =~= keys.drop_first().take(i - 1));
        assert(keys.take(i + 1)[0] == keys[0]);
        assert(keys.take(i)[0] == keys[0]);
        assert(keys.drop_first()[i - 1] == keys[i]);
    }
}

/// Keep a display string inside the width the renderer can place.
fn clip_display(s: String) -> (r: String)
    ensures
        r@.len() <= COORD_LIMIT,
        s@.len() <= COORD_LIMIT ==> r@ == s@,
        s@.len() > COORD_LIMIT ==> r@ == s@.take(COORD_LIMIT as int),
{
    let n = s.as_str().unicode_len();
    if n <= COORD_LIMIT as usize {
        s
    } else {
        let cv = crate::chars_vec(s.as_str());
        let cut = crate::sub_chars(&cv, 0, COORD_LIMIT as usize);
        crate::string_from_chars(&cut)
    }
}

/// Copy of a grapheme vector.
fn clone_strings(v: &Vec<String>) -> (r: Vec<String>)
    ensures
        r@ == v@,
{
    let mut r: Vec<String> = Vec::new();
    let mut i: usize = 0;
    while i < v.len()
        invariant
            0 <= i <= v@.len(),
            r@ == v@.take(i as int),
        decreases v@.len() - i,
    {
        r.push(v[i].clone());
        proof {
            assert(v@.take(i as int).push(v@[i as int]) =~= v@.take(i as int + 1));
        }
        i = i + 1;
    }
    proof {
        assert(v@.take(v@.len() as int) =~= v@);
    }
    r
}

/// Split off the tail of a grapheme vector from an index.
fn split_off_strings(v: &mut Vec<String>, at: usize) -> (tail: Vec<String>)
    requires
        at <= old(v)@.len(),
    ensures
        final(v)@ == old(v)@.take(at as int),
        tail@ == old(v)@.skip(at as int),
{
    let mut tail: Vec<String> = Vec::new();
    let mut i: usize = at;
    while i < v.len()
        invariant
            at <= i <= v@.len(),
            v@ == old(v)@,
            tail@ == old(v)@.subrange(at as int, i as int),
        decreases v@.len() - i,
    {
        tail.push(v[i].clone());
        proof {
            assert(old(v)@.subrange(at as int, i as int).push(old(v)@[i as int]) =~= old(
                v,
            )@.subrange(at as int, i as int + 1));
        }
        i = i + 1;
    }
    v.truncate(at);
    proof {
        assert(old(v)@.subrange(at as int, old(v)@.len() as int) =~= old(v)@.skip(at as int));
        assert(v@ =~= old(v)@.take(at as int));
    }
    tail
}

/// Overwrite one grapheme.
fn set_string(v: &mut Vec<String>, i: usize, s: String)
    requires
        i < old(v)@.len(),
    ensures
        final(v)@ == old(v)@.update(i as int, s),
{
    let slot = &mut v[i];
    *slot = s;
}

/// The concatenation of the graphemes from an index on.
fn join_graphemes(v: &Vec<String>, from: usize) -> (r: String)
    requires
        from <= v@.len(),
    ensures
        r@ == v.deep_view().skip(from as int).flatten(),
{
    let mut r = String::new();
    let mut i: usize = from;
    while i < v.len()
        invariant
            from <= i <= v@.len(),
            r@ == v.deep_view().subrange(from as int, i as int).flatten(),
        decreases v@.len() - i,
    {
        r.append(v[i].as_str());
        proof {
            broadcast use vstd::seq::Seq::lemma_flatten_push;

            assert(v.deep_view().subrange(from as int, i as int).push(v.deep_view()[i as int])
                =~= v.deep_view().subrange(from as int, i as int + 1));
            assert(v.deep_view()[i as int] == v@[i as int]@);
        }
        i = i + 1;
    }
    proof {
        assert(v.deep_view().subrange(from as int, v@.len() as int) =~= v.deep_view().skip(
            from as int,
        ));
    }
    r
}

} // verus!
