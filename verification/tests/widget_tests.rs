//! Interaction tests: identity stability, hover and focus edges,
//! toggle groups, slider clamping, text editing, and truncation.

use doryen_ui::Command;
use doryen_ui::Context;
use doryen_ui::MOUSE_BUTTON_LEFT;
use doryen_ui::NULL_ID;
use doryen_ui::SpecialKey;
use doryen_ui::TextAlign;

#[test]
fn test_identity_stable_across_frames() {
    let mut ctx = Context::new();
    ctx.begin();
    ctx.vbox_begin("a", 3);
    ctx.vbox_begin("b", 2);
    ctx.button("ok", "Ok");
    let id_frame1 = ctx.last_id();
    ctx.vbox_end();
    ctx.vbox_end();
    ctx.end();
    ctx.begin();
    ctx.vbox_begin("a", 3);
    ctx.vbox_begin("b", 2);
    ctx.button("ok", "Ok");
    let id_frame2 = ctx.last_id();
    ctx.vbox_end();
    ctx.vbox_end();
    ctx.end();
    assert_eq!(id_frame1, id_frame2);
    assert_ne!(id_frame1, NULL_ID);
}

#[test]
fn test_state_survives_redeclaration() {
    let mut ctx = Context::new();
    ctx.begin();
    ctx.checkbox("cb", "x", true);
    assert!(ctx.active());
    ctx.end();
    // the second frame declares a different initial value; the
    // stored state wins
    ctx.begin();
    ctx.checkbox("cb", "x", false);
    assert!(ctx.active());
    ctx.end();
}

#[test]
fn test_hover_tracks_pointer() {
    let mut ctx = Context::new();
    ctx.input_mouse_pos(50, 20);
    ctx.begin();
    ctx.button("b", "test");
    assert_eq!(ctx.hover, NULL_ID);
    ctx.end();
    ctx.input_mouse_pos(1, 0);
    ctx.begin();
    ctx.button("b", "test");
    assert_eq!(ctx.hover, ctx.last_id());
    ctx.end();
}

#[test]
fn test_press_is_edge_triggered() {
    let mut ctx = Context::new();
    ctx.input_mouse_pos(1, 0);
    ctx.input_mouse_down(MOUSE_BUTTON_LEFT);
    ctx.begin();
    ctx.button("b", "test");
    assert!(ctx.pressed());
    ctx.end();
    // the button stays held down: the press edge must not repeat
    ctx.begin();
    ctx.button("b", "test");
    assert!(!ctx.pressed());
    ctx.end();
    ctx.input_mouse_up(MOUSE_BUTTON_LEFT);
}

#[test]
fn test_toggle_group_mutual_exclusion() {
    let mut ctx = Context::new();
    ctx.begin();
    ctx.toggle_group(1);
    ctx.toggle("ta", "A", true);
    ctx.toggle("tb", "B", false);
    ctx.toggle("tc", "C", false);
    ctx.end();
    // click toggle B (second row)
    ctx.input_mouse_pos(0, 1);
    ctx.input_mouse_down(MOUSE_BUTTON_LEFT);
    ctx.begin();
    ctx.toggle_group(1);
    ctx.toggle("ta", "A", true);
    ctx.toggle("tb", "B", false);
    ctx.toggle("tc", "C", false);
    ctx.end();
    ctx.input_mouse_up(MOUSE_BUTTON_LEFT);
    // read the settled state on a quiet frame
    ctx.input_mouse_pos(50, 20);
    ctx.begin();
    ctx.toggle_group(1);
    ctx.toggle("ta", "A", true);
    let a_on = ctx.active();
    ctx.toggle("tb", "B", false);
    let b_on = ctx.active();
    ctx.toggle("tc", "C", false);
    let c_on = ctx.active();
    ctx.end();
    assert!(!a_on);
    assert!(b_on);
    assert!(!c_on);
}

#[test]
fn test_slider_clamps_to_range() {
    // the value scale is thousandths: [0.0, 10.0] is [0, 10000]
    let mut ctx = Context::new();
    ctx.input_mouse_pos(0, 0);
    ctx.input_mouse_down(MOUSE_BUTTON_LEFT);
    ctx.begin();
    ctx.fslider_scaled("f", 10, 0, 10000, 0);
    ctx.end();
    // drag far beyond the right edge while holding the button
    ctx.input_mouse_pos(100, 0);
    ctx.begin();
    ctx.fslider_scaled("f", 10, 0, 10000, 0);
    ctx.end();
    ctx.begin();
    let v = ctx.fslider_scaled("f", 10, 0, 10000, 0);
    ctx.end();
    assert_eq!(v, 10000);
}

#[test]
fn test_slider_clamps_negative_overshoot() {
    let mut ctx = Context::new();
    ctx.input_mouse_pos(5, 0);
    ctx.input_mouse_down(MOUSE_BUTTON_LEFT);
    ctx.begin();
    ctx.fslider_scaled("f", 10, 0, 10000, 5000);
    ctx.end();
    ctx.input_mouse_pos(-200, 0);
    ctx.begin();
    ctx.fslider_scaled("f", 10, 0, 10000, 5000);
    ctx.end();
    ctx.begin();
    let v = ctx.fslider_scaled("f", 10, 0, 10000, 5000);
    ctx.end();
    assert_eq!(v, 0);
}

#[test]
fn test_islider_returns_start_value() {
    let mut ctx = Context::new();
    ctx.begin();
    let v = ctx.islider("is", 10, 0, 10, 5);
    ctx.end();
    assert_eq!(v, 5);
}

#[test]
fn test_textbox_round_trip_edit() {
    let mut ctx = Context::new();
    // click into the text box to focus it
    ctx.input_mouse_pos(1, 0);
    ctx.input_mouse_down(MOUSE_BUTTON_LEFT);
    ctx.begin();
    ctx.textbox("tb", 10, None, None);
    let id = ctx.last_id();
    ctx.end();
    ctx.input_mouse_up(MOUSE_BUTTON_LEFT);
    // type "abc"
    ctx.input_text("abc");
    ctx.begin();
    ctx.textbox("tb", 10, None, None);
    ctx.end();
    assert_eq!(ctx.textbox_value(id).unwrap(), "abc");
    assert_eq!(ctx.textbox_cursor(id).unwrap(), 3);
    // one backspace
    ctx.input_special_key(SpecialKey::Backspace);
    ctx.begin();
    ctx.textbox("tb", 10, None, None);
    ctx.end();
    assert_eq!(ctx.textbox_value(id).unwrap(), "ab");
    assert_eq!(ctx.textbox_cursor(id).unwrap(), 2);
}

#[test]
fn test_textbox_cursor_moves() {
    let mut ctx = Context::new();
    ctx.input_mouse_pos(1, 0);
    ctx.input_mouse_down(MOUSE_BUTTON_LEFT);
    ctx.begin();
    ctx.textbox("tb", 10, Some("abcd"), None);
    let id = ctx.last_id();
    ctx.end();
    ctx.input_mouse_up(MOUSE_BUTTON_LEFT);
    ctx.input_special_key(SpecialKey::End);
    ctx.input_special_key(SpecialKey::Left);
    ctx.input_special_key(SpecialKey::Delete);
    ctx.begin();
    ctx.textbox("tb", 10, Some("abcd"), None);
    ctx.end();
    assert_eq!(ctx.textbox_value(id).unwrap(), "abc");
    assert_eq!(ctx.textbox_cursor(id).unwrap(), 3);
}

#[test]
fn test_list_button_cycles() {
    let mut ctx = Context::new();
    ctx.begin();
    ctx.list_button_begin("lb");
    let first = ctx.list_button_item("one", TextAlign::Left);
    let second = ctx.list_button_item("two", TextAlign::Left);
    let changed = ctx.list_button_end(false);
    ctx.end();
    assert!(first);
    assert!(!second);
    assert!(!changed);
    // click the button: the selection advances to the second item
    ctx.input_mouse_pos(1, 0);
    ctx.input_mouse_down(MOUSE_BUTTON_LEFT);
    ctx.begin();
    ctx.list_button_begin("lb");
    ctx.list_button_item("one", TextAlign::Left);
    ctx.list_button_item("two", TextAlign::Left);
    let changed2 = ctx.list_button_end(false);
    ctx.end();
    ctx.input_mouse_up(MOUSE_BUTTON_LEFT);
    assert!(changed2);
    ctx.input_mouse_pos(50, 20);
    ctx.begin();
    ctx.list_button_begin("lb");
    let one_now = ctx.list_button_item("one", TextAlign::Left);
    let two_now = ctx.list_button_item("two", TextAlign::Left);
    ctx.list_button_end(false);
    ctx.end();
    assert!(!one_now);
    assert!(two_now);
}

#[test]
fn test_list_button_counter_caption() {
    let mut ctx = Context::new();
    // hover the button so the index/count caption shows
    ctx.input_mouse_pos(1, 0);
    ctx.begin();
    ctx.list_button_begin("lb");
    ctx.list_button_item("aaa", TextAlign::Left);
    ctx.list_button_item("bbb", TextAlign::Left);
    ctx.list_button_end(true);
    ctx.end();
    let mut caption = None;
    for c in ctx.get_render_commands() {
        if let Command::Text(t, _, _) = c {
            caption = Some(t.clone());
        }
    }
    assert_eq!(caption.unwrap(), "a|1/2");
}

#[test]
fn test_right_aligned_label_keeps_tail() {
    let mut ctx = Context::new();
    ctx.begin();
    ctx.vbox_begin("v", 1);
    ctx.max_width(3);
    ctx.label("abcdef");
    ctx.align(TextAlign::Right);
    ctx.vbox_end();
    ctx.end();
    let mut shown = None;
    let mut at = None;
    for c in ctx.get_render_commands() {
        if let Command::Text(t, p, _) = c {
            shown = Some(t.clone());
            at = Some(*p);
        }
    }
    assert_eq!(shown.unwrap(), "def");
    assert_eq!(at.unwrap().x, 0);
}

#[test]
fn test_label_color_width_skips_directives() {
    let mut ctx = Context::new();
    ctx.begin();
    ctx.label_color("#[red]ab");
    ctx.end();
    let mut rect_w = None;
    for c in ctx.get_render_commands() {
        if let Command::Rect(r, _) = c {
            rect_w = Some(r.w);
        }
    }
    assert_eq!(rect_w.unwrap(), 2);
}

#[test]
fn test_color_stack_innermost_wins() {
    let mut ctx = Context::new();
    let default_text = ctx.get_color(doryen_ui::ColorCode::ButtonText);
    ctx.push_color(doryen_ui::ColorCode::ButtonText, (1, 2, 3, 255));
    assert_eq!(ctx.get_color(doryen_ui::ColorCode::ButtonText), (1, 2, 3, 255));
    ctx.pop_color(doryen_ui::ColorCode::ButtonText);
    assert_eq!(ctx.get_color(doryen_ui::ColorCode::ButtonText), default_text);
}

#[test]
fn test_progress_bar_emits_permille() {
    let mut ctx = Context::new();
    ctx.begin();
    ctx.progress_bar(10, 0, 1000, 500, None);
    ctx.end();
    let mut permille = None;
    for c in ctx.get_render_commands() {
        if let Command::Progress(_, k, _, _) = c {
            permille = Some(*k);
        }
    }
    assert_eq!(permille.unwrap(), 500);
}

#[test]
fn test_progress_bar_clamps_value() {
    let mut ctx = Context::new();
    ctx.begin();
    ctx.progress_bar(10, 0, 1000, 5000, None);
    ctx.end();
    let mut permille = None;
    for c in ctx.get_render_commands() {
        if let Command::Progress(_, k, _, _) = c {
            permille = Some(*k);
        }
    }
    assert_eq!(permille.unwrap(), 1000);
}

#[test]
fn test_separator_emits_line() {
    let mut ctx = Context::new();
    ctx.begin();
    ctx.separator();
    ctx.end();
    let mut saw_line = false;
    for c in ctx.get_render_commands() {
        if let Command::Line(_, _, _) = c {
            saw_line = true;
        }
    }
    assert!(saw_line);
}

#[test]
fn test_dropdown_panel_opens_on_click() {
    let mut ctx = Context::new();
    ctx.input_mouse_pos(1, 0);
    ctx.input_mouse_down(MOUSE_BUTTON_LEFT);
    ctx.begin();
    ctx.dropdown_panel_begin("dd", "T", false, 10, 3);
    let open_now = ctx.active();
    ctx.dropdown_panel_end();
    ctx.end();
    ctx.input_mouse_up(MOUSE_BUTTON_LEFT);
    assert!(open_now);
}

#[test]
fn test_popup_without_click() {
    let mut ctx = Context::new();
    ctx.begin();
    ctx.popup_begin("p", "Title", 2, 2, 10, 5);
    let ok = ctx.popup_end();
    ctx.end();
    assert!(!ok);
}

#[test]
fn test_set_toggle_status_forces_state() {
    let mut ctx = Context::new();
    ctx.begin();
    ctx.toggle("t", "T", false);
    let id = ctx.last_id();
    assert!(!ctx.active());
    ctx.end();
    ctx.set_toggle_status(id, true);
    ctx.begin();
    ctx.toggle("t", "T", false);
    assert!(ctx.active());
    ctx.end();
}

#[test]
fn test_backspace_on_empty_textbox() {
    let mut ctx = Context::new();
    ctx.input_mouse_pos(1, 0);
    ctx.input_mouse_down(MOUSE_BUTTON_LEFT);
    ctx.begin();
    ctx.textbox("tb", 10, None, None);
    let id = ctx.last_id();
    ctx.end();
    ctx.input_mouse_up(MOUSE_BUTTON_LEFT);
    ctx.input_special_key(SpecialKey::Backspace);
    ctx.begin();
    ctx.textbox("tb", 10, None, None);
    ctx.end();
    assert_eq!(ctx.textbox_value(id).unwrap(), "");
    assert_eq!(ctx.textbox_cursor(id).unwrap(), 0);
}

#[test]
fn test_empty_label() {
    let mut ctx = Context::new();
    ctx.begin();
    ctx.label("");
    ctx.end();
    let mut text_len = None;
    for c in ctx.get_render_commands() {
        if let Command::Text(t, _, _) = c {
            text_len = Some(t.chars().count());
        }
    }
    assert_eq!(text_len.unwrap(), 0);
}

#[test]
fn test_identity_differs_between_paths() {
    let mut ctx = Context::new();
    ctx.begin();
    ctx.vbox_begin("a", 2);
    ctx.button("ok", "Ok");
    let inner = ctx.last_id();
    ctx.vbox_end();
    ctx.button("ok", "Ok");
    let outer = ctx.last_id();
    ctx.end();
    assert_ne!(inner, outer);
}

#[test]
fn test_hover_survives_later_controls() {
    let mut ctx = Context::new();
    // pointer on the first button; the second, declared after it,
    // must not wipe the first one's hover
    ctx.input_mouse_pos(1, 0);
    ctx.begin();
    ctx.button("first", "aaaa");
    let first_id = ctx.last_id();
    ctx.button("second", "bbbb");
    assert_eq!(ctx.hover, first_id);
    ctx.end();
}
