//! Placement tests for the layout engine: vertical and horizontal
//! boxes and grids, with margin and padding.

use doryen_ui::Coord;
use doryen_ui::Layout;
use doryen_ui::LayoutMode;
use doryen_ui::Rect;

fn assert_layout(layout: &Rect, x: Coord, y: Coord, w: Coord, h: Coord) {
    assert_eq!(*layout, Rect { x, y, w, h });
}

fn new_vertical(margin: Coord, padding: Coord) -> Layout {
    let mut layout = Layout::new(LayoutMode::Vertical);
    layout.margin(margin);
    layout.padding(padding);
    layout
}

fn new_horizontal(width: Coord, margin: Coord, padding: Coord) -> Layout {
    assert!(width > 2 * margin);
    let mut layout = Layout::new(LayoutMode::Horizontal);
    layout.margin(margin);
    layout.padding(padding);
    layout.min_width(width);
    layout
}

fn new_grid(
    cols: usize,
    rows: usize,
    width: Coord,
    height: Coord,
    margin: Coord,
    padding: Coord,
) -> Layout {
    let mut layout = Layout::new(LayoutMode::Grid);
    layout.grid(cols, rows, width);
    layout.margin(margin);
    layout.padding(padding);
    layout.fixed_size(width, height);
    layout
}

fn inject_widget(root: &mut Layout, w: Coord, h: Coord) -> Rect {
    let mut child = Layout::new(LayoutMode::Single);
    child.size(w, h);
    root.commit(&mut child)
}

#[test]
fn layout_test_vbox() {
    let mut root = new_vertical(0, 0);
    assert_layout(&inject_widget(&mut root, 5, 1), 0, 0, 5, 1);
    assert_layout(&inject_widget(&mut root, 5, 1), 0, 1, 5, 1);
    assert_layout(&inject_widget(&mut root, 5, 1), 0, 2, 5, 1);
}

#[test]
fn test_vbox_margin() {
    let mut root = new_vertical(1, 0);
    assert_layout(&inject_widget(&mut root, 5, 1), 1, 1, 5, 1);
    assert_layout(&inject_widget(&mut root, 5, 1), 1, 2, 5, 1);
    assert_layout(&inject_widget(&mut root, 5, 1), 1, 3, 5, 1);
}

#[test]
fn test_vbox_padding() {
    let mut root = new_vertical(0, 1);
    assert_layout(&inject_widget(&mut root, 5, 1), 0, 0, 5, 1);
    assert_layout(&inject_widget(&mut root, 5, 1), 0, 2, 5, 1);
    assert_layout(&inject_widget(&mut root, 5, 1), 0, 4, 5, 1);
}

#[test]
fn test_vbox_padding_and_margin() {
    let mut root = new_vertical(2, 1);
    assert_layout(&inject_widget(&mut root, 5, 1), 2, 2, 5, 1);
    assert_layout(&inject_widget(&mut root, 5, 1), 2, 4, 5, 1);
    assert_layout(&inject_widget(&mut root, 5, 1), 2, 6, 5, 1);
}

#[test]
fn layout_test_hbox() {
    let mut root = new_horizontal(5, 0, 0);
    assert_layout(&inject_widget(&mut root, 5, 1), 0, 0, 5, 1);
    assert_layout(&inject_widget(&mut root, 5, 1), 5, 0, 5, 1);
    assert_layout(&inject_widget(&mut root, 5, 1), 10, 0, 5, 1);
}

#[test]
fn test_hbox_margin() {
    let mut root = new_horizontal(5, 1, 0);
    assert_layout(&inject_widget(&mut root, 5, 1), 1, 1, 5, 1);
    assert_layout(&inject_widget(&mut root, 5, 1), 6, 1, 5, 1);
    assert_layout(&inject_widget(&mut root, 5, 1), 11, 1, 5, 1);
}

#[test]
fn test_hbox_padding() {
    let mut root = new_horizontal(5, 0, 1);
    assert_layout(&inject_widget(&mut root, 5, 1), 0, 0, 5, 1);
    assert_layout(&inject_widget(&mut root, 5, 1), 6, 0, 5, 1);
    assert_layout(&inject_widget(&mut root, 5, 1), 12, 0, 5, 1);
}

#[test]
fn test_hbox_padding_and_margin() {
    let mut root = new_horizontal(5, 1, 2);
    assert_layout(&inject_widget(&mut root, 5, 1), 1, 1, 5, 1);
    assert_layout(&inject_widget(&mut root, 5, 1), 8, 1, 5, 1);
    assert_layout(&inject_widget(&mut root, 5, 1), 15, 1, 5, 1);
}

#[test]
fn test_grid() {
    let mut root = new_grid(2, 2, 1, 1, 0, 0);
    assert_layout(&inject_widget(&mut root, 1, 1), 0, 0, 1, 1);
    assert_layout(&inject_widget(&mut root, 1, 1), 1, 0, 1, 1);
    assert_layout(&inject_widget(&mut root, 1, 1), 0, 1, 1, 1);
    assert_layout(&inject_widget(&mut root, 1, 1), 1, 1, 1, 1);
}

#[test]
fn test_grid_margin() {
    let mut root = new_grid(2, 2, 1, 1, 1, 0);
    assert_layout(&inject_widget(&mut root, 1, 1), 1, 1, 1, 1);
    assert_layout(&inject_widget(&mut root, 1, 1), 2, 1, 1, 1);
    assert_layout(&inject_widget(&mut root, 1, 1), 1, 2, 1, 1);
    assert_layout(&inject_widget(&mut root, 1, 1), 2, 2, 1, 1);
}

#[test]
fn test_grid_padding() {
    let mut root = new_grid(2, 2, 1, 1, 0, 1);
    assert_layout(&inject_widget(&mut root, 1, 1), 0, 0, 1, 1);
    assert_layout(&inject_widget(&mut root, 1, 1), 2, 0, 1, 1);
    assert_layout(&inject_widget(&mut root, 1, 1), 0, 2, 1, 1);
    assert_layout(&inject_widget(&mut root, 1, 1), 2, 2, 1, 1);
}

#[test]
fn test_grid_padding_margin() {
    let mut root = new_grid(2, 2, 1, 1, 1, 1);
    assert_layout(&inject_widget(&mut root, 1, 1), 1, 1, 1, 1);
    assert_layout(&inject_widget(&mut root, 1, 1), 3, 1, 1, 1);
    assert_layout(&inject_widget(&mut root, 1, 1), 1, 3, 1, 1);
    assert_layout(&inject_widget(&mut root, 1, 1), 3, 3, 1, 1);
}
