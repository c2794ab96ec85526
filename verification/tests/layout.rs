use rmux::layout::{
    is_pane_in_subtree, layout_even_horizontal, layout_even_vertical, layout_main_horizontal, layout_main_vertical, layout_tiled,
    LayoutCell, LayoutType, ResizeDirection, PANE_MINIMUM_WIDTH,
};

#[test]
fn single_pane_layout() {
    let cell = LayoutCell::new_pane(0, 0, 80, 24, 0);
    assert!(cell.is_pane());
    assert_eq!(cell.pane_count(), 1);
}


#[test]
fn horizontal_split() {
    let mut cell = LayoutCell::new_pane(0, 0, 80, 24, 0);
    assert!(cell.split_horizontal(1).is_some());
    assert_eq!(cell.cell_type, LayoutType::LeftRight);
    assert_eq!(cell.pane_count(), 2);
    assert!(cell.find_pane(0).is_some());
    assert!(cell.find_pane(1).is_some());
}


#[test]
fn vertical_split() {
    let mut cell = LayoutCell::new_pane(0, 0, 80, 24, 0);
    assert!(cell.split_vertical(1).is_some());
    assert_eq!(cell.cell_type, LayoutType::TopBottom);
    assert_eq!(cell.pane_count(), 2);
}


#[test]
fn even_horizontal() {
    let layout = layout_even_horizontal(80, 24, &[0, 1, 2]);
    assert_eq!(layout.pane_count(), 3);
    let ids = layout.pane_ids();
    assert!(ids.contains(&0));
    assert!(ids.contains(&1));
    assert!(ids.contains(&2));
}


#[test]
fn even_vertical() {
    let layout = layout_even_vertical(80, 24, &[0, 1]);
    assert_eq!(layout.pane_count(), 2);
}


#[test]
fn split_too_small_fails() {
    let mut cell = LayoutCell::new_pane(0, 0, 2, 2, 0);
    assert!(cell.split_horizontal(1).is_none());
}


#[test]
fn triple_horizontal_split() {
    // Split horizontally 3 times to get 3 panes.
    // Start with a wide enough pane (80 columns).
    let mut cell = LayoutCell::new_pane(0, 0, 80, 24, 0);
    assert!(cell.split_horizontal(1).is_some());
    // Now cell is LeftRight with children [pane0, pane1].
    assert_eq!(cell.pane_count(), 2);

    // Split the second child (pane1) horizontally again.
    let result = cell.children[1].split_horizontal(2);
    assert!(result.is_some());
    assert_eq!(cell.pane_count(), 3);

    // Verify all three panes exist.
    assert!(cell.find_pane(0).is_some());
    assert!(cell.find_pane(1).is_some());
    assert!(cell.find_pane(2).is_some());

    // All panes should have the same height as the original.
    let p0 = cell.find_pane(0).unwrap();
    let p1 = cell.find_pane(1).unwrap();
    let p2 = cell.find_pane(2).unwrap();
    assert_eq!(p0.sy, 24);
    assert_eq!(p1.sy, 24);
    assert_eq!(p2.sy, 24);

    // Widths should add up (with separators) to the original width.
    // p0.sx + 1 + p1.sx + 1 + p2.sx = 80
    assert_eq!(p0.sx + 1 + p1.sx + 1 + p2.sx, 80);
}


#[test]
fn nested_split() {
    // Split horizontally then split one pane vertically to get 3 panes.
    let mut cell = LayoutCell::new_pane(0, 0, 80, 24, 0);
    assert!(cell.split_horizontal(1).is_some());
    assert_eq!(cell.pane_count(), 2);

    // Split the right pane (pane1) vertically.
    let result = cell.children[1].split_vertical(2);
    assert!(result.is_some());
    assert_eq!(cell.pane_count(), 3);

    // Verify all panes exist.
    assert!(cell.find_pane(0).is_some());
    assert!(cell.find_pane(1).is_some());
    assert!(cell.find_pane(2).is_some());

    // Left pane should be full height.
    let p0 = cell.find_pane(0).unwrap();
    assert_eq!(p0.sy, 24);

    // Right-side panes (top and bottom) should share the height.
    let p1 = cell.find_pane(1).unwrap();
    let p2 = cell.find_pane(2).unwrap();
    assert_eq!(p1.sx, p2.sx); // Same width (they're stacked vertically).
    // Heights should add up with separator.
    assert_eq!(p1.sy + 1 + p2.sy, 24);
}


#[test]
fn find_pane_nonexistent() {
    let cell = LayoutCell::new_pane(0, 0, 80, 24, 0);
    assert!(cell.find_pane(999).is_none());

    // Also test in a split layout.
    let mut split = LayoutCell::new_pane(0, 0, 80, 24, 0);
    split.split_horizontal(1);
    assert!(split.find_pane(999).is_none());
}


#[test]
fn pane_at_boundary() {
    // Create a horizontal split and test the boundary between panes.
    let mut cell = LayoutCell::new_pane(0, 0, 80, 24, 0);
    cell.split_horizontal(1);

    let left = cell.find_pane(0).unwrap();
    let right = cell.find_pane(1).unwrap();

    // The last column of the left pane should still be left pane.
    let left_last_col = left.x_off + left.sx - 1;
    assert_eq!(cell.pane_at(left_last_col, 0), Some(0));

    // The first column of the right pane should be right pane.
    assert_eq!(cell.pane_at(right.x_off, 0), Some(1));

    // The separator column (between left and right) should return None.
    let separator_col = left.x_off + left.sx;
    assert!(
        separator_col < right.x_off,
        "There should be a gap (separator) between left and right"
    );
    assert_eq!(cell.pane_at(separator_col, 0), None);
}


#[test]
fn pane_ids_returns_all() {
    let mut cell = LayoutCell::new_pane(0, 0, 80, 24, 0);
    cell.split_horizontal(1);
    cell.children[1].split_vertical(2);

    let ids = cell.pane_ids();
    assert_eq!(ids.len(), 3);
    assert!(ids.contains(&0));
    assert!(ids.contains(&1));
    assert!(ids.contains(&2));
}


#[test]
fn pane_count_matches_ids() {
    // Single pane.
    let cell = LayoutCell::new_pane(0, 0, 80, 24, 0);
    assert_eq!(cell.pane_count(), cell.pane_ids().len());

    // After splits.
    let mut cell2 = LayoutCell::new_pane(0, 0, 80, 24, 0);
    cell2.split_horizontal(1);
    assert_eq!(cell2.pane_count(), cell2.pane_ids().len());

    cell2.children[0].split_vertical(2);
    assert_eq!(cell2.pane_count(), cell2.pane_ids().len());
}


#[test]
fn split_minimum_size() {
    // A pane needs at least PANE_MINIMUM_WIDTH * 2 + 1 = 3 columns for horizontal split.
    let mut cell_exact_min = LayoutCell::new_pane(0, 0, 3, 10, 0);
    assert!(cell_exact_min.split_horizontal(1).is_some());

    // At exactly PANE_MINIMUM_WIDTH * 2 = 2, it should fail.
    let mut cell_too_small = LayoutCell::new_pane(0, 0, 2, 10, 0);
    assert!(cell_too_small.split_horizontal(1).is_none());

    // Width 1 should also fail.
    let mut cell_tiny = LayoutCell::new_pane(0, 0, 1, 10, 0);
    assert!(cell_tiny.split_horizontal(1).is_none());

    // Vertical split: needs PANE_MINIMUM_HEIGHT * 2 + 1 = 3 rows.
    let mut cell_vert_ok = LayoutCell::new_pane(0, 0, 10, 3, 0);
    assert!(cell_vert_ok.split_vertical(1).is_some());

    let mut cell_vert_fail = LayoutCell::new_pane(0, 0, 10, 2, 0);
    assert!(cell_vert_fail.split_vertical(1).is_none());
}


#[test]
fn main_horizontal_single_pane() {
    let layout = layout_main_horizontal(80, 24, &[0]);
    assert!(layout.is_pane());
    assert_eq!(layout.pane_id, Some(0));
}


#[test]
fn main_horizontal_two_panes() {
    let layout = layout_main_horizontal(80, 24, &[0, 1]);
    assert_eq!(layout.cell_type, LayoutType::TopBottom);
    assert_eq!(layout.pane_count(), 2);
    let p0 = layout.find_pane(0).unwrap();
    let p1 = layout.find_pane(1).unwrap();
    // Main pane should be taller
    assert!(p0.sy > p1.sy);
    // Heights plus separator should equal total
    assert_eq!(p0.sy + 1 + p1.sy, 24);
}


#[test]
fn main_horizontal_three_panes() {
    let layout = layout_main_horizontal(80, 24, &[0, 1, 2]);
    assert_eq!(layout.pane_count(), 3);
    let p0 = layout.find_pane(0).unwrap();
    // Main pane is on top
    assert_eq!(p0.y_off, 0);
    assert_eq!(p0.sx, 80);
    // Bottom panes should be side by side
    let p1 = layout.find_pane(1).unwrap();
    let p2 = layout.find_pane(2).unwrap();
    assert_eq!(p1.y_off, p2.y_off); // same row
}


#[test]
fn main_vertical_single_pane() {
    let layout = layout_main_vertical(80, 24, &[0]);
    assert!(layout.is_pane());
}


#[test]
fn main_vertical_two_panes() {
    let layout = layout_main_vertical(80, 24, &[0, 1]);
    assert_eq!(layout.cell_type, LayoutType::LeftRight);
    assert_eq!(layout.pane_count(), 2);
    let p0 = layout.find_pane(0).unwrap();
    let p1 = layout.find_pane(1).unwrap();
    // Main pane should be wider
    assert!(p0.sx > p1.sx);
    assert_eq!(p0.sx + 1 + p1.sx, 80);
}


#[test]
fn main_vertical_three_panes() {
    let layout = layout_main_vertical(80, 24, &[0, 1, 2]);
    assert_eq!(layout.pane_count(), 3);
    let p0 = layout.find_pane(0).unwrap();
    assert_eq!(p0.x_off, 0);
    assert_eq!(p0.sy, 24);
    // Right panes should be stacked vertically
    let p1 = layout.find_pane(1).unwrap();
    let p2 = layout.find_pane(2).unwrap();
    assert_eq!(p1.x_off, p2.x_off); // same column
    assert!(p1.y_off < p2.y_off); // p1 above p2
}


#[test]
fn tiled_single_pane() {
    let layout = layout_tiled(80, 24, &[0]);
    assert!(layout.is_pane());
}


#[test]
fn tiled_two_panes() {
    let layout = layout_tiled(80, 24, &[0, 1]);
    assert_eq!(layout.pane_count(), 2);
    let ids = layout.pane_ids();
    assert!(ids.contains(&0));
    assert!(ids.contains(&1));
}


#[test]
fn tiled_four_panes_grid() {
    let layout = layout_tiled(80, 24, &[0, 1, 2, 3]);
    assert_eq!(layout.pane_count(), 4);
    // 4 panes should form a 2x2 grid
    let p0 = layout.find_pane(0).unwrap();
    let p3 = layout.find_pane(3).unwrap();
    // Diagonal corners should differ in both x and y
    assert!(p3.x_off > p0.x_off || p3.y_off > p0.y_off);
}


#[test]
fn tiled_five_panes() {
    let layout = layout_tiled(80, 24, &[0, 1, 2, 3, 4]);
    assert_eq!(layout.pane_count(), 5);
}

#[test]
fn resize_pane_horizontal() {
    let mut cell = LayoutCell::new_pane(0, 0, 80, 24, 0);
    cell.split_horizontal(1);

    let left_width_before = cell.children[0].sx;
    let right_width_before = cell.children[1].sx;

    // Resize pane 0 to the right (grow pane 0, shrink pane 1)
    assert!(cell.resize_pane(0, ResizeDirection::Right, 5));

    assert_eq!(cell.children[0].sx, left_width_before + 5);
    assert_eq!(cell.children[1].sx, right_width_before - 5);
}


#[test]
fn resize_pane_vertical() {
    let mut cell = LayoutCell::new_pane(0, 0, 80, 24, 0);
    cell.split_vertical(1);

    let top_height_before = cell.children[0].sy;
    let bottom_height_before = cell.children[1].sy;

    assert!(cell.resize_pane(0, ResizeDirection::Down, 3));

    assert_eq!(cell.children[0].sy, top_height_before + 3);
    assert_eq!(cell.children[1].sy, bottom_height_before - 3);
}


#[test]
fn resize_pane_beyond_minimum_clamps() {
    let mut cell = LayoutCell::new_pane(0, 0, 10, 24, 0);
    cell.split_horizontal(1);

    // Try to resize way beyond available space
    let right_width = cell.children[1].sx;
    assert!(cell.resize_pane(0, ResizeDirection::Right, 1000));
    // Right pane should be at minimum width
    assert_eq!(cell.children[1].sx, PANE_MINIMUM_WIDTH);
    // Left pane gained what right pane lost
    let gained = right_width - PANE_MINIMUM_WIDTH;
    assert!(gained > 0);
}


#[test]
fn resize_pane_nonexistent_returns_false() {
    let mut cell = LayoutCell::new_pane(0, 0, 80, 24, 0);
    cell.split_horizontal(1);
    assert!(!cell.resize_pane(999, ResizeDirection::Right, 5));
}


#[test]
fn resize_pane_at_edge_returns_false() {
    let mut cell = LayoutCell::new_pane(0, 0, 80, 24, 0);
    cell.split_horizontal(1);
    // Pane 0 is the leftmost — can't resize left (no sibling to the left)
    assert!(!cell.resize_pane(0, ResizeDirection::Left, 5));
    // Pane 1 is the rightmost — can't resize right
    assert!(!cell.resize_pane(1, ResizeDirection::Right, 5));
}


#[test]
fn resize_layout_proportional() {
    let mut layout = layout_even_horizontal(80, 24, &[0, 1]);
    let p0_width_before = layout.children[0].sx;
    let p1_width_before = layout.children[1].sx;

    // Resize the whole layout to 160 wide
    layout.resize_layout(160, 24);

    // Widths should roughly double (proportional)
    assert!(layout.children[0].sx > p0_width_before);
    assert!(layout.children[1].sx > p1_width_before);
    // Total should equal new width (minus separator)
    assert_eq!(layout.children[0].sx + 1 + layout.children[1].sx, 160);
}


#[test]
fn resize_layout_vertical() {
    let mut layout = layout_even_vertical(80, 24, &[0, 1]);

    layout.resize_layout(80, 48);

    // Heights should roughly double
    assert_eq!(layout.children[0].sy + 1 + layout.children[1].sy, 48);
}


#[test]
fn resize_layout_single_pane() {
    let mut layout = LayoutCell::new_pane(0, 0, 80, 24, 0);
    layout.resize_layout(160, 48);
    assert_eq!(layout.sx, 160);
    assert_eq!(layout.sy, 48);
}
#[test]
fn resize_pane_nested_split_moves_inner_separator() {
    let mut cell = LayoutCell::new_pane(0, 0, 80, 24, 0);
    assert!(cell.split_vertical(1).is_some());
    assert!(cell.children[0].split_horizontal(2).is_some());
    // The top-bottom root does not handle Left; the inner left-right split does.
    assert!(cell.resize_pane(2, ResizeDirection::Left, 3));
    let top = &cell.children[0];
    assert_eq!(top.children[0].sx, 37);
    assert_eq!(top.children[1].sx, 42);
    assert_eq!(top.children[1].x_off, 38);
    assert_eq!(cell.children[1].sy, 11);
}

#[test]
fn resize_pane_propagates_height_into_left_right_split() {
    let mut cell = LayoutCell::new_pane(0, 0, 80, 24, 0);
    assert!(cell.split_vertical(1).is_some());
    assert!(cell.children[0].split_horizontal(2).is_some());
    assert!(cell.resize_pane(1, ResizeDirection::Up, 2));
    assert_eq!(cell.children[0].sy, 10);
    assert_eq!(cell.children[1].sy, 13);
    assert_eq!(cell.children[1].y_off, 11);
    assert_eq!(cell.children[0].children[0].sy, 10);
    assert_eq!(cell.children[0].children[1].sy, 10);
}

#[test]
fn pane_in_subtree_search() {
    let cell = layout_tiled(80, 24, &[4, 5, 6]);
    assert!(is_pane_in_subtree(&cell, 4));
    assert!(is_pane_in_subtree(&cell, 6));
    assert!(!is_pane_in_subtree(&cell, 7));
    assert!(is_pane_in_subtree(&cell.children[0], 4));
    assert!(!is_pane_in_subtree(&cell.children[0], 6));
    let leaf = LayoutCell::new_pane(0, 0, 10, 10, 9);
    assert!(is_pane_in_subtree(&leaf, 9));
    assert!(!is_pane_in_subtree(&leaf, 1));
}

#[test]
fn even_horizontal_near_widest() {
    let sx = u32::MAX - 1;
    let layout = layout_even_horizontal(sx, 10, &[1, 2]);
    assert_eq!(layout.children.len(), 2);
    let a = sx - 1;
    assert_eq!(layout.children[0].sx, a / 2 + a % 2);
    assert_eq!(layout.children[1].sx, a / 2);
    assert_eq!(layout.children[1].x_off, layout.children[0].sx + 1);
    assert_eq!(layout.children[0].pane_id, Some(1));
    assert_eq!(layout.children[1].pane_id, Some(2));
}
