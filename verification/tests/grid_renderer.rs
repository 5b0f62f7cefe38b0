use beach::cache::terminal::packed::Style;
use beach::client::grid_renderer::style::{decode_color, decode_modifiers, ColorSpec};
use beach::client::grid_renderer::text::{LayoutLine, LineKind};
use beach::client::grid_renderer::{GridRenderer, SelectionMode, SelectionPosition, WidgetArea};

fn decode_line(text: &str) -> Vec<(char, Option<u32>)> {
    text.chars().map(|ch| (ch, None)).collect()
}

#[test]
fn tail_render_does_not_leave_missing_gaps_after_new_rows() {
    let mut renderer = GridRenderer::new(0, 80);
    renderer.on_resize(80, 24);
    renderer.set_base_row(0);
    for row in 0..120u64 {
        renderer.mark_row_missing(row);
    }
    for (idx, row) in (121u64..151).enumerate() {
        let text = format!("Line {:03}", idx + 121);
        renderer.apply_row_from_cells(row as usize, row, &decode_line(&text));
    }
    renderer.scroll_to_tail();
    let lines = renderer.visible_lines();
    assert!(lines.iter().any(|line| line.contains("Line 150")), "tail missing expected content");
    let non_blank = lines.iter().filter(|line| !line.trim().is_empty()).count();
    assert!(non_blank >= 24.min(lines.len()), "viewport still blank after filling rows");
}

#[test]
fn tail_short_buffer_stays_top_aligned() {
    let mut renderer = GridRenderer::new(0, 10);
    renderer.on_resize(10, 8); // viewport_height reduced by status lines
    renderer.set_base_row(0);
    renderer.set_history_origin(0);
    for row in 0..3u64 {
        let text = format!("Row {row}");
        renderer.apply_row_from_cells(row as usize, row, &decode_line(&text));
    }
    renderer.scroll_to_tail();
    let lines = renderer.visible_lines();
    assert_eq!(lines.len(), 6);
    assert!(lines[0].starts_with("Row 0"));
}

#[test]
fn tail_short_buffer_bottom_aligns_when_history_trimmed() {
    let mut renderer = GridRenderer::new(0, 10);
    renderer.on_resize(10, 8);
    renderer.set_base_row(120);
    renderer.set_history_origin(120);
    for idx in 0..3u64 {
        let abs = 120 + idx;
        let text = format!("Row {abs}");
        renderer.apply_row_from_cells(abs as usize, abs, &decode_line(&text));
    }
    renderer.scroll_to_tail();
    let lines = renderer.visible_lines();
    assert_eq!(lines.len(), 6);
    assert_eq!(lines.last().unwrap().trim(), "Row 122");
}

#[test]
fn new_renderer_holds_pending_rows() {
    let renderer = GridRenderer::new(3, 0);
    assert_eq!(renderer.total_cols(), 1);
    assert_eq!(renderer.total_rows(), 3);
    assert!(renderer.has_pending_rows());
    assert!(!renderer.has_missing_rows());
    assert!(renderer.is_following_tail());
    assert_eq!(renderer.row_text_for_test(1), Some("·".to_string()));
    assert_eq!(renderer.row_text(1), None);
    assert_eq!(renderer.style_for(0), Some(Style::default()));
}

#[test]
fn apply_cell_keeps_newer_cells() {
    let mut renderer = GridRenderer::new(1, 4);
    renderer.apply_cell(0, 1, 5, 'a', Some(3));
    assert_eq!(renderer.cell_for_render(0, 1), ('a', Some(3), false));
    renderer.apply_cell(0, 1, 4, 'b', None);
    assert_eq!(renderer.cell_for_render(0, 1), ('a', Some(3), false));
    renderer.apply_cell(0, 1, 5, 'c', None);
    assert_eq!(renderer.cell_for_render(0, 1), ('c', None, false));
    assert_eq!(renderer.row_text(0), Some(" c  ".to_string()));
    assert!(renderer.cell_matches(0, 1, 'c'));
    assert!(renderer.cell_matches(0, 9, ' '));
    assert_eq!(renderer.committed_row_width(0), 2);
}

#[test]
fn apply_cell_widens_the_grid() {
    let mut renderer = GridRenderer::new(1, 2);
    renderer.apply_cell(0, 0, 1, 'x', None);
    renderer.apply_cell(2, 5, 1, 'y', None);
    assert_eq!(renderer.total_cols(), 6);
    assert_eq!(renderer.total_rows(), 3);
    assert_eq!(renderer.row_text(0), Some("x     ".to_string()));
    assert_eq!(renderer.row_display_width(2), 6);
}

#[test]
fn rows_before_the_base_are_added_as_pending() {
    let mut renderer = GridRenderer::new(0, 3);
    renderer.set_base_row(10);
    renderer.apply_row_from_text(12, 1, "abc");
    assert_eq!(renderer.base_row(), 10);
    renderer.apply_cell(8, 0, 1, 'z', None);
    assert_eq!(renderer.base_row(), 8);
    assert_eq!(renderer.row_text_for_test(9).unwrap().chars().count(), 4);
    assert!(renderer.contains_row(12));
    assert!(!renderer.contains_row(13));
}

#[test]
fn older_row_updates_are_ignored() {
    let mut renderer = GridRenderer::new(1, 5);
    renderer.apply_row_from_text(0, 7, "hello");
    renderer.apply_row_from_text(0, 6, "world");
    assert_eq!(renderer.row_text(0).unwrap().trim_end(), "hello");
    renderer.apply_row_from_text(0, 8, "hi");
    assert_eq!(renderer.row_text(0).unwrap().trim_end(), "hi");
}

#[test]
fn set_base_row_drops_and_adds_rows() {
    let mut renderer = GridRenderer::new(0, 4);
    for row in 0..5usize {
        renderer.apply_row_from_text(row, 1, &format!("r{row}"));
    }
    renderer.set_base_row(2);
    assert_eq!(renderer.base_row(), 2);
    assert_eq!(renderer.total_rows(), 5);
    assert_eq!(renderer.row_text(2).unwrap().trim_end(), "r2");
    assert_eq!(renderer.row_text(1), None);
    renderer.set_base_row(0);
    assert_eq!(renderer.row_text_for_test(0), Some("····".to_string()));
    assert_eq!(renderer.row_text(2).unwrap().trim_end(), "r2");
    renderer.set_base_row(9);
    assert_eq!(renderer.total_rows(), 9);
}

#[test]
fn trim_drops_rows_predictions_and_cuts_the_selection() {
    let mut renderer = GridRenderer::new(0, 4);
    renderer.set_follow_tail(false);
    for row in 0..6usize {
        renderer.apply_row_from_text(row, 1, &format!("r{row}"));
    }
    renderer.add_prediction(1, 0, 9, 'p');
    renderer.add_prediction(4, 0, 9, 'q');
    renderer.set_selection(
        SelectionPosition { row: 1, col: 0 },
        SelectionPosition { row: 4, col: 1 },
        SelectionMode::Line,
    );
    renderer.apply_trim(0, 3);
    assert_eq!(renderer.base_row(), 3);
    assert!(!renderer.prediction_exists(1, 0, 9));
    assert!(renderer.prediction_exists(4, 0, 9));
    let sel = renderer.selection().unwrap();
    assert_eq!(sel.anchor.row, 3);
    assert_eq!(sel.head.row, 4);
    assert_eq!(renderer.selection_text(), Some("r3\nr4".to_string()));
    renderer.apply_trim(0, 2);
    assert_eq!(renderer.base_row(), 3);
    renderer.apply_trim(3, 5);
    assert_eq!(renderer.base_row(), 6);
    assert_eq!(renderer.selection(), None);
}

#[test]
fn character_and_block_selection_text() {
    let mut renderer = GridRenderer::new(0, 5);
    renderer.apply_row_from_text(0, 1, "abcde");
    renderer.apply_row_from_text(1, 1, "fghij");
    renderer.apply_row_from_text(2, 1, "klmno");
    renderer.set_selection(
        SelectionPosition { row: 2, col: 1 },
        SelectionPosition { row: 0, col: 3 },
        SelectionMode::Character,
    );
    assert_eq!(renderer.selection_text(), Some("de \nfghij \nkl".to_string()));
    renderer.set_selection(
        SelectionPosition { row: 0, col: 3 },
        SelectionPosition { row: 1, col: 1 },
        SelectionMode::Block,
    );
    assert_eq!(renderer.selection_text(), Some("bcd\nghi".to_string()));
    renderer.clear_selection();
    assert_eq!(renderer.selection_text(), None);
}

#[test]
fn predictions_are_drawn_when_visible() {
    let mut renderer = GridRenderer::new(1, 4);
    renderer.add_prediction(0, 2, 7, 'x');
    assert!(renderer.has_active_predictions());
    assert_eq!(renderer.cell_for_render(0, 2), ('·', None, false));
    renderer.set_predictions_visible(true);
    assert_eq!(renderer.cell_for_render(0, 2), ('x', None, true));
    assert_eq!(renderer.predicted_row_width(0), 3);
    assert_eq!(renderer.effective_row_width(0), 3);
    assert!(renderer.seq_has_predictions(7));
    renderer.apply_cell(0, 2, 1, 'y', None);
    assert!(!renderer.has_active_predictions());
    assert_eq!(renderer.cell_for_render(0, 2), ('y', None, false));
}

#[test]
fn shifting_and_shrinking_predictions() {
    let mut renderer = GridRenderer::new(1, 8);
    renderer.add_prediction(0, 3, 1, 'a');
    renderer.add_prediction(0, 5, 2, 'b');
    renderer.add_prediction(1, 5, 3, 'c');
    assert!(renderer.shift_predictions_left(0, 2));
    assert!(renderer.prediction_exists(0, 1, 1));
    assert!(renderer.prediction_exists(0, 3, 2));
    assert!(renderer.prediction_exists(1, 5, 3));
    assert!(!renderer.shift_predictions_left(2, 1));
    assert!(!renderer.shift_predictions_left(0, 0));
    assert!(renderer.shrink_row_to_column(0, 2));
    assert!(renderer.prediction_exists(0, 1, 1));
    assert!(!renderer.prediction_exists(0, 3, 2));
    renderer.clear_prediction_seq(1);
    assert!(!renderer.seq_has_predictions(1));
    renderer.clear_all_predictions();
    assert!(!renderer.has_active_predictions());
}

#[test]
fn shrinking_pulls_width_back_over_spaces() {
    let mut renderer = GridRenderer::new(1, 8);
    renderer.apply_cell(0, 0, 1, 'a', None);
    renderer.apply_cell(0, 4, 1, ' ', None);
    assert_eq!(renderer.committed_row_width(0), 5);
    assert!(renderer.shrink_row_to_column(0, 2));
    assert_eq!(renderer.committed_row_width(0), 2);
    assert!(!renderer.shrink_row_to_column(0, 2));
}

#[test]
fn gaps_and_unloaded_ranges() {
    let mut renderer = GridRenderer::new(6, 3);
    renderer.apply_row_from_text(0, 1, "a");
    renderer.mark_row_missing(1);
    renderer.apply_row_from_text(4, 1, "b");
    assert_eq!(renderer.first_gap_between(0, 6), Some((2, 2)));
    assert_eq!(renderer.first_gap_between(3, 4), Some((3, 1)));
    assert_eq!(renderer.first_gap_between(4, 4), None);
    renderer.on_resize(3, 8);
    renderer.scroll_to_top();
    assert_eq!(renderer.first_unloaded_range(0), Some((1, 3)));
    renderer.mark_row_pending(1);
    assert_eq!(renderer.first_gap_between(0, 6), Some((1, 3)));
}

#[test]
fn scrolling_stays_within_the_rows() {
    let mut renderer = GridRenderer::new(0, 3);
    for row in 0..20usize {
        renderer.apply_row_from_text(row, 1, "x");
    }
    renderer.on_resize(3, 7);
    assert_eq!(renderer.viewport_height(), 5);
    assert_eq!(renderer.viewport_top(), 15);
    renderer.scroll_lines(-3);
    assert_eq!(renderer.viewport_top(), 12);
    assert!(!renderer.is_following_tail());
    renderer.scroll_pages(-10);
    assert_eq!(renderer.viewport_top(), 0);
    renderer.scroll_lines(100);
    assert_eq!(renderer.viewport_top(), 15);
    assert!(renderer.is_following_tail());
    renderer.ensure_row_visible(2);
    assert_eq!(renderer.viewport_top(), 2);
    renderer.ensure_row_visible(19);
    assert_eq!(renderer.viewport_top(), 15);
    assert!(!renderer.is_following_tail());
    renderer.toggle_follow_tail();
    assert!(renderer.is_following_tail());
    renderer.toggle_follow_tail();
    assert!(!renderer.is_following_tail());
}

#[test]
fn cursor_positions() {
    let mut renderer = GridRenderer::new(10, 4);
    renderer.on_resize(4, 5);
    renderer.scroll_to_top();
    renderer.set_cursor(2, 9, true);
    assert_eq!(renderer.get_cursor(), Some((2, 9, true)));
    assert_eq!(renderer.cursor_viewport_position(), Some((3, 2)));
    assert_eq!(renderer.cursor_col_for_row(2), Some(3));
    assert_eq!(renderer.cursor_col_for_row(1), None);
    let area = WidgetArea { x: 1, y: 1, width: 10, height: 10 };
    assert_eq!(renderer.cursor_widget_position(area), Some((4, 3)));
    renderer.set_cursor(7, 0, true);
    assert_eq!(renderer.cursor_viewport_position(), None);
    renderer.set_cursor(2, 0, false);
    assert_eq!(renderer.cursor_viewport_position(), None);
    renderer.clear_cursor();
    assert_eq!(renderer.get_cursor(), None);
}

#[test]
fn clamp_position_stays_on_text() {
    let mut renderer = GridRenderer::new(0, 6);
    renderer.set_base_row(5);
    renderer.apply_row_from_text(5, 1, "abc");
    renderer.apply_row_from_text(6, 1, "");
    assert_eq!(renderer.clamp_position(0, 10), SelectionPosition { row: 5, col: 2 });
    assert_eq!(renderer.clamp_position(99, 3), SelectionPosition { row: 6, col: 0 });
    assert_eq!(renderer.clamp_position(5, -4), SelectionPosition { row: 5, col: 0 });
    let empty = GridRenderer::new(0, 3);
    assert_eq!(empty.clamp_position(4, 4), SelectionPosition { row: 0, col: 0 });
}

#[test]
fn status_line_and_dirty_tracking() {
    let mut renderer = GridRenderer::new(2, 2);
    assert!(renderer.take_dirty());
    assert!(!renderer.take_dirty());
    renderer.set_status_error_message(Some("boom".to_string()));
    assert_eq!(renderer.status_for_test(), (Some("boom".to_string()), true));
    assert!(renderer.take_dirty());
    renderer.set_status_with_highlight(Some("copied".to_string()), Some("5 chars".to_string()));
    assert_eq!(renderer.status_for_test(), (Some("copied".to_string()), false));
    assert_eq!(renderer.status_highlight(), Some("5 chars".to_string()));
    renderer.set_status_error_message(None::<String>);
    assert_eq!(renderer.status_for_test(), (None, false));
    renderer.set_connection_status("online".to_string(), Style::default());
    assert_eq!(renderer.connection_status().unwrap().text, "online");
    let warn = Style { fg: 3, bg: 0, attrs: 1 };
    renderer.set_connection_status("reconnecting".to_string(), warn);
    let indicator = renderer.connection_status().unwrap();
    assert_eq!(indicator.text, "reconnecting");
    assert_eq!(indicator.style, warn);
    renderer.clear_connection_status();
    assert!(renderer.connection_status().is_none());
}

#[test]
fn frames_size_the_viewport() {
    let mut renderer = GridRenderer::new(4, 2);
    assert_eq!(renderer.prepare_frame(10), (2, 8));
    assert_eq!(renderer.viewport_height(), 8);
    assert_eq!(renderer.prepare_frame(2), (1, 1));
    assert_eq!(renderer.prepare_frame(0), (1, 0));
    assert_eq!(renderer.viewport_height(), 1);
    renderer.finish_frame();
    assert!(!renderer.take_dirty());
}

#[test]
fn layout_lists_rows_below_blank_lines() {
    let mut renderer = GridRenderer::new(0, 2);
    renderer.on_resize(2, 6);
    renderer.set_base_row(3);
    renderer.set_history_origin(3);
    renderer.apply_row_from_text(3, 1, "ab");
    renderer.apply_row_from_text(4, 1, "cd");
    renderer.mark_row_pending(5);
    renderer.scroll_to_tail();
    let (blanks, lines) = renderer.visible_layout();
    assert_eq!(blanks, 2);
    assert_eq!(
        lines,
        vec![
            LayoutLine { absolute: 3, kind: LineKind::Loaded },
            LayoutLine { absolute: 4, kind: LineKind::Loaded },
        ]
    );
    assert_eq!(renderer.visible_lines(), vec!["   ", "   ", "ab ", "cd "]);
}

#[test]
fn segments_from_column_zero_blank_the_rest_of_the_row() {
    let mut renderer = GridRenderer::new(1, 5);
    renderer.apply_row_from_text(0, 1, "hello");
    renderer.apply_segment(0, &[(0, 2, 'h', None), (1, 2, 'i', None)]);
    assert_eq!(renderer.row_text(0), Some("hi    ".to_string()));
    renderer.apply_segment(0, &[(3, 3, 'x', None)]);
    assert_eq!(renderer.row_text(0), Some("hi x  ".to_string()));
}

#[test]
fn rectangles_fill_rows() {
    let mut renderer = GridRenderer::new(0, 4);
    renderer.apply_rect(1..3, 1..3, 5, '#', Some(2));
    assert_eq!(renderer.row_text(1), Some(" ## ".to_string()));
    assert_eq!(renderer.row_text(2), Some(" ## ".to_string()));
    assert_eq!(renderer.row_text_for_test(0), Some("····".to_string()));
    assert_eq!(renderer.cell_for_render(1, 1), ('#', Some(2), false));
}

#[test]
fn styles_decode_colours_and_attributes() {
    assert_eq!(decode_color(0), None);
    assert_eq!(decode_color(0x0100_0007), Some(ColorSpec::Indexed(7)));
    assert_eq!(decode_color(0x0212_3456), Some(ColorSpec::Rgb(0x12, 0x34, 0x56)));
    assert_eq!(decode_color(0x0300_0001), None);
    let m = decode_modifiers(0b1000_0101);
    assert!(m.bold && m.underlined && m.hidden);
    assert!(!m.italic && !m.crossed_out && !m.reversed && !m.slow_blink && !m.dim);
    let mut renderer = GridRenderer::new(1, 1);
    renderer.set_style(4, 0x0100_0001, 0, 1);
    assert_eq!(renderer.style_for(4), Some(Style { fg: 0x0100_0001, bg: 0, attrs: 1 }));
    assert_eq!(renderer.style_for(5), None);
}

#[test]
fn cell_appearance_combines_prediction_selection_and_cursor() {
    let mut renderer = GridRenderer::new(0, 10);
    renderer.on_resize(10, 5);
    renderer.apply_row_from_text(0, 1, "abc");
    renderer.set_predictions_visible(true);
    renderer.set_prediction_flagging(true);
    renderer.add_prediction(0, 3, 7, 'x');
    renderer.set_selection(
        SelectionPosition { row: 0, col: 0 },
        SelectionPosition { row: 0, col: 1 },
        SelectionMode::Character,
    );
    renderer.set_cursor(0, 25, true);

    let a = renderer.cell_appearance(0, 0);
    assert_eq!((a.ch, a.underlined, a.selected, a.cursor), ('a', false, true, false));
    let p = renderer.cell_appearance(0, 3);
    assert_eq!((p.ch, p.style_id, p.underlined, p.selected), ('x', None, true, false));
    let last = renderer.cell_appearance(0, 9);
    assert_eq!((last.ch, last.cursor), (' ', true));

    renderer.set_prediction_flagging(false);
    assert!(!renderer.cell_appearance(0, 3).underlined);
}

#[test]
fn status_line_texts() {
    let mut renderer = GridRenderer::new(0, 10);
    renderer.on_resize(10, 5);
    for row in 0..4usize {
        renderer.apply_row_from_text(row, 1, "x");
    }
    renderer.set_status_with_highlight(Some("scrollback".to_string()), Some("ESC exit".to_string()));
    let (plain, highlight) = renderer.status_line_texts();
    assert_eq!(plain, format!("rows 4 • showing 3 • scroll {} • scrollback", renderer.viewport_top()));
    assert_eq!(highlight.as_deref(), Some(" • ESC exit"));
    renderer.set_status_error_message(Some("boom".to_string()));
    let (plain, highlight) = renderer.status_line_texts();
    assert!(plain.ends_with(" • boom"));
    assert_eq!(highlight, None);
}
