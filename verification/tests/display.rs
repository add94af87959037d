use alacritty::config::General;
use alacritty::display::{
    apply_display_update, cursor_style_int, hyperlink_preview_lines, line_indicator,
    draws_native_cursor, percentile_indices, pipeline_change, search_bar_line,
    shader_effect_active, should_request_frame, vi_line_indicator, wants_vsync, PipelineChange,
    secondary_cursor_slots, shader_cursor_counts, CursorShape, DisplayUpdate, FrameTimer,
    PhysicalSize, RendererUpdate,
};
use alacritty::ime::{preedit_layout, Ime, Preedit};
use alacritty::size_info::{SizeInfo, MIN_COLUMNS, MIN_SCREEN_LINES};

#[test]
fn general_defaults() {
    let general = General::default();
    assert!(general.import.is_empty());
    assert!(general.working_directory.is_none());
    assert!(general.live_config_reload);
    assert!(general.ipc_socket);
    assert!(general.custom_shader.is_empty());
}

#[test]
fn size_info_keeps_minimum_grid() {
    let size = SizeInfo::from_fitted(100.0f32, 50.0, 10.0, 20.0, 1.0, 2.0, 0, 1);
    assert_eq!(size.screen_lines(), MIN_SCREEN_LINES);
    assert_eq!(size.columns(), MIN_COLUMNS);
    assert_eq!(size.total_lines(), MIN_SCREEN_LINES);
    assert_eq!(size.width(), 100.0);
    assert_eq!(size.height(), 50.0);
    assert_eq!(size.cell_width(), 10.0);
    assert_eq!(size.cell_height(), 20.0);
    assert_eq!(size.padding_x(), 1.0);
    assert_eq!(size.padding_y(), 2.0);
}

#[test]
fn size_info_reserve_lines() {
    let mut size = SizeInfo::from_fitted(800.0f32, 600.0, 8.0, 16.0, 0.0, 0.0, 37, 100);
    size.reserve_lines(2);
    assert_eq!(size.screen_lines(), 35);
    size.reserve_lines(100);
    assert_eq!(size.screen_lines(), MIN_SCREEN_LINES);
    assert_eq!(size.columns(), 100);
}

#[test]
fn size_info_reserve_composes() {
    let mut a = SizeInfo::from_fitted(1.0f32, 1.0, 1.0, 1.0, 0.0, 0.0, 10, 10);
    let mut b = a;
    a.reserve_lines(3);
    a.reserve_lines(4);
    b.reserve_lines(7);
    assert_eq!(a.screen_lines(), b.screen_lines());
}

#[test]
fn size_info_from_parts_keeps_everything() {
    let size = SizeInfo::from_parts(3u32, 4, 5, 6, 7, 8, 0, 0);
    assert_eq!(size.screen_lines(), 0);
    assert_eq!(size.columns(), 0);
    assert_eq!(size.padding_y(), 8);
}

#[test]
fn display_update_setters_mark_dirty() {
    let mut update: DisplayUpdate<u8> = DisplayUpdate::default();
    assert!(!update.dirty);
    assert!(update.dimensions().is_none());
    assert!(update.font().is_none());
    assert!(!update.cursor_dirty());

    update.set_dimensions(PhysicalSize { width: 640, height: 480 });
    assert!(update.dirty);
    assert_eq!(update.dimensions(), Some(PhysicalSize { width: 640, height: 480 }));

    let mut update: DisplayUpdate<u8> = DisplayUpdate::default();
    update.set_font(7);
    assert!(update.dirty);
    assert_eq!(update.font(), Some(&7));

    let mut update: DisplayUpdate<u8> = DisplayUpdate::default();
    update.set_cursor_dirty();
    assert!(update.dirty);
    assert!(update.cursor_dirty());
}

#[test]
fn renderer_update_queueing() {
    let mut pending: Option<RendererUpdate> = None;
    RendererUpdate::queue_clear_font_cache(&mut pending);
    assert_eq!(pending, Some(RendererUpdate { resize: false, clear_font_cache: true }));
    RendererUpdate::queue_resize(&mut pending);
    assert_eq!(pending, Some(RendererUpdate { resize: true, clear_font_cache: true }));

    let mut pending: Option<RendererUpdate> = None;
    RendererUpdate::queue_resize(&mut pending);
    assert_eq!(pending, Some(RendererUpdate { resize: true, clear_font_cache: false }));
}

#[test]
fn cursor_styles() {
    assert_eq!(cursor_style_int(CursorShape::Block), Some(0));
    assert_eq!(cursor_style_int(CursorShape::HollowBlock), Some(1));
    assert_eq!(cursor_style_int(CursorShape::Beam), Some(2));
    assert_eq!(cursor_style_int(CursorShape::Underline), Some(3));
    assert_eq!(cursor_style_int(CursorShape::Hidden), None);
}

#[test]
fn shader_cursor_counts_blink() {
    assert_eq!(shader_cursor_counts(true, true, 2, 1), (3, 2));
    // Blinked off: no current cursor, previous kept.
    assert_eq!(shader_cursor_counts(false, true, 2, 1), (0, 2));
    // Hidden by the application: still reported.
    assert_eq!(shader_cursor_counts(false, false, 0, 0), (1, 1));
}

#[test]
fn secondary_slots() {
    assert_eq!(secondary_cursor_slots(3, 5), 5);
    assert_eq!(secondary_cursor_slots(-4, -1), 0);
    assert_eq!(secondary_cursor_slots(100, 2), 63);
}

#[test]
fn percentiles() {
    assert_eq!(percentile_indices(1), (0, 0));
    assert_eq!(percentile_indices(50), (0, 49));
    assert_eq!(percentile_indices(250), (1, 248));
}

#[test]
fn line_indicator_layout() {
    let indicator = line_indicator(5, 120, 80, None);
    assert_eq!(indicator.text, "[5/119]");
    assert_eq!(indicator.column, 73);
    assert!(indicator.visible);

    let indicator = line_indicator(0, 1, 4, Some(0));
    assert_eq!(indicator.text, "[0/0]");
    assert_eq!(indicator.column, 0);
    assert!(!indicator.visible);

    let indicator = line_indicator(12345, 100000, 80, Some(79));
    assert_eq!(indicator.text, "[12345/99999]");
    assert_eq!(indicator.column, 67);
    assert!(!indicator.visible);
    let indicator = line_indicator(12345, 100000, 80, Some(66));
    assert!(indicator.visible);
}

#[test]
fn frame_timer_interval_change() {
    let mut timer = FrameTimer::new(1_000);
    // First call changes the interval from zero.
    assert_eq!(timer.compute_timeout(16_000_000, 5_000), 16_000_000);
    // Before the next tick: wait until it.
    assert_eq!(timer.compute_timeout(16_000_000, 10_000_000), 6_005_000);
    // The next tick has passed: redraw at once.
    assert_eq!(timer.compute_timeout(16_000_000, 40_000_000), 0);
    // The clock was resynced to the last tick: 40 ms - (39.995 ms % 16 ms).
    assert_eq!(timer.compute_timeout(16_000_000, 40_000_000), 8_005_000);
}

#[test]
fn ime_enable_and_disable() {
    let mut ime = Ime::default();
    assert!(!ime.is_enabled());
    ime.set_enabled(true);
    ime.set_preedit(Some(Preedit::new("abc".to_string(), None)));
    assert!(ime.is_enabled());
    assert!(ime.preedit().is_some());
    ime.set_enabled(true);
    assert!(ime.preedit().is_some());
    ime.set_enabled(false);
    assert!(!ime.is_enabled());
    assert!(ime.preedit().is_none());
}

#[test]
fn preedit_offsets_in_columns() {
    // Two wide characters of three bytes each, then one narrow.
    let preedit = Preedit::new("\u{6f22}\u{5b57}a".to_string(), Some((0, 3)));
    assert_eq!(preedit.cursor_byte_offset(), Some((0, 3)));
    assert_eq!(preedit.cursor_end_offset(), Some((5, 3)));
    assert_eq!(preedit.text(), "\u{6f22}\u{5b57}a");

    let preedit = Preedit::new("ab".to_string(), Some((2, 2)));
    assert_eq!(preedit.cursor_end_offset(), Some((0, 0)));

    // Control characters count as one column.
    let preedit = Preedit::new("\u{1}b".to_string(), Some((0, 1)));
    assert_eq!(preedit.cursor_end_offset(), Some((2, 1)));

    let preedit = Preedit::new("ab".to_string(), None);
    assert_eq!(preedit.cursor_end_offset(), None);
}

#[test]
fn display_update_reserves_lines_and_queues_updates() {
    let current = SizeInfo::from_parts(800.0f32, 600.0, 10.0, 20.0, 5.0, 5.0, 29, 79);
    let fitted = SizeInfo::from_parts(800.0f32, 600.0, 10.0, 20.0, 5.0, 5.0, 29, 79);
    let mut update: DisplayUpdate<u32> = DisplayUpdate::default();

    // Nothing changed: nothing queued, no resize.
    let mut pending = None;
    let r = apply_display_update(&update, &current, fitted, 0, false, false, &mut pending);
    assert!(!r.resize_terminal);
    assert_eq!(r.size.screen_lines(), 29);
    assert_eq!(pending, None);

    // A message bar of two lines and an active search take three lines.
    let r = apply_display_update(&update, &current, fitted, 2, true, false, &mut pending);
    assert!(r.resize_terminal);
    assert_eq!(r.size.screen_lines(), 26);
    assert_eq!(r.size.columns(), 79);
    assert_eq!(pending, Some(RendererUpdate { resize: true, clear_font_cache: false }));

    // A font change queues a font cache reset; pixel metrics changes a resize.
    update.set_font(12);
    let mut pending = None;
    let r = apply_display_update(&update, &current, fitted, 0, false, true, &mut pending);
    assert!(!r.resize_terminal);
    assert_eq!(pending, Some(RendererUpdate { resize: true, clear_font_cache: true }));
}

#[test]
fn preedit_layout_shifts_into_line() {
    // Fits at the requested column.
    let l = preedit_layout(3, 4, 80, None);
    assert_eq!((l.start_column, l.end_column, l.cursor), (3, 6, None));
    assert_eq!(l.popup_column(), 6);
    // Would run past the end: shifted left.
    let l = preedit_layout(78, 5, 80, Some((2, 2)));
    assert_eq!((l.start_column, l.end_column), (75, 79));
    let c = l.cursor.unwrap();
    assert_eq!((c.column, c.shape, c.width), (78, CursorShape::Beam, 1));
    assert_eq!(l.popup_column(), 78);
    // Several changed characters: hollow block over them.
    let l = preedit_layout(0, 6, 80, Some((6, 2)));
    let c = l.cursor.unwrap();
    assert_eq!((c.column, c.shape, c.width), (0, CursorShape::HollowBlock, 4));
    // Text wider than the line starts at column 0.
    let l = preedit_layout(2, 10, 4, Some((12, 0)));
    assert_eq!((l.start_column, l.end_column), (0, 3));
    assert_eq!(l.cursor.unwrap().column, 0);
}

#[test]
fn hyperlink_previews_avoid_protected_lines() {
    // Enough room: the mouse hint line (grid line 9) and the cursor line
    // (grid line 8) stay clear.
    let lines = hyperlink_preview_lines(2, 10, 0, Some(9), Some(8));
    assert_eq!(lines, vec![7, 6]);
    // Scrolled back by 3: grid line 5 is viewport line 8.
    let lines = hyperlink_preview_lines(1, 10, 3, Some(5), None);
    assert_eq!(lines, vec![9]);
    let lines = hyperlink_preview_lines(1, 10, 3, Some(6), None);
    assert_eq!(lines, vec![8]);
    // Too little room: the bottom lines are used regardless.
    let lines = hyperlink_preview_lines(2, 4, 0, Some(3), Some(2));
    assert_eq!(lines, vec![3, 2]);
    // More previews than lines.
    let lines = hyperlink_preview_lines(5, 3, 0, None, None);
    assert_eq!(lines, vec![2, 1, 0]);
    assert!(hyperlink_preview_lines(0, 3, 0, None, None).is_empty());
}

#[test]
fn pipeline_changes_on_reload() {
    assert_eq!(pipeline_change(true, false), PipelineChange::Reload);
    assert_eq!(pipeline_change(true, true), PipelineChange::Reload);
    assert_eq!(pipeline_change(false, true), PipelineChange::Disable);
    assert_eq!(pipeline_change(false, false), PipelineChange::Keep);
}

#[test]
fn search_bar_is_padded_to_grid_width() {
    assert_eq!(search_bar_line("Search: ab ", 14), "Search: ab    ");
    assert_eq!(search_bar_line("Search: abcdef ", 4), "Search: abcdef ");
    assert_eq!(search_bar_line("", 3), "   ");
    assert_eq!(search_bar_line("é", 2).chars().count(), 2);
}

#[test]
fn frame_timer_refuses_undefined_timeouts() {
    let mut timer = FrameTimer::new(0);
    // A new interval is always taken.
    assert_eq!(timer.try_compute_timeout(500, 100), Some(500));
    // Catching up on a sub-microsecond interval is undefined: nothing changes.
    assert_eq!(timer.try_compute_timeout(500, 10_000), None);
    // Waiting for the next tick is fine.
    assert_eq!(timer.try_compute_timeout(500, 300), Some(300));
    let mut timer = FrameTimer::new(u64::MAX - 10);
    assert_eq!(timer.try_compute_timeout(1_000, u64::MAX - 10), Some(1_000));
    // The next frame instant would overflow.
    assert_eq!(timer.try_compute_timeout(1_000, u64::MAX), None);
}

#[test]
fn vi_cursor_line_indicator() {
    // Bottom line of a 24-line screen is history line 0 from the bottom.
    assert_eq!(vi_line_indicator(23, 5, 24, 0), (0, None));
    // Top line with no scrollback: the cursor obstructs its column.
    assert_eq!(vi_line_indicator(0, 7, 24, 0), (23, Some(7)));
    // In the scrollback, on the top line of a viewport scrolled back by 10.
    assert_eq!(vi_line_indicator(-10, 3, 24, 10), (33, Some(3)));
    assert_eq!(vi_line_indicator(-9, 3, 24, 10), (32, None));
}

#[test]
fn frame_decisions() {
    assert!(should_request_frame(true, true));
    assert!(should_request_frame(false, false));
    assert!(!should_request_frame(false, true));
    assert!(draws_native_cursor(false));
    assert!(!draws_native_cursor(true));
    assert!(shader_effect_active(true, true));
    assert!(!shader_effect_active(true, false));
    assert!(!shader_effect_active(false, true));
}

#[test]
fn vsync_follows_the_pipeline() {
    assert!(wants_vsync(true));
    assert!(!wants_vsync(false));
}
