use beach::client::terminal::debug::{requests_for_query, response_report};
use beach::debug::ipc::{diagnostic_socket_file_name, frame_header, frame_len};
use beach::debug::{
    CacheState, CursorState, DiagnosticRequest, DiagnosticResponse, RendererState, TerminalDimensions,
};

#[test]
fn no_query_asks_for_everything_cursor_first() {
    assert_eq!(
        requests_for_query(None).unwrap(),
        vec![
            DiagnosticRequest::GetCursorState,
            DiagnosticRequest::GetRendererState,
            DiagnosticRequest::GetTerminalDimensions,
            DiagnosticRequest::GetCacheState,
        ]
    );
}

#[test]
fn queries_are_matched_in_lower_case() {
    assert_eq!(
        requests_for_query(Some("Cursor".to_string())).unwrap(),
        vec![DiagnosticRequest::GetCursorState, DiagnosticRequest::GetRendererState]
    );
    assert_eq!(
        requests_for_query(Some("DIMENSIONS".to_string())).unwrap(),
        vec![DiagnosticRequest::GetTerminalDimensions]
    );
    assert_eq!(requests_for_query(Some("cache".to_string())).unwrap(), vec![DiagnosticRequest::GetCacheState]);
    assert_eq!(
        requests_for_query(Some("renderer".to_string())).unwrap(),
        vec![DiagnosticRequest::GetRendererState]
    );
    assert_eq!(
        requests_for_query(Some("all".to_string())).unwrap(),
        vec![
            DiagnosticRequest::GetCursorState,
            DiagnosticRequest::GetTerminalDimensions,
            DiagnosticRequest::GetCacheState,
            DiagnosticRequest::GetRendererState,
        ]
    );
}

#[test]
fn unknown_query_is_refused_with_the_valid_options() {
    assert_eq!(
        requests_for_query(Some("Bogus".to_string())).unwrap_err(),
        "Unknown query type: Bogus. Valid options: cursor, dimensions, cache, renderer, all"
    );
}

#[test]
fn frame_header_is_big_endian_length() {
    assert_eq!(frame_header(0x0102_0304), [1, 2, 3, 4]);
    assert_eq!(frame_header(17), [0, 0, 0, 17]);
    assert_eq!(frame_len([1, 2, 3, 4]), 0x0102_0304);
    assert_eq!(frame_len(frame_header(65_537)), 65_537);
}

#[test]
fn socket_file_name_embeds_the_session() {
    assert_eq!(diagnostic_socket_file_name("abc-123"), "beach-debug-abc-123.sock");
}

#[test]
fn cursor_report_lines() {
    let (lines, to_stderr) = response_report(&DiagnosticResponse::CursorState(CursorState {
        row: 12,
        col: 0,
        seq: 4096,
        visible: true,
        authoritative: false,
        cursor_support: false,
    }));
    assert!(!to_stderr);
    assert_eq!(
        lines,
        vec![
            "=== Cursor State (Client Cache) ===",
            "  Position:      row=12, col=0",
            "  Sequence:      4096",
            "  Visible:       true",
            "  Authoritative: false",
            "  Cursor support: false (server NOT sending cursor frames)",
            "",
        ]
    );
}

#[test]
fn renderer_report_lines() {
    let state = RendererState {
        cursor_row: 120,
        cursor_col: 7,
        cursor_visible: true,
        base_row: 100,
        viewport_top: 110,
        cursor_viewport_position: Some((7, 10)),
    };
    let (lines, _) = response_report(&DiagnosticResponse::RendererState(state));
    assert_eq!(lines[1], "  Cursor:        row=120, col=7");
    assert_eq!(lines[5], "  Cursor viewport pos: (7, 10) - VISIBLE IN TUI");
    let hidden = RendererState {
        cursor_viewport_position: None,
        ..state
    };
    let (lines, _) = response_report(&DiagnosticResponse::RendererState(hidden));
    assert_eq!(lines[5], "  Cursor viewport pos: None - NOT VISIBLE IN TUI");
    assert_eq!(lines.len(), 7);
}

#[test]
fn dimension_and_cache_report_lines() {
    let (lines, _) = response_report(&DiagnosticResponse::TerminalDimensions(TerminalDimensions {
        rows: 200,
        cols: 80,
        viewport_rows: 24,
        viewport_cols: 80,
    }));
    assert_eq!(lines[1], "  Grid:     200x80 (rows x cols)");
    assert_eq!(lines[2], "  Viewport: 24x80 (rows x cols)");
    let (lines, _) = response_report(&DiagnosticResponse::CacheState(CacheState {
        grid_rows: 10,
        grid_cols: 80,
        row_offset: 5,
        first_row_id: Some(5),
        last_row_id: None,
    }));
    assert_eq!(
        lines,
        vec![
            "=== Cache State ===",
            "  Grid size:   10x80 (rows x cols)",
            "  Row offset:  5",
            "  First row:   5",
            "",
        ]
    );
}

#[test]
fn error_report_goes_to_stderr() {
    let (lines, to_stderr) = response_report(&DiagnosticResponse::Error("no client".to_string()));
    assert!(to_stderr);
    assert_eq!(lines, vec!["Error: no client"]);
}
