//! The `debug` subcommand: which diagnostics a query asks a running client
//! for.

use vstd::prelude::*;
use vstd::string::StringExecFns;

use crate::debug::{CacheState, CursorState, DiagnosticRequest, DiagnosticResponse, RendererState, TerminalDimensions};
use crate::text::{bool_string, bool_text, decimal, decimal_string, spec_to_lowercase, str_to_lowercase};

verus! {

/// The requests sent when no query is given.
pub open spec fn spec_default_requests() -> Seq<DiagnosticRequest> {
    seq![
        DiagnosticRequest::GetCursorState,
        DiagnosticRequest::GetRendererState,
        DiagnosticRequest::GetTerminalDimensions,
        DiagnosticRequest::GetCacheState,
    ]
}

/// The requests a lower-cased query names, `None` for an unknown query.
pub open spec fn spec_requests_for(query: Seq<char>) -> Option<Seq<DiagnosticRequest>> {
    if query == "cursor"@ {
        Some(seq![DiagnosticRequest::GetCursorState, DiagnosticRequest::GetRendererState])
    } else if query == "dimensions"@ {
        Some(seq![DiagnosticRequest::GetTerminalDimensions])
    } else if query == "cache"@ {
        Some(seq![DiagnosticRequest::GetCacheState])
    } else if query == "renderer"@ {
        Some(seq![DiagnosticRequest::GetRendererState])
    } else if query == "all"@ {
        Some(
            seq![
                DiagnosticRequest::GetCursorState,
                DiagnosticRequest::GetTerminalDimensions,
                DiagnosticRequest::GetCacheState,
                DiagnosticRequest::GetRendererState,
            ],
        )
    } else {
        None
    }
}

/// The message for an unknown query `query`.
pub open spec fn spec_unknown_query_message(query: Seq<char>) -> Seq<char> {
    "Unknown query type: "@ + query + ". Valid options: cursor, dimensions, cache, renderer, all"@
}

/// The diagnostics to request for the optional `query` of the `debug`
/// subcommand, in the order they are sent and printed. The query is
/// matched in lower case; an unknown one is refused with a message that
/// lists the valid ones.
pub fn requests_for_query(query: Option<String>) -> (res: Result<Vec<DiagnosticRequest>, String>)
    ensures
        match query {
            None => res matches Ok(v) && v@ == spec_default_requests(),
            Some(q) => match spec_requests_for(spec_to_lowercase(q@)) {
                Some(reqs) => res matches Ok(v) && v@ == reqs,
                None => res matches Err(msg) && msg@ == spec_unknown_query_message(q@),
            },
        },
{
    match query {
        None => {
            let v = vec![
                DiagnosticRequest::GetCursorState,
                DiagnosticRequest::GetRendererState,
                DiagnosticRequest::GetTerminalDimensions,
                DiagnosticRequest::GetCacheState,
            ];
            Ok(v)
        },
        Some(q) => {
            let lower = str_to_lowercase(q.as_str());
            let cursor = String::from_str("cursor");
            let dimensions = String::from_str("dimensions");
            let cache = String::from_str("cache");
            let renderer = String::from_str("renderer");
            let all = String::from_str("all");
            if lower == cursor {
                Ok(vec![DiagnosticRequest::GetCursorState, DiagnosticRequest::GetRendererState])
            } else if lower == dimensions {
                Ok(vec![DiagnosticRequest::GetTerminalDimensions])
            } else if lower == cache {
                Ok(vec![DiagnosticRequest::GetCacheState])
            } else if lower == renderer {
                Ok(vec![DiagnosticRequest::GetRendererState])
            } else if lower == all {
                Ok(
                    vec![
                        DiagnosticRequest::GetCursorState,
                        DiagnosticRequest::GetTerminalDimensions,
                        DiagnosticRequest::GetCacheState,
                        DiagnosticRequest::GetRendererState,
                    ],
                )
            } else {
                let mut msg = String::from_str("Unknown query type: ");
                msg.append(q.as_str());
                msg.append(". Valid options: cursor, dimensions, cache, renderer, all");
                Err(msg)
            }
        },
    }
}


/// `text` followed by the decimal digits of `n`.
pub open spec fn with_num(text: Seq<char>, n: nat) -> Seq<char> {
    text + decimal(n)
}

/// The lines the `debug` subcommand prints for a cursor report.
pub open spec fn spec_cursor_lines(c: CursorState) -> Seq<Seq<char>> {
    seq![
        "=== Cursor State (Client Cache) ==="@,
        with_num("  Position:      row="@, c.row as nat) + with_num(", col="@, c.col as nat),
        with_num("  Sequence:      "@, c.seq as nat),
        "  Visible:       "@ + bool_text(c.visible),
        "  Authoritative: "@ + bool_text(c.authoritative),
        "  Cursor support: "@ + bool_text(c.cursor_support) + " (server "@ + (if c.cursor_support {
            "IS "@
        } else {
            "NOT "@
        }) + "sending cursor frames)"@,
        ""@,
    ]
}

/// The lines the `debug` subcommand prints for a renderer report.
pub open spec fn spec_renderer_lines(r: RendererState) -> Seq<Seq<char>> {
    seq![
        "=== Renderer State (What's Actually Rendered) ==="@,
        with_num("  Cursor:        row="@, r.cursor_row as nat) + with_num(", col="@, r.cursor_col as nat),
        "  Cursor visible: "@ + bool_text(r.cursor_visible),
        with_num("  Base row:      "@, r.base_row as nat),
        with_num("  Viewport top:  "@, r.viewport_top as nat),
        match r.cursor_viewport_position {
            Some((col, row)) => with_num("  Cursor viewport pos: ("@, col as nat) + with_num(", "@, row as nat)
                + ") - VISIBLE IN TUI"@,
            None => "  Cursor viewport pos: None - NOT VISIBLE IN TUI"@,
        },
        ""@,
    ]
}

/// The lines the `debug` subcommand prints for a dimensions report.
pub open spec fn spec_dimension_lines(d: TerminalDimensions) -> Seq<Seq<char>> {
    seq![
        "=== Terminal Dimensions ==="@,
        with_num("  Grid:     "@, d.rows as nat) + with_num("x"@, d.cols as nat) + " (rows x cols)"@,
        with_num("  Viewport: "@, d.viewport_rows as nat) + with_num("x"@, d.viewport_cols as nat)
            + " (rows x cols)"@,
        ""@,
    ]
}

/// The lines the `debug` subcommand prints for a cache report; the first
/// and last row lines only when those rows are known.
pub open spec fn spec_cache_lines(c: CacheState) -> Seq<Seq<char>> {
    let head = seq![
        "=== Cache State ==="@,
        with_num("  Grid size:   "@, c.grid_rows as nat) + with_num("x"@, c.grid_cols as nat) + " (rows x cols)"@,
        with_num("  Row offset:  "@, c.row_offset as nat),
    ];
    let first = match c.first_row_id {
        Some(f) => seq![with_num("  First row:   "@, f as nat)],
        None => Seq::empty(),
    };
    let last = match c.last_row_id {
        Some(l) => seq![with_num("  Last row:    "@, l as nat)],
        None => Seq::empty(),
    };
    head + first + last + seq![""@]
}

/// The lines the `debug` subcommand prints for `response`, and whether
/// they go to standard error (an error answer) rather than standard output.
pub open spec fn spec_response_report(response: DiagnosticResponse) -> (Seq<Seq<char>>, bool) {
    match response {
        DiagnosticResponse::CursorState(c) => (spec_cursor_lines(c), false),
        DiagnosticResponse::RendererState(r) => (spec_renderer_lines(r), false),
        DiagnosticResponse::TerminalDimensions(d) => (spec_dimension_lines(d), false),
        DiagnosticResponse::CacheState(c) => (spec_cache_lines(c), false),
        DiagnosticResponse::Error(e) => (seq!["Error: "@ + e@], true),
    }
}

fn text_num(text: &str, n: u64) -> (res: String)
    ensures
        res@ == with_num(text@, n as nat),
{
    let mut out = String::from_str(text);
    let digits = decimal_string(n);
    out.append(digits.as_str());
    out
}

fn push_line(lines: &mut Vec<String>, line: String)
    ensures
        final(lines)@.map_values(|l: String| l@) == old(lines)@.map_values(|l: String| l@).push(line@),
{
    let ghost before = lines@;
    lines.push(line);
    proof {
        assert(lines@.map_values(|l: String| l@) =~= before.map_values(|l: String| l@).push(line@));
    }
}

fn joined(a: String, b: String) -> (res: String)
    ensures
        res@ == a@ + b@,
{
    let mut out = a;
    out.append(b.as_str());
    out
}

fn cursor_lines(c: &CursorState) -> (res: Vec<String>)
    ensures
        res@.map_values(|l: String| l@) == spec_cursor_lines(*c),
{
    let mut lines: Vec<String> = Vec::new();
    push_line(&mut lines, String::from_str("=== Cursor State (Client Cache) ==="));
    push_line(
        &mut lines,
        joined(text_num("  Position:      row=", c.row as u64), text_num(", col=", c.col as u64)),
    );
    push_line(&mut lines, text_num("  Sequence:      ", c.seq));
    push_line(&mut lines, joined(String::from_str("  Visible:       "), bool_string(c.visible)));
    push_line(&mut lines, joined(String::from_str("  Authoritative: "), bool_string(c.authoritative)));
    let mut support = joined(String::from_str("  Cursor support: "), bool_string(c.cursor_support));
    support.append(" (server ");
    support.append(if c.cursor_support { "IS " } else { "NOT " });
    support.append("sending cursor frames)");
    push_line(&mut lines, support);
    push_line(&mut lines, String::from_str(""));
    proof {
        assert(lines@.map_values(|l: String| l@) =~= spec_cursor_lines(*c));
    }
    lines
}

fn renderer_lines(r: &RendererState) -> (res: Vec<String>)
    ensures
        res@.map_values(|l: String| l@) == spec_renderer_lines(*r),
{
    let mut lines: Vec<String> = Vec::new();
    push_line(&mut lines, String::from_str("=== Renderer State (What's Actually Rendered) ==="));
    push_line(&mut lines, joined(text_num("  Cursor:        row=", r.cursor_row), text_num(", col=", r.cursor_col as u64)));
    push_line(&mut lines, joined(String::from_str("  Cursor visible: "), bool_string(r.cursor_visible)));
    push_line(&mut lines, text_num("  Base row:      ", r.base_row));
    push_line(&mut lines, text_num("  Viewport top:  ", r.viewport_top));
    match r.cursor_viewport_position {
        Some((col, row)) => {
            let mut pos = joined(text_num("  Cursor viewport pos: (", col as u64), text_num(", ", row as u64));
            pos.append(") - VISIBLE IN TUI");
            push_line(&mut lines, pos);
        },
        None => {
            push_line(&mut lines, String::from_str("  Cursor viewport pos: None - NOT VISIBLE IN TUI"));
        },
    }
    push_line(&mut lines, String::from_str(""));
    proof {
        assert(lines@.map_values(|l: String| l@) =~= spec_renderer_lines(*r));
    }
    lines
}

fn dimension_lines(d: &TerminalDimensions) -> (res: Vec<String>)
    ensures
        res@.map_values(|l: String| l@) == spec_dimension_lines(*d),
{
    let mut lines: Vec<String> = Vec::new();
    push_line(&mut lines, String::from_str("=== Terminal Dimensions ==="));
    let mut grid = joined(text_num("  Grid:     ", d.rows as u64), text_num("x", d.cols as u64));
    grid.append(" (rows x cols)");
    push_line(&mut lines, grid);
    let mut viewport = joined(text_num("  Viewport: ", d.viewport_rows as u64), text_num("x", d.viewport_cols as u64));
    viewport.append(" (rows x cols)");
    push_line(&mut lines, viewport);
    push_line(&mut lines, String::from_str(""));
    proof {
        assert(lines@.map_values(|l: String| l@) =~= spec_dimension_lines(*d));
    }
    lines
}

fn cache_lines(c: &CacheState) -> (res: Vec<String>)
    ensures
        res@.map_values(|l: String| l@) == spec_cache_lines(*c),
{
    let mut lines: Vec<String> = Vec::new();
    push_line(&mut lines, String::from_str("=== Cache State ==="));
    let mut size = joined(text_num("  Grid size:   ", c.grid_rows as u64), text_num("x", c.grid_cols as u64));
    size.append(" (rows x cols)");
    push_line(&mut lines, size);
    push_line(&mut lines, text_num("  Row offset:  ", c.row_offset));
    if let Some(first) = c.first_row_id {
        push_line(&mut lines, text_num("  First row:   ", first));
    }
    if let Some(last) = c.last_row_id {
        push_line(&mut lines, text_num("  Last row:    ", last));
    }
    push_line(&mut lines, String::from_str(""));
    proof {
        assert(lines@.map_values(|l: String| l@) =~= spec_cache_lines(*c));
    }
    lines
}

/// The lines the `debug` subcommand prints for `response`, and whether
/// they go to standard error (see `spec_response_report`).
pub fn response_report(response: &DiagnosticResponse) -> (res: (Vec<String>, bool))
    ensures
        res.0@.map_values(|l: String| l@) == spec_response_report(*response).0,
        res.1 == spec_response_report(*response).1,
{
    match response {
        DiagnosticResponse::CursorState(c) => (cursor_lines(c), false),
        DiagnosticResponse::RendererState(r) => (renderer_lines(r), false),
        DiagnosticResponse::TerminalDimensions(d) => (dimension_lines(d), false),
        DiagnosticResponse::CacheState(c) => (cache_lines(c), false),
        DiagnosticResponse::Error(e) => {
            let mut lines: Vec<String> = Vec::new();
            push_line(&mut lines, joined(String::from_str("Error: "), e.clone()));
            proof {
                assert(lines@.map_values(|l: String| l@) =~= seq!["Error: "@ + e@]);
            }
            (lines, true)
        },
    }
}

} // verus!
