//! Pieces of the terminal client that decide without doing I/O: copy-mode
//! state, word motions within a line, and the names of prediction events.

use vstd::prelude::*;
use vstd::string::StringExecFns;

pub mod debug;
pub mod keys;
pub mod copy_mode;
pub mod join;
pub mod authorization;
pub mod view;
pub mod backfill;
pub mod scrollback;
pub mod copy;
pub mod wire;
pub mod prediction;
pub mod pending;

use super::grid_renderer::{SelectionMode, SelectionPosition};
use crate::cache::terminal::packed::{PackedCell, StyleId, spec_unpack_style, unpack_cell};

verus! {

/// The key bindings copy mode follows.
#[derive(Clone, Copy, Debug, PartialEq, Eq, Structural)]
pub enum CopyModeKeySet {
    Vi,
    Emacs,
}

/// The direction of a copy-mode search.
#[derive(Clone, Copy, Debug, PartialEq, Eq, Structural)]
pub enum CopyModeSearchDirection {
    Forward,
    Backward,
}

/// Input that copy mode is still collecting.
#[derive(Clone, Debug)]
pub enum CopyModePendingInput {
    Search { direction: CopyModeSearchDirection, buffer: String },
}

/// The last search run in copy mode.
#[derive(Clone, Debug)]
pub struct CopyModeSearch {
    pub direction: CopyModeSearchDirection,
    pub pattern: String,
}

/// The state of copy mode: a cursor, an optional selection from an anchor,
/// and pending search input.
#[derive(Clone, Debug)]
pub struct CopyModeState {
    pub anchor: SelectionPosition,
    pub cursor: SelectionPosition,
    pub selection_active: bool,
    pub selection_mode: SelectionMode,
    pub mode: CopyModeKeySet,
    pub pending_input: Option<CopyModePendingInput>,
    pub last_search: Option<CopyModeSearch>,
}

impl CopyModeState {
    /// Copy mode with the cursor at `anchor`, no selection and no search.
    pub fn new(anchor: SelectionPosition, mode: CopyModeKeySet) -> (res: Self)
        ensures
            res.anchor == anchor,
            res.cursor == anchor,
            !res.selection_active,
            res.selection_mode == SelectionMode::Character,
            res.mode == mode,
            res.pending_input is None,
            res.last_search is None,
    {
        CopyModeState {
            anchor,
            cursor: anchor,
            selection_active: false,
            selection_mode: SelectionMode::Character,
            mode,
            pending_input: None,
            last_search: None,
        }
    }

    /// Starts a selection in `mode` anchored at the cursor.
    pub fn begin_selection(&mut self, mode: SelectionMode)
        ensures
            final(self).selection_active,
            final(self).selection_mode == mode,
            final(self).anchor == old(self).cursor,
            final(self).cursor == old(self).cursor,
            final(self).mode == old(self).mode,
            final(self).pending_input == old(self).pending_input,
            final(self).last_search == old(self).last_search,
    {
        self.selection_active = true;
        self.selection_mode = mode;
        self.anchor = self.cursor;
    }

    /// Ends the selection, keeping the cursor.
    pub fn clear_selection(&mut self)
        ensures
            !final(self).selection_active,
            final(self).selection_mode == old(self).selection_mode,
            final(self).anchor == old(self).anchor,
            final(self).cursor == old(self).cursor,
            final(self).mode == old(self).mode,
            final(self).pending_input == old(self).pending_input,
            final(self).last_search == old(self).last_search,
    {
        self.selection_active = false;
    }

    /// Ends an active selection, or starts a character selection at the
    /// cursor.
    pub fn toggle_selection(&mut self)
        ensures
            final(self).selection_active == !old(self).selection_active,
            final(self).cursor == old(self).cursor,
            final(self).mode == old(self).mode,
            final(self).pending_input == old(self).pending_input,
            final(self).last_search == old(self).last_search,
            old(self).selection_active ==> final(self).anchor == old(self).anchor && final(self).selection_mode
                == old(self).selection_mode,
            !old(self).selection_active ==> final(self).anchor == old(self).cursor && final(self).selection_mode
                == SelectionMode::Character,
    {
        if self.selection_active {
            self.selection_active = false;
        } else {
            self.begin_selection(SelectionMode::Character);
        }
    }
}

/// The opposite search direction.
pub open spec fn spec_reverse_direction(direction: CopyModeSearchDirection) -> CopyModeSearchDirection {
    match direction {
        CopyModeSearchDirection::Forward => CopyModeSearchDirection::Backward,
        CopyModeSearchDirection::Backward => CopyModeSearchDirection::Forward,
    }
}

/// The opposite search direction.
pub fn reverse_search_direction(direction: CopyModeSearchDirection) -> (res: CopyModeSearchDirection)
    ensures
        res == spec_reverse_direction(direction),
{
    match direction {
        CopyModeSearchDirection::Forward => CopyModeSearchDirection::Backward,
        CopyModeSearchDirection::Backward => CopyModeSearchDirection::Forward,
    }
}

/// Reversing a search direction changes it, and reversing twice gives it
/// back.
pub proof fn law_reverse_search_direction_involution(direction: CopyModeSearchDirection)
    ensures
        spec_reverse_direction(direction) != direction,
        spec_reverse_direction(spec_reverse_direction(direction)) == direction,
{
}

/// What `char::is_alphanumeric` of std returns for `c`: whether `c` has the
/// Unicode Alphabetic or Numeric property.
pub uninterp spec fn spec_char_is_alphanumeric(c: char) -> bool;

/// `char::is_alphanumeric` of std; its result is given the name
/// `spec_char_is_alphanumeric`.
#[verifier::external_body]
fn char_is_alphanumeric(c: char) -> (res: bool)
    ensures
        res == spec_char_is_alphanumeric(c),
{
    c.is_alphanumeric()
}

/// Whether `c` belongs to a word: alphanumeric or an underscore.
pub open spec fn spec_is_word_char(c: char) -> bool {
    spec_char_is_alphanumeric(c) || c == '_'
}

/// Whether `ch` belongs to a word: alphanumeric or an underscore.
pub fn is_word_char(ch: char) -> (res: bool)
    ensures
        res == spec_is_word_char(ch),
{
    char_is_alphanumeric(ch) || ch == '_'
}

/// The first index at or after `from` whose character is (`want`) or is not
/// (`!want`) a word character; `from` itself when `from` is past the end.
pub open spec fn first_from(s: Seq<char>, from: int, want: bool) -> int
    decreases s.len() - from,
{
    if from >= s.len() || from < 0 {
        from
    } else if spec_is_word_char(s[from]) == want {
        from
    } else {
        first_from(s, from + 1, want)
    }
}

/// The last index at or before `from` whose character is (`want`) or is not
/// (`!want`) a word character; -1 when there is none.
pub open spec fn last_from(s: Seq<char>, from: int, want: bool) -> int
    decreases from + 1,
{
    if from < 0 {
        -1
    } else if from >= s.len() {
        from
    } else if spec_is_word_char(s[from]) == want {
        from
    } else {
        last_from(s, from - 1, want)
    }
}

/// Where the search for the next word start begins: just past `start_col`
/// (or at 0), and past the rest of the word when `start_col` is inside one;
/// never beyond the end of the line.
pub open spec fn next_word_search_origin(s: Seq<char>, start_col: Option<usize>) -> int {
    let p0 = match start_col {
        None => 0,
        Some(col) => if col == usize::MAX {
            0
        } else {
            col + 1
        },
    };
    let p1 = match start_col {
        Some(col) => if col < s.len() && spec_is_word_char(s[col as int]) {
            first_from(s, col + 1, false)
        } else {
            p0
        },
        None => p0,
    };
    if p1 > s.len() {
        s.len() as int
    } else {
        p1
    }
}

/// The start of the next word after column `start_col` of a line (from the
/// line's start when `start_col` is `None`).
pub open spec fn spec_next_word_start(s: Seq<char>, start_col: Option<usize>) -> Option<usize> {
    if s.len() == 0 {
        None
    } else {
        let j = first_from(s, next_word_search_origin(s, start_col), true);
        if j < s.len() {
            Some(j as usize)
        } else {
            None
        }
    }
}

/// The end of the word at or after column `start_col` of a line (from the
/// line's start when `start_col` is `None`); none past the end.
pub open spec fn spec_next_word_end(s: Seq<char>, start_col: Option<usize>) -> Option<usize> {
    if s.len() == 0 {
        None
    } else {
        match start_col {
            Some(col) if col >= s.len() => None,
            _ => {
                let i0 = match start_col {
                    Some(col) => col as int,
                    None => 0,
                };
                let i1 = first_from(s, i0, true);
                if i1 >= s.len() {
                    None
                } else {
                    Some((first_from(s, i1, false) - 1) as usize)
                }
            },
        }
    }
}

/// The start of the word before column `start_col` of a line (from the
/// line's end when `start_col` is `None`); none at column 0 or when no word
/// precedes.
pub open spec fn spec_prev_word_start(s: Seq<char>, start_col: Option<usize>) -> Option<usize> {
    if s.len() == 0 || start_col == Some(0usize) {
        None
    } else {
        let i1 = last_from(s, prev_word_search_origin(s.len() as int, start_col), true);
        if i1 < 0 {
            None
        } else {
            Some((last_from(s, i1 - 1, false) + 1) as usize)
        }
    }
}

/// The start of the next word after column `start_col` of a line (from the
/// line's start when `start_col` is `None`).
pub fn find_next_word_start_in_line(chars: &[char], start_col: Option<usize>) -> (res: Option<usize>)
    ensures
        res == spec_next_word_start(chars@, start_col),
        chars@.len() == 0 ==> res is None,
        chars@.len() > 0 ==> {
            let j = first_from(chars@, next_word_search_origin(chars@, start_col), true);
            &&& j < chars@.len() ==> res == Some(j as usize)
            &&& j >= chars@.len() ==> res is None
        },
{
    if chars.len() == 0 {
        return None;
    }
    let n = chars.len();
    let mut idx: usize = match start_col {
        Some(col) => if col < usize::MAX {
            col + 1
        } else {
            0
        },
        None => 0,
    };
    if let Some(col) = start_col {
        if col < n && is_word_char(chars[col]) {
            idx = col + 1;
            while idx < n && is_word_char(chars[idx])
                invariant
                    n == chars@.len(),
                    col + 1 <= idx <= n,
                    first_from(chars@, idx as int, false) == first_from(chars@, col + 1, false),
                decreases n - idx,
            {
                idx = idx + 1;
            }
        }
    }
    if idx > n {
        idx = n;
    }
    assert(idx == next_word_search_origin(chars@, start_col));
    let ghost origin = idx as int;
    while idx < n && !is_word_char(chars[idx])
        invariant
            n == chars@.len(),
            idx <= n,
            first_from(chars@, idx as int, true) == first_from(chars@, origin, true),
        decreases n - idx,
    {
        idx = idx + 1;
    }
    if idx < n {
        Some(idx)
    } else {
        None
    }
}

/// The end of the word at or after column `start_col` of a line (from the
/// line's start when `start_col` is `None`); `None` past the end.
pub fn find_next_word_end_in_line(chars: &[char], start_col: Option<usize>) -> (res: Option<usize>)
    ensures
        res == spec_next_word_end(chars@, start_col),
        chars@.len() == 0 ==> res is None,
        chars@.len() > 0 ==> match start_col {
            Some(col) if col >= chars@.len() => res is None,
            _ => {
                let i0 = match start_col {
                    Some(col) => col as int,
                    None => 0,
                };
                let i1 = first_from(chars@, i0, true);
                &&& i1 >= chars@.len() ==> res is None
                &&& i1 < chars@.len() ==> res == Some((first_from(chars@, i1, false) - 1) as usize)
            },
        },
{
    if chars.len() == 0 {
        return None;
    }
    let n = chars.len();
    let mut idx: usize = match start_col {
        Some(col) => {
            if col < n {
                col
            } else {
                return None;
            }
        },
        None => 0,
    };
    let ghost i0 = idx as int;
    if !is_word_char(chars[idx]) {
        while idx < n && !is_word_char(chars[idx])
            invariant
                n == chars@.len(),
                i0 <= idx <= n,
                first_from(chars@, idx as int, true) == first_from(chars@, i0, true),
            decreases n - idx,
        {
            idx = idx + 1;
        }
        if idx >= n {
            return None;
        }
    }
    assert(idx == first_from(chars@, i0, true));
    let ghost i1 = idx as int;
    let mut end = idx;
    while end + 1 < n && is_word_char(chars[end + 1])
        invariant
            n == chars@.len(),
            i1 <= end < n,
            spec_is_word_char(chars@[end as int]),
            first_from(chars@, end + 1, false) == first_from(chars@, i1, false),
        decreases n - end,
    {
        end = end + 1;
    }
    Some(end)
}

/// Where the search for the previous word start begins: the column before
/// `start_col`, clamped to the line (the last column when `None`).
pub open spec fn prev_word_search_origin(len: int, start_col: Option<usize>) -> int {
    match start_col {
        Some(col) => if col > len {
            len - 1
        } else {
            col - 1
        },
        None => len - 1,
    }
}

/// The start of the word before column `start_col` of a line (from the
/// line's end when `start_col` is `None`); `None` at column 0 or when no word
/// precedes.
pub fn find_prev_word_start_in_line(chars: &[char], start_col: Option<usize>) -> (res: Option<usize>)
    ensures
        res == spec_prev_word_start(chars@, start_col),
        chars@.len() == 0 ==> res is None,
        chars@.len() > 0 && start_col == Some(0usize) ==> res is None,
        chars@.len() > 0 && start_col != Some(0usize) ==> {
            let i1 = last_from(chars@, prev_word_search_origin(chars@.len() as int, start_col), true);
            &&& i1 < 0 ==> res is None
            &&& i1 >= 0 ==> res == Some((last_from(chars@, i1 - 1, false) + 1) as usize)
        },
{
    if chars.len() == 0 {
        return None;
    }
    let n = chars.len();
    let mut idx: usize = match start_col {
        Some(col) => {
            if col == 0 {
                return None;
            } else if col > n {
                n - 1
            } else {
                col - 1
            }
        },
        None => n - 1,
    };
    let ghost i0 = idx as int;
    while idx > 0 && !is_word_char(chars[idx])
        invariant
            n == chars@.len(),
            idx <= i0 < n,
            last_from(chars@, idx as int, true) == last_from(chars@, i0, true),
        decreases idx,
    {
        idx = idx - 1;
    }
    if !is_word_char(chars[idx]) {
        assert(idx == 0);
        assert(last_from(chars@, -1, true) == -1);
        return None;
    }
    let ghost i1 = idx as int;
    assert(i1 == last_from(chars@, i0, true));
    while idx > 0 && is_word_char(chars[idx - 1])
        invariant
            n == chars@.len(),
            idx <= i1 < n,
            last_from(chars@, idx - 1, false) == last_from(chars@, i1 - 1, false),
        decreases idx,
    {
        idx = idx - 1;
    }
    Some(idx)
}

/// The character and style id of a packed wire cell: upper bits that are
/// no Unicode scalar value read as a space, the default style as `None`.
pub open spec fn spec_decode_wire_cell(cell: u64) -> (char, Option<u32>) {
    let code = crate::cache::terminal::packed::spec_unpack_code(cell);
    let style = spec_unpack_style(cell).0;
    (
        if crate::cache::terminal::packed::is_scalar_value(code) {
            (code as u32) as char
        } else {
            ' '
        },
        if style == 0 {
            None
        } else {
            Some(style)
        },
    )
}

/// The character and style id of a cell as it travels on the wire; the
/// default style reads as `None`.
pub fn decode_wire_cell(cell: u64) -> (res: (char, Option<u32>))
    ensures
        res == spec_decode_wire_cell(cell),
        spec_unpack_style(cell).0 == 0 ==> res.1 is None,
        spec_unpack_style(cell).0 != 0 ==> res.1 == Some(spec_unpack_style(cell).0),
        crate::cache::terminal::packed::is_scalar_value(crate::cache::terminal::packed::spec_unpack_code(cell))
            ==> res.0 as u32 == crate::cache::terminal::packed::spec_unpack_code(cell),
        !crate::cache::terminal::packed::is_scalar_value(crate::cache::terminal::packed::spec_unpack_code(cell))
            ==> res.0 == ' ',
{
    let packed = PackedCell::from_raw(cell);
    let (ch, style_id) = unpack_cell(packed);
    proof {
        let code = crate::cache::terminal::packed::spec_unpack_code(cell);
        if crate::cache::terminal::packed::is_scalar_value(code) {
            assert(packed.raw_value() == cell);
            assert(ch as u32 == code);
            vstd::utf8::char_u32_cast(ch, ch as u32);
        }
    }
    if style_id == StyleId::default_id() {
        (ch, None)
    } else {
        (ch, Some(style_id.0))
    }
}

/// Why predictions were trimmed.
#[derive(Clone, Copy, Debug, PartialEq, Eq, Structural)]
pub enum PredictionTrimContext {
    CursorMoveLeft,
    CursorClamp,
}

impl PredictionTrimContext {
    /// The context's name in traces.
    pub fn as_str(self) -> (res: &'static str)
        ensures
            self == PredictionTrimContext::CursorMoveLeft ==> res@ == "cursor_move_left"@,
            self == PredictionTrimContext::CursorClamp ==> res@ == "cursor_clamp"@,
    {
        match self {
            PredictionTrimContext::CursorMoveLeft => "cursor_move_left",
            PredictionTrimContext::CursorClamp => "cursor_clamp",
        }
    }
}

/// Why a prediction was dropped.
#[derive(Clone, Copy, Debug, PartialEq, Eq, Structural)]
pub enum PredictionDropReason {
    ServerOverlap,
    OverlayPruned,
    RendererTrim,
    Reset,
    Trimmed,
    Skipped,
    CursorAdvance,
}

impl PredictionDropReason {
    /// The reason's name in traces.
    pub fn as_str(self) -> (res: &'static str)
        ensures
            self == PredictionDropReason::ServerOverlap ==> res@ == "server_overlap"@,
            self == PredictionDropReason::OverlayPruned ==> res@ == "overlay_pruned"@,
            self == PredictionDropReason::RendererTrim ==> res@ == "renderer_trim"@,
            self == PredictionDropReason::Reset ==> res@ == "reset"@,
            self == PredictionDropReason::Trimmed ==> res@ == "trimmed"@,
            self == PredictionDropReason::Skipped ==> res@ == "skipped"@,
            self == PredictionDropReason::CursorAdvance ==> res@ == "cursor_advance"@,
    {
        match self {
            PredictionDropReason::ServerOverlap => "server_overlap",
            PredictionDropReason::OverlayPruned => "overlay_pruned",
            PredictionDropReason::RendererTrim => "renderer_trim",
            PredictionDropReason::Reset => "reset",
            PredictionDropReason::Trimmed => "trimmed",
            PredictionDropReason::Skipped => "skipped",
            PredictionDropReason::CursorAdvance => "cursor_advance",
        }
    }
}

/// Why the terminal client stopped: a transport failure or a malformed
/// message, each with its description, or a requested shutdown.
#[derive(Debug, Clone)]
pub enum ClientError {
    Transport(String),
    Protocol(String),
    Shutdown,
}

/// The text a client error reads as.
pub open spec fn spec_client_error_message(e: ClientError) -> Seq<char> {
    match e {
        ClientError::Transport(m) => "transport error: "@ + m@,
        ClientError::Protocol(m) => "protocol error: "@ + m@,
        ClientError::Shutdown => "shutdown requested"@,
    }
}

impl ClientError {
    /// The text this error reads as.
    pub fn message(&self) -> (res: String)
        ensures
            res@ == spec_client_error_message(*self),
    {
        match self {
            ClientError::Transport(m) => String::from_str("transport error: ").concat(m.as_str()),
            ClientError::Protocol(m) => String::from_str("protocol error: ").concat(m.as_str()),
            ClientError::Shutdown => String::from_str("shutdown requested"),
        }
    }
}

} // verus!
