//! Bottom-anchored viewport arithmetic for the transcript pane, plus the
//! small pure helpers the renderer reads: pane labels and inner sizes.
//!
//! A transcript is a sequence of logical lines; each logical line splits at
//! explicit line breaks into segments, and each segment soft-wraps into
//! `ceil(len / width)` rows (at least one). The viewport shows `height`
//! rows ending `scroll_from_bottom` rows above the bottom of the transcript,
//! clamped so that it can never move past the top.

use vstd::prelude::*;
use crate::text::chars_vec;
use crate::state::{FocusArea, SortMode, UiMode};

verus! {

/// `n` clamped into `usize`.
pub open spec fn cap_usize(n: int) -> usize {
    if n > usize::MAX as int {
        usize::MAX
    } else if n < 0 {
        0
    } else {
        n as usize
    }
}

/// Rows taken by one wrapped segment of `n` characters at width `width`:
/// `ceil(n / width)`, and at least one row even for an empty segment.
pub open spec fn segment_rows(n: nat, width: nat) -> nat
    recommends
        width > 0,
{
    if n == 0 {
        1
    } else if n % width == 0 {
        n / width
    } else {
        n / width + 1
    }
}

/// Index of the first explicit line break in `s`, or `s.len()` if none.
pub open spec fn first_break(s: Seq<char>) -> nat
    decreases s.len(),
{
    if s.len() == 0 {
        0
    } else if s[0] == '\n' {
        0
    } else {
        1 + first_break(s.drop_first())
    }
}

proof fn lemma_first_break_le(s: Seq<char>)
    ensures
        first_break(s) <= s.len(),
    decreases s.len(),
{
    if s.len() > 0 && s[0] != '\n' {
        lemma_first_break_le(s.drop_first());
    }
}

/// If no break occurs before `k` and `k` is the end or a break, then `k`
/// is the first break.
proof fn lemma_first_break_is(s: Seq<char>, k: int)
    requires
        0 <= k <= s.len(),
        forall|j: int| 0 <= j < k ==> s[j] != '\n',
        k == s.len() || s[k] == '\n',
    ensures
        first_break(s) == k,
    decreases k,
{
    if k == 0 {
    } else {
        assert(s[0] != '\n');
        lemma_first_break_is(s.drop_first(), k - 1);
    }
}

/// Rows taken by one logical line at width `width`: its break-separated
/// segments wrap independently and their rows add up.
pub open spec fn line_rows(s: Seq<char>, width: nat) -> nat
    recommends
        width > 0,
    decreases s.len(),
{
    let b = first_break(s);
    if b >= s.len() {
        segment_rows(s.len(), width)
    } else {
        segment_rows(b, width) + line_rows(s.subrange(b as int + 1, s.len() as int), width)
    }
}

/// Rows taken by a whole transcript at width `width`.
pub open spec fn transcript_rows(lines: Seq<Seq<char>>, width: nat) -> nat
    recommends
        width > 0,
    decreases lines.len(),
{
    if lines.len() == 0 {
        0
    } else {
        transcript_rows(lines.drop_last(), width) + line_rows(lines.last(), width)
    }
}

/// What `wrapped_line_count` returns: zero at width zero, else the line's
/// row count, clamped into `usize`.
pub open spec fn spec_wrapped_line_count(s: Seq<char>, width: nat) -> usize {
    if width == 0 {
        0
    } else {
        cap_usize(line_rows(s, width) as int)
    }
}

/// What `total_wrapped_line_count` returns: zero at width zero, else the
/// transcript's row count, clamped into `usize`.
pub open spec fn spec_total_wrapped_line_count(lines: Seq<Seq<char>>, width: nat) -> usize {
    if width == 0 {
        0
    } else {
        cap_usize(transcript_rows(lines, width) as int)
    }
}

/// `a + b`, saturating at the top of `usize`.
fn sat_add(a: usize, b: usize) -> (r: usize)
    ensures
        r == cap_usize(a + b),
{
    if a > usize::MAX - b {
        usize::MAX
    } else {
        a + b
    }
}

/// Rows of one segment of `n` characters; never overflows.
fn segment_rows_exec(n: usize, width: usize) -> (r: usize)
    requires
        width > 0,
    ensures
        r == segment_rows(n as nat, width as nat),
{
    if n == 0 {
        1
    } else if n % width == 0 {
        n / width
    } else {
        proof {
            if width == 1 {
                assert(n % 1 == 0);
            } else {
                vstd::arithmetic::div_mod::lemma_div_decreases(n as int, width as int);
            }
        }
        n / width + 1
    }
}

/// Number of display rows the line occupies when soft-wrapped at `width`
/// columns, counting each break-separated segment as at least one row.
/// Width zero yields zero rows.
pub fn wrapped_line_count(line: &str, width: usize) -> (r: usize)
    ensures
        r == spec_wrapped_line_count(line@, width as nat),
{
    if width == 0 {
        return 0;
    }
    let chars = chars_vec(line);
    let ghost s = line@;
    let n = chars.len();
    let mut pos: usize = 0;
    let mut rows: usize = 0;
    let ghost mut done: int = 0int;
    proof {
        assert(s.subrange(0, n as int) =~= s);
    }
    loop
        invariant
            s == line@,
            chars@ == s,
            n == s.len(),
            width > 0,
            pos <= n,
            pos == 0 || s[pos as int - 1] == '\n',
            rows == cap_usize(done),
            done >= 0,
            done + line_rows(s.subrange(pos as int, n as int), width as nat) == line_rows(
                s,
                width as nat,
            ),
        decreases n - pos,
    {
        let ghost rest = s.subrange(pos as int, n as int);
        // scan the current segment up to the next break or the end
        let mut j: usize = pos;
        while j < n && chars[j] != '\n'
            invariant
                chars@ == s,
                n == s.len(),
                pos <= j <= n,
                forall|k: int| pos <= k < j ==> s[k] != '\n',
            decreases n - j,
        {
            j = j + 1;
        }
        proof {
            lemma_first_break_is(rest, j - pos);
            assert(rest.len() == n - pos);
        }
        let seg = segment_rows_exec(j - pos, width);
        rows = sat_add(rows, seg);
        proof {
            done = done + seg as int;
        }
        if j == n {
            proof {
                assert(first_break(rest) == rest.len());
                assert(line_rows(rest, width as nat) == segment_rows(
                    (j - pos) as nat,
                    width as nat,
                ));
                assert(done == line_rows(s, width as nat));
                assert(rows == cap_usize(done));
            }
            return rows;
        }
        proof {
            assert(first_break(rest) < rest.len());
            assert(line_rows(rest, width as nat) == segment_rows((j - pos) as nat, width as nat)
                + line_rows(rest.subrange(j - pos + 1, rest.len() as int), width as nat));
            assert(rest.subrange(j - pos + 1, rest.len() as int) =~= s.subrange(
                j as int + 1,
                n as int,
            ));
        }
        pos = j + 1;
    }
}

/// Rows the whole transcript occupies at `width` columns: the sum of each
/// line's wrapped row count. Width zero yields zero.
pub fn total_wrapped_line_count(lines: &Vec<String>, width: usize) -> (r: usize)
    ensures
        r == spec_total_wrapped_line_count(lines.deep_view(), width as nat),
{
    if width == 0 {
        return 0;
    }
    let n = lines.len();
    let mut rows: usize = 0;
    let ghost mut done: int = 0int;
    let mut i: usize = 0;
    while i < n
        invariant
            n == lines@.len(),
            width > 0,
            i <= n,
            rows == cap_usize(done),
            done >= 0,
            done == transcript_rows(lines.deep_view().subrange(0, i as int), width as nat),
        decreases n - i,
    {
        let ghost prefix = lines.deep_view().subrange(0, i as int);
        let line_total = wrapped_line_count(lines[i].as_str(), width);
        proof {
            let next = lines.deep_view().subrange(0, i as int + 1);
            assert(next.drop_last() =~= prefix);
            assert(next.last() == lines.deep_view()[i as int]);
            assert(lines.deep_view()[i as int] == lines@[i as int]@);
        }
        rows = sat_add(rows, line_total);
        proof {
            done = done + line_rows(lines@[i as int]@, width as nat) as int;
            // saturation composes: capping each line before the sum cannot
            // change the capped total
            assert(cap_usize(cap_usize(done - line_rows(lines@[i as int]@, width as nat) as int)
                as int + spec_wrapped_line_count(lines@[i as int]@, width as nat) as int)
                == cap_usize(done));
        }
        i = i + 1;
    }
    proof {
        assert(lines.deep_view().subrange(0, n as int) =~= lines.deep_view());
    }
    rows
}

/// What `message_top_offset` returns: the topmost visible row index, with
/// the scroll offset clamped so the viewport never moves past the top.
pub open spec fn spec_message_top_offset(
    total_lines: nat,
    viewport_height: nat,
    scroll_from_bottom: nat,
) -> nat {
    let max_top = if total_lines > viewport_height {
        (total_lines - viewport_height) as nat
    } else {
        0
    };
    let eff = if scroll_from_bottom > max_top {
        max_top
    } else {
        scroll_from_bottom
    };
    (max_top - eff) as nat
}

/// Index of the first transcript row to display: offset zero anchors the
/// viewport to the bottom, larger offsets walk upward, clamped at the top.
pub fn message_top_offset(
    total_lines: usize,
    viewport_height: usize,
    scroll_from_bottom: usize,
) -> (r: usize)
    ensures
        r == spec_message_top_offset(
            total_lines as nat,
            viewport_height as nat,
            scroll_from_bottom as nat,
        ),
{
    let max_top = if total_lines > viewport_height {
        total_lines - viewport_height
    } else {
        0
    };
    let eff = if scroll_from_bottom > max_top {
        max_top
    } else {
        scroll_from_bottom
    };
    max_top - eff
}

/// `value` clamped into `u16`, for handing a row offset to the renderer.
pub fn to_u16_saturating(value: usize) -> (r: u16)
    ensures
        r as int == (if value > u16::MAX as usize {
            u16::MAX as int
        } else {
            value as int
        }),
{
    if value > u16::MAX as usize {
        u16::MAX
    } else {
        value as u16
    }
}

/// Rows available inside a bordered pane of the given height.
pub fn list_inner_height(height: u16) -> (r: usize)
    ensures
        r as int == (if height as int >= 2 {
            height as int - 2
        } else {
            0
        }),
{
    if height >= 2 {
        (height - 2) as usize
    } else {
        0
    }
}

/// Columns available inside a bordered pane of the given width.
pub fn list_inner_width(width: u16) -> (r: usize)
    ensures
        r as int == (if width as int >= 2 {
            width as int - 2
        } else {
            0
        }),
{
    if width >= 2 {
        (width - 2) as usize
    } else {
        0
    }
}

/// The label shown for the active sort mode.
pub fn sort_label(sort_mode: SortMode) -> (r: &'static str)
    ensures
        sort_mode == SortMode::Recent ==> r@ == "Recent"@,
        sort_mode == SortMode::Alphabetical ==> r@ == "A-Z"@,
{
    match sort_mode {
        SortMode::Recent => "Recent",
        SortMode::Alphabetical => "A-Z",
    }
}

/// The hotkey help line for the current mode and focus.
pub fn hotkeys_text(ui_mode: UiMode, focus: FocusArea) -> (r: &'static str)
    ensures
        ui_mode == UiMode::Compose ==> r@ ==
            "Type message | Enter send | Esc stop compose | Tab/Shift+Tab focus | q/\u{439} quit"@,
        ui_mode == UiMode::Search ==> r@ ==
            "Search chats | Type to filter | Backspace edit | Esc clear/exit | Up/Down select | q/\u{439} quit"@,
        ui_mode == UiMode::Normal && focus == FocusArea::Chats ==> r@ ==
            "Tab/Shift+Tab focus | Up/Down select chat | i/\u{448} compose | / or . search | s/\u{44b} sort | q/\u{439} quit"@,
        ui_mode == UiMode::Normal && focus == FocusArea::Messages ==> r@ ==
            "Tab/Shift+Tab focus | Up/Down scroll messages | i/\u{448} compose | / or . search | q/\u{439} quit"@,
        ui_mode == UiMode::Normal && focus == FocusArea::Input ==> r@ ==
            "Tab/Shift+Tab focus | i/\u{448} compose | / or . search | q/\u{439} quit"@,
{
    match ui_mode {
        UiMode::Compose => {
            "Type message | Enter send | Esc stop compose | Tab/Shift+Tab focus | q/\u{439} quit"
        },
        UiMode::Search => {
            "Search chats | Type to filter | Backspace edit | Esc clear/exit | Up/Down select | q/\u{439} quit"
        },
        UiMode::Normal => match focus {
            FocusArea::Chats => {
                "Tab/Shift+Tab focus | Up/Down select chat | i/\u{448} compose | / or . search | s/\u{44b} sort | q/\u{439} quit"
            },
            FocusArea::Messages => {
                "Tab/Shift+Tab focus | Up/Down scroll messages | i/\u{448} compose | / or . search | q/\u{439} quit"
            },
            FocusArea::Input => {
                "Tab/Shift+Tab focus | i/\u{448} compose | / or . search | q/\u{439} quit"
            },
        },
    }
}

} // verus!
