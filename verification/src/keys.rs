//! What each key does to the editor. `handle_key` is the whole state machine: its contract is
//! `key_step`, and `key_step` keeps the editor consistent.

use vstd::prelude::*;
use crate::text::{
    append_chars, chars_of, concat_str, is_whitespace, is_ws, join_seq, push_char,
    string_from_chars, trim_chars, trim_ws,
};
use crate::tui::{
    App, AppView, KeyCode, KeyInput, VimMode, backward_match, cap, clamped, consistent, fed,
    forward_match, first_from, last_before, last_index, lemma_back_bounds, back_over_ws, lines_view, search_matches_of, visual_deleted,
    word_backward, word_backward_spec, word_end, word_end_spec, word_forward, word_forward_spec,
};
use crate::text::lowercase;

verus! {

broadcast use vstd::string::group_string_axioms;

/// The cursor's line.
pub open spec fn cur_line(v: AppView) -> Seq<char> {
    v.lines[v.row as int]
}

/// `a - b`, or 0 when `b` is larger.
pub open spec fn sat_sub(a: nat, b: nat) -> nat {
    if a >= b {
        (a - b) as nat
    } else {
        0
    }
}

/// The first index at or after `i` holding no white space, or 0 when there is none.
pub open spec fn first_non_ws(s: Seq<char>, i: int) -> nat
    decreases s.len() - i,
{
    if i < 0 || i >= s.len() {
        0
    } else if !is_ws(s[i]) {
        i as nat
    } else {
        first_non_ws(s, i + 1)
    }
}

/// A line with nothing but white space.
pub open spec fn blank(s: Seq<char>) -> bool {
    trim_ws(s).len() == 0
}

/// Going up from row `r` to the nearest blank line, or the first line.
pub open spec fn para_up(lines: Seq<Seq<char>>, r: nat) -> nat
    decreases r,
{
    if r == 0 || r >= lines.len() || blank(lines[r as int]) {
        r
    } else {
        para_up(lines, (r - 1) as nat)
    }
}

/// Going down from row `r` to the nearest blank line, or row `max`.
pub open spec fn para_down(lines: Seq<Seq<char>>, r: nat, max: nat) -> nat
    decreases max - r,
{
    if r >= max || r >= lines.len() || blank(lines[r as int]) {
        r
    } else {
        para_down(lines, r + 1, max)
    }
}

/// The output scroll that brings output line `line` into view.
pub open spec fn scroll_for(line: usize) -> nat {
    if line < usize::MAX {
        (line + 1) as nat
    } else {
        line as nat
    }
}

/// `v` with the cursor's line replaced by `line`.
pub open spec fn with_cur_line(v: AppView, line: Seq<char>) -> AppView {
    AppView { lines: v.lines.update(v.row as int, line), ..v }
}

/// The editor's text: its lines joined by line feeds.
pub open spec fn editor_text_of(v: AppView) -> Seq<char> {
    join_seq(v.lines, seq!['\n'])
}

/// The editor holds something to send and no turn is running.
pub open spec fn submittable(v: AppView) -> bool {
    trim_ws(editor_text_of(v)).len() > 0 && !v.agent_running
}

/// The echo of a sent message in the output: a blank line, `> ` and the trimmed text, and a
/// blank line.
pub open spec fn echo(text: Seq<char>) -> Seq<char> {
    seq!['\n', '>', ' '] + trim_ws(text) + seq!['\n', '\n']
}

/// The state after sending the editor's text: the echo goes to the output, which scrolls to its
/// end, and the editor is emptied.
pub open spec fn submitted(v: AppView) -> AppView {
    let out = fed(v.output, echo(editor_text_of(v)));
    AppView {
        output: out,
        scroll: out.len(),
        lines: seq![Seq::<char>::empty()],
        row: 0,
        col: 0,
        ..v
    }
}

/// Keys that move the cursor in normal and visual mode.
pub open spec fn is_motion(k: KeyCode) -> bool {
    match k {
        KeyCode::Char(c) => c == 'h' || c == 'l' || c == 'j' || c == 'k' || c == 'w' || c == 'b'
            || c == 'e' || c == '$' || c == '0',
        KeyCode::Left | KeyCode::Right | KeyCode::Up | KeyCode::Down => true,
        _ => false,
    }
}

/// The row one down, when there is one.
pub open spec fn row_down(v: AppView) -> nat {
    if v.row + 1 < v.lines.len() {
        v.row + 1
    } else {
        v.row
    }
}

/// A cursor motion of normal and visual mode.
pub open spec fn motion(v: AppView, k: KeyCode) -> AppView {
    let line = cur_line(v);
    if k == KeyCode::Char('h') || k == KeyCode::Left {
        AppView { col: sat_sub(v.col, 1), ..v }
    } else if k == KeyCode::Char('l') || k == KeyCode::Right {
        AppView { col: cap(v.col + 1, last_index(line.len())), ..v }
    } else if k == KeyCode::Char('j') || k == KeyCode::Down {
        clamped(AppView { row: row_down(v), ..v })
    } else if k == KeyCode::Char('k') || k == KeyCode::Up {
        clamped(AppView { row: sat_sub(v.row, 1), ..v })
    } else if k == KeyCode::Char('w') {
        AppView { col: word_forward_spec(line, v.col), ..v }
    } else if k == KeyCode::Char('b') {
        AppView { col: word_backward_spec(line, v.col), ..v }
    } else if k == KeyCode::Char('e') {
        AppView { col: word_end_spec(line, v.col), ..v }
    } else if k == KeyCode::Char('$') {
        AppView { col: last_index(line.len()), ..v }
    } else {
        AppView { col: 0, ..v }
    }
}

/// Entering insert mode with the cursor at `col`.
pub open spec fn insert_at(v: AppView, col: nat) -> AppView {
    AppView { mode: VimMode::Insert, col, ..v }
}

/// Starting a search forward or backward with an empty query.
pub open spec fn search_started(v: AppView, forward: bool) -> AppView {
    AppView { mode: VimMode::Search, query: Seq::empty(), forward, ..v }
}

/// Scrolling to the match `m` picked, if any.
pub open spec fn to_match(v: AppView, m: Option<nat>) -> AppView {
    match m {
        Some(i) => AppView { scroll: scroll_for(v.matches[i as int].0), ..v },
        None => v,
    }
}

/// The next match in the search direction.
pub open spec fn next_match(v: AppView) -> Option<nat> {
    if v.forward {
        forward_match(v.matches, v.scroll)
    } else {
        backward_match(v.matches, v.scroll)
    }
}

/// The previous match in the search direction.
pub open spec fn prev_match(v: AppView) -> Option<nat> {
    if v.forward {
        backward_match(v.matches, v.scroll)
    } else {
        forward_match(v.matches, v.scroll)
    }
}

/// A character key in normal mode that is not a motion.
pub open spec fn normal_char(v: AppView, c: char) -> AppView {
    let line = cur_line(v);
    let len = line.len();
    if c == 'i' {
        insert_at(v, v.col)
    } else if c == 'a' {
        insert_at(v, cap(v.col + 1, len))
    } else if c == 'A' {
        insert_at(v, len)
    } else if c == 'I' {
        insert_at(v, first_non_ws(line, 0))
    } else if c == 'o' {
        AppView {
            mode: VimMode::Insert,
            lines: v.lines.insert((v.row + 1) as int, Seq::empty()),
            row: v.row + 1,
            col: 0,
            ..v
        }
    } else if c == 'O' {
        AppView {
            mode: VimMode::Insert,
            lines: v.lines.insert(v.row as int, Seq::empty()),
            col: 0,
            ..v
        }
    } else if c == 'v' {
        AppView { mode: VimMode::Visual, anchor_row: v.row, anchor_col: v.col, ..v }
    } else if c == 'V' {
        AppView { mode: VimMode::VisualLine, anchor_row: v.row, anchor_col: 0, ..v }
    } else if c == '^' {
        AppView { col: first_non_ws(line, 0), ..v }
    } else if c == 'g' || c == 'd' || c == 'y' {
        AppView { pending: Some(c), ..v }
    } else if c == 'G' {
        clamped(AppView { scroll: v.output.len(), row: last_index(v.lines.len()), ..v })
    } else if c == '{' {
        AppView { row: para_up(v.lines, sat_sub(v.row, 1)), col: 0, ..v }
    } else if c == '}' {
        let max = last_index(v.lines.len());
        AppView {
            row: para_down(v.lines, if v.row < max { v.row + 1 } else { v.row }, max),
            col: 0,
            ..v
        }
    } else if c == 'x' {
        if len > 0 && v.col < len {
            clamped(with_cur_line(v, line.remove(v.col as int)))
        } else {
            v
        }
    } else if c == '/' {
        search_started(v, true)
    } else if c == '?' {
        search_started(v, false)
    } else if c == 'n' {
        to_match(v, next_match(v))
    } else if c == 'N' {
        to_match(v, prev_match(v))
    } else if c == 'q' && !v.agent_running {
        AppView { should_quit: true, ..v }
    } else {
        v
    }
}

/// A key in normal mode with no command pending.
pub open spec fn normal_step(v: AppView, k: KeyInput) -> AppView {
    if k.ctrl && k.code == KeyCode::Char('d') {
        AppView { scroll: cap(v.scroll + 10, v.output.len()), ..v }
    } else if k.ctrl && k.code == KeyCode::Char('u') {
        AppView { scroll: sat_sub(v.scroll, 10), ..v }
    } else if k.ctrl && k.code == KeyCode::Char('f') {
        AppView { scroll: cap(v.scroll + 20, v.output.len()), ..v }
    } else if k.ctrl && k.code == KeyCode::Char('b') {
        AppView { scroll: sat_sub(v.scroll, 20), ..v }
    } else if is_motion(k.code) {
        motion(v, k.code)
    } else {
        match k.code {
            KeyCode::Enter => if submittable(v) {
                submitted(v)
            } else {
                v
            },
            KeyCode::Char(c) => normal_char(v, c),
            _ => v,
        }
    }
}

/// The second key of a two-key command; `v` has the pending key already cleared.
pub open spec fn pending_step(v: AppView, p: char, k: KeyCode) -> AppView {
    let line = cur_line(v);
    let at = cap(v.col, line.len());
    if p == 'g' && k == KeyCode::Char('g') {
        AppView { scroll: 0, row: 0, col: 0, ..v }
    } else if p == 'd' && k == KeyCode::Char('d') {
        if v.lines.len() > 1 {
            clamped(AppView { lines: v.lines.remove(v.row as int), ..v })
        } else {
            AppView { lines: v.lines.update(0, Seq::empty()), col: 0, ..v }
        }
    } else if p == 'd' && k == KeyCode::Char('w') {
        let end = cap(word_forward_spec(line, v.col), line.len());
        clamped(with_cur_line(v, line.take(at as int) + line.skip(end as int)))
    } else if p == 'd' && k == KeyCode::Char('$') {
        clamped(with_cur_line(v, line.take(at as int)))
    } else if p == 'd' && k == KeyCode::Char('0') {
        AppView { col: 0, ..with_cur_line(v, line.skip(at as int)) }
    } else {
        v
    }
}

/// A key in visual mode.
pub open spec fn visual_step(v: AppView, k: KeyCode) -> AppView {
    if k == KeyCode::Esc {
        clamped(AppView { mode: VimMode::Normal, ..v })
    } else if is_motion(k) {
        motion(v, k)
    } else if k == KeyCode::Char('d') || k == KeyCode::Char('x') {
        clamped(AppView { mode: VimMode::Normal, ..visual_deleted(v) })
    } else if k == KeyCode::Char('v') {
        AppView {
            mode: if v.mode == VimMode::Visual {
                VimMode::Normal
            } else {
                VimMode::Visual
            },
            ..v
        }
    } else if k == KeyCode::Char('V') {
        AppView {
            mode: if v.mode == VimMode::VisualLine {
                VimMode::Normal
            } else {
                VimMode::VisualLine
            },
            ..v
        }
    } else {
        v
    }
}

/// The matches of the query in the output (none for a query that lower-cases to nothing).
pub open spec fn fresh_matches(v: AppView) -> Seq<(usize, usize)> {
    if v.query.len() == 0 || lowercase(v.query).len() == 0 {
        Seq::empty()
    } else {
        search_matches_of(v.output, v.query)
    }
}

/// A key while typing a search.
pub open spec fn search_step(v: AppView, k: KeyCode) -> AppView {
    match k {
        KeyCode::Esc => AppView { mode: VimMode::Normal, query: Seq::empty(), ..v },
        KeyCode::Enter => {
            let found = AppView { matches: fresh_matches(v), ..v };
            AppView { mode: VimMode::Normal, ..to_match(found, next_match(found)) }
        },
        KeyCode::Backspace => AppView {
            query: if v.query.len() > 0 {
                v.query.drop_last()
            } else {
                v.query
            },
            ..v
        },
        KeyCode::Char(c) => AppView { query: v.query.push(c), ..v },
        _ => v,
    }
}

/// Breaking the cursor's line at the cursor; the cursor goes to the start of the new line.
pub open spec fn line_split(v: AppView) -> AppView {
    let line = cur_line(v);
    let at = cap(v.col, line.len());
    AppView {
        lines: v.lines.update(v.row as int, line.take(at as int)).insert(
            (v.row + 1) as int,
            line.skip(at as int),
        ),
        row: v.row + 1,
        col: 0,
        ..v
    }
}

/// Backspace while typing: the character before the cursor goes, or at the start of a line the
/// line joins the one above.
pub open spec fn backspaced(v: AppView) -> AppView {
    if v.col > 0 {
        AppView { col: (v.col - 1) as nat, ..with_cur_line(v, cur_line(v).remove(v.col - 1)) }
    } else if v.row > 0 {
        let above = v.lines[v.row - 1];
        AppView {
            lines: v.lines.remove(v.row as int).update(v.row - 1, above + cur_line(v)),
            row: (v.row - 1) as nat,
            col: above.len(),
            ..v
        }
    } else {
        v
    }
}

/// Typing `c` at the cursor.
pub open spec fn typed(v: AppView, c: char) -> AppView {
    let line = cur_line(v);
    let at = cap(v.col, line.len());
    AppView {
        col: v.col + 1,
        ..with_cur_line(v, line.take(at as int) + seq![c] + line.skip(at as int))
    }
}

/// The editing keys shared by insert mode and the plain editor.
pub open spec fn typing_step(v: AppView, k: KeyCode) -> AppView {
    let len = cur_line(v).len();
    match k {
        KeyCode::Backspace => backspaced(v),
        KeyCode::Char(c) => typed(v, c),
        KeyCode::Left => AppView { col: sat_sub(v.col, 1), ..v },
        KeyCode::Right => AppView { col: cap(v.col + 1, len), ..v },
        KeyCode::Up => clamped(AppView { row: sat_sub(v.row, 1), ..v }),
        KeyCode::Down => clamped(AppView { row: row_down(v), ..v }),
        _ => v,
    }
}

/// A key in insert mode.
pub open spec fn insert_step(v: AppView, k: KeyCode) -> AppView {
    match k {
        KeyCode::Esc => clamped(AppView { mode: VimMode::Normal, ..v }),
        KeyCode::Enter => line_split(v),
        _ => typing_step(v, k),
    }
}

/// A key in the plain editor (vim keys off): Enter sends, Shift+Enter breaks the line.
pub open spec fn plain_step(v: AppView, k: KeyInput) -> AppView {
    if k.code == KeyCode::Enter {
        if k.shift {
            line_split(v)
        } else if submittable(v) {
            submitted(v)
        } else {
            v
        }
    } else {
        typing_step(v, k.code)
    }
}

/// Ctrl+C: quit.
pub open spec fn is_quit_key(k: KeyInput) -> bool {
    k.ctrl && k.code == KeyCode::Char('c')
}

/// Ctrl+L: show or hide the log panel.
pub open spec fn is_log_key(k: KeyInput) -> bool {
    k.ctrl && k.code == KeyCode::Char('l')
}

/// Ctrl+Shift+V: turn vim keys on or off.
pub open spec fn is_vim_toggle(k: KeyInput) -> bool {
    k.ctrl && k.shift && k.code == KeyCode::Char('V')
}

/// What a key press does to the editor.
pub open spec fn key_step(v: AppView, k: KeyInput) -> AppView {
    if is_quit_key(k) {
        AppView { should_quit: true, ..v }
    } else if is_log_key(k) {
        AppView { show_logs: !v.show_logs, ..v }
    } else if is_vim_toggle(k) {
        AppView {
            vim_enabled: !v.vim_enabled,
            mode: if !v.vim_enabled {
                VimMode::Normal
            } else {
                VimMode::Insert
            },
            pending: None,
            ..v
        }
    } else if !v.vim_enabled {
        plain_step(v, k)
    } else {
        match v.mode {
            VimMode::Normal => match v.pending {
                Some(p) => pending_step(AppView { pending: None, ..v }, p, k.code),
                None => normal_step(v, k),
            },
            VimMode::Insert => insert_step(v, k.code),
            VimMode::Visual | VimMode::VisualLine => visual_step(v, k.code),
            VimMode::Search => search_step(v, k.code),
        }
    }
}

/// Whether a key press sends the editor's text: Enter in normal mode with nothing pending, or
/// Enter without Shift in the plain editor, when there is something to send and no turn runs.
pub open spec fn key_submits(v: AppView, k: KeyInput) -> bool {
    &&& !is_quit_key(k)
    &&& !is_log_key(k)
    &&& !is_vim_toggle(k)
    &&& k.code == KeyCode::Enter
    &&& submittable(v)
    &&& if v.vim_enabled {
        v.mode == VimMode::Normal && v.pending is None
    } else {
        !k.shift
    }
}

proof fn lemma_first_non_ws_bound(s: Seq<char>, i: int)
    requires
        0 <= i,
    ensures
        first_non_ws(s, i) <= s.len(),
    decreases s.len() - i,
{
    if 0 <= i < s.len() && is_ws(s[i]) {
        lemma_first_non_ws_bound(s, i + 1);
    }
}

proof fn lemma_para_up_bound(lines: Seq<Seq<char>>, r: nat)
    requires
        r < lines.len(),
    ensures
        para_up(lines, r) < lines.len(),
    decreases r,
{
    if r > 0 && !blank(lines[r as int]) {
        lemma_para_up_bound(lines, (r - 1) as nat);
    }
}

proof fn lemma_para_down_bound(lines: Seq<Seq<char>>, r: nat, max: nat)
    requires
        r <= max < lines.len(),
    ensures
        para_down(lines, r, max) <= max,
    decreases max - r,
{
    if r < max && !blank(lines[r as int]) {
        lemma_para_down_bound(lines, r + 1, max);
    }
}

/// What clamping needs to leave a consistent editor.
pub open spec fn clampable(v: AppView) -> bool {
    &&& v.lines.len() > 0
    &&& !v.vim_enabled ==> v.mode == VimMode::Insert
    &&& (v.mode == VimMode::Visual || v.mode == VimMode::VisualLine) ==> v.anchor_row
        < v.lines.len()
}

proof fn lemma_clamped_consistent(v: AppView)
    requires
        clampable(v),
    ensures
        consistent(clamped(v)),
{
}

proof fn lemma_motion_consistent(v: AppView, k: KeyCode)
    requires
        consistent(v),
    ensures
        consistent(motion(v, k)),
{
    let line = cur_line(v);
    if v.col > 0 {
        lemma_back_bounds(line, v.col - 1);
        lemma_back_bounds(line, back_over_ws(line, v.col - 1));
    }
}

proof fn lemma_normal_consistent(v: AppView, k: KeyInput)
    requires
        consistent(v),
        v.mode == VimMode::Normal,
    ensures
        consistent(normal_step(v, k)),
{
    lemma_motion_consistent(v, k.code);
    lemma_first_non_ws_bound(cur_line(v), 0);
    if v.row > 0 {
        lemma_para_up_bound(v.lines, (v.row - 1) as nat);
    }
    let max = last_index(v.lines.len());
    lemma_para_down_bound(v.lines, if v.row < max { v.row + 1 } else { v.row }, max);
    if let KeyCode::Char(c) = k.code {
        if c == 'o' {
            assert(v.lines.insert((v.row + 1) as int, Seq::empty())[(v.row + 1) as int] == Seq::<char>::empty());
        } else if c == 'O' {
            assert(v.lines.insert(v.row as int, Seq::empty())[v.row as int] == Seq::<char>::empty());
        } else if c == 'x' {
            lemma_clamped_consistent(with_cur_line(v, cur_line(v).remove(v.col as int)));
        } else if c == 'G' {
            lemma_clamped_consistent(
                AppView { scroll: v.output.len(), row: last_index(v.lines.len()), ..v },
            );
        }
    }
}

proof fn lemma_pending_consistent(v: AppView, p: char, k: KeyCode)
    requires
        consistent(v),
        v.mode == VimMode::Normal,
    ensures
        consistent(pending_step(v, p, k)),
{
    let line = cur_line(v);
    let at = cap(v.col, line.len());
    let end = cap(word_forward_spec(line, v.col), line.len());
    if v.lines.len() > 1 {
        lemma_clamped_consistent(AppView { lines: v.lines.remove(v.row as int), ..v });
    }
    lemma_clamped_consistent(with_cur_line(v, line.take(at as int) + line.skip(end as int)));
    lemma_clamped_consistent(with_cur_line(v, line.take(at as int)));
}

proof fn lemma_visual_deleted_lines(v: AppView)
    requires
        consistent(v),
        v.mode == VimMode::Visual || v.mode == VimMode::VisualLine,
    ensures
        visual_deleted(v).lines.len() > 0,
        visual_deleted(v).row < visual_deleted(v).lines.len(),
        visual_deleted(v).vim_enabled == v.vim_enabled,
{
    if v.mode != VimMode::VisualLine {
        let cursor_first = crate::tui::pos_before(v.row, v.col, v.anchor_row, v.anchor_col);
        let sr = if cursor_first { v.row } else { v.anchor_row };
        let er = if cursor_first { v.anchor_row } else { v.row };
        let first = v.lines[sr as int];
        let last = v.lines[er as int];
        let joined = first.take(cap(if cursor_first { v.col } else { v.anchor_col }, first.len()) as int)
            + last.skip(cap((if cursor_first { v.anchor_col } else { v.col }) + 1, last.len()) as int);
        assert(sr <= er);
        let ls = v.lines.take(sr as int) + seq![joined] + v.lines.skip((er + 1) as int);
        assert(ls.len() == sr + 1 + (v.lines.len() - er - 1));
    }
}

proof fn lemma_visual_consistent(v: AppView, k: KeyCode)
    requires
        consistent(v),
        v.mode == VimMode::Visual || v.mode == VimMode::VisualLine,
    ensures
        consistent(visual_step(v, k)),
{
    lemma_motion_consistent(v, k);
    lemma_clamped_consistent(AppView { mode: VimMode::Normal, ..v });
    lemma_visual_deleted_lines(v);
    lemma_clamped_consistent(AppView { mode: VimMode::Normal, ..visual_deleted(v) });
}

proof fn lemma_typing_consistent(v: AppView, k: KeyCode)
    requires
        consistent(v),
        v.mode == VimMode::Insert,
    ensures
        consistent(typing_step(v, k)),
        consistent(line_split(v)),
{
    lemma_clamped_consistent(AppView { row: sat_sub(v.row, 1), ..v });
    lemma_clamped_consistent(AppView { row: row_down(v), ..v });
    let line = cur_line(v);
    let at = cap(v.col, line.len());
    let split = v.lines.update(v.row as int, line.take(at as int)).insert(
        (v.row + 1) as int,
        line.skip(at as int),
    );
    assert(split[(v.row + 1) as int] == line.skip(at as int));
    if v.col == 0 && v.row > 0 {
        let above = v.lines[v.row - 1];
        let joined = v.lines.remove(v.row as int).update(v.row - 1, above + line);
        assert(joined[v.row - 1] == above + line);
    }
}

/// A key press keeps the editor consistent.
pub proof fn lemma_key_step_keeps_consistent(v: AppView, k: KeyInput)
    requires
        consistent(v),
    ensures
        consistent(key_step(v, k)),
{
    if !is_quit_key(k) && !is_log_key(k) && !is_vim_toggle(k) {
        if !v.vim_enabled {
            lemma_typing_consistent(v, k.code);
        } else {
            match v.mode {
                VimMode::Normal => match v.pending {
                    Some(p) => lemma_pending_consistent(AppView { pending: None, ..v }, p, k.code),
                    None => lemma_normal_consistent(v, k),
                },
                VimMode::Insert => lemma_typing_consistent(v, k.code),
                VimMode::Visual | VimMode::VisualLine => lemma_visual_consistent(v, k.code),
                VimMode::Search => {},
            }
        }
    }
}

/// The characters of the cursor's line.
fn line_chars(app: &App) -> (v: Vec<char>)
    requires
        app.cursor_row < app.editor_lines@.len(),
    ensures
        v@ == cur_line(app@),
{
    chars_of(app.editor_lines[app.cursor_row].as_str())
}

/// Replaces the cursor's line.
fn set_line(app: &mut App, line: &[char])
    requires
        old(app).cursor_row < old(app).editor_lines@.len(),
    ensures
        final(app)@ == with_cur_line(old(app)@, line@),
{
    let ghost before = app.editor_lines@;
    let s = string_from_chars(line);
    let row = app.cursor_row;
    app.editor_lines.set(row, s);
    assert(lines_view(app.editor_lines@) =~= lines_view(before).update(row as int, line@));
}

/// The index of the first character that is not white space, or 0.
fn first_non_ws_exec(v: &[char]) -> (r: usize)
    ensures
        r == first_non_ws(v@, 0),
{
    let mut i: usize = 0;
    while i < v.len()
        invariant
            i <= v@.len(),
            first_non_ws(v@, i as int) == first_non_ws(v@, 0),
        decreases v@.len() - i,
    {
        if !is_whitespace(v[i]) {
            return i;
        }
        i = i + 1;
    }
    0
}

/// Whether line `row` has nothing but white space.
fn line_blank(app: &App, row: usize) -> (b: bool)
    requires
        row < app.editor_lines@.len(),
    ensures
        b == blank(app@.lines[row as int]),
{
    let chars = chars_of(app.editor_lines[row].as_str());
    trim_chars(chars.as_slice()).len() == 0
}

/// `v[..a]` followed by `v[b..]`.
fn cut_out(v: &Vec<char>, a: usize, b: usize) -> (r: Vec<char>)
    requires
        a <= v@.len(),
        b <= v@.len(),
    ensures
        r@ == v@.take(a as int) + v@.skip(b as int),
{
    let mut r = crate::tui::char_range(v, 0, a);
    let tail = crate::tui::char_range(v, b, v.len());
    append_chars(&mut r, tail.as_slice());
    assert(v@.subrange(0, a as int) =~= v@.take(a as int));
    assert(v@.subrange(b as int, v@.len() as int) =~= v@.skip(b as int));
    r
}

/// `n` capped at `m`.
fn cap_exec(n: usize, m: usize) -> (r: usize)
    ensures
        r == cap(n as nat, m as nat),
{
    if n < m {
        n
    } else {
        m
    }
}

/// The last index of a line of `n` characters.
fn last_index_exec(n: usize) -> (r: usize)
    ensures
        r == last_index(n as nat),
{
    if n == 0 {
        0
    } else {
        n - 1
    }
}

/// Scrolls the output down by `step` lines, at most to its end.
fn scroll_down(app: &mut App, step: usize)
    ensures
        final(app)@ == (AppView {
            scroll: cap((old(app)@.scroll + step) as nat, old(app)@.output.len()),
            ..old(app)@
        }),
{
    let n = app.output_lines.len();
    if app.output_scroll <= n && n - app.output_scroll > step {
        app.output_scroll = app.output_scroll + step;
    } else {
        app.output_scroll = n;
    }
}

/// Scrolls the output up by `step` lines, at most to its top.
fn scroll_up(app: &mut App, step: usize)
    ensures
        final(app)@ == (AppView { scroll: sat_sub(old(app)@.scroll, step as nat), ..old(app)@ }),
{
    app.output_scroll = if app.output_scroll >= step {
        app.output_scroll - step
    } else {
        0
    };
}

/// Sends the editor's text when there is something to send and no turn runs (see `submitted`).
fn submit(app: &mut App) -> (r: Option<String>)
    ensures
        submittable(old(app)@) ==> (final(app)@ == submitted(old(app)@) && (r matches Some(t)
            && t@ == editor_text_of(old(app)@))),
        !submittable(old(app)@) ==> (final(app)@ == old(app)@ && (r is None)),
{
    let text = app.editor_text();
    let chars = chars_of(text.as_str());
    let trimmed = trim_chars(chars.as_slice());
    if trimmed.len() > 0 && !app.agent_running {
        let mut e: Vec<char> = Vec::new();
        e.push('\n');
        e.push('>');
        e.push(' ');
        append_chars(&mut e, trimmed.as_slice());
        e.push('\n');
        e.push('\n');
        assert(e@ =~= echo(editor_text_of(app@)));
        let echoed = string_from_chars(e.as_slice());
        app.push_output(echoed.as_str());
        app.clear_editor();
        Some(text)
    } else {
        None
    }
}

/// A cursor motion (see `motion`).
fn apply_motion(app: &mut App, k: KeyCode)
    requires
        consistent(old(app)@),
        is_motion(k),
    ensures
        final(app)@ == motion(old(app)@, k),
{
    match k {
        KeyCode::Char('h') | KeyCode::Left => {
            app.cursor_col = if app.cursor_col > 0 {
                app.cursor_col - 1
            } else {
                0
            };
        },
        KeyCode::Char('l') | KeyCode::Right => {
            let max = last_index_exec(app.current_line_char_len());
            app.cursor_col = if app.cursor_col < max && app.cursor_col + 1 < max {
                app.cursor_col + 1
            } else {
                max
            };
        },
        KeyCode::Char('j') | KeyCode::Down => {
            let n = app.editor_lines.len();
            if app.cursor_row + 1 < n {
                app.cursor_row = app.cursor_row + 1;
            }
            app.clamp_cursor();
        },
        KeyCode::Char('k') | KeyCode::Up => {
            app.cursor_row = if app.cursor_row > 0 {
                app.cursor_row - 1
            } else {
                0
            };
            app.clamp_cursor();
        },
        KeyCode::Char('w') => {
            let chars = line_chars(app);
            app.cursor_col = word_forward(chars.as_slice(), app.cursor_col);
        },
        KeyCode::Char('b') => {
            let chars = line_chars(app);
            app.cursor_col = word_backward(chars.as_slice(), app.cursor_col);
        },
        KeyCode::Char('e') => {
            let chars = line_chars(app);
            app.cursor_col = word_end(chars.as_slice(), app.cursor_col);
        },
        KeyCode::Char('$') => {
            app.cursor_col = last_index_exec(app.current_line_char_len());
        },
        _ => {
            app.cursor_col = 0;
        },
    }
}

proof fn lemma_first_from_bound(ms: Seq<(usize, usize)>, line: nat, k: int)
    ensures
        first_from(ms, line, k) matches Some(i) ==> i < ms.len(),
    decreases ms.len() - k,
{
    if 0 <= k < ms.len() && ms[k].0 < line {
        lemma_first_from_bound(ms, line, k + 1);
    }
}

proof fn lemma_last_before_bound(ms: Seq<(usize, usize)>, line: nat, k: int)
    ensures
        last_before(ms, line, k) matches Some(i) ==> i < ms.len(),
    decreases k,
{
    if 0 < k <= ms.len() && ms[k - 1].0 >= line {
        lemma_last_before_bound(ms, line, k - 1);
    }
}

proof fn lemma_match_bounds(v: AppView)
    ensures
        next_match(v) matches Some(i) ==> i < v.matches.len(),
        prev_match(v) matches Some(i) ==> i < v.matches.len(),
{
    lemma_first_from_bound(v.matches, v.scroll, 0);
    lemma_last_before_bound(v.matches, v.scroll, v.matches.len() as int);
}

/// Scrolls to the match `m` picked, if any (see `to_match`).
fn go_to_match(app: &mut App, m: Option<usize>)
    requires
        m matches Some(i) ==> i < old(app).search_matches@.len(),
    ensures
        final(app)@ == to_match(
            old(app)@,
            match m {
                Some(i) => Some(i as nat),
                None => None,
            },
        ),
{
    if let Some(idx) = m {
        let line = app.search_matches[idx].0;
        app.scroll_to_output_line(line);
    }
}

/// Opens an empty line at `row` and starts inserting there.
fn open_line(app: &mut App, row: usize)
    requires
        row <= old(app).editor_lines@.len(),
    ensures
        final(app)@ == (AppView {
            mode: VimMode::Insert,
            lines: old(app)@.lines.insert(row as int, Seq::empty()),
            row: row as nat,
            col: 0,
            ..old(app)@
        }),
{
    let ghost before = app.editor_lines@;
    app.editor_lines.insert(row, String::new());
    assert(lines_view(app.editor_lines@) =~= lines_view(before).insert(row as int, Seq::empty()));
    app.mode = VimMode::Insert;
    app.cursor_row = row;
    app.cursor_col = 0;
}

/// The row `{` moves to.
fn para_up_exec(app: &App, start: usize) -> (r: usize)
    requires
        start < app.editor_lines@.len(),
    ensures
        r == para_up(app@.lines, start as nat),
{
    let mut row = start;
    while row > 0 && !line_blank(app, row)
        invariant
            row <= start < app.editor_lines@.len(),
            para_up(app@.lines, row as nat) == para_up(app@.lines, start as nat),
        decreases row,
    {
        row = row - 1;
    }
    row
}

/// The row `}` moves to.
fn para_down_exec(app: &App, start: usize, max: usize) -> (r: usize)
    requires
        start <= max < app.editor_lines@.len(),
    ensures
        r == para_down(app@.lines, start as nat, max as nat),
{
    let mut row = start;
    while row < max && !line_blank(app, row)
        invariant
            start <= row <= max < app.editor_lines@.len(),
            para_down(app@.lines, row as nat, max as nat) == para_down(
                app@.lines,
                start as nat,
                max as nat,
            ),
        decreases max - row,
    {
        row = row + 1;
    }
    row
}

/// A character key in normal mode that is not a motion (see `normal_char`).
fn normal_char_key(app: &mut App, c: char)
    requires
        consistent(old(app)@),
    ensures
        final(app)@ == normal_char(old(app)@, c),
{
    let n = app.current_line_char_len();
    let nlines = app.editor_lines.len();
    if c == 'i' {
        app.mode = VimMode::Insert;
    } else if c == 'a' {
        app.mode = VimMode::Insert;
        app.cursor_col = if app.cursor_col < n { app.cursor_col + 1 } else { n };
    } else if c == 'A' {
        app.mode = VimMode::Insert;
        app.cursor_col = n;
    } else if c == 'I' {
        let chars = line_chars(app);
        app.mode = VimMode::Insert;
        app.cursor_col = first_non_ws_exec(chars.as_slice());
    } else if c == 'o' {
        let row = app.cursor_row + 1;
        open_line(app, row);
    } else if c == 'O' {
        let row = app.cursor_row;
        open_line(app, row);
    } else if c == 'v' {
        app.mode = VimMode::Visual;
        app.visual_anchor_row = app.cursor_row;
        app.visual_anchor_col = app.cursor_col;
    } else if c == 'V' {
        app.mode = VimMode::VisualLine;
        app.visual_anchor_row = app.cursor_row;
        app.visual_anchor_col = 0;
    } else if c == '^' {
        let chars = line_chars(app);
        app.cursor_col = first_non_ws_exec(chars.as_slice());
    } else if c == 'g' || c == 'd' || c == 'y' {
        app.pending_key = Some(c);
    } else if c == 'G' {
        app.output_scroll = app.output_lines.len();
        app.cursor_row = nlines - 1;
        app.clamp_cursor();
    } else if c == '{' {
        let start = if app.cursor_row > 0 { app.cursor_row - 1 } else { 0 };
        app.cursor_row = para_up_exec(app, start);
        app.cursor_col = 0;
    } else if c == '}' {
        let max = nlines - 1;
        let start = if app.cursor_row < max { app.cursor_row + 1 } else { app.cursor_row };
        app.cursor_row = para_down_exec(app, start, max);
        app.cursor_col = 0;
    } else if c == 'x' {
        if n > 0 && app.cursor_col < n {
            let chars = line_chars(app);
            let col = app.cursor_col;
            let rest = cut_out(&chars, col, col + 1);
            assert(rest@ =~= chars@.remove(col as int));
            set_line(app, rest.as_slice());
            app.clamp_cursor();
        }
    } else if c == '/' || c == '?' {
        app.mode = VimMode::Search;
        app.search_query = String::new();
        app.search_forward = c == '/';
    } else if c == 'n' {
        proof {
            lemma_match_bounds(app@);
        }
        let m = app.find_next_match();
        go_to_match(app, m);
    } else if c == 'N' {
        proof {
            lemma_match_bounds(app@);
        }
        let m = app.find_prev_match();
        go_to_match(app, m);
    } else if c == 'q' && !app.agent_running {
        app.should_quit = true;
    }
}

/// The second key of a two-key command (see `pending_step`); the pending key is already
/// cleared.
pub fn handle_pending_key(app: &mut App, pending: char, key: KeyInput) -> (r: Option<String>)
    requires
        consistent(old(app)@),
    ensures
        final(app)@ == pending_step(old(app)@, pending, key.code),
        r is None,
{
    let chars = line_chars(app);
    let n = chars.len();
    let at = cap_exec(app.cursor_col, n);
    if pending == 'g' && key.code == KeyCode::Char('g') {
        app.output_scroll = 0;
        app.cursor_row = 0;
        app.cursor_col = 0;
    } else if pending == 'd' && key.code == KeyCode::Char('d') {
        if app.editor_lines.len() > 1 {
            let ghost before = app.editor_lines@;
            let row = app.cursor_row;
            app.editor_lines.remove(row);
            assert(lines_view(app.editor_lines@) =~= lines_view(before).remove(row as int));
            app.clamp_cursor();
        } else {
            let ghost before = app.editor_lines@;
            app.editor_lines.set(0, String::new());
            assert(lines_view(app.editor_lines@) =~= lines_view(before).update(0, Seq::empty()));
            app.cursor_col = 0;
        }
    } else if pending == 'd' && key.code == KeyCode::Char('w') {
        let end = cap_exec(word_forward(chars.as_slice(), app.cursor_col), n);
        let rest = cut_out(&chars, at, end);
        set_line(app, rest.as_slice());
        app.clamp_cursor();
    } else if pending == 'd' && key.code == KeyCode::Char('$') {
        let rest = cut_out(&chars, at, n);
        assert(chars@.skip(n as int) =~= Seq::<char>::empty());
        assert(rest@ =~= chars@.take(at as int));
        set_line(app, rest.as_slice());
        app.clamp_cursor();
    } else if pending == 'd' && key.code == KeyCode::Char('0') {
        let rest = cut_out(&chars, 0, at);
        assert(rest@ =~= chars@.skip(at as int));
        set_line(app, rest.as_slice());
        app.cursor_col = 0;
    }
    None
}

/// A key in visual mode (see `visual_step`).
pub fn handle_visual_key(app: &mut App, key: KeyInput) -> (r: Option<String>)
    requires
        consistent(old(app)@),
        old(app).mode == VimMode::Visual || old(app).mode == VimMode::VisualLine,
    ensures
        final(app)@ == visual_step(old(app)@, key.code),
        r is None,
{
    let k = key.code;
    if k == KeyCode::Esc {
        app.mode = VimMode::Normal;
        app.clamp_cursor();
    } else if is_motion_exec(k) {
        apply_motion(app, k);
    } else if k == KeyCode::Char('d') || k == KeyCode::Char('x') {
        app.delete_visual_selection();
        proof {
            lemma_visual_deleted_lines(old(app)@);
        }
        app.mode = VimMode::Normal;
        app.clamp_cursor();
    } else if k == KeyCode::Char('v') {
        app.mode = if app.mode == VimMode::Visual {
            VimMode::Normal
        } else {
            VimMode::Visual
        };
    } else if k == KeyCode::Char('V') {
        app.mode = if app.mode == VimMode::VisualLine {
            VimMode::Normal
        } else {
            VimMode::VisualLine
        };
    }
    None
}

/// Whether a key moves the cursor in normal and visual mode.
fn is_motion_exec(k: KeyCode) -> (b: bool)
    ensures
        b == is_motion(k),
{
    match k {
        KeyCode::Char(c) => c == 'h' || c == 'l' || c == 'j' || c == 'k' || c == 'w' || c == 'b'
            || c == 'e' || c == '$' || c == '0',
        KeyCode::Left | KeyCode::Right | KeyCode::Up | KeyCode::Down => true,
        _ => false,
    }
}

/// A key while typing a search (see `search_step`).
pub fn handle_search_key(app: &mut App, key: KeyInput) -> (r: Option<String>)
    ensures
        final(app)@ == search_step(old(app)@, key.code),
        r is None,
{
    match key.code {
        KeyCode::Esc => {
            app.mode = VimMode::Normal;
            app.search_query = String::new();
        },
        KeyCode::Enter => {
            app.update_search_matches();
            proof {
                lemma_match_bounds(app@);
            }
            let m = app.find_next_match();
            go_to_match(app, m);
            app.mode = VimMode::Normal;
        },
        KeyCode::Backspace => {
            let q = chars_of(app.search_query.as_str());
            if q.len() > 0 {
                let shorter = crate::tui::char_range(&q, 0, q.len() - 1);
                assert(shorter@ =~= q@.drop_last());
                app.search_query = string_from_chars(shorter.as_slice());
            }
        },
        KeyCode::Char(c) => {
            push_char(&mut app.search_query, c);
        },
        _ => {},
    }
    None
}

/// Breaks the cursor's line at the cursor (see `line_split`).
fn split_line(app: &mut App)
    requires
        consistent(old(app)@),
    ensures
        final(app)@ == line_split(old(app)@),
{
    let chars = line_chars(app);
    let n = chars.len();
    let at = cap_exec(app.cursor_col, n);
    let head = crate::tui::char_range(&chars, 0, at);
    let tail = crate::tui::char_range(&chars, at, n);
    assert(head@ =~= chars@.take(at as int));
    assert(tail@ =~= chars@.skip(at as int));
    set_line(app, head.as_slice());
    let nl = app.editor_lines.len();
    assert(app.cursor_row < nl);
    let row = app.cursor_row + 1;
    let ghost before = app.editor_lines@;
    app.editor_lines.insert(row, string_from_chars(tail.as_slice()));
    assert(lines_view(app.editor_lines@) =~= lines_view(before).insert(row as int, tail@));
    app.cursor_row = row;
    app.cursor_col = 0;
}

/// Backspace while typing (see `backspaced`).
fn backspace(app: &mut App)
    requires
        consistent(old(app)@),
    ensures
        final(app)@ == backspaced(old(app)@),
{
    if app.cursor_col > 0 {
        let chars = line_chars(app);
        let col = app.cursor_col;
        let rest = cut_out(&chars, col - 1, col);
        assert(rest@ =~= chars@.remove(col - 1));
        set_line(app, rest.as_slice());
        app.cursor_col = col - 1;
    } else if app.cursor_row > 0 {
        let ghost v0 = app@;
        let row = app.cursor_row;
        let ghost before = app.editor_lines@;
        let line = app.editor_lines.remove(row);
        assert(lines_view(app.editor_lines@) =~= lines_view(before).remove(row as int));
        app.cursor_row = row - 1;
        let mut above = line_chars(app);
        app.cursor_col = above.len();
        append_chars(&mut above, chars_of(line.as_str()).as_slice());
        set_line(app, above.as_slice());
        assert(app@.lines =~= v0.lines.remove(row as int).update(row - 1, v0.lines[row - 1] + v0.lines[row as int]));
    }
}

/// Typing `c` at the cursor (see `typed`).
fn type_char(app: &mut App, c: char)
    requires
        consistent(old(app)@),
    ensures
        final(app)@ == typed(old(app)@, c),
{
    let chars = line_chars(app);
    let n = chars.len();
    let at = cap_exec(app.cursor_col, n);
    let mut line = crate::tui::char_range(&chars, 0, at);
    line.push(c);
    let tail = crate::tui::char_range(&chars, at, n);
    append_chars(&mut line, tail.as_slice());
    assert(line@ =~= chars@.take(at as int) + seq![c] + chars@.skip(at as int));
    assert(line.len() == n + 1);
    set_line(app, line.as_slice());
    app.cursor_col = app.cursor_col + 1;
}

/// The editing keys shared by insert mode and the plain editor (see `typing_step`).
fn typing_key(app: &mut App, k: KeyCode)
    requires
        consistent(old(app)@),
        old(app).mode == VimMode::Insert,
    ensures
        final(app)@ == typing_step(old(app)@, k),
{
    match k {
        KeyCode::Backspace => backspace(app),
        KeyCode::Char(c) => type_char(app, c),
        KeyCode::Left => {
            app.cursor_col = if app.cursor_col > 0 {
                app.cursor_col - 1
            } else {
                0
            };
        },
        KeyCode::Right => {
            let n = app.current_line_char_len();
            app.cursor_col = if app.cursor_col < n { app.cursor_col + 1 } else { n };
        },
        KeyCode::Up => {
            app.cursor_row = if app.cursor_row > 0 {
                app.cursor_row - 1
            } else {
                0
            };
            app.clamp_cursor();
        },
        KeyCode::Down => {
            let n = app.editor_lines.len();
            if app.cursor_row + 1 < n {
                app.cursor_row = app.cursor_row + 1;
            }
            app.clamp_cursor();
        },
        _ => {},
    }
}

/// A key in insert mode (see `insert_step`).
pub fn handle_insert_key(app: &mut App, key: KeyInput) -> (r: Option<String>)
    requires
        consistent(old(app)@),
        old(app).mode == VimMode::Insert,
    ensures
        final(app)@ == insert_step(old(app)@, key.code),
        r is None,
{
    match key.code {
        KeyCode::Esc => {
            app.mode = VimMode::Normal;
            app.clamp_cursor();
        },
        KeyCode::Enter => split_line(app),
        _ => typing_key(app, key.code),
    }
    None
}

/// A key in the plain editor, with vim keys off (see `plain_step`): Enter sends the text,
/// Shift+Enter breaks the line.
pub fn handle_plain_key(app: &mut App, key: KeyInput) -> (r: Option<String>)
    requires
        consistent(old(app)@),
        !old(app).vim_enabled,
    ensures
        final(app)@ == plain_step(old(app)@, key),
        (r is Some) == (key.code == KeyCode::Enter && !key.shift && submittable(old(app)@)),
        r matches Some(t) ==> t@ == editor_text_of(old(app)@),
{
    if key.code == KeyCode::Enter {
        if key.shift {
            split_line(app);
            None
        } else {
            submit(app)
        }
    } else {
        typing_key(app, key.code);
        None
    }
}

/// A key in normal mode: the second key of a pending command, a scroll, a motion or a command
/// (see `pending_step` and `normal_step`).
pub fn handle_normal_key(app: &mut App, key: KeyInput) -> (r: Option<String>)
    requires
        consistent(old(app)@),
        old(app).mode == VimMode::Normal,
    ensures
        final(app)@ == match old(app)@.pending {
            Some(p) => pending_step(AppView { pending: None, ..old(app)@ }, p, key.code),
            None => normal_step(old(app)@, key),
        },
        (r is Some) == (old(app)@.pending is None && key.code == KeyCode::Enter && submittable(
            old(app)@,
        )),
        r matches Some(t) ==> t@ == editor_text_of(old(app)@),
{
    if let Some(p) = app.pending_key {
        app.pending_key = None;
        return handle_pending_key(app, p, key);
    }
    let k = key.code;
    if key.ctrl && k == KeyCode::Char('d') {
        scroll_down(app, 10);
        None
    } else if key.ctrl && k == KeyCode::Char('u') {
        scroll_up(app, 10);
        None
    } else if key.ctrl && k == KeyCode::Char('f') {
        scroll_down(app, 20);
        None
    } else if key.ctrl && k == KeyCode::Char('b') {
        scroll_up(app, 20);
        None
    } else if is_motion_exec(k) {
        apply_motion(app, k);
        None
    } else {
        match k {
            KeyCode::Enter => submit(app),
            KeyCode::Char(c) => {
                normal_char_key(app, c);
                None
            },
            _ => None,
        }
    }
}

/// Handles a key press: Ctrl+C quits, Ctrl+L shows or hides the logs, Ctrl+Shift+V turns vim
/// keys on or off; other keys go to the plain editor or to the current mode. Returns the text to
/// send when the key sends it. The editor stays consistent.
pub fn handle_key(app: &mut App, key: KeyInput) -> (r: Option<String>)
    requires
        consistent(old(app)@),
    ensures
        final(app)@ == key_step(old(app)@, key),
        consistent(final(app)@),
        (r is Some) == key_submits(old(app)@, key),
        r matches Some(t) ==> t@ == editor_text_of(old(app)@),
{
    proof {
        lemma_key_step_keeps_consistent(app@, key);
    }
    if key.ctrl && key.code == KeyCode::Char('c') {
        app.should_quit = true;
        return None;
    }
    if key.ctrl && key.code == KeyCode::Char('l') {
        app.show_logs = !app.show_logs;
        return None;
    }
    if key.ctrl && key.shift && key.code == KeyCode::Char('V') {
        app.vim_enabled = !app.vim_enabled;
        app.mode = if app.vim_enabled {
            VimMode::Normal
        } else {
            VimMode::Insert
        };
        app.pending_key = None;
        return None;
    }
    if !app.vim_enabled {
        return handle_plain_key(app, key);
    }
    match app.mode {
        VimMode::Normal => handle_normal_key(app, key),
        VimMode::Insert => handle_insert_key(app, key),
        VimMode::Visual | VimMode::VisualLine => handle_visual_key(app, key),
        VimMode::Search => handle_search_key(app, key),
    }
}

} // verus!
