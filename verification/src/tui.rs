//! The terminal client's editor: a vim-style modal line editor, the output pane with search,
//! and the log panel. Keys arrive as plain values; the terminal itself is driven elsewhere.

use vstd::prelude::*;
use crate::text::{
    append_chars, byte_len, chars_of, is_whitespace, is_ws, join_seq, lemma_byte_len,
    lemma_byte_len_prefix, lemma_byte_len_push, lowercase, string_from_chars, to_lowercase,
    trim_chars, trim_ws, utf8_width,
};

verus! {

broadcast use vstd::string::group_string_axioms;

/// The editor's mode.
#[derive(Clone, Copy, Debug, PartialEq, Eq, Structural)]
pub enum VimMode {
    Normal,
    Insert,
    Visual,
    VisualLine,
    Search,
}

impl VimMode {
    /// The mode as the status bar shows it.
    pub fn label(&self) -> (s: &'static str)
        ensures
            *self == VimMode::Normal ==> s@ == "NORMAL"@,
            *self == VimMode::Insert ==> s@ == "INSERT"@,
            *self == VimMode::Visual ==> s@ == "VISUAL"@,
            *self == VimMode::VisualLine ==> s@ == "V-LINE"@,
            *self == VimMode::Search ==> s@ == "SEARCH"@,
    {
        match self {
            VimMode::Normal => "NORMAL",
            VimMode::Insert => "INSERT",
            VimMode::Visual => "VISUAL",
            VimMode::VisualLine => "V-LINE",
            VimMode::Search => "SEARCH",
        }
    }
}

/// A key as the editor sees it.
#[derive(Clone, Copy, Debug, PartialEq, Eq, Structural)]
pub enum KeyCode {
    Char(char),
    Enter,
    Esc,
    Backspace,
    Left,
    Right,
    Up,
    Down,
    /// Any other key; the editor ignores it.
    Other,
}

/// A key press with its modifiers.
#[derive(Clone, Copy, Debug, PartialEq, Eq, Structural)]
pub struct KeyInput {
    pub code: KeyCode,
    pub ctrl: bool,
    pub shift: bool,
}

/// The byte offset of character `char_idx` of `s`, or the byte length of `s` past its end.
pub open spec fn char_byte(s: Seq<char>, char_idx: nat) -> nat {
    byte_len(s.take(if char_idx < s.len() { char_idx as int } else { s.len() as int }))
}

/// The byte offset of character `char_idx` of `s` (its byte length past the end).
pub fn char_to_byte(s: &str, char_idx: usize) -> (b: usize)
    ensures
        b == char_byte(s@, char_idx as nat),
{
    let v = chars_of(s);
    let stop = if char_idx < v.len() {
        char_idx
    } else {
        v.len()
    };
    proof {
        lemma_byte_len(s@);
        lemma_byte_len_prefix(s@, stop as int);
    }
    let total = s.as_bytes().len();
    let mut acc: usize = 0;
    let mut i: usize = 0;
    assert(v@.take(0) =~= Seq::<char>::empty());
    while i < stop
        invariant
            i <= stop <= v@.len(),
            v@ == s@,
            acc == byte_len(v@.take(i as int)),
            byte_len(v@.take(stop as int)) <= total,
        decreases stop - i,
    {
        proof {
            lemma_byte_len_push(v@.take(i as int), v@[i as int]);
            assert(v@.take(i + 1) =~= v@.take(i as int).push(v@[i as int]));
            lemma_byte_len_prefix(v@.take(stop as int), i + 1);
            assert(v@.take(stop as int).take(i + 1) =~= v@.take(i + 1));
        }
        let c = v[i] as u32;
        let w: usize = if c <= 0x7F {
            1
        } else if c <= 0x7FF {
            2
        } else if c <= 0xFFFF {
            3
        } else {
            4
        };
        acc = acc + w;
        i = i + 1;
    }
    acc
}

/// The first index at or after `i` holding white space (the length when there is none).
pub open spec fn next_ws(s: Seq<char>, i: int) -> int
    decreases s.len() - i,
{
    if i < 0 || i >= s.len() {
        s.len() as int
    } else if is_ws(s[i]) {
        i
    } else {
        next_ws(s, i + 1)
    }
}

/// The first index at or after `i` holding no white space (the length when there is none).
pub open spec fn next_non_ws(s: Seq<char>, i: int) -> int
    decreases s.len() - i,
{
    if i < 0 || i >= s.len() {
        s.len() as int
    } else if !is_ws(s[i]) {
        i
    } else {
        next_non_ws(s, i + 1)
    }
}

/// The last character index, 0 for an empty line.
pub open spec fn last_index(len: nat) -> nat {
    if len == 0 {
        0
    } else {
        (len - 1) as nat
    }
}

/// The start of the next word (vim `w`): past the rest of the current word and the white space
/// after it, at most the last index.
pub open spec fn word_forward_spec(s: Seq<char>, from: nat) -> nat {
    if from >= s.len() {
        last_index(s.len())
    } else {
        let i = next_non_ws(s, next_ws(s, from as int)) as nat;
        if i < last_index(s.len()) {
            i
        } else {
            last_index(s.len())
        }
    }
}

proof fn lemma_next_bounds(s: Seq<char>, i: int)
    requires
        0 <= i <= s.len(),
    ensures
        i <= next_ws(s, i) <= s.len(),
        i <= next_non_ws(s, i) <= s.len(),
    decreases s.len() - i,
{
    if i < s.len() {
        lemma_next_bounds(s, i + 1);
    }
}

/// The start of the next word (vim `w`).
pub fn word_forward(chars: &[char], from: usize) -> (r: usize)
    ensures
        r == word_forward_spec(chars@, from as nat),
{
    let len = chars.len();
    if from >= len {
        return if len == 0 {
            0
        } else {
            len - 1
        };
    }
    let mut i = from;
    while i < len && !is_whitespace(chars[i])
        invariant
            from <= i <= len,
            len == chars@.len(),
            next_ws(chars@, i as int) == next_ws(chars@, from as int),
        decreases len - i,
    {
        i = i + 1;
    }
    assert(i == next_ws(chars@, from as int));
    let ghost j = i;
    while i < len && is_whitespace(chars[i])
        invariant
            j <= i <= len,
            len == chars@.len(),
            next_non_ws(chars@, i as int) == next_non_ws(chars@, j as int),
        decreases len - i,
    {
        i = i + 1;
    }
    assert(i == next_non_ws(chars@, j as int));
    if i < len - 1 {
        i
    } else {
        len - 1
    }
}

/// Moving back over white space from `i` (stopping at 0).
pub open spec fn back_over_ws(s: Seq<char>, i: int) -> int
    decreases i,
{
    if i > 0 && i < s.len() && is_ws(s[i]) {
        back_over_ws(s, i - 1)
    } else {
        i
    }
}

/// Moving back to the start of the word that ends at `i` (stopping at 0).
pub open spec fn back_to_word_start(s: Seq<char>, i: int) -> int
    decreases i,
{
    if i > 0 && i - 1 < s.len() && !is_ws(s[i - 1]) {
        back_to_word_start(s, i - 1)
    } else {
        i
    }
}

/// The start of the previous word (vim `b`).
pub open spec fn word_backward_spec(s: Seq<char>, from: nat) -> nat {
    if from == 0 {
        0
    } else {
        back_to_word_start(s, back_over_ws(s, from - 1)) as nat
    }
}

pub(crate) proof fn lemma_back_bounds(s: Seq<char>, i: int)
    requires
        0 <= i,
    ensures
        0 <= back_over_ws(s, i) <= i,
        0 <= back_to_word_start(s, i) <= i,
    decreases i,
{
    if i > 0 {
        lemma_back_bounds(s, i - 1);
    }
}

/// The start of the previous word (vim `b`); `from` is at most the line length.
pub fn word_backward(chars: &[char], from: usize) -> (r: usize)
    requires
        from <= chars@.len(),
    ensures
        r == word_backward_spec(chars@, from as nat),
{
    if from == 0 {
        return 0;
    }
    let mut i = from - 1;
    let ghost start = i;
    proof {
        lemma_back_bounds(chars@, start as int);
    }
    while i > 0 && is_whitespace(chars[i])
        invariant
            i <= start < chars@.len(),
            back_over_ws(chars@, i as int) == back_over_ws(chars@, start as int),
        decreases i,
    {
        i = i - 1;
    }
    let ghost mid = i;
    proof {
        lemma_back_bounds(chars@, mid as int);
    }
    while i > 0 && !is_whitespace(chars[i - 1])
        invariant
            i <= mid < chars@.len(),
            back_to_word_start(chars@, i as int) == back_to_word_start(chars@, mid as int),
        decreases i,
    {
        i = i - 1;
    }
    i
}

/// Moving forward while the next character is part of the word (from index `i`).
pub open spec fn forward_to_word_end(s: Seq<char>, i: int) -> int
    decreases s.len() - i,
{
    if 0 <= i && i + 1 < s.len() && !is_ws(s[i + 1]) {
        forward_to_word_end(s, i + 1)
    } else {
        i
    }
}

/// The end of the current or next word (vim `e`).
pub open spec fn word_end_spec(s: Seq<char>, from: nat) -> nat {
    if from >= last_index(s.len()) {
        last_index(s.len())
    } else {
        let i = forward_to_word_end(s, next_non_ws(s, (from + 1) as int)) as nat;
        if i < last_index(s.len()) {
            i
        } else {
            last_index(s.len())
        }
    }
}

proof fn lemma_word_end_bounds(s: Seq<char>, i: int)
    requires
        0 <= i <= s.len(),
    ensures
        i <= forward_to_word_end(s, i) <= s.len(),
    decreases s.len() - i,
{
    if i + 1 < s.len() {
        lemma_word_end_bounds(s, i + 1);
    }
}

/// The end of the current or next word (vim `e`).
pub fn word_end(chars: &[char], from: usize) -> (r: usize)
    ensures
        r == word_end_spec(chars@, from as nat),
{
    let len = chars.len();
    let last = if len == 0 {
        0
    } else {
        len - 1
    };
    if from >= last {
        return last;
    }
    let mut i = from + 1;
    while i < len && is_whitespace(chars[i])
        invariant
            from + 1 <= i <= len,
            len == chars@.len(),
            next_non_ws(chars@, i as int) == next_non_ws(chars@, from + 1),
        decreases len - i,
    {
        i = i + 1;
    }
    let ghost j = i;
    while i < len && i + 1 < len && !is_whitespace(chars[i + 1])
        invariant
            j <= i < len || (i == len && j == len),
            len == chars@.len(),
            forward_to_word_end(chars@, i as int) == forward_to_word_end(chars@, j as int),
        decreases len - i,
    {
        i = i + 1;
    }
    if i < last {
        i
    } else {
        last
    }
}


/// The texts of a list of strings.
pub open spec fn lines_view(v: Seq<String>) -> Seq<Seq<char>> {
    v.map_values(|s: String| s@)
}

/// The editor's state.
pub struct App {
    pub mode: VimMode,
    pub vim_enabled: bool,
    pub editor_lines: Vec<String>,
    pub cursor_row: usize,
    pub cursor_col: usize,
    /// The first key of a two-key command (`gg`, `dd`, ...).
    pub pending_key: Option<char>,
    pub visual_anchor_row: usize,
    pub visual_anchor_col: usize,
    pub search_query: String,
    pub search_forward: bool,
    /// Matches in the output, as (line, byte column).
    pub search_matches: Vec<(usize, usize)>,
    pub output_lines: Vec<String>,
    pub output_scroll: usize,
    pub agent_running: bool,
    pub model: String,
    pub context_used: usize,
    pub context_max: usize,
    pub session_id: String,
    pub ctx_path: String,
    pub show_logs: bool,
    pub log_lines: Vec<String>,
    pub log_scroll: usize,
    pub should_quit: bool,
}

/// What the editor's state holds, with texts as character sequences.
pub struct AppView {
    pub mode: VimMode,
    pub vim_enabled: bool,
    pub lines: Seq<Seq<char>>,
    pub row: nat,
    pub col: nat,
    pub pending: Option<char>,
    pub anchor_row: nat,
    pub anchor_col: nat,
    pub query: Seq<char>,
    pub forward: bool,
    pub matches: Seq<(usize, usize)>,
    pub output: Seq<Seq<char>>,
    pub scroll: nat,
    pub agent_running: bool,
    pub model: Seq<char>,
    pub context_used: nat,
    pub context_max: nat,
    pub session_id: Seq<char>,
    pub ctx_path: Seq<char>,
    pub show_logs: bool,
    pub logs: Seq<Seq<char>>,
    pub log_scroll: nat,
    pub should_quit: bool,
}

impl View for App {
    type V = AppView;

    open spec fn view(&self) -> AppView {
        AppView {
            mode: self.mode,
            vim_enabled: self.vim_enabled,
            lines: lines_view(self.editor_lines@),
            row: self.cursor_row as nat,
            col: self.cursor_col as nat,
            pending: self.pending_key,
            anchor_row: self.visual_anchor_row as nat,
            anchor_col: self.visual_anchor_col as nat,
            query: self.search_query@,
            forward: self.search_forward,
            matches: self.search_matches@,
            output: lines_view(self.output_lines@),
            scroll: self.output_scroll as nat,
            agent_running: self.agent_running,
            model: self.model@,
            context_used: self.context_used as nat,
            context_max: self.context_max as nat,
            session_id: self.session_id@,
            ctx_path: self.ctx_path@,
            show_logs: self.show_logs,
            logs: lines_view(self.log_lines@),
            log_scroll: self.log_scroll as nat,
            should_quit: self.should_quit,
        }
    }
}

/// The editor is consistent: it has a line, the cursor is on one and at most at its end, a
/// visual selection's anchor is on a line, and with vim keys off the editor is in insert mode.
pub open spec fn consistent(v: AppView) -> bool {
    &&& v.lines.len() > 0
    &&& !v.vim_enabled ==> v.mode == VimMode::Insert
    &&& v.row < v.lines.len()
    &&& v.col <= v.lines[v.row as int].len()
    &&& (v.mode == VimMode::Visual || v.mode == VimMode::VisualLine) ==> v.anchor_row
        < v.lines.len()
}

/// Appending output text: a line feed starts a new line; other characters extend the last line
/// (starting one when there is none).
pub open spec fn fed(lines: Seq<Seq<char>>, text: Seq<char>) -> Seq<Seq<char>>
    decreases text.len(),
{
    if text.len() == 0 {
        lines
    } else {
        let l = fed(lines, text.drop_last());
        let c = text.last();
        if c == '\n' {
            l.push(Seq::empty())
        } else if l.len() == 0 {
            seq![seq![c]]
        } else {
            l.update(l.len() - 1, l.last().push(c))
        }
    }
}

/// The cursor column after clamping to a line of `len` characters: normal and visual modes stay
/// on a character, other modes may sit after the last one.
pub open spec fn clamped_col(mode: VimMode, col: nat, len: nat) -> nat {
    if mode == VimMode::Normal || mode == VimMode::Visual || mode == VimMode::VisualLine {
        if col < last_index(len) {
            col
        } else {
            last_index(len)
        }
    } else if col < len {
        col
    } else {
        len
    }
}

/// The state after clamping the cursor: onto the last line when past it, then into the line.
pub open spec fn clamped(v: AppView) -> AppView {
    let row = if v.row >= v.lines.len() {
        last_index(v.lines.len())
    } else {
        v.row
    };
    AppView { row, col: clamped_col(v.mode, v.col, v.lines[row as int].len()), ..v }
}

impl App {
    /// A fresh editor for `model`, session `session_id` and context file `ctx_path`: one empty
    /// line, normal mode, vim keys on, a 128000-token context.
    pub fn new(model: &str, session_id: &str, ctx_path: &str) -> (a: Self)
        ensures
            a@ == (AppView {
                mode: VimMode::Normal,
                vim_enabled: true,
                lines: seq![Seq::<char>::empty()],
                row: 0,
                col: 0,
                pending: None,
                anchor_row: 0,
                anchor_col: 0,
                query: Seq::empty(),
                forward: true,
                matches: Seq::empty(),
                output: Seq::empty(),
                scroll: 0,
                agent_running: false,
                model: model@,
                context_used: 0,
                context_max: 128000,
                session_id: session_id@,
                ctx_path: ctx_path@,
                show_logs: false,
                logs: Seq::empty(),
                log_scroll: 0,
                should_quit: false,
            }),
    {
        let mut lines: Vec<String> = Vec::new();
        lines.push(String::new());
        let a = App {
            mode: VimMode::Normal,
            vim_enabled: true,
            editor_lines: lines,
            cursor_row: 0,
            cursor_col: 0,
            pending_key: None,
            visual_anchor_row: 0,
            visual_anchor_col: 0,
            search_query: String::new(),
            search_forward: true,
            search_matches: Vec::new(),
            output_lines: Vec::new(),
            output_scroll: 0,
            agent_running: false,
            model: model.to_owned(),
            context_used: 0,
            context_max: 128000,
            session_id: session_id.to_owned(),
            ctx_path: ctx_path.to_owned(),
            show_logs: false,
            log_lines: Vec::new(),
            log_scroll: 0,
            should_quit: false,
        };
        assert(a@.lines =~= seq![Seq::<char>::empty()]);
        assert(a@.output =~= Seq::<Seq<char>>::empty());
        assert(a@.logs =~= Seq::<Seq<char>>::empty());
        a
    }

    /// Adds a log line: past 1000 lines the oldest 100 go; the view follows the last ten lines.
    pub fn push_log(&mut self, line: &str)
        ensures
            ({
                let grown = old(self)@.logs.push(line@);
                let kept = if grown.len() > 1000 {
                    grown.skip(100)
                } else {
                    grown
                };
                final(self)@ == (AppView {
                    logs: kept,
                    log_scroll: if kept.len() > 10 {
                        (kept.len() - 10) as nat
                    } else {
                        old(self)@.log_scroll
                    },
                    ..old(self)@
                })
            }),
    {
        let ghost before = self.log_lines@;
        self.log_lines.push(line.to_owned());
        assert(lines_view(self.log_lines@) =~= lines_view(before).push(line@));
        if self.log_lines.len() > 1000 {
            let ghost all = self.log_lines@;
            let rest = self.log_lines.split_off(100);
            self.log_lines = rest;
            assert(lines_view(self.log_lines@) =~= lines_view(all).skip(100));
        }
        if self.log_lines.len() > 10 {
            self.log_scroll = self.log_lines.len() - 10;
        }
    }

    /// The editor's text: its lines joined by line feeds.
    pub fn editor_text(&self) -> (t: String)
        ensures
            t@ == join_seq(self@.lines, seq!['\n']),
    {
        let mut out: Vec<char> = Vec::new();
        let mut i: usize = 0;
        let ghost lv = lines_view(self.editor_lines@);
        assert(lv.take(0) =~= Seq::<Seq<char>>::empty());
        while i < self.editor_lines.len()
            invariant
                i <= self.editor_lines@.len(),
                lv == lines_view(self.editor_lines@),
                out@ == join_seq(lv.take(i as int), seq!['\n']),
            decreases self.editor_lines@.len() - i,
        {
            let ghost before = out@;
            if i > 0 {
                out.push('\n');
            }
            append_chars(&mut out, chars_of(self.editor_lines[i].as_str()).as_slice());
            proof {
                let pre = lv.take(i + 1);
                assert(pre.drop_last() =~= lv.take(i as int));
                assert(pre.last() == self.editor_lines@[i as int]@);
                if i == 0 {
                    assert(pre =~= seq![pre.last()]);
                    assert(out@ =~= join_seq(pre, seq!['\n']));
                } else {
                    assert(out@ =~= join_seq(pre, seq!['\n']));
                }
            }
            i = i + 1;
        }
        assert(lv.take(self.editor_lines@.len() as int) =~= lv);
        string_from_chars(out.as_slice())
    }

    /// Empties the editor: one empty line, cursor at its start.
    pub fn clear_editor(&mut self)
        ensures
            final(self)@ == (AppView { lines: seq![Seq::<char>::empty()], row: 0, col: 0, ..old(self)@ }),
    {
        let mut lines: Vec<String> = Vec::new();
        lines.push(String::new());
        self.editor_lines = lines;
        self.cursor_row = 0;
        self.cursor_col = 0;
        assert(self@.lines =~= seq![Seq::<char>::empty()]);
    }

    /// Appends text to the output pane and scrolls to its end.
    pub fn push_output(&mut self, text: &str)
        ensures
            final(self)@ == (AppView {
                output: fed(old(self)@.output, text@),
                scroll: fed(old(self)@.output, text@).len(),
                ..old(self)@
            }),
    {
        let v = chars_of(text);
        let mut i: usize = 0;
        let ghost start = lines_view(self.output_lines@);
        assert(v@.take(0) =~= Seq::<char>::empty());
        while i < v.len()
            invariant
                i <= v@.len(),
                v@ == text@,
                lines_view(self.output_lines@) == fed(start, v@.take(i as int)),
                self.editor_lines == old(self).editor_lines,
                self.log_lines == old(self).log_lines,
                self.search_matches == old(self).search_matches,
                self.search_query == old(self).search_query,
                self.model == old(self).model,
                self.session_id == old(self).session_id,
                self.ctx_path == old(self).ctx_path,
                self.mode == old(self).mode,
                self.vim_enabled == old(self).vim_enabled,
                self.cursor_row == old(self).cursor_row,
                self.cursor_col == old(self).cursor_col,
                self.pending_key == old(self).pending_key,
                self.visual_anchor_row == old(self).visual_anchor_row,
                self.visual_anchor_col == old(self).visual_anchor_col,
                self.search_forward == old(self).search_forward,
                self.output_scroll == old(self).output_scroll,
                self.agent_running == old(self).agent_running,
                self.context_used == old(self).context_used,
                self.context_max == old(self).context_max,
                self.show_logs == old(self).show_logs,
                self.log_scroll == old(self).log_scroll,
                self.should_quit == old(self).should_quit,
            decreases v.len() - i,
        {
            let c = v[i];
            let ghost before = lines_view(self.output_lines@);
            proof {
                assert(v@.take(i + 1).drop_last() =~= v@.take(i as int));
                assert(v@.take(i + 1).last() == c);
            }
            if c == '\n' {
                self.output_lines.push(String::new());
                assert(lines_view(self.output_lines@) =~= before.push(Seq::<char>::empty()));
            } else if self.output_lines.len() == 0 {
                let mut line = String::new();
                crate::text::push_char(&mut line, c);
                self.output_lines.push(line);
                assert(lines_view(self.output_lines@) =~= seq![seq![c]]);
            } else {
                let mut last = self.output_lines.pop().unwrap();
                let ghost mid = lines_view(self.output_lines@);
                crate::text::push_char(&mut last, c);
                self.output_lines.push(last);
                assert(lines_view(self.output_lines@) =~= before.update(
                    before.len() - 1,
                    before.last().push(c),
                ));
            }
            i = i + 1;
        }
        assert(v@.take(v@.len() as int) =~= v@);
        self.output_scroll = self.output_lines.len();
    }

    /// The number of characters of the cursor's line.
    pub fn current_line_char_len(&self) -> (n: usize)
        requires
            self.cursor_row < self.editor_lines@.len(),
        ensures
            n == self@.lines[self.cursor_row as int].len(),
    {
        chars_of(self.editor_lines[self.cursor_row].as_str()).len()
    }

    /// The byte offset of the cursor in its line.
    pub fn cursor_byte_offset(&self) -> (b: usize)
        requires
            self.cursor_row < self.editor_lines@.len(),
        ensures
            b == char_byte(self@.lines[self.cursor_row as int], self.cursor_col as nat),
    {
        char_to_byte(self.editor_lines[self.cursor_row].as_str(), self.cursor_col)
    }

    /// Keeps the cursor on a line and within it (see `clamped`).
    pub fn clamp_cursor(&mut self)
        requires
            old(self).editor_lines@.len() > 0,
        ensures
            final(self)@ == clamped(old(self)@),
    {
        if self.cursor_row >= self.editor_lines.len() {
            self.cursor_row = self.editor_lines.len() - 1;
        }
        let char_len = self.current_line_char_len();
        let last = if char_len == 0 {
            0
        } else {
            char_len - 1
        };
        if self.mode == VimMode::Normal || self.mode == VimMode::Visual || self.mode
            == VimMode::VisualLine {
            if self.cursor_col > last {
                self.cursor_col = last;
            }
        } else {
            if self.cursor_col > char_len {
                self.cursor_col = char_len;
            }
        }
    }

    /// Whether the editor is consistent (see `consistent`).
    pub fn is_consistent(&self) -> (b: bool)
        ensures
            b == consistent(self@),
    {
        if self.editor_lines.len() == 0 || self.cursor_row >= self.editor_lines.len() {
            return false;
        }
        if self.cursor_col > self.current_line_char_len() {
            return false;
        }
        if !self.vim_enabled && self.mode != VimMode::Insert {
            return false;
        }
        if self.mode == VimMode::Visual || self.mode == VimMode::VisualLine {
            return self.visual_anchor_row < self.editor_lines.len();
        }
        true
    }
}


/// The byte positions from `from` on where `needle` occurs in `hay`, overlapping ones
/// included, in increasing order.
pub open spec fn occurrences(hay: Seq<u8>, needle: Seq<u8>, from: int) -> Seq<nat>
    decreases hay.len() + 1 - from,
{
    if from < 0 || from + needle.len() > hay.len() {
        Seq::empty()
    } else if hay.subrange(from, from + needle.len()) == needle {
        seq![from as nat] + occurrences(hay, needle, from + 1)
    } else {
        occurrences(hay, needle, from + 1)
    }
}

/// The positions `ps` of line `line`, as (line, position) pairs.
pub open spec fn tagged(line: nat, ps: Seq<nat>) -> Seq<(usize, usize)> {
    ps.map_values(|p: nat| (line as usize, p as usize))
}

/// The matches of `query` in the output lines, case-insensitively (both lower-cased), as
/// (line, byte column) pairs in order.
pub open spec fn search_matches_of(lines: Seq<Seq<char>>, query: Seq<char>) -> Seq<(usize, usize)>
    decreases lines.len(),
{
    if lines.len() == 0 {
        Seq::empty()
    } else {
        search_matches_of(lines.drop_last(), query) + tagged(
            (lines.len() - 1) as nat,
            occurrences(
                vstd::utf8::encode_utf8(lowercase(lines.last())),
                vstd::utf8::encode_utf8(lowercase(query)),
                0,
            ),
        )
    }
}

/// Every position at which `needle` occurs in `hay`.
fn find_all(hay: &[u8], needle: &[u8]) -> (ps: Vec<usize>)
    requires
        needle@.len() > 0,
    ensures
        ps@.map_values(|p: usize| p as nat) == occurrences(hay@, needle@, 0),
{
    let n = hay.len();
    let m = needle.len();
    let mut rev: Vec<usize> = Vec::new();
    if m > n {
        assert(occurrences(hay@, needle@, 0) =~= Seq::<nat>::empty());
        return rev;
    }
    let mut start: usize = n - m + 1;
    // Walk backwards so that each position is put in front of the later ones.
    let ghost later: Seq<nat> = Seq::empty();
    assert(occurrences(hay@, needle@, start as int) =~= Seq::<nat>::empty());
    while start > 0
        invariant
            0 < m <= n,
            n == hay@.len(),
            m == needle@.len(),
            start <= n - m + 1,
            rev@.map_values(|p: usize| p as nat).reverse() == occurrences(hay@, needle@, start as int),
        decreases start,
    {
        start = start - 1;
        let mut k: usize = 0;
        let mut same = true;
        while k < m
            invariant
                k <= m,
                start + m <= n,
                n == hay@.len(),
                m == needle@.len(),
                same <==> (forall|j: int| 0 <= j < k ==> hay@[start + j] == needle@[j]),
            decreases m - k,
        {
            if hay[start + k] != needle[k] {
                same = false;
            }
            k = k + 1;
        }
        proof {
            if same {
                assert(hay@.subrange(start as int, start + m) =~= needle@);
            } else {
                let j = choose|j: int| 0 <= j < m && hay@[start + j] != needle@[j];
                assert(hay@.subrange(start as int, start + m)[j] != needle@[j]);
            }
        }
        if same {
            let ghost before = rev@;
            rev.push(start);
            assert(rev@.map_values(|p: usize| p as nat).reverse() =~= seq![start as nat]
                + before.map_values(|p: usize| p as nat).reverse());
        }
    }
    let mut ps: Vec<usize> = Vec::new();
    let mut i: usize = rev.len();
    let ghost rv = rev@.map_values(|p: usize| p as nat);
    while i > 0
        invariant
            i <= rev@.len(),
            rv == rev@.map_values(|p: usize| p as nat),
            ps@.map_values(|p: usize| p as nat) == rv.skip(i as int).reverse(),
        decreases i,
    {
        i = i - 1;
        let ghost before = ps@;
        ps.push(rev[i]);
        assert(rv.skip(i as int).reverse() =~= rv.skip(i + 1).reverse().push(rv[i as int]));
        assert(ps@.map_values(|p: usize| p as nat) =~= before.map_values(|p: usize| p as nat).push(
            rev@[i as int] as nat,
        ));
    }
    assert(rv.skip(0) =~= rv);
    ps
}

impl App {
    /// Searches the output for the query, case-insensitively, and records the matches (none for
    /// an empty query, or one that lower-cases to nothing).
    pub fn update_search_matches(&mut self)
        ensures
            final(self)@ == (AppView {
                matches: if old(self)@.query.len() == 0 || lowercase(old(self)@.query).len() == 0 {
                    Seq::empty()
                } else {
                    search_matches_of(old(self)@.output, old(self)@.query)
                },
                ..old(self)@
            }),
    {
        self.search_matches = Vec::new();
        if self.search_query.as_str().is_empty() {
            return;
        }
        let query = to_lowercase(self.search_query.as_str());
        let qb = query.as_str().as_bytes();
        if qb.len() == 0 {
            return;
        }
        let mut i: usize = 0;
        let ghost out = lines_view(self.output_lines@);
        let mut found: Vec<(usize, usize)> = Vec::new();
        assert(out.take(0) =~= Seq::<Seq<char>>::empty());
        while i < self.output_lines.len()
            invariant
                i <= self.output_lines@.len(),
                out == lines_view(self.output_lines@),
                qb@ == vstd::utf8::encode_utf8(lowercase(self.search_query@)),
                qb@.len() > 0,
                found@ == search_matches_of(out.take(i as int), self.search_query@),
            decreases self.output_lines@.len() - i,
        {
            let lower = to_lowercase(self.output_lines[i].as_str());
            let ps = find_all(lower.as_str().as_bytes(), qb);
            let mut k: usize = 0;
            let ghost before = found@;
            while k < ps.len()
                invariant
                    k <= ps@.len(),
                    found@ == before + tagged(i as nat, ps@.map_values(|p: usize| p as nat).take(k as int)),
                decreases ps@.len() - k,
            {
                found.push((i, ps[k]));
                assert(tagged(i as nat, ps@.map_values(|p: usize| p as nat).take(k + 1)) =~= tagged(
                    i as nat,
                    ps@.map_values(|p: usize| p as nat).take(k as int),
                ).push((i, ps@[k as int])));
                k = k + 1;
            }
            proof {
                assert(ps@.map_values(|p: usize| p as nat).take(ps@.len() as int) =~= ps@.map_values(
                    |p: usize| p as nat,
                ));
                assert(out.take(i + 1).drop_last() =~= out.take(i as int));
                assert(out.take(i + 1).last() == self.output_lines@[i as int]@);
            }
            i = i + 1;
        }
        assert(out.take(self.output_lines@.len() as int) =~= out);
        self.search_matches = found;
    }
}


/// The index of the first match at or after output line `line`, looking from index `k` on.
pub open spec fn first_from(ms: Seq<(usize, usize)>, line: nat, k: int) -> Option<nat>
    decreases ms.len() - k,
{
    if k < 0 || k >= ms.len() {
        None
    } else if ms[k].0 >= line {
        Some(k as nat)
    } else {
        first_from(ms, line, k + 1)
    }
}

/// The index of the last match before output line `line`, among the first `k` matches.
pub open spec fn last_before(ms: Seq<(usize, usize)>, line: nat, k: int) -> Option<nat>
    decreases k,
{
    if k <= 0 || k > ms.len() {
        None
    } else if (ms[k - 1].0 as nat) < line {
        Some((k - 1) as nat)
    } else {
        last_before(ms, line, k - 1)
    }
}

/// The first match at or after the view, wrapping to the first match.
pub open spec fn forward_match(ms: Seq<(usize, usize)>, line: nat) -> Option<nat> {
    if ms.len() == 0 {
        None
    } else {
        match first_from(ms, line, 0) {
            Some(k) => Some(k),
            None => Some(0),
        }
    }
}

/// The last match before the view, wrapping to the last match.
pub open spec fn backward_match(ms: Seq<(usize, usize)>, line: nat) -> Option<nat> {
    if ms.len() == 0 {
        None
    } else {
        match last_before(ms, line, ms.len() as int) {
            Some(k) => Some(k),
            None => Some((ms.len() - 1) as nat),
        }
    }
}

fn first_from_exec(ms: &Vec<(usize, usize)>, line: usize) -> (r: Option<usize>)
    ensures
        (match r {
            Some(k) => Some(k as nat),
            None => None,
        }) == first_from(ms@, line as nat, 0),
{
    let mut k: usize = 0;
    while k < ms.len()
        invariant
            k <= ms@.len(),
            first_from(ms@, line as nat, k as int) == first_from(ms@, line as nat, 0),
        decreases ms@.len() - k,
    {
        if ms[k].0 >= line {
            return Some(k);
        }
        k = k + 1;
    }
    None
}

fn last_before_exec(ms: &Vec<(usize, usize)>, line: usize) -> (r: Option<usize>)
    ensures
        (match r {
            Some(k) => Some(k as nat),
            None => None,
        }) == last_before(ms@, line as nat, ms@.len() as int),
{
    let mut k: usize = ms.len();
    while k > 0
        invariant
            k <= ms@.len(),
            last_before(ms@, line as nat, k as int) == last_before(ms@, line as nat, ms@.len() as int),
        decreases k,
    {
        if ms[k - 1].0 < line {
            return Some(k - 1);
        }
        k = k - 1;
    }
    None
}

impl App {
    /// Brings output line `line` into view.
    pub fn scroll_to_output_line(&mut self, line: usize)
        ensures
            final(self)@ == (AppView {
                scroll: if line < usize::MAX {
                    (line + 1) as nat
                } else {
                    line as nat
                },
                ..old(self)@
            }),
    {
        self.output_scroll = if line < usize::MAX {
            line + 1
        } else {
            line
        };
    }

    /// The next match in the search direction from the view.
    pub fn find_next_match(&self) -> (r: Option<usize>)
        ensures
            (match r {
                Some(k) => Some(k as nat),
                None => None,
            }) == if self.search_forward {
                forward_match(self.search_matches@, self.output_scroll as nat)
            } else {
                backward_match(self.search_matches@, self.output_scroll as nat)
            },
    {
        if self.search_matches.len() == 0 {
            return None;
        }
        if self.search_forward {
            match first_from_exec(&self.search_matches, self.output_scroll) {
                Some(k) => Some(k),
                None => Some(0),
            }
        } else {
            match last_before_exec(&self.search_matches, self.output_scroll) {
                Some(k) => Some(k),
                None => Some(self.search_matches.len() - 1),
            }
        }
    }

    /// The previous match in the search direction from the view.
    pub fn find_prev_match(&self) -> (r: Option<usize>)
        ensures
            (match r {
                Some(k) => Some(k as nat),
                None => None,
            }) == if self.search_forward {
                backward_match(self.search_matches@, self.output_scroll as nat)
            } else {
                forward_match(self.search_matches@, self.output_scroll as nat)
            },
    {
        if self.search_matches.len() == 0 {
            return None;
        }
        if self.search_forward {
            match last_before_exec(&self.search_matches, self.output_scroll) {
                Some(k) => Some(k),
                None => Some(self.search_matches.len() - 1),
            }
        } else {
            match first_from_exec(&self.search_matches, self.output_scroll) {
                Some(k) => Some(k),
                None => Some(0),
            }
        }
    }
}

/// `a` before `b` in (row, column) order.
pub open spec fn pos_before(ar: nat, ac: nat, br: nat, bc: nat) -> bool {
    ar < br || (ar == br && ac < bc)
}

/// The lines after deleting whole lines `sr` to `er`: they go, but an editor never has no
/// line, so deleting every line leaves one empty line.
pub open spec fn lines_without(lines: Seq<Seq<char>>, sr: nat, er: nat) -> Seq<Seq<char>> {
    if er - sr + 1 >= lines.len() {
        seq![Seq::empty()]
    } else {
        lines.take(sr as int) + lines.skip((er + 1) as int)
    }
}

/// `n` capped at `m`.
pub open spec fn cap(n: nat, m: nat) -> nat {
    if n < m {
        n
    } else {
        m
    }
}

/// The state after deleting the visual selection. In line mode the selected lines go and the
/// cursor goes to the start of the line now at the top of the selection; in character mode the
/// text from the earlier end through the later end goes and the cursor goes to the earlier end.
pub open spec fn visual_deleted(v: AppView) -> AppView {
    if v.mode == VimMode::VisualLine {
        let sr = if v.anchor_row < v.row { v.anchor_row } else { v.row };
        let er = if v.anchor_row < v.row { v.row } else { v.anchor_row };
        let ls = lines_without(v.lines, sr, er);
        AppView { lines: ls, row: cap(sr, last_index(ls.len())), col: 0, ..v }
    } else {
        let cursor_first = pos_before(v.row, v.col, v.anchor_row, v.anchor_col);
        let sr = if cursor_first { v.row } else { v.anchor_row };
        let sc = if cursor_first { v.col } else { v.anchor_col };
        let er = if cursor_first { v.anchor_row } else { v.row };
        let ec = if cursor_first { v.anchor_col } else { v.col };
        let first = v.lines[sr as int];
        let last = v.lines[er as int];
        let joined = first.take(cap(sc, first.len()) as int) + last.skip(
            cap(ec + 1, last.len()) as int,
        );
        AppView {
            lines: v.lines.take(sr as int) + seq![joined] + v.lines.skip((er + 1) as int),
            row: sr,
            col: sc,
            ..v
        }
    }
}

/// The characters of `v` from `a` up to `b`.
pub(crate) fn char_range(v: &Vec<char>, a: usize, b: usize) -> (r: Vec<char>)
    requires
        a <= b <= v@.len(),
    ensures
        r@ == v@.subrange(a as int, b as int),
{
    let mut r: Vec<char> = Vec::new();
    let mut i = a;
    while i < b
        invariant
            a <= i <= b <= v@.len(),
            r@ == v@.subrange(a as int, i as int),
        decreases b - i,
    {
        r.push(v[i]);
        assert(v@.subrange(a as int, i + 1) =~= v@.subrange(a as int, i as int).push(v@[i as int]));
        i = i + 1;
    }
    r
}

impl App {
    /// Deletes the visual selection (see `visual_deleted`).
    pub fn delete_visual_selection(&mut self)
        requires
            old(self).editor_lines@.len() > 0,
            old(self).cursor_row < old(self).editor_lines@.len(),
            old(self).visual_anchor_row < old(self).editor_lines@.len(),
        ensures
            final(self)@ == visual_deleted(old(self)@),
    {
        if self.mode == VimMode::VisualLine {
            self.delete_visual_lines();
        } else {
            self.delete_visual_chars();
        }
    }

    fn delete_visual_lines(&mut self)
        requires
            old(self).editor_lines@.len() > 0,
            old(self).cursor_row < old(self).editor_lines@.len(),
            old(self).visual_anchor_row < old(self).editor_lines@.len(),
            old(self).mode == VimMode::VisualLine,
        ensures
            final(self)@ == visual_deleted(old(self)@),
    {
        let sr = if self.visual_anchor_row < self.cursor_row {
            self.visual_anchor_row
        } else {
            self.cursor_row
        };
        let er = if self.visual_anchor_row < self.cursor_row {
            self.cursor_row
        } else {
            self.visual_anchor_row
        };
        let mut lines: Vec<String> = Vec::new();
        std::mem::swap(&mut lines, &mut self.editor_lines);
        let n = lines.len();
        let ghost lines0 = lines_view(lines@);
        let count = er - sr + 1;
        let mut k: usize = 0;
        while k < count
            invariant
                n == lines0.len(),
                sr <= er < n,
                count == er - sr + 1,
                k <= count,
                lines@.len() > 0,
                k < n ==> lines_view(lines@) == lines0.take(sr as int) + lines0.skip(sr + k),
                k >= n ==> lines_view(lines@) == seq![Seq::<char>::empty()],
                count == n ==> sr == 0,
            decreases count - k,
        {
            let ghost before = lines_view(lines@);
            if lines.len() > 1 {
                lines.remove(sr);
                proof {
                    assert(lines_view(lines@) =~= before.remove(sr as int));
                    assert(lines0.take(sr as int) + lines0.skip(sr + k + 1) =~= (lines0.take(
                        sr as int,
                    ) + lines0.skip(sr + k)).remove(sr as int));
                }
            } else {
                lines.set(0, String::new());
                proof {
                    assert(lines_view(lines@) =~= seq![Seq::<char>::empty()]);
                }
            }
            k = k + 1;
        }
        proof {
            if count < n {
                assert(lines0.skip(sr + count) =~= lines0.skip(er + 1));
            }
        }
        let last = lines.len() - 1;
        std::mem::swap(&mut lines, &mut self.editor_lines);
        self.cursor_row = if sr < last {
            sr
        } else {
            last
        };
        self.cursor_col = 0;
    }

    fn delete_visual_chars(&mut self)
        requires
            old(self).editor_lines@.len() > 0,
            old(self).cursor_row < old(self).editor_lines@.len(),
            old(self).visual_anchor_row < old(self).editor_lines@.len(),
            old(self).mode != VimMode::VisualLine,
        ensures
            final(self)@ == visual_deleted(old(self)@),
    {
        let cursor_first = self.cursor_row < self.visual_anchor_row || (self.cursor_row
            == self.visual_anchor_row && self.cursor_col < self.visual_anchor_col);
        let (sr, sc, er, ec) = if cursor_first {
            (self.cursor_row, self.cursor_col, self.visual_anchor_row, self.visual_anchor_col)
        } else {
            (self.visual_anchor_row, self.visual_anchor_col, self.cursor_row, self.cursor_col)
        };
        let joined = joined_line(&self.editor_lines[sr], &self.editor_lines[er], sc, ec);
        let line = string_from_chars(joined.as_slice());
        let mut lines: Vec<String> = Vec::new();
        std::mem::swap(&mut lines, &mut self.editor_lines);
        splice_line(&mut lines, sr, er, line);
        std::mem::swap(&mut lines, &mut self.editor_lines);
        self.cursor_row = sr;
        self.cursor_col = sc;
    }
}

/// Replaces lines `sr` through `er` of `lines` by the one line `line`.
fn splice_line(lines: &mut Vec<String>, sr: usize, er: usize, line: String)
    requires
        sr <= er < old(lines)@.len(),
    ensures
        lines_view(final(lines)@) == lines_view(old(lines)@).take(sr as int) + seq![line@]
            + lines_view(old(lines)@).skip(er + 1),
{
    let n = lines.len();
    let ghost lines0 = lines_view(lines@);
    let count = er - sr + 1;
    let mut k: usize = 0;
    while k < count
        invariant
            n == lines0.len(),
            sr <= er < n,
            count == er - sr + 1,
            k <= count,
            lines_view(lines@) == lines0.take(sr as int) + lines0.skip(sr + k),
        decreases count - k,
    {
        let ghost before = lines_view(lines@);
        lines.remove(sr);
        proof {
            assert(lines_view(lines@) =~= before.remove(sr as int));
            assert(lines0.take(sr as int) + lines0.skip(sr + k + 1) =~= (lines0.take(sr as int)
                + lines0.skip(sr + k)).remove(sr as int));
        }
        k = k + 1;
    }
    let ghost before = lines_view(lines@);
    lines.insert(sr, line);
    proof {
        assert(lines_view(lines@) =~= before.insert(sr as int, line@));
        assert(lines0.skip(sr + count) =~= lines0.skip(er + 1));
        assert(lines_view(lines@) =~= lines0.take(sr as int) + seq![line@] + lines0.skip(er + 1));
    }
}

/// The line left when characters from column `sc` of `first` through column `ec` of `last` are
/// deleted.
fn joined_line(first: &String, last: &String, sc: usize, ec: usize) -> (r: Vec<char>)
    ensures
        r@ == first@.take(cap(sc as nat, first@.len()) as int) + last@.skip(
            cap((ec + 1) as nat, last@.len()) as int,
        ),
{
    let f = chars_of(first.as_str());
    let l = chars_of(last.as_str());
    let a = if sc < f.len() {
        sc
    } else {
        f.len()
    };
    let b = if ec < l.len() && ec + 1 < l.len() {
        ec + 1
    } else {
        l.len()
    };
    let mut joined = char_range(&f, 0, a);
    let tail = char_range(&l, b, l.len());
    append_chars(&mut joined, tail.as_slice());
    assert(f@.subrange(0, a as int) =~= f@.take(a as int));
    assert(l@.subrange(b as int, l@.len() as int) =~= l@.skip(b as int));
    joined
}

} // verus!
